//! What the display decides before anything is drawn: which command a key stands for, which
//! players are shown, and which sprites make up the board, in the order in which they are
//! laid down.

use vstd::prelude::*;
use crate::{no_key_twice, Bomb, Direction, InputMessage, Player, PlayerId, Position, Score};

verus! {

/// A key of the keyboard.
#[derive(Debug, Clone, Copy, PartialEq, Eq)]
pub enum Key {
    W,
    A,
    S,
    D,
    Up,
    Left,
    Down,
    Right,
    Space,
    J,
    Z,
    K,
    X,
    /// Any key that stands for no command.
    Other,
}

/// The command that `key` stands for, if it stands for one.
pub open spec fn command(key: Key) -> Option<InputMessage> {
    match key {
        Key::W | Key::Up => Some(InputMessage::Move { direction: Direction::Up }),
        Key::A | Key::Left => Some(InputMessage::Move { direction: Direction::Left }),
        Key::S | Key::Down => Some(InputMessage::Move { direction: Direction::Down }),
        Key::D | Key::Right => Some(InputMessage::Move { direction: Direction::Right }),
        Key::Space | Key::J | Key::Z => Some(InputMessage::PlaceBomb),
        Key::K | Key::X => Some(InputMessage::PlaceBlock),
        Key::Other => None,
    }
}

/// The message to send when `key` is pressed, if any.
pub fn input_for_key(key: Key) -> (message: Option<InputMessage>)
    ensures
        message == command(key),
{
    match key {
        Key::W | Key::Up => Some(InputMessage::Move { direction: Direction::Up }),
        Key::A | Key::Left => Some(InputMessage::Move { direction: Direction::Left }),
        Key::S | Key::Down => Some(InputMessage::Move { direction: Direction::Down }),
        Key::D | Key::Right => Some(InputMessage::Move { direction: Direction::Right }),
        Key::Space | Key::J | Key::Z => Some(InputMessage::PlaceBomb),
        Key::K | Key::X => Some(InputMessage::PlaceBlock),
        Key::Other => None,
    }
}

/// The number of colors that the players are drawn in, one after the other and then again
/// from the first.
pub const COLORS: usize = 10;

/// What a sprite shows.
#[derive(Debug, Clone, Copy, PartialEq, Eq)]
pub enum SpawnType {
    /// A player, in the color with the given number.
    Player(usize),
    Bomb,
    Block,
    Explosion,
    /// One field of the board.
    Grid,
}

/// One thing to draw, and the field of the board to draw it on.
#[derive(Debug, Clone, Copy, PartialEq, Eq)]
pub struct Sprite {
    pub position: Position,
    pub what: SpawnType,
}

/// A player as the display shows it.
#[derive(Debug, Clone, PartialEq, Eq)]
pub struct Standing {
    pub id: PlayerId,
    pub name: String,
    pub score: Score,
    pub position: Position,
    /// The number of the color of the player.
    pub color: usize,
}

/// The value of the last of the first `count` entries whose key is `id`.
pub open spec fn find_among<V>(entries: Seq<(PlayerId, V)>, id: PlayerId, count: int) -> Option<V>
    decreases count,
{
    if count <= 0 || count > entries.len() {
        None
    } else if entries[count - 1].0 == id {
        Some(entries[count - 1].1)
    } else {
        find_among(entries, id, count - 1)
    }
}

/// The value that the map `entries` has for the key `id`: that of the last entry of the
/// key, as a later entry of a key replaces an earlier one. Where no key stands twice it is
/// the value of the one entry of the key.
pub open spec fn find<V>(entries: Seq<(PlayerId, V)>, id: PlayerId) -> Option<V> {
    find_among(entries, id, entries.len() as int)
}

/// In a map in which no key stands twice, the value of a key is that of its one entry.
pub proof fn lemma_find_the_entry<V>(entries: Seq<(PlayerId, V)>, k: int)
    requires
        no_key_twice(entries),
        0 <= k < entries.len(),
    ensures
        find(entries, entries[k].0) == Some(entries[k].1),
{
    lemma_find_among_the_entry(entries, k, entries.len() as int);
}

proof fn lemma_find_among_the_entry<V>(entries: Seq<(PlayerId, V)>, k: int, count: int)
    requires
        no_key_twice(entries),
        0 <= k < count <= entries.len(),
    ensures
        find_among(entries, entries[k].0, count) == Some(entries[k].1),
    decreases count,
{
    if count - 1 > k {
        assert(entries[k].0 != entries[count - 1].0);
        lemma_find_among_the_entry(entries, k, count - 1);
    }
}

/// Whether the player at `i` is shown: the one with both a position and a score.
pub open spec fn shown(
    players: Seq<(PlayerId, Player)>,
    positions: Seq<(PlayerId, Position)>,
    scores: Seq<(PlayerId, Score)>,
    i: int,
) -> bool {
    find(positions, players[i].0) is Some && find(scores, players[i].0) is Some
}

/// How many of the first `count` players are shown.
pub open spec fn shown_among(
    players: Seq<(PlayerId, Player)>,
    positions: Seq<(PlayerId, Position)>,
    scores: Seq<(PlayerId, Score)>,
    count: int,
) -> nat
    decreases count,
{
    if count <= 0 {
        0
    } else {
        shown_among(players, positions, scores, count - 1) + if shown(
            players,
            positions,
            scores,
            count - 1,
        ) {
            1nat
        } else {
            0nat
        }
    }
}

/// Whether `standing` shows the player at `i`: its name, its position, its score, and the
/// color that its place among all players gives it, shown or not.
pub open spec fn shows(
    standing: Standing,
    players: Seq<(PlayerId, Player)>,
    positions: Seq<(PlayerId, Position)>,
    scores: Seq<(PlayerId, Score)>,
    i: int,
) -> bool {
    &&& standing.id == players[i].0
    &&& standing.name@ == players[i].1.name@
    &&& Some(standing.position) == find(positions, players[i].0)
    &&& Some(standing.score) == find(scores, players[i].0)
    &&& standing.color == i % 10
}

fn position_of(entries: &Vec<(PlayerId, Position)>, id: PlayerId) -> (r: Option<Position>)
    ensures
        r == find(entries@, id),
{
    let mut i: usize = entries.len();
    while i > 0
        invariant
            i <= entries@.len(),
            find(entries@, id) == find_among(entries@, id, i as int),
        decreases i,
    {
        i -= 1;
        if entries[i].0.0 == id.0 {
            return Some(entries[i].1);
        }
    }
    None
}

fn score_of(entries: &Vec<(PlayerId, Score)>, id: PlayerId) -> (r: Option<Score>)
    ensures
        r == find(entries@, id),
{
    let mut i: usize = entries.len();
    while i > 0
        invariant
            i <= entries@.len(),
            find(entries@, id) == find_among(entries@, id, i as int),
        decreases i,
    {
        i -= 1;
        if entries[i].0.0 == id.0 {
            return Some(Score { deaths: entries[i].1.deaths });
        }
    }
    None
}

/// The players to show: those with both a position and a score, in the order of `players`.
/// The three lists are maps: of a key that stands twice, the last entry counts.
pub fn standings(
    players: &Vec<(PlayerId, Player)>,
    player_positions: &Vec<(PlayerId, Position)>,
    scores: &Vec<(PlayerId, Score)>,
) -> (r: Vec<Standing>)
    ensures
        r@.len() == shown_among(players@, player_positions@, scores@, players@.len() as int),
        forall|i: int|
            0 <= i < players@.len() && #[trigger] shown(players@, player_positions@, scores@, i)
                ==> shows(
                r@[shown_among(players@, player_positions@, scores@, i) as int],
                players@,
                player_positions@,
                scores@,
                i,
            ),
{
    let mut r: Vec<Standing> = Vec::new();
    let mut i: usize = 0;
    while i < players.len()
        invariant
            i <= players@.len(),
            r@.len() == shown_among(players@, player_positions@, scores@, i as int),
            forall|j: int|
                0 <= j < i && #[trigger] shown(players@, player_positions@, scores@, j) ==> shows(
                    r@[shown_among(players@, player_positions@, scores@, j) as int],
                    players@,
                    player_positions@,
                    scores@,
                    j,
                ),
        decreases players@.len() - i,
    {
        let id = players[i].0;
        let score = score_of(scores, id);
        let position = position_of(player_positions, id);
        proof {
            lemma_shown_among_grows(players@, player_positions@, scores@, i as int);
        }
        match (score, position) {
            (Some(score), Some(position)) => {
                let name = players[i].1.name.clone();
                r.push(Standing { id, name, score, position, color: i % COLORS });
            },
            _ => {},
        }
        i += 1;
    }
    r
}

/// The number of players shown grows with the number of players looked at.
pub proof fn lemma_shown_among_grows(
    players: Seq<(PlayerId, Player)>,
    positions: Seq<(PlayerId, Position)>,
    scores: Seq<(PlayerId, Score)>,
    count: int,
)
    ensures
        forall|j: int|
            0 <= j <= count ==> #[trigger] shown_among(players, positions, scores, j)
                <= shown_among(players, positions, scores, count),
        forall|j: int|
            0 <= j < count && shown(players, positions, scores, j) ==> #[trigger] shown_among(
                players,
                positions,
                scores,
                j,
            ) < shown_among(players, positions, scores, count),
    decreases count,
{
    if count > 0 {
        lemma_shown_among_grows(players, positions, scores, count - 1);
    }
}

/// The fields of the column `x` of a board with `size_y` rows, from the first row on.
pub open spec fn column(x: u16, size_y: nat) -> Seq<Sprite> {
    Seq::new(
        size_y,
        |y: int| Sprite { position: Position(x, y as u16), what: SpawnType::Grid },
    )
}

/// The fields of the first `columns` columns of a board with `size_y` rows, column after
/// column.
pub open spec fn grid(columns: nat, size_y: nat) -> Seq<Sprite>
    decreases columns,
{
    if columns == 0 {
        Seq::empty()
    } else {
        grid((columns - 1) as nat, size_y) + column((columns - 1) as u16, size_y)
    }
}

/// The sprite of the block at `p`.
pub open spec fn block_at(p: Position) -> Sprite {
    Sprite { position: p, what: SpawnType::Block }
}

/// The sprite of the explosion at `p`.
pub open spec fn explosion_at(p: Position) -> Sprite {
    Sprite { position: p, what: SpawnType::Explosion }
}

/// The sprite of the bomb `b`.
pub open spec fn bomb_of(b: Bomb) -> Sprite {
    Sprite { position: b.position, what: SpawnType::Bomb }
}

/// The sprite of the player that `s` shows.
pub open spec fn player_of(s: Standing) -> Sprite {
    Sprite { position: s.position, what: SpawnType::Player(s.color) }
}

/// The sprites of a game, in the order in which they are laid down: the board, the blocks,
/// the explosions, the bombs and, on top, the players.
pub open spec fn board(
    size_x: u16,
    size_y: u16,
    blocks: Seq<Position>,
    bombs: Seq<Bomb>,
    explosions: Seq<Position>,
    standings: Seq<Standing>,
) -> Seq<Sprite> {
    grid(size_x as nat, size_y as nat) + blocks.map_values(|p: Position| block_at(p))
        + explosions.map_values(|p: Position| explosion_at(p)) + bombs.map_values(
        |b: Bomb| bomb_of(b),
    ) + standings.map_values(|s: Standing| player_of(s))
}

/// The sprites of a game, in the order in which they are laid down.
pub fn sprites(
    size_x: u16,
    size_y: u16,
    blocks: &Vec<Position>,
    bombs: &Vec<Bomb>,
    explosions: &Vec<Position>,
    standings: &Vec<Standing>,
) -> (r: Vec<Sprite>)
    ensures
        r@ == board(size_x, size_y, blocks@, bombs@, explosions@, standings@),
{
    let mut r: Vec<Sprite> = Vec::new();
    let mut x: u16 = 0;
    while x < size_x
        invariant
            x <= size_x,
            r@ == grid(x as nat, size_y as nat),
        decreases size_x - x,
    {
        let ghost before = r@;
        let mut y: u16 = 0;
        while y < size_y
            invariant
                y <= size_y,
                r@ == before + column(x, size_y as nat).take(y as int),
            decreases size_y - y,
        {
            r.push(Sprite { position: Position(x, y), what: SpawnType::Grid });
            y += 1;
        }
        assert(column(x, size_y as nat).take(size_y as int) =~= column(x, size_y as nat));
        x += 1;
    }
    let ghost laid = r@;
    let mut i: usize = 0;
    while i < blocks.len()
        invariant
            i <= blocks@.len(),
            r@ == laid + blocks@.take(i as int).map_values(|p: Position| block_at(p)),
        decreases blocks@.len() - i,
    {
        r.push(Sprite { position: blocks[i], what: SpawnType::Block });
        i += 1;
    }
    assert(blocks@.take(blocks@.len() as int) =~= blocks@);
    let ghost laid = r@;
    let mut i: usize = 0;
    while i < explosions.len()
        invariant
            i <= explosions@.len(),
            r@ == laid + explosions@.take(i as int).map_values(|p: Position| explosion_at(p)),
        decreases explosions@.len() - i,
    {
        r.push(Sprite { position: explosions[i], what: SpawnType::Explosion });
        i += 1;
    }
    assert(explosions@.take(explosions@.len() as int) =~= explosions@);
    let ghost laid = r@;
    let mut i: usize = 0;
    while i < bombs.len()
        invariant
            i <= bombs@.len(),
            r@ == laid + bombs@.take(i as int).map_values(|b: Bomb| bomb_of(b)),
        decreases bombs@.len() - i,
    {
        r.push(Sprite { position: bombs[i].position, what: SpawnType::Bomb });
        i += 1;
    }
    assert(bombs@.take(bombs@.len() as int) =~= bombs@);
    let ghost laid = r@;
    let mut i: usize = 0;
    while i < standings.len()
        invariant
            i <= standings@.len(),
            r@ == laid + standings@.take(i as int).map_values(|s: Standing| player_of(s)),
        decreases standings@.len() - i,
    {
        r.push(
            Sprite { position: standings[i].position, what: SpawnType::Player(standings[i].color) },
        );
        i += 1;
    }
    assert(standings@.take(standings@.len() as int) =~= standings@);
    r
}

} // verus!
