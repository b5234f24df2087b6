//! The messages of the robots game and the codec that carries them between processes.

use vstd::prelude::*;
use vstd::std_specs::convert::FromSpecImpl;

pub mod display;
pub mod listener;
pub mod random;
pub mod schemas;
pub mod serialize;

verus! {

/// The most bytes that one datagram can carry.
pub const MAX_UDP_LENGTH: usize = 65_535;

/// Whether no key stands twice among `entries`: what makes a list of pairs a map.
pub open spec fn no_key_twice<V>(entries: Seq<(PlayerId, V)>) -> bool {
    forall|i: int, j: int|
        0 <= i < j < entries.len() ==> (#[trigger] entries[i]).0 != (#[trigger] entries[j]).0
}

/// Whether no element stands twice among `items`: what makes a list a set.
pub open spec fn no_element_twice<T>(items: Seq<T>) -> bool {
    forall|i: int, j: int| 0 <= i < j < items.len() ==> #[trigger] items[i] != #[trigger] items[j]
}

/// What the display sends to the client: one key press.
#[derive(Debug, Clone, PartialEq, Eq, Hash)]
pub enum InputMessage {
    PlaceBomb,
    PlaceBlock,
    Move { direction: Direction },
}

/// What the client sends to the display: the whole of what is to be drawn.
///
/// Sets and maps are lists here, in the order in which they stand on the wire. A list is
/// a set where no element stands twice in it, and a map where no key does: `well_formed`
/// says so of a message. Of a key that stands twice, the last entry counts.
#[allow(clippy::large_enum_variant)]
#[derive(Debug, Clone, PartialEq, Eq)]
pub enum DisplayMessage {
    Lobby {
        server_name: String,
        players_count: u8,
        size_x: u16,
        size_y: u16,
        game_length: u16,
        explosion_radius: u16,
        bomb_timer: u16,
        players: Vec<(PlayerId, Player)>,
    },
    Game {
        server_name: String,
        size_x: u16,
        size_y: u16,
        game_length: u16,
        turn: u16,
        players: Vec<(PlayerId, Player)>,
        player_positions: Vec<(PlayerId, Position)>,
        blocks: Vec<Position>,
        bombs: Vec<Bomb>,
        explosions: Vec<Position>,
        scores: Vec<(PlayerId, Score)>,
    },
}

/// What the client sends to the server.
#[derive(Debug, Clone, PartialEq, Eq, Hash)]
pub enum ClientMessage {
    Join { name: String },
    PlaceBomb,
    PlaceBlock,
    Move { direction: Direction },
}

impl From<InputMessage> for ClientMessage {
    fn from(input_message: InputMessage) -> (client_message: ClientMessage) {
        match input_message {
            InputMessage::PlaceBomb => ClientMessage::PlaceBomb,
            InputMessage::PlaceBlock => ClientMessage::PlaceBlock,
            InputMessage::Move { direction } => ClientMessage::Move { direction },
        }
    }
}

impl FromSpecImpl<InputMessage> for ClientMessage {
    open spec fn obeys_from_spec() -> bool {
        true
    }

    /// The same command, as the server takes it.
    open spec fn from_spec(input_message: InputMessage) -> ClientMessage {
        match input_message {
            InputMessage::PlaceBomb => ClientMessage::PlaceBomb,
            InputMessage::PlaceBlock => ClientMessage::PlaceBlock,
            InputMessage::Move { direction } => ClientMessage::Move { direction },
        }
    }
}

#[derive(Debug, Clone, Copy, PartialEq, Eq, Hash)]
pub enum Direction {
    Up,
    Right,
    Down,
    Left,
}

#[derive(Debug, Clone, PartialEq, Eq, Hash)]
pub struct Bomb {
    pub position: Position,
    pub timer: u16,
}

/// What the server sends to the client.
///
/// Maps are lists of pairs here, in the order in which they stand on the wire. A list is a
/// map where no key stands twice in it: `well_formed` says so of a message. Of a key that
/// stands twice, the last entry counts.
#[derive(Debug, Clone, PartialEq, Eq)]
pub enum ServerMessage {
    Hello {
        server_name: String,
        players_count: u8,
        size_x: u16,
        size_y: u16,
        game_length: u16,
        explosion_radius: u16,
        bomb_timer: u16,
    },
    AcceptedPlayer { id: PlayerId, player: Player },
    GameStarted { players: Vec<(PlayerId, Player)> },
    Turn { turn: u16, events: Vec<Event> },
    GameEnded { scores: Vec<(PlayerId, Score)> },
}

#[derive(Debug, Clone, PartialEq, Eq, Hash, Default)]
pub struct Score {
    pub deaths: u32,
}

/// A player: the name, and the address in its textual form.
#[derive(Debug, Clone, PartialEq, Eq, Hash)]
pub struct Player {
    pub name: String,
    pub socket_addr: String,
}

#[derive(Debug, Clone, Copy, PartialEq, Eq, Hash)]
pub struct Position(pub u16, pub u16);

#[derive(Debug, Clone, Copy, PartialEq, Eq, Hash, Default, Ord, PartialOrd)]
pub struct PlayerId(pub u8);

#[derive(Debug, Clone, Copy, PartialEq, Eq, Hash, Default, Ord, PartialOrd)]
pub struct BombId(pub u32);

/// What happened in a turn.
///
/// Sets are lists here, in the order in which they stand on the wire. A list is a set
/// where no element stands twice in it: `well_formed` says so of an event.
#[derive(Debug, Clone, PartialEq, Eq)]
pub enum Event {
    BombPlaced { id: BombId, position: Position },
    BombExploded {
        id: BombId,
        killed: Vec<PlayerId>,
        blocks_destroyed: Vec<Position>,
    },
    PlayerMoved { id: PlayerId, position: Position },
    BlockPlaced { position: Position },
}

impl Event {
    /// Whether the list that stands for a set holds no element twice.
    pub open spec fn well_formed(&self) -> bool {
        match self {
            Event::BombExploded { blocks_destroyed, .. } => no_element_twice(blocks_destroyed@),
            _ => true,
        }
    }
}

impl ServerMessage {
    /// Whether the lists that stand for maps hold no key twice, and every event is well
    /// formed.
    pub open spec fn well_formed(&self) -> bool {
        match self {
            ServerMessage::GameStarted { players } => no_key_twice(players@),
            ServerMessage::Turn { events, .. } => forall|i: int|
                0 <= i < events@.len() ==> (#[trigger] events@[i]).well_formed(),
            ServerMessage::GameEnded { scores } => no_key_twice(scores@),
            _ => true,
        }
    }
}

impl DisplayMessage {
    /// Whether the lists that stand for maps hold no key twice, and those that stand for
    /// sets no element twice.
    pub open spec fn well_formed(&self) -> bool {
        match self {
            DisplayMessage::Lobby { players, .. } => no_key_twice(players@),
            DisplayMessage::Game {
                players,
                player_positions,
                blocks,
                bombs,
                explosions,
                scores,
                ..
            } => {
                &&& no_key_twice(players@)
                &&& no_key_twice(player_positions@)
                &&& no_element_twice(blocks@)
                &&& no_element_twice(bombs@)
                &&& no_element_twice(explosions@)
                &&& no_key_twice(scores@)
            },
        }
    }
}

} // verus!
