use robots::display::{input_for_key, sprites, standings, Key, SpawnType, Sprite, Standing, COLORS};
use robots::listener::MessageType;
use robots::{Bomb, Direction, InputMessage, Player, PlayerId, Position, Score};

#[test]
fn keys_stand_for_commands() {
    let moves = [
        (Key::W, Direction::Up),
        (Key::Up, Direction::Up),
        (Key::A, Direction::Left),
        (Key::Left, Direction::Left),
        (Key::S, Direction::Down),
        (Key::Down, Direction::Down),
        (Key::D, Direction::Right),
        (Key::Right, Direction::Right),
    ];
    for (key, direction) in moves {
        assert_eq!(input_for_key(key), Some(InputMessage::Move { direction }));
    }
    for key in [Key::Space, Key::J, Key::Z] {
        assert_eq!(input_for_key(key), Some(InputMessage::PlaceBomb));
    }
    for key in [Key::K, Key::X] {
        assert_eq!(input_for_key(key), Some(InputMessage::PlaceBlock));
    }
    assert_eq!(input_for_key(Key::Other), None);
}

fn player(name: &str) -> Player {
    Player {
        name: name.to_string(),
        socket_addr: "127.0.0.1:1".to_string(),
    }
}

#[test]
fn players_without_score_or_position_are_not_shown() {
    let players = vec![
        (PlayerId(0), player("ann")),
        (PlayerId(1), player("bob")),
        (PlayerId(2), player("cyd")),
        (PlayerId(3), player("dee")),
    ];
    let positions = vec![
        (PlayerId(3), Position(3, 3)),
        (PlayerId(0), Position(0, 1)),
        (PlayerId(1), Position(1, 1)),
    ];
    let scores = vec![
        (PlayerId(0), Score { deaths: 5 }),
        (PlayerId(2), Score { deaths: 6 }),
        (PlayerId(3), Score { deaths: 7 }),
    ];
    assert_eq!(
        standings(&players, &positions, &scores),
        vec![
            Standing {
                id: PlayerId(0),
                name: "ann".to_string(),
                score: Score { deaths: 5 },
                position: Position(0, 1),
                color: 0,
            },
            // the colors go by the place among all players, shown or not
            Standing {
                id: PlayerId(3),
                name: "dee".to_string(),
                score: Score { deaths: 7 },
                position: Position(3, 3),
                color: 3,
            },
        ]
    );
    assert_eq!(standings(&vec![], &positions, &scores), vec![]);
}

#[test]
fn colors_start_over_after_the_last() {
    let players: Vec<(PlayerId, Player)> = (0..12).map(|i| (PlayerId(i), player("p"))).collect();
    let positions: Vec<(PlayerId, Position)> =
        (0..12).map(|i| (PlayerId(i), Position(0, 0))).collect();
    let scores: Vec<(PlayerId, Score)> = (0..12).map(|i| (PlayerId(i), Score::default())).collect();
    let shown = standings(&players, &positions, &scores);
    assert_eq!(shown.len(), 12);
    assert_eq!(COLORS, 10);
    for (i, standing) in shown.iter().enumerate() {
        assert_eq!(standing.color, i % 10);
    }
}

#[test]
fn the_last_entry_of_a_key_counts() {
    let players = vec![(PlayerId(7), player("ann"))];
    let positions = vec![
        (PlayerId(7), Position(1, 1)),
        (PlayerId(8), Position(9, 9)),
        (PlayerId(7), Position(2, 2)),
    ];
    let scores = vec![(PlayerId(7), Score { deaths: 1 }), (PlayerId(7), Score { deaths: 2 })];
    let shown = standings(&players, &positions, &scores);
    assert_eq!(shown.len(), 1);
    assert_eq!(shown[0].position, Position(2, 2));
    assert_eq!(shown[0].score, Score { deaths: 2 });
}

#[test]
fn the_board_is_laid_down_column_by_column_then_what_stands_on_it() {
    let shown = vec![Standing {
        id: PlayerId(4),
        name: "ann".to_string(),
        score: Score::default(),
        position: Position(1, 0),
        color: 4,
    }];
    let board = sprites(
        2,
        3,
        &vec![Position(0, 0)],
        &vec![Bomb {
            position: Position(1, 2),
            timer: 9,
        }],
        &vec![Position(1, 1), Position(0, 2)],
        &shown,
    );
    let at = |x, y, what| Sprite {
        position: Position(x, y),
        what,
    };
    assert_eq!(
        board,
        vec![
            at(0, 0, SpawnType::Grid),
            at(0, 1, SpawnType::Grid),
            at(0, 2, SpawnType::Grid),
            at(1, 0, SpawnType::Grid),
            at(1, 1, SpawnType::Grid),
            at(1, 2, SpawnType::Grid),
            at(0, 0, SpawnType::Block),
            at(1, 1, SpawnType::Explosion),
            at(0, 2, SpawnType::Explosion),
            at(1, 2, SpawnType::Bomb),
            at(1, 0, SpawnType::Player(4)),
        ]
    );
    assert_eq!(sprites(0, 5, &vec![], &vec![], &vec![], &vec![]), vec![]);
    assert_eq!(sprites(5, 0, &vec![], &vec![], &vec![], &vec![]), vec![]);
}

#[test]
fn message_types_go_by_their_names() {
    assert_eq!(MessageType::parse("client"), Ok(MessageType::Client));
    assert_eq!(MessageType::parse("server"), Ok(MessageType::Server));
    assert_eq!(MessageType::parse("display"), Ok(MessageType::Display));
    assert_eq!(MessageType::parse("input"), Ok(MessageType::Input));
    assert_eq!(
        MessageType::parse("Client"),
        Err("Unknown message type: Client".to_string())
    );
    assert_eq!(
        "".parse::<MessageType>(),
        Err("Unknown message type: ".to_string())
    );
    assert_eq!("input".parse::<MessageType>(), Ok(MessageType::Input));
}
