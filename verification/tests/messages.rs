use robots::serialize::deserializer::from_bytes;
use robots::serialize::schema::{decode, encode, Schema};
use robots::serialize::serializer::to_bytes;
use robots::serialize::value::{Shape, Value};
use robots::serialize::DeserError;
use robots::{
    Bomb, BombId, ClientMessage, Direction, DisplayMessage, Event, InputMessage, Player, PlayerId,
    Position, Score, ServerMessage, MAX_UDP_LENGTH,
};

#[test]
fn server_message_events() {
    let sm = ServerMessage::Turn {
        turn: 44,
        events: vec![
            Event::PlayerMoved {
                id: PlayerId(3),
                position: Position(2, 4),
            },
            Event::PlayerMoved {
                id: PlayerId(4),
                position: Position(3, 5),
            },
            Event::BombPlaced {
                id: BombId(5),
                position: Position(5, 7),
            },
        ],
    };
    let bytes = to_bytes(&sm.to_value()).unwrap();
    println!("{:?}", bytes);
    let value = from_bytes(&ServerMessage::shape(), &to_bytes(&sm.to_value()).unwrap()).unwrap();
    let sm2 = ServerMessage::from_value(&value).unwrap();
    assert_eq!(sm, sm2);
}

#[test]
fn turn_has_the_documented_bytes() {
    let sm = ServerMessage::Turn {
        turn: 44,
        events: vec![
            Event::PlayerMoved {
                id: PlayerId(3),
                position: Position(2, 4),
            },
            Event::BombPlaced {
                id: BombId(5),
                position: Position(5, 7),
            },
        ],
    };
    assert_eq!(
        encode(&sm).unwrap(),
        [3, 0, 44, 0, 0, 0, 2, 2, 3, 0, 2, 0, 4, 0, 0, 0, 0, 5, 0, 5, 0, 7]
    );
}

fn player(name: &str, address: &str) -> Player {
    Player {
        name: name.to_string(),
        socket_addr: address.to_string(),
    }
}

fn sample_game() -> DisplayMessage {
    DisplayMessage::Game {
        server_name: "arena".to_string(),
        size_x: 10,
        size_y: 12,
        game_length: 300,
        turn: 7,
        players: vec![
            (PlayerId(0), player("ann", "127.0.0.1:2000")),
            (PlayerId(1), player("bob", "[::1]:2001")),
        ],
        player_positions: vec![(PlayerId(0), Position(1, 1)), (PlayerId(1), Position(8, 9))],
        blocks: vec![Position(3, 3), Position(4, 4)],
        bombs: vec![Bomb {
            position: Position(2, 2),
            timer: 3,
        }],
        explosions: vec![],
        scores: vec![(PlayerId(0), Score { deaths: 2 }), (PlayerId(1), Score::default())],
    }
}

#[test]
fn every_message_round_trips() {
    let inputs = vec![
        InputMessage::PlaceBomb,
        InputMessage::PlaceBlock,
        InputMessage::Move {
            direction: Direction::Left,
        },
    ];
    for message in inputs {
        let bytes = encode(&message).unwrap();
        assert_eq!(decode::<InputMessage>(&bytes).unwrap(), message);
    }

    let clients = vec![
        ClientMessage::Join {
            name: "ann".to_string(),
        },
        ClientMessage::PlaceBomb,
        ClientMessage::PlaceBlock,
        ClientMessage::Move {
            direction: Direction::Down,
        },
    ];
    for message in clients {
        let bytes = encode(&message).unwrap();
        assert_eq!(decode::<ClientMessage>(&bytes).unwrap(), message);
    }

    let servers = vec![
        ServerMessage::Hello {
            server_name: "arena".to_string(),
            players_count: 2,
            size_x: 10,
            size_y: 12,
            game_length: 300,
            explosion_radius: 3,
            bomb_timer: 5,
        },
        ServerMessage::AcceptedPlayer {
            id: PlayerId(1),
            player: player("bob", "10.0.0.2:4000"),
        },
        ServerMessage::GameStarted {
            players: vec![(PlayerId(0), player("ann", "10.0.0.1:4000"))],
        },
        ServerMessage::Turn {
            turn: 1,
            events: vec![
                Event::BombExploded {
                    id: BombId(9),
                    killed: vec![PlayerId(0), PlayerId(1)],
                    blocks_destroyed: vec![Position(1, 2)],
                },
                Event::BlockPlaced {
                    position: Position(0, 0),
                },
            ],
        },
        ServerMessage::GameEnded {
            scores: vec![(PlayerId(0), Score { deaths: 4 })],
        },
    ];
    for message in servers {
        let bytes = encode(&message).unwrap();
        assert_eq!(decode::<ServerMessage>(&bytes).unwrap(), message);
    }

    let displays = vec![
        DisplayMessage::Lobby {
            server_name: "arena".to_string(),
            players_count: 2,
            size_x: 10,
            size_y: 12,
            game_length: 300,
            explosion_radius: 3,
            bomb_timer: 5,
            players: vec![(PlayerId(0), player("ann", "10.0.0.1:4000"))],
        },
        sample_game(),
    ];
    for message in displays {
        let bytes = encode(&message).unwrap();
        assert!(bytes.len() <= MAX_UDP_LENGTH);
        assert_eq!(decode::<DisplayMessage>(&bytes).unwrap(), message);
    }
}

#[test]
fn messages_have_the_bytes_of_their_fields_in_order() {
    assert_eq!(encode(&InputMessage::PlaceBomb).unwrap(), [0]);
    assert_eq!(encode(&InputMessage::PlaceBlock).unwrap(), [1]);
    assert_eq!(
        encode(&InputMessage::Move {
            direction: Direction::Right
        })
        .unwrap(),
        [2, 1]
    );
    assert_eq!(
        encode(&ClientMessage::Join {
            name: "ann".to_string()
        })
        .unwrap(),
        [0, 3, b'a', b'n', b'n']
    );
    assert_eq!(encode(&Direction::Up).unwrap(), [0]);
    assert_eq!(encode(&Direction::Left).unwrap(), [3]);
    assert_eq!(encode(&Position(0x0102, 0x0304)).unwrap(), [1, 2, 3, 4]);
    assert_eq!(encode(&PlayerId(7)).unwrap(), [7]);
    assert_eq!(encode(&BombId(0x01020304)).unwrap(), [1, 2, 3, 4]);
    assert_eq!(encode(&Score { deaths: 258 }).unwrap(), [0, 0, 1, 2]);
    assert_eq!(
        encode(&Bomb {
            position: Position(1, 2),
            timer: 3
        })
        .unwrap(),
        [0, 1, 0, 2, 0, 3]
    );
    assert_eq!(
        encode(&player("a", "1.2.3.4:5")).unwrap(),
        [1, b'a', 9, b'1', b'.', b'2', b'.', b'3', b'.', b'4', b':', b'5']
    );
    assert_eq!(
        encode(&ServerMessage::GameEnded {
            scores: vec![(PlayerId(2), Score { deaths: 1 })]
        })
        .unwrap(),
        [4, 0, 0, 0, 1, 2, 0, 0, 0, 1]
    );
}

#[test]
fn input_message_becomes_a_client_message() {
    assert_eq!(
        ClientMessage::from(InputMessage::PlaceBomb),
        ClientMessage::PlaceBomb
    );
    assert_eq!(
        ClientMessage::from(InputMessage::PlaceBlock),
        ClientMessage::PlaceBlock
    );
    assert_eq!(
        ClientMessage::from(InputMessage::Move {
            direction: Direction::Up
        }),
        ClientMessage::Move {
            direction: Direction::Up
        }
    );
}

#[test]
fn a_name_that_is_too_long_cannot_be_sent() {
    let message = ClientMessage::Join {
        name: "x".repeat(256),
    };
    assert!(matches!(encode(&message), Err(DeserError::Int(_))));
}

#[test]
fn a_value_of_another_shape_is_no_message() {
    assert_eq!(Position::from_value(&Value::U16(1)), None);
    assert_eq!(
        Position::from_value(&Value::Tuple(vec![Value::U16(1)])),
        None
    );
    assert_eq!(
        Position::from_value(&Value::Tuple(vec![Value::U16(1), Value::U8(2)])),
        None
    );
    assert_eq!(
        Position::from_value(&Value::Tuple(vec![Value::U16(1), Value::U16(2)])),
        Some(Position(1, 2))
    );
    assert_eq!(Direction::from_value(&Value::Variant(4, vec![])), None);
    assert_eq!(
        Direction::from_value(&Value::Variant(0, vec![Value::Unit])),
        None
    );
    assert_eq!(
        Direction::from_value(&Value::Variant(2, vec![])),
        Some(Direction::Down)
    );
    assert_eq!(
        <Vec<PlayerId>>::from_value(&Value::Sequence(vec![
            Value::Tuple(vec![Value::U8(1)]),
            Value::U8(2)
        ])),
        None
    );
    assert_eq!(u8::from_value(&Value::U16(1)), None);
    assert_eq!(u16::from_value(&Value::U16(1)), Some(1));
    assert_eq!(u32::from_value(&Value::U32(5)), Some(5));
    assert_eq!(String::from_value(&Value::Unit), None);
}

#[test]
fn shapes_name_the_variants_in_declared_order() {
    assert_eq!(
        Direction::shape(),
        Shape::Union(vec![vec![], vec![], vec![], vec![]])
    );
    assert_eq!(
        InputMessage::shape(),
        Shape::Union(vec![vec![], vec![], vec![Direction::shape()]])
    );
    assert_eq!(Position::shape(), Shape::Tuple(vec![Shape::U16, Shape::U16]));
    assert_eq!(
        <Vec<(PlayerId, Score)>>::shape(),
        Shape::Mapping(
            Box::new(Shape::Tuple(vec![Shape::U8])),
            Box::new(Shape::Tuple(vec![Shape::U32]))
        )
    );
}

#[test]
fn decoding_a_message_reports_the_codec_errors() {
    assert!(matches!(
        decode::<Direction>(&[4]),
        Err(DeserError::Decoding(_))
    ));
    assert!(matches!(
        decode::<Direction>(&[1, 0]),
        Err(DeserError::TrailingData)
    ));
    assert!(decode::<Position>(&[0, 1, 0]).unwrap_err().is_end_of_input());
    assert!(matches!(
        decode::<ClientMessage>(&[0, 1, 0xff]),
        Err(DeserError::Utf8(_))
    ));
}
