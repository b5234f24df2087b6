//! How each type of messages describes itself to the codec.
//!
//! A record is the tuple of its fields, in declared order; an enum is a tagged union whose
//! variants stand in declared order, each with its fields in declared order.

use vstd::prelude::*;
use crate::serialize::schema::{record_fields, variant_fields, Schema};
use crate::serialize::value::{data_of, layouts_of, variants_of, Datum, Layout, Shape, Value};
use crate::serialize::wire::{conforms, conforms_all};
use crate::{
    Bomb, BombId, ClientMessage, Direction, DisplayMessage, Event, InputMessage, Player, PlayerId,
    Position, Score, ServerMessage,
};

verus! {

impl Schema for InputMessage {
    open spec fn layout() -> Layout {
        Layout::Union(
            seq![Seq::empty(), Seq::empty(), seq![Direction::layout()]],
        )
    }

    open spec fn datum(&self) -> Datum {
        match self {
            InputMessage::PlaceBomb => Datum::Variant(0, Seq::empty()),
            InputMessage::PlaceBlock => Datum::Variant(1, Seq::empty()),
            InputMessage::Move { direction } => Datum::Variant(2, seq![direction.datum()]),
        }
    }

    fn shape() -> Shape {
        let v0: Vec<Shape> = Vec::new();
        assert(layouts_of(v0@) =~= Seq::<Layout>::empty());
        let v1: Vec<Shape> = Vec::new();
        assert(layouts_of(v1@) =~= Seq::<Layout>::empty());
        let v2: Vec<Shape> = vec![Direction::shape()];
        assert(layouts_of(v2@) =~= seq![Direction::layout()]);
        let variants = vec![v0, v1, v2];
        assert(variants_of(variants@) =~= Self::layout()->Union_0);
        Shape::Union(variants)
    }

    fn to_value(&self) -> Value {
        match self {
            InputMessage::PlaceBomb => {
                let fields: Vec<Value> = Vec::new();
                assert(data_of(fields@) =~= Seq::<Datum>::empty());
                Value::Variant(0, fields)
            },
            InputMessage::PlaceBlock => {
                let fields: Vec<Value> = Vec::new();
                assert(data_of(fields@) =~= Seq::<Datum>::empty());
                Value::Variant(1, fields)
            },
            InputMessage::Move { direction } => {
                let fields: Vec<Value> = vec![direction.to_value()];
                assert(data_of(fields@) =~= seq![direction.datum()]);
                Value::Variant(2, fields)
            },
        }
    }

    fn from_value(value: &Value) -> Option<InputMessage> {
        let (index, fields) = variant_fields(value)?;
        let ghost variants = Self::layout()->Union_0;
        match index {
            0 => {
                assert(variants[0] =~= Seq::<Layout>::empty());
                if fields.len() != 0 {
                    return None;
                }
                assert(data_of(fields@) =~= Seq::<Datum>::empty());
                Some(InputMessage::PlaceBomb)
            },
            1 => {
                assert(variants[1] =~= Seq::<Layout>::empty());
                if fields.len() != 0 {
                    return None;
                }
                assert(data_of(fields@) =~= Seq::<Datum>::empty());
                Some(InputMessage::PlaceBlock)
            },
            2 => {
                assert(variants[2] =~= seq![Direction::layout()]);
                if fields.len() != 1 {
                    return None;
                }
                let direction = Direction::from_value(&fields[0])?;
                assert(data_of(fields@) =~= seq![direction.datum()]);
                Some(InputMessage::Move { direction })
            },
            _ => None,
        }
    }

    proof fn lemma_conforms(&self) {
        let variants = Self::layout()->Union_0;
        match self {
            InputMessage::PlaceBomb => {
                let ds: Seq<Datum> = Seq::empty();
                let ls: Seq<Layout> = Seq::empty();
                assert(conforms_all(ds, ls));
                assert(variants[0] == ls);
            },
            InputMessage::PlaceBlock => {
                let ds: Seq<Datum> = Seq::empty();
                let ls: Seq<Layout> = Seq::empty();
                assert(conforms_all(ds, ls));
                assert(variants[1] == ls);
            },
            InputMessage::Move { direction } => {
                let ds: Seq<Datum> = seq![direction.datum()];
                let ls: Seq<Layout> = seq![Direction::layout()];
                assert forall|i: int| 0 <= i < ds.len() implies conforms(
                    #[trigger] ds[i],
                    ls[i],
                ) by {
                    direction.lemma_conforms();
                }
                assert(conforms_all(ds, ls));
                assert(variants[2] == ls);
            },
        }
    }
}

impl Schema for DisplayMessage {
    open spec fn layout() -> Layout {
        Layout::Union(
            seq![
                seq![
                    String::layout(),
                    u8::layout(),
                    u16::layout(),
                    u16::layout(),
                    u16::layout(),
                    u16::layout(),
                    u16::layout(),
                    <Vec<(PlayerId, Player)>>::layout(),
                ],
                seq![
                    String::layout(),
                    u16::layout(),
                    u16::layout(),
                    u16::layout(),
                    u16::layout(),
                    <Vec<(PlayerId, Player)>>::layout(),
                    <Vec<(PlayerId, Position)>>::layout(),
                    <Vec<Position>>::layout(),
                    <Vec<Bomb>>::layout(),
                    <Vec<Position>>::layout(),
                    <Vec<(PlayerId, Score)>>::layout(),
                ],
            ],
        )
    }

    open spec fn datum(&self) -> Datum {
        match self {
            DisplayMessage::Lobby {
                server_name,
                players_count,
                size_x,
                size_y,
                game_length,
                explosion_radius,
                bomb_timer,
                players,
            } => Datum::Variant(
                0,
                seq![
                    server_name.datum(),
                    players_count.datum(),
                    size_x.datum(),
                    size_y.datum(),
                    game_length.datum(),
                    explosion_radius.datum(),
                    bomb_timer.datum(),
                    players.datum(),
                ],
            ),
            DisplayMessage::Game {
                server_name,
                size_x,
                size_y,
                game_length,
                turn,
                players,
                player_positions,
                blocks,
                bombs,
                explosions,
                scores,
            } => Datum::Variant(
                1,
                seq![
                    server_name.datum(),
                    size_x.datum(),
                    size_y.datum(),
                    game_length.datum(),
                    turn.datum(),
                    players.datum(),
                    player_positions.datum(),
                    blocks.datum(),
                    bombs.datum(),
                    explosions.datum(),
                    scores.datum(),
                ],
            ),
        }
    }

    fn shape() -> Shape {
        let v0: Vec<Shape> = vec![
            String::shape(),
            u8::shape(),
            u16::shape(),
            u16::shape(),
            u16::shape(),
            u16::shape(),
            u16::shape(),
            <Vec<(PlayerId, Player)>>::shape(),
        ];
        assert(layouts_of(v0@) =~= seq![
            String::layout(),
            u8::layout(),
            u16::layout(),
            u16::layout(),
            u16::layout(),
            u16::layout(),
            u16::layout(),
            <Vec<(PlayerId, Player)>>::layout(),
        ]);
        let v1: Vec<Shape> = vec![
            String::shape(),
            u16::shape(),
            u16::shape(),
            u16::shape(),
            u16::shape(),
            <Vec<(PlayerId, Player)>>::shape(),
            <Vec<(PlayerId, Position)>>::shape(),
            <Vec<Position>>::shape(),
            <Vec<Bomb>>::shape(),
            <Vec<Position>>::shape(),
            <Vec<(PlayerId, Score)>>::shape(),
        ];
        assert(layouts_of(v1@) =~= seq![
            String::layout(),
            u16::layout(),
            u16::layout(),
            u16::layout(),
            u16::layout(),
            <Vec<(PlayerId, Player)>>::layout(),
            <Vec<(PlayerId, Position)>>::layout(),
            <Vec<Position>>::layout(),
            <Vec<Bomb>>::layout(),
            <Vec<Position>>::layout(),
            <Vec<(PlayerId, Score)>>::layout(),
        ]);
        let variants = vec![v0, v1];
        assert(variants_of(variants@) =~= Self::layout()->Union_0);
        Shape::Union(variants)
    }

    fn to_value(&self) -> Value {
        match self {
            DisplayMessage::Lobby {
                server_name,
                players_count,
                size_x,
                size_y,
                game_length,
                explosion_radius,
                bomb_timer,
                players,
            } => {
                let fields: Vec<Value> = vec![
                    server_name.to_value(),
                    players_count.to_value(),
                    size_x.to_value(),
                    size_y.to_value(),
                    game_length.to_value(),
                    explosion_radius.to_value(),
                    bomb_timer.to_value(),
                    players.to_value(),
                ];
                assert(data_of(fields@) =~= seq![
                    server_name.datum(),
                    players_count.datum(),
                    size_x.datum(),
                    size_y.datum(),
                    game_length.datum(),
                    explosion_radius.datum(),
                    bomb_timer.datum(),
                    players.datum(),
                ]);
                Value::Variant(0, fields)
            },
            DisplayMessage::Game {
                server_name,
                size_x,
                size_y,
                game_length,
                turn,
                players,
                player_positions,
                blocks,
                bombs,
                explosions,
                scores,
            } => {
                let fields: Vec<Value> = vec![
                    server_name.to_value(),
                    size_x.to_value(),
                    size_y.to_value(),
                    game_length.to_value(),
                    turn.to_value(),
                    players.to_value(),
                    player_positions.to_value(),
                    blocks.to_value(),
                    bombs.to_value(),
                    explosions.to_value(),
                    scores.to_value(),
                ];
                assert(data_of(fields@) =~= seq![
                    server_name.datum(),
                    size_x.datum(),
                    size_y.datum(),
                    game_length.datum(),
                    turn.datum(),
                    players.datum(),
                    player_positions.datum(),
                    blocks.datum(),
                    bombs.datum(),
                    explosions.datum(),
                    scores.datum(),
                ]);
                Value::Variant(1, fields)
            },
        }
    }

    fn from_value(value: &Value) -> Option<DisplayMessage> {
        let (index, fields) = variant_fields(value)?;
        let ghost variants = Self::layout()->Union_0;
        match index {
            0 => {
                assert(variants[0] =~= seq![
                    String::layout(),
                    u8::layout(),
                    u16::layout(),
                    u16::layout(),
                    u16::layout(),
                    u16::layout(),
                    u16::layout(),
                    <Vec<(PlayerId, Player)>>::layout(),
                ]);
                if fields.len() != 8 {
                    return None;
                }
                let server_name = String::from_value(&fields[0])?;
                let players_count = u8::from_value(&fields[1])?;
                let size_x = u16::from_value(&fields[2])?;
                let size_y = u16::from_value(&fields[3])?;
                let game_length = u16::from_value(&fields[4])?;
                let explosion_radius = u16::from_value(&fields[5])?;
                let bomb_timer = u16::from_value(&fields[6])?;
                let players = <Vec<(PlayerId, Player)>>::from_value(&fields[7])?;
                assert(data_of(fields@) =~= seq![
                    server_name.datum(),
                    players_count.datum(),
                    size_x.datum(),
                    size_y.datum(),
                    game_length.datum(),
                    explosion_radius.datum(),
                    bomb_timer.datum(),
                    players.datum(),
                ]);
                Some(DisplayMessage::Lobby {
                    server_name,
                    players_count,
                    size_x,
                    size_y,
                    game_length,
                    explosion_radius,
                    bomb_timer,
                    players,
                })
            },
            1 => {
                assert(variants[1] =~= seq![
                    String::layout(),
                    u16::layout(),
                    u16::layout(),
                    u16::layout(),
                    u16::layout(),
                    <Vec<(PlayerId, Player)>>::layout(),
                    <Vec<(PlayerId, Position)>>::layout(),
                    <Vec<Position>>::layout(),
                    <Vec<Bomb>>::layout(),
                    <Vec<Position>>::layout(),
                    <Vec<(PlayerId, Score)>>::layout(),
                ]);
                if fields.len() != 11 {
                    return None;
                }
                let server_name = String::from_value(&fields[0])?;
                let size_x = u16::from_value(&fields[1])?;
                let size_y = u16::from_value(&fields[2])?;
                let game_length = u16::from_value(&fields[3])?;
                let turn = u16::from_value(&fields[4])?;
                let players = <Vec<(PlayerId, Player)>>::from_value(&fields[5])?;
                let player_positions = <Vec<(PlayerId, Position)>>::from_value(&fields[6])?;
                let blocks = <Vec<Position>>::from_value(&fields[7])?;
                let bombs = <Vec<Bomb>>::from_value(&fields[8])?;
                let explosions = <Vec<Position>>::from_value(&fields[9])?;
                let scores = <Vec<(PlayerId, Score)>>::from_value(&fields[10])?;
                assert(data_of(fields@) =~= seq![
                    server_name.datum(),
                    size_x.datum(),
                    size_y.datum(),
                    game_length.datum(),
                    turn.datum(),
                    players.datum(),
                    player_positions.datum(),
                    blocks.datum(),
                    bombs.datum(),
                    explosions.datum(),
                    scores.datum(),
                ]);
                Some(DisplayMessage::Game {
                    server_name,
                    size_x,
                    size_y,
                    game_length,
                    turn,
                    players,
                    player_positions,
                    blocks,
                    bombs,
                    explosions,
                    scores,
                })
            },
            _ => None,
        }
    }

    proof fn lemma_conforms(&self) {
        let variants = Self::layout()->Union_0;
        match self {
            DisplayMessage::Lobby {
                server_name,
                players_count,
                size_x,
                size_y,
                game_length,
                explosion_radius,
                bomb_timer,
                players,
            } => {
                let ds: Seq<Datum> = seq![
                    server_name.datum(),
                    players_count.datum(),
                    size_x.datum(),
                    size_y.datum(),
                    game_length.datum(),
                    explosion_radius.datum(),
                    bomb_timer.datum(),
                    players.datum(),
                ];
                let ls: Seq<Layout> = seq![
                    String::layout(),
                    u8::layout(),
                    u16::layout(),
                    u16::layout(),
                    u16::layout(),
                    u16::layout(),
                    u16::layout(),
                    <Vec<(PlayerId, Player)>>::layout(),
                ];
                assert forall|i: int| 0 <= i < ds.len() implies conforms(
                    #[trigger] ds[i],
                    ls[i],
                ) by {
                    server_name.lemma_conforms();
                    players_count.lemma_conforms();
                    size_x.lemma_conforms();
                    size_y.lemma_conforms();
                    game_length.lemma_conforms();
                    explosion_radius.lemma_conforms();
                    bomb_timer.lemma_conforms();
                    players.lemma_conforms();
                }
                assert(conforms_all(ds, ls));
                assert(variants[0] == ls);
            },
            DisplayMessage::Game {
                server_name,
                size_x,
                size_y,
                game_length,
                turn,
                players,
                player_positions,
                blocks,
                bombs,
                explosions,
                scores,
            } => {
                let ds: Seq<Datum> = seq![
                    server_name.datum(),
                    size_x.datum(),
                    size_y.datum(),
                    game_length.datum(),
                    turn.datum(),
                    players.datum(),
                    player_positions.datum(),
                    blocks.datum(),
                    bombs.datum(),
                    explosions.datum(),
                    scores.datum(),
                ];
                let ls: Seq<Layout> = seq![
                    String::layout(),
                    u16::layout(),
                    u16::layout(),
                    u16::layout(),
                    u16::layout(),
                    <Vec<(PlayerId, Player)>>::layout(),
                    <Vec<(PlayerId, Position)>>::layout(),
                    <Vec<Position>>::layout(),
                    <Vec<Bomb>>::layout(),
                    <Vec<Position>>::layout(),
                    <Vec<(PlayerId, Score)>>::layout(),
                ];
                assert forall|i: int| 0 <= i < ds.len() implies conforms(
                    #[trigger] ds[i],
                    ls[i],
                ) by {
                    server_name.lemma_conforms();
                    size_x.lemma_conforms();
                    size_y.lemma_conforms();
                    game_length.lemma_conforms();
                    turn.lemma_conforms();
                    players.lemma_conforms();
                    player_positions.lemma_conforms();
                    blocks.lemma_conforms();
                    bombs.lemma_conforms();
                    explosions.lemma_conforms();
                    scores.lemma_conforms();
                }
                assert(conforms_all(ds, ls));
                assert(variants[1] == ls);
            },
        }
    }
}

impl Schema for ClientMessage {
    open spec fn layout() -> Layout {
        Layout::Union(
            seq![
                seq![String::layout()],
                Seq::empty(),
                Seq::empty(),
                seq![Direction::layout()],
            ],
        )
    }

    open spec fn datum(&self) -> Datum {
        match self {
            ClientMessage::Join { name } => Datum::Variant(0, seq![name.datum()]),
            ClientMessage::PlaceBomb => Datum::Variant(1, Seq::empty()),
            ClientMessage::PlaceBlock => Datum::Variant(2, Seq::empty()),
            ClientMessage::Move { direction } => Datum::Variant(3, seq![direction.datum()]),
        }
    }

    fn shape() -> Shape {
        let v0: Vec<Shape> = vec![String::shape()];
        assert(layouts_of(v0@) =~= seq![String::layout()]);
        let v1: Vec<Shape> = Vec::new();
        assert(layouts_of(v1@) =~= Seq::<Layout>::empty());
        let v2: Vec<Shape> = Vec::new();
        assert(layouts_of(v2@) =~= Seq::<Layout>::empty());
        let v3: Vec<Shape> = vec![Direction::shape()];
        assert(layouts_of(v3@) =~= seq![Direction::layout()]);
        let variants = vec![v0, v1, v2, v3];
        assert(variants_of(variants@) =~= Self::layout()->Union_0);
        Shape::Union(variants)
    }

    fn to_value(&self) -> Value {
        match self {
            ClientMessage::Join { name } => {
                let fields: Vec<Value> = vec![name.to_value()];
                assert(data_of(fields@) =~= seq![name.datum()]);
                Value::Variant(0, fields)
            },
            ClientMessage::PlaceBomb => {
                let fields: Vec<Value> = Vec::new();
                assert(data_of(fields@) =~= Seq::<Datum>::empty());
                Value::Variant(1, fields)
            },
            ClientMessage::PlaceBlock => {
                let fields: Vec<Value> = Vec::new();
                assert(data_of(fields@) =~= Seq::<Datum>::empty());
                Value::Variant(2, fields)
            },
            ClientMessage::Move { direction } => {
                let fields: Vec<Value> = vec![direction.to_value()];
                assert(data_of(fields@) =~= seq![direction.datum()]);
                Value::Variant(3, fields)
            },
        }
    }

    fn from_value(value: &Value) -> Option<ClientMessage> {
        let (index, fields) = variant_fields(value)?;
        let ghost variants = Self::layout()->Union_0;
        match index {
            0 => {
                assert(variants[0] =~= seq![String::layout()]);
                if fields.len() != 1 {
                    return None;
                }
                let name = String::from_value(&fields[0])?;
                assert(data_of(fields@) =~= seq![name.datum()]);
                Some(ClientMessage::Join { name })
            },
            1 => {
                assert(variants[1] =~= Seq::<Layout>::empty());
                if fields.len() != 0 {
                    return None;
                }
                assert(data_of(fields@) =~= Seq::<Datum>::empty());
                Some(ClientMessage::PlaceBomb)
            },
            2 => {
                assert(variants[2] =~= Seq::<Layout>::empty());
                if fields.len() != 0 {
                    return None;
                }
                assert(data_of(fields@) =~= Seq::<Datum>::empty());
                Some(ClientMessage::PlaceBlock)
            },
            3 => {
                assert(variants[3] =~= seq![Direction::layout()]);
                if fields.len() != 1 {
                    return None;
                }
                let direction = Direction::from_value(&fields[0])?;
                assert(data_of(fields@) =~= seq![direction.datum()]);
                Some(ClientMessage::Move { direction })
            },
            _ => None,
        }
    }

    proof fn lemma_conforms(&self) {
        let variants = Self::layout()->Union_0;
        match self {
            ClientMessage::Join { name } => {
                let ds: Seq<Datum> = seq![name.datum()];
                let ls: Seq<Layout> = seq![String::layout()];
                assert forall|i: int| 0 <= i < ds.len() implies conforms(
                    #[trigger] ds[i],
                    ls[i],
                ) by {
                    name.lemma_conforms();
                }
                assert(conforms_all(ds, ls));
                assert(variants[0] == ls);
            },
            ClientMessage::PlaceBomb => {
                let ds: Seq<Datum> = Seq::empty();
                let ls: Seq<Layout> = Seq::empty();
                assert(conforms_all(ds, ls));
                assert(variants[1] == ls);
            },
            ClientMessage::PlaceBlock => {
                let ds: Seq<Datum> = Seq::empty();
                let ls: Seq<Layout> = Seq::empty();
                assert(conforms_all(ds, ls));
                assert(variants[2] == ls);
            },
            ClientMessage::Move { direction } => {
                let ds: Seq<Datum> = seq![direction.datum()];
                let ls: Seq<Layout> = seq![Direction::layout()];
                assert forall|i: int| 0 <= i < ds.len() implies conforms(
                    #[trigger] ds[i],
                    ls[i],
                ) by {
                    direction.lemma_conforms();
                }
                assert(conforms_all(ds, ls));
                assert(variants[3] == ls);
            },
        }
    }
}

impl Schema for Direction {
    open spec fn layout() -> Layout {
        Layout::Union(
            seq![Seq::empty(), Seq::empty(), Seq::empty(), Seq::empty()],
        )
    }

    open spec fn datum(&self) -> Datum {
        match self {
            Direction::Up => Datum::Variant(0, Seq::empty()),
            Direction::Right => Datum::Variant(1, Seq::empty()),
            Direction::Down => Datum::Variant(2, Seq::empty()),
            Direction::Left => Datum::Variant(3, Seq::empty()),
        }
    }

    fn shape() -> Shape {
        let v0: Vec<Shape> = Vec::new();
        assert(layouts_of(v0@) =~= Seq::<Layout>::empty());
        let v1: Vec<Shape> = Vec::new();
        assert(layouts_of(v1@) =~= Seq::<Layout>::empty());
        let v2: Vec<Shape> = Vec::new();
        assert(layouts_of(v2@) =~= Seq::<Layout>::empty());
        let v3: Vec<Shape> = Vec::new();
        assert(layouts_of(v3@) =~= Seq::<Layout>::empty());
        let variants = vec![v0, v1, v2, v3];
        assert(variants_of(variants@) =~= Self::layout()->Union_0);
        Shape::Union(variants)
    }

    fn to_value(&self) -> Value {
        match self {
            Direction::Up => {
                let fields: Vec<Value> = Vec::new();
                assert(data_of(fields@) =~= Seq::<Datum>::empty());
                Value::Variant(0, fields)
            },
            Direction::Right => {
                let fields: Vec<Value> = Vec::new();
                assert(data_of(fields@) =~= Seq::<Datum>::empty());
                Value::Variant(1, fields)
            },
            Direction::Down => {
                let fields: Vec<Value> = Vec::new();
                assert(data_of(fields@) =~= Seq::<Datum>::empty());
                Value::Variant(2, fields)
            },
            Direction::Left => {
                let fields: Vec<Value> = Vec::new();
                assert(data_of(fields@) =~= Seq::<Datum>::empty());
                Value::Variant(3, fields)
            },
        }
    }

    fn from_value(value: &Value) -> Option<Direction> {
        let (index, fields) = variant_fields(value)?;
        let ghost variants = Self::layout()->Union_0;
        match index {
            0 => {
                assert(variants[0] =~= Seq::<Layout>::empty());
                if fields.len() != 0 {
                    return None;
                }
                assert(data_of(fields@) =~= Seq::<Datum>::empty());
                Some(Direction::Up)
            },
            1 => {
                assert(variants[1] =~= Seq::<Layout>::empty());
                if fields.len() != 0 {
                    return None;
                }
                assert(data_of(fields@) =~= Seq::<Datum>::empty());
                Some(Direction::Right)
            },
            2 => {
                assert(variants[2] =~= Seq::<Layout>::empty());
                if fields.len() != 0 {
                    return None;
                }
                assert(data_of(fields@) =~= Seq::<Datum>::empty());
                Some(Direction::Down)
            },
            3 => {
                assert(variants[3] =~= Seq::<Layout>::empty());
                if fields.len() != 0 {
                    return None;
                }
                assert(data_of(fields@) =~= Seq::<Datum>::empty());
                Some(Direction::Left)
            },
            _ => None,
        }
    }

    proof fn lemma_conforms(&self) {
        let variants = Self::layout()->Union_0;
        match self {
            Direction::Up => {
                let ds: Seq<Datum> = Seq::empty();
                let ls: Seq<Layout> = Seq::empty();
                assert(conforms_all(ds, ls));
                assert(variants[0] == ls);
            },
            Direction::Right => {
                let ds: Seq<Datum> = Seq::empty();
                let ls: Seq<Layout> = Seq::empty();
                assert(conforms_all(ds, ls));
                assert(variants[1] == ls);
            },
            Direction::Down => {
                let ds: Seq<Datum> = Seq::empty();
                let ls: Seq<Layout> = Seq::empty();
                assert(conforms_all(ds, ls));
                assert(variants[2] == ls);
            },
            Direction::Left => {
                let ds: Seq<Datum> = Seq::empty();
                let ls: Seq<Layout> = Seq::empty();
                assert(conforms_all(ds, ls));
                assert(variants[3] == ls);
            },
        }
    }
}

impl Schema for Bomb {
    open spec fn layout() -> Layout {
        Layout::Tuple(seq![Position::layout(), u16::layout()])
    }

    open spec fn datum(&self) -> Datum {
        Datum::Tuple(seq![self.position.datum(), self.timer.datum()])
    }

    fn shape() -> Shape {
        let of = vec![Position::shape(), u16::shape()];
        assert(layouts_of(of@) =~= seq![Position::layout(), u16::layout()]);
        Shape::Tuple(of)
    }

    fn to_value(&self) -> Value {
        let fields = vec![self.position.to_value(), self.timer.to_value()];
        assert(data_of(fields@) =~= seq![self.position.datum(), self.timer.datum()]);
        Value::Tuple(fields)
    }

    fn from_value(value: &Value) -> Option<Bomb> {
        let fields = record_fields(value, 2)?;
        let position = Position::from_value(&fields[0])?;
        let timer = u16::from_value(&fields[1])?;
        assert(data_of(fields@) =~= seq![position.datum(), timer.datum()]);
        Some(Bomb { position, timer })
    }

    proof fn lemma_conforms(&self) {
        let ds: Seq<Datum> = seq![self.position.datum(), self.timer.datum()];
        let ls: Seq<Layout> = seq![Position::layout(), u16::layout()];
        assert forall|i: int| 0 <= i < ds.len() implies conforms(
            #[trigger] ds[i],
            ls[i],
        ) by {
            self.position.lemma_conforms();
            self.timer.lemma_conforms();
        }
        assert(conforms_all(ds, ls));
    }
}

impl Schema for ServerMessage {
    open spec fn layout() -> Layout {
        Layout::Union(
            seq![
                seq![
                    String::layout(),
                    u8::layout(),
                    u16::layout(),
                    u16::layout(),
                    u16::layout(),
                    u16::layout(),
                    u16::layout(),
                ],
                seq![PlayerId::layout(), Player::layout()],
                seq![<Vec<(PlayerId, Player)>>::layout()],
                seq![u16::layout(), <Vec<Event>>::layout()],
                seq![<Vec<(PlayerId, Score)>>::layout()],
            ],
        )
    }

    open spec fn datum(&self) -> Datum {
        match self {
            ServerMessage::Hello {
                server_name,
                players_count,
                size_x,
                size_y,
                game_length,
                explosion_radius,
                bomb_timer,
            } => Datum::Variant(
                0,
                seq![
                    server_name.datum(),
                    players_count.datum(),
                    size_x.datum(),
                    size_y.datum(),
                    game_length.datum(),
                    explosion_radius.datum(),
                    bomb_timer.datum(),
                ],
            ),
            ServerMessage::AcceptedPlayer { id, player } => Datum::Variant(1, seq![
                id.datum(),
                player.datum(),
            ]),
            ServerMessage::GameStarted { players } => Datum::Variant(2, seq![players.datum()]),
            ServerMessage::Turn { turn, events } => Datum::Variant(3, seq![
                turn.datum(),
                events.datum(),
            ]),
            ServerMessage::GameEnded { scores } => Datum::Variant(4, seq![scores.datum()]),
        }
    }

    fn shape() -> Shape {
        let v0: Vec<Shape> = vec![
            String::shape(),
            u8::shape(),
            u16::shape(),
            u16::shape(),
            u16::shape(),
            u16::shape(),
            u16::shape(),
        ];
        assert(layouts_of(v0@) =~= seq![
            String::layout(),
            u8::layout(),
            u16::layout(),
            u16::layout(),
            u16::layout(),
            u16::layout(),
            u16::layout(),
        ]);
        let v1: Vec<Shape> = vec![PlayerId::shape(), Player::shape()];
        assert(layouts_of(v1@) =~= seq![PlayerId::layout(), Player::layout()]);
        let v2: Vec<Shape> = vec![<Vec<(PlayerId, Player)>>::shape()];
        assert(layouts_of(v2@) =~= seq![<Vec<(PlayerId, Player)>>::layout()]);
        let v3: Vec<Shape> = vec![u16::shape(), <Vec<Event>>::shape()];
        assert(layouts_of(v3@) =~= seq![u16::layout(), <Vec<Event>>::layout()]);
        let v4: Vec<Shape> = vec![<Vec<(PlayerId, Score)>>::shape()];
        assert(layouts_of(v4@) =~= seq![<Vec<(PlayerId, Score)>>::layout()]);
        let variants = vec![v0, v1, v2, v3, v4];
        assert(variants_of(variants@) =~= Self::layout()->Union_0);
        Shape::Union(variants)
    }

    fn to_value(&self) -> Value {
        match self {
            ServerMessage::Hello {
                server_name,
                players_count,
                size_x,
                size_y,
                game_length,
                explosion_radius,
                bomb_timer,
            } => {
                let fields: Vec<Value> = vec![
                    server_name.to_value(),
                    players_count.to_value(),
                    size_x.to_value(),
                    size_y.to_value(),
                    game_length.to_value(),
                    explosion_radius.to_value(),
                    bomb_timer.to_value(),
                ];
                assert(data_of(fields@) =~= seq![
                    server_name.datum(),
                    players_count.datum(),
                    size_x.datum(),
                    size_y.datum(),
                    game_length.datum(),
                    explosion_radius.datum(),
                    bomb_timer.datum(),
                ]);
                Value::Variant(0, fields)
            },
            ServerMessage::AcceptedPlayer { id, player } => {
                let fields: Vec<Value> = vec![id.to_value(), player.to_value()];
                assert(data_of(fields@) =~= seq![id.datum(), player.datum()]);
                Value::Variant(1, fields)
            },
            ServerMessage::GameStarted { players } => {
                let fields: Vec<Value> = vec![players.to_value()];
                assert(data_of(fields@) =~= seq![players.datum()]);
                Value::Variant(2, fields)
            },
            ServerMessage::Turn { turn, events } => {
                let fields: Vec<Value> = vec![turn.to_value(), events.to_value()];
                assert(data_of(fields@) =~= seq![turn.datum(), events.datum()]);
                Value::Variant(3, fields)
            },
            ServerMessage::GameEnded { scores } => {
                let fields: Vec<Value> = vec![scores.to_value()];
                assert(data_of(fields@) =~= seq![scores.datum()]);
                Value::Variant(4, fields)
            },
        }
    }

    fn from_value(value: &Value) -> Option<ServerMessage> {
        let (index, fields) = variant_fields(value)?;
        let ghost variants = Self::layout()->Union_0;
        match index {
            0 => {
                assert(variants[0] =~= seq![
                    String::layout(),
                    u8::layout(),
                    u16::layout(),
                    u16::layout(),
                    u16::layout(),
                    u16::layout(),
                    u16::layout(),
                ]);
                if fields.len() != 7 {
                    return None;
                }
                let server_name = String::from_value(&fields[0])?;
                let players_count = u8::from_value(&fields[1])?;
                let size_x = u16::from_value(&fields[2])?;
                let size_y = u16::from_value(&fields[3])?;
                let game_length = u16::from_value(&fields[4])?;
                let explosion_radius = u16::from_value(&fields[5])?;
                let bomb_timer = u16::from_value(&fields[6])?;
                assert(data_of(fields@) =~= seq![
                    server_name.datum(),
                    players_count.datum(),
                    size_x.datum(),
                    size_y.datum(),
                    game_length.datum(),
                    explosion_radius.datum(),
                    bomb_timer.datum(),
                ]);
                Some(ServerMessage::Hello {
                    server_name,
                    players_count,
                    size_x,
                    size_y,
                    game_length,
                    explosion_radius,
                    bomb_timer,
                })
            },
            1 => {
                assert(variants[1] =~= seq![PlayerId::layout(), Player::layout()]);
                if fields.len() != 2 {
                    return None;
                }
                let id = PlayerId::from_value(&fields[0])?;
                let player = Player::from_value(&fields[1])?;
                assert(data_of(fields@) =~= seq![id.datum(), player.datum()]);
                Some(ServerMessage::AcceptedPlayer { id, player })
            },
            2 => {
                assert(variants[2] =~= seq![<Vec<(PlayerId, Player)>>::layout()]);
                if fields.len() != 1 {
                    return None;
                }
                let players = <Vec<(PlayerId, Player)>>::from_value(&fields[0])?;
                assert(data_of(fields@) =~= seq![players.datum()]);
                Some(ServerMessage::GameStarted { players })
            },
            3 => {
                assert(variants[3] =~= seq![u16::layout(), <Vec<Event>>::layout()]);
                if fields.len() != 2 {
                    return None;
                }
                let turn = u16::from_value(&fields[0])?;
                let events = <Vec<Event>>::from_value(&fields[1])?;
                assert(data_of(fields@) =~= seq![turn.datum(), events.datum()]);
                Some(ServerMessage::Turn { turn, events })
            },
            4 => {
                assert(variants[4] =~= seq![<Vec<(PlayerId, Score)>>::layout()]);
                if fields.len() != 1 {
                    return None;
                }
                let scores = <Vec<(PlayerId, Score)>>::from_value(&fields[0])?;
                assert(data_of(fields@) =~= seq![scores.datum()]);
                Some(ServerMessage::GameEnded { scores })
            },
            _ => None,
        }
    }

    proof fn lemma_conforms(&self) {
        let variants = Self::layout()->Union_0;
        match self {
            ServerMessage::Hello {
                server_name,
                players_count,
                size_x,
                size_y,
                game_length,
                explosion_radius,
                bomb_timer,
            } => {
                let ds: Seq<Datum> = seq![
                    server_name.datum(),
                    players_count.datum(),
                    size_x.datum(),
                    size_y.datum(),
                    game_length.datum(),
                    explosion_radius.datum(),
                    bomb_timer.datum(),
                ];
                let ls: Seq<Layout> = seq![
                    String::layout(),
                    u8::layout(),
                    u16::layout(),
                    u16::layout(),
                    u16::layout(),
                    u16::layout(),
                    u16::layout(),
                ];
                assert forall|i: int| 0 <= i < ds.len() implies conforms(
                    #[trigger] ds[i],
                    ls[i],
                ) by {
                    server_name.lemma_conforms();
                    players_count.lemma_conforms();
                    size_x.lemma_conforms();
                    size_y.lemma_conforms();
                    game_length.lemma_conforms();
                    explosion_radius.lemma_conforms();
                    bomb_timer.lemma_conforms();
                }
                assert(conforms_all(ds, ls));
                assert(variants[0] == ls);
            },
            ServerMessage::AcceptedPlayer { id, player } => {
                let ds: Seq<Datum> = seq![id.datum(), player.datum()];
                let ls: Seq<Layout> = seq![PlayerId::layout(), Player::layout()];
                assert forall|i: int| 0 <= i < ds.len() implies conforms(
                    #[trigger] ds[i],
                    ls[i],
                ) by {
                    id.lemma_conforms();
                    player.lemma_conforms();
                }
                assert(conforms_all(ds, ls));
                assert(variants[1] == ls);
            },
            ServerMessage::GameStarted { players } => {
                let ds: Seq<Datum> = seq![players.datum()];
                let ls: Seq<Layout> = seq![<Vec<(PlayerId, Player)>>::layout()];
                assert forall|i: int| 0 <= i < ds.len() implies conforms(
                    #[trigger] ds[i],
                    ls[i],
                ) by {
                    players.lemma_conforms();
                }
                assert(conforms_all(ds, ls));
                assert(variants[2] == ls);
            },
            ServerMessage::Turn { turn, events } => {
                let ds: Seq<Datum> = seq![turn.datum(), events.datum()];
                let ls: Seq<Layout> = seq![u16::layout(), <Vec<Event>>::layout()];
                assert forall|i: int| 0 <= i < ds.len() implies conforms(
                    #[trigger] ds[i],
                    ls[i],
                ) by {
                    turn.lemma_conforms();
                    events.lemma_conforms();
                }
                assert(conforms_all(ds, ls));
                assert(variants[3] == ls);
            },
            ServerMessage::GameEnded { scores } => {
                let ds: Seq<Datum> = seq![scores.datum()];
                let ls: Seq<Layout> = seq![<Vec<(PlayerId, Score)>>::layout()];
                assert forall|i: int| 0 <= i < ds.len() implies conforms(
                    #[trigger] ds[i],
                    ls[i],
                ) by {
                    scores.lemma_conforms();
                }
                assert(conforms_all(ds, ls));
                assert(variants[4] == ls);
            },
        }
    }
}

impl Schema for Score {
    open spec fn layout() -> Layout {
        Layout::Tuple(seq![u32::layout()])
    }

    open spec fn datum(&self) -> Datum {
        Datum::Tuple(seq![self.deaths.datum()])
    }

    fn shape() -> Shape {
        let of = vec![u32::shape()];
        assert(layouts_of(of@) =~= seq![u32::layout()]);
        Shape::Tuple(of)
    }

    fn to_value(&self) -> Value {
        let fields = vec![self.deaths.to_value()];
        assert(data_of(fields@) =~= seq![self.deaths.datum()]);
        Value::Tuple(fields)
    }

    fn from_value(value: &Value) -> Option<Score> {
        let fields = record_fields(value, 1)?;
        let deaths = u32::from_value(&fields[0])?;
        assert(data_of(fields@) =~= seq![deaths.datum()]);
        Some(Score { deaths })
    }

    proof fn lemma_conforms(&self) {
        let ds: Seq<Datum> = seq![self.deaths.datum()];
        let ls: Seq<Layout> = seq![u32::layout()];
        assert forall|i: int| 0 <= i < ds.len() implies conforms(
            #[trigger] ds[i],
            ls[i],
        ) by {
            self.deaths.lemma_conforms();
        }
        assert(conforms_all(ds, ls));
    }
}

impl Schema for Player {
    open spec fn layout() -> Layout {
        Layout::Tuple(seq![String::layout(), String::layout()])
    }

    open spec fn datum(&self) -> Datum {
        Datum::Tuple(seq![self.name.datum(), self.socket_addr.datum()])
    }

    fn shape() -> Shape {
        let of = vec![String::shape(), String::shape()];
        assert(layouts_of(of@) =~= seq![String::layout(), String::layout()]);
        Shape::Tuple(of)
    }

    fn to_value(&self) -> Value {
        let fields = vec![self.name.to_value(), self.socket_addr.to_value()];
        assert(data_of(fields@) =~= seq![self.name.datum(), self.socket_addr.datum()]);
        Value::Tuple(fields)
    }

    fn from_value(value: &Value) -> Option<Player> {
        let fields = record_fields(value, 2)?;
        let name = String::from_value(&fields[0])?;
        let socket_addr = String::from_value(&fields[1])?;
        assert(data_of(fields@) =~= seq![name.datum(), socket_addr.datum()]);
        Some(Player { name, socket_addr })
    }

    proof fn lemma_conforms(&self) {
        let ds: Seq<Datum> = seq![self.name.datum(), self.socket_addr.datum()];
        let ls: Seq<Layout> = seq![String::layout(), String::layout()];
        assert forall|i: int| 0 <= i < ds.len() implies conforms(
            #[trigger] ds[i],
            ls[i],
        ) by {
            self.name.lemma_conforms();
            self.socket_addr.lemma_conforms();
        }
        assert(conforms_all(ds, ls));
    }
}

impl Schema for Position {
    open spec fn layout() -> Layout {
        Layout::Tuple(seq![u16::layout(), u16::layout()])
    }

    open spec fn datum(&self) -> Datum {
        Datum::Tuple(seq![self.0.datum(), self.1.datum()])
    }

    fn shape() -> Shape {
        let of = vec![u16::shape(), u16::shape()];
        assert(layouts_of(of@) =~= seq![u16::layout(), u16::layout()]);
        Shape::Tuple(of)
    }

    fn to_value(&self) -> Value {
        let fields = vec![self.0.to_value(), self.1.to_value()];
        assert(data_of(fields@) =~= seq![self.0.datum(), self.1.datum()]);
        Value::Tuple(fields)
    }

    fn from_value(value: &Value) -> Option<Position> {
        let fields = record_fields(value, 2)?;
        let field_0 = u16::from_value(&fields[0])?;
        let field_1 = u16::from_value(&fields[1])?;
        assert(data_of(fields@) =~= seq![field_0.datum(), field_1.datum()]);
        Some(Position(field_0, field_1))
    }

    proof fn lemma_conforms(&self) {
        let ds: Seq<Datum> = seq![self.0.datum(), self.1.datum()];
        let ls: Seq<Layout> = seq![u16::layout(), u16::layout()];
        assert forall|i: int| 0 <= i < ds.len() implies conforms(
            #[trigger] ds[i],
            ls[i],
        ) by {
            self.0.lemma_conforms();
            self.1.lemma_conforms();
        }
        assert(conforms_all(ds, ls));
    }
}

impl Schema for PlayerId {
    open spec fn layout() -> Layout {
        Layout::Tuple(seq![u8::layout()])
    }

    open spec fn datum(&self) -> Datum {
        Datum::Tuple(seq![self.0.datum()])
    }

    fn shape() -> Shape {
        let of = vec![u8::shape()];
        assert(layouts_of(of@) =~= seq![u8::layout()]);
        Shape::Tuple(of)
    }

    fn to_value(&self) -> Value {
        let fields = vec![self.0.to_value()];
        assert(data_of(fields@) =~= seq![self.0.datum()]);
        Value::Tuple(fields)
    }

    fn from_value(value: &Value) -> Option<PlayerId> {
        let fields = record_fields(value, 1)?;
        let field_0 = u8::from_value(&fields[0])?;
        assert(data_of(fields@) =~= seq![field_0.datum()]);
        Some(PlayerId(field_0))
    }

    proof fn lemma_conforms(&self) {
        let ds: Seq<Datum> = seq![self.0.datum()];
        let ls: Seq<Layout> = seq![u8::layout()];
        assert forall|i: int| 0 <= i < ds.len() implies conforms(
            #[trigger] ds[i],
            ls[i],
        ) by {
            self.0.lemma_conforms();
        }
        assert(conforms_all(ds, ls));
    }
}

impl Schema for BombId {
    open spec fn layout() -> Layout {
        Layout::Tuple(seq![u32::layout()])
    }

    open spec fn datum(&self) -> Datum {
        Datum::Tuple(seq![self.0.datum()])
    }

    fn shape() -> Shape {
        let of = vec![u32::shape()];
        assert(layouts_of(of@) =~= seq![u32::layout()]);
        Shape::Tuple(of)
    }

    fn to_value(&self) -> Value {
        let fields = vec![self.0.to_value()];
        assert(data_of(fields@) =~= seq![self.0.datum()]);
        Value::Tuple(fields)
    }

    fn from_value(value: &Value) -> Option<BombId> {
        let fields = record_fields(value, 1)?;
        let field_0 = u32::from_value(&fields[0])?;
        assert(data_of(fields@) =~= seq![field_0.datum()]);
        Some(BombId(field_0))
    }

    proof fn lemma_conforms(&self) {
        let ds: Seq<Datum> = seq![self.0.datum()];
        let ls: Seq<Layout> = seq![u32::layout()];
        assert forall|i: int| 0 <= i < ds.len() implies conforms(
            #[trigger] ds[i],
            ls[i],
        ) by {
            self.0.lemma_conforms();
        }
        assert(conforms_all(ds, ls));
    }
}

impl Schema for Event {
    open spec fn layout() -> Layout {
        Layout::Union(
            seq![
                seq![BombId::layout(), Position::layout()],
                seq![
                    BombId::layout(),
                    <Vec<PlayerId>>::layout(),
                    <Vec<Position>>::layout(),
                ],
                seq![PlayerId::layout(), Position::layout()],
                seq![Position::layout()],
            ],
        )
    }

    open spec fn datum(&self) -> Datum {
        match self {
            Event::BombPlaced { id, position } => Datum::Variant(0, seq![
                id.datum(),
                position.datum(),
            ]),
            Event::BombExploded { id, killed, blocks_destroyed } => Datum::Variant(1, seq![
                id.datum(),
                killed.datum(),
                blocks_destroyed.datum(),
            ]),
            Event::PlayerMoved { id, position } => Datum::Variant(2, seq![
                id.datum(),
                position.datum(),
            ]),
            Event::BlockPlaced { position } => Datum::Variant(3, seq![position.datum()]),
        }
    }

    fn shape() -> Shape {
        let v0: Vec<Shape> = vec![BombId::shape(), Position::shape()];
        assert(layouts_of(v0@) =~= seq![BombId::layout(), Position::layout()]);
        let v1: Vec<Shape> = vec![
            BombId::shape(),
            <Vec<PlayerId>>::shape(),
            <Vec<Position>>::shape(),
        ];
        assert(layouts_of(v1@) =~= seq![
            BombId::layout(),
            <Vec<PlayerId>>::layout(),
            <Vec<Position>>::layout(),
        ]);
        let v2: Vec<Shape> = vec![PlayerId::shape(), Position::shape()];
        assert(layouts_of(v2@) =~= seq![PlayerId::layout(), Position::layout()]);
        let v3: Vec<Shape> = vec![Position::shape()];
        assert(layouts_of(v3@) =~= seq![Position::layout()]);
        let variants = vec![v0, v1, v2, v3];
        assert(variants_of(variants@) =~= Self::layout()->Union_0);
        Shape::Union(variants)
    }

    fn to_value(&self) -> Value {
        match self {
            Event::BombPlaced { id, position } => {
                let fields: Vec<Value> = vec![id.to_value(), position.to_value()];
                assert(data_of(fields@) =~= seq![id.datum(), position.datum()]);
                Value::Variant(0, fields)
            },
            Event::BombExploded { id, killed, blocks_destroyed } => {
                let fields: Vec<Value> = vec![
                    id.to_value(),
                    killed.to_value(),
                    blocks_destroyed.to_value(),
                ];
                assert(data_of(fields@) =~= seq![
                    id.datum(),
                    killed.datum(),
                    blocks_destroyed.datum(),
                ]);
                Value::Variant(1, fields)
            },
            Event::PlayerMoved { id, position } => {
                let fields: Vec<Value> = vec![id.to_value(), position.to_value()];
                assert(data_of(fields@) =~= seq![id.datum(), position.datum()]);
                Value::Variant(2, fields)
            },
            Event::BlockPlaced { position } => {
                let fields: Vec<Value> = vec![position.to_value()];
                assert(data_of(fields@) =~= seq![position.datum()]);
                Value::Variant(3, fields)
            },
        }
    }

    fn from_value(value: &Value) -> Option<Event> {
        let (index, fields) = variant_fields(value)?;
        let ghost variants = Self::layout()->Union_0;
        match index {
            0 => {
                assert(variants[0] =~= seq![BombId::layout(), Position::layout()]);
                if fields.len() != 2 {
                    return None;
                }
                let id = BombId::from_value(&fields[0])?;
                let position = Position::from_value(&fields[1])?;
                assert(data_of(fields@) =~= seq![id.datum(), position.datum()]);
                Some(Event::BombPlaced { id, position })
            },
            1 => {
                assert(variants[1] =~= seq![
                    BombId::layout(),
                    <Vec<PlayerId>>::layout(),
                    <Vec<Position>>::layout(),
                ]);
                if fields.len() != 3 {
                    return None;
                }
                let id = BombId::from_value(&fields[0])?;
                let killed = <Vec<PlayerId>>::from_value(&fields[1])?;
                let blocks_destroyed = <Vec<Position>>::from_value(&fields[2])?;
                assert(data_of(fields@) =~= seq![
                    id.datum(),
                    killed.datum(),
                    blocks_destroyed.datum(),
                ]);
                Some(Event::BombExploded { id, killed, blocks_destroyed })
            },
            2 => {
                assert(variants[2] =~= seq![PlayerId::layout(), Position::layout()]);
                if fields.len() != 2 {
                    return None;
                }
                let id = PlayerId::from_value(&fields[0])?;
                let position = Position::from_value(&fields[1])?;
                assert(data_of(fields@) =~= seq![id.datum(), position.datum()]);
                Some(Event::PlayerMoved { id, position })
            },
            3 => {
                assert(variants[3] =~= seq![Position::layout()]);
                if fields.len() != 1 {
                    return None;
                }
                let position = Position::from_value(&fields[0])?;
                assert(data_of(fields@) =~= seq![position.datum()]);
                Some(Event::BlockPlaced { position })
            },
            _ => None,
        }
    }

    proof fn lemma_conforms(&self) {
        let variants = Self::layout()->Union_0;
        match self {
            Event::BombPlaced { id, position } => {
                let ds: Seq<Datum> = seq![id.datum(), position.datum()];
                let ls: Seq<Layout> = seq![BombId::layout(), Position::layout()];
                assert forall|i: int| 0 <= i < ds.len() implies conforms(
                    #[trigger] ds[i],
                    ls[i],
                ) by {
                    id.lemma_conforms();
                    position.lemma_conforms();
                }
                assert(conforms_all(ds, ls));
                assert(variants[0] == ls);
            },
            Event::BombExploded { id, killed, blocks_destroyed } => {
                let ds: Seq<Datum> = seq![id.datum(), killed.datum(), blocks_destroyed.datum()];
                let ls: Seq<Layout> = seq![
                    BombId::layout(),
                    <Vec<PlayerId>>::layout(),
                    <Vec<Position>>::layout(),
                ];
                assert forall|i: int| 0 <= i < ds.len() implies conforms(
                    #[trigger] ds[i],
                    ls[i],
                ) by {
                    id.lemma_conforms();
                    killed.lemma_conforms();
                    blocks_destroyed.lemma_conforms();
                }
                assert(conforms_all(ds, ls));
                assert(variants[1] == ls);
            },
            Event::PlayerMoved { id, position } => {
                let ds: Seq<Datum> = seq![id.datum(), position.datum()];
                let ls: Seq<Layout> = seq![PlayerId::layout(), Position::layout()];
                assert forall|i: int| 0 <= i < ds.len() implies conforms(
                    #[trigger] ds[i],
                    ls[i],
                ) by {
                    id.lemma_conforms();
                    position.lemma_conforms();
                }
                assert(conforms_all(ds, ls));
                assert(variants[2] == ls);
            },
            Event::BlockPlaced { position } => {
                let ds: Seq<Datum> = seq![position.datum()];
                let ls: Seq<Layout> = seq![Position::layout()];
                assert forall|i: int| 0 <= i < ds.len() implies conforms(
                    #[trigger] ds[i],
                    ls[i],
                ) by {
                    position.lemma_conforms();
                }
                assert(conforms_all(ds, ls));
                assert(variants[3] == ls);
            },
        }
    }
}

} // verus!
