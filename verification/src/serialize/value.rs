//! The closed set of value shapes that the codec carries, and their mathematical models.

use vstd::prelude::*;

verus! {

/// The mathematical model of a value: what a [`Value`] is, apart from how it is stored.
pub enum Datum {
    Bool(bool),
    I8(i8),
    I16(i16),
    I32(i32),
    I64(i64),
    U8(u8),
    U16(u16),
    U32(u32),
    U64(u64),
    Str(Seq<char>),
    Optional(Option<Box<Datum>>),
    Unit,
    Sequence(Seq<Datum>),
    Mapping(Seq<(Datum, Datum)>),
    Tuple(Seq<Datum>),
    Variant(u32, Seq<Datum>),
}

/// The mathematical model of a [`Shape`].
pub enum Layout {
    Bool,
    I8,
    I16,
    I32,
    I64,
    U8,
    U16,
    U32,
    U64,
    Str,
    Optional(Box<Layout>),
    Unit,
    Sequence(Box<Layout>),
    Mapping(Box<Layout>, Box<Layout>),
    Tuple(Seq<Layout>),
    Union(Seq<Seq<Layout>>),
}

/// A value of one of the shapes that the codec carries.
#[derive(Debug, PartialEq, Eq)]
pub enum Value {
    Bool(bool),
    I8(i8),
    I16(i16),
    I32(i32),
    I64(i64),
    U8(u8),
    U16(u16),
    U32(u32),
    U64(u64),
    Str(String),
    Optional(Option<Box<Value>>),
    Unit,
    /// A homogeneous sequence of any length.
    Sequence(Vec<Value>),
    /// Key and value pairs, in the order in which they are written.
    Mapping(Vec<(Value, Value)>),
    /// The fields of a tuple or record, in declared order.
    Tuple(Vec<Value>),
    /// One alternative of a tagged union: its position among the declared variants, and
    /// the fields of its payload.
    Variant(u32, Vec<Value>),
}

/// The model of `v`. It is the view of a [`Value`].
pub open spec fn datum_of(v: Value) -> Datum
    decreases v,
{
    match v {
        Value::Bool(v) => Datum::Bool(v),
        Value::I8(v) => Datum::I8(v),
        Value::I16(v) => Datum::I16(v),
        Value::I32(v) => Datum::I32(v),
        Value::I64(v) => Datum::I64(v),
        Value::U8(v) => Datum::U8(v),
        Value::U16(v) => Datum::U16(v),
        Value::U32(v) => Datum::U32(v),
        Value::U64(v) => Datum::U64(v),
        Value::Str(v) => Datum::Str(v@),
        Value::Optional(None) => Datum::Optional(None),
        Value::Optional(Some(inner)) => Datum::Optional(Some(Box::new(datum_of(*inner)))),
        Value::Unit => Datum::Unit,
        Value::Sequence(items) => Datum::Sequence(data_of(items@)),
        Value::Mapping(entries) => Datum::Mapping(entries_of(entries@)),
        Value::Tuple(fields) => Datum::Tuple(data_of(fields@)),
        Value::Variant(index, fields) => Datum::Variant(index, data_of(fields@)),
    }
}

/// The models of the values `vs`, in order.
pub open spec fn data_of(vs: Seq<Value>) -> Seq<Datum>
    decreases vs,
{
    Seq::new(
        vs.len(),
        |i: int|
            if 0 <= i < vs.len() {
                datum_of(vs[i])
            } else {
                Datum::Unit
            },
    )
}

/// The models of the entries `es`, in order.
pub open spec fn entries_of(es: Seq<(Value, Value)>) -> Seq<(Datum, Datum)>
    decreases es,
{
    Seq::new(
        es.len(),
        |i: int|
            if 0 <= i < es.len() {
                (datum_of(es[i].0), datum_of(es[i].1))
            } else {
                (Datum::Unit, Datum::Unit)
            },
    )
}

impl View for Value {
    type V = Datum;

    open spec fn view(&self) -> Datum {
        datum_of(*self)
    }
}


impl Value {
    /// A copy of this value, part by part.
    fn duplicate(&self) -> (copy: Value)
        ensures
            copy@ == self@,
        decreases self,
    {
        match self {
            Value::Bool(v) => Value::Bool(*v),
            Value::I8(v) => Value::I8(*v),
            Value::I16(v) => Value::I16(*v),
            Value::I32(v) => Value::I32(*v),
            Value::I64(v) => Value::I64(*v),
            Value::U8(v) => Value::U8(*v),
            Value::U16(v) => Value::U16(*v),
            Value::U32(v) => Value::U32(*v),
            Value::U64(v) => Value::U64(*v),
            Value::Str(v) => Value::Str(v.clone()),
            Value::Optional(None) => Value::Optional(None),
            Value::Optional(Some(inner)) => Value::Optional(Some(Box::new(inner.duplicate()))),
            Value::Unit => Value::Unit,
            Value::Sequence(items) => Value::Sequence(duplicate_all(items)),
            Value::Mapping(entries) => Value::Mapping(duplicate_entries(entries)),
            Value::Tuple(fields) => Value::Tuple(duplicate_all(fields)),
            Value::Variant(index, fields) => Value::Variant(*index, duplicate_all(fields)),
        }
    }
}

/// Copies of the values `items`, in order.
fn duplicate_all(items: &Vec<Value>) -> (copies: Vec<Value>)
    ensures
        data_of(copies@) == data_of(items@),
    decreases items,
{
    let mut copies: Vec<Value> = Vec::new();
    let mut i: usize = 0;
    while i < items.len()
        invariant
            i <= items@.len(),
            copies@.len() == i,
            forall|j: int| 0 <= j < i ==> (#[trigger] copies@[j])@ == items@[j]@,
        decreases items@.len() - i,
    {
        copies.push(items[i].duplicate());
        i += 1;
    }
    assert(data_of(copies@) =~= data_of(items@));
    copies
}

/// Copies of the entries `entries`, in order.
fn duplicate_entries(entries: &Vec<(Value, Value)>) -> (copies: Vec<(Value, Value)>)
    ensures
        entries_of(copies@) == entries_of(entries@),
    decreases entries,
{
    let mut copies: Vec<(Value, Value)> = Vec::new();
    let mut i: usize = 0;
    while i < entries.len()
        invariant
            i <= entries@.len(),
            copies@.len() == i,
            forall|j: int|
                0 <= j < i ==> (#[trigger] copies@[j]).0@ == entries@[j].0@ && copies@[j].1@
                    == entries@[j].1@,
        decreases entries@.len() - i,
    {
        copies.push((entries[i].0.duplicate(), entries[i].1.duplicate()));
        i += 1;
    }
    assert(entries_of(copies@) =~= entries_of(entries@));
    copies
}

impl Clone for Value {
    fn clone(&self) -> (copy: Value)
        ensures
            copy@ == self@,
    {
        self.duplicate()
    }
}

/// The shape of a value: what a decoder has to be told before it reads, since the bytes
/// carry lengths and tags but never types.
#[derive(Debug, PartialEq, Eq)]
pub enum Shape {
    Bool,
    I8,
    I16,
    I32,
    I64,
    U8,
    U16,
    U32,
    U64,
    Str,
    Optional(Box<Shape>),
    Unit,
    /// A sequence of any length whose elements have the given shape.
    Sequence(Box<Shape>),
    /// A map with the given shapes of key and value.
    Mapping(Box<Shape>, Box<Shape>),
    /// A tuple or record with fields of the given shapes, in declared order.
    Tuple(Vec<Shape>),
    /// A tagged union: for each variant, in declared order, the shapes of its fields.
    Union(Vec<Vec<Shape>>),
}

/// The model of `s`. It is the view of a [`Shape`].
pub open spec fn layout_of(s: Shape) -> Layout
    decreases s,
{
    match s {
        Shape::Bool => Layout::Bool,
        Shape::I8 => Layout::I8,
        Shape::I16 => Layout::I16,
        Shape::I32 => Layout::I32,
        Shape::I64 => Layout::I64,
        Shape::U8 => Layout::U8,
        Shape::U16 => Layout::U16,
        Shape::U32 => Layout::U32,
        Shape::U64 => Layout::U64,
        Shape::Str => Layout::Str,
        Shape::Optional(of) => Layout::Optional(Box::new(layout_of(*of))),
        Shape::Unit => Layout::Unit,
        Shape::Sequence(of) => Layout::Sequence(Box::new(layout_of(*of))),
        Shape::Mapping(key, value) => Layout::Mapping(
            Box::new(layout_of(*key)),
            Box::new(layout_of(*value)),
        ),
        Shape::Tuple(of) => Layout::Tuple(layouts_of(of@)),
        Shape::Union(variants) => Layout::Union(variants_of(variants@)),
    }
}

/// The models of the shapes `ss`, in order.
pub open spec fn layouts_of(ss: Seq<Shape>) -> Seq<Layout>
    decreases ss,
{
    Seq::new(
        ss.len(),
        |i: int|
            if 0 <= i < ss.len() {
                layout_of(ss[i])
            } else {
                Layout::Unit
            },
    )
}

/// The models of the variants `vs`, in order.
pub open spec fn variants_of(vs: Seq<Vec<Shape>>) -> Seq<Seq<Layout>>
    decreases vs,
{
    Seq::new(
        vs.len(),
        |i: int|
            if 0 <= i < vs.len() {
                layouts_of(vs[i]@)
            } else {
                Seq::empty()
            },
    )
}

impl View for Shape {
    type V = Layout;

    open spec fn view(&self) -> Layout {
        layout_of(*self)
    }
}

impl Shape {
    /// A copy of this shape, part by part.
    fn duplicate(&self) -> (copy: Shape)
        ensures
            copy@ == self@,
        decreases self,
    {
        match self {
            Shape::Bool => Shape::Bool,
            Shape::I8 => Shape::I8,
            Shape::I16 => Shape::I16,
            Shape::I32 => Shape::I32,
            Shape::I64 => Shape::I64,
            Shape::U8 => Shape::U8,
            Shape::U16 => Shape::U16,
            Shape::U32 => Shape::U32,
            Shape::U64 => Shape::U64,
            Shape::Str => Shape::Str,
            Shape::Optional(of) => Shape::Optional(Box::new(of.duplicate())),
            Shape::Unit => Shape::Unit,
            Shape::Sequence(of) => Shape::Sequence(Box::new(of.duplicate())),
            Shape::Mapping(key, value) => Shape::Mapping(
                Box::new(key.duplicate()),
                Box::new(value.duplicate()),
            ),
            Shape::Tuple(of) => Shape::Tuple(duplicate_shapes(of)),
            Shape::Union(variants) => Shape::Union(duplicate_variants(variants)),
        }
    }
}

/// Copies of the shapes `shapes`, in order.
fn duplicate_shapes(shapes: &Vec<Shape>) -> (copies: Vec<Shape>)
    ensures
        layouts_of(copies@) == layouts_of(shapes@),
    decreases shapes,
{
    let mut copies: Vec<Shape> = Vec::new();
    let mut i: usize = 0;
    while i < shapes.len()
        invariant
            i <= shapes@.len(),
            copies@.len() == i,
            forall|j: int| 0 <= j < i ==> (#[trigger] copies@[j])@ == shapes@[j]@,
        decreases shapes@.len() - i,
    {
        copies.push(shapes[i].duplicate());
        i += 1;
    }
    assert(layouts_of(copies@) =~= layouts_of(shapes@));
    copies
}

/// Copies of the variants `variants`, in order.
fn duplicate_variants(variants: &Vec<Vec<Shape>>) -> (copies: Vec<Vec<Shape>>)
    ensures
        variants_of(copies@) == variants_of(variants@),
    decreases variants,
{
    let mut copies: Vec<Vec<Shape>> = Vec::new();
    let mut i: usize = 0;
    while i < variants.len()
        invariant
            i <= variants@.len(),
            copies@.len() == i,
            forall|j: int|
                0 <= j < i ==> layouts_of((#[trigger] copies@[j])@) == layouts_of(variants@[j]@),
        decreases variants@.len() - i,
    {
        copies.push(duplicate_shapes(&variants[i]));
        i += 1;
    }
    assert(variants_of(copies@) =~= variants_of(variants@));
    copies
}

impl Clone for Shape {
    fn clone(&self) -> (copy: Shape)
        ensures
            copy@ == self@,
    {
        self.duplicate()
    }
}

} // verus!
