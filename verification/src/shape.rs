//! What a piece of text is read as, and what comes out.
//!
//! Both wire formats carry plain text. A caller says through a [`Shape`]
//! what each element stands for; the decoders hand back [`Scalar`] values.

use crate::entries::{keys, lookup, put};
use crate::number::{integer_in, parse_integer};
use crate::text::{chars_of, lemma_position_is, same_chars, same_text};
use vstd::prelude::*;

verus! {

/// The shape that a caller asks a piece of text to be read as.
#[derive(Debug, PartialEq, Eq)]
pub enum Shape {
    /// `true` or `false`.
    Bool,
    /// A decimal integer from -128 to 127.
    I8,
    /// A decimal integer of 16 bits with sign.
    I16,
    /// A decimal integer of 32 bits with sign.
    I32,
    /// A decimal integer of 64 bits with sign.
    I64,
    /// A decimal integer from 0 to 255.
    U8,
    /// A decimal integer of 16 bits without sign.
    U16,
    /// A decimal integer of 32 bits without sign.
    U32,
    /// A decimal integer of 64 bits without sign.
    U64,
    /// Exactly one character.
    Char,
    /// The text as it stands.
    Str,
    /// The empty text.
    Unit,
    /// Empty text is absent, anything else is read as the inner shape.
    Optional(Box<Shape>),
    /// A list of elements of the inner shape.
    Sequence(Box<Shape>),
    /// Records of a key and a value of the two inner shapes.
    Mapping(Box<Shape>, Box<Shape>),
    /// Raw bytes, which neither format can hold.
    Bytes,
    /// A tuple, which neither format can hold.
    Tuple,
    /// One of several variants, which neither format can hold.
    Enum,
    /// Whatever is there: text in a list, nothing that a record could tell.
    Any,
}

/// One decoded element.
#[derive(Debug, Clone, PartialEq, Eq)]
pub enum Scalar {
    Bool(bool),
    Int(i128),
    Char(char),
    Str(String),
    Unit,
    /// An optional element that was empty.
    Absent,
}

/// The mathematical value of a [`Scalar`].
pub enum ScalarView {
    Bool(bool),
    Int(int),
    Char(char),
    Str(Seq<char>),
    Unit,
    Absent,
}

impl View for Scalar {
    type V = ScalarView;

    open spec fn view(&self) -> ScalarView {
        match self {
            Scalar::Bool(b) => ScalarView::Bool(*b),
            Scalar::Int(n) => ScalarView::Int(*n as int),
            Scalar::Char(c) => ScalarView::Char(*c),
            Scalar::Str(s) => ScalarView::Str(s@),
            Scalar::Unit => ScalarView::Unit,
            Scalar::Absent => ScalarView::Absent,
        }
    }
}

/// For an integer shape: whether it is signed, its least and its greatest
/// value.
pub open spec fn integer_range(shape: Shape) -> Option<(bool, int, int)> {
    match shape {
        Shape::I8 => Some((true, -0x80, 0x7f)),
        Shape::I16 => Some((true, -0x8000, 0x7fff)),
        Shape::I32 => Some((true, -0x8000_0000, 0x7fff_ffff)),
        Shape::I64 => Some((true, -0x8000_0000_0000_0000, 0x7fff_ffff_ffff_ffff)),
        Shape::U8 => Some((false, 0, 0xff)),
        Shape::U16 => Some((false, 0, 0xffff)),
        Shape::U32 => Some((false, 0, 0xffff_ffff)),
        Shape::U64 => Some((false, 0, 0xffff_ffff_ffff_ffff)),
        _ => None,
    }
}

/// The integer that `text` writes in the range of the integer shape `shape`.
pub open spec fn integer_as(text: Seq<char>, shape: Shape) -> Option<int> {
    match integer_range(shape) {
        Some((signed, min, max)) => integer_in(text, signed, min, max),
        None => None,
    }
}

/// The truth value that `text` writes: `true` or `false`, nothing else.
pub open spec fn bool_of(text: Seq<char>) -> Option<bool> {
    if text == "true"@ {
        Some(true)
    } else if text == "false"@ {
        Some(false)
    } else {
        None
    }
}

/// Reads `text` as an integer of the shape `shape`.
pub fn parse_integer_as(text: &Vec<char>, shape: &Shape) -> (n: Option<i128>)
    requires
        integer_range(*shape) is Some,
    ensures
        match n {
            Some(k) => integer_as(text@, *shape) == Some(k as int),
            None => integer_as(text@, *shape) is None,
        },
{
    match shape {
        Shape::I8 => parse_integer(text, true, -0x80, 0x7f),
        Shape::I16 => parse_integer(text, true, -0x8000, 0x7fff),
        Shape::I32 => parse_integer(text, true, -0x8000_0000, 0x7fff_ffff),
        Shape::I64 => parse_integer(text, true, -0x8000_0000_0000_0000, 0x7fff_ffff_ffff_ffff),
        Shape::U8 => parse_integer(text, false, 0, 0xff),
        Shape::U16 => parse_integer(text, false, 0, 0xffff),
        Shape::U32 => parse_integer(text, false, 0, 0xffff_ffff),
        _ => parse_integer(text, false, 0, 0xffff_ffff_ffff_ffff),
    }
}

/// Reads `text` as a truth value.
pub fn parse_bool(text: &Vec<char>) -> (b: Option<bool>)
    ensures
        b == bool_of(text@),
{
    if same_chars(text, &chars_of("true")) {
        Some(true)
    } else if same_chars(text, &chars_of("false")) {
        Some(false)
    } else {
        None
    }
}

/// Whether two scalars stand for the same value.
pub fn same_scalar(a: &Scalar, b: &Scalar) -> (same: bool)
    ensures
        same == (a@ == b@),
{
    match (a, b) {
        (Scalar::Bool(x), Scalar::Bool(y)) => *x == *y,
        (Scalar::Int(x), Scalar::Int(y)) => *x == *y,
        (Scalar::Char(x), Scalar::Char(y)) => *x == *y,
        (Scalar::Str(x), Scalar::Str(y)) => same_text(x.as_str(), y.as_str()),
        (Scalar::Unit, Scalar::Unit) => true,
        (Scalar::Absent, Scalar::Absent) => true,
        _ => false,
    }
}

/// What a whole text was decoded to.
#[derive(Debug, Clone, PartialEq, Eq)]
pub enum Value {
    /// One element.
    Single(Scalar),
    /// The elements of a list, in order.
    List(Vec<Scalar>),
    /// The pairs of a record, each key once.
    Record(Vec<(Scalar, Scalar)>),
}

/// The mathematical value of a [`Value`].
pub enum ValueView {
    Single(ScalarView),
    List(Seq<ScalarView>),
    Record(Seq<(ScalarView, ScalarView)>),
}

/// The values of a list of scalars.
pub open spec fn list_view(v: Seq<Scalar>) -> Seq<ScalarView> {
    v.map_values(|s: Scalar| s@)
}

/// The values of a list of pairs of scalars.
pub open spec fn pairs_view(v: Seq<(Scalar, Scalar)>) -> Seq<(ScalarView, ScalarView)> {
    v.map_values(|e: (Scalar, Scalar)| (e.0@, e.1@))
}

impl View for Value {
    type V = ValueView;

    open spec fn view(&self) -> ValueView {
        match self {
            Value::Single(s) => ValueView::Single(s@),
            Value::List(v) => ValueView::List(list_view(v@)),
            Value::Record(v) => ValueView::Record(pairs_view(v@)),
        }
    }
}

/// Gives `key` the value `value` in `entries`: in the place of the pair
/// that had this key, or at the end where the key is new.
pub fn put_scalar(entries: &mut Vec<(Scalar, Scalar)>, key: Scalar, value: Scalar)
    ensures
        pairs_view(final(entries)@) == put(pairs_view(old(entries)@), key@, value@),
{
    let ghost before = pairs_view(entries@);
    let mut i: usize = 0;
    while i < entries.len()
        invariant
            0 <= i <= entries.len(),
            before == pairs_view(entries@),
            before == pairs_view(old(entries)@),
            forall|j: int| 0 <= j < i ==> keys(before)[j] != key@,
        decreases entries.len() - i,
    {
        if same_scalar(&entries[i].0, &key) {
            proof {
                assert(keys(before)[i as int] == key@);
                lemma_position_is(keys(before), key@, i as int);
            }
            entries.set(i, (key, value));
            assert(pairs_view(entries@) =~= before.update(i as int, (key@, value@)));
            return ;
        }
        assert(keys(before)[i as int] != key@);
        i = i + 1;
    }
    proof {
        lemma_position_is(keys(before), key@, i as int);
    }
    entries.push((key, value));
    assert(pairs_view(entries@) =~= before.push((key@, value@)));
}

/// The value that `entries` holds for `key`.
pub fn get_scalar<'a>(entries: &'a Vec<(Scalar, Scalar)>, key: &Scalar) -> (value: Option<
    &'a Scalar,
>)
    ensures
        match value {
            Some(v) => lookup(pairs_view(entries@), key@) == Some(v@),
            None => lookup(pairs_view(entries@), key@) is None,
        },
{
    let ghost all = pairs_view(entries@);
    let mut i: usize = 0;
    while i < entries.len()
        invariant
            0 <= i <= entries.len(),
            all == pairs_view(entries@),
            forall|j: int| 0 <= j < i ==> keys(all)[j] != key@,
        decreases entries.len() - i,
    {
        if same_scalar(&entries[i].0, key) {
            proof {
                assert(keys(all)[i as int] == key@);
                lemma_position_is(keys(all), key@, i as int);
            }
            return Some(&entries[i].1);
        }
        assert(keys(all)[i as int] != key@);
        i = i + 1;
    }
    proof {
        lemma_position_is(keys(all), key@, i as int);
    }
    None
}

} // verus!
