//! The comma-separated list: `value (',' value)*`, or nothing at all.
//!
//! Nothing is escaped, so an element may hold no comma. The empty text is
//! the empty list.

pub mod de;

pub use de::{from_str, Error};

use crate::number::{decimal_text, format_integer, is_digit, lemma_decimal_round_trip,
    lemma_magnitude_text, magnitude_text};
use crate::shape::{bool_of, integer_as, integer_range, list_view, parse_bool, parse_integer_as,
    Scalar, ScalarView, Shape};
use crate::text::{chars_of, find_char, lemma_position, lemma_position_is, position, string_of};
use vstd::prelude::*;
use vstd::string::StringExecFns;

verus! {

/// The texts of a list of strings.
pub open spec fn texts(v: Seq<String>) -> Seq<Seq<char>> {
    v.map_values(|s: String| s@)
}

/// The pieces of `s` between its commas. A text without a comma is one
/// piece, the empty text too.
pub open spec fn pieces(s: Seq<char>) -> Seq<Seq<char>>
    decreases s.len(),
    via pieces_decreases
{
    let i = position(s, ',');
    if i >= s.len() {
        seq![s]
    } else {
        seq![s.take(i)] + pieces(s.skip(i + 1))
    }
}

#[via_fn]
proof fn pieces_decreases(s: Seq<char>) {
    lemma_position(s, ',');
}

/// The list that the text `s` holds: no element for the empty text, else
/// its pieces.
pub open spec fn decode_spec(s: Seq<char>) -> Seq<Seq<char>> {
    if s.len() == 0 {
        Seq::empty()
    } else {
        pieces(s)
    }
}

/// The text that a list writes: its elements with a comma between each two.
pub open spec fn encode_spec(items: Seq<Seq<char>>) -> Seq<char>
    decreases items.len(),
{
    if items.len() == 0 {
        Seq::empty()
    } else if items.len() == 1 {
        items[0]
    } else {
        items[0] + seq![','] + encode_spec(items.drop_first())
    }
}

/// A list of texts that is written with commas between its elements.
#[derive(Debug, Clone, PartialEq, Eq)]
pub struct CommaSeparated {
    items: Vec<String>,
}

impl View for CommaSeparated {
    type V = Seq<Seq<char>>;

    closed spec fn view(&self) -> Seq<Seq<char>> {
        texts(self.items@)
    }
}

impl CommaSeparated {
    /// The list of the elements `items`.
    pub fn new(items: Vec<String>) -> (list: CommaSeparated)
        ensures
            list@ == texts(items@),
    {
        CommaSeparated { items }
    }

    /// The elements of the list.
    pub fn into_inner(self) -> (items: Vec<String>)
        ensures
            texts(items@) == self@,
    {
        self.items
    }

    /// The elements of the list.
    pub fn items(&self) -> (items: &Vec<String>)
        ensures
            texts(items@) == self@,
    {
        &self.items
    }

    /// A copy of the list.
    pub fn duplicate(&self) -> (copy: CommaSeparated)
        ensures
            copy@ == self@,
    {
        let mut items: Vec<String> = Vec::new();
        let mut i: usize = 0;
        while i < self.items.len()
            invariant
                0 <= i <= self.items.len(),
                texts(items@) == self@.take(i as int),
            decreases self.items.len() - i,
        {
            let ghost before = texts(items@);
            items.push(self.items[i].clone());
            assert(texts(items@) =~= before.push(self@[i as int]));
            assert(self@.take(i + 1) =~= before.push(self@[i as int]));
            i = i + 1;
        }
        assert(self@.take(i as int) =~= self@);
        CommaSeparated { items }
    }

    /// Reads a comma-separated text. Every text is a list, so this does not
    /// fail.
    pub fn from_str(s: &str) -> (r: Result<CommaSeparated, Error>)
        ensures
            r matches Ok(list) && list@ == decode_spec(s@),
    {
        Ok(CommaSeparated::decode(s))
    }

    /// Reads a comma-separated text.
    pub fn decode(s: &str) -> (list: CommaSeparated)
        ensures
            list@ == decode_spec(s@),
    {
        let input = chars_of(s);
        let mut items: Vec<String> = Vec::new();
        if input.len() == 0 {
            assert(texts(items@) =~= Seq::empty());
            return CommaSeparated { items };
        }
        let mut pos: usize = 0;
        assert(input@.skip(0) =~= s@);
        assert(texts(items@) + pieces(s@) =~= pieces(s@));
        loop
            invariant_except_break
                pos <= input.len(),
                texts(items@) + pieces(input@.skip(pos as int)) == pieces(s@),
            ensures
                texts(items@) == pieces(s@),
            decreases input.len() - pos,
        {
            let ghost inner = input@.skip(pos as int);
            let ghost before = texts(items@);
            let end = find_char(&input, pos, ',');
            let piece = string_of(&input, pos, end);
            proof {
                let i = position(inner, ',');
                assert(inner.take(i) =~= piece@);
                if end == input.len() {
                    assert(inner.take(i) =~= inner);
                } else {
                    assert(inner.skip(i + 1) =~= input@.skip(end + 1));
                }
            }
            items.push(piece);
            assert(texts(items@) =~= before.push(piece@));
            if end == input.len() {
                assert(before.push(piece@) =~= before + seq![piece@]);
                break ;
            }
            assert(before.push(piece@) + pieces(input@.skip(end + 1)) =~= before + (seq![piece@]
                + pieces(input@.skip(end + 1))));
            pos = end + 1;
        }
        CommaSeparated { items }
    }

    /// Writes the list with a comma between each two elements.
    pub fn to_string(&self) -> (s: String)
        ensures
            s@ == encode_spec(self@),
    {
        let mut buffer = String::new();
        if self.items.len() == 0 {
            return buffer;
        }
        let mut i: usize = 0;
        assert(self@.skip(0) =~= self@);
        while i + 1 < self.items.len()
            invariant
                0 <= i < self.items.len(),
                buffer@ + encode_spec(self@.skip(i as int)) == encode_spec(self@),
            decreases self.items.len() - i,
        {
            let ghost before = buffer@;
            let ghost rest = self@.skip(i as int);
            proof {
                reveal_strlit(",");
                assert(rest[0] == self@[i as int]);
                assert(rest.drop_first() =~= self@.skip(i + 1));
            }
            buffer.append(self.items[i].as_str());
            buffer.append(",");
            proof {
                assert(","@ =~= seq![',']);
                assert(buffer@ =~= before + (rest[0] + seq![',']));
                assert(buffer@ + encode_spec(self@.skip(i + 1)) =~= before + encode_spec(rest));
            }
            i = i + 1;
        }
        let ghost before = buffer@;
        proof {
            let rest = self@.skip(i as int);
            assert(rest[0] == self@[i as int]);
            assert(rest.len() == 1);
        }
        buffer.append(self.items[i].as_str());
        buffer
    }
}

/// Whether no element of `items` holds a comma.
pub open spec fn comma_free(items: Seq<Seq<char>>) -> bool {
    forall|i: int| 0 <= i < items.len() ==> !(#[trigger] items[i]).contains(',')
}

/// The pieces of what a list with at least one element writes are its
/// elements, provided that none of them holds a comma.
pub proof fn lemma_pieces_of_encoded(items: Seq<Seq<char>>)
    requires
        items.len() > 0,
        comma_free(items),
    ensures
        pieces(encode_spec(items)) == items,
    decreases items.len(),
{
    let head = items[0];
    assert(!head.contains(','));
    if items.len() == 1 {
        lemma_position(head, ',');
        assert(seq![head] =~= items);
    } else {
        let tail = items.drop_first();
        let text = encode_spec(items);
        assert(text[head.len() as int] == ',');
        assert forall|j: int| 0 <= j < head.len() implies text[j] != ',' by {
            assert(text[j] == head[j]);
        }
        lemma_position_is(text, ',', head.len() as int);
        assert(text.take(head.len() as int) =~= head);
        assert(text.skip(head.len() as int + 1) =~= encode_spec(tail));
        assert forall|i: int| 0 <= i < tail.len() implies !(#[trigger] tail[i]).contains(
            ',',
        ) by {
            assert(tail[i] == items[i + 1]);
        }
        lemma_pieces_of_encoded(tail);
        assert(seq![head] + tail =~= items);
    }
}

/// Writing a list and reading the text back gives the same list, provided
/// that no element holds a comma and the list is not the one empty text:
/// that list writes the empty text, which is read as the empty list.
pub proof fn lemma_round_trip(items: Seq<Seq<char>>)
    requires
        comma_free(items),
        items != seq![Seq::<char>::empty()],
    ensures
        decode_spec(encode_spec(items)) == items,
{
    if items.len() == 0 {
    } else {
        lemma_pieces_of_encoded(items);
        if items.len() == 1 {
            if items[0].len() == 0 {
                assert(items[0] =~= Seq::<char>::empty());
                assert(items =~= seq![Seq::<char>::empty()]);
            }
        } else {
            assert(encode_spec(items).len() > 0);
        }
    }
}

/// What the text of one element stands for when read as `shape` by the
/// shape's own reader; `None` where the text is not of that shape, or the
/// shape is not one of a single piece of text.
pub open spec fn parse_element(text: Seq<char>, shape: Shape) -> Option<ScalarView>
    decreases shape,
{
    match shape {
        Shape::Bool => match bool_of(text) {
            Some(b) => Some(ScalarView::Bool(b)),
            None => None,
        },
        Shape::Char => if text.len() == 1 {
            Some(ScalarView::Char(text[0]))
        } else {
            None
        },
        Shape::Str => Some(ScalarView::Str(text)),
        Shape::Any => Some(ScalarView::Str(text)),
        Shape::Unit => if text.len() == 0 {
            Some(ScalarView::Unit)
        } else {
            None
        },
        Shape::Optional(some) => if text.len() == 0 {
            Some(ScalarView::Absent)
        } else {
            parse_element(text, *some)
        },
        _ => match integer_as(text, shape) {
            Some(n) => Some(ScalarView::Int(n)),
            None => None,
        },
    }
}

/// The canonical text of an element.
pub open spec fn scalar_text(v: ScalarView) -> Seq<char> {
    match v {
        ScalarView::Bool(b) => if b {
            "true"@
        } else {
            "false"@
        },
        ScalarView::Int(n) => decimal_text(n),
        ScalarView::Char(c) => seq![c],
        ScalarView::Str(s) => s,
        ScalarView::Unit => Seq::empty(),
        ScalarView::Absent => Seq::empty(),
    }
}

/// The canonical texts of a list of elements.
pub open spec fn scalar_texts(items: Seq<ScalarView>) -> Seq<Seq<char>> {
    items.map_values(|v: ScalarView| scalar_text(v))
}

/// What each of the texts `pieces` stands for when read as `shape`.
pub open spec fn parsed(pieces: Seq<Seq<char>>, shape: Shape) -> Seq<Option<ScalarView>> {
    pieces.map_values(|t: Seq<char>| parse_element(t, shape))
}

/// The element of a list that could not be read.
#[derive(Debug, Clone, PartialEq, Eq)]
pub struct ElementError {
    /// The place of the element in the list, from 0.
    pub index: usize,
    /// The text of the element.
    pub element: String,
}

/// The mathematical value of an [`ElementError`].
pub struct ElementErrorView {
    pub index: int,
    pub element: Seq<char>,
}

impl View for ElementError {
    type V = ElementErrorView;

    open spec fn view(&self) -> ElementErrorView {
        ElementErrorView { index: self.index as int, element: self.element@ }
    }
}

/// The list that the text `s` holds when each element is read as `shape`.
/// The first element that cannot be read so ends the reading, and the error
/// names it.
pub open spec fn decode_list_spec(s: Seq<char>, shape: Shape) -> Result<
    Seq<ScalarView>,
    ElementErrorView,
> {
    let pieces = decode_spec(s);
    let read = parsed(pieces, shape);
    let i = position(read, None);
    if i < pieces.len() {
        Err(ElementErrorView { index: i, element: pieces[i] })
    } else {
        Ok(
            read.map_values(
                |o: Option<ScalarView>|
                    match o {
                        Some(v) => v,
                        None => ScalarView::Absent,
                    },
            ),
        )
    }
}

/// The text that a list of elements writes.
pub open spec fn encode_list_spec(items: Seq<ScalarView>) -> Seq<char> {
    encode_spec(scalar_texts(items))
}

/// Reads the text of one element as `shape`.
pub fn parse_scalar(text: &Vec<char>, shape: &Shape) -> (r: Option<Scalar>)
    ensures
        match r {
            Some(v) => parse_element(text@, *shape) == Some(v@),
            None => parse_element(text@, *shape) is None,
        },
    decreases shape,
{
    match shape {
        Shape::Bool => match parse_bool(text) {
            Some(b) => Some(Scalar::Bool(b)),
            None => None,
        },
        Shape::Char => if text.len() == 1 {
            Some(Scalar::Char(text[0]))
        } else {
            None
        },
        Shape::Str | Shape::Any => {
            let s = string_of(text, 0, text.len());
            assert(text@.subrange(0, text.len() as int) =~= text@);
            Some(Scalar::Str(s))
        },
        Shape::Unit => if text.len() == 0 {
            Some(Scalar::Unit)
        } else {
            None
        },
        Shape::Optional(some) => if text.len() == 0 {
            Some(Scalar::Absent)
        } else {
            parse_scalar(text, some)
        },
        Shape::Sequence(_) | Shape::Mapping(_, _) | Shape::Bytes | Shape::Tuple | Shape::Enum => {
            None
        },
        _ => match parse_integer_as(text, shape) {
            Some(n) => Some(Scalar::Int(n)),
            None => None,
        },
    }
}

/// Reads a comma-separated text as a list of elements of the shape `shape`.
pub fn decode_list(s: &str, shape: &Shape) -> (r: Result<Vec<Scalar>, ElementError>)
    ensures
        match r {
            Ok(items) => decode_list_spec(s@, *shape) == Ok::<_, ElementErrorView>(
                list_view(items@),
            ),
            Err(e) => decode_list_spec(s@, *shape) == Err::<Seq<ScalarView>, _>(e@),
        },
{
    let pieces = CommaSeparated::decode(s).into_inner();
    let ghost read = parsed(texts(pieces@), *shape);
    let mut items: Vec<Scalar> = Vec::new();
    let mut i: usize = 0;
    while i < pieces.len()
        invariant
            0 <= i <= pieces.len(),
            texts(pieces@) == decode_spec(s@),
            read == parsed(texts(pieces@), *shape),
            items.len() == i,
            forall|j: int| 0 <= j < i ==> #[trigger] read[j] == Some(items@[j]@),
        decreases pieces.len() - i,
    {
        match parse_scalar(&chars_of(pieces[i].as_str()), shape) {
            Some(v) => {
                items.push(v);
            },
            None => {
                proof {
                    assert(read[i as int] is None);
                    lemma_position_is(read, None, i as int);
                }
                return Err(ElementError { index: i, element: pieces[i].clone() });
            },
        }
        i = i + 1;
    }
    proof {
        lemma_position_is(read, None, i as int);
        assert(list_view(items@) =~= read.map_values(
            |o: Option<ScalarView>|
                match o {
                    Some(v) => v,
                    None => ScalarView::Absent,
                },
        ));
    }
    Ok(items)
}

/// Writes an element in its canonical text.
pub fn scalar_to_string(v: &Scalar) -> (text: String)
    ensures
        text@ == scalar_text(v@),
{
    match v {
        Scalar::Bool(b) => if *b {
            String::from_str("true")
        } else {
            String::from_str("false")
        },
        Scalar::Int(n) => format_integer(*n),
        Scalar::Char(c) => {
            let mut one: Vec<char> = Vec::new();
            one.push(*c);
            let text = string_of(&one, 0, 1);
            assert(one@.subrange(0, 1) =~= seq![*c]);
            text
        },
        Scalar::Str(s) => s.clone(),
        Scalar::Unit => String::new(),
        Scalar::Absent => String::new(),
    }
}

/// Writes a list of elements, each in its canonical text, with a comma
/// between each two.
pub fn encode_list(items: &Vec<Scalar>) -> (text: String)
    ensures
        text@ == encode_list_spec(list_view(items@)),
{
    let mut pieces: Vec<String> = Vec::new();
    let mut i: usize = 0;
    while i < items.len()
        invariant
            0 <= i <= items.len(),
            texts(pieces@) == scalar_texts(list_view(items@)).take(i as int),
        decreases items.len() - i,
    {
        let ghost before = texts(pieces@);
        let piece = scalar_to_string(&items[i]);
        let ghost added = piece@;
        pieces.push(piece);
        assert(texts(pieces@) =~= before.push(added));
        assert(scalar_texts(list_view(items@)).take(i + 1) =~= before.push(added));
        i = i + 1;
    }
    assert(scalar_texts(list_view(items@)).take(i as int) =~= scalar_texts(list_view(items@)));
    CommaSeparated::new(pieces).to_string()
}

/// Writing a list of elements and reading the text back as `shape` gives
/// the same list, provided that every element is read back from its own
/// text, that no text holds a comma, and that the list is not the one empty
/// text.
pub proof fn lemma_typed_round_trip(items: Seq<ScalarView>, shape: Shape)
    requires
        forall|i: int|
            0 <= i < items.len() ==> parse_element(scalar_text(#[trigger] items[i]), shape) == Some(
                items[i],
            ),
        comma_free(scalar_texts(items)),
        scalar_texts(items) != seq![Seq::<char>::empty()],
    ensures
        decode_list_spec(encode_list_spec(items), shape) == Ok::<_, ElementErrorView>(items),
{
    let pieces = scalar_texts(items);
    lemma_round_trip(pieces);
    let read = parsed(pieces, shape);
    assert forall|j: int| 0 <= j < read.len() implies read[j] != None::<ScalarView> by {
        assert(read[j] == parse_element(scalar_text(items[j]), shape));
    }
    lemma_position_is(read, None, read.len() as int);
    assert(read.map_values(
        |o: Option<ScalarView>|
            match o {
                Some(v) => v,
                None => ScalarView::Absent,
            },
    ) =~= items) by {
        assert forall|j: int| 0 <= j < items.len() implies read[j] == Some(items[j]) by {
            assert(read[j] == parse_element(scalar_text(items[j]), shape));
        }
    }
}

/// A list of integers that fit the integer shape `shape` is read back as it
/// was written.
pub proof fn lemma_integers_round_trip(numbers: Seq<int>, shape: Shape)
    requires
        integer_range(shape) matches Some((signed, min, max)) && forall|i: int|
            0 <= i < numbers.len() ==> min <= #[trigger] numbers[i] <= max,
    ensures
        decode_list_spec(
            encode_list_spec(numbers.map_values(|n: int| ScalarView::Int(n))),
            shape,
        ) == Ok::<_, ElementErrorView>(numbers.map_values(|n: int| ScalarView::Int(n))),
{
    let items = numbers.map_values(|n: int| ScalarView::Int(n));
    let pieces = scalar_texts(items);
    let (signed, min, max) = integer_range(shape)->0;
    assert forall|i: int| 0 <= i < items.len() implies parse_element(
        scalar_text(#[trigger] items[i]),
        shape,
    ) == Some(items[i]) && !pieces[i].contains(',') && pieces[i].len() > 0 by {
        let n = numbers[i];
        lemma_decimal_round_trip(n);
        let text = decimal_text(n);
        assert(pieces[i] == text);
        if n < 0 {
            lemma_magnitude_text((-n) as nat);
            let digits = magnitude_text((-n) as nat);
            assert(signed);
            assert forall|j: int| 0 <= j < text.len() implies text[j] != ',' by {
                if j > 0 {
                    assert(text[j] == digits[j - 1]);
                    assert(is_digit(digits[j - 1]));
                }
            }
        } else {
            lemma_magnitude_text(n as nat);
            assert forall|j: int| 0 <= j < text.len() implies text[j] != ',' by {
                assert(is_digit(text[j]));
            }
        }
    }
    if pieces.len() == 1 {
        assert(pieces[0].len() > 0);
    }
    lemma_typed_round_trip(items, shape);
}

} // verus!
