//! Reading a comma-separated text element by element, and as a typed list.

use crate::shape::{bool_of, integer_as, list_view, parse_bool, parse_integer_as, Scalar,
    ScalarView, Shape, Value, ValueView};
use crate::text::{chars_of, find_char, lemma_position, position, string_of, sub_chars};
use vstd::prelude::*;
use vstd::string::StringExecFns;

verus! {

/// Why a comma-separated text could not be read.
#[derive(Debug, Clone, PartialEq, Eq)]
pub enum Error {
    Message(String),
    Eof,
    TrailingCharacters,
    NotImplemented(&'static str),
    Syntax,
    ExpectedColon,
    ExpectedNewline,
    ParseInt,
    ParseFloat,
    ParseBool,
    ParseChar,
    NoValue,
    ExpectedEmptyValue,
    ExpectedKey,
    ExpectedValue,
    ExpectedComma,
}

/// The mathematical value of an [`Error`].
pub enum ErrorView {
    Message(Seq<char>),
    Eof,
    TrailingCharacters,
    NotImplemented(Seq<char>),
    Syntax,
    ExpectedColon,
    ExpectedNewline,
    ParseInt,
    ParseFloat,
    ParseBool,
    ParseChar,
    NoValue,
    ExpectedEmptyValue,
    ExpectedKey,
    ExpectedValue,
    ExpectedComma,
}

impl View for Error {
    type V = ErrorView;

    open spec fn view(&self) -> ErrorView {
        match self {
            Error::Message(m) => ErrorView::Message(m@),
            Error::Eof => ErrorView::Eof,
            Error::TrailingCharacters => ErrorView::TrailingCharacters,
            Error::NotImplemented(what) => ErrorView::NotImplemented(what@),
            Error::Syntax => ErrorView::Syntax,
            Error::ExpectedColon => ErrorView::ExpectedColon,
            Error::ExpectedNewline => ErrorView::ExpectedNewline,
            Error::ParseInt => ErrorView::ParseInt,
            Error::ParseFloat => ErrorView::ParseFloat,
            Error::ParseBool => ErrorView::ParseBool,
            Error::ParseChar => ErrorView::ParseChar,
            Error::NoValue => ErrorView::NoValue,
            Error::ExpectedEmptyValue => ErrorView::ExpectedEmptyValue,
            Error::ExpectedKey => ErrorView::ExpectedKey,
            Error::ExpectedValue => ErrorView::ExpectedValue,
            Error::ExpectedComma => ErrorView::ExpectedComma,
        }
    }
}

/// A piece of text that was read, or the reason why none was.
pub open spec fn text_outcome(r: Result<String, Error>) -> Result<Seq<char>, ErrorView> {
    match r {
        Ok(text) => Ok(text@),
        Err(e) => Err(e@),
    }
}

/// One element that was read, or the reason why none was.
pub open spec fn scalar_outcome(r: Result<Scalar, Error>) -> Result<ScalarView, ErrorView> {
    match r {
        Ok(v) => Ok(v@),
        Err(e) => Err(e@),
    }
}

/// The elements that were read, or the reason why none were.
pub open spec fn list_outcome(r: Result<Vec<Scalar>, Error>) -> Result<
    Seq<ScalarView>,
    ErrorView,
> {
    match r {
        Ok(list) => Ok(list_view(list@)),
        Err(e) => Err(e@),
    }
}

/// A value that was read, or the reason why none was.
pub open spec fn value_outcome(r: Result<Value, Error>) -> Result<ValueView, ErrorView> {
    match r {
        Ok(v) => Ok(v@),
        Err(e) => Err(e@),
    }
}

/// The text of the element at the front of `inner`: all up to the first
/// comma.
pub open spec fn token(inner: Seq<char>) -> Seq<char> {
    inner.take(position(inner, ','))
}

/// What is left of `inner` behind its first element. The comma that ended
/// the element stays.
pub open spec fn after_token(inner: Seq<char>) -> Seq<char> {
    inner.skip(position(inner, ','))
}

/// Reading the element at the front of `inner`.
pub open spec fn consume_value_spec(inner: Seq<char>) -> (Result<Seq<char>, ErrorView>, Seq<char>) {
    if inner.len() == 0 {
        (Err(ErrorView::Eof), inner)
    } else {
        (Ok(token(inner)), after_token(inner))
    }
}

/// For a shape that an element of a list cannot have: the name of what is
/// not implemented.
pub open spec fn unsupported(shape: Shape) -> Option<Seq<char>> {
    match shape {
        Shape::Sequence(_) => Some("deserialize_seq"@),
        Shape::Mapping(_, _) => Some("deserialize_map"@),
        Shape::Bytes => Some("deserialize_bytes"@),
        Shape::Char => Some("deserialize_char"@),
        Shape::Tuple => Some("deserialize_tuple"@),
        Shape::Enum => Some("deserialize_enum"@),
        _ => None,
    }
}

/// What the text of one element stands for when read as the plain shape
/// `shape`.
pub open spec fn read_plain(text: Seq<char>, shape: Shape) -> Result<ScalarView, ErrorView> {
    match shape {
        Shape::Bool => match bool_of(text) {
            Some(b) => Ok(ScalarView::Bool(b)),
            None => Err(ErrorView::ParseBool),
        },
        Shape::Str => Ok(ScalarView::Str(text)),
        Shape::Any => Ok(ScalarView::Str(text)),
        Shape::Unit => if text.len() == 0 {
            Ok(ScalarView::Unit)
        } else {
            Err(ErrorView::ExpectedEmptyValue)
        },
        _ => match integer_as(text, shape) {
            Some(n) => Ok(ScalarView::Int(n)),
            None => Err(ErrorView::ParseInt),
        },
    }
}

/// Reading the element at the front of `inner` as `shape`: what it stands
/// for, and what is left. An optional element that is empty is absent and
/// nothing is taken for it.
pub open spec fn element_spec(inner: Seq<char>, shape: Shape) -> (
    Result<ScalarView, ErrorView>,
    Seq<char>,
)
    decreases shape,
{
    match shape {
        Shape::Optional(some) => if inner.len() == 0 {
            (Err(ErrorView::Eof), inner)
        } else if token(inner).len() == 0 {
            (Ok(ScalarView::Absent), inner)
        } else {
            element_spec(inner, *some)
        },
        _ => match unsupported(shape) {
            Some(what) => (Err(ErrorView::NotImplemented(what)), inner),
            None => if inner.len() == 0 {
                (Err(ErrorView::Eof), inner)
            } else {
                (read_plain(token(inner), shape), after_token(inner))
            },
        },
    }
}

/// The elements of `inner`, read one after the other as `shape` and added
/// to `acc`. Before every element but the first, the comma that ended the
/// one before is dropped.
pub open spec fn list_spec(inner: Seq<char>, shape: Shape, first: bool, acc: Seq<ScalarView>)
    -> Result<Seq<ScalarView>, ErrorView>
    decreases inner.len(), (if first {
        1int
    } else {
        0int
    }),
    via list_spec_decreases
{
    if inner.len() == 0 {
        Ok(acc)
    } else {
        let front = if first {
            inner
        } else {
            inner.drop_first()
        };
        match element_spec(front, shape) {
            (Err(e), _) => Err(e),
            (Ok(v), rest) => list_spec(rest, shape, false, acc.push(v)),
        }
    }
}

/// What `element_spec` leaves is never longer than what it was given.
pub proof fn lemma_element_shrinks(inner: Seq<char>, shape: Shape)
    ensures
        element_spec(inner, shape).1.len() <= inner.len(),
    decreases shape,
{
    lemma_position(inner, ',');
    match shape {
        Shape::Optional(some) => {
            lemma_element_shrinks(inner, *some);
        },
        _ => {},
    }
}

#[via_fn]
proof fn list_spec_decreases(inner: Seq<char>, shape: Shape, first: bool, acc: Seq<ScalarView>) {
    if inner.len() > 0 {
        let front = if first {
            inner
        } else {
            inner.drop_first()
        };
        lemma_element_shrinks(front, shape);
    }
}

/// What a whole text stands for when read as `shape`: a list, or one
/// element.
pub open spec fn from_str_spec(s: Seq<char>, shape: Shape) -> Result<ValueView, ErrorView> {
    match shape {
        Shape::Sequence(element) => match list_spec(s, *element, true, Seq::empty()) {
            Ok(list) => Ok(ValueView::List(list)),
            Err(e) => Err(e),
        },
        _ => match element_spec(s, shape).0 {
            Ok(v) => Ok(ValueView::Single(v)),
            Err(e) => Err(e),
        },
    }
}

/// For a shape that an element of a list cannot have: the name of what is
/// not implemented.
pub fn unsupported_name(shape: &Shape) -> (name: Option<&'static str>)
    ensures
        match name {
            Some(what) => unsupported(*shape) == Some(what@),
            None => unsupported(*shape) is None,
        },
{
    match shape {
        Shape::Sequence(_) => Some("deserialize_seq"),
        Shape::Mapping(_, _) => Some("deserialize_map"),
        Shape::Bytes => Some("deserialize_bytes"),
        Shape::Char => Some("deserialize_char"),
        Shape::Tuple => Some("deserialize_tuple"),
        Shape::Enum => Some("deserialize_enum"),
        _ => None,
    }
}

/// Reads the text of one element as the plain shape `shape`.
fn read(text: &Vec<char>, shape: &Shape) -> (r: Result<Scalar, Error>)
    requires
        unsupported(*shape) is None,
        !(*shape is Optional),
    ensures
        scalar_outcome(r) == read_plain(text@, *shape),
{
    match shape {
        Shape::Bool => match parse_bool(text) {
            Some(b) => Ok(Scalar::Bool(b)),
            None => Err(Error::ParseBool),
        },
        Shape::Str | Shape::Any => {
            let s = string_of(text, 0, text.len());
            assert(text@.subrange(0, text.len() as int) =~= text@);
            Ok(Scalar::Str(s))
        },
        Shape::Unit => if text.len() == 0 {
            Ok(Scalar::Unit)
        } else {
            Err(Error::ExpectedEmptyValue)
        },
        _ => match parse_integer_as(text, shape) {
            Some(n) => Ok(Scalar::Int(n)),
            None => Err(Error::ParseInt),
        },
    }
}

/// A reader that walks over a comma-separated text, element by element.
pub struct Deserializer {
    input: Vec<char>,
    pos: usize,
}

impl View for Deserializer {
    type V = Seq<char>;

    closed spec fn view(&self) -> Seq<char> {
        self.input@.skip(self.pos as int)
    }
}

impl Deserializer {
    #[verifier::type_invariant]
    spec fn in_bounds(self) -> bool {
        self.pos <= self.input.len()
    }

    /// A reader at the start of `input`.
    pub fn from_str(input: &str) -> (de: Deserializer)
        ensures
            de@ == input@,
    {
        let de = Deserializer { input: chars_of(input), pos: 0 };
        assert(de.input@.skip(0) =~= input@);
        de
    }

    /// Whether nothing is left to read.
    pub fn is_empty(&self) -> (empty: bool)
        ensures
            empty == (self@.len() == 0),
    {
        proof {
            use_type_invariant(self);
        }
        self.pos == self.input.len()
    }

    /// Reads the element at the front and moves to the comma behind it, or
    /// to the end.
    pub fn consume_value(&mut self) -> (r: Result<String, Error>)
        ensures
            (text_outcome(r), final(self)@) == consume_value_spec(old(self)@),
    {
        proof {
            use_type_invariant(&*self);
        }
        if self.pos == self.input.len() {
            return Err(Error::Eof);
        }
        let end = find_char(&self.input, self.pos, ',');
        let value = string_of(&self.input, self.pos, end);
        proof {
            let inner = self.input@.skip(self.pos as int);
            let i = position(inner, ',');
            assert(inner.take(i) =~= self.input@.subrange(self.pos as int, end as int));
            assert(inner.skip(i) =~= self.input@.skip(end as int));
        }
        self.pos = end;
        Ok(value)
    }

    /// The element at the front, without moving.
    pub fn peek_value(&self) -> (r: Result<String, Error>)
        ensures
            text_outcome(r) == consume_value_spec(self@).0,
    {
        proof {
            use_type_invariant(self);
        }
        if self.pos == self.input.len() {
            return Err(Error::Eof);
        }
        let end = find_char(&self.input, self.pos, ',');
        let value = string_of(&self.input, self.pos, end);
        proof {
            let inner = self.input@.skip(self.pos as int);
            let i = position(inner, ',');
            assert(inner.take(i) =~= self.input@.subrange(self.pos as int, end as int));
        }
        Ok(value)
    }

    /// Reads the element at the front as `shape`.
    pub fn element(&mut self, shape: &Shape) -> (r: Result<Scalar, Error>)
        ensures
            (scalar_outcome(r), final(self)@) == element_spec(old(self)@, *shape),
        decreases shape,
    {
        proof {
            use_type_invariant(&*self);
        }
        let ghost inner = self@;
        match shape {
            Shape::Optional(some) => {
                if self.pos == self.input.len() {
                    return Err(Error::Eof);
                }
                let end = find_char(&self.input, self.pos, ',');
                if end == self.pos {
                    return Ok(Scalar::Absent);
                }
                self.element(some)
            },
            _ => {
                match unsupported_name(shape) {
                    Some(what) => {
                        return Err(Error::NotImplemented(what));
                    },
                    None => {},
                }
                if self.pos == self.input.len() {
                    return Err(Error::Eof);
                }
                let end = find_char(&self.input, self.pos, ',');
                let text = sub_chars(&self.input, self.pos, end);
                proof {
                    let i = position(inner, ',');
                    assert(inner.take(i) =~= text@);
                    assert(inner.skip(i) =~= self.input@.skip(end as int));
                }
                self.pos = end;
                read(&text, shape)
            },
        }
    }

    /// Reads all that is left as a list of elements of the shape `shape`.
    pub fn list(&mut self, shape: &Shape) -> (r: Result<Vec<Scalar>, Error>)
        ensures
            list_outcome(r) == list_spec(old(self)@, *shape, true, Seq::empty()),
    {
        proof {
            use_type_invariant(&*self);
        }
        let mut list: Vec<Scalar> = Vec::new();
        let mut first = true;
        let ghost whole = self@;
        assert(list_view(list@) =~= Seq::empty());
        while self.pos < self.input.len()
            invariant
                self.pos <= self.input.len(),
                whole == old(self)@,
                list_spec(whole, *shape, true, Seq::empty()) == list_spec(
                    self@,
                    *shape,
                    first,
                    list_view(list@),
                ),
            decreases self.input.len() - self.pos, (if first {
                1int
            } else {
                0int
            }),
        {
            let ghost inner = self@;
            let ghost before = list_view(list@);
            if first {
                first = false;
            } else {
                assert(inner.drop_first() =~= self.input@.skip(self.pos + 1));
                self.pos = self.pos + 1;
            }
            proof {
                lemma_element_shrinks(self@, *shape);
            }
            let v = match self.element(shape) {
                Ok(v) => v,
                Err(e) => {
                    return Err(e);
                },
            };
            proof {
                use_type_invariant(&*self);
            }
            list.push(v);
            assert(list_view(list@) =~= before.push(v@));
        }
        Ok(list)
    }
}

/// Reads the comma-separated text `s` as `shape`.
pub fn from_str(s: &str, shape: &Shape) -> (r: Result<Value, Error>)
    ensures
        value_outcome(r) == from_str_spec(s@, *shape),
{
    let mut de = Deserializer::from_str(s);
    match shape {
        Shape::Sequence(element) => match de.list(element) {
            Ok(list) => Ok(Value::List(list)),
            Err(e) => Err(e),
        },
        _ => match de.element(shape) {
            Ok(v) => Ok(Value::Single(v)),
            Err(e) => Err(e),
        },
    }
}

/// What an error says in words.
pub open spec fn message_text(e: ErrorView) -> Seq<char> {
    match e {
        ErrorView::Message(m) => "message: "@ + m,
        ErrorView::Eof => "unexpected end of input"@,
        ErrorView::TrailingCharacters => "trailing characters"@,
        ErrorView::NotImplemented(what) => what + " is not implemented"@,
        ErrorView::Syntax => "invalid syntax"@,
        ErrorView::ExpectedColon => "expected a colon"@,
        ErrorView::ExpectedNewline => "expected a newline"@,
        ErrorView::ParseInt => "couldn't parse integer"@,
        ErrorView::ParseFloat => "couldn't parse float"@,
        ErrorView::ParseBool => "couldn't parse bool"@,
        ErrorView::ParseChar => "expected a char, found a string"@,
        ErrorView::NoValue => "expected something as a value but found nothing"@,
        ErrorView::ExpectedEmptyValue => "expected nothing but found something"@,
        ErrorView::ExpectedKey => "expected to parse a key"@,
        ErrorView::ExpectedValue => "expected to parse a value"@,
        ErrorView::ExpectedComma => "expected a comma"@,
    }
}

impl Error {
    /// What the error says in words.
    pub fn message(&self) -> (text: String)
        ensures
            text@ == message_text(self@),
    {
        match self {
            Error::Message(m) => String::from_str("message: ").concat(m.as_str()),
            Error::Eof => String::from_str("unexpected end of input"),
            Error::TrailingCharacters => String::from_str("trailing characters"),
            Error::NotImplemented(what) => String::from_str(what).concat(" is not implemented"),
            Error::Syntax => String::from_str("invalid syntax"),
            Error::ExpectedColon => String::from_str("expected a colon"),
            Error::ExpectedNewline => String::from_str("expected a newline"),
            Error::ParseInt => String::from_str("couldn't parse integer"),
            Error::ParseFloat => String::from_str("couldn't parse float"),
            Error::ParseBool => String::from_str("couldn't parse bool"),
            Error::ParseChar => String::from_str("expected a char, found a string"),
            Error::NoValue => String::from_str("expected something as a value but found nothing"),
            Error::ExpectedEmptyValue => String::from_str("expected nothing but found something"),
            Error::ExpectedKey => String::from_str("expected to parse a key"),
            Error::ExpectedValue => String::from_str("expected to parse a value"),
            Error::ExpectedComma => String::from_str("expected a comma"),
        }
    }
}

} // verus!
