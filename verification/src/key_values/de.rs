//! Reading a text in key-value form piece by piece, and as typed records.

use crate::entries::{distinct_keys, lemma_put, put};
use crate::shape::{bool_of, integer_as, pairs_view, parse_bool, parse_integer_as, put_scalar,
    Scalar, ScalarView, Shape, Value, ValueView};
use crate::text::{chars_of, find_char, lemma_position, position, split_once, string_of, sub_chars};
use vstd::prelude::*;
use vstd::string::StringExecFns;

verus! {

/// Why a text in key-value form could not be read.
#[derive(Debug, Clone, PartialEq, Eq)]
pub enum Error {
    Message(String),
    Eof,
    TrailingCharacters,
    NotImplemented(&'static str),
    Syntax,
    ExpectedColon,
    ExpectedNewline,
    ParseInt,
    ParseFloat,
    ParseBool,
    ParseChar,
    NoValue,
    ExpectedEmptyValue,
    ExpectedKey,
    ExpectedValue,
}

/// The mathematical value of an [`Error`].
pub enum ErrorView {
    Message(Seq<char>),
    Eof,
    TrailingCharacters,
    NotImplemented(Seq<char>),
    Syntax,
    ExpectedColon,
    ExpectedNewline,
    ParseInt,
    ParseFloat,
    ParseBool,
    ParseChar,
    NoValue,
    ExpectedEmptyValue,
    ExpectedKey,
    ExpectedValue,
}

impl View for Error {
    type V = ErrorView;

    open spec fn view(&self) -> ErrorView {
        match self {
            Error::Message(m) => ErrorView::Message(m@),
            Error::Eof => ErrorView::Eof,
            Error::TrailingCharacters => ErrorView::TrailingCharacters,
            Error::NotImplemented(what) => ErrorView::NotImplemented(what@),
            Error::Syntax => ErrorView::Syntax,
            Error::ExpectedColon => ErrorView::ExpectedColon,
            Error::ExpectedNewline => ErrorView::ExpectedNewline,
            Error::ParseInt => ErrorView::ParseInt,
            Error::ParseFloat => ErrorView::ParseFloat,
            Error::ParseBool => ErrorView::ParseBool,
            Error::ParseChar => ErrorView::ParseChar,
            Error::NoValue => ErrorView::NoValue,
            Error::ExpectedEmptyValue => ErrorView::ExpectedEmptyValue,
            Error::ExpectedKey => ErrorView::ExpectedKey,
            Error::ExpectedValue => ErrorView::ExpectedValue,
        }
    }
}

/// Where a [`Deserializer`] stands: the text not yet read, and whether the
/// key of the current record has been read already.
pub struct Cursor {
    pub inner: Seq<char>,
    pub consumed_key: bool,
}

/// A piece of text that was read, or the reason why none was.
pub open spec fn text_outcome(r: Result<String, Error>) -> Result<Seq<char>, ErrorView> {
    match r {
        Ok(text) => Ok(text@),
        Err(e) => Err(e@),
    }
}

/// The key of the record at the front of `s`, and what follows its colon.
/// The key ends at the first colon, and that colon must stand before the
/// first newline: a key holds neither. `None` where the first line holds no
/// colon.
pub open spec fn split_key(s: Seq<char>) -> Option<(Seq<char>, Seq<char>)> {
    if position(s, ':') < position(s, '\n') {
        split_once(s, ':')
    } else {
        None
    }
}

/// Reading the key of a record: the text up to the first colon, which must
/// stand in the first line. The colon is dropped, and the cursor then
/// stands before the value.
pub open spec fn consume_key_spec(c: Cursor) -> (Result<Seq<char>, ErrorView>, Cursor) {
    if c.consumed_key {
        (Err(ErrorView::ExpectedValue), c)
    } else {
        match split_key(c.inner) {
            Some((key, rest)) => (Ok(key), Cursor { inner: rest, consumed_key: true }),
            None => (Err(ErrorView::ExpectedColon), c),
        }
    }
}

/// Reading the next piece of a record. Before a key that is the key; after
/// it, it is the value: the text up to the first newline, which is dropped.
pub open spec fn consume_value_spec(c: Cursor) -> (Result<Seq<char>, ErrorView>, Cursor) {
    if !c.consumed_key {
        consume_key_spec(c)
    } else {
        match split_once(c.inner, '\n') {
            Some((value, rest)) => (Ok(value), Cursor { inner: rest, consumed_key: false }),
            None => (Err(ErrorView::Eof), c),
        }
    }
}

/// A reader that walks over a text in key-value form, piece by piece.
pub struct Deserializer {
    input: Vec<char>,
    pos: usize,
    consumed_key: bool,
}

impl View for Deserializer {
    type V = Cursor;

    closed spec fn view(&self) -> Cursor {
        Cursor { inner: self.input@.skip(self.pos as int), consumed_key: self.consumed_key }
    }
}

impl Deserializer {
    #[verifier::type_invariant]
    spec fn in_bounds(self) -> bool {
        self.pos <= self.input.len()
    }

    /// A reader at the start of `input`.
    pub fn from_str(input: &str) -> (de: Deserializer)
        ensures
            de@ == (Cursor { inner: input@, consumed_key: false }),
    {
        let de = Deserializer { input: chars_of(input), pos: 0, consumed_key: false };
        assert(de.input@.skip(0) =~= input@);
        de
    }

    /// Whether nothing is left to read.
    pub fn is_empty(&self) -> (empty: bool)
        ensures
            empty == (self@.inner.len() == 0),
    {
        proof {
            use_type_invariant(self);
        }
        self.pos == self.input.len()
    }

    /// Reads the key of the current record and moves behind its colon. A
    /// record whose first line holds no colon has no key.
    pub fn consume_key(&mut self) -> (r: Result<String, Error>)
        ensures
            (text_outcome(r), final(self)@) == consume_key_spec(old(self)@),
    {
        proof {
            use_type_invariant(&*self);
        }
        if self.consumed_key {
            return Err(Error::ExpectedValue);
        }
        let end = find_char(&self.input, self.pos, ':');
        let line_end = find_char(&self.input, self.pos, '\n');
        if end >= line_end {
            return Err(Error::ExpectedColon);
        }
        let key = string_of(&self.input, self.pos, end);
        proof {
            let inner = self.input@.skip(self.pos as int);
            let i = position(inner, ':');
            assert(inner.take(i) =~= self.input@.subrange(self.pos as int, end as int));
            assert(inner.skip(i + 1) =~= self.input@.skip(end + 1));
        }
        self.pos = end + 1;
        self.consumed_key = true;
        Ok(key)
    }

    /// The key of the current record, without moving.
    pub fn peek_key(&self) -> (r: Result<String, Error>)
        ensures
            text_outcome(r) == consume_key_spec(self@).0,
    {
        proof {
            use_type_invariant(self);
        }
        if self.consumed_key {
            return Err(Error::ExpectedValue);
        }
        let end = find_char(&self.input, self.pos, ':');
        let line_end = find_char(&self.input, self.pos, '\n');
        if end >= line_end {
            return Err(Error::ExpectedColon);
        }
        let key = string_of(&self.input, self.pos, end);
        proof {
            let inner = self.input@.skip(self.pos as int);
            let i = position(inner, ':');
            assert(inner.take(i) =~= self.input@.subrange(self.pos as int, end as int));
        }
        Ok(key)
    }

    /// Reads the next piece of the current record: its key where that has
    /// not been read yet, else its value, moving behind the delimiter.
    pub fn consume_value(&mut self) -> (r: Result<String, Error>)
        ensures
            (text_outcome(r), final(self)@) == consume_value_spec(old(self)@),
    {
        proof {
            use_type_invariant(&*self);
        }
        if !self.consumed_key {
            return self.consume_key();
        }
        let end = find_char(&self.input, self.pos, '\n');
        if end == self.input.len() {
            return Err(Error::Eof);
        }
        let value = string_of(&self.input, self.pos, end);
        proof {
            let inner = self.input@.skip(self.pos as int);
            let i = position(inner, '\n');
            assert(inner.take(i) =~= self.input@.subrange(self.pos as int, end as int));
            assert(inner.skip(i + 1) =~= self.input@.skip(end + 1));
        }
        self.pos = end + 1;
        self.consumed_key = false;
        Ok(value)
    }

    /// The next piece of the current record, without moving.
    pub fn peek_value(&self) -> (r: Result<String, Error>)
        ensures
            text_outcome(r) == consume_value_spec(self@).0,
    {
        proof {
            use_type_invariant(self);
        }
        if !self.consumed_key {
            return self.peek_key();
        }
        let end = find_char(&self.input, self.pos, '\n');
        if end == self.input.len() {
            return Err(Error::Eof);
        }
        let value = string_of(&self.input, self.pos, end);
        proof {
            let inner = self.input@.skip(self.pos as int);
            let i = position(inner, '\n');
            assert(inner.take(i) =~= self.input@.subrange(self.pos as int, end as int));
        }
        Ok(value)
    }
}

/// For a shape that this format cannot hold: the name of what is not
/// implemented.
pub open spec fn unsupported(shape: Shape) -> Option<Seq<char>> {
    match shape {
        Shape::Sequence(_) => Some("deserialize_seq"@),
        Shape::Mapping(_, _) => Some("deserialize_map"@),
        Shape::Bytes => Some("deserialize_bytes"@),
        Shape::Tuple => Some("deserialize_tuple"@),
        Shape::Enum => Some("deserialize_enum"@),
        Shape::Any => Some("deserialize_any"@),
        _ => None,
    }
}

/// What the text of one key or value stands for when read as `shape`.
pub open spec fn read_element(text: Seq<char>, shape: Shape) -> Result<ScalarView, ErrorView>
    decreases shape,
{
    match shape {
        Shape::Bool => match bool_of(text) {
            Some(b) => Ok(ScalarView::Bool(b)),
            None => Err(ErrorView::ParseBool),
        },
        Shape::Char => if text.len() == 0 {
            Err(ErrorView::NoValue)
        } else if text.len() > 1 {
            Err(ErrorView::ParseChar)
        } else {
            Ok(ScalarView::Char(text[0]))
        },
        Shape::Str => Ok(ScalarView::Str(text)),
        Shape::Unit => if text.len() == 0 {
            Ok(ScalarView::Unit)
        } else {
            Err(ErrorView::ExpectedEmptyValue)
        },
        Shape::Optional(inner) => if text.len() == 0 {
            Ok(ScalarView::Absent)
        } else {
            read_element(text, *inner)
        },
        _ => match unsupported(shape) {
            Some(what) => Err(ErrorView::NotImplemented(what)),
            None => match integer_as(text, shape) {
                Some(n) => Ok(ScalarView::Int(n)),
                None => Err(ErrorView::ParseInt),
            },
        },
    }
}

/// The records of `inner`, read one after the other and put into `acc`: a
/// later record replaces an earlier one with the same key. Each record is
/// one line: its key ends at the first colon of the line, its value at the
/// newline. The first record that cannot be read ends the reading with its
/// error; a line without a colon is such a record.
pub open spec fn record_spec(
    inner: Seq<char>,
    key: Shape,
    value: Shape,
    acc: Seq<(ScalarView, ScalarView)>,
) -> Result<Seq<(ScalarView, ScalarView)>, ErrorView>
    decreases inner.len(),
    via record_spec_decreases
{
    if inner.len() == 0 {
        Ok(acc)
    } else {
        match split_key(inner) {
            None => Err(ErrorView::ExpectedColon),
            Some((key_text, after_key)) => match read_element(key_text, key) {
                Err(e) => Err(e),
                Ok(k) => match split_once(after_key, '\n') {
                    None => Err(ErrorView::ExpectedNewline),
                    Some((value_text, rest)) => match read_element(value_text, value) {
                        Err(e) => Err(e),
                        Ok(v) => record_spec(rest, key, value, put(acc, k, v)),
                    },
                },
            },
        }
    }
}

#[via_fn]
proof fn record_spec_decreases(
    inner: Seq<char>,
    key: Shape,
    value: Shape,
    acc: Seq<(ScalarView, ScalarView)>,
) {
    lemma_position(inner, ':');
    lemma_position(inner, '\n');
    if let Some((_, after_key)) = split_key(inner) {
        lemma_position(after_key, '\n');
    }
}

/// Reading records into a list with distinct keys leaves the keys distinct:
/// a record never holds a key twice.
pub proof fn lemma_record_spec_distinct(
    inner: Seq<char>,
    key: Shape,
    value: Shape,
    acc: Seq<(ScalarView, ScalarView)>,
)
    requires
        distinct_keys(acc),
    ensures
        record_spec(inner, key, value, acc) matches Ok(pairs) ==> distinct_keys(pairs),
    decreases inner.len(),
{
    if inner.len() > 0 {
        lemma_position(inner, ':');
        lemma_position(inner, '\n');
        if let Some((key_text, after_key)) = split_key(inner) {
            lemma_position(after_key, '\n');
            if let Ok(k) = read_element(key_text, key) {
                if let Some((value_text, rest)) = split_once(after_key, '\n') {
                    if let Ok(v) = read_element(value_text, value) {
                        lemma_put(acc, k, v);
                        lemma_record_spec_distinct(rest, key, value, put(acc, k, v));
                    }
                }
            }
        }
    }
}

/// What a whole text stands for when read as `shape`. A mapping is read
/// record by record; a plain shape reads the first key alone.
pub open spec fn from_str_spec(s: Seq<char>, shape: Shape) -> Result<ValueView, ErrorView> {
    match shape {
        Shape::Mapping(key, value) => match record_spec(s, *key, *value, Seq::empty()) {
            Ok(pairs) => Ok(ValueView::Record(pairs)),
            Err(e) => Err(e),
        },
        _ => match unsupported(shape) {
            Some(what) => Err(ErrorView::NotImplemented(what)),
            None => match split_key(s) {
                None => Err(ErrorView::ExpectedColon),
                Some((text, _)) => match read_element(text, shape) {
                    Ok(v) => Ok(ValueView::Single(v)),
                    Err(e) => Err(e),
                },
            },
        },
    }
}

/// One element that was read, or the reason why none was.
pub open spec fn scalar_outcome(r: Result<Scalar, Error>) -> Result<ScalarView, ErrorView> {
    match r {
        Ok(v) => Ok(v@),
        Err(e) => Err(e@),
    }
}

/// The pairs that were read, or the reason why none were.
pub open spec fn pairs_outcome(r: Result<Vec<(Scalar, Scalar)>, Error>) -> Result<
    Seq<(ScalarView, ScalarView)>,
    ErrorView,
> {
    match r {
        Ok(pairs) => Ok(pairs_view(pairs@)),
        Err(e) => Err(e@),
    }
}

/// A value that was read, or the reason why none was.
pub open spec fn value_outcome(r: Result<Value, Error>) -> Result<ValueView, ErrorView> {
    match r {
        Ok(v) => Ok(v@),
        Err(e) => Err(e@),
    }
}

/// For a shape that this format cannot hold: the name of what is not
/// implemented.
pub fn unsupported_name(shape: &Shape) -> (name: Option<&'static str>)
    ensures
        match name {
            Some(what) => unsupported(*shape) == Some(what@),
            None => unsupported(*shape) is None,
        },
{
    match shape {
        Shape::Sequence(_) => Some("deserialize_seq"),
        Shape::Mapping(_, _) => Some("deserialize_map"),
        Shape::Bytes => Some("deserialize_bytes"),
        Shape::Tuple => Some("deserialize_tuple"),
        Shape::Enum => Some("deserialize_enum"),
        Shape::Any => Some("deserialize_any"),
        _ => None,
    }
}

/// Reads the text of one key or value as `shape`.
pub fn read(text: &Vec<char>, shape: &Shape) -> (r: Result<Scalar, Error>)
    ensures
        scalar_outcome(r) == read_element(text@, *shape),
    decreases shape,
{
    match shape {
        Shape::Bool => match parse_bool(text) {
            Some(b) => Ok(Scalar::Bool(b)),
            None => Err(Error::ParseBool),
        },
        Shape::Char => if text.len() == 0 {
            Err(Error::NoValue)
        } else if text.len() > 1 {
            Err(Error::ParseChar)
        } else {
            Ok(Scalar::Char(text[0]))
        },
        Shape::Str => {
            let s = string_of(text, 0, text.len());
            assert(text@.subrange(0, text.len() as int) =~= text@);
            Ok(Scalar::Str(s))
        },
        Shape::Unit => if text.len() == 0 {
            Ok(Scalar::Unit)
        } else {
            Err(Error::ExpectedEmptyValue)
        },
        Shape::Optional(inner) => if text.len() == 0 {
            Ok(Scalar::Absent)
        } else {
            read(text, inner)
        },
        _ => match unsupported_name(shape) {
            Some(what) => Err(Error::NotImplemented(what)),
            None => match parse_integer_as(text, shape) {
                Some(n) => Ok(Scalar::Int(n)),
                None => Err(Error::ParseInt),
            },
        },
    }
}

impl Deserializer {
    /// Reads all that is left as records whose keys have the shape `key`
    /// and whose values have the shape `value`.
    pub fn record(&mut self, key: &Shape, value: &Shape) -> (r: Result<
        Vec<(Scalar, Scalar)>,
        Error,
    >)
        requires
            !old(self)@.consumed_key,
        ensures
            pairs_outcome(r) == record_spec(old(self)@.inner, *key, *value, Seq::empty()),
            !final(self)@.consumed_key,
    {
        proof {
            use_type_invariant(&*self);
        }
        let mut pairs: Vec<(Scalar, Scalar)> = Vec::new();
        let ghost whole = self@.inner;
        assert(pairs_view(pairs@) =~= Seq::empty());
        while self.pos < self.input.len()
            invariant
                self.pos <= self.input.len(),
                !self.consumed_key,
                whole == old(self)@.inner,
                record_spec(whole, *key, *value, Seq::empty()) == record_spec(
                    self@.inner,
                    *key,
                    *value,
                    pairs_view(pairs@),
                ),
            decreases self.input.len() - self.pos,
        {
            let ghost inner = self@.inner;
            let colon = find_char(&self.input, self.pos, ':');
            let line_end = find_char(&self.input, self.pos, '\n');
            if colon >= line_end {
                return Err(Error::ExpectedColon);
            }
            let key_text = sub_chars(&self.input, self.pos, colon);
            proof {
                let i = position(inner, ':');
                assert(inner.take(i) =~= key_text@);
                assert(inner.skip(i + 1) =~= self.input@.skip(colon + 1));
            }
            let k = match read(&key_text, key) {
                Ok(k) => k,
                Err(e) => {
                    return Err(e);
                },
            };
            let ghost after_key = self.input@.skip(colon + 1);
            let newline = find_char(&self.input, colon + 1, '\n');
            if newline == self.input.len() {
                return Err(Error::ExpectedNewline);
            }
            let value_text = sub_chars(&self.input, colon + 1, newline);
            proof {
                let j = position(after_key, '\n');
                assert(after_key.take(j) =~= value_text@);
                assert(after_key.skip(j + 1) =~= self.input@.skip(newline + 1));
            }
            let v = match read(&value_text, value) {
                Ok(v) => v,
                Err(e) => {
                    return Err(e);
                },
            };
            put_scalar(&mut pairs, k, v);
            self.pos = newline + 1;
        }
        Ok(pairs)
    }
}

/// Reads the text `s` in key-value form as `shape`.
pub fn from_str(s: &str, shape: &Shape) -> (r: Result<Value, Error>)
    ensures
        value_outcome(r) == from_str_spec(s@, *shape),
{
    let mut de = Deserializer::from_str(s);
    match shape {
        Shape::Mapping(key, value) => match de.record(key, value) {
            Ok(pairs) => Ok(Value::Record(pairs)),
            Err(e) => Err(e),
        },
        _ => match unsupported_name(shape) {
            Some(what) => Err(Error::NotImplemented(what)),
            None => match de.consume_key() {
                Err(e) => Err(e),
                Ok(text) => match read(&chars_of(text.as_str()), shape) {
                    Ok(v) => Ok(Value::Single(v)),
                    Err(e) => Err(e),
                },
            },
        },
    }
}

/// What an error says in words.
pub open spec fn message_text(e: ErrorView) -> Seq<char> {
    match e {
        ErrorView::Message(m) => "message: "@ + m,
        ErrorView::Eof => "unexpected end of input"@,
        ErrorView::TrailingCharacters => "trailing characters"@,
        ErrorView::NotImplemented(what) => what + " is not implemented"@,
        ErrorView::Syntax => "invalid syntax"@,
        ErrorView::ExpectedColon => "expected a colon"@,
        ErrorView::ExpectedNewline => "expected a newline"@,
        ErrorView::ParseInt => "couldn't parse integer"@,
        ErrorView::ParseFloat => "couldn't parse float"@,
        ErrorView::ParseBool => "couldn't parse bool"@,
        ErrorView::ParseChar => "expected a char, found a string"@,
        ErrorView::NoValue => "expected something as a value but found nothing"@,
        ErrorView::ExpectedEmptyValue => "expected nothing but found something"@,
        ErrorView::ExpectedKey => "expected to parse a key"@,
        ErrorView::ExpectedValue => "expected to parse a value"@,
    }
}

impl Error {
    /// What the error says in words.
    pub fn message(&self) -> (text: String)
        ensures
            text@ == message_text(self@),
    {
        match self {
            Error::Message(m) => String::from_str("message: ").concat(m.as_str()),
            Error::Eof => String::from_str("unexpected end of input"),
            Error::TrailingCharacters => String::from_str("trailing characters"),
            Error::NotImplemented(what) => String::from_str(what).concat(" is not implemented"),
            Error::Syntax => String::from_str("invalid syntax"),
            Error::ExpectedColon => String::from_str("expected a colon"),
            Error::ExpectedNewline => String::from_str("expected a newline"),
            Error::ParseInt => String::from_str("couldn't parse integer"),
            Error::ParseFloat => String::from_str("couldn't parse float"),
            Error::ParseBool => String::from_str("couldn't parse bool"),
            Error::ParseChar => String::from_str("expected a char, found a string"),
            Error::NoValue => String::from_str("expected something as a value but found nothing"),
            Error::ExpectedEmptyValue => String::from_str("expected nothing but found something"),
            Error::ExpectedKey => String::from_str("expected to parse a key"),
            Error::ExpectedValue => String::from_str("expected to parse a value"),
        }
    }
}

/// The first line of `inner`, cut at its first colon into key and value,
/// and what follows the line. `None` where `inner` holds no newline, or the
/// line no colon.
pub open spec fn next_pair(inner: Seq<char>) -> Option<((Seq<char>, Seq<char>), Seq<char>)> {
    match split_once(inner, '\n') {
        None => None,
        Some((line, rest)) => match split_once(line, ':') {
            None => None,
            Some((key, value)) => Some(((key, value), rest)),
        },
    }
}

/// Walks over a text in key-value form line by line and hands out the key
/// and the value of each. It stops for good at the first line that is not
/// terminated or holds no colon.
pub struct KeyValueIterator {
    input: Vec<char>,
    pos: usize,
}

impl View for KeyValueIterator {
    type V = Seq<char>;

    closed spec fn view(&self) -> Seq<char> {
        self.input@.skip(self.pos as int)
    }
}

impl KeyValueIterator {
    #[verifier::type_invariant]
    spec fn in_bounds(self) -> bool {
        self.pos <= self.input.len()
    }

    /// A walk from the start of `input`.
    pub fn new(input: &str) -> (it: KeyValueIterator)
        ensures
            it@ == input@,
    {
        let it = KeyValueIterator { input: chars_of(input), pos: 0 };
        assert(it.input@.skip(0) =~= input@);
        it
    }

    /// The key and the value of the next line.
    pub fn next(&mut self) -> (pair: Option<(String, String)>)
        ensures
            match pair {
                Some(p) => next_pair(old(self)@) == Some(((p.0@, p.1@), final(self)@)),
                None => next_pair(old(self)@) is None && final(self)@ == old(self)@,
            },
    {
        proof {
            use_type_invariant(&*self);
        }
        let ghost inner = self@;
        let newline = find_char(&self.input, self.pos, '\n');
        if newline == self.input.len() {
            return None;
        }
        let line = sub_chars(&self.input, self.pos, newline);
        proof {
            let i = position(inner, '\n');
            assert(inner.take(i) =~= line@);
            assert(inner.skip(i + 1) =~= self.input@.skip(newline + 1));
            assert(line@.skip(0) =~= line@);
        }
        let colon = find_char(&line, 0, ':');
        if colon == line.len() {
            return None;
        }
        let key = string_of(&line, 0, colon);
        let value = string_of(&line, colon + 1, line.len());
        proof {
            assert(line@.subrange(0, colon as int) =~= line@.take(colon as int));
            assert(line@.subrange(colon + 1, line.len() as int) =~= line@.skip(colon + 1));
        }
        self.pos = newline + 1;
        Some((key, value))
    }
}

} // verus!
