//! The key-value form: `key ':' value '\n'`, any number of times.
//!
//! Every record is one line, terminated by a newline, and nothing is
//! escaped: a key ends at the first colon of its line, a value at the
//! newline. A value may therefore hold colons; a key may hold neither colon
//! nor newline.

pub mod de;
pub mod fields;

pub use de::{from_str, Error};

use crate::entries::{distinct_keys, keys, lemma_put, lookup, put};
use crate::text::{chars_of, find_char, lemma_position, lemma_position_is, position, same_text,
    split_once, string_of};
use de::{split_key, ErrorView};
use vstd::prelude::*;
use vstd::string::StringExecFns;

verus! {

/// The texts of a list of pairs of strings.
pub open spec fn texts(v: Seq<(String, String)>) -> Seq<(Seq<char>, Seq<char>)> {
    v.map_values(|e: (String, String)| (e.0@, e.1@))
}

/// The text that a list of pairs writes: each pair as a record, in order.
pub open spec fn encode_spec(pairs: Seq<(Seq<char>, Seq<char>)>) -> Seq<char>
    decreases pairs.len(),
{
    if pairs.len() == 0 {
        Seq::empty()
    } else {
        pairs[0].0 + seq![':'] + pairs[0].1 + seq!['\n'] + encode_spec(pairs.drop_first())
    }
}

/// The records of `inner`, read one after the other and put into `acc`: a
/// later record replaces an earlier one with the same key. Each record is
/// one line: its key ends at the first colon of the line, its value at the
/// newline. A line without a colon and a last line without a newline are
/// errors.
pub open spec fn pairs_spec(inner: Seq<char>, acc: Seq<(Seq<char>, Seq<char>)>) -> Result<
    Seq<(Seq<char>, Seq<char>)>,
    ErrorView,
>
    decreases inner.len(),
    via pairs_spec_decreases
{
    if inner.len() == 0 {
        Ok(acc)
    } else {
        match split_key(inner) {
            None => Err(ErrorView::ExpectedColon),
            Some((key, after_key)) => match split_once(after_key, '\n') {
                None => Err(ErrorView::ExpectedNewline),
                Some((value, rest)) => pairs_spec(rest, put(acc, key, value)),
            },
        }
    }
}

#[via_fn]
proof fn pairs_spec_decreases(inner: Seq<char>, acc: Seq<(Seq<char>, Seq<char>)>) {
    lemma_position(inner, ':');
    lemma_position(inner, '\n');
    if let Some((_, after_key)) = split_key(inner) {
        lemma_position(after_key, '\n');
    }
}

/// The pairs that the text `s` holds.
pub open spec fn decode_spec(s: Seq<char>) -> Result<Seq<(Seq<char>, Seq<char>)>, ErrorView> {
    pairs_spec(s, Seq::empty())
}

/// Gives `key` the value `value` in `pairs`: in the place of the pair that
/// had this key, or at the end where the key is new.
pub fn put_text(pairs: &mut Vec<(String, String)>, key: String, value: String)
    ensures
        texts(final(pairs)@) == put(texts(old(pairs)@), key@, value@),
{
    let ghost before = texts(pairs@);
    let mut i: usize = 0;
    while i < pairs.len()
        invariant
            0 <= i <= pairs.len(),
            before == texts(pairs@),
            before == texts(old(pairs)@),
            forall|j: int| 0 <= j < i ==> keys(before)[j] != key@,
        decreases pairs.len() - i,
    {
        if same_text(pairs[i].0.as_str(), key.as_str()) {
            proof {
                assert(keys(before)[i as int] == key@);
                lemma_position_is(keys(before), key@, i as int);
            }
            pairs.set(i, (key, value));
            assert(texts(pairs@) =~= before.update(i as int, (key@, value@)));
            return ;
        }
        assert(keys(before)[i as int] != key@);
        i = i + 1;
    }
    proof {
        lemma_position_is(keys(before), key@, i as int);
    }
    pairs.push((key, value));
    assert(texts(pairs@) =~= before.push((key@, value@)));
}

/// A map from keys to values, both text, that remembers the order in which
/// its keys came.
#[derive(Debug, Clone, PartialEq, Eq)]
pub struct KeyValues {
    pairs: Vec<(String, String)>,
}

impl View for KeyValues {
    type V = Seq<(Seq<char>, Seq<char>)>;

    closed spec fn view(&self) -> Seq<(Seq<char>, Seq<char>)> {
        texts(self.pairs@)
    }
}

/// A map that was read, or the reason why none was.
pub open spec fn map_outcome(r: Result<KeyValues, Error>) -> Result<
    Seq<(Seq<char>, Seq<char>)>,
    ErrorView,
> {
    match r {
        Ok(kv) => Ok(kv@),
        Err(e) => Err(e@),
    }
}

/// Reading records into a list with distinct keys leaves the keys distinct.
pub proof fn lemma_pairs_spec_distinct(inner: Seq<char>, acc: Seq<(Seq<char>, Seq<char>)>)
    requires
        distinct_keys(acc),
    ensures
        pairs_spec(inner, acc) matches Ok(pairs) ==> distinct_keys(pairs),
    decreases inner.len(),
{
    if inner.len() > 0 {
        lemma_position(inner, ':');
        lemma_position(inner, '\n');
        if let Some((key, after_key)) = split_key(inner) {
            lemma_position(after_key, '\n');
            if let Some((value, rest)) = split_once(after_key, '\n') {
                lemma_put(acc, key, value);
                lemma_pairs_spec_distinct(rest, put(acc, key, value));
            }
        }
    }
}

impl KeyValues {
    /// The empty map.
    pub fn new() -> (kv: KeyValues)
        ensures
            kv@ == Seq::<(Seq<char>, Seq<char>)>::empty(),
    {
        let kv = KeyValues { pairs: Vec::new() };
        assert(texts(kv.pairs@) =~= Seq::empty());
        kv
    }

    /// Gives `key` the value `value`, in place of the value it had.
    pub fn insert(&mut self, key: String, value: String)
        ensures
            final(self)@ == put(old(self)@, key@, value@),
            distinct_keys(old(self)@) ==> distinct_keys(final(self)@),
    {
        proof {
            if distinct_keys(self@) {
                lemma_put(self@, key@, value@);
            }
        }
        put_text(&mut self.pairs, key, value);
    }

    /// The value of `key`.
    pub fn get(&self, key: &str) -> (value: Option<&String>)
        ensures
            match value {
                Some(v) => lookup(self@, key@) == Some(v@),
                None => lookup(self@, key@) is None,
            },
    {
        let ghost all = texts(self.pairs@);
        let mut i: usize = 0;
        while i < self.pairs.len()
            invariant
                0 <= i <= self.pairs.len(),
                all == texts(self.pairs@),
                forall|j: int| 0 <= j < i ==> keys(all)[j] != key@,
            decreases self.pairs.len() - i,
        {
            if same_text(self.pairs[i].0.as_str(), key) {
                proof {
                    assert(keys(all)[i as int] == key@);
                    lemma_position_is(keys(all), key@, i as int);
                }
                return Some(&self.pairs[i].1);
            }
            assert(keys(all)[i as int] != key@);
            i = i + 1;
        }
        proof {
            lemma_position_is(keys(all), key@, i as int);
        }
        None
    }

    /// How many keys the map holds.
    pub fn len(&self) -> (n: usize)
        ensures
            n == self@.len(),
    {
        self.pairs.len()
    }

    /// The pairs of the map, in the order in which the keys came.
    pub fn into_inner(self) -> (pairs: Vec<(String, String)>)
        ensures
            texts(pairs@) == self@,
    {
        self.pairs
    }

    /// Reads a text in key-value form. A key that comes twice keeps its
    /// last value.
    pub fn from_str(s: &str) -> (r: Result<KeyValues, Error>)
        ensures
            map_outcome(r) == decode_spec(s@),
            r matches Ok(kv) ==> distinct_keys(kv@),
    {
        let input = chars_of(s);
        let mut pairs: Vec<(String, String)> = Vec::new();
        let mut pos: usize = 0;
        assert(texts(pairs@) =~= Seq::empty());
        assert(input@.skip(0) =~= s@);
        while pos < input.len()
            invariant
                pos <= input.len(),
                distinct_keys(texts(pairs@)),
                decode_spec(s@) == pairs_spec(input@.skip(pos as int), texts(pairs@)),
            decreases input.len() - pos,
        {
            let ghost inner = input@.skip(pos as int);
            let colon = find_char(&input, pos, ':');
            let line_end = find_char(&input, pos, '\n');
            if colon >= line_end {
                return Err(Error::ExpectedColon);
            }
            let key = string_of(&input, pos, colon);
            let ghost after_key = input@.skip(colon + 1);
            proof {
                let i = position(inner, ':');
                assert(inner.take(i) =~= key@);
                assert(inner.skip(i + 1) =~= after_key);
            }
            let newline = find_char(&input, colon + 1, '\n');
            if newline == input.len() {
                return Err(Error::ExpectedNewline);
            }
            let value = string_of(&input, colon + 1, newline);
            proof {
                let j = position(after_key, '\n');
                assert(after_key.take(j) =~= value@);
                assert(after_key.skip(j + 1) =~= input@.skip(newline + 1));
                lemma_put(texts(pairs@), key@, value@);
            }
            put_text(&mut pairs, key, value);
            pos = newline + 1;
        }
        Ok(KeyValues { pairs })
    }

    /// Writes the map in key-value form, one record for each key.
    pub fn to_string(&self) -> (s: String)
        ensures
            s@ == encode_spec(self@),
    {
        let mut buffer = String::new();
        let mut i: usize = 0;
        assert(self@.skip(0) =~= self@);
        while i < self.pairs.len()
            invariant
                0 <= i <= self.pairs.len(),
                buffer@ + encode_spec(self@.skip(i as int)) == encode_spec(self@),
            decreases self.pairs.len() - i,
        {
            let ghost before = buffer@;
            let ghost rest = self@.skip(i as int);
            proof {
                reveal_strlit(":");
                reveal_strlit("\n");
                assert(rest[0] == self@[i as int]);
                assert(rest.drop_first() =~= self@.skip(i + 1));
            }
            buffer.append(self.pairs[i].0.as_str());
            buffer.append(":");
            buffer.append(self.pairs[i].1.as_str());
            buffer.append("\n");
            proof {
                assert(":"@ =~= seq![':']);
                assert("\n"@ =~= seq!['\n']);
                assert(buffer@ =~= before + (rest[0].0 + seq![':'] + rest[0].1 + seq!['\n']));
                assert(buffer@ + encode_spec(self@.skip(i + 1)) =~= before + encode_spec(rest));
            }
            i = i + 1;
        }
        assert(buffer@ + Seq::<char>::empty() =~= buffer@);
        buffer
    }
}

/// Whether every pair can be told apart again once written: no key holds a
/// colon or a newline and no value holds a newline.
pub open spec fn writable(pairs: Seq<(Seq<char>, Seq<char>)>) -> bool {
    forall|i: int|
        0 <= i < pairs.len() ==> !(#[trigger] pairs[i]).0.contains(':') && !pairs[i].0.contains(
            '\n',
        ) && !pairs[i].1.contains('\n')
}

/// Reading what `rest` writes, into a list `acc` that shares no key with it,
/// appends `rest` to `acc`.
pub proof fn lemma_read_back(acc: Seq<(Seq<char>, Seq<char>)>, rest: Seq<(Seq<char>, Seq<char>)>)
    requires
        distinct_keys(acc + rest),
        writable(rest),
    ensures
        pairs_spec(encode_spec(rest), acc) == Ok::<_, ErrorView>(acc + rest),
    decreases rest.len(),
{
    if rest.len() == 0 {
        assert(acc + rest =~= acc);
    } else {
        let k = rest[0].0;
        let v = rest[0].1;
        let tail = rest.drop_first();
        let text = encode_spec(rest);
        let after_key = v + seq!['\n'] + encode_spec(tail);
        assert(text =~= k + seq![':'] + after_key);
        assert(text[k.len() as int] == ':');
        assert forall|j: int| 0 <= j < k.len() implies text[j] != ':' by {
            assert(text[j] == k[j]);
            assert(!k.contains(':'));
        }
        lemma_position_is(text, ':', k.len() as int);
        assert(position(text, '\n') > k.len()) by {
            lemma_position(text, '\n');
            let p = position(text, '\n');
            if p < k.len() {
                assert(text[p] == k[p]);
                assert(k.contains('\n'));
            }
        }
        assert(text.take(k.len() as int) =~= k);
        assert(text.skip(k.len() as int + 1) =~= after_key);
        assert(after_key[v.len() as int] == '\n');
        assert forall|j: int| 0 <= j < v.len() implies after_key[j] != '\n' by {
            assert(after_key[j] == v[j]);
            assert(!v.contains('\n'));
        }
        lemma_position_is(after_key, '\n', v.len() as int);
        assert(after_key.take(v.len() as int) =~= v);
        assert(after_key.skip(v.len() as int + 1) =~= encode_spec(tail));
        let all = keys(acc + rest);
        assert(all[acc.len() as int] == k);
        assert forall|j: int| 0 <= j < acc.len() implies keys(acc)[j] != k by {
            assert(all[j] == keys(acc)[j]);
        }
        lemma_position_is(keys(acc), k, acc.len() as int);
        assert(put(acc, k, v) == acc.push((k, v)));
        assert(acc.push((k, v)) + tail =~= acc + rest);
        assert forall|i: int| 0 <= i < tail.len() implies !(#[trigger] tail[i]).0.contains(':')
            && !tail[i].0.contains('\n') && !tail[i].1.contains('\n') by {
            assert(tail[i] == rest[i + 1]);
        }
        lemma_read_back(acc.push((k, v)), tail);
    }
}

/// Writing a map and reading the text back gives the same map, key for key
/// and in the same order, provided that no key holds a colon or a newline
/// and no value a newline.
pub proof fn lemma_round_trip(pairs: Seq<(Seq<char>, Seq<char>)>)
    requires
        distinct_keys(pairs),
        writable(pairs),
    ensures
        decode_spec(encode_spec(pairs)) == Ok::<_, ErrorView>(pairs),
{
    assert(Seq::<(Seq<char>, Seq<char>)>::empty() + pairs =~= pairs);
    lemma_read_back(Seq::empty(), pairs);
}

/// A text that does not end in a newline is not read: its last record is
/// not terminated.
pub proof fn lemma_unterminated(s: Seq<char>, acc: Seq<(Seq<char>, Seq<char>)>)
    requires
        s.len() > 0,
        s.last() != '\n',
    ensures
        pairs_spec(s, acc) is Err,
    decreases s.len(),
{
    lemma_position(s, ':');
    lemma_position(s, '\n');
    if let Some((key, after_key)) = split_key(s) {
        lemma_position(after_key, '\n');
        if let Some((value, rest)) = split_once(after_key, '\n') {
            let i = position(s, ':');
            let j = position(after_key, '\n');
            if rest.len() == 0 {
                assert(after_key[j] == s[i + 1 + j]);
            } else {
                assert(rest.last() == s.last());
                lemma_unterminated(rest, put(acc, key, value));
            }
        }
    }
}

} // verus!
