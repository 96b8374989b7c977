//! Decimal integers in text: an optional sign, then one or more ASCII digits.

use crate::text::string_of;
use vstd::prelude::*;

verus! {

/// Whether `c` is one of `0` to `9`.
pub open spec fn is_digit(c: char) -> bool {
    48 <= c as u32 <= 57
}

/// What the digit `c` counts for.
pub open spec fn digit_value(c: char) -> int {
    c as u32 - 48
}

/// Whether every character of `s` is a digit.
pub open spec fn all_digits(s: Seq<char>) -> bool {
    forall|i: int| 0 <= i < s.len() ==> is_digit(#[trigger] s[i])
}

/// The number that the digits of `s` write in base ten.
pub open spec fn digits_value(s: Seq<char>) -> int
    decreases s.len(),
{
    if s.len() == 0 {
        0
    } else {
        digits_value(s.drop_last()) * 10 + digit_value(s.last())
    }
}

/// Whether `s` starts with a sign that a reader of `signed` numbers takes.
/// `+` is taken by every reader, `-` only by a signed one.
pub open spec fn has_sign(s: Seq<char>, signed: bool) -> bool {
    s.len() > 0 && (s[0] == '+' || (signed && s[0] == '-'))
}

/// The integer that `s` writes, where it writes one: an optional sign and
/// then at least one digit, nothing else.
pub open spec fn integer_of(s: Seq<char>, signed: bool) -> Option<int> {
    let digits = if has_sign(s, signed) {
        s.drop_first()
    } else {
        s
    };
    if digits.len() > 0 && all_digits(digits) {
        if has_sign(s, signed) && s[0] == '-' {
            Some(-digits_value(digits))
        } else {
            Some(digits_value(digits))
        }
    } else {
        None
    }
}

/// The integer that `s` writes, where it lies between `min` and `max`.
pub open spec fn integer_in(s: Seq<char>, signed: bool, min: int, max: int) -> Option<int> {
    match integer_of(s, signed) {
        Some(n) => if min <= n <= max {
            Some(n)
        } else {
            None
        },
        None => None,
    }
}

/// A prefix of a run of digits writes no more than the whole run.
pub proof fn lemma_digits_value_grows(s: Seq<char>, k: int)
    requires
        all_digits(s),
        0 <= k <= s.len(),
    ensures
        0 <= digits_value(s.take(k)) <= digits_value(s),
    decreases s.len() - k,
{
    if k == s.len() {
        assert(s.take(k) =~= s);
        lemma_digits_value_nonnegative(s);
    } else {
        let t = s.drop_last();
        assert(all_digits(t)) by {
            assert forall|i: int| 0 <= i < t.len() implies is_digit(#[trigger] t[i]) by {
                assert(t[i] == s[i]);
            }
        }
        assert(t.take(k) =~= s.take(k));
        lemma_digits_value_grows(t, k);
        assert(is_digit(s[s.len() - 1]));
    }
}

/// A run of digits writes no negative number.
pub proof fn lemma_digits_value_nonnegative(s: Seq<char>)
    requires
        all_digits(s),
    ensures
        0 <= digits_value(s),
    decreases s.len(),
{
    if s.len() > 0 {
        let t = s.drop_last();
        assert forall|i: int| 0 <= i < t.len() implies is_digit(#[trigger] t[i]) by {
            assert(t[i] == s[i]);
        }
        lemma_digits_value_nonnegative(t);
        assert(is_digit(s[s.len() - 1]));
    }
}

/// Reads `v` as a decimal integer between `min` and `max`. A leading `+` is
/// accepted; a leading `-` only where `signed`. Anything else, an empty run
/// of digits included, gives `None`.
pub fn parse_integer(v: &Vec<char>, signed: bool, min: i128, max: i128) -> (n: Option<i128>)
    requires
        -0x1_0000_0000_0000_0000 <= min <= 0 <= max <= 0x1_0000_0000_0000_0000,
    ensures
        match n {
            Some(k) => integer_in(v@, signed, min as int, max as int) == Some(k as int),
            None => integer_in(v@, signed, min as int, max as int) is None,
        },
{
    let len = v.len();
    let mut start: usize = 0;
    let mut negative = false;
    if len > 0 {
        let first = v[0];
        if first == '+' {
            start = 1;
        } else if signed && first == '-' {
            start = 1;
            negative = true;
        }
    }
    let ghost digits = if has_sign(v@, signed) {
        v@.drop_first()
    } else {
        v@
    };
    assert(digits =~= v@.skip(start as int));
    if start == len {
        return None;
    }
    let limit: i128 = if negative {
        -min
    } else {
        max
    };
    let mut acc: i128 = 0;
    let mut i: usize = start;
    while i < len
        invariant
            start <= i <= len,
            len == v.len(),
            digits == v@.skip(start as int),
            digits == (if has_sign(v@, signed) {
                v@.drop_first()
            } else {
                v@
            }),
            negative == (has_sign(v@, signed) && v@[0] == '-'),
            negative ==> limit == -min,
            !negative ==> limit == max,
            all_digits(digits.take(i - start)),
            acc == digits_value(digits.take(i - start)),
            0 <= acc <= limit <= 0x1_0000_0000_0000_0000,
        decreases len - i,
    {
        let d = v[i] as u32;
        let ghost prefix = digits.take(i - start + 1);
        proof {
            assert(prefix.drop_last() =~= digits.take(i - start));
            assert(prefix.last() == v@[i as int]);
        }
        if d < 48 || d > 57 {
            proof {
                assert(!is_digit(digits[i - start]));
            }
            return None;
        }
        let next = acc * 10 + (d - 48) as i128;
        proof {
            assert(all_digits(prefix)) by {
                assert forall|j: int| 0 <= j < prefix.len() implies is_digit(
                    #[trigger] prefix[j],
                ) by {
                    if j < i - start {
                        assert(prefix[j] == digits.take(i - start)[j]);
                    }
                }
            }
            assert(next == digits_value(prefix));
        }
        if next > limit {
            proof {
                if all_digits(digits) {
                    lemma_digits_value_grows(digits, i - start + 1);
                }
            }
            return None;
        }
        acc = next;
        i = i + 1;
    }
    proof {
        assert(digits.take(i - start) =~= digits);
    }
    if negative {
        Some(-acc)
    } else {
        Some(acc)
    }
}

/// The digit that counts for `d`, for `d` from 0 to 9.
pub open spec fn digit_char(d: int) -> char {
    (d + 48) as u8 as char
}

/// The digits that write `n` in base ten without leading zeros; `0` is
/// written `0`.
pub open spec fn magnitude_text(n: nat) -> Seq<char>
    decreases n,
{
    if n < 10 {
        seq![digit_char(n as int)]
    } else {
        magnitude_text(n / 10).push(digit_char((n % 10) as int))
    }
}

/// The decimal text of `n`: its digits, behind a `-` where `n` is negative.
pub open spec fn decimal_text(n: int) -> Seq<char> {
    if n < 0 {
        seq!['-'] + magnitude_text((-n) as nat)
    } else {
        magnitude_text(n as nat)
    }
}

/// The digits of a number write that number, and nothing but digits.
pub proof fn lemma_magnitude_text(n: nat)
    ensures
        magnitude_text(n).len() > 0,
        all_digits(magnitude_text(n)),
        digits_value(magnitude_text(n)) == n,
    decreases n,
{
    let text = magnitude_text(n);
    if n < 10 {
        assert(text[0] == digit_char(n as int));
        assert(is_digit(text[0]));
        assert(text.drop_last() =~= Seq::empty());
        assert(digits_value(text.drop_last()) == 0);
    } else {
        let front = magnitude_text(n / 10);
        let last = digit_char((n % 10) as int);
        lemma_magnitude_text(n / 10);
        assert(text.drop_last() =~= front);
        assert(text.last() == last);
        assert(is_digit(last));
        assert forall|i: int| 0 <= i < text.len() implies is_digit(#[trigger] text[i]) by {
            if i < front.len() {
                assert(text[i] == front[i]);
            }
        }
    }
}

/// Reading the decimal text of a number gives the number back.
pub proof fn lemma_decimal_round_trip(n: int)
    ensures
        integer_of(decimal_text(n), true) == Some(n),
        n >= 0 ==> integer_of(decimal_text(n), false) == Some(n),
{
    if n < 0 {
        let digits = magnitude_text((-n) as nat);
        lemma_magnitude_text((-n) as nat);
        let text = decimal_text(n);
        assert(text[0] == '-');
        assert(text.drop_first() =~= digits);
    } else {
        let text = decimal_text(n);
        lemma_magnitude_text(n as nat);
        assert(is_digit(text[0]));
        assert(!has_sign(text, true));
        assert(!has_sign(text, false));
    }
}

/// Writes `n` in decimal.
pub fn format_integer(n: i128) -> (text: String)
    ensures
        text@ == decimal_text(n as int),
{
    let negative = n < 0;
    let ghost magnitude: nat = if negative {
        (-n) as nat
    } else {
        n as nat
    };
    let last: u8 = if negative {
        (-(n % 10)) as u8
    } else {
        (n % 10) as u8
    };
    let mut rest: i128 = if negative {
        -(n / 10)
    } else {
        n / 10
    };
    assert(last == magnitude % 10 && rest == magnitude / 10);
    let mut text: Vec<char> = Vec::new();
    text.insert(0, (last + 48) as char);
    assert(text@ =~= seq![digit_char((magnitude % 10) as int)]);
    while rest > 0
        invariant
            0 <= rest,
            text@.len() > 0,
            magnitude_text(magnitude) == (if rest == 0 {
                text@
            } else {
                magnitude_text(rest as nat) + text@
            }),
        decreases rest,
    {
        let ghost before = text@;
        let digit = (rest % 10) as u8;
        text.insert(0, (digit + 48) as char);
        proof {
            let d = digit_char((rest % 10) as int);
            assert(text@ =~= seq![d] + before);
            if rest < 10 {
                assert(magnitude_text(rest as nat) =~= seq![d]);
            } else {
                assert(magnitude_text(rest as nat) =~= magnitude_text((rest / 10) as nat).push(d));
                assert(magnitude_text((rest / 10) as nat).push(d) + before =~= magnitude_text(
                    (rest / 10) as nat,
                ) + (seq![d] + before));
            }
        }
        rest = rest / 10;
    }
    if negative {
        let ghost digits = text@;
        text.insert(0, '-');
        assert(text@ =~= seq!['-'] + digits);
    }
    let written = string_of(&text, 0, text.len());
    assert(text@.subrange(0, text.len() as int) =~= text@);
    written
}

} // verus!
