use openid_rp::enums::{OpenIdMode, OpenIdUrl};
use openid_rp::key_values::de::{Deserializer, Error};
use openid_rp::number::parse_integer;
use openid_rp::shape::{get_scalar, parse_bool, put_scalar, same_scalar, Scalar};
use openid_rp::text::{chars_of, find_char, same_chars, same_text, starts_with, string_of, sub_chars};

fn chars(s: &str) -> Vec<char> {
    s.chars().collect()
}

#[test]
fn chars_and_strings() {
    assert_eq!(chars_of("a🦀b"), vec!['a', '🦀', 'b']);
    assert_eq!(chars_of(""), Vec::<char>::new());
    assert_eq!(string_of(&chars("a🦀bc"), 1, 3), "🦀b");
    assert_eq!(string_of(&chars("abc"), 3, 3), "");
    assert_eq!(sub_chars(&chars("abcd"), 1, 3), vec!['b', 'c']);
}

#[test]
fn find_char_gives_the_first_or_the_end() {
    let v = chars("a:b:c");
    assert_eq!(find_char(&v, 0, ':'), 1);
    assert_eq!(find_char(&v, 1, ':'), 1);
    assert_eq!(find_char(&v, 2, ':'), 3);
    assert_eq!(find_char(&v, 4, ':'), 5);
    assert_eq!(find_char(&v, 5, ':'), 5);
    assert_eq!(find_char(&v, 0, 'x'), 5);
}

#[test]
fn texts_are_compared_by_their_characters() {
    assert!(same_text("", ""));
    assert!(same_text("ab", "ab"));
    assert!(!same_text("ab", "abc"));
    assert!(!same_text("ab", "ac"));
    assert!(same_chars(&chars("x"), &chars("x")));
    assert!(starts_with(&chars("abc"), &chars("ab")));
    assert!(starts_with(&chars("abc"), &chars("")));
    assert!(starts_with(&chars("abc"), &chars("abc")));
    assert!(!starts_with(&chars("abc"), &chars("abcd")));
    assert!(!starts_with(&chars("abc"), &chars("b")));
}

#[test]
fn integers_are_read_like_rust_reads_them() {
    let i32s = |s: &str| parse_integer(&chars(s), true, i32::MIN as i128, i32::MAX as i128);
    let u64s = |s: &str| parse_integer(&chars(s), false, 0, u64::MAX as i128);
    for text in ["0", "1", "-1", "+1", "007", "-0", "2147483647", "-2147483648", "2147483648",
        "-2147483649", "", "+", "-", "1a", "a1", " 1", "1 ", "--1", "+-1", "１",
        "99999999999999999999999999999999999999999999"]
    {
        assert_eq!(i32s(text), text.parse::<i32>().ok().map(|n| n as i128), "{:?}", text);
    }
    for text in ["0", "1", "-1", "-0", "+1", "18446744073709551615", "18446744073709551616",
        "000000000000000000000000000000000001", "", "+", "-", "1_000"]
    {
        assert_eq!(u64s(text), text.parse::<u64>().ok().map(|n| n as i128), "{:?}", text);
    }
}

#[test]
fn truth_values_are_spelled_out() {
    assert_eq!(parse_bool(&chars("true")), Some(true));
    assert_eq!(parse_bool(&chars("false")), Some(false));
    for text in ["", "True", "1", "0", "yes", "true ", "falsee"] {
        assert_eq!(parse_bool(&chars(text)), None);
    }
}

#[test]
fn scalars_are_compared_by_value() {
    assert!(same_scalar(&Scalar::Unit, &Scalar::Unit));
    assert!(same_scalar(&Scalar::Absent, &Scalar::Absent));
    assert!(!same_scalar(&Scalar::Unit, &Scalar::Absent));
    assert!(same_scalar(&Scalar::Str("a".to_string()), &Scalar::Str("a".to_string())));
    assert!(!same_scalar(&Scalar::Str("1".to_string()), &Scalar::Int(1)));
    assert!(!same_scalar(&Scalar::Char('1'), &Scalar::Int(1)));
    assert!(same_scalar(&Scalar::Bool(true), &Scalar::Bool(true)));
    assert!(!same_scalar(&Scalar::Bool(true), &Scalar::Bool(false)));
}

#[test]
fn later_pair_replaces_the_earlier_in_its_place() {
    let mut pairs = Vec::new();
    put_scalar(&mut pairs, Scalar::Int(1), Scalar::Bool(false));
    put_scalar(&mut pairs, Scalar::Int(2), Scalar::Bool(false));
    put_scalar(&mut pairs, Scalar::Int(1), Scalar::Bool(true));
    assert_eq!(
        pairs,
        vec![(Scalar::Int(1), Scalar::Bool(true)), (Scalar::Int(2), Scalar::Bool(false))]
    );
    assert_eq!(get_scalar(&pairs, &Scalar::Int(2)), Some(&Scalar::Bool(false)));
    assert_eq!(get_scalar(&pairs, &Scalar::Int(3)), None);
}

#[test]
fn reader_walks_key_and_value() {
    let mut de = Deserializer::from_str("k:v:w\nx");
    assert!(!de.is_empty());
    assert_eq!(de.peek_key().expect("no key"), "k");
    assert_eq!(de.peek_value().expect("no key"), "k");
    assert_eq!(de.consume_value().expect("no key"), "k");
    assert!(matches!(de.peek_key(), Err(Error::ExpectedValue)));
    assert!(matches!(de.consume_key(), Err(Error::ExpectedValue)));
    assert_eq!(de.peek_value().expect("no value"), "v:w");
    assert_eq!(de.consume_value().expect("no value"), "v:w");
    assert!(matches!(de.peek_key(), Err(Error::ExpectedColon)));
    assert!(matches!(de.consume_key(), Err(Error::ExpectedColon)));
    assert!(matches!(de.consume_value(), Err(Error::ExpectedColon)));
    assert!(!de.is_empty());

    let mut de = Deserializer::from_str("k:v");
    assert_eq!(de.consume_key().expect("no key"), "k");
    assert!(matches!(de.peek_value(), Err(Error::Eof)));
    assert!(matches!(de.consume_value(), Err(Error::Eof)));
    assert!(Deserializer::from_str("").is_empty());
}

#[test]
fn modes_and_urls_are_spelled_out() {
    assert_eq!(OpenIdMode::Error.value(), "error");
    assert_eq!(OpenIdMode::Associate.value(), "associate");
    assert_eq!(OpenIdMode::CheckIdImmediate.value(), "checkid_immediate");
    assert_eq!(OpenIdMode::CheckIdSetup.value(), "checkid_setup");
    assert_eq!(OpenIdMode::IdentityResolution.value(), "id_res");
    assert_eq!(OpenIdMode::SetupNeeded.value(), "setup_needed");
    assert_eq!(OpenIdMode::Cancel.value(), "cancel");
    assert_eq!(OpenIdMode::CheckAuthentication.value(), "check_authentication");
    assert_eq!(
        OpenIdUrl::IdentifierSelect.url(),
        "http://specs.openid.net/auth/2.0/identifier_select"
    );
    assert_eq!(OpenIdUrl::ReturnTo.url(), "http://specs.openid.net/auth/2.0/return_to");
    assert_eq!(OpenIdUrl::Server.url(), "http://specs.openid.net/auth/2.0/server");
    assert_eq!(OpenIdUrl::SignOn.url(), "http://specs.openid.net/auth/2.0/signon");
}
