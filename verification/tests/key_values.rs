use openid_rp::key_values::de::{from_str, Deserializer, KeyValueIterator};
use openid_rp::key_values::fields::{from_str as from_str_fields, Field};
use openid_rp::key_values::{Error, KeyValues};
use openid_rp::shape::{get_scalar, Scalar, Shape, Value};

fn map_of(key: Shape, value: Shape) -> Shape {
    Shape::Mapping(Box::new(key), Box::new(value))
}

fn text(s: &str) -> Scalar {
    Scalar::Str(s.to_string())
}

fn record(input: &str, key: Shape, value: Shape) -> Vec<(Scalar, Scalar)> {
    match from_str(input, &map_of(key, value)) {
        Ok(Value::Record(pairs)) => pairs,
        other => panic!("parsing failed: {:?}", other),
    }
}

fn assert_parse_error(input: &str) {
    let parsed = from_str(input, &map_of(Shape::Str, Shape::Str));
    if !parsed.is_err() {
        println!("parsed: {:?}", parsed);
    }
    assert!(parsed.is_err());
}

#[test]
fn deserialize_seq_of_pairs() {
    let shape = Shape::Sequence(Box::new(Shape::Tuple));
    let parsed = from_str("a:a\nb:b:b\n", &shape);
    assert!(parsed.is_err());
}

#[test]
fn deserialize_trailing_characters() {
    assert_parse_error("a:1\nb:-1\ns");
}

#[test]
fn deserialize_missing_newline() {
    assert_parse_error("a:1\nb:-1");
}

#[test]
fn deserialize_trailing_newline() {
    assert_parse_error("a:1\nb:-1\n\n");
}

#[test]
fn deserialize_duplicate_identifier() {
    let parsed = record("a:1\na:-1\n", Shape::Str, Shape::I32);
    assert_eq!(get_scalar(&parsed, &text("a")), Some(&Scalar::Int(-1)));
}

#[test]
fn de_deserialize_hash_map_string() {
    let parsed = record("a:a\nb:b\n", Shape::Str, Shape::Str);
    assert_eq!(get_scalar(&parsed, &text("a")), Some(&text("a")));
    assert_eq!(get_scalar(&parsed, &text("b")), Some(&text("b")));
    assert_eq!(get_scalar(&parsed, &text("c")), None);
}

#[test]
fn de_deserialize_hash_map_bool() {
    let parsed = record("a:true\nb:false\n", Shape::Str, Shape::Bool);
    assert_eq!(get_scalar(&parsed, &text("a")), Some(&Scalar::Bool(true)));
    assert_eq!(get_scalar(&parsed, &text("b")), Some(&Scalar::Bool(false)));
    assert_eq!(get_scalar(&parsed, &text("c")), None);
}

#[test]
fn deserialize_hash_map_int_int() {
    let parsed = record("1:1\n2:2\n-1:-1\n", Shape::I32, Shape::I32);
    assert_eq!(get_scalar(&parsed, &Scalar::Int(1)), Some(&Scalar::Int(1)));
    assert_eq!(get_scalar(&parsed, &Scalar::Int(2)), Some(&Scalar::Int(2)));
    assert_eq!(get_scalar(&parsed, &Scalar::Int(-1)), Some(&Scalar::Int(-1)));
    assert_eq!(get_scalar(&parsed, &Scalar::Int(-2)), None);
}

#[test]
fn deserialize_null_key_map() {
    let parsed = record(":-1\n", Shape::Unit, Shape::I32);
    assert_eq!(get_scalar(&parsed, &Scalar::Unit), Some(&Scalar::Int(-1)));
}

#[test]
fn deserialize_null_value_map() {
    let parsed = record("-1:\n0:\n1:\n", Shape::I32, Shape::Unit);
    assert_eq!(get_scalar(&parsed, &Scalar::Int(-1)), Some(&Scalar::Unit));
    assert_eq!(get_scalar(&parsed, &Scalar::Int(0)), Some(&Scalar::Unit));
    assert_eq!(get_scalar(&parsed, &Scalar::Int(1)), Some(&Scalar::Unit));
    assert_eq!(get_scalar(&parsed, &Scalar::Int(2)), None);
}

const SERIALIZED_1: &str = "url:https://forsen.forsen\nfors:forsen\n";
const SERIALIZED_2: &str = "fors:forsen\nurl:https://forsen.forsen\n";
const DESERIALIZED: [(&str, &str); 2] = [("url", "https://forsen.forsen"), ("fors", "forsen")];

#[test]
fn key_values_from_str_works() {
    let parsed = KeyValues::from_str(SERIALIZED_1).expect("deserialization failed");
    assert_eq!(parsed.len(), DESERIALIZED.len());
    for (k, v) in DESERIALIZED {
        assert_eq!(Some(v), parsed.get(k).map(|k| k.as_str()));
    }
}

#[test]
fn key_values_to_string_works() {
    let mut map = KeyValues::new();
    for (k, v) in DESERIALIZED {
        map.insert(k.to_string(), v.to_string());
    }
    let serialized = map.to_string();
    if serialized != SERIALIZED_1 && serialized != SERIALIZED_2 {
        assert!(
            false,
            "serialized ({}) matches neither ({}) nor ({})",
            serialized, SERIALIZED_1, SERIALIZED_2
        );
    }
}

#[test]
fn comma_separated_serde_2_deserialize_hash_map_bool() {
    let parsed = record("a:true\nb:false\n", Shape::Str, Shape::Bool);
    assert_eq!(get_scalar(&parsed, &text("a")), Some(&Scalar::Bool(true)));
    assert_eq!(get_scalar(&parsed, &text("b")), Some(&Scalar::Bool(false)));
    assert_eq!(get_scalar(&parsed, &text("c")), None);
}

#[test]
fn comma_separated_serde_2_deserialize_hash_map_string() {
    let parsed = record("a:a\nb:b\n", Shape::Str, Shape::Str);
    assert_eq!(get_scalar(&parsed, &text("a")), Some(&text("a")));
    assert_eq!(get_scalar(&parsed, &text("b")), Some(&text("b")));
    assert_eq!(get_scalar(&parsed, &text("c")), None);
}

fn fields(shapes: Vec<(&str, Shape)>) -> Vec<Field> {
    shapes.into_iter().map(|(name, shape)| Field { name: name.to_string(), shape }).collect()
}

fn optional(shape: Shape) -> Shape {
    Shape::Optional(Box::new(shape))
}

fn message(r: Result<Vec<Scalar>, Error>) -> String {
    match r {
        Err(Error::Message(m)) => m,
        other => panic!("expected a message, found {:?}", other),
    }
}

#[test]
fn de_deserialize_string_struct() {
    let input = "a:a\nb:b : b \nc:\n🦀:🚀\n";
    let test =
        fields(vec![("a", Shape::Str), ("b", Shape::Str), ("c", Shape::Str), ("🦀", Shape::Str)]);

    let parsed = from_str_fields(input, &test).expect("parsing failed");
    assert_eq!(parsed[0], text("a"));
    assert_eq!(parsed[1], text("b : b "));
    assert_eq!(parsed[2], text(""));
    assert_eq!(parsed[3], text("🚀"));
}

#[test]
fn comma_separated_serde_2_deserialize_string_struct() {
    let input = "a:a\nb:b : b \nc:\n🦀:🚀\n";
    let test =
        fields(vec![("a", Shape::Str), ("b", Shape::Str), ("c", Shape::Str), ("🦀", Shape::Str)]);

    let parsed = from_str_fields(input, &test).expect("parsing failed");
    assert_eq!(parsed[0], text("a"));
    assert_eq!(parsed[1], text("b : b "));
    assert_eq!(parsed[2], text(""));
    assert_eq!(parsed[3], text("🚀"));
}

#[test]
fn deserialize_str_borrow_struct() {
    let input = "a:a\nb:b:b\n";
    let test = fields(vec![("a", Shape::Str), ("b", Shape::Str)]);

    let parsed = from_str_fields(input, &test).expect("parsing failed");
    assert_eq!(parsed[0], text("a"));
    assert_eq!(parsed[1], text("b:b"));
}

#[test]
fn deserialize_str_struct() {
    let input = "a:a\nb:b:b\n";
    let test = fields(vec![("a", Shape::Str), ("b", Shape::Str)]);

    let parsed = from_str_fields(input, &test).expect("parsing failed");
    assert_eq!(parsed[0], text("a"));
    assert_eq!(parsed[1], text("b:b"));
}

#[test]
fn de_deserialize_int_struct() {
    let input = "a:1\nb:-1\n";
    let test = fields(vec![("a", Shape::I32), ("b", Shape::I32)]);

    let parsed = from_str_fields(input, &test).expect("parsing failed");
    assert_eq!(parsed[0], Scalar::Int(1));
    assert_eq!(parsed[1], Scalar::Int(-1));
}

#[test]
fn comma_separated_serde_2_deserialize_int_struct() {
    let input = "a:1\nb:-1\n";
    let test = fields(vec![("a", Shape::I32), ("b", Shape::I32)]);

    let parsed = from_str_fields(input, &test).expect("parsing failed");
    assert_eq!(parsed[0], Scalar::Int(1));
    assert_eq!(parsed[1], Scalar::Int(-1));
}

#[test]
fn deserialize_excess_fields() {
    let input = "a:1\nb:-1\n";
    let test = fields(vec![("a", Shape::I32)]);

    let parsed = from_str_fields(input, &test).expect("parsing failed");
    assert_eq!(parsed, vec![Scalar::Int(1)]);
}

#[test]
fn de_deserialize_bool_struct() {
    let input = "a:true\nb:false\n";
    let test = fields(vec![("a", Shape::Bool), ("b", Shape::Bool)]);

    let parsed = from_str_fields(input, &test).expect("parsing failed");
    assert_eq!(parsed[0], Scalar::Bool(true));
    assert_eq!(parsed[1], Scalar::Bool(false));
}

#[test]
fn comma_separated_serde_2_deserialize_bool_struct() {
    let input = "a:true\nb:false\n";
    let test = fields(vec![("a", Shape::Bool), ("b", Shape::Bool)]);

    let parsed = from_str_fields(input, &test).expect("parsing failed");
    assert_eq!(parsed[0], Scalar::Bool(true));
    assert_eq!(parsed[1], Scalar::Bool(false));
}

#[test]
fn record_keeps_the_last_value_of_a_field() {
    let input = "a:true\na:false\n";
    let test = fields(vec![("a", Shape::Bool)]);

    let parsed = from_str_fields(input, &test).expect("parsing failed");
    assert_eq!(parsed, vec![Scalar::Bool(false)]);

    let parsed = from_str_fields("a:maybe\na:true\n", &test).expect("parsing failed");
    assert_eq!(parsed, vec![Scalar::Bool(true)]);
}

#[test]
fn de_deserialize_option_struct() {
    let input = "a:\nb:42\nc:\n";
    let test = fields(vec![
        ("a", optional(Shape::Str)),
        ("b", optional(Shape::I32)),
        ("c", optional(Shape::Bool)),
    ]);

    let parsed = from_str_fields(input, &test).expect("parsing failed");
    assert_eq!(parsed[0], Scalar::Absent);
    assert_eq!(parsed[1], Scalar::Int(42));
    assert_eq!(parsed[2], Scalar::Absent);
}

#[test]
fn comma_separated_serde_2_deserialize_option_struct() {
    let input = "a:\nb:\nc:\n";
    let test = fields(vec![
        ("a", optional(Shape::Str)),
        ("b", optional(Shape::I32)),
        ("c", optional(Shape::Bool)),
    ]);

    let parsed = from_str_fields(input, &test).expect("parsing failed");
    assert_eq!(parsed[0], Scalar::Absent);
    assert_eq!(parsed[1], Scalar::Absent);
    assert_eq!(parsed[2], Scalar::Absent);
}

#[test]
fn deserialize_unit() {
    let input = "a:\n";
    let test = fields(vec![("a", Shape::Unit)]);

    let parsed = from_str_fields(input, &test).expect("parsing failed");
    assert_eq!(parsed[0], Scalar::Unit);
}

#[test]
fn deserialize_unit_enum() {
    let parsed = from_str("one:A\n", &map_of(Shape::Str, Shape::Enum));
    assert!(parsed.is_err());
}

#[test]
fn deserialize_newtype_struct() {
    let input = "a:42\n";
    let test = fields(vec![("a", Shape::I32)]);

    let parsed = from_str_fields(input, &test).expect("parsing failed");
    assert_eq!(parsed[0], Scalar::Int(42));
}

#[test]
fn record_fields_must_come() {
    let test = fields(vec![("a", Shape::I32), ("b", optional(Shape::I32)), ("c", Shape::Str)]);
    assert_eq!(message(from_str_fields("", &test)), "missing field `a`");
    assert_eq!(message(from_str_fields("b:1\nc:x\n", &test)), "missing field `a`");
    assert_eq!(message(from_str_fields("a:1\n", &test)), "missing field `c`");
    assert_eq!(
        from_str_fields("c:x\na:1\n", &test).expect("parsing failed"),
        vec![Scalar::Int(1), Scalar::Absent, text("x")]
    );
}

#[test]
fn record_errors_come_in_the_order_of_the_fields() {
    let test = fields(vec![("a", Shape::I32), ("b", Shape::Bool)]);
    assert!(matches!(from_str_fields("a:x\nb:maybe\n", &test), Err(Error::ParseInt)));
    assert!(matches!(from_str_fields("b:maybe\na:x\n", &test), Err(Error::ParseInt)));
    assert!(matches!(from_str_fields("b:maybe\na:1\n", &test), Err(Error::ParseBool)));
    assert_eq!(message(from_str_fields("b:maybe\n", &test)), "missing field `a`");
    assert!(matches!(from_str_fields("a:x\nb", &test), Err(Error::ExpectedColon)));
    assert!(matches!(from_str_fields("a:x\nb:true", &test), Err(Error::ExpectedNewline)));
    assert!(matches!(from_str_fields("x:1", &test), Err(Error::ExpectedNewline)));
    let nested = fields(vec![("a", map_of(Shape::Str, Shape::Str))]);
    assert!(matches!(
        from_str_fields("a:b\n", &nested),
        Err(Error::NotImplemented("deserialize_map"))
    ));
    let twice = fields(vec![("a", Shape::I32), ("a", Shape::Str)]);
    assert_eq!(
        from_str_fields("a:1\n", &twice).expect("parsing failed"),
        vec![Scalar::Int(1), text("1")]
    );
}

#[test]
fn map_round_trips() {
    for pairs in [
        vec![],
        vec![("a", "b")],
        vec![("a", ""), ("", "c")],
        vec![("url", "https://forsen.forsen"), ("fors", "forsen")],
        vec![("k 1", "v:1:2"), ("k2", ":")],
    ] {
        let mut map = KeyValues::new();
        for (k, v) in &pairs {
            map.insert(k.to_string(), v.to_string());
        }
        let text = map.to_string();
        let back = KeyValues::from_str(&text).expect("deserialization failed");
        let expected: Vec<(String, String)> =
            pairs.iter().map(|(k, v)| (k.to_string(), v.to_string())).collect();
        assert_eq!(back.into_inner(), expected);
    }
}

#[test]
fn key_with_a_colon_does_not_round_trip() {
    let mut map = KeyValues::new();
    map.insert("a:b".to_string(), "c".to_string());
    assert_eq!(map.to_string(), "a:b:c\n");
    let back = KeyValues::from_str("a:b:c\n").expect("deserialization failed");
    assert_eq!(back.into_inner(), vec![("a".to_string(), "b:c".to_string())]);
}

#[test]
fn key_with_a_newline_does_not_round_trip() {
    let mut map = KeyValues::new();
    map.insert("x\ny".to_string(), "1".to_string());
    assert_eq!(map.to_string(), "x\ny:1\n");
    assert!(matches!(KeyValues::from_str("x\ny:1\n"), Err(Error::ExpectedColon)));
}

#[test]
fn key_ends_in_its_own_line() {
    let text = "x\ny:1\n";
    assert!(matches!(KeyValues::from_str(text), Err(Error::ExpectedColon)));
    assert!(matches!(from_str(text, &map_of(Shape::Str, Shape::Str)), Err(Error::ExpectedColon)));
    assert!(matches!(from_str(text, &Shape::Str), Err(Error::ExpectedColon)));
    let test = fields(vec![("y", Shape::I32)]);
    assert!(matches!(from_str_fields(text, &test), Err(Error::ExpectedColon)));
    let mut de = Deserializer::from_str(text);
    assert!(matches!(de.peek_key(), Err(Error::ExpectedColon)));
    assert!(matches!(de.consume_key(), Err(Error::ExpectedColon)));
    assert!(matches!(de.consume_value(), Err(Error::ExpectedColon)));
    assert!(matches!(
        KeyValues::from_str("a:1\nx\ny:1\n"),
        Err(Error::ExpectedColon)
    ));
    let parsed = KeyValues::from_str("a:1\nb::\n").expect("deserialization failed");
    assert_eq!(parsed.get("b").map(|v| v.as_str()), Some(":"));
}

#[test]
fn map_keeps_the_last_value_of_a_key() {
    let parsed = KeyValues::from_str("a:1\nb:2\na:3\n").expect("deserialization failed");
    assert_eq!(parsed.len(), 2);
    assert_eq!(parsed.get("a").map(|v| v.as_str()), Some("3"));
    assert_eq!(parsed.get("b").map(|v| v.as_str()), Some("2"));
    assert_eq!(parsed.get("c"), None);
    assert_eq!(parsed.to_string(), "a:3\nb:2\n");
}

#[test]
fn map_must_be_well_framed() {
    assert!(matches!(KeyValues::from_str("a:1\nb:-1\ns"), Err(Error::ExpectedColon)));
    assert!(matches!(KeyValues::from_str("a:1\nb:-1"), Err(Error::ExpectedNewline)));
    assert!(matches!(KeyValues::from_str("a:1\nb:-1\n\n"), Err(Error::ExpectedColon)));
    assert!(matches!(KeyValues::from_str("a"), Err(Error::ExpectedColon)));
    assert!(matches!(KeyValues::from_str("\n"), Err(Error::ExpectedColon)));
    assert!(KeyValues::from_str("").expect("deserialization failed").into_inner().is_empty());
}

#[test]
fn typed_records_name_their_errors() {
    assert!(matches!(from_str("a:1\nb:-1\ns", &map_of(Shape::Str, Shape::I32)), Err(Error::ExpectedColon)));
    assert!(matches!(from_str("a:1\nb:-1", &map_of(Shape::Str, Shape::I32)), Err(Error::ExpectedNewline)));
    assert!(matches!(from_str("a:x\n", &map_of(Shape::Str, Shape::I32)), Err(Error::ParseInt)));
    assert!(matches!(from_str("a:\n", &map_of(Shape::Str, Shape::I32)), Err(Error::ParseInt)));
    assert!(matches!(from_str("a:x\nb", &map_of(Shape::Str, Shape::I32)), Err(Error::ParseInt)));
    assert!(matches!(from_str("a:maybe\n", &map_of(Shape::Str, Shape::Bool)), Err(Error::ParseBool)));
    assert!(matches!(from_str("a:\n", &map_of(Shape::Str, Shape::Char)), Err(Error::NoValue)));
    assert!(matches!(from_str("a:bc\n", &map_of(Shape::Str, Shape::Char)), Err(Error::ParseChar)));
    assert!(matches!(from_str("a:b\n", &map_of(Shape::Str, Shape::Unit)), Err(Error::ExpectedEmptyValue)));
    assert!(matches!(from_str("a:b\n", &map_of(Shape::Unit, Shape::Str)), Err(Error::ExpectedEmptyValue)));
    assert!(matches!(
        from_str("a:b\n", &map_of(Shape::Str, map_of(Shape::Str, Shape::Str))),
        Err(Error::NotImplemented("deserialize_map"))
    ));
    assert!(matches!(
        from_str("a:b\n", &map_of(Shape::Str, Shape::Sequence(Box::new(Shape::Str)))),
        Err(Error::NotImplemented("deserialize_seq"))
    ));
    assert!(matches!(
        from_str("a:b\n", &map_of(Shape::Bytes, Shape::Str)),
        Err(Error::NotImplemented("deserialize_bytes"))
    ));
    assert!(matches!(
        from_str("a:b\n", &map_of(Shape::Str, Shape::Tuple)),
        Err(Error::NotImplemented("deserialize_tuple"))
    ));
    assert!(matches!(
        from_str("a:b\n", &map_of(Shape::Str, Shape::Any)),
        Err(Error::NotImplemented("deserialize_any"))
    ));
    assert!(matches!(from_str("a:b\n", &Shape::Tuple), Err(Error::NotImplemented("deserialize_tuple"))));
    assert!(matches!(from_str("", &map_of(Shape::Str, Shape::Enum)), Ok(Value::Record(r)) if r.is_empty()));
}

#[test]
fn typed_record_of_characters() {
    let parsed = record("a:b\n🦀:🚀\n", Shape::Char, Shape::Char);
    assert_eq!(get_scalar(&parsed, &Scalar::Char('a')), Some(&Scalar::Char('b')));
    assert_eq!(get_scalar(&parsed, &Scalar::Char('🦀')), Some(&Scalar::Char('🚀')));
}

#[test]
fn single_element_at_the_top_is_the_first_key() {
    assert_eq!(from_str("12:x\n", &Shape::U8).map_err(|e| format!("{:?}", e)), Ok(Value::Single(Scalar::Int(12))));
    assert_eq!(
        from_str(":x\n", &Shape::Optional(Box::new(Shape::U8))).map_err(|e| format!("{:?}", e)),
        Ok(Value::Single(Scalar::Absent))
    );
    assert!(matches!(from_str("12", &Shape::U8), Err(Error::ExpectedColon)));
}

#[test]
fn lines_are_walked_one_by_one() {
    let mut it = KeyValueIterator::new("a:b\nc:d:e\n:\nx\ny:z\n");
    assert_eq!(it.next(), Some(("a".to_string(), "b".to_string())));
    assert_eq!(it.next(), Some(("c".to_string(), "d:e".to_string())));
    assert_eq!(it.next(), Some((String::new(), String::new())));
    assert_eq!(it.next(), None);
    assert_eq!(it.next(), None);
    let mut it = KeyValueIterator::new("a:b");
    assert_eq!(it.next(), None);
    let mut it = KeyValueIterator::new("");
    assert_eq!(it.next(), None);
}
