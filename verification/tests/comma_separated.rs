use openid_rp::comma_separated::de::{from_str, Deserializer, Error};
use openid_rp::comma_separated::CommaSeparated;
use openid_rp::shape::{Scalar, Shape, Value};

const SERIALIZED: &str = "a,b,c,d,e";
const DESERIALIZED: [&str; 5] = ["a", "b", "c", "d", "e"];

fn list_of(element: Shape) -> Shape {
    Shape::Sequence(Box::new(element))
}

fn optional(shape: Shape) -> Shape {
    Shape::Optional(Box::new(shape))
}

fn strings(items: &[&str]) -> Vec<String> {
    items.iter().map(|v| v.to_string()).collect()
}

#[test]
fn comma_separated_from_str_works() {
    let parsed = CommaSeparated::from_str(SERIALIZED).expect("deserialization failed");
    let parsed = parsed.into_inner();

    assert_eq!(parsed.len(), DESERIALIZED.len());
    for (actual, expected) in std::iter::zip(parsed, DESERIALIZED) {
        assert_eq!(actual, expected);
    }
}

#[test]
fn comma_separated_to_string_works() {
    let serialized: Vec<String> = DESERIALIZED.iter().map(|v| v.to_string()).collect();
    let serialized = CommaSeparated::new(serialized).to_string();

    assert_eq!(serialized, SERIALIZED);
}

#[test]
fn it_works() {
    let input = "";
    let result: Vec<Scalar> = vec![];

    assert_eq!(Ok(Value::List(result)), from_str(input, &list_of(Shape::I32)).map_err(|e| format!("{:?}", e)));
}

#[test]
fn parses_steam_id() {
    let input = "76561198181282063,76561198181282063,76561198181282063";
    let result = vec![
        Scalar::Int(76561198181282063),
        Scalar::Int(76561198181282063),
        Scalar::Int(76561198181282063),
    ];

    assert_eq!(Ok(Value::List(result)), from_str(input, &list_of(Shape::U64)).map_err(|e| format!("{:?}", e)));
}

#[test]
fn parses_steam_id_optional() {
    let input = "76561198181282063,,76561198181282063";
    let result = vec![
        Scalar::Int(76561198181282063),
        Scalar::Absent,
        Scalar::Int(76561198181282063),
    ];

    assert_eq!(
        Ok(Value::List(result)),
        from_str(input, &list_of(optional(Shape::U64))).map_err(|e| format!("{:?}", e))
    );
}

#[test]
fn empty_text_is_the_empty_list() {
    let parsed = CommaSeparated::from_str("").expect("deserialization failed");
    assert_eq!(parsed.into_inner(), Vec::<String>::new());
    assert_eq!(CommaSeparated::new(vec![]).to_string(), "");
}

#[test]
fn list_round_trips() {
    for items in [
        vec![],
        strings(&["a"]),
        strings(&["a", "b"]),
        strings(&["", ""]),
        strings(&["signed", "op_endpoint", "claimed_id"]),
        strings(&["a", "", "c"]),
        strings(&["", "x"]),
        strings(&["x", ""]),
    ] {
        let text = CommaSeparated::new(items.clone()).to_string();
        let back = CommaSeparated::from_str(&text).expect("deserialization failed");
        assert_eq!(back.into_inner(), items);
    }
}

#[test]
fn the_one_empty_text_does_not_round_trip() {
    let text = CommaSeparated::new(strings(&[""])).to_string();
    assert_eq!(text, "");
    let back = CommaSeparated::from_str(&text).expect("deserialization failed");
    assert_eq!(back.into_inner(), Vec::<String>::new());
}

#[test]
fn pieces_keep_empty_elements() {
    let parsed = CommaSeparated::from_str("a,,b,").expect("deserialization failed");
    assert_eq!(parsed.into_inner(), strings(&["a", "", "b", ""]));
    let parsed = CommaSeparated::from_str(",").expect("deserialization failed");
    assert_eq!(parsed.into_inner(), strings(&["", ""]));
}

#[test]
fn typed_list_of_texts() {
    let parsed = from_str("a,b c,d", &list_of(Shape::Str)).expect("parsing failed");
    assert_eq!(
        parsed,
        Value::List(vec![
            Scalar::Str("a".to_string()),
            Scalar::Str("b c".to_string()),
            Scalar::Str("d".to_string()),
        ])
    );
    let parsed = from_str("a,b", &list_of(Shape::Any)).expect("parsing failed");
    assert_eq!(
        parsed,
        Value::List(vec![Scalar::Str("a".to_string()), Scalar::Str("b".to_string())])
    );
}

#[test]
fn typed_list_of_numbers_and_truths() {
    let parsed = from_str("1,-2,+3", &list_of(Shape::I8)).expect("parsing failed");
    assert_eq!(parsed, Value::List(vec![Scalar::Int(1), Scalar::Int(-2), Scalar::Int(3)]));
    let parsed = from_str("true,false", &list_of(Shape::Bool)).expect("parsing failed");
    assert_eq!(parsed, Value::List(vec![Scalar::Bool(true), Scalar::Bool(false)]));
}

#[test]
fn element_that_is_no_number_fails() {
    assert!(matches!(from_str("1,x,3", &list_of(Shape::I32)), Err(Error::ParseInt)));
    assert!(matches!(from_str("1,,3", &list_of(Shape::I32)), Err(Error::ParseInt)));
    assert!(matches!(from_str("128", &list_of(Shape::I8)), Err(Error::ParseInt)));
    assert!(matches!(from_str("-1", &list_of(Shape::U8)), Err(Error::ParseInt)));
    assert!(matches!(from_str("256", &list_of(Shape::U8)), Err(Error::ParseInt)));
    assert!(matches!(from_str("yes", &list_of(Shape::Bool)), Err(Error::ParseBool)));
}

#[test]
fn trailing_comma_is_the_end_of_input() {
    assert!(matches!(from_str("1,", &list_of(Shape::I32)), Err(Error::Eof)));
    assert!(matches!(from_str("1,", &list_of(optional(Shape::I32))), Err(Error::Eof)));
    assert!(matches!(from_str(",", &list_of(Shape::Unit)), Err(Error::Eof)));
}

#[test]
fn unit_elements_must_be_empty() {
    assert!(matches!(from_str("a", &list_of(Shape::Unit)), Err(Error::ExpectedEmptyValue)));
}

#[test]
fn unsupported_shapes_are_named() {
    let map = Shape::Mapping(Box::new(Shape::Str), Box::new(Shape::Str));
    assert!(matches!(from_str("a", &map), Err(Error::NotImplemented("deserialize_map"))));
    assert!(matches!(
        from_str("a", &list_of(Shape::Char)),
        Err(Error::NotImplemented("deserialize_char"))
    ));
    assert!(matches!(
        from_str("a", &list_of(Shape::Bytes)),
        Err(Error::NotImplemented("deserialize_bytes"))
    ));
    assert!(matches!(
        from_str("a", &list_of(Shape::Tuple)),
        Err(Error::NotImplemented("deserialize_tuple"))
    ));
    assert!(matches!(
        from_str("a", &list_of(Shape::Enum)),
        Err(Error::NotImplemented("deserialize_enum"))
    ));
    assert!(matches!(
        from_str("a", &list_of(list_of(Shape::Str))),
        Err(Error::NotImplemented("deserialize_seq"))
    ));
    assert!(matches!(from_str("", &list_of(Shape::Enum)), Ok(Value::List(list)) if list.is_empty()));
}

#[test]
fn single_element_at_the_top() {
    assert_eq!(
        from_str("12,13", &Shape::U16).map_err(|e| format!("{:?}", e)),
        Ok(Value::Single(Scalar::Int(12)))
    );
    assert!(matches!(from_str("", &Shape::U16), Err(Error::Eof)));
    assert_eq!(
        from_str(",x", &optional(Shape::U16)).map_err(|e| format!("{:?}", e)),
        Ok(Value::Single(Scalar::Absent))
    );
}

#[test]
fn reader_walks_element_by_element() {
    let mut de = Deserializer::from_str("ab,c");
    assert!(!de.is_empty());
    assert_eq!(de.peek_value().expect("peek failed"), "ab");
    assert_eq!(de.consume_value().expect("consume failed"), "ab");
    assert_eq!(de.peek_value().expect("peek failed"), "");
    assert_eq!(de.consume_value().expect("consume failed"), "");
    assert_eq!(de.peek_value().expect("peek failed"), "");
    let mut de = Deserializer::from_str("c");
    assert_eq!(de.consume_value().expect("consume failed"), "c");
    assert!(de.is_empty());
    assert!(matches!(de.peek_value(), Err(Error::Eof)));
    assert!(matches!(de.consume_value(), Err(Error::Eof)));
}

fn steam_ids_of(query: &str) -> Result<Value, String> {
    let pairs: Vec<(String, String)> =
        serde_urlencoded::from_str(query).map_err(|e| e.to_string())?;
    let (_, value) =
        pairs.into_iter().find(|(k, _)| k == "steam_ids").ok_or("missing field `steam_ids`")?;
    from_str(&value, &list_of(Shape::U64)).map_err(|e| format!("{:?}", e))
}

#[test]
fn parses_steam_id_url() {
    let input = "&steam_ids=76561198181282063,76561198181282063,76561198181282063";
    let result = Value::List(vec![
        Scalar::Int(76561198181282063),
        Scalar::Int(76561198181282063),
        Scalar::Int(76561198181282063),
    ]);

    assert_eq!(Ok(result), steam_ids_of(input));
}

#[test]
fn parses_steam_id_url_empty() {
    let input = "&steam_ids=";
    let result = Value::List(vec![]);

    assert_eq!(Ok(result), steam_ids_of(input));
}
