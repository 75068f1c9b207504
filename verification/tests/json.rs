use mining_proxy::protocol::error::ProtocolError;
use mining_proxy::protocol::json::{parse, render, Json};

fn object(fields: Vec<(&str, Json)>) -> Json {
    Json::Object(fields.into_iter().map(|(k, v)| (k.to_string(), v)).collect())
}

#[test]
fn parse_reads_every_kind_of_value() {
    let doc = parse(br#"{"a":null,"b":true,"c":12,"d":-3,"e":"x","f":[1,"y"],"g":{"h":false}}"#).unwrap();
    assert_eq!(doc.member("a"), Some(&Json::Null));
    assert_eq!(doc.member("b"), Some(&Json::Bool(true)));
    assert_eq!(doc.member("c"), Some(&Json::Unsigned(12)));
    assert_eq!(doc.member("d"), Some(&Json::Negative(-3)));
    assert_eq!(doc.member("e"), Some(&Json::Text("x".to_string())));
    assert_eq!(
        doc.member("f"),
        Some(&Json::Array(vec![Json::Unsigned(1), Json::Text("y".to_string())]))
    );
    assert_eq!(doc.member("g").unwrap().member("h"), Some(&Json::Bool(false)));
    assert_eq!(doc.member("z"), None);
    assert!(doc.well_formed());
}

#[test]
fn parse_tells_integers_from_other_numbers() {
    assert_eq!(parse(b"18446744073709551615").unwrap(), Json::Unsigned(u64::MAX));
    assert_eq!(parse(b"-9223372036854775808").unwrap(), Json::Negative(i64::MIN));
    assert_eq!(parse(b"0").unwrap(), Json::Unsigned(0));
    let real = parse(b"1.5").unwrap();
    assert!(matches!(real, Json::Real(_)));
    assert_eq!(real.as_u64(), None);
    assert_eq!(real.as_i64(), None);
    assert!(real.well_formed());
}

#[test]
fn parse_refuses_what_is_no_json() {
    assert_eq!(parse(b""), Err(ProtocolError::NotJson));
    assert_eq!(parse(b"{\"id\":1"), Err(ProtocolError::NotJson));
    assert_eq!(parse(b"hello"), Err(ProtocolError::NotJson));
    assert_eq!(parse(b"{} {}"), Err(ProtocolError::NotJson));
}

#[test]
fn render_writes_compact_text() {
    let doc = object(vec![
        ("id", Json::Unsigned(2)),
        ("result", Json::Bool(true)),
    ]);
    assert_eq!(render(&doc).unwrap(), br#"{"id":2,"result":true}"#.to_vec());
    assert_eq!(render(&Json::Negative(-7)).unwrap(), b"-7".to_vec());
    assert_eq!(render(&Json::Text("a\"b".to_string())).unwrap(), br#""a\"b""#.to_vec());
    assert_eq!(
        render(&Json::Array(vec![Json::Null, Json::Unsigned(1)])).unwrap(),
        b"[null,1]".to_vec()
    );
}

#[test]
fn render_refuses_a_document_that_is_not_in_written_form() {
    let twice = object(vec![("id", Json::Unsigned(1)), ("id", Json::Unsigned(2))]);
    assert!(!twice.well_formed());
    assert_eq!(render(&twice), Err(ProtocolError::Malformed));
    assert!(!Json::Negative(5).well_formed());
    assert_eq!(render(&Json::Negative(5)), Err(ProtocolError::Malformed));
    let nested = Json::Array(vec![Json::Negative(1)]);
    assert_eq!(render(&nested), Err(ProtocolError::Malformed));
    let integer = serde_json::Number::from(5u64);
    assert_eq!(render(&Json::Real(integer)), Err(ProtocolError::Malformed));
}

#[test]
fn render_then_parse_gives_the_document_back() {
    let doc = object(vec![
        ("z", Json::Array(vec![Json::Text("a".to_string()), Json::Negative(-1)])),
        ("a", object(vec![("k", Json::Null)])),
        ("m", parse(b"2.25").unwrap()),
    ]);
    let text = render(&doc).unwrap();
    let back = parse(&text).unwrap();
    assert_eq!(back.member("z"), doc.member("z"));
    assert_eq!(back.member("a"), doc.member("a"));
    assert_eq!(back.member("m"), doc.member("m"));
    assert_eq!(render(&back).unwrap(), text);
}

#[test]
fn the_first_of_two_members_of_one_name_counts() {
    let twice = object(vec![("id", Json::Unsigned(1)), ("id", Json::Unsigned(2))]);
    assert_eq!(twice.member("id"), Some(&Json::Unsigned(1)));
}

#[test]
fn accessors_read_only_their_own_kind() {
    assert_eq!(Json::Unsigned(7).as_u64(), Some(7));
    assert_eq!(Json::Unsigned(7).as_i64(), Some(7));
    assert_eq!(Json::Unsigned(u64::MAX).as_i64(), None);
    assert_eq!(Json::Negative(-7).as_i64(), Some(-7));
    assert_eq!(Json::Negative(-7).as_u64(), None);
    assert_eq!(Json::Bool(true).as_bool(), Some(true));
    assert_eq!(Json::Null.as_bool(), None);
    assert_eq!(Json::Text("t".to_string()).as_text(), Some("t".to_string()));
    assert_eq!(Json::Unsigned(1).as_text(), None);
    let texts = Json::Array(vec![Json::Text("a".to_string()), Json::Text("b".to_string())]);
    assert_eq!(texts.as_texts(), Some(vec!["a".to_string(), "b".to_string()]));
    let mixed = Json::Array(vec![Json::Text("a".to_string()), Json::Unsigned(1)]);
    assert_eq!(mixed.as_texts(), None);
    assert_eq!(Json::Array(Vec::new()).as_texts(), Some(Vec::new()));
    assert_eq!(Json::of_i64(5), Json::Unsigned(5));
    assert_eq!(Json::of_i64(-5), Json::Negative(-5));
    assert_eq!(Json::of_texts(&vec!["a".to_string()]), Json::Array(vec![Json::Text("a".to_string())]));
}

#[test]
fn a_copy_equals_the_document() {
    let doc = parse(br#"{"a":[1,-2,3.5,"x",null,{"b":true}]}"#).unwrap();
    assert_eq!(doc.duplicate(), doc);
    assert_eq!(doc.clone(), doc);
}
