use image_cache::json::Json;

fn text(s: &str) -> Json {
    Json::Text(s.to_string())
}

#[test]
fn parse_reads_the_scalars() {
    assert_eq!(Json::parse("null"), Ok(Json::Null));
    assert_eq!(Json::parse("true"), Ok(Json::Bool(true)));
    assert_eq!(Json::parse("false"), Ok(Json::Bool(false)));
    assert_eq!(Json::parse("\"x.png\""), Ok(text("x.png")));
    assert_eq!(Json::parse("\"a\\n\\u00e9\""), Ok(text("a\né")));
}

#[test]
fn parse_keeps_an_integer_that_fits_64_bits() {
    assert_eq!(Json::parse("200"), Ok(Json::Number(Some(200))));
    assert_eq!(Json::parse("0"), Ok(Json::Number(Some(0))));
    assert_eq!(Json::parse("-7"), Ok(Json::Number(Some(-7))));
    assert_eq!(Json::parse("9223372036854775807"), Ok(Json::Number(Some(i64::MAX))));
    assert_eq!(Json::parse("-9223372036854775808"), Ok(Json::Number(Some(i64::MIN))));
}

#[test]
fn parse_keeps_no_value_of_other_numbers() {
    assert_eq!(Json::parse("200.0"), Ok(Json::Number(None)));
    assert_eq!(Json::parse("2e2"), Ok(Json::Number(None)));
    assert_eq!(Json::parse("-0"), Ok(Json::Number(None)));
    assert_eq!(Json::parse("9223372036854775808"), Ok(Json::Number(None)));
    assert_eq!(Json::parse("18446744073709551616"), Ok(Json::Number(None)));
}

#[test]
fn parse_reads_lists_in_order() {
    assert_eq!(Json::parse("[]"), Ok(Json::List(vec![])));
    assert_eq!(
        Json::parse("[1, \"b\", [null]]"),
        Ok(Json::List(vec![
            Json::Number(Some(1)),
            text("b"),
            Json::List(vec![Json::Null]),
        ]))
    );
}

#[test]
fn parse_reads_the_members_of_an_object() {
    let doc = Json::parse("{\"a\": true, \"b\": {\"c\": [1]}}").unwrap();
    assert_eq!(doc.member("a"), Some(&Json::Bool(true)));
    let inner = doc.member("b").unwrap();
    assert_eq!(inner.member("c"), Some(&Json::List(vec![Json::Number(Some(1))])));
    assert_eq!(doc.member("c"), None);
    assert_eq!(doc.member(""), None);
    match doc {
        Json::Record(members) => assert_eq!(members.len(), 2),
        other => panic!("not an object: {:?}", other),
    }
}

#[test]
fn parse_keeps_the_last_of_members_with_one_name() {
    let doc = Json::parse("{\"a\": 1, \"a\": 2}").unwrap();
    assert_eq!(doc, Json::Record(vec![("a".to_string(), Json::Number(Some(2)))]));
}

#[test]
fn parse_refuses_what_is_no_json() {
    let fault = Json::parse("not json").unwrap_err();
    assert_eq!(fault, "expected ident at line 1 column 2");
    assert_eq!(
        Json::parse("").unwrap_err(),
        "EOF while parsing a value at line 1 column 0"
    );
    assert_eq!(
        Json::parse("{\"a\": 1} x").unwrap_err(),
        "trailing characters at line 1 column 10"
    );
    assert!(Json::parse("{\"a\": }").is_err());
    assert!(Json::parse("[1, 2").is_err());
}

#[test]
fn parse_is_not_the_identity_on_its_text() {
    assert_eq!(Json::parse(" \"a\" "), Ok(text("a")));
    assert_ne!(Json::parse("\"a\""), Ok(text("\"a\"")));
}

#[test]
fn member_is_the_first_of_that_name() {
    let doc = Json::Record(vec![
        ("k".to_string(), Json::Number(Some(1))),
        ("other".to_string(), Json::Null),
        ("k".to_string(), Json::Number(Some(2))),
    ]);
    assert_eq!(doc.member("k"), Some(&Json::Number(Some(1))));
    assert_eq!(doc.member("other"), Some(&Json::Null));
    assert_eq!(doc.member("K"), None);
}

#[test]
fn member_of_what_is_no_object_is_none() {
    assert_eq!(Json::Null.member("a"), None);
    assert_eq!(Json::Bool(true).member("a"), None);
    assert_eq!(Json::Number(Some(1)).member("a"), None);
    assert_eq!(text("a").member("a"), None);
    assert_eq!(Json::List(vec![text("a")]).member("a"), None);
    assert_eq!(Json::Record(vec![]).member("a"), None);
}
