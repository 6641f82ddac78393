use chrome_for_testing::api::json::Json;
use chrome_for_testing::error::SchemaError;

fn text(s: &str) -> Json {
    Json::Text(String::from(s))
}

#[test]
fn parse_reads_every_kind_of_value() {
    assert_eq!(Json::parse(b"null"), Ok(Json::Null));
    assert_eq!(Json::parse(b"true"), Ok(Json::Bool(true)));
    assert_eq!(Json::parse(b" false "), Ok(Json::Bool(false)));
    assert_eq!(Json::parse(b"12"), Ok(Json::Number(String::from("12"))));
    assert_eq!(Json::parse(b"-7"), Ok(Json::Number(String::from("-7"))));
    assert_eq!(Json::parse(b"\"a\\u0062c\""), Ok(text("abc")));
    assert_eq!(Json::parse(b"[]"), Ok(Json::Array(vec![])));
    assert_eq!(Json::parse(b"{}"), Ok(Json::Object(vec![])));
}

#[test]
fn numbers_are_held_as_serde_json_displays_them() {
    assert_eq!(Json::parse(b"1e2"), Ok(Json::Number(String::from("100.0"))));
    assert_eq!(Json::parse(b"007".as_slice()).is_err(), true);
    assert_eq!(Json::parse(b"1.50"), Ok(Json::Number(String::from("1.5"))));
}

#[test]
fn parse_keeps_the_structure_of_a_document() {
    let parsed = Json::parse(br#"{"a": [1, "x", null], "b": {"c": true}}"#).unwrap();
    assert_eq!(
        parsed,
        Json::Object(vec![
            (
                String::from("a"),
                Json::Array(vec![Json::Number(String::from("1")), text("x"), Json::Null]),
            ),
            (String::from("b"), Json::Object(vec![(String::from("c"), Json::Bool(true))])),
        ])
    );
}

#[test]
fn parse_refuses_what_is_not_one_json_text() {
    for body in [&b""[..], b"{", b"[1, 2", b"{\"a\": }", b"nul", b"{} {}", b"'a'", b"\xff"] {
        let error = Json::parse(body).unwrap_err();
        assert!(!error.is_empty());
    }
    assert!(Json::parse(b"{\"a\": 1").unwrap_err().contains("line 1"));
}

#[test]
fn member_finds_the_first_member_of_a_name() {
    let members = vec![
        (String::from("a"), text("first")),
        (String::from("b"), Json::Null),
        (String::from("a"), text("second")),
    ];
    assert_eq!(Json::member(&members, "a"), Some(&text("first")));
    assert_eq!(Json::member(&members, "b"), Some(&Json::Null));
    assert_eq!(Json::member(&members, "c"), None);
    assert_eq!(Json::member(&members, "A"), None);
    assert_eq!(Json::member(&vec![], "a"), None);
}

#[test]
fn required_members_must_be_there() {
    let members = vec![(String::from("a"), text("x")), (String::from("n"), Json::Bool(true))];
    assert_eq!(Json::required(&members, "a"), Ok(&text("x")));
    assert_eq!(Json::required(&members, "b"), Err(SchemaError::MissingField));
    assert_eq!(Json::required_text(&members, "a"), Ok("x"));
    assert_eq!(Json::required_text(&members, "n"), Err(SchemaError::UnexpectedType));
    assert_eq!(Json::required_text(&members, "b"), Err(SchemaError::MissingField));
}

#[test]
fn accessors_insist_on_the_type() {
    assert_eq!(text("x").as_text(), Ok("x"));
    assert_eq!(Json::Null.as_text(), Err(SchemaError::UnexpectedType));
    assert_eq!(Json::Number(String::from("1")).as_text(), Err(SchemaError::UnexpectedType));
    assert_eq!(Json::Array(vec![Json::Null]).as_items(), Ok(&vec![Json::Null]));
    assert_eq!(Json::Object(vec![]).as_items(), Err(SchemaError::UnexpectedType));
    assert_eq!(Json::Object(vec![]).as_members(), Ok(&vec![]));
    assert_eq!(Json::Array(vec![]).as_members(), Err(SchemaError::UnexpectedType));
    assert_eq!(text("{}").as_members(), Err(SchemaError::UnexpectedType));
}
