use amd::graphql::json::Json;

fn sample() -> Json {
    Json::Object(vec![
        ("a".to_string(), Json::Integer(1)),
        ("b".to_string(), Json::Array(vec![Json::Null, Json::Bool(true), Json::Text("x".to_string())])),
        ("n".to_string(), Json::Null),
    ])
}

#[test]
fn field_of_an_object() {
    let doc = sample();
    assert_eq!(doc.field("a"), Some(&Json::Integer(1)));
    assert_eq!(doc.field("n"), Some(&Json::Null));
    assert_eq!(doc.field("missing"), None);
    assert_eq!(doc.field(""), None);
}

#[test]
fn field_of_what_is_no_object() {
    assert_eq!(Json::Null.field("a"), None);
    assert_eq!(Json::Array(vec![sample()]).field("a"), None);
    assert_eq!(Json::Text("a".to_string()).field("a"), None);
}

#[test]
fn first_member_of_a_name_is_found() {
    let doc = Json::Object(vec![
        ("k".to_string(), Json::Integer(1)),
        ("k".to_string(), Json::Integer(2)),
    ]);
    assert_eq!(doc.field("k"), Some(&Json::Integer(1)));
}

#[test]
fn array_number_and_text() {
    let doc = sample();
    let items = doc.field("b").unwrap().as_array().unwrap();
    assert_eq!(items.len(), 3);
    assert_eq!(items[2].as_str(), Some("x"));
    assert_eq!(items[1].as_str(), None);
    assert_eq!(doc.as_array(), None);
    assert_eq!(doc.field("a").unwrap().as_i64(), Some(1));
    assert_eq!(Json::Number("1.5".to_string()).as_i64(), None);
    assert_eq!(Json::Text("1".to_string()).as_i64(), None);
    assert_eq!(Json::Integer(i64::MIN).as_i64(), Some(i64::MIN));
}
