use amd::graphql::json::Json;
use amd::graphql::queries::{
    fetch_members, fetch_members_request, members_from_json, members_request_json,
    send_streak_update, send_streak_update_request, streak_update_json, MEMBERS_QUERY, REQUEST_URL,
    STREAK_MUTATION,
};
use amd::tasks::JobError;

fn member(name: &str, id: i32) -> (String, i32) {
    (name.to_string(), id)
}

#[test]
fn request_url_is_the_roster_service() {
    assert_eq!(REQUEST_URL, "https://root.shuttleapp.rs/");
}

#[test]
fn queries_ask_for_what_the_service_offers() {
    assert!(MEMBERS_QUERY.contains("getMember"));
    assert!(MEMBERS_QUERY.contains("discordId"));
    assert!(STREAK_MUTATION.contains("mutation updateStreak($id: Int!, $hasSentUpdate: Boolean!)"));
    assert!(STREAK_MUTATION.contains("maxStreak"));
}

#[test]
fn reads_names_and_identifiers_in_order() {
    let body = br#"{"data":{"getMember":[{"name":"Asha","id":3,"groupId":1},{"id":1,"name":"Bela"}]}}"#;
    assert_eq!(fetch_members(body), Ok(vec![member("Asha", 3), member("Bela", 1)]));
}

#[test]
fn empty_roster_is_no_error() {
    assert_eq!(fetch_members(br#"{"data":{"getMember":[]}}"#), Ok(vec![]));
}

#[test]
fn answer_without_roster_reads_as_empty_roster() {
    assert_eq!(fetch_members(b"{}"), Ok(vec![]));
    assert_eq!(fetch_members(b"null"), Ok(vec![]));
    assert_eq!(fetch_members(b"[1,2]"), Ok(vec![]));
    assert_eq!(fetch_members(br#"{"data":null}"#), Ok(vec![]));
    assert_eq!(fetch_members(br#"{"data":{"getMember":{"name":"x"}}}"#), Ok(vec![]));
    assert_eq!(fetch_members(br#"{"errors":[{"message":"down"}]}"#), Ok(vec![]));
}

#[test]
fn entry_with_missing_parts_gets_empty_name_and_zero() {
    let body = br#"{"data":{"getMember":[{"name":"Asha"},{"id":4},{},7,{"name":5,"id":"6"},{"name":null,"id":2.5}]}}"#;
    assert_eq!(
        fetch_members(body),
        Ok(vec![
            member("Asha", 0),
            member("", 4),
            member("", 0),
            member("", 0),
            member("", 0),
            member("", 0),
        ])
    );
}

#[test]
fn identifier_keeps_its_low_32_bits() {
    let body = br#"{"data":{"getMember":[{"id":4294967301},{"id":-1},{"id":2147483648},{"id":9223372036854775807},{"id":9223372036854775808},{"id":-2147483649}]}}"#;
    assert_eq!(
        fetch_members(body),
        Ok(vec![
            member("", 5),
            member("", -1),
            member("", i32::MIN),
            member("", -1),
            member("", 0),
            member("", i32::MAX),
        ])
    );
}

#[test]
fn later_duplicate_of_a_name_counts() {
    let body = br#"{"data":{"getMember":[{"id":1,"id":2,"name":"a","name":"b"}]}}"#;
    assert_eq!(fetch_members(body), Ok(vec![member("b", 2)]));
}

#[test]
fn names_keep_their_characters() {
    let body = "{\"data\":{\"getMember\":[{\"name\":\"Zo\\u00eb \\\"Z\\\" \u{1F680}\",\"id\":1}]}}";
    assert_eq!(fetch_members(body.as_bytes()), Ok(vec![member("Zo\u{EB} \"Z\" \u{1F680}", 1)]));
}

#[test]
fn body_that_is_no_document_is_a_malformed_response() {
    for body in [&b""[..], b"{", b"not json", b"{\"data\":}", b"{} trailing", &[0xFF, 0xFE]] {
        assert_eq!(fetch_members(body), Err(JobError::MalformedResponse));
    }
}

#[test]
fn fetch_agrees_with_reading_by_serde_json() {
    let bodies: Vec<&[u8]> = vec![
        br#"{"data":{"getMember":[{"name":"a","id":1},{"name":"b","id":-7}]}}"#,
        br#"{"data":{"getMember":[{"name":["a"],"id":1e3},{"id":18446744073709551615}]}}"#,
        br#"{"data":[{"getMember":[]}]}"#,
        br#"  {"data" : {"getMember" : [ {"id" : 12345678901234} ]}}  "#,
    ];
    for body in bodies {
        let json: serde_json::Value = serde_json::from_slice(body).unwrap();
        let expected: Vec<(String, i32)> = json["data"]["getMember"]
            .as_array()
            .unwrap_or(&vec![])
            .iter()
            .map(|m| (m["name"].as_str().unwrap_or("").to_string(), m["id"].as_i64().unwrap_or(0) as i32))
            .collect();
        assert_eq!(fetch_members(body), Ok(expected));
    }
}

#[test]
fn reads_members_from_a_document() {
    let document = Json::Object(vec![(
        "data".to_string(),
        Json::Object(vec![(
            "getMember".to_string(),
            Json::Array(vec![
                Json::Object(vec![
                    ("id".to_string(), Json::Integer(9)),
                    ("name".to_string(), Json::Text("Chitra".to_string())),
                ]),
                Json::Object(vec![("id".to_string(), Json::Number("1.5".to_string()))]),
                Json::Null,
            ]),
        )]),
    )]);
    assert_eq!(
        members_from_json(&document),
        vec![member("Chitra", 9), member("", 0), member("", 0)]
    );
    assert_eq!(members_from_json(&Json::Bool(true)), vec![]);
}

#[test]
fn roster_request_is_the_query_as_json() {
    let mut map = serde_json::Map::new();
    map.insert("query".to_string(), serde_json::Value::String(MEMBERS_QUERY.to_string()));
    let expected = serde_json::to_vec(&serde_json::Value::Object(map)).unwrap();
    assert_eq!(fetch_members_request(), Some(expected));
    assert_eq!(
        members_request_json(),
        Json::Object(vec![("query".to_string(), Json::Text(MEMBERS_QUERY.to_string()))])
    );
}

#[test]
fn streak_request_carries_identifier_and_flag() {
    let mut variables = serde_json::Map::new();
    variables.insert("id".to_string(), serde_json::Value::from(-12));
    variables.insert("hasSentUpdate".to_string(), serde_json::Value::Bool(true));
    let mut map = serde_json::Map::new();
    map.insert("query".to_string(), serde_json::Value::String(STREAK_MUTATION.to_string()));
    map.insert("variables".to_string(), serde_json::Value::Object(variables));
    let expected = serde_json::to_vec(&serde_json::Value::Object(map)).unwrap();
    let body = send_streak_update_request(-12, true).unwrap();
    assert_eq!(body, expected);
    let text = String::from_utf8(body).unwrap();
    assert!(text.starts_with("{\"query\":\"\\n        mutation updateStreak"));
    assert!(text.ends_with("\"variables\":{\"hasSentUpdate\":true,\"id\":-12}}"));
}

#[test]
fn streak_document_names_query_and_variables() {
    assert_eq!(
        streak_update_json(7, false),
        Json::Object(vec![
            ("query".to_string(), Json::Text(STREAK_MUTATION.to_string())),
            (
                "variables".to_string(),
                Json::Object(vec![
                    ("id".to_string(), Json::Integer(7)),
                    ("hasSentUpdate".to_string(), Json::Bool(false)),
                ]),
            ),
        ])
    );
}

#[test]
fn accepted_report_is_noted() {
    assert_eq!(
        send_streak_update(12, 200, "200 OK", "{\"data\":{}}"),
        Ok("Successfully updated streak for ID 12: {\"data\":{}}".to_string())
    );
    assert_eq!(
        send_streak_update(-3, 299, "299 <unknown status code>", ""),
        Ok("Successfully updated streak for ID -3: ".to_string())
    );
    assert_eq!(
        send_streak_update(i32::MIN, 204, "204 No Content", "x"),
        Ok("Successfully updated streak for ID -2147483648: x".to_string())
    );
}

#[test]
fn refused_report_is_a_complaint() {
    assert_eq!(
        send_streak_update(12, 500, "500 Internal Server Error", "boom"),
        Err("Failed to update streak for ID 12. HTTP status: 500 Internal Server Error, response: boom".to_string())
    );
    assert_eq!(
        send_streak_update(0, 300, "300 Multiple Choices", ""),
        Err("Failed to update streak for ID 0. HTTP status: 300 Multiple Choices, response: ".to_string())
    );
    assert!(send_streak_update(i32::MAX, 199, "199", "").is_err());
    assert!(send_streak_update(1, 404, "404 Not Found", "").is_err());
}
