//! What the daemon asks of the remote roster service, and what it makes
//! of the answers.
use crate::graphql::json::{
    json_document, json_text, lemma_object_view, parse_json, write_json, Json, JsonValue,
};
use crate::tasks::JobError;
use crate::utils::strings::{decimal_text, push_decimal_text};
use vstd::prelude::*;
use vstd::string::StringExecFns;

verus! {

/// Where the roster service listens.
pub const REQUEST_URL: &'static str = "https://root.shuttleapp.rs/";

/// The query that asks for the roster.
pub const MEMBERS_QUERY: &'static str = r#"
    query {
        getMember {
            name,
            groupId,
            discordId
            name
            id
        }
    }"#;

/// The mutation that reports whether a member sent an update.
pub const STREAK_MUTATION: &'static str = r#"
        mutation updateStreak($id: Int!, $hasSentUpdate: Boolean!) {
            updateStreak(id: $id, hasSentUpdate: $hasSentUpdate) {
                id
                streak
                maxStreak
            }
        }
    "#;

/// The name and the identifier of one entry of the roster. An entry
/// without a name that is a string has the empty name; one without an
/// identifier that is a whole number within 64 signed bits has identifier 0.
/// Of a larger identifier the low 32 bits count.
pub open spec fn roster_entry(entry: JsonValue) -> (Seq<char>, i32) {
    (
        match entry.field("name"@).text() {
            Some(name) => name,
            None => Seq::empty(),
        },
        match entry.field("id"@).integer() {
            Some(id) => id as i32,
            None => 0i32,
        },
    )
}

/// The roster that an answer holds: the entries of the array at
/// `data.getMember`, in their order. An answer without such an array holds
/// the empty roster.
pub open spec fn members_of(answer: JsonValue) -> Seq<(Seq<char>, i32)> {
    answer.field("data"@).field("getMember"@).items().map_values(|e: JsonValue| roster_entry(e))
}

/// The name and identifier of each member, as plain values.
pub open spec fn members_view(members: Seq<(String, i32)>) -> Seq<(Seq<char>, i32)> {
    members.map_values(|m: (String, i32)| (m.0@, m.1))
}

/// The document that asks for the roster.
pub open spec fn members_request_document() -> JsonValue {
    JsonValue::Object(seq![("query"@, JsonValue::Text(MEMBERS_QUERY@))])
}

/// The document that reports whether member `id` sent an update.
pub open spec fn streak_update_document(id: i32, has_sent_update: bool) -> JsonValue {
    JsonValue::Object(
        seq![
            ("query"@, JsonValue::Text(STREAK_MUTATION@)),
            (
                "variables"@,
                JsonValue::Object(
                    seq![
                        ("id"@, JsonValue::Integer(id as int)),
                        ("hasSentUpdate"@, JsonValue::Bool(has_sent_update)),
                    ],
                ),
            ),
        ],
    )
}

/// Whether the status of an answer says that the request succeeded.
pub open spec fn is_success(status: u16) -> bool {
    200 <= status < 300
}

/// What is noted after a report was accepted.
pub open spec fn streak_success_text(id: i32, response: Seq<char>) -> Seq<char> {
    "Successfully updated streak for ID "@ + decimal_text(id as int) + ": "@ + response
}

/// What is reported after a report was turned down.
pub open spec fn streak_failure_text(id: i32, status_line: Seq<char>, response: Seq<char>) -> Seq<
    char,
> {
    "Failed to update streak for ID "@ + decimal_text(id as int) + ". HTTP status: "@ + status_line
        + ", response: "@ + response
}

/// Reads the roster out of an answer that is already a document.
pub fn members_from_json(answer: &Json) -> (members: Vec<(String, i32)>)
    ensures
        members_view(members@) == members_of(answer@),
{
    let mut members: Vec<(String, i32)> = Vec::new();
    let found = match answer.field("data") {
        Some(data) => match data.field("getMember") {
            Some(list) => list.as_array(),
            None => None,
        },
        None => None,
    };
    match found {
        Some(entries) => {
            let ghost all = answer@.field("data"@).field("getMember"@).items();
            let mut i: usize = 0;
            while i < entries.len()
                invariant
                    i <= entries@.len(),
                    all.len() == entries@.len(),
                    forall|k: int| 0 <= k < entries@.len() ==> (#[trigger] entries@[k])@ == all[k],
                    members@.len() == i,
                    forall|k: int|
                        0 <= k < i ==> ((#[trigger] members@[k]).0@, members@[k].1) == roster_entry(
                            all[k],
                        ),
                decreases entries@.len() - i,
            {
                let entry = &entries[i];
                let name = match entry.field("name") {
                    Some(value) => match value.as_str() {
                        Some(text) => String::from_str(text),
                        None => String::new(),
                    },
                    None => String::new(),
                };
                let id: i32 = match entry.field("id") {
                    Some(value) => match value.as_i64() {
                        Some(raw) => #[verifier::truncate]
                        (raw as i32),
                        None => 0,
                    },
                    None => 0,
                };
                members.push((name, id));
                i = i + 1;
            }
            assert(members_view(members@) =~= members_of(answer@));
        },
        None => {
            assert(answer@.field("data"@).field("getMember"@).items() =~= Seq::empty());
            assert(members_view(members@) =~= members_of(answer@));
        },
    }
    members
}

/// Reads the roster out of the body of the service's answer: the name and
/// the identifier of each member, in the order of the answer. A body that is
/// no JSON document is a malformed response; a document that lacks the
/// roster, or parts of an entry, is read as far as it goes.
pub fn fetch_members(response: &[u8]) -> (r: Result<Vec<(String, i32)>, JobError>)
    ensures
        match json_document(response@) {
            Some(answer) => r matches Ok(members) && members_view(members@) == members_of(answer),
            None => r == Err::<Vec<(String, i32)>, JobError>(JobError::MalformedResponse),
        },
{
    match parse_json(response) {
        Ok(answer) => Ok(members_from_json(&answer)),
        Err(_) => Err(JobError::MalformedResponse),
    }
}

/// The document that asks for the roster.
pub fn members_request_json() -> (document: Json)
    ensures
        document@ == members_request_document(),
{
    let mut entries: Vec<(String, Json)> = Vec::new();
    entries.push((String::from_str("query"), Json::Text(String::from_str(MEMBERS_QUERY))));
    proof {
        lemma_object_view(entries);
        assert(Json::Object(entries)@->Object_0 =~= seq![
            ("query"@, JsonValue::Text(MEMBERS_QUERY@)),
        ]);
    }
    Json::Object(entries)
}

/// The body of the request that asks for the roster.
pub fn fetch_members_request() -> (body: Option<Vec<u8>>)
    ensures
        match body {
            Some(text) => json_text(members_request_document()) == Some(text@),
            None => json_text(members_request_document()) is None,
        },
{
    write_json(&members_request_json())
}

/// The document that reports whether member `id` sent an update.
pub fn streak_update_json(id: i32, has_sent_update: bool) -> (document: Json)
    ensures
        document@ == streak_update_document(id, has_sent_update),
{
    let mut variables: Vec<(String, Json)> = Vec::new();
    variables.push((String::from_str("id"), Json::Integer(id as i64)));
    variables.push((String::from_str("hasSentUpdate"), Json::Bool(has_sent_update)));
    let mut entries: Vec<(String, Json)> = Vec::new();
    entries.push((String::from_str("query"), Json::Text(String::from_str(STREAK_MUTATION))));
    proof {
        lemma_object_view(variables);
        assert(Json::Object(variables)@->Object_0 =~= seq![
            ("id"@, JsonValue::Integer(id as int)),
            ("hasSentUpdate"@, JsonValue::Bool(has_sent_update)),
        ]);
    }
    entries.push((String::from_str("variables"), Json::Object(variables)));
    proof {
        lemma_object_view(entries);
        assert(Json::Object(entries)@->Object_0 =~= streak_update_document(
            id,
            has_sent_update,
        )->Object_0);
    }
    Json::Object(entries)
}

/// The body of the request that reports whether member `id` sent an
/// update.
pub fn send_streak_update_request(id: i32, has_sent_update: bool) -> (body: Option<Vec<u8>>)
    ensures
        match body {
            Some(text) => json_text(streak_update_document(id, has_sent_update)) == Some(text@),
            None => json_text(streak_update_document(id, has_sent_update)) is None,
        },
{
    write_json(&streak_update_json(id, has_sent_update))
}

/// What to make of the answer to a report on member `id`: with a status
/// from 200 to 299 the report was accepted, and the result is the note of
/// that; with any other status it is the complaint.
pub fn send_streak_update(id: i32, status: u16, status_line: &str, response: &str) -> (r: Result<
    String,
    String,
>)
    ensures
        match r {
            Ok(note) => is_success(status) && note@ == streak_success_text(id, response@),
            Err(complaint) => !is_success(status) && complaint@ == streak_failure_text(
                id,
                status_line@,
                response@,
            ),
        },
{
    if 200 <= status && status < 300 {
        let mut note = String::from_str("Successfully updated streak for ID ");
        push_decimal_text(&mut note, id as i64);
        note.append(": ");
        note.append(response);
        Ok(note)
    } else {
        let mut complaint = String::from_str("Failed to update streak for ID ");
        push_decimal_text(&mut complaint, id as i64);
        complaint.append(". HTTP status: ");
        complaint.append(status_line);
        complaint.append(", response: ");
        complaint.append(response);
        Err(complaint)
    }
}

} // verus!
