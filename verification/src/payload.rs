//! The few places where the engine reads JSON produced by others: the todo
//! list carried in a tool's parameters, and single transcript-log entries.
//! Each parse goes through one trusted wrapper around `serde_json`; the
//! decisions taken on the parsed values are verified functions.

use vstd::prelude::*;

use crate::text::opt_string_view;

verus! {

/// What `serde_json` extracts from a todo-list JSON document: the `status`
/// string of each array element (empty when an element has none), or `None`
/// when the document is not a JSON array.
pub uninterp spec fn todo_statuses_of(s: Seq<char>) -> Option<Seq<Seq<char>>>;

/// Relies on serde_json's `from_str` for `Vec<Value>` and on `Value::get` /
/// `Value::as_str`: returns the `status` field of each array element, and the
/// result depends on the document text alone.
#[verifier::external_body]
pub fn parse_todo_statuses(todos_json: &str) -> (r: Option<Vec<String>>)
    ensures
        match r {
            Some(v) => todo_statuses_of(todos_json@) == Some(v.deep_view()),
            None => todo_statuses_of(todos_json@) is None,
        },
{
    match serde_json::from_str::<Vec<serde_json::Value>>(todos_json) {
        Ok(items) => Some(
            items
                .iter()
                .map(|t| t.get("status").and_then(|s| s.as_str()).unwrap_or("").to_string())
                .collect(),
        ),
        Err(_) => None,
    }
}

/// How many of the given per-item status strings mark a completed item.
pub open spec fn spec_count_completed(statuses: Seq<Seq<char>>) -> nat {
    statuses.filter(|s: Seq<char>| s == "completed"@).len()
}

/// Counts the items whose status is exactly `completed`.
pub fn count_completed(statuses: &Vec<String>) -> (c: usize)
    ensures
        c == spec_count_completed(statuses.deep_view()),
{
    let ghost all = statuses.deep_view();
    let mut c: usize = 0;
    let mut i: usize = 0;
    proof {
        reveal(Seq::filter);
        assert(all.subrange(0, 0) =~= Seq::<Seq<char>>::empty());
    }
    while i < statuses.len()
        invariant
            i <= statuses.len(),
            all == statuses.deep_view(),
            all.len() == statuses.len(),
            forall|j: int| 0 <= j < all.len() ==> all[j] == statuses@[j]@,
            c <= i,
            c == spec_count_completed(all.subrange(0, i as int)),
        decreases statuses.len() - i,
    {
        let matched = crate::text::str_eq(statuses[i].as_str(), "completed");
        proof {
            reveal(Seq::filter);
            assert(all.subrange(0, i + 1).drop_last() =~= all.subrange(0, i as int));
            assert(all.subrange(0, i + 1).last() == all[i as int]);
        }
        if matched {
            c += 1;
        }
        i += 1;
    }
    proof {
        assert(all.subrange(0, all.len() as int) =~= all);
    }
    c
}

/// What `serde_json` extracts from one transcript-log line: whether the line
/// is valid JSON, its `type` field (empty when absent), and the
/// `message.stop_reason` string when there is one.
pub uninterp spec fn transcript_entry_of(line: Seq<char>) -> (bool, Seq<char>, Option<Seq<char>>);

/// The fields of a transcript-log entry that the completion check reads.
#[derive(Debug)]
pub struct TranscriptEntry {
    pub parsed: bool,
    pub entry_type: String,
    pub stop_reason: Option<String>,
}

/// Relies on serde_json's `from_str` for `Value` and on `Value::get` /
/// `Value::as_str`: extracts the entry's `type` and `message.stop_reason`,
/// and the result depends on the line text alone.
#[verifier::external_body]
pub fn parse_transcript_entry(line: &str) -> (r: TranscriptEntry)
    ensures
        r.parsed == transcript_entry_of(line@).0,
        r.entry_type@ == transcript_entry_of(line@).1,
        opt_string_view(r.stop_reason) == transcript_entry_of(line@).2,
{
    match serde_json::from_str::<serde_json::Value>(line) {
        Ok(v) => TranscriptEntry {
            parsed: true,
            entry_type: v.get("type").and_then(|t| t.as_str()).unwrap_or("").to_string(),
            stop_reason: v
                .get("message")
                .and_then(|m| m.get("stop_reason"))
                .and_then(|s| s.as_str())
                .map(|s| s.to_string()),
        },
        Err(_) => TranscriptEntry { parsed: false, entry_type: String::new(), stop_reason: None },
    }
}

/// What `serde_json` extracts from a tool's parameter document: the `todos`
/// field re-serialised as JSON text, when the document parses and has one.
pub uninterp spec fn todos_field_of(params: Seq<char>) -> Option<Seq<char>>;

/// Relies on serde_json's `from_str` for `Value`, `Value::get` and
/// `Value::to_string`: hands back the `todos` field as JSON text, and the
/// result depends on the parameter text alone.
#[verifier::external_body]
pub fn extract_todos_field(params: &str) -> (r: Option<String>)
    ensures
        opt_string_view(r) == todos_field_of(params@),
{
    serde_json::from_str::<serde_json::Value>(params)
        .ok()
        .and_then(|v| v.get("todos").map(|t| t.to_string()))
}

} // verus!
