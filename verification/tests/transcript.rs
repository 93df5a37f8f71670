use plate_spinner::transcript::transcript_content_shows_completion;

#[test]
fn completion_on_end_turn() {
    let content = r#"{"type":"assistant","message":{"stop_reason":"end_turn","content":[]}}"#;
    assert!(transcript_content_shows_completion(content));
}

#[test]
fn completion_on_summary() {
    let content = r#"{"type":"summary","summary":"did stuff"}"#;
    assert!(transcript_content_shows_completion(content));
}

#[test]
fn no_completion_on_tool_use() {
    let content = r#"{"type":"assistant","message":{"stop_reason":"tool_use","content":[]}}"#;
    assert!(!transcript_content_shows_completion(content));
}

#[test]
fn no_completion_on_null_stop_reason() {
    let content = r#"{"type":"assistant","message":{"stop_reason":null,"content":[]}}"#;
    assert!(!transcript_content_shows_completion(content));
}

#[test]
fn no_completion_on_progress() {
    let content = r#"{"type":"progress","data":{"type":"bash_progress","elapsedTimeSeconds":5}}"#;
    assert!(!transcript_content_shows_completion(content));
}

#[test]
fn no_completion_on_user_entry() {
    let content = r#"{"type":"user","message":{"role":"user","content":"hello"}}"#;
    assert!(!transcript_content_shows_completion(content));
}

#[test]
fn reads_last_line_of_multiline_transcript() {
    let content = [
        r#"{"type":"user","message":{"role":"user","content":"hello"}}"#,
        r#"{"type":"assistant","message":{"stop_reason":"end_turn","content":[]}}"#,
    ]
    .join("\n");
    assert!(transcript_content_shows_completion(&content));
}

#[test]
fn no_completion_on_empty_file() {
    assert!(!transcript_content_shows_completion(""));
}

#[test]
fn skips_trailing_blank_lines() {
    let content = "{\"type\":\"summary\",\"summary\":\"done\"}\n\n   \n";
    assert!(transcript_content_shows_completion(content));
}

#[test]
fn malformed_last_line_is_not_a_completion() {
    let content = "{\"type\":\"summary\"}\nnot json at all";
    assert!(!transcript_content_shows_completion(content));
}
