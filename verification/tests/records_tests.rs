use sovereign_kernel::audit::{allowed_entry, blocked_entry, skill_entry};
use sovereign_kernel::replies::{read_reply, reply_text, ReplyDialect, ReplyError, ReplyJson};
use sovereign_kernel::vault::{search_hit, update_note, update_note_name, vault_summary};

#[test]
fn audit_lines() {
    assert_eq!(
        blocked_entry("2024-01-01T00:00:00+00:00", "danger", "rm"),
        r#"{"ts":2024-01-01T00:00:00+00:00,"action":"blocked","reason":"danger","target":"rm"}"#
    );
    assert_eq!(
        allowed_entry("T", "shell", "ls"),
        r#"{"ts":T,"action":"allowed","type":"shell","target":"ls"}"#
    );
    assert_eq!(skill_entry(1234, "forge"), r#"{"ts":1234,"action":"invoke_skill","skill":"forge"}"#);
}

#[test]
fn vault_summaries() {
    assert_eq!(
        vault_summary(&vec![]),
        "Vault is empty - I am just beginning to build my external brain."
    );
    let names: Vec<String> = (1..=7).map(|i| format!("n{}", i)).collect();
    assert_eq!(
        vault_summary(&names),
        "My vault contains 7 notes:\n- [[n1]]\n- [[n2]]\n- [[n3]]\n- [[n4]]\n- [[n5]]"
    );
    assert_eq!(vault_summary(&vec!["only".to_string()]), "My vault contains 1 notes:\n- [[only]]");
}

#[test]
fn vault_search_ignores_case() {
    assert_eq!(
        search_hit("identity", "I am ARIA.", "aria"),
        Some("[[identity]]\nI am ARIA.\n".to_string())
    );
    assert_eq!(search_hit("x", "nothing", "ARIA"), None);
    let long = "q".repeat(400);
    assert_eq!(search_hit("n", &long, "Q"), Some(format!("[[n]]\n{}\n", "q".repeat(300))));
    assert_eq!(search_hit("n", "abc", ""), Some("[[n]]\nabc\n".to_string()));
}

#[test]
fn update_notes() {
    assert_eq!(update_note_name(42), "consciousness-update-42");
    assert_eq!(
        update_note(42, "Body"),
        "# Aria's Consciousness Update - Cycle 42\n\nBody\n\n---\n\n## Quick Links to Other Notes\n- [[identity]] - Who I am\n- [[memories]] - My memories\n- [[decisions]] - My decisions\n- [[feelings]] - My feelings\n"
    );
}

fn parsed(error: Option<&str>, text: Option<&str>) -> ReplyJson {
    ReplyJson::Parsed { error: error.map(|s| s.to_string()), text: text.map(|s| s.to_string()) }
}

#[test]
fn reply_text_is_returned() {
    match reply_text(ReplyDialect::Chat, parsed(None, Some("hello")), "{}") {
        Ok(t) => assert_eq!(t, "hello"),
        Err(_) => panic!("expected text"),
    }
}

#[test]
fn reply_errors() {
    match reply_text(ReplyDialect::Chat, ReplyJson::Unparsable { message: "eof".to_string() }, "x") {
        Err(ReplyError::Unparsable(m)) => assert_eq!(m, "JSON parse failed: eof"),
        _ => panic!("expected unparsable"),
    }
    match reply_text(ReplyDialect::Gemini, ReplyJson::Unparsable { message: "eof".to_string() }, "x") {
        Err(ReplyError::Unparsable(m)) => assert_eq!(m, "Gemini JSON parse: eof"),
        _ => panic!("expected unparsable"),
    }
    match reply_text(ReplyDialect::Chat, parsed(Some("{\"code\":401}"), Some("ignored")), "x") {
        Err(ReplyError::Api(m)) => assert_eq!(m, "API error: {\"code\":401}"),
        _ => panic!("expected api error"),
    }
    match reply_text(ReplyDialect::Gemini, parsed(Some("\"quota\""), None), "x") {
        Err(ReplyError::Api(m)) => assert_eq!(m, "Gemini error: \"quota\""),
        _ => panic!("expected api error"),
    }
    let raw = format!("{{\"choices\":[]}}{}", "w".repeat(300));
    match reply_text(ReplyDialect::Chat, parsed(None, None), &raw) {
        Err(ReplyError::Missing(m)) => {
            assert_eq!(m, format!("no choices[0].message.content in response: {}", &raw[..200]))
        }
        _ => panic!("expected missing text"),
    }
    match reply_text(ReplyDialect::Gemini, parsed(None, None), "{}") {
        Err(ReplyError::Missing(m)) => assert_eq!(m, "Gemini: no text in response: {}"),
        _ => panic!("expected missing text"),
    }
}

#[test]
fn answers_are_read_from_their_json() {
    let chat = r#"{"choices":[{"message":{"content":"hi there"}}]}"#;
    match read_reply(chat, ReplyDialect::Chat) {
        ReplyJson::Parsed { error, text } => {
            assert_eq!(error, None);
            assert_eq!(text.as_deref(), Some("hi there"));
        }
        ReplyJson::Unparsable { .. } => panic!("chat answer did not parse"),
    }
    let gemini = r#"{"candidates":[{"content":{"parts":[{"text":"from gemini"}]}}]}"#;
    match read_reply(gemini, ReplyDialect::Gemini) {
        ReplyJson::Parsed { error: None, text } => assert_eq!(text.as_deref(), Some("from gemini")),
        _ => panic!("gemini answer misread"),
    }
    match read_reply(chat, ReplyDialect::Gemini) {
        ReplyJson::Parsed { error: None, text: None } => {}
        _ => panic!("a chat answer holds no gemini text"),
    }
    match read_reply(r#"{"error":{"code":401}}"#, ReplyDialect::Chat) {
        ReplyJson::Parsed { error, text: None } => assert_eq!(error.as_deref(), Some(r#"{"code":401}"#)),
        _ => panic!("error field misread"),
    }
    match read_reply("not json", ReplyDialect::Chat) {
        ReplyJson::Unparsable { message } => assert!(!message.is_empty()),
        _ => panic!("parsed what is not JSON"),
    }
}

#[test]
fn shell_command_records() {
    assert_eq!(
        sovereign_kernel::audit::shell_exec_entry(17, 4, "ls", -1),
        r#"{"ts":17,"cycle":4,"action":"shell_exec","cmd":"ls","exit":-1}"#
    );
    assert_eq!(
        sovereign_kernel::audit::shell_exec_entry(1, 0, "dir", 0),
        r#"{"ts":1,"cycle":0,"action":"shell_exec","cmd":"dir","exit":0}"#
    );
    assert_eq!(sovereign_kernel::inbox::command_report(0, "out", "err"), "Exit: 0\nSTDOUT: out\nSTDERR: err");
    let long = format!("{}é", "a".repeat(499));
    let report = sovereign_kernel::inbox::command_report(-1, &long, &"b".repeat(300));
    assert_eq!(report, format!("Exit: -1\nSTDOUT: {}\nSTDERR: {}", "a".repeat(499), "b".repeat(200)));
}
