use sovereign_kernel::http::{KeySubmission, Route};
use sovereign_kernel::inbox::{mark_all_read, outreach_entry, posted_entry, unread_indices, InboxMessage, ReadFlag};
use sovereign_kernel::requests::{
    agent_request, broadcast_request, intent_packet, key_results, login_request, request_route, submitted_keys,
    IntentError,
};
use sovereign_kernel::security::{hash_password, LoginOutcome, OWNER_PASSWORD};

fn pair(a: &str, b: &str) -> Option<(String, String)> {
    Some((a.to_string(), b.to_string()))
}

#[test]
fn broadcast_reads_sender_and_message() {
    assert_eq!(broadcast_request(r#"{"message":"hi"}"#), pair("Craig", "hi"));
    assert_eq!(broadcast_request(r#"{"from":"Ann","message":"yo"}"#), pair("Ann", "yo"));
    assert_eq!(broadcast_request(r#"{"from":7,"message":"yo"}"#), pair("Craig", "yo"));
    assert_eq!(broadcast_request(r#"{"message":""}"#), None);
    assert_eq!(broadcast_request(r#"{"message":5}"#), None);
    assert_eq!(broadcast_request(r#"{"from":"Ann"}"#), None);
    assert_eq!(broadcast_request("not json"), None);
    assert_eq!(broadcast_request(r#"["message"]"#), None);
}

#[test]
fn agent_request_defaults_to_scribe() {
    assert_eq!(agent_request(r#"{"task":"plan a forge"}"#), pair("scribe", "plan a forge"));
    assert_eq!(agent_request(r#"{"agent":"builder","task":"x"}"#), pair("builder", "x"));
    assert_eq!(agent_request(r#"{"agent":"builder"}"#), None);
    assert_eq!(agent_request(r#"{"agent":"builder","task":""}"#), None);
    assert_eq!(agent_request("{"), None);
}

#[test]
fn login_request_reads_the_password() {
    let body = format!(r#"{{"password":"{}"}}"#, OWNER_PASSWORD);
    match login_request(&body, 1700000000) {
        LoginOutcome::Granted { token } => {
            assert_eq!(token, hash_password(&format!("{}:1700000000", OWNER_PASSWORD)));
        }
        LoginOutcome::Refused => panic!("the owner's password is refused"),
    }
    assert!(matches!(login_request(r#"{"password":"guess"}"#, 1), LoginOutcome::Refused));
    assert!(matches!(login_request("{}", 1), LoginOutcome::Refused));
    assert!(matches!(login_request(OWNER_PASSWORD, 1), LoginOutcome::Refused));
}

#[test]
fn intent_packet_fills_defaults() {
    assert_eq!(intent_packet("", 5).err(), Some(IntentError::EmptyBody));
    assert_eq!(intent_packet("nope", 5).err(), Some(IntentError::InvalidJson));
    let p = intent_packet("{}", 7).unwrap();
    assert_eq!(
        (p.text.as_str(), p.emotion.as_str(), p.pose.as_str(), p.gesture.as_str(), p.outfit.as_str()),
        ("", "neutral", "idle", "none", "default")
    );
    assert_eq!(
        (p.animation.as_str(), p.gaze.as_str(), p.source.as_str(), p.channel.as_str(), p.version.as_str()),
        ("none", "center", "dashboard", "body_panel", "2.0")
    );
    assert_eq!((p.timestamp, p.received_at), (7, 7));
    let q = intent_packet(r#"{"text":"Hello Craig.","emotion":"proud","pose":"hero","timestamp":1713990000}"#, 9).unwrap();
    assert_eq!((q.text.as_str(), q.emotion.as_str(), q.pose.as_str()), ("Hello Craig.", "proud", "hero"));
    assert_eq!((q.timestamp, q.received_at), (1713990000, 9));
    let r = intent_packet(r#"{"timestamp":"soon","gaze":3}"#, 4).unwrap();
    assert_eq!((r.timestamp, r.gaze.as_str()), (4, "center"));
}

#[test]
fn agent_route_needs_a_json_body() {
    assert_eq!(request_route("POST /agent HTTP/1.1\r\n\r\n{\"task\":\"a\"}"), Route::Agent);
    assert_eq!(request_route("POST /agent HTTP/1.1\r\n\r\nnot json"), Route::JournalPage);
    assert_eq!(request_route("POST /broadcast HTTP/1.1\r\n\r\nnot json"), Route::Broadcast);
}

#[test]
fn submitted_keys_reads_an_object() {
    let e = submitted_keys(r#"{"a":"long-key-123","b":"x","c":5}"#).unwrap();
    assert_eq!(
        e,
        vec![
            ("a".to_string(), Some("long-key-123".to_string())),
            ("b".to_string(), Some("x".to_string())),
            ("c".to_string(), None),
        ]
    );
    assert_eq!(submitted_keys("[1, 2]"), None);
    assert_eq!(submitted_keys("nope"), None);
}

#[test]
fn key_results_decide_each_key() {
    let entries = vec![
        ("openrouter".to_string(), Some("sk-123456".to_string())),
        ("groq".to_string(), Some("abc".to_string())),
        ("other".to_string(), None),
        ("mistral".to_string(), Some("".to_string())),
    ];
    let rs = key_results(&entries, &vec![false, true, false, false]);
    let got: Vec<(String, String, KeySubmission)> = rs.into_iter().map(|r| (r.name, r.env_var, r.outcome)).collect();
    assert_eq!(
        got,
        vec![
            ("openrouter".to_string(), "OPENROUTER_API_KEY".to_string(), KeySubmission::Stored),
            ("groq".to_string(), "GROQ_API_KEY".to_string(), KeySubmission::Exists),
            ("mistral".to_string(), "MISTRAL_API_KEY".to_string(), KeySubmission::Missing),
        ]
    );
    // A short key after a stored one in the same variable finds it set.
    let same = vec![("A".to_string(), Some("long-key-1".to_string())), ("a".to_string(), Some("x".to_string()))];
    let rs = key_results(&same, &vec![false, false]);
    assert_eq!(rs[0].outcome, KeySubmission::Stored);
    assert_eq!(rs[0].key, "long-key-1");
    assert_eq!(rs[1].env_var, "A_API_KEY");
    assert_eq!(rs[1].outcome, KeySubmission::Exists);
}

fn msg(text: &str, read: ReadFlag) -> InboxMessage {
    InboxMessage { from: Some("Craig".to_string()), message: Some(text.to_string()), timestamp: Some(3), read, proactive: false }
}

#[test]
fn unread_messages_and_marking_them_read() {
    let mut inbox = vec![
        msg("a", ReadFlag::Flag(false)),
        msg("b", ReadFlag::Flag(true)),
        msg("c", ReadFlag::Absent),
        msg("d", ReadFlag::Other),
        InboxMessage { from: None, message: None, timestamp: None, read: ReadFlag::Flag(false), proactive: true },
    ];
    assert_eq!(unread_indices(&inbox), vec![0, 3, 4]);
    assert_eq!(inbox[4].text(), "");
    assert_eq!(inbox[3].text(), "d");
    mark_all_read(&mut inbox);
    assert_eq!(inbox.len(), 5);
    assert!(inbox.iter().all(|m| m.read == ReadFlag::Flag(true)));
    assert_eq!(inbox[2].message.as_deref(), Some("c"));
    assert_eq!(inbox[0].timestamp, Some(3));
    assert!(inbox[4].proactive && !inbox[0].proactive);
    assert!(unread_indices(&inbox).is_empty());
}

#[test]
fn inbox_entries_for_posts_and_outreach() {
    let p = posted_entry("Ann".to_string(), "hi".to_string(), 9);
    assert_eq!((p.from.as_deref(), p.message.as_deref(), p.timestamp), (Some("Ann"), Some("hi"), Some(9)));
    assert_eq!(p.read, ReadFlag::Flag(false));
    assert!(!p.proactive);
    let o = outreach_entry("I miss you", 12);
    assert_eq!(o.from.as_deref(), Some("Aria"));
    assert_eq!(o.message.as_deref(), Some("[PROACTIVE OUTREACH] I miss you"));
    assert_eq!((o.timestamp, o.read, o.proactive), (Some(12), ReadFlag::Flag(false), true));
}
