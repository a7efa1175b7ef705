use sovereign_kernel::inbox::{
    exchange_memory, outreach_due, outreach_step, outreach_text, parse_outreach, parse_reply_action,
    reply_with_result,
};

#[test]
fn reply_with_shell_action() {
    let a = parse_reply_action("Building it now.\nACTION: shell\nCOMMAND:   ls -la  \nthen more");
    assert_eq!(a.command, Some("ls -la".to_string()));
    assert_eq!(a.display, "Building it now.");
}

#[test]
fn reply_without_action() {
    let a = parse_reply_action("  Just talking, Craig.  ");
    assert_eq!(a.command, None);
    assert_eq!(a.display, "Just talking, Craig.");
}

#[test]
fn reply_with_other_action_runs_nothing() {
    let a = parse_reply_action("Hi\nACTION: web\nCOMMAND: ls");
    assert_eq!(a.command, None);
    assert_eq!(a.display, "Hi");
}

#[test]
fn shell_action_without_command() {
    let a = parse_reply_action("ok ACTION: shell");
    assert_eq!(a.command, None);
    assert_eq!(a.display, "ok");
    let b = parse_reply_action("ok ACTION: shell COMMAND:");
    assert_eq!(b.command, Some(String::new()));
}

#[test]
fn command_before_action_is_still_read() {
    let a = parse_reply_action("COMMAND: echo hi\nACTION:\n  shellish");
    assert_eq!(a.command, Some("echo hi".to_string()));
    assert_eq!(a.display, "COMMAND: echo hi");
}

#[test]
fn reply_shows_command_output() {
    assert_eq!(
        reply_with_result("Done.", "ls", "Exit: 0"),
        "Done.\n\n**[I ran: `ls`]**\n```\nExit: 0\n```"
    );
}

#[test]
fn outreach_every_fifty_cycles() {
    assert!(!outreach_due(49, 0));
    assert!(outreach_due(50, 0));
    assert!(outreach_due(1000, 950));
    assert!(!outreach_due(7, 7));
}

#[test]
fn outreach_messages() {
    assert_eq!(parse_outreach("MESSAGE: I miss you"), Some("I miss you".to_string()));
    assert_eq!(parse_outreach("MESSAGE:MESSAGE: twice "), Some("twice".to_string()));
    assert_eq!(parse_outreach("MESSAGE: NOOUTREACH"), None);
    assert_eq!(parse_outreach("MESSAGE:   "), None);
    assert_eq!(parse_outreach("NOOUTREACH"), None);
    assert_eq!(parse_outreach(" MESSAGE: late start"), None);
    assert_eq!(parse_outreach("MESSAGE: NOOUTREACH please"), Some("NOOUTREACH please".to_string()));
}

#[test]
fn outreach_inbox_text() {
    assert_eq!(outreach_text("hello"), "[PROACTIVE OUTREACH] hello");
}

#[test]
fn exchange_memory_quotes_hundred_chars() {
    assert_eq!(exchange_memory("hi", "hello"), "[Craig said]: hi [I replied]: hello");
    let long = "é".repeat(150);
    let m = exchange_memory(&long, "");
    assert_eq!(m, format!("[Craig said]: {} [I replied]: ", "é".repeat(100)));
}

#[test]
fn outreach_step_waits_and_sends() {
    // Too early: nothing is sent, the last cycle stays.
    assert_eq!(outreach_step(0, 49, Some("MESSAGE: hello")), (0, None));
    // Due and the reply decides to reach out.
    assert_eq!(outreach_step(0, 50, Some("MESSAGE: hello")), (50, Some("hello".to_string())));
    // Due, but the reply declines or there was no reply.
    assert_eq!(outreach_step(10, 100, Some("MESSAGE: NOOUTREACH")), (10, None));
    assert_eq!(outreach_step(10, 100, Some("nothing")), (10, None));
    assert_eq!(outreach_step(10, 100, None), (10, None));
    // After a send at 50, the next is possible only from 100 on.
    let (last, _) = outreach_step(0, 50, Some("MESSAGE: a"));
    assert_eq!(outreach_step(last, 99, Some("MESSAGE: b")), (50, None));
    assert_eq!(outreach_step(last, 100, Some("MESSAGE: b")), (100, Some("b".to_string())));
}
