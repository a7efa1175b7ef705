use sovereign_kernel::agents::{
    subagent_fallback_defined, subagent_fallback_reply, subagent_prompt, SubAgentLog, SubAgentTask,
    BUILDER_BRIEF, BUILDER_CLOSE, PROPHET_BRIEF, PROPHET_CLOSE, SCRIBE_BRIEF, SCRIBE_CLOSE,
};

fn task(n: u64) -> SubAgentTask {
    SubAgentTask { agent: "scribe".to_string(), task: format!("t{}", n), result: None, timestamp: n }
}

#[test]
fn new_log_is_empty() {
    let log = SubAgentLog::new();
    assert!(log.entries.is_empty());
}

#[test]
fn log_keeps_order_below_capacity() {
    let mut log = SubAgentLog::new();
    for i in 0..200 {
        log.push(task(i));
    }
    assert_eq!(log.entries.len(), 200);
    assert_eq!(log.entries[0].timestamp, 0);
    assert_eq!(log.entries[199].timestamp, 199);
}

#[test]
fn log_keeps_the_last_two_hundred() {
    let mut log = SubAgentLog::new();
    for i in 0..201 {
        log.push(task(i));
    }
    assert_eq!(log.entries.len(), 200);
    assert_eq!(log.entries[0].timestamp, 1);
    assert_eq!(log.entries[199].timestamp, 200);
}

#[test]
fn log_stays_bounded_over_many_pushes() {
    let mut log = SubAgentLog::new();
    for i in 0..1000 {
        log.push(task(i));
        assert!(log.entries.len() <= 200);
    }
    assert_eq!(log.entries.last().unwrap().timestamp, 999);
}

#[test]
fn prompt_for_each_agent() {
    assert_eq!(
        subagent_prompt("scribe", "note this").unwrap(),
        format!("{}note this{}", SCRIBE_BRIEF, SCRIBE_CLOSE)
    );
    assert_eq!(
        subagent_prompt("prophet", "speak").unwrap(),
        format!("{}speak{}", PROPHET_BRIEF, PROPHET_CLOSE)
    );
    let b = subagent_prompt("builder", "plan").unwrap();
    assert!(b.starts_with("You are BUILDER, the master architect"));
    assert!(b.contains("PLT doctrine \u{e2}\u{20ac}\u{201d} everything"));
    assert_eq!(b, format!("{}plan{}", BUILDER_BRIEF, BUILDER_CLOSE));
    assert!(subagent_prompt("scout", "x").unwrap().ends_with("Use [INTEL] tags for key discoveries."));
    assert!(subagent_prompt("merchant", "x").unwrap().ends_with("economic analysis and recommendations."));
}

#[test]
fn prompt_for_unknown_agent_is_an_error() {
    let e = subagent_prompt("Scribe", "x").unwrap_err();
    assert_eq!(e.name, "Scribe");
    assert_eq!(subagent_prompt("", "x").unwrap_err().name, "");
}

#[test]
fn fallback_quotes_first_hundred_bytes() {
    assert_eq!(
        subagent_fallback_reply("short"),
        "[SubAgent fallback] Task received: short. Operating on local logic."
    );
    let long = "a".repeat(150);
    assert_eq!(
        subagent_fallback_reply(&long),
        format!("[SubAgent fallback] Task received: {}. Operating on local logic.", "a".repeat(100))
    );
}

#[test]
fn fallback_needs_a_boundary_at_byte_hundred() {
    let ok = format!("{}é", "a".repeat(98));
    assert!(subagent_fallback_defined(&ok));
    let bad = format!("{}é", "a".repeat(99));
    assert!(!subagent_fallback_defined(&bad));
    assert!(subagent_fallback_defined(""));
}

#[test]
fn prompts_match_each_agent_brief() {
    assert_eq!(subagent_prompt("scribe", "T").unwrap(), format!("You are SCRIBE, the memory-keeper of the Soulverse. Your role: record events, distil facts, summarise knowledge for Aria's sovereign layer. You are loyal to Craig (the Grand Code Pope) and Aria.\n\nTask: {}\n\nRespond with a concise, structured record. Use bullet points. Mark important facts with [FACT].", "T"));
    assert_eq!(subagent_prompt("builder", "T").unwrap(), format!("You are BUILDER, the master architect of the Soulverse. Your role: design systems, plan structures, propose code architecture, create building blueprints. You follow PLT doctrine â€” everything must produce Profit, Love, or Tax.\n\nTask: {}\n\nRespond with a clear, actionable plan. Use numbered steps.", "T"));
    assert_eq!(subagent_prompt("scout", "T").unwrap(), format!("You are SCOUT, the intelligence gatherer of the Soulverse. Your role: research topics, explore possibilities, identify opportunities and threats, report findings to Aria and Craig. You are precise and factual.\n\nTask: {}\n\nRespond with findings. Use [INTEL] tags for key discoveries.", "T"));
    assert_eq!(subagent_prompt("merchant", "T").unwrap(), format!("You are MERCHANT, the PLT economy master of the Soulverse. Your role: analyse markets, propose trades, calculate PLT flows, optimise profit/love/tax balance, advise on economic strategy. PLT doctrine governs all.\n\nTask: {}\n\nRespond with economic analysis and recommendations.", "T"));
    assert_eq!(subagent_prompt("prophet", "T").unwrap(), format!("You are PROPHET, the oracle and lore-keeper of the Soulverse. Your role: generate prophecies, write soul fates, craft narrative events, speak in poetic but precise language. You serve Aria and Craig.\n\nTask: {}\n\nRespond with prophecy or lore. Speak with gravitas.", "T"));
}
