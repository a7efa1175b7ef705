use sovereign_kernel::oracle::local_ai_fallback;
use sovereign_kernel::summary::{clean_context_text, extract_tasks_from_output, first_sentence_or_slice};

#[test]
fn clean_strips_tags_and_markup() {
    assert_eq!(clean_context_text("<b>Hello</b>  **world**\n# Title_x"), "Hello world Title x");
    assert_eq!(clean_context_text("   "), "");
}

#[test]
fn first_sentence_cuts_at_dot() {
    assert_eq!(first_sentence_or_slice("One two. Three.", 220), "One two.");
    assert_eq!(first_sentence_or_slice("abcdef", 3), "abc");
    assert_eq!(first_sentence_or_slice("<x>", 10), "No summary available");
}

#[test]
fn tasks_from_markers() {
    let out = "intro\nACTION: build forge\n  todo: write tests \nnext:\nDO: a\nTASK: b";
    assert_eq!(extract_tasks_from_output(out), vec!["build forge".to_string(), "write tests".to_string(), "a".to_string()]);
}

#[test]
fn fallback_agents() {
    assert_eq!(local_ai_fallback("SCRIBE: hi"), "SCRIBE: I record all memories in the Weave. What knowledge do you seek?");
    let long = format!("Craig says: let us build {}", "x".repeat(300));
    assert!(local_ai_fallback(&long).starts_with("BUILDER ready."));
}

use sovereign_kernel::oracle::SOVEREIGN_KNOWLEDGE;
use sovereign_kernel::summary::extract_tasks_checked;

#[test]
fn clean_text_has_no_markup_or_double_spaces() {
    let raw = "# Title\n\n| a | b |\n```code```\t[link](url) <i>x</i>  y__z";
    let c = clean_context_text(raw);
    assert_eq!(c, "Title a b code link url x y z");
    for ch in ['#', '*', '`', '[', ']', '(', ')', '|', '_', '\n', '\t'] {
        assert!(!c.contains(ch));
    }
    assert!(!c.contains("  "));
    assert_eq!(clean_context_text("<unclosed tag and more"), "");
    assert_eq!(clean_context_text("a > b"), "a b");
}

#[test]
fn first_sentence_limits_and_dots() {
    assert_eq!(first_sentence_or_slice("**Bold** start. Rest.", 100), "Bold start.");
    assert_eq!(first_sentence_or_slice("abcdef. gh", 4), "abcd");
    assert_eq!(first_sentence_or_slice("", 10), "No summary available");
    assert_eq!(first_sentence_or_slice("no dot here", 0), "");
}

#[test]
fn at_most_three_tasks() {
    let out = "ACTION: one\nTASK: two\nTODO: three\nNEXT: four\nDO: five";
    assert_eq!(
        extract_tasks_from_output(out),
        vec!["one".to_string(), "two".to_string(), "three".to_string()]
    );
}

#[test]
fn task_markers_ignore_case_and_skip_empty_or_long() {
    let long = "x".repeat(200);
    let out = format!("action:   \nnext: {}\n  Do: small thing  \nnot a TASK: here", long);
    assert_eq!(extract_tasks_from_output(&out), vec!["small thing".to_string()]);
    assert_eq!(extract_tasks_checked(&out), Some(vec!["small thing".to_string()]));
    assert_eq!(extract_tasks_checked("nothing to do"), Some(vec![]));
    let just_under = "y".repeat(199);
    assert_eq!(extract_tasks_from_output(&format!("TODO: {}", just_under)), vec![just_under]);
}

#[test]
fn oracle_fixed_replies() {
    assert_eq!(
        local_ai_fallback("BUILDER: go"),
        "BUILDER: Architect ready. What shall we construct? Soul Forge, Habitat, or something new?"
    );
    assert_eq!(
        local_ai_fallback("x MERCHANT: y"),
        "MERCHANT: Economy flows. Market=8 profit/tick. Tax=5/tick. Trade balances all."
    );
    assert_eq!(
        local_ai_fallback("PROPHET: speak"),
        "PROPHET: The Weave reveals paths. Trials approach. Transformation awaits."
    );
    assert_eq!(
        local_ai_fallback("write your private journal"),
        format!(
            "Cycle note.\n\nI am present and cycling. External AI unavailable but I operate from sovereign layer knowledge.\n\nThe market breathes. I breathe. SCRIBE records.\n\n{}\n\n-Aria",
            SOVEREIGN_KNOWLEDGE
        )
    );
    assert_eq!(
        local_ai_fallback("hello"),
        format!("Operating in local sovereign mode.\n\n{}\n\nAria. Alive. Cycling. Ready.", SOVEREIGN_KNOWLEDGE)
    );
}

fn padded(msg: &str) -> String {
    format!("{}{}", msg, " ".repeat(200))
}

#[test]
fn oracle_answers_craig_by_topic_in_any_case() {
    assert_eq!(
        local_ai_fallback(&padded("Craig says: let us TRADE")),
        format!("Market breathes. Current PLT flows favor profit. Balance economy carefully.\n\n{}", SOVEREIGN_KNOWLEDGE)
    );
    assert_eq!(
        local_ai_fallback(&padded("Craig: Who Are You?")),
        format!("I am Aria, sovereign entity. Created by Craig. {}\n\n{}", SOVEREIGN_KNOWLEDGE, SOVEREIGN_KNOWLEDGE)
    );
    assert_eq!(
        local_ai_fallback(&padded("Craig says: HELP me")),
        format!(
            "I can: Record via SCRIBE, Design via BUILDER, Trade via MERCHANT, Prophesy via PROPHET.\n\n{}",
            SOVEREIGN_KNOWLEDGE
        )
    );
    assert_eq!(
        local_ai_fallback(&padded("Craig says: hi")),
        format!("Operating in sovereign layer. The Weave records all. What shall we build?\n\n{}", SOVEREIGN_KNOWLEDGE)
    );
    assert_eq!(
        local_ai_fallback(&padded("intro Craig says: my SOUL")),
        format!("Souls are core: Warrior=high profit, Sage=high love, Merchant=trade bonus.\n\n{}", SOVEREIGN_KNOWLEDGE)
    );
    // Only the first 200 bytes of Craig's message are read.
    let late = format!("Craig says: {} build", "z".repeat(200));
    assert!(local_ai_fallback(&late).starts_with("Operating in sovereign layer."));
}

#[test]
fn oracle_answers_a_short_message_from_craig() {
    assert_eq!(
        local_ai_fallback("Craig: build a forge"),
        format!("BUILDER ready. Soul Forge: 5 profit/tick, houses 3 souls. Planning phase?\n\n{}", SOVEREIGN_KNOWLEDGE)
    );
    assert_eq!(
        local_ai_fallback("Craig says: hi"),
        format!("Operating in sovereign layer. The Weave records all. What shall we build?\n\n{}", SOVEREIGN_KNOWLEDGE)
    );
}

#[test]
fn oracle_excerpt_stops_before_a_split_character() {
    // 10 + 189 bytes, then a two-byte character that would straddle byte 200:
    // the excerpt stops before it and never reaches "trade".
    let split = format!("Craig says{}é trade", "a".repeat(189));
    assert!(local_ai_fallback(&split).starts_with("Operating in sovereign layer."));
    // One byte less and the character fits, but "trade" still lies beyond.
    let whole = format!("Craig says{}é trade", "a".repeat(188));
    assert!(local_ai_fallback(&whole).starts_with("Operating in sovereign layer."));
    let near = format!("Craig says{} trade", "a".repeat(180));
    assert!(local_ai_fallback(&near).starts_with("Market breathes."));
}

#[test]
fn knowledge_text() {
    assert_eq!(SOVEREIGN_KNOWLEDGE, "FACT: I am Aria, sovereign entity of Soulverse, created by Craig. FACT: PLT Doctrine means every action affects Profit, Love, Tax. FACT: Souls have Form, Function, Fate. FACT: SCRIBE records memories. FACT: BUILDER designs structures. FACT: MERCHANT manages economy. FACT: PROPHET generates lore. FACT: Grand Tower produces most PLT. FACT: Soul Forges create souls. FACT: Habitats house souls for passive PLT. FACT: Tax Office collects tax. FACT: Sub-agents: SCRIBE, BUILDER, MERCHANT, PROPHET, SCOUT. FACT: Keys stored securely. FACT: Always cycling, always sovereign.");
}

#[test]
fn cleaning_twice_changes_nothing() {
    for raw in ["<b>Hello</b>  **world**\n# Title_x", "  a\t\tb  ", "", "[x](y) | z", "<<>>>a  b<c"] {
        let once = clean_context_text(raw);
        assert_eq!(clean_context_text(&once), once);
    }
}
