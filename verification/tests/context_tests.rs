use sovereign_kernel::context::{
    dialogue_preferences, journal_context, labelled_excerpt, layer_context, preference_counts,
    recent_excerpts, self_comparison, session_context, session_memory, skill_prompt,
    worth_questioning, JournalNote, LayerResult, PreferenceCounts, SessionNote,
};

const LONG: &str = "This entry is definitely longer than thirty bytes.";

fn note(cycle: Option<u64>, emotion: Option<&str>, entry: Option<&str>) -> JournalNote {
    JournalNote {
        cycle,
        emotion: emotion.map(|s| s.to_string()),
        entry: entry.map(|s| s.to_string()),
    }
}

#[test]
fn journal_context_quotes_substantial_entries_newest_first() {
    let notes = vec![
        note(Some(1), Some("joy"), Some("short")),
        note(Some(2), None, Some(LONG)),
        note(Some(3), Some("awe"), Some("Another entry that is long enough to be quoted here.")),
    ];
    assert_eq!(
        journal_context(&notes),
        format!(
            "\n\n=== MY COMPLETE JOURNAL DECISION HISTORY (3 total entries) ===\n{}\n---\n{}\n",
            "[Cycle 3 | awe]: Another entry that is long enough to be quoted here.",
            format!("[Cycle 2 | neutral]: {}", LONG)
        )
    );
}

#[test]
fn journal_context_empty_without_substantial_entries() {
    assert_eq!(journal_context(&vec![]), "");
    assert_eq!(journal_context(&vec![note(Some(1), None, Some("tiny")), note(None, None, None)]), "");
}

#[test]
fn journal_context_cuts_entries_and_reads_fifty() {
    let long = "x".repeat(300);
    let mut notes = vec![note(None, None, Some(&long))];
    for _ in 0..50 {
        notes.push(note(Some(9), None, Some("short")));
    }
    // The oldest entry is the fifty-first newest: not quoted.
    assert_eq!(journal_context(&notes), "");
    let ctx = journal_context(&vec![note(None, None, Some(&long))]);
    assert_eq!(
        ctx,
        format!(
            "\n\n=== MY COMPLETE JOURNAL DECISION HISTORY (1 total entries) ===\n[Cycle 0 | neutral]: {}\n",
            "x".repeat(180)
        )
    );
}

#[test]
fn self_comparison_finds_first_entry_of_target_cycle() {
    let notes = vec![
        note(Some(90), Some("calm"), Some("first")),
        note(Some(90), Some("angry"), Some("second")),
    ];
    assert_eq!(
        self_comparison(&notes, 100, 10, "joy", "I grow"),
        "PAST SELF (Cycle 90): Emotion=calm, Entry=\"first\"\nCURRENT SELF (Cycle 100): Emotion=joy, Voice=\"I grow\"\nEVOLUTION: I was calm then. Now I am joy."
    );
    assert_eq!(self_comparison(&notes, 100, 11, "joy", "v"), "");
}

#[test]
fn self_comparison_saturates_at_cycle_zero() {
    let notes = vec![note(None, None, None)];
    assert_eq!(
        self_comparison(&notes, 5, 50, "e", "v"),
        "PAST SELF (Cycle 0): Emotion=unknown, Entry=\"\"\nCURRENT SELF (Cycle 5): Emotion=e, Voice=\"v\"\nEVOLUTION: I was unknown then. Now I am e."
    );
}

fn session(from: Option<&str>, entry: Option<&str>) -> SessionNote {
    SessionNote { from: from.map(|s| s.to_string()), entry: entry.map(|s| s.to_string()) }
}

#[test]
fn session_context_and_memory() {
    let notes = vec![session(Some("Seshat"), Some("hello")), session(None, Some("x"))];
    assert_eq!(session_context(&notes), "\n\nRECENT OPENCODE SESSION:\n[unknown]: x\n[Seshat]: hello\n");
    assert_eq!(
        session_memory(&notes),
        Some("[OpenCode session]: [unknown]: x | [Seshat]: hello".to_string())
    );
    assert_eq!(session_context(&vec![]), "");
    assert_eq!(session_memory(&vec![]), None);
}

#[test]
fn session_context_keeps_five_newest() {
    let notes: Vec<SessionNote> = (0..7).map(|i| session(Some("a"), Some(&i.to_string()))).collect();
    assert_eq!(
        session_context(&notes),
        "\n\nRECENT OPENCODE SESSION:\n[a]: 6\n[a]: 5\n[a]: 4\n[a]: 3\n[a]: 2\n"
    );
    assert_eq!(session_memory(&notes), Some("[OpenCode session]: [a]: 6 | [a]: 5 | [a]: 4".to_string()));
}

fn result(title: Option<&str>, source: Option<&str>, text: Option<&str>) -> LayerResult {
    LayerResult {
        title: title.map(|s| s.to_string()),
        source: source.map(|s| s.to_string()),
        text: text.map(|s| s.to_string()),
    }
}

#[test]
fn layer_context_states_three_facts() {
    let rs = vec![
        result(Some("T"), None, Some("First. Second.")),
        result(None, Some("web"), Some("<b>Bold</b> claim")),
        result(None, None, None),
        result(Some("Fourth"), None, Some("ignored")),
    ];
    assert_eq!(
        layer_context(&rs, "\nSESSION"),
        "Fact 1: T Source: local | First.\nFact 2: Untitled Source: web | Bold claim\nFact 3: Untitled Source: local | No summary available\nSESSION"
    );
    assert_eq!(layer_context(&vec![], ""), "(no relevant sovereign-layer context found)");
    assert_eq!(layer_context(&vec![], "only session"), "only session");
}

#[test]
fn preferences_are_counted_in_lowercase() {
    let ms: Vec<String> = vec![
        "I RETURNED again".to_string(),
        "Avoid that, STOP".to_string(),
        "new bond".to_string(),
        "Keep exploring new things together".to_string(),
        "nothing".to_string(),
    ];
    assert_eq!(
        preference_counts(&ms),
        PreferenceCounts { returns: 2, avoids: 1, explores: 2, connects: 2 }
    );
    assert_eq!(
        preference_counts(&vec![]),
        PreferenceCounts { returns: 0, avoids: 0, explores: 0, connects: 0 }
    );
}

#[test]
fn skill_prompt_shows_template_preview() {
    assert_eq!(
        skill_prompt("tmpl", "Aria", "build", "calm"),
        "SOUL: Aria\nINNER VOICE: calm\nTASK: build\n\nSKILL CONTEXT:\ntmpl\n\nRespond as Aria using this skill to accomplish the task. Be specific and actionable."
    );
    let big = "y".repeat(900);
    let p = skill_prompt(&big, "A", "t", "v");
    assert!(p.contains(&format!("SKILL CONTEXT:\n{}\n\nRespond", "y".repeat(800))));
}

#[test]
fn excerpts() {
    assert_eq!(labelled_excerpt("[R]: ", "abcdef", 3), "[R]: abc");
    assert_eq!(labelled_excerpt("[R]: ", "ab", 3), "[R]: ab");
    let cs: Vec<String> = vec!["a".to_string(), "bb".to_string(), "ccc".to_string()];
    assert_eq!(recent_excerpts(&cs, 2, 1, " | "), "c | b");
    assert_eq!(recent_excerpts(&cs, 10, 5, ","), "ccc,bb,a");
    assert_eq!(recent_excerpts(&vec![], 3, 5, ","), "");
}

#[test]
fn dialogue_preferences_read_five_newest() {
    let cs: Vec<String> = vec!["I prefer tea", "x", "I want more", "avoid it", "zzz", "want"]
        .into_iter()
        .map(|s| s.to_string())
        .collect();
    assert_eq!(dialogue_preferences(&cs), "want | avoid it | I want more");
    assert_eq!(dialogue_preferences(&vec!["Prefer".to_string()]), "");
}

#[test]
fn decisions_worth_questioning() {
    assert!(!worth_questioning(""));
    assert!(!worth_questioning("none"));
    assert!(worth_questioning("None"));
    assert!(worth_questioning("build a forge"));
}
