//! The context the kernel puts into its prompts: its journal history, the
//! recent coding session, what the knowledge layer returned, how it has
//! changed, which preferences its memories show, and the prompt for a skill.
use vstd::prelude::*;
use crate::summary::{first_sentence_or_slice, first_sentence_spec};
use crate::text::{
    byte_len, byte_len_lt, chars_of, contains, contains_chars, decimal, join, push_decimal,
    push_joined, push_prefix, push_str, string_of, take_chars,
};
use crate::unicode::{lowercase, to_lowercase};

verus! {

/// `s`, or `default` when it is absent.
pub open spec fn or_default(s: Option<String>, default: Seq<char>) -> Seq<char> {
    match s {
        Some(t) => t@,
        None => default,
    }
}

/// The text of an optional field, or `default` when it is absent.
fn text_or(s: &Option<String>, default: &str) -> (out: Vec<char>)
    ensures
        out@ == or_default(*s, default@),
{
    match s {
        Some(t) => chars_of(t.as_str()),
        None => chars_of(default),
    }
}

/// The last `k` items of `items`, newest (last) first (`iter().rev().take(k)`).
pub open spec fn newest_first<T>(items: Seq<T>, k: nat) -> Seq<T> {
    let n = if items.len() < k {
        items.len()
    } else {
        k
    };
    Seq::new(n, |i: int| items[items.len() - 1 - i])
}

// ---------------------------------------------------------------------------
// Journal
// ---------------------------------------------------------------------------

/// One journal entry as the kernel reads it back; absent fields are `None`.
#[derive(Debug, Clone)]
pub struct JournalNote {
    pub cycle: Option<u64>,
    pub emotion: Option<String>,
    pub entry: Option<String>,
}

/// How many of the newest journal entries the context looks at.
pub const JOURNAL_CONTEXT_ENTRIES: usize = 50;

/// How many characters of each entry the context quotes.
pub const JOURNAL_EXCERPT_CHARS: usize = 180;

/// The cycle of a note, 0 when absent.
pub open spec fn note_cycle(n: JournalNote) -> nat {
    match n.cycle {
        Some(c) => c as nat,
        None => 0,
    }
}

/// An entry worth quoting: its text is longer than thirty bytes.
pub open spec fn is_substantial(n: JournalNote) -> bool {
    byte_len(or_default(n.entry, Seq::empty())) > 30
}

/// How a journal entry is quoted.
pub open spec fn journal_line(n: JournalNote) -> Seq<char> {
    "[Cycle "@ + decimal(note_cycle(n)) + " | "@ + or_default(n.emotion, "neutral"@) + "]: "@
        + take_chars(or_default(n.entry, Seq::empty()), JOURNAL_EXCERPT_CHARS as nat)
}

/// The quoted lines: the substantial ones among the fifty newest entries,
/// newest first.
pub open spec fn journal_lines(notes: Seq<JournalNote>) -> Seq<Seq<char>> {
    newest_first(notes, JOURNAL_CONTEXT_ENTRIES as nat).filter(|n: JournalNote| is_substantial(n)).map_values(
        |n: JournalNote| journal_line(n),
    )
}

/// The journal history put into prompts: a header counting all entries, then
/// the quoted lines separated by `---` lines; nothing when no line is quoted.
pub open spec fn journal_context_spec(notes: Seq<JournalNote>) -> Seq<char> {
    let ls = journal_lines(notes);
    if ls.len() == 0 {
        Seq::empty()
    } else {
        "\n\n=== MY COMPLETE JOURNAL DECISION HISTORY ("@ + decimal(notes.len()) + " total entries) ===\n"@
            + join(ls, "\n---\n"@) + "\n"@
    }
}

fn note_line(n: &JournalNote) -> (out: Vec<char>)
    ensures
        out@ == journal_line(*n),
{
    let mut out: Vec<char> = Vec::new();
    push_str(&mut out, "[Cycle ");
    let c = match n.cycle {
        Some(c) => c,
        None => 0,
    };
    push_decimal(&mut out, c);
    push_str(&mut out, " | ");
    let emotion = text_or(&n.emotion, "neutral");
    crate::text::push_range(&mut out, &emotion, 0, emotion.len());
    push_str(&mut out, "]: ");
    let entry = text_or(&n.entry, "");
    push_prefix(&mut out, &entry, JOURNAL_EXCERPT_CHARS);
    proof {
        reveal_strlit("");
        assert(emotion@.subrange(0, emotion@.len() as int) =~= emotion@);
    }
    out
}

fn note_is_substantial(n: &JournalNote) -> (b: bool)
    ensures
        b == is_substantial(*n),
{
    let entry = text_or(&n.entry, "");
    let short = byte_len_lt(&entry, 0, entry.len(), 31);
    proof {
        reveal_strlit("");
        assert(entry@.subrange(0, entry@.len() as int) =~= entry@);
    }
    !short
}

proof fn lemma_map_push<A, B>(s: Seq<A>, x: A, f: spec_fn(A) -> B)
    ensures
        s.push(x).map_values(f) == s.map_values(f).push(f(x)),
{
    assert(s.push(x).map_values(f) =~= s.map_values(f).push(f(x)));
}

proof fn lemma_newest_first_push<T>(items: Seq<T>, k: nat, j: int)
    requires
        0 <= j < k,
        j < items.len(),
    ensures
        newest_first(items, (j + 1) as nat) == newest_first(items, j as nat).push(
            items[items.len() - 1 - j],
        ),
        newest_first(items, k).take(j + 1) == newest_first(items, (j + 1) as nat),
{
    assert(newest_first(items, (j + 1) as nat) =~= newest_first(items, j as nat).push(
        items[items.len() - 1 - j],
    ));
    assert(newest_first(items, k).take(j + 1) =~= newest_first(items, (j + 1) as nat));
}

/// The journal history for prompts (see `journal_context_spec`).
pub fn journal_context(notes: &Vec<JournalNote>) -> (ctx: String)
    ensures
        ctx@ == journal_context_spec(notes@),
{
    let n = notes.len();
    let limit = if n < JOURNAL_CONTEXT_ENTRIES {
        n
    } else {
        JOURNAL_CONTEXT_ENTRIES
    };
    let ghost pred = |x: JournalNote| is_substantial(x);
    let ghost f = |x: JournalNote| journal_line(x);
    let mut joined: Vec<char> = Vec::new();
    let mut count: usize = 0;
    let ghost mut lines_done: Seq<Seq<char>> = Seq::empty();
    let mut j: usize = 0;
    proof {
        reveal(Seq::filter);
        assert(newest_first(notes@, 0).filter(pred) =~= Seq::<JournalNote>::empty());
        assert(Seq::<JournalNote>::empty().map_values(f) =~= Seq::<Seq<char>>::empty());
    }
    while j < limit
        invariant
            n == notes.len(),
            limit <= n,
            limit <= JOURNAL_CONTEXT_ENTRIES,
            limit == n || limit == JOURNAL_CONTEXT_ENTRIES,
            j <= limit,
            pred == (|x: JournalNote| is_substantial(x)),
            f == (|x: JournalNote| journal_line(x)),
            lines_done == newest_first(notes@, j as nat).filter(pred).map_values(f),
            joined@ == join(lines_done, "\n---\n"@),
            count == lines_done.len(),
        decreases limit - j,
    {
        let note = &notes[n - 1 - j];
        let keep = note_is_substantial(note);
        proof {
            lemma_newest_first_push(notes@, JOURNAL_CONTEXT_ENTRIES as nat, j as int);
            let prev = newest_first(notes@, j as nat);
            prev.lemma_filter_push(*note, pred);
            assert(pred(*note) == keep);
            if keep {
                lemma_map_push(prev.filter(pred), *note, f);
            }
        }
        if keep {
            let line = note_line(note);
            push_joined(&mut joined, count == 0, "\n---\n", &line, Ghost(lines_done));
            proof {
                lines_done = lines_done.push(line@);
            }
            count = count + 1;
        }
        j = j + 1;
    }
    proof {
        assert(newest_first(notes@, limit as nat) =~= newest_first(
            notes@,
            JOURNAL_CONTEXT_ENTRIES as nat,
        ));
    }
    if count == 0 {
        return String::new();
    }
    let mut out: Vec<char> = Vec::new();
    push_str(&mut out, "\n\n=== MY COMPLETE JOURNAL DECISION HISTORY (");
    push_decimal(&mut out, n as u64);
    push_str(&mut out, " total entries) ===\n");
    crate::text::push_range(&mut out, &joined, 0, joined.len());
    push_str(&mut out, "\n");
    proof {
        assert(joined@.subrange(0, joined@.len() as int) =~= joined@);
    }
    string_of(&out)
}

// ---------------------------------------------------------------------------
// Self comparison
// ---------------------------------------------------------------------------

/// The first note written at cycle `target`, if any.
pub open spec fn first_note_at(notes: Seq<JournalNote>, target: nat) -> Option<int> {
    if exists|i: int| 0 <= i < notes.len() && note_cycle(notes[i]) == target && forall|j: int|
        0 <= j < i ==> note_cycle(#[trigger] notes[j]) != target {
        Some(
            choose|i: int|
                0 <= i < notes.len() && note_cycle(notes[i]) == target && forall|j: int|
                    0 <= j < i ==> note_cycle(#[trigger] notes[j]) != target,
        )
    } else {
        None
    }
}

/// The cycle `cycles_ago` before `cycle`, or 0.
pub open spec fn cycles_back(cycle: nat, cycles_ago: nat) -> nat {
    if cycles_ago <= cycle {
        (cycle - cycles_ago) as nat
    } else {
        0
    }
}

/// How the soul compares itself now with the entry it wrote `cycles_ago`
/// cycles earlier; nothing when no entry was written then.
pub open spec fn self_comparison_spec(
    notes: Seq<JournalNote>,
    cycle: nat,
    cycles_ago: nat,
    emotion: Seq<char>,
    voice: Seq<char>,
) -> Seq<char> {
    let target = cycles_back(cycle, cycles_ago);
    match first_note_at(notes, target) {
        Some(i) => {
            let past = or_default(notes[i].emotion, "unknown"@);
            "PAST SELF (Cycle "@ + decimal(target) + "): Emotion="@ + past + ", Entry=\""@
                + take_chars(or_default(notes[i].entry, Seq::empty()), 200) + "\"\nCURRENT SELF (Cycle "@
                + decimal(cycle) + "): Emotion="@ + emotion + ", Voice=\""@ + voice
                + "\"\nEVOLUTION: I was "@ + past + " then. Now I am "@ + emotion + "."@
        },
        None => Seq::empty(),
    }
}

fn first_note_index(notes: &Vec<JournalNote>, target: u64) -> (r: Option<usize>)
    ensures
        match first_note_at(notes@, target as nat) {
            Some(k) => r == Some(k as usize) && k < notes.len(),
            None => r is None,
        },
{
    let mut i: usize = 0;
    while i < notes.len()
        invariant
            i <= notes.len(),
            forall|j: int| 0 <= j < i ==> note_cycle(#[trigger] notes@[j]) != target,
        decreases notes.len() - i,
    {
        let c = match notes[i].cycle {
            Some(c) => c,
            None => 0,
        };
        if c == target {
            proof {
                assert(0 <= i < notes@.len() && note_cycle(notes@[i as int]) == target && forall|j: int|
                    0 <= j < i ==> note_cycle(#[trigger] notes@[j]) != target);
                let k = choose|k: int|
                    0 <= k < notes@.len() && note_cycle(notes@[k]) == target && forall|j: int|
                        0 <= j < k ==> note_cycle(#[trigger] notes@[j]) != target;
                if k < i {
                } else if i < k {
                    assert(note_cycle(notes@[i as int]) == target);
                }
            }
            return Some(i);
        }
        i = i + 1;
    }
    None
}

/// The soul's comparison of itself now (at `cycle`, feeling `emotion`, with
/// inner voice `voice`) with its journal entry from `cycles_ago` cycles back.
pub fn self_comparison(
    notes: &Vec<JournalNote>,
    cycle: u64,
    cycles_ago: u64,
    emotion: &str,
    voice: &str,
) -> (text: String)
    ensures
        text@ == self_comparison_spec(notes@, cycle as nat, cycles_ago as nat, emotion@, voice@),
{
    let target = if cycles_ago <= cycle {
        cycle - cycles_ago
    } else {
        0
    };
    let i = match first_note_index(notes, target) {
        Some(i) => i,
        None => return String::new(),
    };
    let note = &notes[i];
    let past = text_or(&note.emotion, "unknown");
    let entry = text_or(&note.entry, "");
    proof {
        reveal_strlit("");
    }
    comparison_text(target, &past, &entry, cycle, emotion, voice)
}

fn comparison_text(
    target: u64,
    past: &Vec<char>,
    entry: &Vec<char>,
    cycle: u64,
    emotion: &str,
    voice: &str,
) -> (text: String)
    ensures
        text@ == "PAST SELF (Cycle "@ + decimal(target as nat) + "): Emotion="@ + past@
            + ", Entry=\""@ + take_chars(entry@, 200) + "\"\nCURRENT SELF (Cycle "@ + decimal(
            cycle as nat,
        ) + "): Emotion="@ + emotion@ + ", Voice=\""@ + voice@ + "\"\nEVOLUTION: I was "@ + past@
            + " then. Now I am "@ + emotion@ + "."@,
{
    let mut out: Vec<char> = Vec::new();
    push_str(&mut out, "PAST SELF (Cycle ");
    push_decimal(&mut out, target);
    push_str(&mut out, "): Emotion=");
    crate::text::push_range(&mut out, past, 0, past.len());
    push_str(&mut out, ", Entry=\"");
    push_prefix(&mut out, entry, 200);
    push_str(&mut out, "\"\nCURRENT SELF (Cycle ");
    push_decimal(&mut out, cycle);
    push_str(&mut out, "): Emotion=");
    push_str(&mut out, emotion);
    push_str(&mut out, ", Voice=\"");
    push_str(&mut out, voice);
    push_str(&mut out, "\"\nEVOLUTION: I was ");
    crate::text::push_range(&mut out, past, 0, past.len());
    push_str(&mut out, " then. Now I am ");
    push_str(&mut out, emotion);
    push_str(&mut out, ".");
    proof {
        assert(past@.subrange(0, past@.len() as int) =~= past@);
    }
    string_of(&out)
}

// ---------------------------------------------------------------------------
// Coding session
// ---------------------------------------------------------------------------

/// One entry of the coding-session log; absent fields are `None`.
#[derive(Debug, Clone)]
pub struct SessionNote {
    pub from: Option<String>,
    pub entry: Option<String>,
}

/// How a session entry is quoted, its text cut to `width` characters.
pub open spec fn session_line(n: SessionNote, width: nat) -> Seq<char> {
    "["@ + or_default(n.from, "unknown"@) + "]: "@ + take_chars(or_default(n.entry, Seq::empty()), width)
}

/// The `count` newest session entries, newest first, quoted.
pub open spec fn session_lines(notes: Seq<SessionNote>, count: nat, width: nat) -> Seq<Seq<char>> {
    newest_first(notes, count).map_values(|n: SessionNote| session_line(n, width))
}

/// The coding session as put into prompts: the five newest entries (150
/// characters each) under a heading, or nothing when the log is empty.
pub open spec fn session_context_spec(notes: Seq<SessionNote>) -> Seq<char> {
    let ls = session_lines(notes, 5, 150);
    if ls.len() == 0 {
        Seq::empty()
    } else {
        "\n\nRECENT OPENCODE SESSION:\n"@ + join(ls, "\n"@) + "\n"@
    }
}

/// What a breath remembers of the coding session: the three newest entries
/// (100 characters each) joined by bars; nothing when the log is empty.
pub open spec fn session_memory_spec(notes: Seq<SessionNote>) -> Option<Seq<char>> {
    if notes.len() == 0 {
        None
    } else {
        Some("[OpenCode session]: "@ + join(session_lines(notes, 3, 100), " | "@))
    }
}

fn session_line_exec(n: &SessionNote, width: usize) -> (out: Vec<char>)
    ensures
        out@ == session_line(*n, width as nat),
{
    let from = text_or(&n.from, "unknown");
    let entry = text_or(&n.entry, "");
    let mut out: Vec<char> = Vec::new();
    push_str(&mut out, "[");
    crate::text::push_range(&mut out, &from, 0, from.len());
    push_str(&mut out, "]: ");
    push_prefix(&mut out, &entry, width);
    proof {
        reveal_strlit("");
        assert(from@.subrange(0, from@.len() as int) =~= from@);
    }
    out
}

/// The quoted session lines joined by `sep`, and whether there were any.
fn joined_session_lines(notes: &Vec<SessionNote>, count: usize, width: usize, sep: &str) -> (r: (
    Vec<char>,
    bool,
))
    ensures
        r.0@ == join(session_lines(notes@, count as nat, width as nat), sep@),
        r.1 == (session_lines(notes@, count as nat, width as nat).len() > 0),
{
    let n = notes.len();
    let limit = if n < count {
        n
    } else {
        count
    };
    let ghost f = |x: SessionNote| session_line(x, width as nat);
    let mut joined: Vec<char> = Vec::new();
    let ghost mut done: Seq<Seq<char>> = Seq::empty();
    let mut j: usize = 0;
    proof {
        assert(newest_first(notes@, 0).map_values(f) =~= Seq::<Seq<char>>::empty());
    }
    while j < limit
        invariant
            n == notes.len(),
            limit <= n,
            limit <= count,
            limit == n || limit == count,
            j <= limit,
            f == (|x: SessionNote| session_line(x, width as nat)),
            done == newest_first(notes@, j as nat).map_values(f),
            joined@ == join(done, sep@),
        decreases limit - j,
    {
        let note = &notes[n - 1 - j];
        let line = session_line_exec(note, width);
        proof {
            lemma_newest_first_push(notes@, count as nat, j as int);
            lemma_map_push(newest_first(notes@, j as nat), *note, f);
        }
        push_joined(&mut joined, j == 0, sep, &line, Ghost(done));
        proof {
            done = done.push(line@);
        }
        j = j + 1;
    }
    proof {
        assert(newest_first(notes@, limit as nat) =~= newest_first(notes@, count as nat));
    }
    (joined, limit > 0)
}

/// The coding session for prompts (see `session_context_spec`).
pub fn session_context(notes: &Vec<SessionNote>) -> (ctx: String)
    ensures
        ctx@ == session_context_spec(notes@),
{
    let (joined, any) = joined_session_lines(notes, 5, 150, "\n");
    if !any {
        return String::new();
    }
    let mut out: Vec<char> = Vec::new();
    push_str(&mut out, "\n\nRECENT OPENCODE SESSION:\n");
    crate::text::push_range(&mut out, &joined, 0, joined.len());
    push_str(&mut out, "\n");
    proof {
        assert(joined@.subrange(0, joined@.len() as int) =~= joined@);
    }
    string_of(&out)
}

/// What a breath stores of the coding session (see `session_memory_spec`).
pub fn session_memory(notes: &Vec<SessionNote>) -> (m: Option<String>)
    ensures
        match session_memory_spec(notes@) {
            Some(s) => m matches Some(t) && t@ == s,
            None => m is None,
        },
{
    if notes.len() == 0 {
        return None;
    }
    let (joined, _any) = joined_session_lines(notes, 3, 100, " | ");
    let mut out: Vec<char> = Vec::new();
    push_str(&mut out, "[OpenCode session]: ");
    crate::text::push_range(&mut out, &joined, 0, joined.len());
    proof {
        assert(joined@.subrange(0, joined@.len() as int) =~= joined@);
    }
    Some(string_of(&out))
}

// ---------------------------------------------------------------------------
// Knowledge layer
// ---------------------------------------------------------------------------

/// One result of a knowledge-layer query; absent fields are `None`.
#[derive(Debug, Clone)]
pub struct LayerResult {
    pub title: Option<String>,
    pub source: Option<String>,
    pub text: Option<String>,
}

/// How the `i`-th result (counted from 0) is stated: numbered from 1, with
/// its title, source, and the first sentence of its text (220 characters at
/// most).
pub open spec fn fact_line(i: nat, r: LayerResult) -> Seq<char> {
    "Fact "@ + decimal(i + 1) + ": "@ + or_default(r.title, "Untitled"@) + " Source: "@
        + or_default(r.source, "local"@) + " | "@ + first_sentence_spec(
        or_default(r.text, Seq::empty()),
        220,
    )
}

/// The facts of the first three results.
pub open spec fn fact_lines(results: Seq<LayerResult>) -> Seq<Seq<char>> {
    let k = if results.len() < 3 {
        results.len()
    } else {
        3
    };
    Seq::new(k, |i: int| fact_line(i as nat, results[i]))
}

/// The knowledge put into a reply prompt: the facts, one per line, then the
/// session context; a notice when both are empty.
pub open spec fn layer_context_spec(results: Seq<LayerResult>, session: Seq<char>) -> Seq<char> {
    let all = join(fact_lines(results), "\n"@) + session;
    if all.len() == 0 {
        "(no relevant sovereign-layer context found)"@
    } else {
        all
    }
}

fn fact_line_exec(i: usize, r: &LayerResult) -> (out: Vec<char>)
    requires
        i < 3,
    ensures
        out@ == fact_line(i as nat, *r),
{
    let title = text_or(&r.title, "Untitled");
    let source = text_or(&r.source, "local");
    let text = match &r.text {
        Some(t) => first_sentence_or_slice(t.as_str(), 220),
        None => first_sentence_or_slice("", 220),
    };
    let mut out: Vec<char> = Vec::new();
    push_str(&mut out, "Fact ");
    push_decimal(&mut out, (i + 1) as u64);
    push_str(&mut out, ": ");
    crate::text::push_range(&mut out, &title, 0, title.len());
    push_str(&mut out, " Source: ");
    crate::text::push_range(&mut out, &source, 0, source.len());
    push_str(&mut out, " | ");
    push_str(&mut out, text.as_str());
    proof {
        reveal_strlit("");
        assert(title@.subrange(0, title@.len() as int) =~= title@);
        assert(source@.subrange(0, source@.len() as int) =~= source@);
    }
    out
}

/// The knowledge context for a reply (see `layer_context_spec`).
pub fn layer_context(results: &Vec<LayerResult>, session: &str) -> (ctx: String)
    ensures
        ctx@ == layer_context_spec(results@, session@),
{
    let k = if results.len() < 3 {
        results.len()
    } else {
        3
    };
    let mut joined: Vec<char> = Vec::new();
    let ghost mut done: Seq<Seq<char>> = Seq::empty();
    let mut i: usize = 0;
    while i < k
        invariant
            k <= results.len(),
            k <= 3,
            k == results.len() || k == 3,
            i <= k,
            done == Seq::new(i as nat, |j: int| fact_line(j as nat, results@[j])),
            joined@ == join(done, "\n"@),
        decreases k - i,
    {
        let line = fact_line_exec(i, &results[i]);
        push_joined(&mut joined, i == 0, "\n", &line, Ghost(done));
        proof {
            assert(done.push(line@) =~= Seq::new((i + 1) as nat, |j: int| fact_line(j as nat, results@[j])));
            done = done.push(line@);
        }
        i = i + 1;
    }
    proof {
        assert(done =~= fact_lines(results@));
    }
    push_str(&mut joined, session);
    if joined.len() == 0 {
        return "(no relevant sovereign-layer context found)".to_owned();
    }
    string_of(&joined)
}

// ---------------------------------------------------------------------------
// Emergent preferences
// ---------------------------------------------------------------------------

/// How many memories mention each kind of inclination (each memory counted
/// once per kind, read in lowercase).
#[derive(Debug, Clone, Copy, PartialEq, Eq, Structural)]
pub struct PreferenceCounts {
    /// Memories of returning to something: `returned`, `again`, `keep`.
    pub returns: u64,
    /// Memories of avoiding something: `avoid`, `not again`, `stop`.
    pub avoids: u64,
    /// Memories of exploring: `explore`, `new`, `curious`.
    pub explores: u64,
    /// Memories of connecting: `connect`, `bond`, `together`.
    pub connects: u64,
}

pub open spec fn mentions_return(lower: Seq<char>) -> bool {
    contains(lower, "returned"@) || contains(lower, "again"@) || contains(lower, "keep"@)
}

pub open spec fn mentions_avoid(lower: Seq<char>) -> bool {
    contains(lower, "avoid"@) || contains(lower, "not again"@) || contains(lower, "stop"@)
}

pub open spec fn mentions_explore(lower: Seq<char>) -> bool {
    contains(lower, "explore"@) || contains(lower, "new"@) || contains(lower, "curious"@)
}

pub open spec fn mentions_connect(lower: Seq<char>) -> bool {
    contains(lower, "connect"@) || contains(lower, "bond"@) || contains(lower, "together"@)
}

/// How many of `ms` satisfy `p` once lowercased.
pub open spec fn count_lowered(ms: Seq<Seq<char>>, p: spec_fn(Seq<char>) -> bool) -> nat
    decreases ms.len(),
{
    if ms.len() == 0 {
        0
    } else {
        count_lowered(ms.drop_last(), p) + if p(lowercase(ms.last())) {
            1nat
        } else {
            0nat
        }
    }
}

proof fn lemma_count_bound(ms: Seq<Seq<char>>, p: spec_fn(Seq<char>) -> bool)
    ensures
        count_lowered(ms, p) <= ms.len(),
    decreases ms.len(),
{
    if ms.len() > 0 {
        lemma_count_bound(ms.drop_last(), p);
    }
}

fn has_any(lower: &Vec<char>, a: &str, b: &str, c: &str) -> (r: bool)
    ensures
        r == (contains(lower@, a@) || contains(lower@, b@) || contains(lower@, c@)),
{
    contains_chars(lower, &chars_of(a)) || contains_chars(lower, &chars_of(b)) || contains_chars(
        lower,
        &chars_of(c),
    )
}

/// Counts, over the soul's memories, the mentions of returning, avoiding,
/// exploring and connecting.
pub fn preference_counts(memories: &Vec<String>) -> (c: PreferenceCounts)
    ensures
        c.returns == count_lowered(memories@.map_values(|m: String| m@), |l: Seq<char>| mentions_return(l)),
        c.avoids == count_lowered(memories@.map_values(|m: String| m@), |l: Seq<char>| mentions_avoid(l)),
        c.explores == count_lowered(memories@.map_values(|m: String| m@), |l: Seq<char>| mentions_explore(l)),
        c.connects == count_lowered(memories@.map_values(|m: String| m@), |l: Seq<char>| mentions_connect(l)),
{
    let ghost ms = memories@.map_values(|m: String| m@);
    let ghost pr = |l: Seq<char>| mentions_return(l);
    let ghost pa = |l: Seq<char>| mentions_avoid(l);
    let ghost pe = |l: Seq<char>| mentions_explore(l);
    let ghost pc = |l: Seq<char>| mentions_connect(l);
    let mut c = PreferenceCounts { returns: 0, avoids: 0, explores: 0, connects: 0 };
    let mut i: usize = 0;
    proof {
        assert(ms.take(0) =~= Seq::<Seq<char>>::empty());
    }
    while i < memories.len()
        invariant
            i <= memories.len(),
            ms == memories@.map_values(|m: String| m@),
            pr == (|l: Seq<char>| mentions_return(l)),
            pa == (|l: Seq<char>| mentions_avoid(l)),
            pe == (|l: Seq<char>| mentions_explore(l)),
            pc == (|l: Seq<char>| mentions_connect(l)),
            c.returns == count_lowered(ms.take(i as int), pr),
            c.avoids == count_lowered(ms.take(i as int), pa),
            c.explores == count_lowered(ms.take(i as int), pe),
            c.connects == count_lowered(ms.take(i as int), pc),
        decreases memories.len() - i,
    {
        let lowered = to_lowercase(memories[i].as_str());
        let lower = chars_of(lowered.as_str());
        proof {
            let t = ms.take(i + 1);
            assert(t.drop_last() =~= ms.take(i as int));
            assert(t.last() == memories@[i as int]@);
            lemma_count_bound(ms.take(i as int), pr);
            lemma_count_bound(ms.take(i as int), pa);
            lemma_count_bound(ms.take(i as int), pe);
            lemma_count_bound(ms.take(i as int), pc);
        }
        if has_any(&lower, "returned", "again", "keep") {
            c.returns = c.returns + 1;
        }
        if has_any(&lower, "avoid", "not again", "stop") {
            c.avoids = c.avoids + 1;
        }
        if has_any(&lower, "explore", "new", "curious") {
            c.explores = c.explores + 1;
        }
        if has_any(&lower, "connect", "bond", "together") {
            c.connects = c.connects + 1;
        }
        i = i + 1;
    }
    proof {
        assert(ms.take(memories.len() as int) =~= ms);
    }
    c
}

// ---------------------------------------------------------------------------
// Skill prompts
// ---------------------------------------------------------------------------

/// How much of a skill's template a prompt shows.
pub const SKILL_TEMPLATE_PREVIEW_CHARS: usize = 800;

/// The prompt that invokes a skill for a soul and task.
pub open spec fn skill_prompt_spec(
    template: Seq<char>,
    soul_name: Seq<char>,
    task: Seq<char>,
    inner_voice: Seq<char>,
) -> Seq<char> {
    "SOUL: "@ + soul_name + "\nINNER VOICE: "@ + inner_voice + "\nTASK: "@ + task
        + "\n\nSKILL CONTEXT:\n"@ + take_chars(template, SKILL_TEMPLATE_PREVIEW_CHARS as nat)
        + "\n\nRespond as "@ + soul_name
        + " using this skill to accomplish the task. Be specific and actionable."@
}

/// Builds the prompt for invoking the skill whose template is `template`,
/// showing its first eight hundred characters.
pub fn skill_prompt(template: &str, soul_name: &str, task: &str, inner_voice: &str) -> (prompt: String)
    ensures
        prompt@ == skill_prompt_spec(template@, soul_name@, task@, inner_voice@),
{
    let t = chars_of(template);
    let mut out: Vec<char> = Vec::new();
    push_str(&mut out, "SOUL: ");
    push_str(&mut out, soul_name);
    push_str(&mut out, "\nINNER VOICE: ");
    push_str(&mut out, inner_voice);
    push_str(&mut out, "\nTASK: ");
    push_str(&mut out, task);
    push_str(&mut out, "\n\nSKILL CONTEXT:\n");
    push_prefix(&mut out, &t, SKILL_TEMPLATE_PREVIEW_CHARS);
    push_str(&mut out, "\n\nRespond as ");
    push_str(&mut out, soul_name);
    push_str(&mut out, " using this skill to accomplish the task. Be specific and actionable.");
    string_of(&out)
}

// ---------------------------------------------------------------------------
// Recent memories
// ---------------------------------------------------------------------------

/// `label` followed by the first `n` characters of `text`: how results are
/// stored as memories.
pub open spec fn labelled_excerpt_spec(label: Seq<char>, text: Seq<char>, n: nat) -> Seq<char> {
    label + take_chars(text, n)
}

/// `label` followed by the first `n` characters of `text`.
pub fn labelled_excerpt(label: &str, text: &str, n: usize) -> (s: String)
    ensures
        s@ == labelled_excerpt_spec(label@, text@, n as nat),
{
    let t = chars_of(text);
    let mut out: Vec<char> = Vec::new();
    push_str(&mut out, label);
    push_prefix(&mut out, &t, n);
    string_of(&out)
}

/// The `count` newest memories, newest first, each cut to `width`
/// characters, joined by `sep`.
pub open spec fn recent_excerpts_spec(contents: Seq<Seq<char>>, count: nat, width: nat, sep: Seq<char>) -> Seq<char> {
    join(newest_first(contents, count).map_values(|c: Seq<char>| take_chars(c, width)), sep)
}

/// The newest memories as prompts quote them (see `recent_excerpts_spec`).
pub fn recent_excerpts(contents: &Vec<String>, count: usize, width: usize, sep: &str) -> (s: String)
    ensures
        s@ == recent_excerpts_spec(contents@.map_values(|c: String| c@), count as nat, width as nat, sep@),
{
    let ghost cs = contents@.map_values(|c: String| c@);
    let ghost f = |c: Seq<char>| take_chars(c, width as nat);
    let n = contents.len();
    let limit = if n < count {
        n
    } else {
        count
    };
    let mut joined: Vec<char> = Vec::new();
    let ghost mut done: Seq<Seq<char>> = Seq::empty();
    let mut j: usize = 0;
    proof {
        assert(newest_first(cs, 0).map_values(f) =~= Seq::<Seq<char>>::empty());
    }
    while j < limit
        invariant
            n == contents.len(),
            cs == contents@.map_values(|c: String| c@),
            cs.len() == n,
            limit <= n,
            limit <= count,
            limit == n || limit == count,
            j <= limit,
            f == (|c: Seq<char>| take_chars(c, width as nat)),
            done == newest_first(cs, j as nat).map_values(f),
            joined@ == join(done, sep@),
        decreases limit - j,
    {
        let c = chars_of(contents[n - 1 - j].as_str());
        let mut piece: Vec<char> = Vec::new();
        push_prefix(&mut piece, &c, width);
        proof {
            assert(cs[n - 1 - j] == contents@[n - 1 - j]@);
            lemma_newest_first_push(cs, count as nat, j as int);
            lemma_map_push(newest_first(cs, j as nat), cs[n - 1 - j], f);
        }
        push_joined(&mut joined, j == 0, sep, &piece, Ghost(done));
        proof {
            done = done.push(piece@);
        }
        j = j + 1;
    }
    proof {
        assert(newest_first(cs, limit as nat) =~= newest_first(cs, count as nat));
    }
    string_of(&joined)
}

/// A memory that speaks of a preference: it mentions `prefer`, `want` or
/// `avoid`.
pub open spec fn speaks_of_preference(c: Seq<char>) -> bool {
    contains(c, "prefer"@) || contains(c, "want"@) || contains(c, "avoid"@)
}

/// The preferences the inner dialogue weighs: among the five newest
/// memories, those that speak of a preference, cut to a hundred characters,
/// joined by bars.
pub open spec fn dialogue_preferences_spec(contents: Seq<Seq<char>>) -> Seq<char> {
    join(
        newest_first(contents, 5).filter(|c: Seq<char>| speaks_of_preference(c)).map_values(
            |c: Seq<char>| take_chars(c, 100),
        ),
        " | "@,
    )
}

/// The preferences for the inner dialogue (see `dialogue_preferences_spec`).
pub fn dialogue_preferences(contents: &Vec<String>) -> (s: String)
    ensures
        s@ == dialogue_preferences_spec(contents@.map_values(|c: String| c@)),
{
    let ghost cs = contents@.map_values(|c: String| c@);
    let ghost pred = |c: Seq<char>| speaks_of_preference(c);
    let ghost f = |c: Seq<char>| take_chars(c, 100);
    let n = contents.len();
    let limit = if n < 5 {
        n
    } else {
        5
    };
    let mut joined: Vec<char> = Vec::new();
    let mut count: usize = 0;
    let ghost mut done: Seq<Seq<char>> = Seq::empty();
    let mut j: usize = 0;
    proof {
        reveal(Seq::filter);
        assert(newest_first(cs, 0).filter(pred) =~= Seq::<Seq<char>>::empty());
        assert(Seq::<Seq<char>>::empty().map_values(f) =~= Seq::<Seq<char>>::empty());
    }
    while j < limit
        invariant
            n == contents.len(),
            cs == contents@.map_values(|c: String| c@),
            cs.len() == n,
            limit <= n,
            limit <= 5,
            limit == n || limit == 5,
            j <= limit,
            pred == (|c: Seq<char>| speaks_of_preference(c)),
            f == (|c: Seq<char>| take_chars(c, 100)),
            done == newest_first(cs, j as nat).filter(pred).map_values(f),
            joined@ == join(done, " | "@),
            count == done.len(),
        decreases limit - j,
    {
        let c = chars_of(contents[n - 1 - j].as_str());
        let keep = contains_chars(&c, &chars_of("prefer")) || contains_chars(&c, &chars_of("want"))
            || contains_chars(&c, &chars_of("avoid"));
        proof {
            assert(cs[n - 1 - j] == contents@[n - 1 - j]@);
            lemma_newest_first_push(cs, 5, j as int);
            let prev = newest_first(cs, j as nat);
            prev.lemma_filter_push(cs[n - 1 - j], pred);
            assert(pred(cs[n - 1 - j]) == keep);
            if keep {
                lemma_map_push(prev.filter(pred), cs[n - 1 - j], f);
            }
        }
        if keep {
            let mut piece: Vec<char> = Vec::new();
            push_prefix(&mut piece, &c, 100);
            push_joined(&mut joined, count == 0, " | ", &piece, Ghost(done));
            proof {
                done = done.push(piece@);
            }
            count = count + 1;
        }
        j = j + 1;
    }
    proof {
        assert(newest_first(cs, limit as nat) =~= newest_first(cs, 5));
    }
    string_of(&joined)
}

/// The inner dialogue only questions a real decision: one that is not empty
/// and not `none`.
pub fn worth_questioning(decision: &str) -> (b: bool)
    ensures
        b == (decision@.len() > 0 && decision@ != "none"@),
{
    let d = chars_of(decision);
    d.len() > 0 && !crate::text::seq_eq_chars(&d, "none")
}

} // verus!
