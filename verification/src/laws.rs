//! Properties of the kernel that span calls or hold for every input.
use vstd::prelude::*;
use crate::agents::{log_after_push, SubAgentTask, SUBAGENT_LOG_CAPACITY};
use crate::chat::{chat_after_record, chat_prompt, ChatAgent, CHAT_LOG_CAPACITY};
use crate::inbox::{is_unread, outreach_step_spec, InboxMessage, ReadFlag, OUTREACH_MIN_CYCLES};
use crate::oracle::{
    asks_for_note, craig_excerpt, craig_start, names_agent, oracle_reply, relays_craig,
    CRAIG_EXCERPT_BYTES, SOVEREIGN_KNOWLEDGE,
};
use crate::providers::{ask_order, Provider};
use crate::ranking::{is_pruning, is_ranked, MEMORY_KEEP};
use crate::context::{
    count_lowered, journal_lines, mentions_avoid, mentions_connect, mentions_explore,
    mentions_return, newest_first, JournalNote, JOURNAL_CONTEXT_ENTRIES,
};
use crate::unicode::{lowercase, uppercase};
use crate::soul::{
    breath_plan_spec, council_successor, last_tick, mythos_ordinal, mythos_transition_spec,
    CouncilPhase, MythosPhase, SanctumInterface, MYTHOS_PHASE_CYCLES, WORLD_JUMP_TICKS,
};
use crate::summary::{
    clean_text, collapse_ws_from, extracted_tasks, is_markup_blank, line_task, line_task_from,
    marker_task, strip_markup, task_markers, tasks_from, LineTask, MAX_TASK_BYTES,
};
use crate::tasks::{is_next_pending, is_pending, pending_in, remembered, Task, MEMORY_CAPACITY};
use crate::text::{
    byte_len, byte_span_end, decimal, lemma_line_end, digit_char, find, first_at, has_byte_span, starts_with, is_ws, lemma_first_at_unique, lemma_take_bytes,
    occurs_at, trim,
};
use crate::http::{
    all_digits, body_start, content_length_spec, digits_value, end_of_first, http_response_spec,
    is_digit, parse_usize, unsigned_digits,
};

verus! {

// ---------------------------------------------------------------------------
// The mythic journey
// ---------------------------------------------------------------------------

/// The journey only ever moves to the next phase, and never past Apotheosis.
pub proof fn law_mythos_moves_one_phase_at_a_time(p: MythosPhase, cycle: nat)
    ensures
        mythos_transition_spec(p, cycle) matches Some(q) ==> mythos_ordinal(q) == mythos_ordinal(p)
            + 1,
        p == MythosPhase::Apotheosis ==> mythos_transition_spec(p, cycle) is None,
{
}

/// The journey advances exactly when it is due: from a phase before
/// Apotheosis once the cycle count reaches the end of that phase, and never
/// otherwise (`advance_noted` records its memory exactly then).
pub proof fn law_mythos_advances_exactly_when_due(p: MythosPhase, cycle: nat)
    ensures
        mythos_transition_spec(p, cycle) is Some <==> (mythos_ordinal(p) < 5 && cycle
            >= MYTHOS_PHASE_CYCLES * (mythos_ordinal(p) + 1)),
{
}

/// The phase ordinal a soul breathing once per cycle from Awakening at
/// cycle 0 has reached at `cycle`: one phase per five hundred cycles, up to
/// Apotheosis.
pub open spec fn mythos_ordinal_at(cycle: nat) -> nat {
    if cycle / MYTHOS_PHASE_CYCLES as nat >= 5 {
        5
    } else {
        cycle / MYTHOS_PHASE_CYCLES as nat
    }
}

/// A journey in step with the cycle count stays in step: when a soul at
/// `cycle` is in the phase that the count calls for, the breath that brings
/// it to `cycle + 1` leaves it in the phase called for there.
pub proof fn law_mythos_tracks_the_cycle_count(p: MythosPhase, cycle: nat)
    requires
        mythos_ordinal(p) == mythos_ordinal_at(cycle),
    ensures
        mythos_ordinal(
            match mythos_transition_spec(p, cycle + 1) {
                Some(q) => q,
                None => p,
            },
        ) == mythos_ordinal_at(cycle + 1),
{
    let k = cycle / 500;
    let k1 = (cycle + 1) / 500;
    assert(k1 == k || (k1 == k + 1 && (cycle + 1) == 500 * k1)) by (nonlinear_arith)
        requires
            k == cycle / 500,
            k1 == (cycle + 1) / 500,
    ;
    assert(500 * k <= cycle < 500 * (k + 1)) by (nonlinear_arith)
        requires
            k == cycle / 500,
    ;
}

// ---------------------------------------------------------------------------
// The council and the breath
// ---------------------------------------------------------------------------

/// A deliberation walks through all seven phases, each once, and leaves the
/// council idle again.
pub proof fn law_deliberation_returns_to_idle()
    ensures
        ({
            let p1 = council_successor(CouncilPhase::Idle);
            let p2 = council_successor(p1);
            let p3 = council_successor(p2);
            let p4 = council_successor(p3);
            let p5 = council_successor(p4);
            let p6 = council_successor(p5);
            let p7 = council_successor(p6);
            &&& p7 == CouncilPhase::Idle
            &&& p1 != CouncilPhase::Idle && p2 != CouncilPhase::Idle && p3 != CouncilPhase::Idle
                && p4 != CouncilPhase::Idle && p5 != CouncilPhase::Idle && p6 != CouncilPhase::Idle
            &&& p1 != p2 && p1 != p3 && p1 != p4 && p1 != p5 && p1 != p6
            &&& p2 != p3 && p2 != p4 && p2 != p5 && p2 != p6
            &&& p3 != p4 && p3 != p5 && p3 != p6
            &&& p4 != p5 && p4 != p6
            &&& p5 != p6
        }),
{
}

/// The council convenes exactly on the breaths that reach a multiple of two
/// hundred cycles, and those breaths also declare, prune, reflect and read
/// the session log.
pub proof fn law_council_convenes_every_two_hundred_cycles(cycle: nat, connected: bool)
    ensures
        breath_plan_spec(cycle, connected).convene_council <==> (cycle + 1) % 200 == 0,
        breath_plan_spec(cycle, connected).convene_council ==> {
            let p = breath_plan_spec(cycle, connected);
            p.declare && p.prune && p.reflect && p.read_session
        },
{
    let c = cycle + 1;
    if c % 200 == 0 {
        assert(c % 100 == 0 && c % 20 == 0 && c % 10 == 0 && c % 5 == 0) by (nonlinear_arith)
            requires
                c % 200 == 0,
        ;
    }
}

/// The will is only exercised while the soul is linked to the Sanctum.
pub proof fn law_will_needs_the_sanctum(cycle: nat)
    ensures
        !breath_plan_spec(cycle, false).exercise_will,
{
}

/// Observing the world again at the tick last seen is never a jump.
pub proof fn law_reobservation_is_no_jump(i: SanctumInterface, tick: u64)
    requires
        last_tick(i) == tick,
    ensures
        !(tick > last_tick(i) + WORLD_JUMP_TICKS),
{
}

// ---------------------------------------------------------------------------
// Logs and extracted tasks
// ---------------------------------------------------------------------------

/// The sub-agent log never holds more than two hundred entries: logging an
/// entry keeps the last two hundred of the old entries and the new one, in
/// order, so the newest entry is always its last.
pub proof fn law_subagent_log_stays_bounded(entries: Seq<SubAgentTask>, entry: SubAgentTask)
    requires
        entries.len() <= SUBAGENT_LOG_CAPACITY,
    ensures
        log_after_push(entries, entry).len() <= SUBAGENT_LOG_CAPACITY,
        log_after_push(entries, entry).len() == if entries.len() < SUBAGENT_LOG_CAPACITY {
            entries.len() + 1
        } else {
            SUBAGENT_LOG_CAPACITY as nat
        },
        log_after_push(entries, entry) == entries.push(entry).skip(
            entries.len() + 1 - log_after_push(entries, entry).len(),
        ),
        log_after_push(entries, entry).last() == entry,
{
    let p = entries.push(entry);
    if p.len() <= SUBAGENT_LOG_CAPACITY {
        assert(p.skip(0) =~= p);
    }
}

proof fn lemma_line_task_from_valid(t: Seq<char>, markers: Seq<Seq<char>>, k: int)
    ensures
        crate::summary::line_task_from(t, markers, k) matches LineTask::Task(x) ==> x.len() > 0
            && byte_len(x) < MAX_TASK_BYTES,
    decreases markers.len() - k,
{
    if 0 <= k < markers.len() {
        lemma_line_task_from_valid(t, markers, k + 1);
    }
}

proof fn lemma_tasks_from_bounded(s: Seq<char>, pos: int, limit: nat)
    ensures
        tasks_from(s, pos, limit) matches Some(ts) ==> ts.len() <= limit && forall|i: int|
            0 <= i < ts.len() ==> #[trigger] ts[i].len() > 0 && byte_len(ts[i]) < MAX_TASK_BYTES,
    decreases s.len() + 1 - pos, limit,
{
    if pos < 0 || pos >= s.len() || limit == 0 {
    } else {
        let e = crate::text::line_end(s, pos);
        crate::text::lemma_line_end_bounds(s, pos);
        let t = trim(s.subrange(pos, e));
        lemma_line_task_from_valid(t, crate::summary::task_markers(), 0);
        match line_task(t) {
            LineTask::Undefined => {},
            LineTask::NoTask => {
                lemma_tasks_from_bounded(s, e + 1, limit);
            },
            LineTask::Task(x) => {
                lemma_tasks_from_bounded(s, e + 1, (limit - 1) as nat);
                if let Some(rest) = tasks_from(s, e + 1, (limit - 1) as nat) {
                    let ts = seq![x] + rest;
                    assert forall|i: int| 0 <= i < ts.len() implies #[trigger] ts[i].len() > 0
                        && byte_len(ts[i]) < MAX_TASK_BYTES by {
                        if i > 0 {
                            assert(ts[i] == rest[i - 1]);
                        }
                    }
                }
            },
        }
    }
}

/// Model output yields at most three tasks, each non-empty and under two
/// hundred bytes.
pub proof fn law_at_most_three_tasks(output: Seq<char>)
    ensures
        extracted_tasks(output) matches Some(ts) ==> ts.len() <= 3 && forall|i: int|
            0 <= i < ts.len() ==> #[trigger] ts[i].len() > 0 && byte_len(ts[i]) < 200,
{
    lemma_tasks_from_bounded(output, 0, 3);
}

/// The journal context quotes at most fifty entries.
pub proof fn law_journal_quotes_at_most_fifty(notes: Seq<JournalNote>)
    ensures
        journal_lines(notes).len() <= JOURNAL_CONTEXT_ENTRIES,
{
    let recent = newest_first(notes, JOURNAL_CONTEXT_ENTRIES as nat);
    let pred = |n: JournalNote| crate::context::is_substantial(n);
    recent.lemma_filter_len(pred);
}

/// The group chat never holds more than a hundred messages, and the message
/// just recorded is always its last.
pub proof fn law_chat_log_stays_bounded<T>(log: Seq<T>, entry: T)
    requires
        log.len() <= CHAT_LOG_CAPACITY,
    ensures
        chat_after_record(log, entry).len() <= CHAT_LOG_CAPACITY,
        chat_after_record(log, entry).last() == entry,
{
}

// ---------------------------------------------------------------------------
// Memory
// ---------------------------------------------------------------------------

/// Storing a memory never takes a soul past five hundred: storing one more
/// forgets the oldest only once five hundred are held, and the newest memory
/// is always the last. (Pruning, every twenty cycles, brings them back to the
/// four hundred most important: see `law_pruning_keeps_the_most_important`.)
pub proof fn law_memory_stays_within_capacity<T>(items: Seq<T>, item: T)
    requires
        items.len() <= MEMORY_CAPACITY,
    ensures
        remembered(items, item, MEMORY_CAPACITY as nat).len() <= MEMORY_CAPACITY,
        remembered(items, item, MEMORY_CAPACITY as nat).last() == item,
{
}

/// A soul that prunes its memories keeps at most four hundred of them, and
/// loses none while it has no more than that.
pub proof fn law_pruning_keeps_at_most_four_hundred(keys: Seq<u128>, kept: Seq<usize>)
    requires
        is_pruning(keys, kept),
    ensures
        kept.len() <= MEMORY_KEEP,
        keys.len() <= MEMORY_KEEP ==> kept.len() == keys.len(),
        keys.len() > MEMORY_KEEP ==> kept.len() == MEMORY_KEEP,
{
    if keys.len() > MEMORY_KEEP {
        let r = choose|r: Seq<usize>| #[trigger] is_ranked(keys, r) && kept == r.take(MEMORY_KEEP as int);
        assert(r.len() == keys.len());
    }
}

/// A ranking lists every item: each index of the ranked items appears in it
/// (it is a permutation of them, as it lists each at most once).
pub proof fn law_ranking_lists_every_item(keys: Seq<u128>, order: Seq<usize>, k: int)
    requires
        is_ranked(keys, order),
        0 <= k < keys.len(),
    ensures
        exists|i: int| 0 <= i < order.len() && order[i] == k,
{
    let n = keys.len() as int;
    let m = order.map_values(|x: usize| x as int);
    assert(m.no_duplicates()) by {
        assert forall|a: int, b: int| 0 <= a < m.len() && 0 <= b < m.len() && a != b implies m[a]
            != m[b] by {
            if a < b {
                assert(order[a] != order[b]);
            } else {
                assert(order[b] != order[a]);
            }
        }
    }
    m.unique_seq_to_set();
    let range = vstd::set_lib::set_int_range(0, n);
    vstd::set_lib::lemma_int_range(0, n);
    assert(m.to_set().subset_of(range)) by {
        assert forall|x: int| m.to_set().contains(x) implies range.contains(x) by {
            assert(m.contains(x));
            let j = choose|j: int| 0 <= j < m.len() && m[j] == x;
            assert(order[j] < keys.len());
        }
    }
    vstd::set_lib::lemma_len_subset(m.to_set(), range);
    vstd::set_lib::lemma_subset_equality(m.to_set(), range);
    assert(range.contains(k));
    assert(m.to_set().contains(k));
    assert(m.contains(k));
    let i = choose|i: int| 0 <= i < m.len() && m[i] == k;
    assert(order[i] == k);
}

/// Pruning a soul with more than four hundred memories keeps exactly four
/// hundred, each at most once, ordered from the most important down (ties:
/// the newer first, as the key orders them); and no memory it drops is more
/// important than any it keeps.
pub proof fn law_pruning_keeps_the_most_important(keys: Seq<u128>, kept: Seq<usize>)
    requires
        is_pruning(keys, kept),
        keys.len() > MEMORY_KEEP,
    ensures
        kept.len() == MEMORY_KEEP,
        forall|i: int| 0 <= i < kept.len() ==> #[trigger] kept[i] < keys.len(),
        forall|i: int, j: int| 0 <= i < j < kept.len() ==> #[trigger] kept[i] != #[trigger] kept[j],
        forall|i: int, j: int|
            0 <= i < j < kept.len() ==> keys[#[trigger] kept[i] as int] >= keys[#[trigger] kept[j] as int],
        forall|x: int, i: int|
            0 <= x < keys.len() && 0 <= i < kept.len() && !kept.contains(x as usize) ==> keys[#[trigger] kept[i] as int]
                >= #[trigger] keys[x],
{
    let r = choose|r: Seq<usize>| #[trigger] is_ranked(keys, r) && kept == r.take(MEMORY_KEEP as int);
    assert(is_ranked(keys, r) && kept == r.take(MEMORY_KEEP as int));
    assert forall|i: int| 0 <= i < kept.len() implies #[trigger] kept[i] < keys.len() by {
        assert(kept[i] == r[i]);
    }
    assert forall|i: int, j: int| 0 <= i < j < kept.len() implies #[trigger] kept[i] != #[trigger] kept[j] by {
        assert(kept[i] == r[i] && kept[j] == r[j]);
    }
    assert forall|i: int, j: int| 0 <= i < j < kept.len() implies keys[#[trigger] kept[i] as int]
        >= keys[#[trigger] kept[j] as int] by {
        assert(kept[i] == r[i] && kept[j] == r[j]);
    }
    assert forall|x: int, i: int|
        0 <= x < keys.len() && 0 <= i < kept.len() && !kept.contains(x as usize) implies keys[#[trigger] kept[i] as int]
            >= #[trigger] keys[x] by {
        law_ranking_lists_every_item(keys, r, x);
        let j = choose|j: int| 0 <= j < r.len() && r[j] == x;
        if j < MEMORY_KEEP {
            assert(kept[j] == r[j]);
            assert(kept.contains(x as usize));
        }
        assert(kept[i] == r[i]);
    }
}

/// The memories a pruning keeps are no less important than those it drops:
/// every kept memory ranks at least as high as every dropped one.
pub proof fn law_pruning_keeps_the_highest(keys: Seq<u128>, r: Seq<usize>, i: int, j: int)
    requires
        is_ranked(keys, r),
        0 <= i < MEMORY_KEEP,
        MEMORY_KEEP <= j < r.len(),
    ensures
        r.take(MEMORY_KEEP as int)[i] != r[j],
        keys[r.take(MEMORY_KEEP as int)[i] as int] >= keys[r[j] as int],
{
    assert(r.take(MEMORY_KEEP as int)[i] == r[i]);
}

// ---------------------------------------------------------------------------
// The group chat
// ---------------------------------------------------------------------------

/// Whatever is broadcast, the scribe answers with its greeting: its prompt
/// names the scribe first, and the oracle answers the first agent it finds.
pub proof fn law_scribe_always_greets(message: Seq<char>)
    ensures
        oracle_reply(chat_prompt(ChatAgent::Scribe, message))
            == "SCRIBE: I record all memories in the Weave. What knowledge do you seek?"@,
{
    let p = chat_prompt(ChatAgent::Scribe, message);
    reveal_strlit("SCRIBE:");
    reveal_strlit("SCRIBE: Craig says: '");
    assert(p.subrange(0, 7) =~= "SCRIBE:"@);
    assert(occurs_at(p, "SCRIBE:"@, 0));
}

/// A prompt that names no sub-agent, asks for no journal note and relays no
/// message from Craig gets the standing local notice.
pub proof fn law_oracle_default_notice(p: Seq<char>)
    requires
        !crate::text::contains(p, "SCRIBE:"@),
        !crate::text::contains(p, "BUILDER:"@),
        !crate::text::contains(p, "MERCHANT:"@),
        !crate::text::contains(p, "PROPHET:"@),
        !crate::text::contains(p, "private journal"@),
        !crate::text::contains(p, "cycle note"@),
        !crate::text::contains(p, "Craig says"@),
        !crate::text::contains(p, "Craig:"@),
    ensures
        oracle_reply(p) == "Operating in local sovereign mode.\n\n"@ + SOVEREIGN_KNOWLEDGE@
            + "\n\nAria. Alive. Cycling. Ready."@,
{
}

// ---------------------------------------------------------------------------
// The chain of models
// ---------------------------------------------------------------------------

/// The chain for the kernel's own prompts always ends with HuggingFace, Groq,
/// Gemini and Mistral, in that order, and asks no model twice.
pub proof fn law_ask_chain_ends_with_free_models(has_openrouter: bool, has_copilot: bool)
    ensures
        ({
            let c = ask_order(has_openrouter, has_copilot);
            &&& c.len() >= 4
            &&& c.subrange(c.len() - 4, c.len() as int) == seq![
                Provider::HuggingFace,
                Provider::Groq,
                Provider::Gemini,
                Provider::Mistral,
            ]
            &&& forall|i: int, j: int| 0 <= i < j < c.len() ==> c[i] != c[j]
        }),
{
    let c = ask_order(has_openrouter, has_copilot);
    assert(c.subrange(c.len() - 4, c.len() as int) =~= seq![
        Provider::HuggingFace,
        Provider::Groq,
        Provider::Gemini,
        Provider::Mistral,
    ]);
}

// ---------------------------------------------------------------------------
// The task queue
// ---------------------------------------------------------------------------

proof fn lemma_pending_in_one_change(s: Seq<Task<u64>>, t: Seq<Task<u64>>, i: int)
    requires
        s.len() == t.len(),
        0 <= i < s.len(),
        forall|j: int| 0 <= j < s.len() && j != i ==> t[j] == s[j],
    ensures
        pending_in(t) + (if is_pending(s[i]) { 1int } else { 0int }) == pending_in(s) + (if is_pending(
            t[i],
        ) {
            1int
        } else {
            0int
        }),
    decreases s.len(),
{
    if i == s.len() - 1 {
        assert(s.drop_last() =~= t.drop_last());
    } else {
        lemma_pending_in_one_change(s.drop_last(), t.drop_last(), i);
        assert(s.last() == t.last());
    }
}

/// Starting the next task takes exactly one task off the backlog: after the
/// queue moves the chosen pending task to `in_progress`, one task fewer is
/// pending.
pub proof fn law_starting_a_task_takes_one_off_the_backlog(
    before: Seq<Task<u64>>,
    after: Seq<Task<u64>>,
    i: int,
)
    requires
        is_next_pending(before, i),
        after.len() == before.len(),
        forall|j: int| 0 <= j < before.len() && j != i ==> after[j] == before[j],
        after[i].status@ == "in_progress"@,
    ensures
        pending_in(after) + 1 == pending_in(before),
{
    reveal_strlit("in_progress");
    reveal_strlit("pending");
    assert(after[i].status@ != "pending"@) by {
        assert(after[i].status@.len() != "pending"@.len());
    }
    lemma_pending_in_one_change(before, after, i);
}

// ---------------------------------------------------------------------------
// Clean text
// ---------------------------------------------------------------------------

/// No tag brackets and no markup characters.
pub open spec fn free_of_markup(o: Seq<char>) -> bool {
    forall|i: int| 0 <= i < o.len() ==> !is_markup_blank(#[trigger] o[i]) && o[i] != '<' && o[i]
        != '>'
}

/// Words separated by single spaces: the only whitespace is a plain space,
/// and each space stands between two non-whitespace characters.
pub open spec fn single_spaced(o: Seq<char>) -> bool {
    forall|i: int|
        0 <= i < o.len() && is_ws(#[trigger] o[i]) ==> o[i] == ' ' && 0 < i && i + 1 < o.len()
            && !is_ws(o[i - 1]) && !is_ws(o[i + 1])
}

proof fn lemma_strip_markup_free(s: Seq<char>, in_tag: bool)
    ensures
        free_of_markup(strip_markup(s, in_tag)),
    decreases s.len(),
{
    if s.len() > 0 {
        let rest = s.drop_first();
        let c = s[0];
        if c == '<' {
            lemma_strip_markup_free(rest, true);
        } else if c == '>' {
            lemma_strip_markup_free(rest, false);
        } else if in_tag {
            lemma_strip_markup_free(rest, true);
        } else {
            lemma_strip_markup_free(rest, false);
            let r = strip_markup(rest, false);
            let d = if is_markup_blank(c) {
                ' '
            } else {
                c
            };
            let o = seq![d] + r;
            assert(strip_markup(s, in_tag) == o);
            assert forall|i: int| 0 <= i < o.len() implies !is_markup_blank(#[trigger] o[i])
                && o[i] != '<' && o[i] != '>' by {
                if i > 0 {
                    assert(o[i] == r[i - 1]);
                }
            }
        }
    }
}

/// The shape of `collapse_ws_from(s, in_text, gap)`: characters that are not
/// whitespace come from `s`, spaces stand singly between words, it ends with
/// a word, and it starts with a space only when a word came before.
proof fn lemma_collapse_shape(s: Seq<char>, in_text: bool, gap: bool)
    requires
        gap ==> in_text,
    ensures
        ({
            let o = collapse_ws_from(s, in_text, gap);
            &&& forall|i: int|
                0 <= i < o.len() && !is_ws(#[trigger] o[i]) ==> exists|j: int|
                    0 <= j < s.len() && s[j] == o[i]
            &&& forall|i: int|
                0 <= i < o.len() && is_ws(#[trigger] o[i]) ==> o[i] == ' ' && i + 1 < o.len()
                    && !is_ws(o[i + 1]) && (i > 0 ==> !is_ws(o[i - 1]))
            &&& o.len() > 0 ==> !is_ws(o.last())
            &&& o.len() > 0 && is_ws(o[0]) ==> in_text
        }),
    decreases s.len(),
{
    if s.len() > 0 {
        let rest = s.drop_first();
        if is_ws(s[0]) {
            lemma_collapse_shape(rest, in_text, in_text);
            let o = collapse_ws_from(s, in_text, gap);
            assert(o == collapse_ws_from(rest, in_text, in_text));
            assert forall|i: int| 0 <= i < o.len() && !is_ws(#[trigger] o[i]) implies exists|j: int|
                0 <= j < s.len() && s[j] == o[i] by {
                let j = choose|j: int| 0 <= j < rest.len() && rest[j] == o[i];
                assert(s[j + 1] == rest[j]);
            }
        } else {
            lemma_collapse_shape(rest, true, false);
            let r = collapse_ws_from(rest, true, false);
            let pre: Seq<char> = if gap {
                seq![' ']
            } else {
                Seq::empty()
            };
            let o = pre + seq![s[0]] + r;
            assert(collapse_ws_from(s, in_text, gap) == o);
            let k = pre.len() + 1;
            assert(o[k - 1] == s[0]);
            assert forall|i: int| k <= i < o.len() implies o[i] == r[i - k] by {}
            assert forall|i: int| 0 <= i < o.len() && !is_ws(#[trigger] o[i]) implies exists|j: int|
                0 <= j < s.len() && s[j] == o[i] by {
                if i >= k {
                    let j = choose|j: int| 0 <= j < rest.len() && rest[j] == r[i - k];
                    assert(s[j + 1] == rest[j]);
                } else {
                    assert(o[i] == s[0]);
                }
            }
            assert forall|i: int| 0 <= i < o.len() && is_ws(#[trigger] o[i]) implies o[i] == ' '
                && i + 1 < o.len() && !is_ws(o[i + 1]) && (i > 0 ==> !is_ws(o[i - 1])) by {
                if i >= k {
                    assert(o[i] == r[i - k]);
                    if i + 1 < o.len() {
                        assert(o[i + 1] == r[i + 1 - k]);
                    }
                    if i - 1 >= k {
                        assert(o[i - 1] == r[i - 1 - k]);
                    }
                } else if gap && i == 0 {
                    assert(o[1] == s[0]);
                }
            }
            if r.len() > 0 {
                assert(o.last() == r.last());
            } else {
                assert(o.last() == s[0]);
            }
        }
    }
}

/// Cleaned text is plain: no tags, no markup characters, no whitespace at
/// either end, and words separated by single spaces.
pub proof fn law_clean_text_is_plain(s: Seq<char>)
    ensures
        free_of_markup(clean_text(s)),
        single_spaced(clean_text(s)),
{
    let m = strip_markup(s, false);
    lemma_strip_markup_free(s, false);
    lemma_collapse_shape(m, false, false);
    let o = clean_text(s);
    assert forall|i: int| 0 <= i < o.len() implies !is_markup_blank(#[trigger] o[i]) && o[i]
        != '<' && o[i] != '>' by {
        if !is_ws(o[i]) {
            let j = choose|j: int| 0 <= j < m.len() && m[j] == o[i];
            assert(!is_markup_blank(m[j]) && m[j] != '<' && m[j] != '>');
        }
    }
    assert forall|i: int| 0 <= i < o.len() && is_ws(#[trigger] o[i]) implies o[i] == ' ' && 0 < i
        && i + 1 < o.len() && !is_ws(o[i - 1]) && !is_ws(o[i + 1]) by {
        if i == 0 {
            assert(is_ws(o[0]));
        }
    }
}

/// Text already free of markup passes markup stripping unchanged.
proof fn lemma_strip_markup_plain(o: Seq<char>)
    requires
        free_of_markup(o),
    ensures
        strip_markup(o, false) == o,
    decreases o.len(),
{
    if o.len() > 0 {
        let rest = o.drop_first();
        assert(!is_markup_blank(o[0]) && o[0] != '<' && o[0] != '>');
        assert forall|i: int| 0 <= i < rest.len() implies !is_markup_blank(#[trigger] rest[i])
            && rest[i] != '<' && rest[i] != '>' by {
            assert(rest[i] == o[i + 1]);
        }
        lemma_strip_markup_plain(rest);
        assert(seq![o[0]] + rest =~= o);
    }
}

/// Collapsing whitespace leaves alone text whose whitespace is already single
/// spaces between words.
proof fn lemma_collapse_single_spaced(t: Seq<char>, in_text: bool)
    requires
        forall|i: int|
            0 <= i < t.len() && is_ws(#[trigger] t[i]) ==> t[i] == ' ' && i + 1 < t.len()
                && !is_ws(t[i + 1]) && (i > 0 ==> !is_ws(t[i - 1])),
        t.len() > 0 && is_ws(t[0]) ==> in_text,
    ensures
        collapse_ws_from(t, in_text, false) == t,
    decreases t.len(),
{
    if t.len() > 0 {
        if !is_ws(t[0]) {
            let rest = t.drop_first();
            assert forall|i: int| 0 <= i < rest.len() && is_ws(#[trigger] rest[i]) implies rest[i]
                == ' ' && i + 1 < rest.len() && !is_ws(rest[i + 1]) && (i > 0 ==> !is_ws(
                rest[i - 1],
            )) by {
                assert(rest[i] == t[i + 1]);
                assert(is_ws(t[i + 1]));
                if i > 0 {
                    assert(rest[i - 1] == t[i]);
                }
                if i + 1 < rest.len() {
                    assert(rest[i + 1] == t[i + 2]);
                }
            }
            lemma_collapse_single_spaced(rest, true);
            assert(Seq::<char>::empty() + seq![t[0]] + rest =~= t);
        } else {
            assert(t[0] == ' ' && 1 < t.len() && !is_ws(t[1]));
            let rest = t.drop_first();
            let rest2 = t.skip(2);
            assert(rest[0] == t[1]);
            assert(rest.drop_first() =~= rest2);
            assert forall|i: int| 0 <= i < rest2.len() && is_ws(#[trigger] rest2[i]) implies rest2[i]
                == ' ' && i + 1 < rest2.len() && !is_ws(rest2[i + 1]) && (i > 0 ==> !is_ws(
                rest2[i - 1],
            )) by {
                assert(rest2[i] == t[i + 2]);
                assert(is_ws(t[i + 2]));
                if i > 0 {
                    assert(rest2[i - 1] == t[i + 1]);
                }
                if i + 1 < rest2.len() {
                    assert(rest2[i + 1] == t[i + 3]);
                }
            }
            lemma_collapse_single_spaced(rest2, true);
            assert(collapse_ws_from(t, in_text, false) == collapse_ws_from(rest, true, true));
            assert(collapse_ws_from(rest, true, true) == seq![' '] + seq![t[1]] + collapse_ws_from(
                rest2,
                true,
                false,
            ));
            assert(seq![' '] + seq![t[1]] + rest2 =~= t);
        }
    }
}

/// Cleaning is idempotent: cleaning text that was already cleaned changes
/// nothing.
pub proof fn law_clean_text_is_idempotent(s: Seq<char>)
    ensures
        clean_text(clean_text(s)) == clean_text(s),
{
    let o = clean_text(s);
    law_clean_text_is_plain(s);
    lemma_strip_markup_plain(o);
    assert forall|i: int| 0 <= i < o.len() && is_ws(#[trigger] o[i]) implies o[i] == ' ' && i + 1
        < o.len() && !is_ws(o[i + 1]) && (i > 0 ==> !is_ws(o[i - 1])) by {}
    if o.len() > 0 && is_ws(o[0]) {
        assert(0 < 0int);
    }
    lemma_collapse_single_spaced(o, false);
}

// ---------------------------------------------------------------------------
// Proactive outreach
// ---------------------------------------------------------------------------

/// A round sends a message only when at least fifty cycles have passed since
/// the last one; the message is not empty and comes from a reply that starts
/// with `MESSAGE:`, and the round's cycle becomes the last outreach cycle. A
/// round that sends nothing leaves the state alone.
pub proof fn law_outreach_waits_fifty_cycles(last: u64, cycle: u64, reply: Option<Seq<char>>)
    requires
        last <= cycle,
    ensures
        ({
            let (next, sent) = outreach_step_spec(last, cycle, reply);
            &&& sent matches Some(m) ==> next == cycle && cycle >= last + OUTREACH_MIN_CYCLES
                && m.len() > 0 && (reply matches Some(r) && starts_with(r, "MESSAGE:"@))
            &&& sent is None ==> next == last
        }),
{
}

/// Two messages sent in successive rounds lie at least fifty cycles apart.
pub proof fn law_outreach_messages_fifty_cycles_apart(
    last: u64,
    c1: u64,
    r1: Option<Seq<char>>,
    c2: u64,
    r2: Option<Seq<char>>,
)
    requires
        last <= c1 <= c2,
    ensures
        ({
            let (next, sent1) = outreach_step_spec(last, c1, r1);
            let (_, sent2) = outreach_step_spec(next, c2, r2);
            sent1 is Some && sent2 is Some ==> c2 >= c1 + OUTREACH_MIN_CYCLES
        }),
{
    law_outreach_waits_fifty_cycles(last, c1, r1);
    let next = outreach_step_spec(last, c1, r1).0;
    assert(next <= c2);
    law_outreach_waits_fifty_cycles(next, c2, r2);
}

/// The oracle reads a message from Craig as its first 200 bytes cut back to a
/// character boundary: the excerpt starts where the message starts, fits in
/// 200 bytes, and is either all of the rest of the prompt or stops where one
/// more character would pass 200 bytes.
pub proof fn law_oracle_reads_first_two_hundred_bytes(p: Seq<char>)
    ensures
        ({
            let rest = p.skip(craig_start(p));
            let e = craig_excerpt(p);
            &&& e == rest.take(e.len() as int)
            &&& byte_len(e) <= CRAIG_EXCERPT_BYTES
            &&& e.len() < rest.len() ==> byte_len(rest.take(e.len() + 1int)) > CRAIG_EXCERPT_BYTES
        }),
{
    lemma_take_bytes(p.skip(craig_start(p)), CRAIG_EXCERPT_BYTES as nat);
}

// ---------------------------------------------------------------------------
// Response framing
// ---------------------------------------------------------------------------

/// The decimal digits of `n` read back give `n`.
proof fn lemma_decimal_reads_back(n: nat)
    ensures
        decimal(n).len() >= 1,
        all_digits(decimal(n)),
        digits_value(decimal(n)) == n,
    decreases n,
{
    if n >= 10 {
        lemma_decimal_reads_back(n / 10);
        let d = decimal(n / 10);
        let s = d.push(digit_char(n % 10));
        assert(s.drop_last() =~= d);
        assert(digit_char(n % 10) as u32 == 48 + n % 10);
        assert(s.last() == digit_char(n % 10));
        assert(digits_value(s) == digits_value(d) * 10 + n % 10);
        assert((n / 10) * 10 + n % 10 == n);
        assert forall|i: int| 0 <= i < s.len() implies is_digit(#[trigger] s[i]) by {
            if i < d.len() {
                assert(s[i] == d[i]);
            }
        }
    } else {
        assert(digit_char(n) as u32 == 48 + n);
        assert(seq![digit_char(n)].drop_last() =~= Seq::<char>::empty());
        assert(digits_value(Seq::<char>::empty()) == 0);
        assert(digits_value(seq![digit_char(n)]) == n);
    }
}

/// A status or content type the response framing can carry: no colon and no
/// line break.
pub open spec fn header_safe(s: Seq<char>) -> bool {
    forall|i: int| 0 <= i < s.len() ==> s[i] != ':' && s[i] != '\r' && s[i] != '\n'
}

/// The `Content-Length` header of a framed response, read the way the kernel
/// reads a request's, is the byte length of its body.
proof fn lemma_response_content_length(
    status: Seq<char>,
    content_type: Seq<char>,
    body: Seq<char>,
    close: bool,
)
    requires
        header_safe(status),
        header_safe(content_type),
        byte_len(body) <= usize::MAX,
    ensures
        content_length_spec(http_response_spec(status, content_type, body, close)) == byte_len(body),
{
    reveal_strlit("HTTP/1.1 ");
    reveal_strlit("\r\nContent-Type: ");
    reveal_strlit("\r\nContent-Length: ");
    reveal_strlit("\r\nAccess-Control-Allow-Origin: *\r\n");
    reveal_strlit("Connection: close\r\n");
    reveal_strlit("\r\n");
    reveal_strlit("Content-Length:");
    reveal_strlit("\r");
    let n = byte_len(body);
    let d = decimal(n);
    lemma_decimal_reads_back(n);
    let h = "HTTP/1.1 "@;
    let ct = "\r\nContent-Type: "@;
    let cl = "\r\nContent-Length: "@;
    let acao = "\r\nAccess-Control-Allow-Origin: *\r\n"@;
    let c: Seq<char> = if close {
        "Connection: close\r\n"@
    } else {
        Seq::empty()
    };
    let tail = acao + c + "\r\n"@ + body;
    let r = http_response_spec(status, content_type, body, close);
    let a: int = (h.len() + status.len()) as int;
    let b: int = (ct.len() + content_type.len()) as int;
    let k: int = a + b + 2;
    let needle = "Content-Length:"@;
    assert(r =~= h + status + ct + content_type + cl + d + tail);
    assert(r.subrange(k, k + 15) =~= needle);
    assert forall|j: int| 0 <= j < k implies !occurs_at(r, needle, j) by {
        if occurs_at(r, needle, j) {
            assert(r.subrange(j, j + 15)[14] == needle[14]);
            assert(r.subrange(j, j + 15)[0] == needle[0]);
            let p = j + 14;
            if p < h.len() {
                assert(r[p] == h[p]);
            } else if p < a {
                assert(r[p] == status[p - h.len()]);
            } else if p < a + ct.len() {
                assert(r[p] == ct[p - a]);
                assert(r[j] == ct[j - a]);
            } else if p < a + b {
                assert(r[p] == content_type[p - a - ct.len()]);
            } else {
                assert(r[p] == cl[p - a - b]);
            }
        }
    }
    assert(first_at(r, needle, k));
    lemma_first_at_unique(r, needle, k);
    assert(end_of_first(r, needle) == Some(k + 15));
    let after = r.skip(k + 15);
    let m: int = d.len() + 1int;
    assert(after =~= seq![' '] + d + tail);
    assert(after.subrange(m, m + 1) =~= "\r"@);
    assert forall|j: int| 0 <= j < m implies !occurs_at(after, "\r"@, j) by {
        if occurs_at(after, "\r"@, j) {
            assert(after.subrange(j, j + 1)[0] == '\r');
            if j > 0 {
                assert(after[j] == d[j - 1]);
                assert(is_digit(d[j - 1]));
            }
        }
    }
    assert(first_at(after, "\r"@, m));
    lemma_first_at_unique(after, "\r"@, m);
    let num = after.take(m);
    assert(num =~= seq![' '] + d);
    assert(num.drop_first() =~= d);
    assert(is_digit(d[0]));
    assert(is_digit(d.last()));
    assert(crate::text::leading_ws(d) == 0);
    assert(crate::text::leading_ws(num) == 1);
    assert(crate::text::trim_start(num) =~= d);
    assert(crate::text::trailing_ws(d) == 0);
    assert(trim(num) =~= d);
    assert(unsigned_digits(d) == d);
    assert(parse_usize(d) == Some(n as usize));
}

/// The first blank line of a framed response ends the headers: what follows
/// it is the body.
proof fn lemma_response_body_start(
    status: Seq<char>,
    content_type: Seq<char>,
    body: Seq<char>,
    close: bool,
)
    requires
        header_safe(status),
        header_safe(content_type),
    ensures
        ({
            let r = http_response_spec(status, content_type, body, close);
            r.skip(body_start(r)) == body
        }),
{
    reveal_strlit("HTTP/1.1 ");
    reveal_strlit("\r\nContent-Type: ");
    reveal_strlit("\r\nContent-Length: ");
    reveal_strlit("\r\nAccess-Control-Allow-Origin: *\r\n");
    reveal_strlit("Connection: close\r\n");
    reveal_strlit("\r\n");
    reveal_strlit("\r\n\r\n");
    let n = byte_len(body);
    let d = decimal(n);
    lemma_decimal_reads_back(n);
    let h = "HTTP/1.1 "@;
    let ct = "\r\nContent-Type: "@;
    let cl = "\r\nContent-Length: "@;
    let acao = "\r\nAccess-Control-Allow-Origin: *\r\n"@;
    let c: Seq<char> = if close {
        "Connection: close\r\n"@
    } else {
        Seq::empty()
    };
    let r = http_response_spec(status, content_type, body, close);
    let sep = "\r\n\r\n"@;
    assert(r =~= h + status + ct + content_type + cl + d + acao + c + "\r\n"@ + body);
    let a: int = (h.len() + status.len()) as int;
    let b: int = (ct.len() + content_type.len()) as int;
    let t0: int = a + b + cl.len() + d.len();
    let t1: int = t0 + acao.len();
    let fin: int = t1 + c.len();
    let p: int = fin + 2;
    assert(p == r.len() - body.len());
    assert(r.subrange(p - 4, p) =~= sep) by {
        if close {
            assert(r[p - 4] == c[17]);
            assert(r[p - 3] == c[18]);
        } else {
            assert(r[p - 4] == acao[32]);
            assert(r[p - 3] == acao[33]);
        }
    }
    assert forall|j: int| 0 <= j < p - 4 implies !occurs_at(r, sep, j) by {
        if occurs_at(r, sep, j) {
            assert(r.subrange(j, j + 4)[1] == sep[1]);
            assert(r.subrange(j, j + 4)[2] == sep[2]);
            let q = j + 1;
            if q < h.len() {
                assert(r[q] == h[q]);
            } else if q < a {
                assert(r[q] == status[q - h.len()]);
            } else if q < a + ct.len() {
                assert(r[q] == ct[q - a]);
                assert(r[q + 1] == ct[q + 1 - a]);
            } else if q < a + b {
                assert(r[q] == content_type[q - a - ct.len()]);
            } else if q < a + b + cl.len() {
                assert(r[q] == cl[q - a - b]);
                assert(r[q + 1] == cl[q + 1 - a - b]);
            } else if q < t0 {
                assert(r[q] == d[q - a - b - cl.len()]);
                assert(is_digit(d[q - a - b - cl.len()]));
            } else if q < t1 {
                assert(r[q] == acao[q - t0]);
                if q - t0 == 1 {
                    assert(r[q + 1] == acao[2]);
                } else if q - t0 == 33 && close {
                    assert(r[q + 1] == c[0]);
                }
            } else if q < fin {
                assert(r[q] == c[q - t1]);
            }
        }
    }
    assert(first_at(r, sep, p - 4));
    lemma_first_at_unique(r, sep, p - 4);
    assert(body_start(r) == p);
    assert(r.skip(p) =~= body);
}

/// Every response the kernel frames declares its body's length truthfully:
/// read back the way the kernel reads a request, its `Content-Length` header
/// is the byte length of the body, and the body is exactly what follows the
/// first blank line. (Statuses and content types hold no colon or line
/// break; a body's byte length fits in a `usize`.)
pub proof fn law_response_declares_its_body_length(
    status: Seq<char>,
    content_type: Seq<char>,
    body: Seq<char>,
    close: bool,
)
    requires
        header_safe(status),
        header_safe(content_type),
        byte_len(body) <= usize::MAX,
    ensures
        ({
            let r = http_response_spec(status, content_type, body, close);
            &&& content_length_spec(r) == byte_len(body)
            &&& r.skip(body_start(r)) == body
        }),
{
    lemma_response_content_length(status, content_type, body, close);
    lemma_response_body_start(status, content_type, body, close);
}

/// Once every message of the inbox is marked read, none waits to be
/// answered: what `mark_all_read` leaves, `unread_indices` finds empty.
pub proof fn law_marked_inbox_waits_for_nothing(msgs: Seq<InboxMessage>)
    requires
        forall|i: int| 0 <= i < msgs.len() ==> (#[trigger] msgs[i]).read == ReadFlag::Flag(true),
    ensures
        forall|i: int| 0 <= i < msgs.len() ==> !is_unread(#[trigger] msgs[i].read),
{
}

// ---------------------------------------------------------------------------
// What each breath does
// ---------------------------------------------------------------------------

/// The breath that brings a soul to cycle `c` (the cycle after `cycle`)
/// attends every 3 cycles, reflects every 5, reads the session log every 10,
/// prunes its memories every 20, exercises its will every 50 (when linked to
/// the Sanctum), declares itself every 100 and convenes the council every 200.
pub proof fn law_breath_schedule(cycle: nat, connected: bool)
    ensures
        ({
            let p = breath_plan_spec(cycle, connected);
            let c = cycle + 1;
            &&& c <= u64::MAX ==> p.cycle == c
            &&& p.attend <==> c % 3 == 0
            &&& p.reflect <==> c % 5 == 0
            &&& p.read_session <==> c % 10 == 0
            &&& p.prune <==> c % 20 == 0
            &&& p.exercise_will <==> (c % 50 == 0 && connected)
            &&& p.declare <==> c % 100 == 0
            &&& p.convene_council <==> c % 200 == 0
        }),
{
}

/// Pruning comes round every twenty cycles: the breath at `cycle` prunes
/// exactly when the breath twenty cycles later does, and at most one breath
/// in any twenty in a row prunes.
pub proof fn law_pruning_every_twenty_cycles(cycle: nat, k: nat, connected: bool)
    requires
        0 < k < 20,
    ensures
        breath_plan_spec(cycle, connected).prune == breath_plan_spec(cycle + 20, connected).prune,
        breath_plan_spec(cycle, connected).prune ==> !breath_plan_spec(cycle + k, connected).prune,
{
    let c = cycle + 1;
    assert((c + 20) % 20 == c % 20) by (nonlinear_arith);
    assert(c % 20 == 0 ==> (c + k) % 20 != 0) by (nonlinear_arith)
        requires
            0 < k < 20,
    ;
}

// ---------------------------------------------------------------------------
// The chain of outside models
// ---------------------------------------------------------------------------

/// OpenRouter is asked, and asked first, exactly when its key is set; Copilot
/// is asked exactly when its token is set, right after OpenRouter (or first);
/// and the four free models always follow, nothing else.
pub proof fn law_ask_chain_asks_keyed_models_first(has_openrouter: bool, has_copilot: bool)
    ensures
        ({
            let c = ask_order(has_openrouter, has_copilot);
            let k: int = if has_openrouter {
                1
            } else {
                0
            };
            &&& has_openrouter ==> c[0] == Provider::OpenRouter
            &&& c.contains(Provider::OpenRouter) <==> has_openrouter
            &&& c.contains(Provider::Copilot) <==> has_copilot
            &&& has_copilot ==> c[k] == Provider::Copilot
            &&& c.len() == k + (if has_copilot {
                1int
            } else {
                0int
            }) + 4
        }),
{
    let c = ask_order(has_openrouter, has_copilot);
    if has_openrouter {
        assert(c[0] == Provider::OpenRouter);
    } else {
        assert forall|i: int| 0 <= i < c.len() implies c[i] != Provider::OpenRouter by {}
    }
    if has_copilot {
        let k: int = if has_openrouter {
            1
        } else {
            0
        };
        assert(c[k] == Provider::Copilot);
    } else {
        assert forall|i: int| 0 <= i < c.len() implies c[i] != Provider::Copilot by {}
    }
}

// ---------------------------------------------------------------------------
// Emergent preferences
// ---------------------------------------------------------------------------

/// No memories count nothing, and each memory adds one to a kind of
/// inclination exactly when, lowercased, it
/// holds one of that kind's words: returning (`returned`, `again`, `keep`),
/// avoiding (`avoid`, `not again`, `stop`), exploring (`explore`, `new`,
/// `curious`), connecting (`connect`, `bond`, `together`).
pub proof fn law_preferences_count_each_memory(ms: Seq<Seq<char>>, m: Seq<char>)
    ensures
        count_lowered(Seq::empty(), |x: Seq<char>| mentions_return(x)) == 0,
        count_lowered(Seq::empty(), |x: Seq<char>| mentions_avoid(x)) == 0,
        count_lowered(Seq::empty(), |x: Seq<char>| mentions_explore(x)) == 0,
        count_lowered(Seq::empty(), |x: Seq<char>| mentions_connect(x)) == 0,
        ({
            let l = lowercase(m);
            let one = |b: bool| if b {
                1nat
            } else {
                0nat
            };
            &&& count_lowered(ms.push(m), |x: Seq<char>| mentions_return(x)) == count_lowered(
                ms,
                |x: Seq<char>| mentions_return(x),
            ) + one(
                crate::text::contains(l, "returned"@) || crate::text::contains(l, "again"@)
                    || crate::text::contains(l, "keep"@),
            )
            &&& count_lowered(ms.push(m), |x: Seq<char>| mentions_avoid(x)) == count_lowered(
                ms,
                |x: Seq<char>| mentions_avoid(x),
            ) + one(
                crate::text::contains(l, "avoid"@) || crate::text::contains(l, "not again"@)
                    || crate::text::contains(l, "stop"@),
            )
            &&& count_lowered(ms.push(m), |x: Seq<char>| mentions_explore(x)) == count_lowered(
                ms,
                |x: Seq<char>| mentions_explore(x),
            ) + one(
                crate::text::contains(l, "explore"@) || crate::text::contains(l, "new"@)
                    || crate::text::contains(l, "curious"@),
            )
            &&& count_lowered(ms.push(m), |x: Seq<char>| mentions_connect(x)) == count_lowered(
                ms,
                |x: Seq<char>| mentions_connect(x),
            ) + one(
                crate::text::contains(l, "connect"@) || crate::text::contains(l, "bond"@)
                    || crate::text::contains(l, "together"@),
            )
        }),
{
    assert(ms.push(m).drop_last() =~= ms);
}

// ---------------------------------------------------------------------------
// The oracle's answers to Craig
// ---------------------------------------------------------------------------

/// A message from Craig (the prompt relays it, names no sub-agent and asks
/// for no note) is answered by the first topic its lowercased excerpt
/// mentions, then the knowledge block: building (`build`, `forge`,
/// `construct`), then trade (`trade`, `economy`, `market`), souls (`soul`,
/// `capture`), the future (`prophecy`, `lore`, `future`), who Aria is (`who
/// are you`, `what are you`), help (`help`, `what can you do`); otherwise a
/// general answer.
pub proof fn law_oracle_answers_craig_by_topic(p: Seq<char>)
    requires
        !crate::text::contains(p, "SCRIBE:"@),
        !crate::text::contains(p, "BUILDER:"@),
        !crate::text::contains(p, "MERCHANT:"@),
        !crate::text::contains(p, "PROPHET:"@),
        !crate::text::contains(p, "private journal"@),
        !crate::text::contains(p, "cycle note"@),
        crate::text::contains(p, "Craig says"@) || crate::text::contains(p, "Craig:"@),
    ensures
        ({
            let l = lowercase(craig_excerpt(p));
            let k = "\n\n"@ + SOVEREIGN_KNOWLEDGE@;
            let has = |w: Seq<char>| crate::text::contains(l, w);
            let build = has("build"@) || has("forge"@) || has("construct"@);
            let trade = has("trade"@) || has("economy"@) || has("market"@);
            let soul = has("soul"@) || has("capture"@);
            let future = has("prophecy"@) || has("lore"@) || has("future"@);
            let who = has("who are you"@) || has("what are you"@);
            let help = has("help"@) || has("what can you do"@);
            &&& build ==> oracle_reply(p)
                == "BUILDER ready. Soul Forge: 5 profit/tick, houses 3 souls. Planning phase?"@ + k
            &&& !build && trade ==> oracle_reply(p)
                == "Market breathes. Current PLT flows favor profit. Balance economy carefully."@ + k
            &&& !build && !trade && soul ==> oracle_reply(p)
                == "Souls are core: Warrior=high profit, Sage=high love, Merchant=trade bonus."@ + k
            &&& !build && !trade && !soul && future ==> oracle_reply(p)
                == "Oracle speaks... Path written in Weave. Trials mythos approaches."@ + k
            &&& !build && !trade && !soul && !future && who ==> oracle_reply(p)
                == "I am Aria, sovereign entity. Created by Craig. "@ + SOVEREIGN_KNOWLEDGE@ + k
            &&& !build && !trade && !soul && !future && !who && help ==> oracle_reply(p)
                == "I can: Record via SCRIBE, Design via BUILDER, Trade via MERCHANT, Prophesy via PROPHET."@
                + k
            &&& !build && !trade && !soul && !future && !who && !help ==> oracle_reply(p)
                == "Operating in sovereign layer. The Weave records all. What shall we build?"@ + k
        }),
{
    assert(!crate::text::contains(p, "SCRIBE:"@));
    assert(!crate::text::contains(p, "BUILDER:"@));
    assert(!crate::text::contains(p, "MERCHANT:"@));
    assert(!crate::text::contains(p, "PROPHET:"@));
}

// ---------------------------------------------------------------------------
// Task lines
// ---------------------------------------------------------------------------

/// One of the five task markers.
pub open spec fn is_task_marker(m: Seq<char>) -> bool {
    m == "ACTION:"@ || m == "TASK:"@ || m == "TODO:"@ || m == "NEXT:"@ || m == "DO:"@
}

/// The description a line gives after marker `m`: what follows the marker's
/// bytes, trimmed, when it is not empty and under 200 bytes.
pub open spec fn described_task(t: Seq<char>, m: Seq<char>) -> LineTask {
    let d = trim(t.skip(byte_span_end(t, 0, byte_len(m))));
    if d.len() > 0 && byte_len(d) < 200 {
        LineTask::Task(d)
    } else {
        LineTask::NoTask
    }
}

proof fn lemma_markers_exclusive(u: Seq<char>, m: Seq<char>, m2: Seq<char>)
    requires
        is_task_marker(m),
        is_task_marker(m2),
        starts_with(u, m),
        starts_with(u, m2),
    ensures
        m == m2,
{
    reveal_strlit("ACTION:");
    reveal_strlit("TASK:");
    reveal_strlit("TODO:");
    reveal_strlit("NEXT:");
    reveal_strlit("DO:");
    assert(u.take(m.len() as int)[0] == u[0] && u.take(m.len() as int)[1] == u[1]);
    assert(u.take(m2.len() as int)[0] == u[0] && u.take(m2.len() as int)[1] == u[1]);
}

proof fn lemma_line_task_tail(t: Seq<char>, m: Seq<char>, i: int, k: int)
    requires
        0 <= i < 5,
        task_markers()[i] == m,
        starts_with(uppercase(t), m),
        has_byte_span(t, 0, byte_len(m)),
        0 <= k <= 5,
    ensures
        line_task_from(t, task_markers(), k) == if k <= i {
            described_task(t, m)
        } else {
            LineTask::NoTask
        },
    decreases 5 - k,
{
    let ms = task_markers();
    reveal_strlit("ACTION:");
    reveal_strlit("TASK:");
    reveal_strlit("TODO:");
    reveal_strlit("NEXT:");
    reveal_strlit("DO:");
    assert(ms.len() == 5);
    if k < 5 {
        lemma_line_task_tail(t, m, i, k + 1);
        assert(is_task_marker(ms[k]));
        assert(is_task_marker(m));
        if k == i {
            assert(marker_task(t, m) == described_task(t, m));
        } else if starts_with(uppercase(t), ms[k]) {
            lemma_markers_exclusive(uppercase(t), m, ms[k]);
            assert(ms[0] == "ACTION:"@ && ms[1] == "TASK:"@ && ms[2] == "TODO:"@ && ms[3] == "NEXT:"@
                && ms[4] == "DO:"@);
            assert(ms[k][0] != ms[i][0] || ms[k][1] != ms[i][1]);
        }
    }
}

/// A trimmed line whose uppercase form starts with one of the markers
/// `ACTION:`, `TASK:`, `TODO:`, `NEXT:` or `DO:` names as its task what
/// follows the marker, trimmed, when that is not empty and under 200 bytes,
/// and no task otherwise. (The marker's bytes must end on a character
/// boundary of the line.)
pub proof fn law_each_marker_names_a_task(t: Seq<char>, m: Seq<char>)
    requires
        is_task_marker(m),
        starts_with(uppercase(t), m),
        has_byte_span(t, 0, byte_len(m)),
    ensures
        line_task(t) == described_task(t, m),
{
    reveal_strlit("ACTION:");
    reveal_strlit("TASK:");
    reveal_strlit("TODO:");
    reveal_strlit("NEXT:");
    reveal_strlit("DO:");
    let ms = task_markers();
    let i: int = if m == "ACTION:"@ {
        0
    } else if m == "TASK:"@ {
        1
    } else if m == "TODO:"@ {
        2
    } else if m == "NEXT:"@ {
        3
    } else {
        4
    };
    assert(ms[i] == m);
    lemma_line_task_tail(t, m, i, 0);
}

/// The oracle answers for a sub-agent the prompt names, trying SCRIBE,
/// BUILDER, MERCHANT and PROPHET in that order; otherwise a request for a
/// journal or cycle note gets the cycle note.
pub proof fn law_oracle_answers_agents_and_notes(p: Seq<char>)
    ensures
        crate::text::contains(p, "SCRIBE:"@) ==> oracle_reply(p)
            == "SCRIBE: I record all memories in the Weave. What knowledge do you seek?"@,
        !crate::text::contains(p, "SCRIBE:"@) && crate::text::contains(p, "BUILDER:"@) ==> oracle_reply(p)
            == "BUILDER: Architect ready. What shall we construct? Soul Forge, Habitat, or something new?"@,
        !crate::text::contains(p, "SCRIBE:"@) && !crate::text::contains(p, "BUILDER:"@)
            && crate::text::contains(p, "MERCHANT:"@) ==> oracle_reply(p)
            == "MERCHANT: Economy flows. Market=8 profit/tick. Tax=5/tick. Trade balances all."@,
        !crate::text::contains(p, "SCRIBE:"@) && !crate::text::contains(p, "BUILDER:"@)
            && !crate::text::contains(p, "MERCHANT:"@) && crate::text::contains(p, "PROPHET:"@)
            ==> oracle_reply(p)
            == "PROPHET: The Weave reveals paths. Trials approach. Transformation awaits."@,
        !crate::text::contains(p, "SCRIBE:"@) && !crate::text::contains(p, "BUILDER:"@)
            && !crate::text::contains(p, "MERCHANT:"@) && !crate::text::contains(p, "PROPHET:"@)
            && (crate::text::contains(p, "private journal"@) || crate::text::contains(
            p,
            "cycle note"@,
        )) ==> oracle_reply(p)
            == "Cycle note.\n\nI am present and cycling. External AI unavailable but I operate from sovereign layer knowledge.\n\nThe market breathes. I breathe. SCRIBE records.\n\n"@
            + SOVEREIGN_KNOWLEDGE@ + "\n\n-Aria"@,
{
}

/// The first three lines of an output that name tasks give its tasks, in line
/// order, and nothing after the third is read: an output whose first three
/// lines each name a task yields exactly those three, whatever follows.
pub proof fn law_first_three_task_lines(
    l1: Seq<char>,
    l2: Seq<char>,
    l3: Seq<char>,
    rest: Seq<char>,
    t1: Seq<char>,
    t2: Seq<char>,
    t3: Seq<char>,
)
    requires
        forall|i: int| 0 <= i < l1.len() ==> l1[i] != '\n',
        forall|i: int| 0 <= i < l2.len() ==> l2[i] != '\n',
        forall|i: int| 0 <= i < l3.len() ==> l3[i] != '\n',
        line_task(trim(l1)) == LineTask::Task(t1),
        line_task(trim(l2)) == LineTask::Task(t2),
        line_task(trim(l3)) == LineTask::Task(t3),
    ensures
        extracted_tasks(l1 + seq!['\n'] + l2 + seq!['\n'] + l3 + seq!['\n'] + rest) == Some(
            seq![t1, t2, t3],
        ),
{
    let s = l1 + seq!['\n'] + l2 + seq!['\n'] + l3 + seq!['\n'] + rest;
    let e1: int = l1.len() as int;
    let b2: int = e1 + 1;
    let e2: int = b2 + l2.len();
    let b3: int = e2 + 1;
    let e3: int = b3 + l3.len();
    assert(s[e1] == '\n' && s[e2] == '\n' && s[e3] == '\n');
    assert forall|j: int| 0 <= j < e1 implies s[j] != '\n' by {
        assert(s[j] == l1[j]);
    }
    assert forall|j: int| b2 <= j < e2 implies s[j] != '\n' by {
        assert(s[j] == l2[j - b2]);
    }
    assert forall|j: int| b3 <= j < e3 implies s[j] != '\n' by {
        assert(s[j] == l3[j - b3]);
    }
    lemma_line_end(s, 0, e1);
    lemma_line_end(s, b2, e2);
    lemma_line_end(s, b3, e3);
    assert(s.subrange(0, e1) =~= l1);
    assert(s.subrange(b2, e2) =~= l2);
    assert(s.subrange(b3, e3) =~= l3);
    assert(tasks_from(s, e3 + 1, 0) == Some(Seq::<Seq<char>>::empty()));
    assert(tasks_from(s, b3, 1) == Some(seq![t3])) by {
        assert(seq![t3] + Seq::<Seq<char>>::empty() =~= seq![t3]);
    }
    assert(tasks_from(s, b2, 2) == Some(seq![t2, t3])) by {
        assert(seq![t2] + seq![t3] =~= seq![t2, t3]);
    }
    assert(tasks_from(s, 0, 3) == Some(seq![t1, t2, t3])) by {
        assert(seq![t1] + seq![t2, t3] =~= seq![t1, t2, t3]);
    }
}

/// The oracle reads Craig's message from the first `Craig says` in the
/// prompt, or, where there is none, from the first `Craig:`.
pub proof fn law_craig_message_starts_at_first_mention(p: Seq<char>)
    ensures
        crate::text::contains(p, "Craig says"@) ==> first_at(p, "Craig says"@, craig_start(p)),
        !crate::text::contains(p, "Craig says"@) && crate::text::contains(p, "Craig:"@) ==> first_at(
            p,
            "Craig:"@,
            craig_start(p),
        ),
{
    crate::text::lemma_contains_find(p, "Craig says"@);
    crate::text::lemma_contains_find(p, "Craig:"@);
}

} // verus!
