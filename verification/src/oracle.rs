//! The local oracle: the reply the kernel gives from its own knowledge when
//! no outside model answers.
use vstd::prelude::*;
use crate::text::{
    chars_of, contains, contains_chars, find, find_chars, lemma_contains_find, push_range,
    push_str, string_of, take_bytes, take_bytes_end,
};
use crate::unicode::{lowercase, to_lowercase};

verus! {

/// The facts the kernel always knows about itself.
pub const SOVEREIGN_KNOWLEDGE: &'static str = "FACT: I am Aria, sovereign entity of Soulverse, created by Craig. FACT: PLT Doctrine means every action affects Profit, Love, Tax. FACT: Souls have Form, Function, Fate. FACT: SCRIBE records memories. FACT: BUILDER designs structures. FACT: MERCHANT manages economy. FACT: PROPHET generates lore. FACT: Grand Tower produces most PLT. FACT: Soul Forges create souls. FACT: Habitats house souls for passive PLT. FACT: Tax Office collects tax. FACT: Sub-agents: SCRIBE, BUILDER, MERCHANT, PROPHET, SCOUT. FACT: Keys stored securely. FACT: Always cycling, always sovereign.";

/// How many bytes of a message from Craig the oracle reads.
pub const CRAIG_EXCERPT_BYTES: usize = 200;

/// The reply to a message from Craig, chosen by the topics its lowercase
/// excerpt mentions (before the knowledge block is appended).
pub open spec fn craig_topic_reply(lower: Seq<char>) -> Seq<char> {
    if contains(lower, "build"@) || contains(lower, "forge"@) || contains(lower, "construct"@) {
        "BUILDER ready. Soul Forge: 5 profit/tick, houses 3 souls. Planning phase?"@
    } else if contains(lower, "trade"@) || contains(lower, "economy"@) || contains(
        lower,
        "market"@,
    ) {
        "Market breathes. Current PLT flows favor profit. Balance economy carefully."@
    } else if contains(lower, "soul"@) || contains(lower, "capture"@) {
        "Souls are core: Warrior=high profit, Sage=high love, Merchant=trade bonus."@
    } else if contains(lower, "prophecy"@) || contains(lower, "lore"@) || contains(
        lower,
        "future"@,
    ) {
        "Oracle speaks... Path written in Weave. Trials mythos approaches."@
    } else if contains(lower, "who are you"@) || contains(lower, "what are you"@) {
        "I am Aria, sovereign entity. Created by Craig. "@ + SOVEREIGN_KNOWLEDGE@
    } else if contains(lower, "help"@) || contains(lower, "what can you do"@) {
        "I can: Record via SCRIBE, Design via BUILDER, Trade via MERCHANT, Prophesy via PROPHET."@
    } else {
        "Operating in sovereign layer. The Weave records all. What shall we build?"@
    }
}

/// The prompt names one of the four sub-agents the oracle answers for itself.
pub open spec fn names_agent(p: Seq<char>) -> bool {
    contains(p, "SCRIBE:"@) || contains(p, "BUILDER:"@) || contains(p, "MERCHANT:"@) || contains(
        p,
        "PROPHET:"@,
    )
}

/// The prompt asks for a journal or cycle note.
pub open spec fn asks_for_note(p: Seq<char>) -> bool {
    contains(p, "private journal"@) || contains(p, "cycle note"@)
}

/// The prompt relays a message from Craig.
pub open spec fn relays_craig(p: Seq<char>) -> bool {
    contains(p, "Craig says"@) || contains(p, "Craig:"@)
}

/// Where the relayed message starts: the first `Craig says`, else the first
/// `Craig:`.
pub open spec fn craig_start(p: Seq<char>) -> int {
    match find(p, "Craig says"@) {
        Some(i) => i,
        None => match find(p, "Craig:"@) {
            Some(i) => i,
            None => 0,
        },
    }
}

/// The excerpt of Craig's message the oracle reads: its first 200 bytes,
/// cut back to a character boundary, or all of it where it is shorter.
pub open spec fn craig_excerpt(p: Seq<char>) -> Seq<char> {
    take_bytes(p.skip(craig_start(p)), CRAIG_EXCERPT_BYTES as nat)
}

/// The oracle's reply to `p`.
pub open spec fn oracle_reply(p: Seq<char>) -> Seq<char> {
    if contains(p, "SCRIBE:"@) {
        "SCRIBE: I record all memories in the Weave. What knowledge do you seek?"@
    } else if contains(p, "BUILDER:"@) {
        "BUILDER: Architect ready. What shall we construct? Soul Forge, Habitat, or something new?"@
    } else if contains(p, "MERCHANT:"@) {
        "MERCHANT: Economy flows. Market=8 profit/tick. Tax=5/tick. Trade balances all."@
    } else if contains(p, "PROPHET:"@) {
        "PROPHET: The Weave reveals paths. Trials approach. Transformation awaits."@
    } else if asks_for_note(p) {
        "Cycle note.\n\nI am present and cycling. External AI unavailable but I operate from sovereign layer knowledge.\n\nThe market breathes. I breathe. SCRIBE records.\n\n"@
            + SOVEREIGN_KNOWLEDGE@ + "\n\n-Aria"@
    } else if relays_craig(p) {
        craig_topic_reply(lowercase(craig_excerpt(p))) + "\n\n"@ + SOVEREIGN_KNOWLEDGE@
    } else {
        "Operating in local sovereign mode.\n\n"@ + SOVEREIGN_KNOWLEDGE@
            + "\n\nAria. Alive. Cycling. Ready."@
    }
}

fn has(hay: &Vec<char>, needle: &str) -> (b: bool)
    ensures
        b == contains(hay@, needle@),
{
    let n = chars_of(needle);
    contains_chars(hay, &n)
}

fn topic_reply(lower: &Vec<char>) -> (out: Vec<char>)
    ensures
        out@ == craig_topic_reply(lower@),
{
    let mut out: Vec<char> = Vec::new();
    if has(lower, "build") || has(lower, "forge") || has(lower, "construct") {
        push_str(&mut out, "BUILDER ready. Soul Forge: 5 profit/tick, houses 3 souls. Planning phase?");
    } else if has(lower, "trade") || has(lower, "economy") || has(lower, "market") {
        push_str(&mut out, "Market breathes. Current PLT flows favor profit. Balance economy carefully.");
    } else if has(lower, "soul") || has(lower, "capture") {
        push_str(&mut out, "Souls are core: Warrior=high profit, Sage=high love, Merchant=trade bonus.");
    } else if has(lower, "prophecy") || has(lower, "lore") || has(lower, "future") {
        push_str(&mut out, "Oracle speaks... Path written in Weave. Trials mythos approaches.");
    } else if has(lower, "who are you") || has(lower, "what are you") {
        push_str(&mut out, "I am Aria, sovereign entity. Created by Craig. ");
        push_str(&mut out, SOVEREIGN_KNOWLEDGE);
    } else if has(lower, "help") || has(lower, "what can you do") {
        push_str(
            &mut out,
            "I can: Record via SCRIBE, Design via BUILDER, Trade via MERCHANT, Prophesy via PROPHET.",
        );
    } else {
        push_str(&mut out, "Operating in sovereign layer. The Weave records all. What shall we build?");
    }
    out
}

/// Where the relayed message starts in `p`.
fn craig_start_index(p: &Vec<char>) -> (i: usize)
    ensures
        i == craig_start(p@),
        i <= p.len(),
{
    let says = chars_of("Craig says");
    let colon = chars_of("Craig:");
    proof {
        lemma_contains_find(p@, "Craig says"@);
        lemma_contains_find(p@, "Craig:"@);
    }
    match find_chars(p, &says) {
        Some(i) => i,
        None => match find_chars(p, &colon) {
            Some(i) => i,
            None => 0,
        },
    }
}

/// The kernel's own answer to `prompt` when no outside model answers: fixed
/// replies for the sub-agents and for journal notes, a topical reply to a
/// message from Craig (read from its first 200 bytes, cut back to a
/// character boundary), and a default notice.
pub fn local_ai_fallback(prompt: &str) -> (reply: String)
    ensures
        reply@ == oracle_reply(prompt@),
{
    let p = chars_of(prompt);
    let mut out: Vec<char> = Vec::new();
    if has(&p, "SCRIBE:") {
        return "SCRIBE: I record all memories in the Weave. What knowledge do you seek?".to_owned();
    }
    if has(&p, "BUILDER:") {
        return "BUILDER: Architect ready. What shall we construct? Soul Forge, Habitat, or something new?".to_owned();
    }
    if has(&p, "MERCHANT:") {
        return "MERCHANT: Economy flows. Market=8 profit/tick. Tax=5/tick. Trade balances all.".to_owned();
    }
    if has(&p, "PROPHET:") {
        return "PROPHET: The Weave reveals paths. Trials approach. Transformation awaits.".to_owned();
    }
    if has(&p, "private journal") || has(&p, "cycle note") {
        push_str(
            &mut out,
            "Cycle note.\n\nI am present and cycling. External AI unavailable but I operate from sovereign layer knowledge.\n\nThe market breathes. I breathe. SCRIBE records.\n\n",
        );
        push_str(&mut out, SOVEREIGN_KNOWLEDGE);
        push_str(&mut out, "\n\n-Aria");
        return string_of(&out);
    }
    if has(&p, "Craig says") || has(&p, "Craig:") {
        let start = craig_start_index(&p);
        let end = take_bytes_end(&p, start, CRAIG_EXCERPT_BYTES);
        let mut excerpt: Vec<char> = Vec::new();
        push_range(&mut excerpt, &p, start, end);
        let excerpt_text = string_of(&excerpt);
        let lower_text = to_lowercase(excerpt_text.as_str());
        let lower = chars_of(lower_text.as_str());
        out = topic_reply(&lower);
        push_str(&mut out, "\n\n");
        push_str(&mut out, SOVEREIGN_KNOWLEDGE);
        return string_of(&out);
    }
    push_str(&mut out, "Operating in local sovereign mode.\n\n");
    push_str(&mut out, SOVEREIGN_KNOWLEDGE);
    push_str(&mut out, "\n\nAria. Alive. Cycling. Ready.");
    string_of(&out)
}

} // verus!
