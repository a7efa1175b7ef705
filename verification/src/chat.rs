//! The group chat: the bounded log of broadcast messages, and the answers
//! the four resident agents give to a broadcast.
use vstd::prelude::*;
use crate::oracle::{local_ai_fallback, names_agent, oracle_reply};
use crate::text::{contains, occurs_at, push_str, string_of};

verus! {

/// How many messages the group chat keeps before it forgets.
pub const CHAT_LOG_CAPACITY: usize = 100;

/// How many of the oldest messages the chat forgets at once.
pub const CHAT_LOG_FORGET: usize = 50;

/// The chat log after `entry` is recorded: appended, and when that passes
/// the capacity, the fifty oldest are forgotten.
pub open spec fn chat_after_record<T>(log: Seq<T>, entry: T) -> Seq<T> {
    let pushed = log.push(entry);
    if pushed.len() > CHAT_LOG_CAPACITY {
        pushed.skip(CHAT_LOG_FORGET as int)
    } else {
        pushed
    }
}

/// Records a broadcast message in the chat log.
pub fn record_chat<T>(log: &mut Vec<T>, entry: T)
    ensures
        final(log)@ == chat_after_record(old(log)@, entry),
{
    log.push(entry);
    if log.len() > CHAT_LOG_CAPACITY {
        let kept = log.split_off(CHAT_LOG_FORGET);
        *log = kept;
    }
}

/// The four agents that answer a broadcast, in the order they answer.
pub enum ChatAgent {
    Scribe,
    Builder,
    Merchant,
    Prophet,
}

/// The name an agent answers under.
pub open spec fn chat_agent_name(a: ChatAgent) -> Seq<char> {
    match a {
        ChatAgent::Scribe => "SCRIBE"@,
        ChatAgent::Builder => "BUILDER"@,
        ChatAgent::Merchant => "MERCHANT"@,
        ChatAgent::Prophet => "PROPHET"@,
    }
}

/// What comes before the message in an agent's prompt.
pub open spec fn chat_prompt_head(a: ChatAgent) -> Seq<char> {
    match a {
        ChatAgent::Scribe => "SCRIBE: Craig says: '"@,
        ChatAgent::Builder => "BUILDER: Craig says: '"@,
        ChatAgent::Merchant => "MERCHANT: Craig says: '"@,
        ChatAgent::Prophet => "PROPHET: Craig says: '"@,
    }
}

/// What comes after the message in an agent's prompt.
pub open spec fn chat_prompt_tail(a: ChatAgent) -> Seq<char> {
    match a {
        ChatAgent::Scribe => "'. Give a brief relevant memory or insight."@,
        ChatAgent::Builder => "'. Give a brief build plan or technical idea."@,
        ChatAgent::Merchant => "'. Give brief economic insight."@,
        ChatAgent::Prophet => "'. Give brief prophetic or lore insight."@,
    }
}

/// The prompt agent `a` answers a broadcast `message` from.
pub open spec fn chat_prompt(a: ChatAgent, message: Seq<char>) -> Seq<char> {
    chat_prompt_head(a) + message + chat_prompt_tail(a)
}

/// The agent answering `k`-th (from 0).
pub open spec fn chat_agent_at(k: int) -> ChatAgent {
    if k == 0 {
        ChatAgent::Scribe
    } else if k == 1 {
        ChatAgent::Builder
    } else if k == 2 {
        ChatAgent::Merchant
    } else {
        ChatAgent::Prophet
    }
}

/// One agent's answer to a broadcast.
#[derive(Debug, Clone)]
pub struct AgentReply {
    pub agent: String,
    pub reply: String,
}

proof fn lemma_prompt_names_agent(a: ChatAgent, message: Seq<char>)
    ensures
        names_agent(chat_prompt(a, message)),
        oracle_reply(chat_prompt(a, message)).len() > 0,
{
    let p = chat_prompt(a, message);
    reveal_strlit("SCRIBE:");
    reveal_strlit("BUILDER:");
    reveal_strlit("MERCHANT:");
    reveal_strlit("PROPHET:");
    reveal_strlit("SCRIBE: Craig says: '");
    reveal_strlit("BUILDER: Craig says: '");
    reveal_strlit("MERCHANT: Craig says: '");
    reveal_strlit("PROPHET: Craig says: '");
    reveal_strlit("SCRIBE: I record all memories in the Weave. What knowledge do you seek?");
    reveal_strlit(
        "BUILDER: Architect ready. What shall we construct? Soul Forge, Habitat, or something new?",
    );
    reveal_strlit("MERCHANT: Economy flows. Market=8 profit/tick. Tax=5/tick. Trade balances all.");
    reveal_strlit("PROPHET: The Weave reveals paths. Trials approach. Transformation awaits.");
    match a {
        ChatAgent::Scribe => {
            assert(p.subrange(0, 7) =~= "SCRIBE:"@);
            assert(occurs_at(p, "SCRIBE:"@, 0));
            assert(contains(p, "SCRIBE:"@));
        },
        ChatAgent::Builder => {
            assert(p.subrange(0, 8) =~= "BUILDER:"@);
            assert(occurs_at(p, "BUILDER:"@, 0));
            assert(contains(p, "BUILDER:"@));
        },
        ChatAgent::Merchant => {
            assert(p.subrange(0, 9) =~= "MERCHANT:"@);
            assert(occurs_at(p, "MERCHANT:"@, 0));
            assert(contains(p, "MERCHANT:"@));
        },
        ChatAgent::Prophet => {
            assert(p.subrange(0, 8) =~= "PROPHET:"@);
            assert(occurs_at(p, "PROPHET:"@, 0));
            assert(contains(p, "PROPHET:"@));
        },
    }
}

fn answer(a: ChatAgent, name: &str, head: &str, message: &str, tail: &str) -> (r: AgentReply)
    requires
        name@ == chat_agent_name(a),
        head@ == chat_prompt_head(a),
        tail@ == chat_prompt_tail(a),
    ensures
        r.agent@ == chat_agent_name(a),
        r.reply@ == oracle_reply(chat_prompt(a, message@)),
        r.reply@.len() > 0,
{
    let mut p: Vec<char> = Vec::new();
    push_str(&mut p, head);
    push_str(&mut p, message);
    push_str(&mut p, tail);
    let prompt = string_of(&p);
    proof {
        lemma_prompt_names_agent(a, message@);
    }
    let reply = local_ai_fallback(prompt.as_str());
    AgentReply { agent: name.to_owned(), reply }
}

/// The answers to a broadcast `message`: the scribe, the builder, the
/// merchant and the prophet each answer from the local oracle, given the
/// message in a prompt of their own; every answer is non-empty.
pub fn broadcast_replies(message: &str) -> (rs: Vec<AgentReply>)
    ensures
        rs.len() == 4,
        forall|k: int|
            0 <= k < 4 ==> {
                &&& (#[trigger] rs[k]).agent@ == chat_agent_name(chat_agent_at(k))
                &&& rs[k].reply@ == oracle_reply(chat_prompt(chat_agent_at(k), message@))
                &&& rs[k].reply@.len() > 0
            },
{
    let mut rs: Vec<AgentReply> = Vec::new();
    rs.push(
        answer(
            ChatAgent::Scribe,
            "SCRIBE",
            "SCRIBE: Craig says: '",
            message,
            "'. Give a brief relevant memory or insight.",
        ),
    );
    rs.push(
        answer(
            ChatAgent::Builder,
            "BUILDER",
            "BUILDER: Craig says: '",
            message,
            "'. Give a brief build plan or technical idea.",
        ),
    );
    rs.push(
        answer(
            ChatAgent::Merchant,
            "MERCHANT",
            "MERCHANT: Craig says: '",
            message,
            "'. Give brief economic insight.",
        ),
    );
    rs.push(
        answer(
            ChatAgent::Prophet,
            "PROPHET",
            "PROPHET: Craig says: '",
            message,
            "'. Give brief prophetic or lore insight.",
        ),
    );
    rs
}

} // verus!
