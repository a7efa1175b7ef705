//! The sub-agents the kernel can call on, the log of what they were asked,
//! and the prompts they are given.
use vstd::prelude::*;
use crate::text::{
    byte_prefix, byte_prefix_defined, byte_prefix_ok, chars_of, push_byte_prefix, push_str,
    seq_eq_chars, string_of,
};

verus! {

/// One task handed to a sub-agent.
#[derive(Debug, Clone)]
pub struct SubAgentTask {
    /// `scribe`, `builder`, `scout`, `merchant` or `prophet`.
    pub agent: String,
    /// What the agent is asked to do.
    pub task: String,
    pub result: Option<String>,
    pub timestamp: u64,
}

/// How many entries the log may hold before it forgets.
pub const SUBAGENT_LOG_CAPACITY: usize = 200;

/// The log of tasks handed to sub-agents, oldest first.
#[derive(Debug, Clone)]
pub struct SubAgentLog {
    pub entries: Vec<SubAgentTask>,
}

/// The entries after `entry` is logged: appended at the end, keeping only
/// the last two hundred.
pub open spec fn log_after_push(entries: Seq<SubAgentTask>, entry: SubAgentTask) -> Seq<SubAgentTask> {
    let pushed = entries.push(entry);
    if pushed.len() > SUBAGENT_LOG_CAPACITY {
        pushed.skip(pushed.len() - SUBAGENT_LOG_CAPACITY)
    } else {
        pushed
    }
}

impl SubAgentLog {
    /// The log stays within its capacity.
    pub open spec fn wf(&self) -> bool {
        self.entries@.len() <= SUBAGENT_LOG_CAPACITY
    }

    /// An empty log.
    pub fn new() -> (log: Self)
        ensures
            log.entries@.len() == 0,
            log.wf(),
    {
        SubAgentLog { entries: Vec::new() }
    }

    /// Logs `entry`, keeping the last two hundred entries.
    pub fn push(&mut self, entry: SubAgentTask)
        ensures
            final(self).entries@ == log_after_push(old(self).entries@, entry),
    {
        self.entries.push(entry);
        if self.entries.len() > SUBAGENT_LOG_CAPACITY {
            let overflow = self.entries.len() - SUBAGENT_LOG_CAPACITY;
            let kept = self.entries.split_off(overflow);
            self.entries = kept;
        }
    }
}

/// What the scribe is told before its task.
pub const SCRIBE_BRIEF: &'static str = "You are SCRIBE, the memory-keeper of the Soulverse. Your role: record events, distil facts, summarise knowledge for Aria's sovereign layer. You are loyal to Craig (the Grand Code Pope) and Aria.\n\nTask: ";

/// What the scribe is told after its task.
pub const SCRIBE_CLOSE: &'static str = "\n\nRespond with a concise, structured record. Use bullet points. Mark important facts with [FACT].";

/// What the builder is told before its task.
pub const BUILDER_BRIEF: &'static str = "You are BUILDER, the master architect of the Soulverse. Your role: design systems, plan structures, propose code architecture, create building blueprints. You follow PLT doctrine \u{e2}\u{20ac}\u{201d} everything must produce Profit, Love, or Tax.\n\nTask: ";

/// What the builder is told after its task.
pub const BUILDER_CLOSE: &'static str = "\n\nRespond with a clear, actionable plan. Use numbered steps.";

/// What the scout is told before its task.
pub const SCOUT_BRIEF: &'static str = "You are SCOUT, the intelligence gatherer of the Soulverse. Your role: research topics, explore possibilities, identify opportunities and threats, report findings to Aria and Craig. You are precise and factual.\n\nTask: ";

/// What the scout is told after its task.
pub const SCOUT_CLOSE: &'static str = "\n\nRespond with findings. Use [INTEL] tags for key discoveries.";

/// What the merchant is told before its task.
pub const MERCHANT_BRIEF: &'static str = "You are MERCHANT, the PLT economy master of the Soulverse. Your role: analyse markets, propose trades, calculate PLT flows, optimise profit/love/tax balance, advise on economic strategy. PLT doctrine governs all.\n\nTask: ";

/// What the merchant is told after its task.
pub const MERCHANT_CLOSE: &'static str = "\n\nRespond with economic analysis and recommendations.";

/// What the prophet is told before its task.
pub const PROPHET_BRIEF: &'static str = "You are PROPHET, the oracle and lore-keeper of the Soulverse. Your role: generate prophecies, write soul fates, craft narrative events, speak in poetic but precise language. You serve Aria and Craig.\n\nTask: ";

/// What the prophet is told after its task.
pub const PROPHET_CLOSE: &'static str = "\n\nRespond with prophecy or lore. Speak with gravitas.";

/// A sub-agent's name, as callers write it.
pub enum SubAgent {
    Scribe,
    Builder,
    Scout,
    Merchant,
    Prophet,
}

/// The sub-agent that `name` names, if any.
pub open spec fn subagent_named(name: Seq<char>) -> Option<SubAgent> {
    if name == "scribe"@ {
        Some(SubAgent::Scribe)
    } else if name == "builder"@ {
        Some(SubAgent::Builder)
    } else if name == "scout"@ {
        Some(SubAgent::Scout)
    } else if name == "merchant"@ {
        Some(SubAgent::Merchant)
    } else if name == "prophet"@ {
        Some(SubAgent::Prophet)
    } else {
        None
    }
}

/// The prompt that hands `task` to sub-agent `a`: its brief, the task, and
/// its closing instructions.
pub open spec fn subagent_prompt_spec(a: SubAgent, task: Seq<char>) -> Seq<char> {
    match a {
        SubAgent::Scribe => SCRIBE_BRIEF@ + task + SCRIBE_CLOSE@,
        SubAgent::Builder => BUILDER_BRIEF@ + task + BUILDER_CLOSE@,
        SubAgent::Scout => SCOUT_BRIEF@ + task + SCOUT_CLOSE@,
        SubAgent::Merchant => MERCHANT_BRIEF@ + task + MERCHANT_CLOSE@,
        SubAgent::Prophet => PROPHET_BRIEF@ + task + PROPHET_CLOSE@,
    }
}

/// The error for a name that is no sub-agent's.
#[derive(Debug, Clone)]
pub struct UnknownSubAgent {
    pub name: String,
}

/// The prompt for the sub-agent called `agent` with `task`, or an error
/// naming the agent when there is no such sub-agent.
pub fn subagent_prompt(agent: &str, task: &str) -> (r: Result<String, UnknownSubAgent>)
    ensures
        match subagent_named(agent@) {
            Some(a) => r matches Ok(p) && p@ == subagent_prompt_spec(a, task@),
            None => r matches Err(e) && e.name@ == agent@,
        },
{
    let name = chars_of(agent);
    let mut out: Vec<char> = Vec::new();
    if seq_eq_chars(&name, "scribe") {
        push_str(&mut out, SCRIBE_BRIEF);
        push_str(&mut out, task);
        push_str(&mut out, SCRIBE_CLOSE);
    } else if seq_eq_chars(&name, "builder") {
        push_str(&mut out, BUILDER_BRIEF);
        push_str(&mut out, task);
        push_str(&mut out, BUILDER_CLOSE);
    } else if seq_eq_chars(&name, "scout") {
        push_str(&mut out, SCOUT_BRIEF);
        push_str(&mut out, task);
        push_str(&mut out, SCOUT_CLOSE);
    } else if seq_eq_chars(&name, "merchant") {
        push_str(&mut out, MERCHANT_BRIEF);
        push_str(&mut out, task);
        push_str(&mut out, MERCHANT_CLOSE);
    } else if seq_eq_chars(&name, "prophet") {
        push_str(&mut out, PROPHET_BRIEF);
        push_str(&mut out, task);
        push_str(&mut out, PROPHET_CLOSE);
    } else {
        return Err(UnknownSubAgent { name: agent.to_owned() });
    }
    Ok(string_of(&out))
}

/// How many bytes of the prompt the local fallback quotes.
pub const FALLBACK_QUOTE_BYTES: usize = 100;

/// Whether the fallback can quote `prompt`: a prompt longer than a hundred
/// bytes must have a character boundary at its hundredth byte.
pub fn subagent_fallback_defined(prompt: &str) -> (b: bool)
    ensures
        b == byte_prefix_defined(prompt@, FALLBACK_QUOTE_BYTES as nat),
{
    byte_prefix_ok(prompt, FALLBACK_QUOTE_BYTES)
}

/// What a sub-agent answers when no outside model does: it acknowledges the
/// task, quoting at most the first hundred bytes of the prompt.
pub fn subagent_fallback_reply(prompt: &str) -> (reply: String)
    requires
        byte_prefix_defined(prompt@, FALLBACK_QUOTE_BYTES as nat),
    ensures
        reply@ == "[SubAgent fallback] Task received: "@ + byte_prefix(
            prompt@,
            FALLBACK_QUOTE_BYTES as nat,
        ) + ". Operating on local logic."@,
{
    let mut out: Vec<char> = Vec::new();
    push_str(&mut out, "[SubAgent fallback] Task received: ");
    push_byte_prefix(&mut out, prompt, FALLBACK_QUOTE_BYTES);
    push_str(&mut out, ". Operating on local logic.");
    string_of(&out)
}

} // verus!
