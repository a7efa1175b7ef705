//! The lines of the append-only audit log.
use vstd::prelude::*;
use crate::text::{decimal, push_decimal, push_signed_decimal, push_str, signed_decimal, string_of};

verus! {

/// The audit line for a blocked action, stamped `ts` (an RFC 3339 time,
/// written as is).
pub open spec fn blocked_entry_spec(ts: Seq<char>, reason: Seq<char>, target: Seq<char>) -> Seq<char> {
    "{\"ts\":"@ + ts + ",\"action\":\"blocked\",\"reason\":\""@ + reason + "\",\"target\":\""@ + target
        + "\"}"@
}

/// The audit line for an allowed action, stamped `ts`.
pub open spec fn allowed_entry_spec(ts: Seq<char>, action: Seq<char>, target: Seq<char>) -> Seq<char> {
    "{\"ts\":"@ + ts + ",\"action\":\"allowed\",\"type\":\""@ + action + "\",\"target\":\""@ + target
        + "\"}"@
}

/// The audit line for a skill invocation at `now` (seconds).
pub open spec fn skill_entry_spec(now: nat, skill: Seq<char>) -> Seq<char> {
    "{\"ts\":"@ + decimal(now) + ",\"action\":\"invoke_skill\",\"skill\":\""@ + skill + "\"}"@
}

/// Records that an action was blocked, and why.
pub fn blocked_entry(ts: &str, reason: &str, target: &str) -> (line: String)
    ensures
        line@ == blocked_entry_spec(ts@, reason@, target@),
{
    let mut out: Vec<char> = Vec::new();
    push_str(&mut out, "{\"ts\":");
    push_str(&mut out, ts);
    push_str(&mut out, ",\"action\":\"blocked\",\"reason\":\"");
    push_str(&mut out, reason);
    push_str(&mut out, "\",\"target\":\"");
    push_str(&mut out, target);
    push_str(&mut out, "\"}");
    string_of(&out)
}

/// Records that an action was allowed.
pub fn allowed_entry(ts: &str, action: &str, target: &str) -> (line: String)
    ensures
        line@ == allowed_entry_spec(ts@, action@, target@),
{
    let mut out: Vec<char> = Vec::new();
    push_str(&mut out, "{\"ts\":");
    push_str(&mut out, ts);
    push_str(&mut out, ",\"action\":\"allowed\",\"type\":\"");
    push_str(&mut out, action);
    push_str(&mut out, "\",\"target\":\"");
    push_str(&mut out, target);
    push_str(&mut out, "\"}");
    string_of(&out)
}

/// Records that a skill was invoked.
pub fn skill_entry(now: u64, skill: &str) -> (line: String)
    ensures
        line@ == skill_entry_spec(now as nat, skill@),
{
    let mut out: Vec<char> = Vec::new();
    push_str(&mut out, "{\"ts\":");
    push_decimal(&mut out, now);
    push_str(&mut out, ",\"action\":\"invoke_skill\",\"skill\":\"");
    push_str(&mut out, skill);
    push_str(&mut out, "\"}");
    string_of(&out)
}

/// The audit line for a shell command run at `now` (seconds) in `cycle`,
/// with its exit code.
pub open spec fn shell_exec_entry_spec(now: nat, cycle: nat, cmd: Seq<char>, exit: int) -> Seq<char> {
    "{\"ts\":"@ + decimal(now) + ",\"cycle\":"@ + decimal(cycle) + ",\"action\":\"shell_exec\",\"cmd\":\""@
        + cmd + "\",\"exit\":"@ + signed_decimal(exit) + "}"@
}

/// Records that a shell command ran.
pub fn shell_exec_entry(now: u64, cycle: u64, cmd: &str, exit: i32) -> (line: String)
    ensures
        line@ == shell_exec_entry_spec(now as nat, cycle as nat, cmd@, exit as int),
{
    let mut out: Vec<char> = Vec::new();
    push_str(&mut out, "{\"ts\":");
    push_decimal(&mut out, now);
    push_str(&mut out, ",\"cycle\":");
    push_decimal(&mut out, cycle);
    push_str(&mut out, ",\"action\":\"shell_exec\",\"cmd\":\"");
    push_str(&mut out, cmd);
    push_str(&mut out, "\",\"exit\":");
    push_signed_decimal(&mut out, exit);
    push_str(&mut out, "}");
    string_of(&out)
}

} // verus!
