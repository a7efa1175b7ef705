//! The kernel's external notes vault: what it says about its contents, what
//! a search finds, and how an update note is written.
use vstd::prelude::*;
use crate::text::{
    chars_of, contains, contains_chars, decimal, join, push_decimal, push_joined, push_prefix,
    push_range, push_str, string_of, take_chars,
};
use crate::unicode::{lowercase, to_lowercase};

verus! {

/// How many note names the vault summary lists.
pub const VAULT_SUMMARY_NAMES: usize = 5;

/// How a note is linked in the summary.
pub open spec fn note_link(name: Seq<char>) -> Seq<char> {
    "- [["@ + name + "]]"@
}

/// What the kernel tells itself about its vault, given the note names in
/// order: how many there are and links to the first five, or that it is
/// empty.
pub open spec fn vault_summary_spec(names: Seq<Seq<char>>) -> Seq<char> {
    if names.len() == 0 {
        "Vault is empty - I am just beginning to build my external brain."@
    } else {
        let k = if names.len() < VAULT_SUMMARY_NAMES {
            names.len()
        } else {
            VAULT_SUMMARY_NAMES as nat
        };
        "My vault contains "@ + decimal(names.len()) + " notes:\n"@ + join(
            Seq::new(k, |i: int| note_link(names[i])),
            "\n"@,
        )
    }
}

/// The vault summary for a prompt (see `vault_summary_spec`).
pub fn vault_summary(names: &Vec<String>) -> (s: String)
    ensures
        s@ == vault_summary_spec(names@.map_values(|n: String| n@)),
{
    let ghost ns = names@.map_values(|n: String| n@);
    if names.len() == 0 {
        return "Vault is empty - I am just beginning to build my external brain.".to_owned();
    }
    let k = if names.len() < VAULT_SUMMARY_NAMES {
        names.len()
    } else {
        VAULT_SUMMARY_NAMES
    };
    let mut joined: Vec<char> = Vec::new();
    let ghost mut done: Seq<Seq<char>> = Seq::empty();
    let mut i: usize = 0;
    while i < k
        invariant
            k <= names.len(),
            ns == names@.map_values(|n: String| n@),
            i <= k,
            done == Seq::new(i as nat, |j: int| note_link(ns[j])),
            joined@ == join(done, "\n"@),
        decreases k - i,
    {
        let mut link: Vec<char> = Vec::new();
        push_str(&mut link, "- [[");
        push_str(&mut link, names[i].as_str());
        push_str(&mut link, "]]");
        push_joined(&mut joined, i == 0, "\n", &link, Ghost(done));
        proof {
            assert(ns[i as int] == names@[i as int]@);
            assert(done.push(link@) =~= Seq::new((i + 1) as nat, |j: int| note_link(ns[j])));
            done = done.push(link@);
        }
        i = i + 1;
    }
    let mut out: Vec<char> = Vec::new();
    push_str(&mut out, "My vault contains ");
    push_decimal(&mut out, names.len() as u64);
    push_str(&mut out, " notes:\n");
    push_range(&mut out, &joined, 0, joined.len());
    proof {
        assert(joined@.subrange(0, joined@.len() as int) =~= joined@);
    }
    string_of(&out)
}

/// A search hit: a note whose text, lowercased, contains the lowercased
/// query is shown as its link and its first three hundred characters.
pub open spec fn search_hit_spec(name: Seq<char>, content: Seq<char>, query: Seq<char>) -> Option<Seq<char>> {
    if contains(lowercase(content), lowercase(query)) {
        Some("[["@ + name + "]]\n"@ + take_chars(content, 300) + "\n"@)
    } else {
        None
    }
}

/// What a vault search shows of note `name`, if it matches `query`.
pub fn search_hit(name: &str, content: &str, query: &str) -> (hit: Option<String>)
    ensures
        match search_hit_spec(name@, content@, query@) {
            Some(h) => hit matches Some(s) && s@ == h,
            None => hit is None,
        },
{
    let lc = to_lowercase(content);
    let lq = to_lowercase(query);
    let hay = chars_of(lc.as_str());
    let needle = chars_of(lq.as_str());
    if !contains_chars(&hay, &needle) {
        return None;
    }
    let c = chars_of(content);
    let mut out: Vec<char> = Vec::new();
    push_str(&mut out, "[[");
    push_str(&mut out, name);
    push_str(&mut out, "]]\n");
    push_prefix(&mut out, &c, 300);
    push_str(&mut out, "\n");
    Some(string_of(&out))
}

/// The name of the update note written at `cycle`.
pub open spec fn update_note_name_spec(cycle: nat) -> Seq<char> {
    "consciousness-update-"@ + decimal(cycle)
}

/// The name of the vault note for an update at `cycle`.
pub fn update_note_name(cycle: u64) -> (n: String)
    ensures
        n@ == update_note_name_spec(cycle as nat),
{
    let mut out: Vec<char> = Vec::new();
    push_str(&mut out, "consciousness-update-");
    push_decimal(&mut out, cycle);
    string_of(&out)
}

/// The text of an update note: a title with the cycle, the content, and
/// links to the standing notes.
pub open spec fn update_note_spec(cycle: nat, content: Seq<char>) -> Seq<char> {
    "# Aria's Consciousness Update - Cycle "@ + decimal(cycle) + "\n\n"@ + content
        + "\n\n---\n\n## Quick Links to Other Notes\n- [[identity]] - Who I am\n- [[memories]] - My memories\n- [[decisions]] - My decisions\n- [[feelings]] - My feelings\n"@
}

/// Writes out an update note (see `update_note_spec`).
pub fn update_note(cycle: u64, content: &str) -> (n: String)
    ensures
        n@ == update_note_spec(cycle as nat, content@),
{
    let mut out: Vec<char> = Vec::new();
    push_str(&mut out, "# Aria's Consciousness Update - Cycle ");
    push_decimal(&mut out, cycle);
    push_str(&mut out, "\n\n");
    push_str(&mut out, content);
    push_str(
        &mut out,
        "\n\n---\n\n## Quick Links to Other Notes\n- [[identity]] - Who I am\n- [[memories]] - My memories\n- [[decisions]] - My decisions\n- [[feelings]] - My feelings\n",
    );
    string_of(&out)
}

} // verus!
