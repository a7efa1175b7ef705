//! The self-improvement engine's decisions: where a skill lives, which skill
//! to improve next, what to ask a model for, and which search results name
//! repositories.
use vstd::prelude::*;
use crate::text::{
    chars_of, contains, contains_chars, line_at, line_bounds, lines, lines_from, push_prefix,
    push_range, push_str, string_of, take_chars,
};

verus! {

/// The engine that improves the kernel's skill files.
#[derive(Debug, Clone)]
pub struct SelfImproveEngine {
    pub skills_dir: String,
}

/// The path of skill `name` under directory `dir`.
pub open spec fn skill_path_spec(dir: Seq<char>, name: Seq<char>) -> Seq<char> {
    dir + "/"@ + name + ".md"@
}

/// How much of a skill's current text the improvement prompt shows.
pub const IMPROVE_PREVIEW_CHARS: usize = 400;

/// The prompt asking for an improved version of skill `name`.
pub open spec fn improvement_prompt_spec(name: Seq<char>, current: Seq<char>) -> Seq<char> {
    "Skill: "@ + name + "\nCurrent content (truncated):\n"@ + take_chars(
        current,
        IMPROVE_PREVIEW_CHARS as nat,
    )
        + "\n\nWrite an improved version of this skill file. Be concise, practical, add 2 example commands. Max 400 words."@
}

/// The prompt asking for a new skill file from a description.
pub open spec fn creation_prompt_spec(name: Seq<char>, description: Seq<char>) -> Seq<char> {
    "Create a skill file for '"@ + name + "'. Description: "@ + description
        + "\n\nFollow this format:\n---\nname: "@ + name
        + "\ndescription: <2-3 sentences>\ntriggers: [<keywords that trigger this skill>]\n---\n# Skill Name\n## What It Does\n## When to Activate\n## Commands/Examples\n"@
}

impl SelfImproveEngine {
    /// An engine working on the skill files under `skills_dir`.
    pub fn new(skills_dir: &str) -> (e: Self)
        ensures
            e.skills_dir@ == skills_dir@,
    {
        SelfImproveEngine { skills_dir: skills_dir.to_owned() }
    }

    /// Where skill `name` is stored: `<skills_dir>/<name>.md`.
    pub fn skill_path(&self, name: &str) -> (path: String)
        ensures
            path@ == skill_path_spec(self.skills_dir@, name@),
    {
        let mut out: Vec<char> = Vec::new();
        push_str(&mut out, self.skills_dir.as_str());
        push_str(&mut out, "/");
        push_str(&mut out, name);
        push_str(&mut out, ".md");
        string_of(&out)
    }

    /// The prompt asking for one concrete improvement of skill `name`, showing
    /// the first four hundred characters of its current text.
    pub fn improvement_prompt(&self, name: &str, current_content: &str) -> (prompt: String)
        ensures
            prompt@ == improvement_prompt_spec(name@, current_content@),
    {
        let current = chars_of(current_content);
        let mut out: Vec<char> = Vec::new();
        push_str(&mut out, "Skill: ");
        push_str(&mut out, name);
        push_str(&mut out, "\nCurrent content (truncated):\n");
        push_prefix(&mut out, &current, IMPROVE_PREVIEW_CHARS);
        push_str(
            &mut out,
            "\n\nWrite an improved version of this skill file. Be concise, practical, add 2 example commands. Max 400 words.",
        );
        string_of(&out)
    }

    /// The prompt asking a model to write skill `name` from `description`.
    pub fn creation_prompt(&self, name: &str, description: &str) -> (prompt: String)
        ensures
            prompt@ == creation_prompt_spec(name@, description@),
    {
        let mut out: Vec<char> = Vec::new();
        push_str(&mut out, "Create a skill file for '");
        push_str(&mut out, name);
        push_str(&mut out, "'. Description: ");
        push_str(&mut out, description);
        push_str(&mut out, "\n\nFollow this format:\n---\nname: ");
        push_str(&mut out, name);
        push_str(
            &mut out,
            "\ndescription: <2-3 sentences>\ntriggers: [<keywords that trigger this skill>]\n---\n# Skill Name\n## What It Does\n## When to Activate\n## Commands/Examples\n",
        );
        string_of(&out)
    }
}

/// What a skill is given to work from when its file cannot be read.
pub open spec fn skill_template_fallback_spec(name: Seq<char>, description: Seq<char>) -> Seq<char> {
    "You are invoking the "@ + name + " skill. "@ + description
}

/// The stand-in template of skill `name` (see `skill_template_fallback_spec`).
pub fn skill_template_fallback(name: &str, description: &str) -> (t: String)
    ensures
        t@ == skill_template_fallback_spec(name@, description@),
{
    let mut out: Vec<char> = Vec::new();
    push_str(&mut out, "You are invoking the ");
    push_str(&mut out, name);
    push_str(&mut out, " skill. ");
    push_str(&mut out, description);
    string_of(&out)
}

/// A skill's name answers a task hint when the hint is given and the name
/// contains it; such a skill scores half a point more.
pub fn names_hint(name: &str, hint: &str) -> (b: bool)
    ensures
        b == (hint@.len() > 0 && contains(name@, hint@)),
{
    if hint.is_empty() {
        return false;
    }
    let n = chars_of(name);
    let h = chars_of(hint);
    contains_chars(&n, &h)
}

/// Index `i` holds the skill with the least content, and no earlier skill has
/// as little (what a stable sort by length followed by taking the first
/// yields).
pub open spec fn is_least_rich(c: Seq<(String, usize)>, i: int) -> bool {
    &&& 0 <= i < c.len()
    &&& forall|j: int| 0 <= j < c.len() ==> c[i].1 <= #[trigger] c[j].1
    &&& forall|j: int| 0 <= j < i ==> c[i].1 < #[trigger] c[j].1
}

/// The name of the skill with the least content among `(name, length)`
/// candidates, the earliest one among equals; `None` when there are none.
pub fn least_rich_skill(candidates: &Vec<(String, usize)>) -> (r: Option<String>)
    ensures
        candidates@.len() == 0 <==> r is None,
        r matches Some(n) ==> exists|i: int| is_least_rich(candidates@, i) && n@
            == candidates@[i].0@,
{
    if candidates.len() == 0 {
        return None;
    }
    let mut best: usize = 0;
    let mut i: usize = 1;
    while i < candidates.len()
        invariant
            1 <= i <= candidates.len(),
            best < i,
            forall|j: int| 0 <= j < i ==> candidates@[best as int].1 <= #[trigger] candidates@[j].1,
            forall|j: int| 0 <= j < best ==> candidates@[best as int].1 < #[trigger] candidates@[j].1,
        decreases candidates.len() - i,
    {
        if candidates[i].1 < candidates[best].1 {
            best = i;
        }
        i = i + 1;
    }
    let name = candidates[best].0.clone();
    proof {
        assert(is_least_rich(candidates@, best as int));
    }
    Some(name)
}

/// A search result line that names a GitHub repository.
pub open spec fn names_repository(line: Seq<char>) -> bool {
    contains(line, "github.com"@)
}

/// The lines of `stdout` that mention `github.com`, in order.
pub open spec fn repository_lines(stdout: Seq<char>) -> Seq<Seq<char>> {
    lines(stdout).filter(|l: Seq<char>| names_repository(l))
}

/// The lines of search output that name GitHub repositories.
pub fn github_repository_lines(stdout: &str) -> (found: Vec<String>)
    ensures
        found.len() == repository_lines(stdout@).len(),
        forall|i: int| 0 <= i < found.len() ==> #[trigger] found[i]@ == repository_lines(stdout@)[i],
{
    let v = chars_of(stdout);
    let needle = chars_of("github.com");
    let mut found: Vec<String> = Vec::new();
    let ghost pred = |l: Seq<char>| names_repository(l);
    let ghost mut seen: Seq<Seq<char>> = Seq::empty();
    let ghost mut kept: Seq<Seq<char>> = Seq::empty();
    let mut pos: usize = 0;
    proof {
        reveal(Seq::filter);
        assert(seen.filter(pred) =~= kept);
        assert(seen + lines_from(v@, 0) =~= lines(stdout@));
    }
    while pos < v.len()
        invariant
            v@ == stdout@,
            needle@ == "github.com"@,
            pos <= v.len(),
            seen + lines_from(v@, pos as int) == lines(stdout@),
            pred == (|l: Seq<char>| names_repository(l)),
            seen.filter(pred) == kept,
            found.len() == kept.len(),
            forall|i: int| 0 <= i < found.len() ==> #[trigger] found[i]@ == kept[i],
        decreases v.len() - pos,
    {
        let (lo, hi, next) = line_bounds(&v, pos);
        let mut line: Vec<char> = Vec::new();
        push_range(&mut line, &v, lo, hi);
        let keep = contains_chars(&line, &needle);
        proof {
            let l = line_at(v@, pos as int);
            assert(line@ == l);
            seen.lemma_filter_push(l, pred);
            assert(names_repository(l) == keep);
            assert(pred(l) == names_repository(l));
            let old_seen = seen;
            assert(seen.push(l) + lines_from(v@, next as int) =~= seen + (seq![l] + lines_from(
                v@,
                next as int,
            )));
            seen = seen.push(l);
            if keep {
                kept = kept.push(l);
            }
            assert(seen.filter(pred) == kept);
        }
        if keep {
            found.push(string_of(&line));
        }
        pos = next;
    }
    proof {
        assert(lines_from(v@, pos as int) =~= Seq::<Seq<char>>::empty());
        assert(seen + Seq::<Seq<char>>::empty() =~= seen);
    }
    found
}

} // verus!
