//! Condensing free text: stripping markup for context snippets, taking the
//! first sentence of a passage, and pulling marked task lines out of model
//! output.
use vstd::prelude::*;
use crate::text::{
    byte_len, byte_len_of, byte_span_end, char_is_ws, chars_of, find, find_byte_span,
    find_chars, has_byte_span, is_ws, lemma_contains_find, lemma_line_end,
    lemma_line_end_bounds, line_end, occurs_at, push_range, starts_with, string_of, trim,
    trim_bounds,
};
use crate::unicode::{to_uppercase, uppercase};

verus! {

/// Characters that markdown and line structure use, all read as a blank.
pub open spec fn is_markup_blank(c: char) -> bool {
    c == '\n' || c == '\r' || c == '\t' || c == '#' || c == '*' || c == '`' || c == '['
        || c == ']' || c == '(' || c == ')' || c == '|' || c == '_'
}

/// Text with every tag (from a `<` up to the next `>`) dropped, and markup
/// characters outside tags turned into spaces; `in_tag` says whether the scan
/// starts inside a tag.
pub open spec fn strip_markup(s: Seq<char>, in_tag: bool) -> Seq<char>
    decreases s.len(),
{
    if s.len() == 0 {
        Seq::empty()
    } else {
        let c = s[0];
        let rest = s.drop_first();
        if c == '<' {
            strip_markup(rest, true)
        } else if c == '>' {
            strip_markup(rest, false)
        } else if in_tag {
            strip_markup(rest, true)
        } else if is_markup_blank(c) {
            seq![' '] + strip_markup(rest, false)
        } else {
            seq![c] + strip_markup(rest, false)
        }
    }
}

/// The whitespace-separated words of `s` joined by single spaces (what
/// `split_whitespace` followed by `join(" ")` yields). `in_text` says whether a
/// word has already been emitted, `gap` whether whitespace was seen since.
pub open spec fn collapse_ws_from(s: Seq<char>, in_text: bool, gap: bool) -> Seq<char>
    decreases s.len(),
{
    if s.len() == 0 {
        Seq::empty()
    } else if is_ws(s[0]) {
        collapse_ws_from(s.drop_first(), in_text, in_text)
    } else {
        (if gap {
            seq![' ']
        } else {
            Seq::empty()
        }) + seq![s[0]] + collapse_ws_from(s.drop_first(), true, false)
    }
}

/// The words of `s` joined by single spaces.
pub open spec fn collapse_ws(s: Seq<char>) -> Seq<char> {
    collapse_ws_from(s, false, false)
}

/// Plain text for a prompt: tags dropped, markup blanked, whitespace collapsed.
pub open spec fn clean_text(s: Seq<char>) -> Seq<char> {
    collapse_ws(strip_markup(s, false))
}

proof fn lemma_strip_step(s: Seq<char>, i: int, in_tag: bool)
    requires
        0 <= i < s.len(),
    ensures
        strip_markup(s.skip(i), in_tag) == (if s[i] == '<' {
            strip_markup(s.skip(i + 1), true)
        } else if s[i] == '>' {
            strip_markup(s.skip(i + 1), false)
        } else if in_tag {
            strip_markup(s.skip(i + 1), true)
        } else if is_markup_blank(s[i]) {
            seq![' '] + strip_markup(s.skip(i + 1), false)
        } else {
            seq![s[i]] + strip_markup(s.skip(i + 1), false)
        }),
{
    assert(s.skip(i).drop_first() =~= s.skip(i + 1));
    assert(s.skip(i)[0] == s[i]);
}

proof fn lemma_collapse_step(s: Seq<char>, i: int, in_text: bool, gap: bool)
    requires
        0 <= i < s.len(),
    ensures
        collapse_ws_from(s.skip(i), in_text, gap) == (if is_ws(s[i]) {
            collapse_ws_from(s.skip(i + 1), in_text, in_text)
        } else {
            (if gap {
                seq![' ']
            } else {
                Seq::empty()
            }) + seq![s[i]] + collapse_ws_from(s.skip(i + 1), true, false)
        }),
{
    assert(s.skip(i).drop_first() =~= s.skip(i + 1));
    assert(s.skip(i)[0] == s[i]);
}

fn strip_markup_chars(v: &Vec<char>) -> (out: Vec<char>)
    ensures
        out@ == strip_markup(v@, false),
{
    let mut out: Vec<char> = Vec::new();
    let mut in_tag = false;
    let mut i: usize = 0;
    proof {
        assert(v@.skip(0) =~= v@);
    }
    while i < v.len()
        invariant
            i <= v.len(),
            out@ + strip_markup(v@.skip(i as int), in_tag) == strip_markup(v@, false),
        decreases v.len() - i,
    {
        let c = v[i];
        proof {
            lemma_strip_step(v@, i as int, in_tag);
        }
        if c == '<' {
            in_tag = true;
        } else if c == '>' {
            in_tag = false;
        } else if in_tag {
        } else {
            let blank = c == '\n' || c == '\r' || c == '\t' || c == '#' || c == '*' || c == '`'
                || c == '[' || c == ']' || c == '(' || c == ')' || c == '|' || c == '_';
            let d = if blank {
                ' '
            } else {
                c
            };
            proof {
                assert(out@.push(d) + strip_markup(v@.skip(i + 1), false) =~= out@ + (seq![d]
                    + strip_markup(v@.skip(i + 1), false)));
            }
            out.push(d);
        }
        i = i + 1;
    }
    proof {
        assert(v@.skip(i as int) =~= Seq::<char>::empty());
        assert(out@ + Seq::<char>::empty() =~= out@);
    }
    out
}

fn collapse_ws_chars(v: &Vec<char>) -> (out: Vec<char>)
    ensures
        out@ == collapse_ws(v@),
{
    let mut out: Vec<char> = Vec::new();
    let mut in_text = false;
    let mut gap = false;
    let mut i: usize = 0;
    proof {
        assert(v@.skip(0) =~= v@);
    }
    while i < v.len()
        invariant
            i <= v.len(),
            out@ + collapse_ws_from(v@.skip(i as int), in_text, gap) == collapse_ws(v@),
        decreases v.len() - i,
    {
        let c = v[i];
        proof {
            lemma_collapse_step(v@, i as int, in_text, gap);
        }
        if char_is_ws(c) {
            gap = in_text;
        } else {
            let ghost before = out@;
            if gap {
                out.push(' ');
            }
            out.push(c);
            proof {
                let pre: Seq<char> = if gap {
                    seq![' ']
                } else {
                    Seq::empty()
                };
                assert(out@ =~= before + pre + seq![c]);
                assert(out@ + collapse_ws_from(v@.skip(i + 1), true, false) =~= before + (pre
                    + seq![c] + collapse_ws_from(v@.skip(i + 1), true, false)));
            }
            in_text = true;
            gap = false;
        }
        i = i + 1;
    }
    proof {
        assert(v@.skip(i as int) =~= Seq::<char>::empty());
        assert(out@ + Seq::<char>::empty() =~= out@);
    }
    out
}

fn clean_chars(raw: &str) -> (out: Vec<char>)
    ensures
        out@ == clean_text(raw@),
{
    let v = chars_of(raw);
    let stripped = strip_markup_chars(&v);
    collapse_ws_chars(&stripped)
}

/// Plain text for a prompt: drops `<...>` tags, reads newlines, tabs and
/// markdown punctuation as blanks, and joins the remaining words with single
/// spaces.
pub fn clean_context_text(raw: &str) -> (out: String)
    ensures
        out@ == clean_text(raw@),
{
    let v = clean_chars(raw);
    string_of(&v)
}

/// What `first_sentence_or_slice` returns: the cleaned text up to and
/// including its first `.`, cut to `max` characters, or a fixed notice when
/// nothing is left after cleaning.
pub open spec fn first_sentence_spec(text: Seq<char>, max: nat) -> Seq<char> {
    let cleaned = clean_text(text);
    if cleaned.len() == 0 {
        "No summary available"@
    } else {
        let sentence = match find(cleaned, seq!['.']) {
            Some(pos) => cleaned.take(pos + 1),
            None => cleaned,
        };
        if sentence.len() <= max {
            sentence
        } else {
            sentence.take(max as int)
        }
    }
}

/// The first sentence of `text` after cleaning, at most `max` characters long.
pub fn first_sentence_or_slice(text: &str, max: usize) -> (out: String)
    ensures
        out@ == first_sentence_spec(text@, max as nat),
{
    let cleaned = clean_chars(text);
    if cleaned.len() == 0 {
        return "No summary available".to_owned();
    }
    let mut dot: Vec<char> = Vec::new();
    dot.push('.');
    proof {
        assert(dot@ =~= seq!['.']);
    }
    let end = match find_chars(&cleaned, &dot) {
        Some(pos) => pos + 1,
        None => cleaned.len(),
    };
    proof {
        if let Some(pos) = find(cleaned@, seq!['.']) {
            assert(occurs_at(cleaned@, seq!['.'], pos)) by {
                lemma_contains_find(cleaned@, seq!['.']);
            }
        } else {
            assert(cleaned@.take(cleaned@.len() as int) =~= cleaned@);
        }
    }
    let take = if end <= max {
        end
    } else {
        max
    };
    let mut out: Vec<char> = Vec::new();
    push_range(&mut out, &cleaned, 0, take);
    proof {
        assert(out@ =~= first_sentence_spec(text@, max as nat));
    }
    string_of(&out)
}

// ---------------------------------------------------------------------------
// Task lines
// ---------------------------------------------------------------------------

/// How many tasks one piece of output yields at most.
pub const MAX_TASKS_PER_OUTPUT: usize = 3;

/// A task description must stay under this many bytes.
pub const MAX_TASK_BYTES: usize = 200;

/// What a trimmed line yields for the task markers tried so far.
pub enum LineTask {
    /// The line names no task.
    NoTask,
    /// The line yields this description.
    Task(Seq<char>),
    /// The line's uppercase form starts with a marker whose byte length does
    /// not end on a character boundary of the line, where slicing panics.
    Undefined,
}

/// What one marker makes of a trimmed line: the line must start with the
/// marker once uppercased; the task is what follows the marker's bytes,
/// trimmed, and counts only when non-empty and under the byte limit.
pub open spec fn marker_task(t: Seq<char>, m: Seq<char>) -> LineTask {
    if !starts_with(uppercase(t), m) {
        LineTask::NoTask
    } else if !has_byte_span(t, 0, byte_len(m)) {
        LineTask::Undefined
    } else {
        let task = trim(t.skip(byte_span_end(t, 0, byte_len(m))));
        if task.len() > 0 && byte_len(task) < MAX_TASK_BYTES {
            LineTask::Task(task)
        } else {
            LineTask::NoTask
        }
    }
}

/// The task markers, in the order they are tried.
pub open spec fn task_markers() -> Seq<Seq<char>> {
    seq!["ACTION:"@, "TASK:"@, "TODO:"@, "NEXT:"@, "DO:"@]
}

/// The outcome of trying `markers[k..]` on a trimmed line.
pub open spec fn line_task_from(t: Seq<char>, markers: Seq<Seq<char>>, k: int) -> LineTask
    decreases markers.len() - k,
{
    if k < 0 || k >= markers.len() {
        LineTask::NoTask
    } else {
        match marker_task(t, markers[k]) {
            LineTask::NoTask => line_task_from(t, markers, k + 1),
            other => other,
        }
    }
}

/// The task that a trimmed line names, trying each marker in turn.
pub open spec fn line_task(t: Seq<char>) -> LineTask {
    line_task_from(t, task_markers(), 0)
}

/// The tasks named by the lines of `s` that start at `pos`, at most `limit`
/// of them; lines after the last needed one are not read. `None` when a line
/// read on the way is one where slicing panics. (Lines are split at `'\n'`;
/// the `'\r'` of a `"\r\n"` ending is whitespace and goes with the trim.)
pub open spec fn tasks_from(s: Seq<char>, pos: int, limit: nat) -> Option<Seq<Seq<char>>>
    decreases s.len() + 1 - pos, limit,
{
    if pos < 0 || pos >= s.len() || limit == 0 {
        Some(Seq::empty())
    } else {
        let e = line_end(s, pos);
        proof {
            lemma_line_end_bounds(s, pos);
        }
        match line_task(trim(s.subrange(pos, e))) {
            LineTask::Undefined => None,
            LineTask::NoTask => tasks_from(s, e + 1, limit),
            LineTask::Task(t) => match tasks_from(s, e + 1, (limit - 1) as nat) {
                Some(rest) => Some(seq![t] + rest),
                None => None,
            },
        }
    }
}

/// The tasks named in model output: at most three, in line order.
pub open spec fn extracted_tasks(output: Seq<char>) -> Option<Seq<Seq<char>>> {
    tasks_from(output, 0, MAX_TASKS_PER_OUTPUT as nat)
}

/// The markers as characters, in order.
fn markers_chars() -> (ms: Vec<Vec<char>>)
    ensures
        ms.len() == task_markers().len(),
        forall|k: int| 0 <= k < ms.len() ==> #[trigger] ms[k]@ == task_markers()[k],
        forall|k: int| 0 <= k < ms.len() ==> #[trigger] ms[k].len() <= 7,
{
    proof {
        reveal_strlit("ACTION:");
        reveal_strlit("TASK:");
        reveal_strlit("TODO:");
        reveal_strlit("NEXT:");
        reveal_strlit("DO:");
    }
    let mut ms: Vec<Vec<char>> = Vec::new();
    ms.push(chars_of("ACTION:"));
    ms.push(chars_of("TASK:"));
    ms.push(chars_of("TODO:"));
    ms.push(chars_of("NEXT:"));
    ms.push(chars_of("DO:"));
    ms
}

/// The task named by the trimmed line `v[lo..hi]` (`Ok(None)` when none,
/// `Err(())` when a marker's bytes do not end on a character boundary).
fn line_task_exec(v: &Vec<char>, lo: usize, hi: usize, ms: &Vec<Vec<char>>) -> (r: Result<
    Option<(usize, usize)>,
    (),
>)
    requires
        lo <= hi <= v.len(),
        ms.len() == task_markers().len(),
        forall|k: int| 0 <= k < ms.len() ==> #[trigger] ms[k]@ == task_markers()[k],
        forall|k: int| 0 <= k < ms.len() ==> #[trigger] ms[k].len() <= 7,
    ensures
        match r {
            Err(()) => line_task(v@.subrange(lo as int, hi as int)) is Undefined,
            Ok(None) => line_task(v@.subrange(lo as int, hi as int)) is NoTask,
            Ok(Some((a, b))) => lo <= a <= b <= hi && line_task(v@.subrange(lo as int, hi as int))
                == LineTask::Task(v@.subrange(a as int, b as int)),
        },
{
    let ghost t = v@.subrange(lo as int, hi as int);
    let mut line: Vec<char> = Vec::new();
    push_range(&mut line, v, lo, hi);
    let line_text = string_of(&line);
    let upper_text = to_uppercase(line_text.as_str());
    let upper = chars_of(upper_text.as_str());
    let mut k: usize = 0;
    while k < ms.len()
        invariant
            lo <= hi <= v.len(),
            ms.len() == task_markers().len(),
            forall|k: int| 0 <= k < ms.len() ==> #[trigger] ms[k]@ == task_markers()[k],
            forall|k: int| 0 <= k < ms.len() ==> #[trigger] ms[k].len() <= 7,
            k <= ms.len(),
            upper@ == uppercase(t),
            t == v@.subrange(lo as int, hi as int),
            line_task(t) == line_task_from(t, task_markers(), k as int),
        decreases ms.len() - k,
    {
        let m = &ms[k];
        assert(m@ == task_markers()[k as int]);
        if starts_with_all(&upper, m) {
            assert(m.len() <= 7);
            let mbytes = byte_len_of(m, 0, m.len());
            proof {
                assert(m@.subrange(0, m@.len() as int) =~= m@);
            }
            proof {
                crate::text::lemma_byte_len_mono(m@, 0, 0, 0);
            }
            if mbytes > 28 {
                proof {
                    lemma_byte_len_at_most(m@);
                }
                return Err(());
            }
            match find_byte_span(v, lo, mbytes) {
                None => {
                    proof {
                        assert forall|j: int| !crate::text::byte_span_ends_at(t, 0, mbytes as nat, j) by {
                            if 0 <= j <= t.len() {
                                assert(t.subrange(0, j) =~= v@.subrange(lo as int, lo + j));
                                assert(!crate::text::byte_span_ends_at(v@, lo as int, mbytes as nat, lo + j));
                            }
                        }
                    }
                    return Err(());
                },
                Some(j) => {
                    if j > hi {
                        proof {
                            lemma_span_past_line(v@, lo as int, hi as int, j as int, mbytes as nat);
                        }
                        return Err(());
                    }
                    let (a, b) = trim_bounds(v, j, hi);
                    let short = crate::text::byte_len_lt(v, a, b, MAX_TASK_BYTES);
                    proof {
                        assert(t.subrange(0, j - lo) =~= v@.subrange(lo as int, j as int));
                        assert(crate::text::byte_span_ends_at(t, 0, mbytes as nat, j - lo));
                        crate::text::lemma_byte_span_unique(t, 0, mbytes as nat, j - lo);
                        assert(t.skip(j - lo) =~= v@.subrange(j as int, hi as int));
                    }
                    if a < b && short {
                        return Ok(Some((a, b)));
                    }
                },
            }
        }
        k = k + 1;
    }
    Ok(None)
}

proof fn lemma_byte_len_at_most(s: Seq<char>)
    ensures
        byte_len(s) <= 4 * s.len(),
    decreases s.len(),
{
    if s.len() > 0 {
        lemma_byte_len_at_most(s.drop_last());
        crate::text::lemma_byte_len_push(s.drop_last(), s.last());
        assert(s.drop_last().push(s.last()) =~= s);
    }
}

proof fn lemma_span_past_line(s: Seq<char>, lo: int, hi: int, j: int, n: nat)
    requires
        0 <= lo <= hi < j <= s.len(),
        crate::text::byte_span_ends_at(s, lo, n, j),
    ensures
        !has_byte_span(s.subrange(lo, hi), 0, n),
{
    let t = s.subrange(lo, hi);
    assert forall|k: int| !crate::text::byte_span_ends_at(t, 0, n, k) by {
        if 0 <= k <= t.len() {
            assert(t.subrange(0, k) =~= s.subrange(lo, lo + k));
            crate::text::lemma_byte_len_mono(s, lo, lo + k, j);
        }
    }
}

/// Whether `v` starts with `prefix`.
fn starts_with_all(v: &Vec<char>, prefix: &Vec<char>) -> (b: bool)
    ensures
        b == starts_with(v@, prefix@),
{
    let b = crate::text::starts_with_at(v, 0, v.len(), prefix);
    proof {
        assert(v@.subrange(0, v@.len() as int) =~= v@);
    }
    b
}

fn tasks_impl(output: &str) -> (r: Option<Vec<String>>)
    ensures
        match r {
            None => extracted_tasks(output@) is None,
            Some(ts) => extracted_tasks(output@) matches Some(spec_ts) && ts.len() == spec_ts.len()
                && forall|i: int| 0 <= i < ts.len() ==> #[trigger] ts[i]@ == spec_ts[i],
        },
{
    let v = chars_of(output);
    let ms = markers_chars();
    let mut found: Vec<String> = Vec::new();
    let mut pos: usize = 0;
    let ghost s = v@;
    let ghost mut done: Seq<Seq<char>> = Seq::empty();
    while pos < v.len() && found.len() < MAX_TASKS_PER_OUTPUT
        invariant
            s == v@,
            s == output@,
            forall|k: int| 0 <= k < ms.len() ==> #[trigger] ms[k].len() <= 7,
            ms.len() == task_markers().len(),
            forall|k: int| 0 <= k < ms.len() ==> #[trigger] ms[k]@ == task_markers()[k],
            found.len() <= MAX_TASKS_PER_OUTPUT,
            found.len() == done.len(),
            forall|i: int| 0 <= i < found.len() ==> #[trigger] found[i]@ == done[i],
            pos <= v.len(),
            extracted_tasks(s) == (match tasks_from(s, pos as int, (MAX_TASKS_PER_OUTPUT - found.len()) as nat) {
                Some(rest) => Some(done + rest),
                None => None::<Seq<Seq<char>>>,
            }),
        decreases v.len() - pos,
    {
        let mut e = pos;
        while e < v.len() && v[e] != '\n'
            invariant
                pos <= e <= v.len(),
                forall|j: int| pos <= j < e ==> v@[j] != '\n',
            decreases v.len() - e,
        {
            e = e + 1;
        }
        proof {
            lemma_line_end(s, pos as int, e as int);
        }
        let (lo, hi) = trim_bounds(&v, pos, e);
        let ghost limit = (MAX_TASKS_PER_OUTPUT - found.len()) as nat;
        proof {
            lemma_line_end_bounds(s, pos as int);
            assert(tasks_from(s, pos as int, limit) == (match line_task(trim(s.subrange(pos as int, e as int))) {
                LineTask::Undefined => None,
                LineTask::NoTask => tasks_from(s, e + 1, limit),
                LineTask::Task(t) => match tasks_from(s, e + 1, (limit - 1) as nat) {
                    Some(rest) => Some(seq![t] + rest),
                    None => None,
                },
            }));
            if e == v.len() {
                assert(tasks_from(s, e + 1, limit) == Some(Seq::<Seq<char>>::empty()));
                assert(tasks_from(s, e as int, limit) == Some(Seq::<Seq<char>>::empty()));
                if limit > 0 {
                    assert(tasks_from(s, e + 1, (limit - 1) as nat) == Some(Seq::<Seq<char>>::empty()));
                    assert(tasks_from(s, e as int, (limit - 1) as nat) == Some(Seq::<Seq<char>>::empty()));
                }
            }
        }
        let outcome = line_task_exec(&v, lo, hi, &ms);
        match outcome {
            Err(()) => {
                return None;
            },
            Ok(None) => {},
            Ok(Some((a, b))) => {
                let mut task: Vec<char> = Vec::new();
                push_range(&mut task, &v, a, b);
                let t = string_of(&task);
                proof {
                    let rest = tasks_from(s, e + 1, (MAX_TASKS_PER_OUTPUT - found.len() - 1) as nat);
                    if let Some(r) = rest {
                        assert(done.push(task@) + r =~= done + (seq![task@] + r));
                    }
                    done = done.push(task@);
                }
                found.push(t);
            },
        }
        if e < v.len() {
            pos = e + 1;
        } else {
            pos = v.len();
        }
    }
    proof {
        assert(done + Seq::<Seq<char>>::empty() =~= done);
    }
    Some(found)
}

/// The task descriptions that model output names on lines starting with
/// `ACTION:`, `TASK:`, `TODO:`, `NEXT:` or `DO:` (in any letter case): at most
/// three, each trimmed, non-empty and under 200 bytes.
pub fn extract_tasks_from_output(output: &str) -> (tasks: Vec<String>)
    requires
        extracted_tasks(output@) is Some,
    ensures
        tasks.len() == extracted_tasks(output@)->0.len(),
        forall|i: int| 0 <= i < tasks.len() ==> #[trigger] tasks[i]@ == extracted_tasks(output@)->0[i],
{
    match tasks_impl(output) {
        Some(ts) => ts,
        None => {
            proof {
                assert(false);
            }
            Vec::new()
        },
    }
}

/// The tasks named in `output`, or `None` on output where reading a task
/// would slice a line inside a character (see `LineTask::Undefined`).
pub fn extract_tasks_checked(output: &str) -> (r: Option<Vec<String>>)
    ensures
        r is None <==> extracted_tasks(output@) is None,
        r matches Some(ts) ==> ts.len() == extracted_tasks(output@)->0.len() && forall|i: int|
            0 <= i < ts.len() ==> #[trigger] ts[i]@ == extracted_tasks(output@)->0[i],
{
    if tasks_impl(output).is_some() {
        Some(extract_tasks_from_output(output))
    } else {
        None
    }
}

} // verus!
