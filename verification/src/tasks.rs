//! The queue of tasks the kernel sets itself, and the bounded memory log.
//! Priorities are carried through unchanged; the queue never compares them,
//! so their type is left to the caller.
use vstd::prelude::*;
use crate::text::{
    chars_of, decimal, push_decimal, push_prefix, push_str, seq_eq_chars, string_of, take_chars,
};

verus! {

/// One task in the queue.
#[derive(Debug)]
pub struct Task<P> {
    pub id: u64,
    pub description: String,
    /// `pending`, `in_progress` or `done`.
    pub status: String,
    pub priority: P,
    pub created_at: u64,
}

/// The task queue and the file it is kept in.
#[derive(Debug)]
pub struct TaskQueue<P> {
    pub tasks: Vec<Task<P>>,
    pub path: String,
}

/// A task is waiting to be worked on.
pub open spec fn is_pending<P>(t: Task<P>) -> bool {
    t.status@ == "pending"@
}

/// How many tasks of `ts` are pending.
pub open spec fn pending_in<P>(ts: Seq<Task<P>>) -> nat
    decreases ts.len(),
{
    if ts.len() == 0 {
        0
    } else {
        pending_in(ts.drop_last()) + if is_pending(ts.last()) {
            1nat
        } else {
            0nat
        }
    }
}

/// The index of the first task with id `id`, if any.
pub open spec fn first_with_id<P>(ts: Seq<Task<P>>, id: u64) -> Option<int> {
    if exists|i: int| 0 <= i < ts.len() && ts[i].id == id {
        Some(
            choose|i: int|
                0 <= i < ts.len() && ts[i].id == id && forall|j: int|
                    0 <= j < i ==> (#[trigger] ts[j]).id != id,
        )
    } else {
        None
    }
}

proof fn lemma_pending_in_bound<P>(ts: Seq<Task<P>>)
    ensures
        pending_in(ts) <= ts.len(),
    decreases ts.len(),
{
    if ts.len() > 0 {
        lemma_pending_in_bound(ts.drop_last());
    }
}

impl<P> TaskQueue<P> {
    /// An empty queue kept at `path`.
    pub fn new(path: &str) -> (q: Self)
        ensures
            q.tasks@.len() == 0,
            q.path@ == path@,
    {
        TaskQueue { tasks: Vec::new(), path: path.to_owned() }
    }

    /// Adds a pending task; its id is the number of tasks before it.
    pub fn add(&mut self, description: String, priority: P, now: u64)
        ensures
            final(self).path == old(self).path,
            final(self).tasks@.len() == old(self).tasks@.len() + 1,
            final(self).tasks@.drop_last() == old(self).tasks@,
            final(self).tasks@.last().id == old(self).tasks@.len(),
            final(self).tasks@.last().description == description,
            is_pending(final(self).tasks@.last()),
            final(self).tasks@.last().priority == priority,
            final(self).tasks@.last().created_at == now,
    {
        let id = self.tasks.len() as u64;
        self.tasks.push(Task { id, description, status: "pending".to_owned(), priority, created_at: now });
        proof {
            assert(self.tasks@.drop_last() =~= old(self).tasks@);
        }
    }

    /// Marks the first task with id `id` done; other tasks are untouched.
    pub fn complete(&mut self, id: u64)
        ensures
            final(self).path == old(self).path,
            final(self).tasks@.len() == old(self).tasks@.len(),
            match first_with_id(old(self).tasks@, id) {
                Some(i) => {
                    &&& final(self).tasks@[i].status@ == "done"@
                    &&& final(self).tasks@[i].id == old(self).tasks@[i].id
                    &&& final(self).tasks@[i].description == old(self).tasks@[i].description
                    &&& final(self).tasks@[i].priority == old(self).tasks@[i].priority
                    &&& final(self).tasks@[i].created_at == old(self).tasks@[i].created_at
                    &&& forall|j: int|
                        0 <= j < old(self).tasks@.len() && j != i ==> final(self).tasks@[j]
                            == old(self).tasks@[j]
                },
                None => final(self).tasks@ == old(self).tasks@,
            },
    {
        let mut i: usize = 0;
        while i < self.tasks.len()
            invariant
                i <= self.tasks.len(),
                self.tasks@ == old(self).tasks@,
                self.path == old(self).path,
                forall|j: int| 0 <= j < i ==> (#[trigger] self.tasks@[j]).id != id,
            decreases self.tasks.len() - i,
        {
            if self.tasks[i].id == id {
                proof {
                    let k = choose|k: int|
                        0 <= k < old(self).tasks@.len() && old(self).tasks@[k].id == id && forall|
                            j: int,
                        |
                            0 <= j < k ==> (#[trigger] old(self).tasks@[j]).id != id;
                    assert(0 <= k < old(self).tasks@.len() && old(self).tasks@[k].id == id);
                    if k < i {
                    } else if i < k {
                        assert(old(self).tasks@[i as int].id == id);
                    }
                }
                let t = self.tasks.remove(i);
                let done = Task {
                    id: t.id,
                    description: t.description,
                    status: "done".to_owned(),
                    priority: t.priority,
                    created_at: t.created_at,
                };
                self.tasks.insert(i, done);
                return;
            }
            i = i + 1;
        }
    }

    /// How many tasks are pending.
    pub fn pending_count(&self) -> (n: usize)
        ensures
            n == pending_in(self.tasks@),
    {
        let mut n: usize = 0;
        let mut i: usize = 0;
        proof {
            assert(self.tasks@.take(0) =~= Seq::<Task<P>>::empty());
        }
        while i < self.tasks.len()
            invariant
                i <= self.tasks.len(),
                n == pending_in(self.tasks@.take(i as int)),
            decreases self.tasks.len() - i,
        {
            proof {
                let t = self.tasks@.take(i + 1);
                assert(t.drop_last() =~= self.tasks@.take(i as int));
                lemma_pending_in_bound(self.tasks@.take(i as int));
            }
            let v = chars_of(self.tasks[i].status.as_str());
            if seq_eq_chars(&v, "pending") {
                n = n + 1;
            }
            i = i + 1;
        }
        proof {
            assert(self.tasks@.take(self.tasks@.len() as int) =~= self.tasks@);
        }
        n
    }
}

impl<P: Copy> TaskQueue<P> {
    /// Starts work on the task at `index`: it becomes `in_progress`, and a
    /// copy of it, with that status, is returned. (Which task to start is
    /// the caller's choice.)
    pub fn start(&mut self, index: usize) -> (t: Task<P>)
        requires
            index < old(self).tasks@.len(),
        ensures
            final(self).path == old(self).path,
            final(self).tasks@.len() == old(self).tasks@.len(),
            forall|j: int|
                0 <= j < old(self).tasks@.len() && j != index ==> final(self).tasks@[j]
                    == old(self).tasks@[j],
            final(self).tasks@[index as int].status@ == "in_progress"@,
            final(self).tasks@[index as int].id == old(self).tasks@[index as int].id,
            final(self).tasks@[index as int].description@ == old(self).tasks@[index as int].description@,
            final(self).tasks@[index as int].priority == old(self).tasks@[index as int].priority,
            final(self).tasks@[index as int].created_at == old(self).tasks@[index as int].created_at,
            t.id == old(self).tasks@[index as int].id,
            t.description@ == old(self).tasks@[index as int].description@,
            t.status@ == "in_progress"@,
            t.priority == old(self).tasks@[index as int].priority,
            t.created_at == old(self).tasks@[index as int].created_at,
    {
        let old_t = self.tasks.remove(index);
        let copy = Task {
            id: old_t.id,
            description: old_t.description.clone(),
            status: "in_progress".to_owned(),
            priority: old_t.priority,
            created_at: old_t.created_at,
        };
        let updated = Task {
            id: old_t.id,
            description: old_t.description,
            status: "in_progress".to_owned(),
            priority: old_t.priority,
            created_at: old_t.created_at,
        };
        self.tasks.insert(index, updated);
        copy
    }
}

/// Index `i` holds the pending task to work on next: its priority key is the
/// highest among pending tasks, and no later pending task has as high a key
/// (`max_by` keeps the last of equal maxima).
pub open spec fn is_next_pending(ts: Seq<Task<u64>>, i: int) -> bool {
    &&& 0 <= i < ts.len()
    &&& is_pending(ts[i])
    &&& forall|j: int| 0 <= j < ts.len() && is_pending(#[trigger] ts[j]) ==> ts[j].priority <= ts[i].priority
    &&& forall|j: int| i < j < ts.len() && is_pending(#[trigger] ts[j]) ==> ts[j].priority < ts[i].priority
}

/// Some task of `ts` is pending.
pub open spec fn has_pending(ts: Seq<Task<u64>>) -> bool {
    exists|j: int| 0 <= j < ts.len() && is_pending(#[trigger] ts[j])
}

impl TaskQueue<u64> {
    /// Starts the pending task with the highest priority key (the last of
    /// equals), and returns it; `None` when nothing is pending. Keys order
    /// tasks as their priorities do.
    pub fn next_pending(&mut self) -> (t: Option<Task<u64>>)
        ensures
            final(self).path == old(self).path,
            t is None <==> !has_pending(old(self).tasks@),
            t is None ==> final(self).tasks@ == old(self).tasks@,
            t matches Some(task) ==> exists|i: int|
                {
                    &&& #[trigger] is_next_pending(old(self).tasks@, i)
                    &&& final(self).tasks@.len() == old(self).tasks@.len()
                    &&& forall|j: int|
                        0 <= j < old(self).tasks@.len() && j != i ==> final(self).tasks@[j]
                            == old(self).tasks@[j]
                    &&& final(self).tasks@[i].status@ == "in_progress"@
                    &&& final(self).tasks@[i].id == old(self).tasks@[i].id
                    &&& final(self).tasks@[i].description@ == old(self).tasks@[i].description@
                    &&& final(self).tasks@[i].priority == old(self).tasks@[i].priority
                    &&& final(self).tasks@[i].created_at == old(self).tasks@[i].created_at
                    &&& task.id == old(self).tasks@[i].id
                    &&& task.description@ == old(self).tasks@[i].description@
                    &&& task.status@ == "in_progress"@
                    &&& task.priority == old(self).tasks@[i].priority
                    &&& task.created_at == old(self).tasks@[i].created_at
                },
    {
        let mut best: Option<usize> = None;
        let mut i: usize = 0;
        while i < self.tasks.len()
            invariant
                i <= self.tasks.len(),
                self.tasks@ == old(self).tasks@,
                match best {
                    None => forall|j: int| 0 <= j < i ==> !is_pending(#[trigger] self.tasks@[j]),
                    Some(b) => {
                        &&& b < i
                        &&& is_pending(self.tasks@[b as int])
                        &&& forall|j: int|
                            0 <= j < i && is_pending(#[trigger] self.tasks@[j]) ==> self.tasks@[j].priority
                                <= self.tasks@[b as int].priority
                        &&& forall|j: int|
                            b < j < i && is_pending(#[trigger] self.tasks@[j]) ==> self.tasks@[j].priority
                                < self.tasks@[b as int].priority
                    },
                },
            decreases self.tasks.len() - i,
        {
            let status = chars_of(self.tasks[i].status.as_str());
            if seq_eq_chars(&status, "pending") {
                match best {
                    None => {
                        best = Some(i);
                    },
                    Some(b) => {
                        if self.tasks[i].priority >= self.tasks[b].priority {
                            best = Some(i);
                        }
                    },
                }
            }
            i = i + 1;
        }
        match best {
            None => {
                proof {
                    assert(!has_pending(old(self).tasks@));
                }
                None
            },
            Some(b) => {
                proof {
                    assert(has_pending(old(self).tasks@));
                    assert(is_next_pending(old(self).tasks@, b as int));
                }
                Some(self.start(b))
            },
        }
    }
}

/// How many pending tasks hold back new ones.
pub const TASK_BACKLOG_LIMIT: usize = 10;

/// New tasks are only queued while fewer than ten are pending.
pub fn accepts_new_tasks(pending: usize) -> (ok: bool)
    ensures
        ok == (pending < TASK_BACKLOG_LIMIT),
{
    pending < TASK_BACKLOG_LIMIT
}

/// What the kernel asks itself when no task is pending: the cycle, its inner
/// voice (150 characters) and its recent journal (300 characters).
pub open spec fn next_action_prompt_spec(cycle: nat, inner_voice: Seq<char>, journal: Seq<char>) -> Seq<char> {
    "Cycle "@ + decimal(cycle) + ". Inner voice: \""@ + take_chars(inner_voice, 150)
        + "\"\n\nBased on my journal entries, what should I do next?\nMy recent journal: "@
        + take_chars(journal, 300)
}

/// The question the kernel puts to a skill when its queue has nothing
/// pending (see `next_action_prompt_spec`).
pub fn next_action_prompt(cycle: u64, inner_voice: &str, journal: &str) -> (p: String)
    ensures
        p@ == next_action_prompt_spec(cycle as nat, inner_voice@, journal@),
{
    let voice = chars_of(inner_voice);
    let j = chars_of(journal);
    let mut out: Vec<char> = Vec::new();
    push_str(&mut out, "Cycle ");
    push_decimal(&mut out, cycle);
    push_str(&mut out, ". Inner voice: \"");
    push_prefix(&mut out, &voice, 150);
    push_str(&mut out, "\"\n\nBased on my journal entries, what should I do next?\nMy recent journal: ");
    push_prefix(&mut out, &j, 300);
    string_of(&out)
}

// ---------------------------------------------------------------------------
// Bounded memory
// ---------------------------------------------------------------------------

/// How many memories a soul stores before it forgets the oldest: five
/// hundred. Every twenty cycles the soul prunes them to the four hundred most
/// important (see `ranking::prune_order`), so this cap is reached only when
/// more than a hundred memories arrive between two prunings.
pub const MEMORY_CAPACITY: usize = 500;

/// `items` after `item` is remembered: appended, and when that passes
/// `cap`, the oldest is forgotten.
pub open spec fn remembered<T>(items: Seq<T>, item: T, cap: nat) -> Seq<T> {
    let pushed = items.push(item);
    if pushed.len() > cap {
        pushed.drop_first()
    } else {
        pushed
    }
}

/// Appends `item`; past `cap` items the oldest is dropped.
pub fn remember<T>(items: &mut Vec<T>, item: T, cap: usize)
    ensures
        final(items)@ == remembered(old(items)@, item, cap as nat),
{
    items.push(item);
    if items.len() > cap {
        items.remove(0);
        proof {
            assert(items@ =~= old(items)@.push(item).drop_first());
        }
    }
}

} // verus!
