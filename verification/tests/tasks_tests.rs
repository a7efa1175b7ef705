use sovereign_kernel::tasks::{accepts_new_tasks, next_action_prompt, remember, TaskQueue};

#[test]
fn new_queue_is_empty() {
    let q: TaskQueue<u32> = TaskQueue::new("task_queue.json");
    assert!(q.tasks.is_empty());
    assert_eq!(q.path, "task_queue.json");
    assert_eq!(q.pending_count(), 0);
}

#[test]
fn added_tasks_are_pending_with_sequential_ids() {
    let mut q: TaskQueue<u32> = TaskQueue::new("q");
    q.add("first".to_string(), 7, 100);
    q.add("second".to_string(), 3, 200);
    assert_eq!(q.tasks.len(), 2);
    assert_eq!(q.tasks[0].id, 0);
    assert_eq!(q.tasks[1].id, 1);
    assert_eq!(q.tasks[1].description, "second");
    assert_eq!(q.tasks[1].status, "pending");
    assert_eq!(q.tasks[1].priority, 3);
    assert_eq!(q.tasks[1].created_at, 200);
    assert_eq!(q.pending_count(), 2);
}

#[test]
fn complete_marks_first_match_done() {
    let mut q: TaskQueue<u32> = TaskQueue::new("q");
    q.add("a".to_string(), 1, 0);
    q.add("b".to_string(), 1, 0);
    q.complete(1);
    assert_eq!(q.tasks[0].status, "pending");
    assert_eq!(q.tasks[1].status, "done");
    assert_eq!(q.pending_count(), 1);
    q.complete(42);
    assert_eq!(q.tasks[0].status, "pending");
    assert_eq!(q.pending_count(), 1);
}

#[test]
fn start_marks_in_progress_and_returns_copy() {
    let mut q: TaskQueue<u32> = TaskQueue::new("q");
    q.add("a".to_string(), 1, 10);
    q.add("b".to_string(), 9, 20);
    let t = q.start(1);
    assert_eq!(t.id, 1);
    assert_eq!(t.description, "b");
    assert_eq!(t.status, "in_progress");
    assert_eq!(t.priority, 9);
    assert_eq!(t.created_at, 20);
    assert_eq!(q.tasks[1].status, "in_progress");
    assert_eq!(q.tasks[0].status, "pending");
    assert_eq!(q.pending_count(), 1);
    q.complete(1);
    assert_eq!(q.tasks[1].status, "done");
}

#[test]
fn backlog_limit_is_ten() {
    assert!(accepts_new_tasks(0));
    assert!(accepts_new_tasks(9));
    assert!(!accepts_new_tasks(10));
    assert!(!accepts_new_tasks(11));
}

#[test]
fn next_action_prompt_text() {
    assert_eq!(
        next_action_prompt(12, "calm", "wrote"),
        "Cycle 12. Inner voice: \"calm\"\n\nBased on my journal entries, what should I do next?\nMy recent journal: wrote"
    );
    let p = next_action_prompt(0, &"v".repeat(200), &"j".repeat(400));
    assert!(p.starts_with(&format!("Cycle 0. Inner voice: \"{}\"\n", "v".repeat(150))));
    assert!(p.ends_with(&format!("My recent journal: {}", "j".repeat(300))));
}

#[test]
fn remember_forgets_oldest_past_capacity() {
    let mut items: Vec<u32> = vec![1, 2, 3];
    remember(&mut items, 4, 3);
    assert_eq!(items, vec![2, 3, 4]);
    remember(&mut items, 5, 10);
    assert_eq!(items, vec![2, 3, 4, 5]);
    let mut empty: Vec<u32> = Vec::new();
    remember(&mut empty, 1, 0);
    assert!(empty.is_empty());
}

#[test]
fn memory_stays_within_capacity() {
    let mut items: Vec<u64> = Vec::new();
    for i in 0..1000u64 {
        remember(&mut items, i, 500);
        assert!(items.len() <= 500);
    }
    assert_eq!(items[0], 500);
    assert_eq!(items[499], 999);
}

#[test]
fn next_pending_takes_highest_key_last_among_equals() {
    let mut q: TaskQueue<u64> = TaskQueue::new("q");
    assert!(q.next_pending().is_none());
    q.add("low".to_string(), 1, 0);
    q.add("high a".to_string(), 5, 0);
    q.add("high b".to_string(), 5, 0);
    q.add("mid".to_string(), 3, 0);
    let t = q.next_pending().unwrap();
    assert_eq!(t.description, "high b");
    assert_eq!(t.status, "in_progress");
    assert_eq!(q.tasks[2].status, "in_progress");
    let t = q.next_pending().unwrap();
    assert_eq!(t.description, "high a");
    let t = q.next_pending().unwrap();
    assert_eq!(t.description, "mid");
    let t = q.next_pending().unwrap();
    assert_eq!(t.description, "low");
    assert!(q.next_pending().is_none());
    assert_eq!(q.pending_count(), 0);
}

#[test]
fn memory_store_holds_five_hundred() {
    assert_eq!(sovereign_kernel::tasks::MEMORY_CAPACITY, 500);
    let mut items: Vec<u32> = (0..400).collect();
    sovereign_kernel::tasks::remember(&mut items, 400, sovereign_kernel::tasks::MEMORY_CAPACITY);
    // Four hundred and one are kept: nothing is forgotten before five hundred.
    assert_eq!(items.len(), 401);
    assert_eq!(items[0], 0);
    let mut full: Vec<u32> = (0..500).collect();
    sovereign_kernel::tasks::remember(&mut full, 500, sovereign_kernel::tasks::MEMORY_CAPACITY);
    assert_eq!(full.len(), 500);
    assert_eq!(full[0], 1);
    assert_eq!(full[499], 500);
}

#[test]
fn pruning_keeps_the_most_important_memory() {
    // 401 memories, the oldest the most important: pruning keeps it, first.
    let mut keys: Vec<u128> = vec![1_000_000];
    keys.extend((0..400u128).map(|k| k + 1));
    let kept = sovereign_kernel::ranking::prune_order(&keys);
    assert_eq!(kept.len(), 400);
    assert_eq!(kept[0], 0);
    assert!(!kept.contains(&1));
    assert!(kept.windows(2).all(|w| keys[w[0]] >= keys[w[1]]));
}
