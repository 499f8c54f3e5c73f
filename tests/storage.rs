use corinth::{
    get_queue_folder, queue_item_file, queue_meta_file, queue_temp_file, replay_log,
    tombstone_line, Effect, LogRecord, Message, MessageState, Queue, QueueMeta,
};

fn message(id: &str) -> Message {
    Message {
        id: String::from(id),
        queued_at: 1,
        updated_at: 1,
        item: String::from("{}"),
        state: MessageState::Pending,
        num_requeues: 0,
    }
}

fn ids(messages: &[Message]) -> Vec<String> {
    messages.iter().map(|m| m.id.clone()).collect()
}

/// Carries out the storage effects on an in-memory log, as the server does on disk.
fn carry_out(log: &mut Vec<LogRecord>, effects: Vec<Effect>) {
    for effect in effects {
        match effect {
            Effect::AppendLive(m) => log.push(LogRecord::Live(m)),
            Effect::AppendTombstone(id) => log.push(LogRecord::Tombstone(id)),
            Effect::RewriteLog(ms) => *log = ms.into_iter().map(LogRecord::Live).collect(),
            Effect::RemoveItemLog | Effect::RemoveFolder => log.clear(),
            _ => {}
        }
    }
}

fn meta() -> QueueMeta {
    QueueMeta {
        created_at: 10,
        last_compacted_at: 0,
        num_acknowledged: 4,
        num_deduplicated: 5,
        num_requeued: 6,
        requeue_time: 300,
        deduplication_time: 300,
        max_length: 0,
        dead_letter_queue: None,
    }
}

#[test]
fn replay_applies_tombstones_to_head() {
    let records = vec![
        LogRecord::Live(message("a")),
        LogRecord::Live(message("b")),
        LogRecord::Tombstone(String::from("a")),
        LogRecord::Live(message("c")),
        LogRecord::Tombstone(String::from("b")),
    ];
    let items: Vec<Message> = replay_log(&records).into_iter().collect();
    assert_eq!(ids(&items), vec!["c"]);
}

#[test]
fn replay_tombstone_on_empty_is_ignored() {
    let records = vec![
        LogRecord::Tombstone(String::from("x")),
        LogRecord::Live(message("a")),
    ];
    let items: Vec<Message> = replay_log(&records).into_iter().collect();
    assert_eq!(ids(&items), vec!["a"]);
    assert!(replay_log(&Vec::new()).is_empty());
}

#[test]
fn tombstone_line_format() {
    assert_eq!(tombstone_line("01ABC"), "{\"$corinth_deleted\":\"01ABC\" }\n");
}

#[test]
fn queue_paths() {
    assert_eq!(get_queue_folder(".corinth", "orders"), ".corinth/queues/orders");
    assert_eq!(queue_meta_file(".corinth", "orders"), ".corinth/queues/orders/meta.json");
    assert_eq!(queue_item_file(".corinth", "orders", ""), ".corinth/queues/orders/items.jsonl");
    assert_eq!(queue_temp_file(".corinth", "orders"), ".corinth/queues/orders/items~.jsonl");
}

#[test]
fn compaction_twice_writes_same_records() {
    let mut q = Queue::new(String::from("q"), 300, 300, true, 0, None, 1);
    let mut log = Vec::new();
    for id in ["a", "b", "c"] {
        q.try_enqueue_with_id(String::from(id), String::from("{}"), None, 2);
    }
    q.dequeue(true);
    carry_out(&mut log, q.take_effects());
    assert_eq!(log.len(), 4);
    q.compact(3);
    let first = q.take_effects();
    q.compact(4);
    let second = q.take_effects();
    let rewritten = |effects: &Vec<Effect>| -> Vec<String> {
        match &effects[0] {
            Effect::RewriteLog(ms) => ids(ms),
            _ => panic!("expected a rewrite"),
        }
    };
    assert_eq!(rewritten(&first), vec!["b", "c"]);
    assert_eq!(rewritten(&first), rewritten(&second));
    assert_eq!(q.last_compacted_at(), 4);
    let mut log1 = log.clone_records();
    carry_out(&mut log1, first);
    let mut log2 = log1.clone_records();
    carry_out(&mut log2, second);
    assert_eq!(log1.len(), 2);
    assert_eq!(log2.len(), 2);
    let replayed: Vec<Message> = replay_log(&log2).into_iter().collect();
    assert_eq!(ids(&replayed), vec!["b", "c"]);
}

trait CloneRecords {
    fn clone_records(&self) -> Vec<LogRecord>;
}

impl CloneRecords for Vec<LogRecord> {
    fn clone_records(&self) -> Vec<LogRecord> {
        self.iter()
            .map(|r| match r {
                LogRecord::Live(m) => LogRecord::Live(m.clone()),
                LogRecord::Tombstone(id) => LogRecord::Tombstone(id.clone()),
            })
            .collect()
    }
}

#[test]
fn restart_loses_unacknowledged_message() {
    let mut q = Queue::new(String::from("q"), 300, 300, true, 0, None, 1);
    let mut log = Vec::new();
    q.try_enqueue_with_id(String::from("a"), String::from("{}"), None, 2);
    q.try_enqueue_with_id(String::from("b"), String::from("{}"), None, 2);
    let taken = q.dequeue(false).unwrap();
    assert_eq!(taken.id, "a");
    assert_eq!(q.ack_size(), 1);
    carry_out(&mut log, q.take_effects());
    let restarted = Queue::from_disk(String::from("q"), Some(&log), meta(), 99);
    assert_eq!(restarted.size(), 1);
    assert_eq!(restarted.ack_size(), 0);
    assert_eq!(restarted.peek().unwrap().id, "b");
    assert_eq!(restarted.last_compacted_at(), 99);
    assert_eq!(restarted.num_acknowledged(), 4);
    assert!(restarted.is_persistent());
}

#[test]
fn from_disk_asks_for_compacted_log() {
    let records = vec![
        LogRecord::Live(message("a")),
        LogRecord::Tombstone(String::from("a")),
        LogRecord::Live(message("b")),
    ];
    let mut q = Queue::from_disk(String::from("q"), Some(&records), meta(), 50);
    let effects = q.take_effects();
    assert_eq!(effects.len(), 2);
    match &effects[0] {
        Effect::RewriteLog(ms) => assert_eq!(ids(ms), vec!["b"]),
        _ => panic!("expected a rewrite"),
    }
    match &effects[1] {
        Effect::WriteMeta(m) => {
            assert_eq!(m.last_compacted_at, 50);
            assert_eq!(m.created_at, 10);
        }
        _ => panic!("expected a metadata write"),
    }
}

#[test]
fn log_follows_pending_through_operations() {
    let mut q = Queue::new(String::from("q"), 1, 300, true, 0, None, 1);
    let mut log = Vec::new();
    q.try_enqueue_with_id(String::from("a"), String::from("{}"), None, 2);
    q.try_enqueue_with_id(String::from("b"), String::from("{}"), None, 2);
    let a = q.dequeue(false).unwrap();
    q.requeue(a, 3);
    q.try_enqueue_with_id(String::from("c"), String::from("{}"), None, 4);
    q.dequeue(true);
    carry_out(&mut log, q.take_effects());
    let replayed: Vec<Message> = replay_log(&log).into_iter().collect();
    assert_eq!(ids(&replayed), vec!["a", "c"]);
    assert_eq!(ids(&q.pending_messages()), vec!["a", "c"]);
    assert_eq!(replayed[0].state, MessageState::Requeued);
    q.purge(false);
    carry_out(&mut log, q.take_effects());
    assert!(log.is_empty());
}

#[test]
fn from_disk_without_log_writes_no_log() {
    let mut q = Queue::from_disk(String::from("q"), None, meta(), 70);
    assert_eq!(q.size(), 0);
    assert_eq!(q.ack_size(), 0);
    assert_eq!(q.last_compacted_at(), 70);
    let effects = q.take_effects();
    assert_eq!(effects.len(), 1);
    match &effects[0] {
        Effect::WriteMeta(m) => assert_eq!(m.last_compacted_at, 70),
        _ => panic!("expected only a metadata write"),
    }
}
