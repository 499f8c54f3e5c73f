use corinth::{Effect, Message, MessageState, Queue, QueueDeadLetterSettings};

fn queue(requeue_time: u32, dedup_time: u32, persistent: bool, max_length: u64) -> Queue {
    Queue::new(String::from("q"), requeue_time, dedup_time, persistent, max_length, None, 100)
}

fn payload() -> String {
    String::from("{\"a\":1}")
}

#[test]
fn dedup_second_enqueue_is_dropped() {
    let mut q = queue(300, 300, false, 0);
    let first = q.try_enqueue(payload(), Some(String::from("x")), 1);
    assert!(first.is_some());
    assert_eq!(q.num_deduplicated(), 0);
    let second = q.try_enqueue(payload(), Some(String::from("x")), 2);
    assert!(second.is_none());
    assert_eq!(q.num_deduplicated(), 1);
    assert_eq!(q.size(), 1);
    assert_eq!(q.dedup_size(), 1);
}

#[test]
fn dedup_schedules_expiry_and_expiry_frees_key() {
    let mut q = queue(300, 7, false, 0);
    q.try_enqueue_with_id(String::from("m1"), payload(), Some(String::from("k")), 5);
    let effects = q.take_effects();
    assert_eq!(effects.len(), 1);
    match &effects[0] {
        Effect::ScheduleDedupExpiry { key, after_secs } => {
            assert_eq!(key, "k");
            assert_eq!(*after_secs, 7);
        }
        _ => panic!("expected a dedup expiry"),
    }
    q.expire_dedup(&String::from("k"));
    assert_eq!(q.dedup_size(), 0);
    let again = q.try_enqueue_with_id(String::from("m2"), payload(), Some(String::from("k")), 6);
    assert!(again.is_some());
    assert_eq!(q.size(), 2);
}

#[test]
fn zero_dedup_time_schedules_no_expiry() {
    let mut q = queue(300, 0, false, 0);
    q.try_enqueue_with_id(String::from("m1"), payload(), Some(String::from("k")), 5);
    assert!(q.take_effects().is_empty());
    assert_eq!(q.dedup_size(), 1);
}

#[test]
fn enqueue_builds_pending_message() {
    let mut q = queue(300, 300, false, 0);
    let m = q.try_enqueue_with_id(String::from("id-1"), payload(), None, 42).unwrap();
    assert_eq!(m.id, "id-1");
    assert_eq!(m.queued_at, 42);
    assert_eq!(m.updated_at, 42);
    assert_eq!(m.item, payload());
    assert_eq!(m.state, MessageState::Pending);
    assert_eq!(m.num_requeues, 0);
    let head = q.peek().unwrap();
    assert_eq!(head.id, "id-1");
    assert_eq!(q.size(), 1);
}

#[test]
fn generated_ids_differ() {
    let mut q = queue(300, 300, false, 0);
    let a = q.try_enqueue(payload(), None, 1).unwrap();
    let b = q.try_enqueue(payload(), None, 1).unwrap();
    assert!(!a.id.is_empty());
    assert_ne!(a.id, b.id);
}

#[test]
fn peek_does_not_change_queue() {
    let mut q = queue(300, 300, true, 0);
    q.try_enqueue_with_id(String::from("a"), payload(), None, 1);
    q.take_effects();
    let first = q.peek().unwrap();
    let second = q.peek().unwrap();
    assert_eq!(first.id, second.id);
    assert_eq!(q.size(), 1);
    assert!(q.take_effects().is_empty());
}

#[test]
fn dequeue_is_fifo() {
    let mut q = queue(300, 300, false, 0);
    for name in ["a", "b", "c"] {
        q.try_enqueue_with_id(String::from(name), payload(), None, 1);
    }
    assert_eq!(q.dequeue(true).unwrap().id, "a");
    assert_eq!(q.dequeue(true).unwrap().id, "b");
    assert_eq!(q.dequeue(true).unwrap().id, "c");
    assert!(q.dequeue(true).is_none());
    assert_eq!(q.num_acknowledged(), 3);
}

#[test]
fn dequeue_without_ack_holds_message_in_flight() {
    let mut q = queue(9, 300, true, 0);
    q.try_enqueue_with_id(String::from("a"), payload(), None, 1);
    q.take_effects();
    let m = q.dequeue(false).unwrap();
    assert_eq!(m.id, "a");
    assert_eq!(q.size(), 0);
    assert_eq!(q.ack_size(), 1);
    let effects = q.take_effects();
    assert_eq!(effects.len(), 2);
    assert!(matches!(&effects[0], Effect::AppendTombstone(id) if id == "a"));
    assert!(matches!(
        &effects[1],
        Effect::ScheduleAckTimeout { message_id, after_secs: 9 } if message_id == "a"
    ));
    assert!(q.ack(String::from("a")));
    assert_eq!(q.ack_size(), 0);
    assert_eq!(q.num_acknowledged(), 1);
    assert!(!q.ack(String::from("a")));
    assert_eq!(q.num_acknowledged(), 1);
}

#[test]
fn zero_requeue_time_keeps_in_flight_without_timer() {
    let mut q = queue(0, 300, false, 0);
    q.try_enqueue_with_id(String::from("a"), payload(), None, 1);
    q.dequeue(false);
    assert_eq!(q.ack_size(), 1);
    assert!(q.take_effects().is_empty());
}

#[test]
fn ack_of_unknown_message_fails() {
    let mut q = queue(300, 300, false, 0);
    assert!(!q.ack(String::from("nope")));
    assert_eq!(q.num_acknowledged(), 0);
}

#[test]
fn auto_ack_on_persistent_queue_writes_metadata() {
    let mut q = queue(300, 300, true, 0);
    q.take_effects();
    q.try_enqueue_with_id(String::from("a"), payload(), None, 1);
    q.take_effects();
    q.dequeue(true);
    let effects = q.take_effects();
    assert_eq!(effects.len(), 2);
    assert!(matches!(&effects[0], Effect::AppendTombstone(id) if id == "a"));
    match &effects[1] {
        Effect::WriteMeta(meta) => assert_eq!(meta.num_acknowledged, 1),
        _ => panic!("expected a metadata write"),
    }
    assert_eq!(q.ack_size(), 0);
}

#[test]
fn capacity_rules() {
    let mut bounded = queue(300, 300, false, 2);
    assert!(bounded.can_fit_messages(2));
    assert!(!bounded.can_fit_messages(3));
    bounded.try_enqueue_with_id(String::from("a"), payload(), None, 1);
    assert!(bounded.can_fit_messages(1));
    assert!(!bounded.can_fit_messages(2));
    assert!(!bounded.can_fit_messages(u64::MAX));
    let unbounded = queue(300, 300, false, 0);
    assert!(unbounded.can_fit_messages(u64::MAX));
    assert!(unbounded.can_fit_messages(0));
}

#[test]
fn requeue_and_dead_letter_updates() {
    let mut q = queue(300, 300, false, 0);
    let m = Message {
        id: String::from("m"),
        queued_at: 1,
        updated_at: 1,
        item: payload(),
        state: MessageState::Pending,
        num_requeues: 0,
    };
    q.requeue(m.duplicate(), 50);
    let back = q.peek().unwrap();
    assert_eq!(back.state, MessageState::Requeued);
    assert_eq!(back.num_requeues, 1);
    assert_eq!(back.updated_at, 50);
    assert_eq!(back.queued_at, 1);
    assert_eq!(q.num_requeued(), 1);
    let mut target = queue(300, 300, false, 0);
    target.accept_dead_letter(m, 60);
    let failed = target.peek().unwrap();
    assert_eq!(failed.state, MessageState::Failed);
    assert_eq!(failed.updated_at, 60);
    assert_eq!(failed.num_requeues, 0);
}

#[test]
fn requeue_count_stays_at_its_maximum() {
    let mut q = queue(300, 300, false, 0);
    let m = Message {
        id: String::from("m"),
        queued_at: 1,
        updated_at: 1,
        item: payload(),
        state: MessageState::Requeued,
        num_requeues: u16::MAX,
    };
    q.requeue(m, 2);
    assert_eq!(q.peek().unwrap().num_requeues, u16::MAX);
}

#[test]
fn dead_letter_target_needs_threshold() {
    let settings = QueueDeadLetterSettings { name: String::from("dlq"), threshold: 2 };
    let q = Queue::new(String::from("q"), 300, 300, false, 0, Some(settings), 1);
    let mut m = Message {
        id: String::from("m"),
        queued_at: 1,
        updated_at: 1,
        item: payload(),
        state: MessageState::Requeued,
        num_requeues: 1,
    };
    assert!(q.dead_letter_target(&m).is_none());
    m.num_requeues = 2;
    assert_eq!(q.dead_letter_target(&m).unwrap(), "dlq");
    let plain = queue(300, 300, false, 0);
    m.num_requeues = 100;
    assert!(plain.dead_letter_target(&m).is_none());
}

#[test]
fn purge_keeps_metadata_file() {
    let mut q = queue(300, 300, true, 0);
    q.try_enqueue_with_id(String::from("a"), payload(), Some(String::from("k")), 1);
    q.try_enqueue_with_id(String::from("b"), payload(), Some(String::from("k")), 1);
    q.try_enqueue_with_id(String::from("c"), payload(), None, 1);
    q.dequeue(false);
    q.dequeue(true);
    q.take_effects();
    q.purge(false);
    assert_eq!(q.size(), 0);
    assert_eq!(q.ack_size(), 0);
    assert_eq!(q.dedup_size(), 0);
    assert_eq!(q.num_acknowledged(), 0);
    assert_eq!(q.num_deduplicated(), 0);
    assert_eq!(q.num_requeued(), 0);
    let effects = q.take_effects();
    assert_eq!(effects.len(), 2);
    assert!(matches!(effects[0], Effect::RemoveItemLog));
    assert!(matches!(effects[1], Effect::WriteMeta(_)));
}

#[test]
fn purge_with_delete_removes_folder() {
    let mut q = queue(300, 300, true, 0);
    q.take_effects();
    q.purge(true);
    let effects = q.take_effects();
    assert_eq!(effects.len(), 1);
    assert!(matches!(effects[0], Effect::RemoveFolder));
}

#[test]
fn ephemeral_queue_records_no_storage_effects() {
    let mut q = queue(0, 0, false, 0);
    q.try_enqueue_with_id(String::from("a"), payload(), None, 1);
    q.dequeue(true);
    q.compact(5);
    q.purge(false);
    assert!(q.take_effects().is_empty());
    assert_eq!(q.last_compacted_at(), 5);
}

#[test]
fn new_persistent_queue_creates_folder_and_metadata() {
    let mut q = Queue::new(String::from("orders"), 30, 60, true, 10, None, 1234);
    assert_eq!(q.get_name(), "orders");
    assert_eq!(q.requeue_time(), 30);
    assert_eq!(q.deduplication_time(), 60);
    assert_eq!(q.max_length(), 10);
    assert_eq!(q.created_at(), 1234);
    assert_eq!(q.last_compacted_at(), 0);
    assert!(q.is_persistent());
    let effects = q.take_effects();
    assert_eq!(effects.len(), 2);
    assert!(matches!(effects[0], Effect::CreateFolder));
    match &effects[1] {
        Effect::WriteMeta(meta) => {
            assert_eq!(meta.created_at, 1234);
            assert_eq!(meta.max_length, 10);
        }
        _ => panic!("expected a metadata write"),
    }
}

#[test]
fn setters_change_configuration() {
    let mut q = queue(300, 300, true, 0);
    q.take_effects();
    q.set_requeue_time(5);
    q.set_deduplication_time(6);
    q.set_max_length(7);
    assert_eq!(q.requeue_time(), 5);
    assert_eq!(q.deduplication_time(), 6);
    assert_eq!(q.max_length(), 7);
    assert!(q.take_effects().is_empty());
    q.write_metadata();
    let effects = q.take_effects();
    match &effects[0] {
        Effect::WriteMeta(meta) => {
            assert_eq!(meta.requeue_time, 5);
            assert_eq!(meta.deduplication_time, 6);
            assert_eq!(meta.max_length, 7);
        }
        _ => panic!("expected a metadata write"),
    }
    let meta = q.get_meta();
    assert_eq!(meta.max_length, 7);
}

#[test]
fn compaction_timer_only_for_persistent_queues() {
    let persistent = queue(300, 300, true, 0);
    let ephemeral = queue(300, 300, false, 0);
    assert!(persistent.needs_compaction_timer(10));
    assert!(!persistent.needs_compaction_timer(0));
    assert!(!ephemeral.needs_compaction_timer(10));
}

#[test]
fn memory_size_grows_with_messages() {
    let mut q = queue(300, 300, false, 0);
    let empty = q.get_memory_size();
    assert!(empty > 0);
    q.try_enqueue_with_id(String::from("a"), payload(), Some(String::from("k")), 1);
    let one = q.get_memory_size();
    assert_eq!(
        one,
        empty + std::mem::size_of::<Message>() + std::mem::size_of::<String>()
    );
}

#[test]
fn dequeue_and_timeout_keep_outstanding_count() {
    let mut reg = corinth::Registry::new();
    reg.create_queue(String::from("q"), 1, 300, false, 0, None, 1).unwrap();
    let q = reg.get_mut(&String::from("q")).unwrap();
    q.try_enqueue_with_id(String::from("a"), payload(), None, 1);
    q.try_enqueue_with_id(String::from("b"), payload(), None, 1);
    q.dequeue(false);
    assert_eq!(q.size() + q.ack_size(), 2);
    q.dequeue(true);
    assert_eq!(q.size() + q.ack_size(), 1);
    reg.ack_timeout(&String::from("q"), &String::from("a"), 3);
    let q = reg.get(&String::from("q")).unwrap();
    assert_eq!(q.size(), 1);
    assert_eq!(q.ack_size(), 0);
}
