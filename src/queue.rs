use crate::effect::{Effect, EffectView};
use crate::ids::new_message_id;
use crate::log::{replay, replay_log, LogRecord};
use crate::message::{Message, MessageState};
use crate::meta::{
    bump, bump_requeues, increment, increment_requeues, QueueDeadLetterSettings, QueueMeta,
};
use crate::tracking::{DedupSet, InFlight};
use std::collections::VecDeque;
use vstd::prelude::*;

verus! {

/// A queue as a value.
pub struct QueueView {
    pub name: Seq<char>,
    /// The pending messages, head first.
    pub pending: Seq<Message>,
    /// The deduplication keys that are tracked.
    pub dedup: Set<Seq<char>>,
    /// The messages handed out and not yet acknowledged, by id.
    pub in_flight: Map<Seq<char>, Message>,
    pub meta: QueueMeta,
    pub persistent: bool,
    /// The effects recorded and not yet taken, oldest first.
    pub effects: Seq<EffectView>,
}

/// The per-queue engine.
pub struct Queue {
    id: String,
    items: VecDeque<Message>,
    dedup_set: DedupSet,
    ack_map: InFlight,
    meta: QueueMeta,
    persistent: bool,
    effects: Vec<Effect>,
}

impl View for Queue {
    type V = QueueView;

    closed spec fn view(&self) -> QueueView {
        QueueView {
            name: self.id@,
            pending: self.items@,
            dedup: self.dedup_set@,
            in_flight: self.ack_map@,
            meta: self.meta,
            persistent: self.persistent,
            effects: self.effects@.map_values(|e: Effect| e@),
        }
    }
}

/// `s` with effect `e` recorded.
pub open spec fn with_effect(s: QueueView, e: EffectView) -> QueueView {
    QueueView { effects: s.effects.push(e), ..s }
}

/// `s` with a storage effect recorded, where the queue is persistent.
pub open spec fn record(s: QueueView, e: EffectView) -> QueueView {
    if s.persistent {
        with_effect(s, e)
    } else {
        s
    }
}

/// `s` with a metadata write recorded, where the queue is persistent.
pub open spec fn persist_meta(s: QueueView) -> QueueView {
    record(s, EffectView::WriteMeta(s.meta))
}

/// `s` with its metadata replaced.
pub open spec fn with_meta(s: QueueView, meta: QueueMeta) -> QueueView {
    QueueView { meta, ..s }
}

/// A queue freshly created with this configuration.
pub open spec fn created(
    name: Seq<char>,
    requeue_time: u32,
    deduplication_time: u32,
    persistent: bool,
    max_length: u64,
    dead_letter_queue: Option<QueueDeadLetterSettings>,
    now: u64,
) -> QueueView {
    let meta = QueueMeta {
        created_at: now,
        last_compacted_at: 0,
        num_acknowledged: 0,
        num_deduplicated: 0,
        num_requeued: 0,
        requeue_time,
        deduplication_time,
        max_length,
        dead_letter_queue,
    };
    QueueView {
        name,
        pending: Seq::empty(),
        dedup: Set::empty(),
        in_flight: Map::empty(),
        meta,
        persistent,
        effects: if persistent {
            seq![EffectView::CreateFolder, EffectView::WriteMeta(meta)]
        } else {
            Seq::empty()
        },
    }
}

/// A persistent queue rebuilt at startup from its log, if it has one, and its
/// metadata: an existing log is replayed and compacted at once; a missing log
/// stands for no message and is left missing. Nothing is in flight and no key
/// is tracked.
pub open spec fn recovered(
    name: Seq<char>,
    records: Option<Seq<LogRecord>>,
    meta: QueueMeta,
    now: u64,
) -> QueueView {
    let meta = QueueMeta { last_compacted_at: now, ..meta };
    let pending = match records {
        Some(log) => replay(log),
        None => Seq::empty(),
    };
    QueueView {
        name,
        pending,
        dedup: Set::empty(),
        in_flight: Map::empty(),
        meta,
        persistent: true,
        effects: match records {
            Some(_) => seq![EffectView::RewriteLog(pending), EffectView::WriteMeta(meta)],
            None => seq![EffectView::WriteMeta(meta)],
        },
    }
}

/// Whether `dedup_id` names a key that the queue tracks already.
pub open spec fn is_duplicate(s: QueueView, dedup_id: Option<String>) -> bool {
    match dedup_id {
        Some(d) => s.dedup.contains(d@),
        None => false,
    }
}

/// A duplicate submission: counted, and the count persisted.
pub open spec fn count_duplicate(s: QueueView) -> QueueView {
    let meta = QueueMeta { num_deduplicated: bump(s.meta.num_deduplicated), ..s.meta };
    persist_meta(with_meta(s, meta))
}

/// `s` tracking `dedup_id`, with its expiry scheduled where the queue has a
/// deduplication time.
pub open spec fn track_dedup(s: QueueView, dedup_id: Option<String>) -> QueueView {
    match dedup_id {
        None => s,
        Some(d) => {
            let s1 = QueueView { dedup: s.dedup.insert(d@), ..s };
            if s.meta.deduplication_time > 0 {
                with_effect(
                    s1,
                    EffectView::ScheduleDedupExpiry {
                        key: d,
                        after_secs: s.meta.deduplication_time as u64,
                    },
                )
            } else {
                s1
            }
        },
    }
}

/// A message as a producer's submission makes it.
pub open spec fn fresh_message(id: String, item: String, now: u64) -> Message {
    Message {
        id,
        queued_at: now,
        updated_at: now,
        item,
        state: MessageState::Pending,
        num_requeues: 0,
    }
}

/// `s` with `m` at the tail, and its live record asked for.
pub open spec fn append_message(s: QueueView, m: Message) -> QueueView {
    record(QueueView { pending: s.pending.push(m), ..s }, EffectView::AppendLive(m))
}

/// Submitting `item` with message id `id`: a duplicate is dropped and
/// counted; anything else is tracked and appended.
pub open spec fn enqueue_result(
    s: QueueView,
    id: String,
    item: String,
    dedup_id: Option<String>,
    now: u64,
) -> (QueueView, Option<Message>) {
    if is_duplicate(s, dedup_id) {
        (count_duplicate(s), None)
    } else {
        let m = fresh_message(id, item, now);
        (append_message(track_dedup(s, dedup_id), m), Some(m))
    }
}

/// Taking the head: tombstoned in the log, then either acknowledged at once
/// or held in flight, with its timeout scheduled where the queue requeues.
pub open spec fn dequeue_result(s: QueueView, auto_ack: bool) -> (QueueView, Option<Message>) {
    if s.pending.len() == 0 {
        (s, None)
    } else {
        let m = s.pending[0];
        let s1 = record(
            QueueView { pending: s.pending.drop_first(), ..s },
            EffectView::AppendTombstone(m.id),
        );
        if auto_ack {
            (
                persist_meta(
                    with_meta(
                        s1,
                        QueueMeta { num_acknowledged: bump(s.meta.num_acknowledged), ..s.meta },
                    ),
                ),
                Some(m),
            )
        } else {
            let s2 = QueueView { in_flight: s1.in_flight.insert(m.id@, m), ..s1 };
            if s.meta.requeue_time > 0 {
                (
                    with_effect(
                        s2,
                        EffectView::ScheduleAckTimeout {
                            message_id: m.id,
                            after_secs: s.meta.requeue_time as u64,
                        },
                    ),
                    Some(m),
                )
            } else {
                (s2, Some(m))
            }
        }
    }
}

/// Acknowledging message `id`: it leaves the in-flight table and is counted.
pub open spec fn ack_result(s: QueueView, id: Seq<char>) -> (QueueView, bool) {
    if s.in_flight.contains_key(id) {
        (
            persist_meta(
                QueueView {
                    in_flight: s.in_flight.remove(id),
                    meta: QueueMeta { num_acknowledged: bump(s.meta.num_acknowledged), ..s.meta },
                    ..s
                },
            ),
            true,
        )
    } else {
        (s, false)
    }
}

/// `m` as it goes back to its queue after a timeout.
pub open spec fn requeued(m: Message, now: u64) -> Message {
    Message {
        state: MessageState::Requeued,
        updated_at: now,
        num_requeues: bump_requeues(m.num_requeues),
        ..m
    }
}

/// `m` as it enters a dead-letter queue.
pub open spec fn failed(m: Message, now: u64) -> Message {
    Message { state: MessageState::Failed, updated_at: now, ..m }
}

/// Putting timed-out `m` back at the tail, counted and persisted.
pub open spec fn requeue_result(s: QueueView, m: Message, now: u64) -> QueueView {
    persist_meta(
        append_message(
            with_meta(s, QueueMeta { num_requeued: bump(s.meta.num_requeued), ..s.meta }),
            requeued(m, now),
        ),
    )
}

/// Whether timed-out `m` has been requeued often enough to leave `s` for its
/// dead-letter queue.
pub open spec fn goes_to_dead_letter(s: QueueView, m: Message) -> bool {
    match s.meta.dead_letter_queue {
        Some(d) => m.num_requeues >= d.threshold,
        None => false,
    }
}

/// Clearing the queue: no message, key or counter is left; a persistent
/// queue asks for its folder to go, or for its log to go and its metadata to
/// be rewritten.
pub open spec fn purge_result(s: QueueView, delete: bool) -> QueueView {
    let s1 = QueueView {
        pending: Seq::empty(),
        dedup: Set::empty(),
        in_flight: Map::empty(),
        meta: QueueMeta { num_acknowledged: 0, num_deduplicated: 0, num_requeued: 0, ..s.meta },
        ..s
    };
    if !s.persistent {
        s1
    } else if delete {
        with_effect(s1, EffectView::RemoveFolder)
    } else {
        persist_meta(with_effect(s1, EffectView::RemoveItemLog))
    }
}

/// Compacting: the log is rewritten to the pending messages alone, and the
/// time of compaction is recorded and persisted.
pub open spec fn compact_result(s: QueueView, now: u64) -> QueueView {
    let s1 = record(s, EffectView::RewriteLog(s.pending));
    persist_meta(with_meta(s1, QueueMeta { last_compacted_at: now, ..s.meta }))
}

/// Whether `amount` more messages may be admitted.
pub open spec fn fits(s: QueueView, amount: u64) -> bool {
    s.meta.max_length == 0 || s.pending.len() + amount <= s.meta.max_length
}

/// Where timed-out `m` goes instead of back to `s`: the dead-letter target,
/// once `m` has been requeued `threshold` times.
pub open spec fn dead_letter_target_of(s: QueueView, m: Message) -> Option<String> {
    match s.meta.dead_letter_queue {
        Some(d) => if m.num_requeues >= d.threshold {
            Some(d.name)
        } else {
            None
        },
        None => None,
    }
}

/// `a + b`, or `usize::MAX` where that does not fit.
pub open spec fn sat_add(a: int, b: int) -> int {
    if a + b <= usize::MAX {
        a + b
    } else {
        usize::MAX as int
    }
}

/// `a * b`, or `usize::MAX` where that does not fit.
pub open spec fn sat_mul(a: int, b: int) -> int {
    if a * b <= usize::MAX {
        a * b
    } else {
        usize::MAX as int
    }
}

fn saturating_product(a: usize, b: usize) -> (r: usize)
    ensures
        r == sat_mul(a as int, b as int),
{
    match a.checked_mul(b) {
        Some(p) => p,
        None => usize::MAX,
    }
}

/// The memory estimate of a queue; see [`Queue::get_memory_size`].
pub open spec fn memory_estimate(s: QueueView) -> int {
    sat_add(
        sat_add(
            vstd::layout::size_of::<Queue>() as int,
            sat_mul(
                sat_add(s.pending.len() as int, s.in_flight.len() as int),
                vstd::layout::size_of::<Message>() as int,
            ),
        ),
        sat_mul(s.dedup.len() as int, vstd::layout::size_of::<String>() as int),
    )
}

impl Queue {
    fn emit(&mut self, e: Effect)
        ensures
            final(self)@ == with_effect(old(self)@, e@),
    {
        let ghost old_effects = self.effects@;
        self.effects.push(e);
        assert(self.effects@.map_values(|x: Effect| x@) =~= old_effects.map_values(
            |x: Effect| x@,
        ).push(e@));
    }

    fn emit_meta(&mut self)
        ensures
            final(self)@ == persist_meta(old(self)@),
    {
        if self.persistent {
            let meta = self.meta.duplicate();
            self.emit(Effect::WriteMeta(meta));
        }
    }

    /// Hands the recorded effects over, oldest first, and forgets them.
    pub fn take_effects(&mut self) -> (r: Vec<Effect>)
        ensures
            r@.map_values(|e: Effect| e@) == old(self)@.effects,
            final(self)@ == (QueueView { effects: Seq::empty(), ..old(self)@ }),
    {
        let mut taken = Vec::new();
        std::mem::swap(&mut taken, &mut self.effects);
        assert(self.effects@.map_values(|e: Effect| e@) =~= Seq::<EffectView>::empty());
        taken
    }

    /// Creates an empty queue. A persistent one asks for its folder and a
    /// first metadata document.
    pub fn new(
        id: String,
        requeue_time: u32,
        deduplication_time: u32,
        persistent: bool,
        max_length: u64,
        dead_letter_queue: Option<QueueDeadLetterSettings>,
        now: u64,
    ) -> (r: Queue)
        ensures
            r@ == created(
                id@,
                requeue_time,
                deduplication_time,
                persistent,
                max_length,
                dead_letter_queue,
                now,
            ),
    {
        let meta = QueueMeta {
            created_at: now,
            last_compacted_at: 0,
            num_acknowledged: 0,
            num_deduplicated: 0,
            num_requeued: 0,
            requeue_time,
            deduplication_time,
            max_length,
            dead_letter_queue,
        };
        let mut queue = Queue {
            id,
            items: VecDeque::new(),
            dedup_set: DedupSet::new(),
            ack_map: InFlight::new(),
            meta,
            persistent,
            effects: Vec::new(),
        };
        assert(queue.effects@.map_values(|e: Effect| e@) =~= Seq::<EffectView>::empty());
        if persistent {
            queue.emit(Effect::CreateFolder);
            queue.emit_meta();
            assert(queue@.effects =~= seq![
                EffectView::CreateFolder,
                EffectView::WriteMeta(queue.meta),
            ]);
        }
        queue
    }

    /// Rebuilds a persistent queue from the records of its log (`None` where
    /// the queue has no log) and its stored metadata. It asks for an existing
    /// log to be rewritten compacted, and for the refreshed metadata to be
    /// written.
    pub fn from_disk(
        id: String,
        records: Option<&Vec<LogRecord>>,
        meta: QueueMeta,
        now: u64,
    ) -> (r: Queue)
        ensures
            r@ == recovered(
                id@,
                match records {
                    Some(log) => Some(log@),
                    None => None,
                },
                meta,
                now,
            ),
    {
        let items = match records {
            Some(log) => replay_log(log),
            None => VecDeque::new(),
        };
        let mut meta = meta;
        meta.last_compacted_at = now;
        let mut queue = Queue {
            id,
            items,
            dedup_set: DedupSet::new(),
            ack_map: InFlight::new(),
            meta,
            persistent: true,
            effects: Vec::new(),
        };
        assert(queue.effects@.map_values(|e: Effect| e@) =~= Seq::<EffectView>::empty());
        if records.is_some() {
            let compacted = queue.pending_messages();
            queue.emit(Effect::RewriteLog(compacted));
            queue.emit_meta();
            assert(queue@.effects =~= seq![
                EffectView::RewriteLog(queue@.pending),
                EffectView::WriteMeta(queue.meta),
            ]);
        } else {
            queue.emit_meta();
            assert(queue@.effects =~= seq![EffectView::WriteMeta(queue.meta)]);
        }
        queue
    }

    /// Tracks `dedup_id` unless it is tracked already, in which case the
    /// duplicate is counted. Returns whether the submission may go on.
    pub fn register_dedup_id(&mut self, dedup_id: Option<String>) -> (r: bool)
        ensures
            r == !is_duplicate(old(self)@, dedup_id),
            final(self)@ == (if r {
                track_dedup(old(self)@, dedup_id)
            } else {
                count_duplicate(old(self)@)
            }),
    {
        match dedup_id {
            Some(d) => {
                if self.dedup_set.contains(&d) {
                    self.meta.num_deduplicated = increment(self.meta.num_deduplicated);
                    self.emit_meta();
                    return false;
                }
                let lifetime = self.meta.deduplication_time;
                let key = d.clone();
                self.dedup_set.insert(d);
                if lifetime > 0 {
                    self.emit(Effect::ScheduleDedupExpiry { key, after_secs: lifetime as u64 });
                }
                true
            },
            None => true,
        }
    }

    /// Appends `msg` to the tail and asks for its live record.
    pub fn enqueue_message(&mut self, msg: Message) -> (r: Message)
        ensures
            r == msg,
            final(self)@ == append_message(old(self)@, msg),
    {
        self.items.push_back(msg.duplicate());
        if self.persistent {
            self.emit(Effect::AppendLive(msg.duplicate()));
        }
        msg
    }

    /// Appends a new pending message with id `id` and payload `item`.
    pub fn enqueue_item(&mut self, id: String, item: String, now: u64) -> (r: Message)
        ensures
            r == fresh_message(id, item, now),
            final(self)@ == append_message(old(self)@, r),
    {
        let message = Message {
            id,
            queued_at: now,
            updated_at: now,
            item,
            state: MessageState::Pending,
            num_requeues: 0,
        };
        self.enqueue_message(message)
    }

    /// Submits `item` as message `id`. A submission whose deduplication key
    /// is tracked is dropped and counted; any other is enqueued.
    pub fn try_enqueue_with_id(
        &mut self,
        id: String,
        item: String,
        dedup_id: Option<String>,
        now: u64,
    ) -> (r: Option<Message>)
        ensures
            (final(self)@, r) == enqueue_result(old(self)@, id, item, dedup_id, now),
    {
        if self.register_dedup_id(dedup_id) {
            Some(self.enqueue_item(id, item, now))
        } else {
            None
        }
    }

    /// Submits `item` under a newly generated message id; otherwise as
    /// [`Queue::try_enqueue_with_id`].
    pub fn try_enqueue(&mut self, item: String, dedup_id: Option<String>, now: u64) -> (r: Option<
        Message,
    >)
        ensures
            r is None <==> is_duplicate(old(self)@, dedup_id),
            r is None ==> final(self)@ == count_duplicate(old(self)@),
            r matches Some(m) ==> (final(self)@, r) == enqueue_result(
                old(self)@,
                m.id,
                item,
                dedup_id,
                now,
            ),
    {
        let id = new_message_id();
        self.try_enqueue_with_id(id, item, dedup_id, now)
    }

    /// A copy of the head, if any; nothing changes.
    pub fn peek(&self) -> (r: Option<Message>)
        ensures
            r == (if self@.pending.len() > 0 {
                Some(self@.pending[0])
            } else {
                None::<Message>
            }),
    {
        if self.items.len() > 0 {
            Some(self.items[0].duplicate())
        } else {
            None
        }
    }

    /// Removes and returns the head. Without `auto_ack` it is held in flight
    /// until acknowledged or timed out.
    pub fn dequeue(&mut self, auto_ack: bool) -> (r: Option<Message>)
        ensures
            (final(self)@, r) == dequeue_result(old(self)@, auto_ack),
    {
        match self.items.pop_front() {
            None => None,
            Some(message) => {
                if self.persistent {
                    self.emit(Effect::AppendTombstone(message.id.clone()));
                }
                if auto_ack {
                    self.meta.num_acknowledged = increment(self.meta.num_acknowledged);
                    self.emit_meta();
                } else {
                    let lifetime = self.meta.requeue_time;
                    let message_id = message.id.clone();
                    self.ack_map.insert(message.duplicate());
                    if lifetime > 0 {
                        self.emit(
                            Effect::ScheduleAckTimeout { message_id, after_secs: lifetime as u64 },
                        );
                    }
                }
                Some(message)
            },
        }
    }

    /// Acknowledges in-flight message `id`. Returns whether it was in flight.
    pub fn ack(&mut self, id: String) -> (r: bool)
        ensures
            (final(self)@, r) == ack_result(old(self)@, id@),
    {
        if self.ack_map.contains_key(&id) {
            let _ = self.ack_map.remove(&id);
            self.meta.num_acknowledged = increment(self.meta.num_acknowledged);
            self.emit_meta();
            true
        } else {
            false
        }
    }

    /// The deduplication window of `key` has passed: it is no longer tracked.
    pub fn expire_dedup(&mut self, key: &String)
        ensures
            final(self)@ == (QueueView { dedup: old(self)@.dedup.remove(key@), ..old(self)@ }),
    {
        self.dedup_set.remove(key);
    }

    /// Takes in-flight message `id` out of the in-flight table, if it is there.
    pub fn take_in_flight(&mut self, id: &String) -> (r: Option<Message>)
        ensures
            r == (if old(self)@.in_flight.contains_key(id@) {
                Some(old(self)@.in_flight[id@])
            } else {
                None::<Message>
            }),
            final(self)@ == (QueueView {
                in_flight: old(self)@.in_flight.remove(id@),
                ..old(self)@
            }),
    {
        self.ack_map.remove(id)
    }

    /// Where timed-out `msg` goes instead of back to this queue, if anywhere.
    pub fn dead_letter_target(&self, msg: &Message) -> (r: Option<String>)
        ensures
            r == dead_letter_target_of(self@, *msg),
    {
        match &self.meta.dead_letter_queue {
            Some(d) => if msg.num_requeues >= d.threshold {
                Some(d.name.clone())
            } else {
                None
            },
            None => None,
        }
    }

    /// Puts timed-out `msg` back at the tail.
    pub fn requeue(&mut self, msg: Message, now: u64)
        ensures
            final(self)@ == requeue_result(old(self)@, msg, now),
    {
        let mut msg = msg;
        msg.state = MessageState::Requeued;
        msg.updated_at = now;
        msg.num_requeues = increment_requeues(msg.num_requeues);
        self.meta.num_requeued = increment(self.meta.num_requeued);
        let _ = self.enqueue_message(msg);
        self.emit_meta();
    }

    /// Receives `msg`, which failed in another queue, at the tail.
    pub fn accept_dead_letter(&mut self, msg: Message, now: u64)
        ensures
            final(self)@ == append_message(old(self)@, failed(msg, now)),
    {
        let mut msg = msg;
        msg.state = MessageState::Failed;
        msg.updated_at = now;
        let _ = self.enqueue_message(msg);
    }

    /// Clears messages, keys and counters. A persistent queue asks for its
    /// folder to be removed (`delete`) or for its log to be removed and its
    /// metadata rewritten.
    pub fn purge(&mut self, delete: bool)
        ensures
            final(self)@ == purge_result(old(self)@, delete),
    {
        self.items = VecDeque::new();
        self.ack_map = InFlight::new();
        self.dedup_set = DedupSet::new();
        self.meta.num_acknowledged = 0;
        self.meta.num_deduplicated = 0;
        self.meta.num_requeued = 0;
        if self.persistent {
            if delete {
                self.emit(Effect::RemoveFolder);
            } else {
                self.emit(Effect::RemoveItemLog);
                self.emit_meta();
            }
        }
    }

    /// Asks for the log to be rewritten to the pending messages alone and
    /// records the time of compaction.
    pub fn compact(&mut self, now: u64)
        ensures
            final(self)@ == compact_result(old(self)@, now),
    {
        if self.persistent {
            let items = self.pending_messages();
            self.emit(Effect::RewriteLog(items));
        }
        self.meta.last_compacted_at = now;
        self.emit_meta();
    }

    /// Whether the queue wants a periodic compaction every `secs` seconds:
    /// only a persistent queue does, and only for a nonzero period.
    pub fn needs_compaction_timer(&self, secs: u64) -> (r: bool)
        ensures
            r == (self@.persistent && secs > 0),
    {
        self.persistent && secs > 0
    }

    /// Asks for the current metadata to be written, where the queue is
    /// persistent.
    pub fn write_metadata(&mut self)
        ensures
            final(self)@ == persist_meta(old(self)@),
    {
        self.emit_meta();
    }

    /// Whether `amount` more messages may be admitted.
    pub fn can_fit_messages(&self, amount: u64) -> (r: bool)
        ensures
            r == fits(self@, amount),
    {
        let max = self.meta.max_length;
        if max == 0 {
            return true;
        }
        let size = self.items.len();
        if amount > max {
            false
        } else {
            (size as u64) <= max - amount
        }
    }

    pub fn get_meta(&self) -> (r: QueueMeta)
        ensures
            r == self@.meta,
    {
        self.meta.duplicate()
    }

    pub fn max_length(&self) -> (r: u64)
        ensures
            r == self@.meta.max_length,
    {
        self.meta.max_length
    }

    /// The number of pending messages.
    pub fn size(&self) -> (r: usize)
        ensures
            r == self@.pending.len(),
    {
        self.items.len()
    }

    pub fn num_acknowledged(&self) -> (r: u64)
        ensures
            r == self@.meta.num_acknowledged,
    {
        self.meta.num_acknowledged
    }

    pub fn created_at(&self) -> (r: u64)
        ensures
            r == self@.meta.created_at,
    {
        self.meta.created_at
    }

    pub fn last_compacted_at(&self) -> (r: u64)
        ensures
            r == self@.meta.last_compacted_at,
    {
        self.meta.last_compacted_at
    }

    pub fn num_deduplicated(&self) -> (r: u64)
        ensures
            r == self@.meta.num_deduplicated,
    {
        self.meta.num_deduplicated
    }

    /// Every queue tracks finitely many keys and holds finitely many
    /// messages in flight.
    pub proof fn lemma_finite(&self)
        ensures
            self@.dedup.finite(),
            self@.in_flight.dom().finite(),
    {
        self.dedup_set.lemma_finite();
        self.ack_map.lemma_finite();
    }

    /// The number of tracked deduplication keys.
    pub fn dedup_size(&self) -> (r: usize)
        ensures
            r == self@.dedup.len(),
            self@.dedup.finite(),
    {
        self.dedup_set.len()
    }

    /// The number of messages in flight.
    pub fn ack_size(&self) -> (r: usize)
        ensures
            r == self@.in_flight.len(),
            self@.in_flight.dom().finite(),
    {
        self.ack_map.len()
    }

    pub fn num_requeued(&self) -> (r: u64)
        ensures
            r == self@.meta.num_requeued,
    {
        self.meta.num_requeued
    }

    pub fn deduplication_time(&self) -> (r: u32)
        ensures
            r == self@.meta.deduplication_time,
    {
        self.meta.deduplication_time
    }

    pub fn requeue_time(&self) -> (r: u32)
        ensures
            r == self@.meta.requeue_time,
    {
        self.meta.requeue_time
    }

    pub fn is_persistent(&self) -> (r: bool)
        ensures
            r == self@.persistent,
    {
        self.persistent
    }

    pub fn get_name(&self) -> (r: String)
        ensures
            r@ == self@.name,
    {
        self.id.clone()
    }

    pub fn set_deduplication_time(&mut self, time: u32)
        ensures
            final(self)@ == with_meta(
                old(self)@,
                QueueMeta { deduplication_time: time, ..old(self)@.meta },
            ),
    {
        self.meta.deduplication_time = time;
    }

    pub fn set_requeue_time(&mut self, time: u32)
        ensures
            final(self)@ == with_meta(
                old(self)@,
                QueueMeta { requeue_time: time, ..old(self)@.meta },
            ),
    {
        self.meta.requeue_time = time;
    }

    pub fn set_max_length(&mut self, max_length: u64)
        ensures
            final(self)@ == with_meta(old(self)@, QueueMeta { max_length, ..old(self)@.meta }),
    {
        self.meta.max_length = max_length;
    }

    /// An estimate of the queue's memory use in bytes: the queue itself, one
    /// message for each pending or in-flight one, one string for each tracked
    /// key. It stays at `usize::MAX` where the sum would not fit.
    pub fn get_memory_size(&self) -> (r: usize)
        ensures
            r == memory_estimate(self@),
    {
        let messages = self.size().saturating_add(self.ack_size());
        let message_bytes = saturating_product(messages, core::mem::size_of::<Message>());
        let key_bytes = saturating_product(self.dedup_size(), core::mem::size_of::<String>());
        core::mem::size_of::<Queue>().saturating_add(message_bytes).saturating_add(key_bytes)
    }

    /// The pending messages, head first.
    pub fn pending_messages(&self) -> (r: Vec<Message>)
        ensures
            r@ == self@.pending,
    {
        let mut out: Vec<Message> = Vec::new();
        let mut i: usize = 0;
        while i < self.items.len()
            invariant
                i <= self.items@.len(),
                out@ == self.items@.take(i as int),
            decreases self.items@.len() - i,
        {
            out.push(self.items[i].duplicate());
            assert(out@ =~= self.items@.take(i + 1));
            i = i + 1;
        }
        assert(self.items@.take(self.items@.len() as int) =~= self.items@);
        out
    }
}

} // verus!
