//! Properties of the engine that involve several operations, proved over the
//! transitions that the operations' contracts state.
use crate::effect::{apply_storage, apply_storage_effect, EffectView};
use crate::log::{live_records, replay, LogRecord};
use crate::message::{Message, MessageState};
use crate::meta::{bump, QueueDeadLetterSettings, QueueMeta};
use crate::queue::{
    ack_result, append_message, compact_result, dead_letter_target_of, dequeue_result,
    enqueue_result, failed, fits, fresh_message, is_duplicate, persist_meta, purge_result,
    recovered, requeue_result, requeued, QueueView,
};
use crate::registry::{timeout_result, TimeoutOutcome};
use vstd::prelude::*;

verus! {

/// The effects that a transition from `before` to `after` recorded.
pub open spec fn new_effects(before: QueueView, after: QueueView) -> Seq<EffectView> {
    after.effects.skip(before.effects.len() as int)
}

/// Dequeueing from queue `queue` of registry `r`, as `Registry::get_mut`
/// followed by `Queue::dequeue` does it.
pub open spec fn dequeue_in(r: Map<Seq<char>, QueueView>, queue: Seq<char>, auto_ack: bool) -> Map<
    Seq<char>,
    QueueView,
> {
    r.insert(queue, dequeue_result(r[queue], auto_ack).0)
}

proof fn lemma_apply_push(log: Seq<LogRecord>, effects: Seq<EffectView>, e: EffectView)
    ensures
        apply_storage(log, effects.push(e)) == apply_storage_effect(apply_storage(log, effects), e),
{
    assert(effects.push(e).drop_last() =~= effects);
}

proof fn lemma_replay_push(log: Seq<LogRecord>, r: LogRecord)
    ensures
        replay(log.push(r)) == match r {
            LogRecord::Live(m) => replay(log).push(m),
            LogRecord::Tombstone(_) => if replay(log).len() == 0 {
                replay(log)
            } else {
                replay(log).drop_first()
            },
        },
{
    assert(log.push(r).drop_last() =~= log);
}

/// Replaying the log that compaction writes gives back exactly the messages
/// it was written from.
pub proof fn replay_of_compacted_log(messages: Seq<Message>)
    ensures
        replay(live_records(messages)) == messages,
    decreases messages.len(),
{
    if messages.len() == 0 {
        assert(live_records(messages) =~= Seq::<LogRecord>::empty());
    } else {
        let rest = messages.drop_last();
        replay_of_compacted_log(rest);
        assert(live_records(messages).drop_last() =~= live_records(rest));
        assert(rest.push(messages.last()) =~= messages);
    }
}

/// Submitting the same deduplication key twice, with no expiry in between:
/// the first submission is enqueued, the second is dropped, and the second
/// raises the deduplication count by exactly one and leaves the pending
/// messages alone.
pub proof fn repeated_dedup_id_is_dropped(
    s: QueueView,
    id1: String,
    item1: String,
    id2: String,
    item2: String,
    key1: String,
    key2: String,
    now1: u64,
    now2: u64,
)
    requires
        key1@ == key2@,
        !s.dedup.contains(key1@),
        s.meta.num_deduplicated < u64::MAX,
    ensures
        ({
            let (s1, r1) = enqueue_result(s, id1, item1, Some(key1), now1);
            let (s2, r2) = enqueue_result(s1, id2, item2, Some(key2), now2);
            &&& r1 == Some(fresh_message(id1, item1, now1))
            &&& r2 is None
            &&& s2.meta.num_deduplicated == s1.meta.num_deduplicated + 1
            &&& s1.meta.num_deduplicated == s.meta.num_deduplicated
            &&& s2.pending == s1.pending
            &&& s2.in_flight == s1.in_flight
            &&& s2.dedup == s1.dedup
        }),
{
}

/// A message dequeued without acknowledgment and not acknowledged before its
/// timeout goes back to the tail of its queue, requeued once more, when its
/// queue does not route it to a dead-letter queue.
pub proof fn unacknowledged_message_is_requeued(
    r: Map<Seq<char>, QueueView>,
    queue: Seq<char>,
    now: u64,
)
    requires
        r.contains_key(queue),
        r[queue].pending.len() > 0,
        r[queue].meta.requeue_time > 0,
        dead_letter_target_of(r[queue], r[queue].pending[0]) is None,
    ensures
        ({
            let m = r[queue].pending[0];
            let (s1, out) = dequeue_result(r[queue], false);
            let r1 = dequeue_in(r, queue, false);
            let (r2, outcome) = timeout_result(r1, queue, m.id@, now);
            &&& out == Some(m)
            &&& new_effects(r[queue], s1).contains(
                EffectView::ScheduleAckTimeout {
                    message_id: m.id,
                    after_secs: r[queue].meta.requeue_time as u64,
                },
            )
            &&& outcome == TimeoutOutcome::Requeued
            &&& r2[queue].pending == s1.pending.push(requeued(m, now))
            &&& requeued(m, now).state == MessageState::Requeued
            &&& (m.num_requeues == 0 ==> requeued(m, now).num_requeues == 1)
            &&& !r2[queue].in_flight.contains_key(m.id@)
        }),
{
    let s = r[queue];
    let m = s.pending[0];
    let (s1, out) = dequeue_result(s, false);
    let d = new_effects(s, s1);
    let e = EffectView::ScheduleAckTimeout {
        message_id: m.id,
        after_secs: s.meta.requeue_time as u64,
    };
    assert(d[d.len() - 1] == e);
}

/// A message dequeued with automatic acknowledgment is never requeued: it is
/// not in flight, no timeout is scheduled for it, and a timeout of its id
/// changes nothing.
pub proof fn acknowledged_message_never_returns(
    r: Map<Seq<char>, QueueView>,
    queue: Seq<char>,
    now: u64,
)
    requires
        r.contains_key(queue),
        r[queue].pending.len() > 0,
        !r[queue].in_flight.contains_key(r[queue].pending[0].id@),
    ensures
        ({
            let m = r[queue].pending[0];
            let (s1, out) = dequeue_result(r[queue], true);
            let r1 = dequeue_in(r, queue, true);
            &&& out == Some(m)
            &&& s1.in_flight == r[queue].in_flight
            &&& s1.meta.num_acknowledged == bump(r[queue].meta.num_acknowledged)
            &&& !s1.in_flight.contains_key(m.id@)
            &&& forall|i: int|
                0 <= i < new_effects(r[queue], s1).len() ==> !(#[trigger] new_effects(
                    r[queue],
                    s1,
                )[i] is ScheduleAckTimeout)
            &&& timeout_result(r1, queue, m.id@, now) == (r1, TimeoutOutcome::NotInFlight)
        }),
{
}

/// With a dead-letter threshold of two, a message that is dequeued and
/// times out three times without acknowledgment ends up, failed, at the tail
/// of the dead-letter queue, and is gone from its own queue.
pub proof fn third_timeout_moves_to_dead_letter(
    r: Map<Seq<char>, QueueView>,
    queue: Seq<char>,
    m: Message,
    d: QueueDeadLetterSettings,
    now1: u64,
    now2: u64,
    now3: u64,
)
    requires
        r.contains_key(queue),
        r.contains_key(d.name@),
        d.name@ != queue,
        d.threshold == 2,
        r[queue].meta.dead_letter_queue == Some(d),
        r[queue].pending == seq![m],
        !r[queue].in_flight.contains_key(m.id@),
        m.num_requeues == 0,
    ensures
        ({
            let (r2, o1) = timeout_result(dequeue_in(r, queue, false), queue, m.id@, now1);
            let (r4, o2) = timeout_result(dequeue_in(r2, queue, false), queue, m.id@, now2);
            let (r6, o3) = timeout_result(dequeue_in(r4, queue, false), queue, m.id@, now3);
            let last = failed(requeued(requeued(m, now1), now2), now3);
            &&& o1 == TimeoutOutcome::Requeued
            &&& o2 == TimeoutOutcome::Requeued
            &&& o3 == TimeoutOutcome::DeadLettered
            &&& r6[d.name@].pending == r[d.name@].pending.push(last)
            &&& last.state == MessageState::Failed
            &&& last.id == m.id
            &&& r6[queue].pending.len() == 0
            &&& forall|i: int|
                0 <= i < r6[queue].pending.len() ==> r6[queue].pending[i].id@ != m.id@
            &&& !r6[queue].in_flight.contains_key(m.id@)
            &&& r6[queue].meta.num_requeued == r4[queue].meta.num_requeued
        }),
{
    let t = d.name@;
    let r1 = dequeue_in(r, queue, false);
    assert(r1[queue].in_flight[m.id@] == m);
    assert(dead_letter_target_of(r1[queue], m) is None);
    let (r2, o1) = timeout_result(r1, queue, m.id@, now1);
    let m1 = requeued(m, now1);
    assert(r2[queue].pending =~= seq![m1]);
    assert(!r2[queue].in_flight.contains_key(m.id@));
    assert(r2[t] == r[t]);
    let r3 = dequeue_in(r2, queue, false);
    assert(r3[queue].in_flight[m.id@] == m1);
    assert(dead_letter_target_of(r3[queue], m1) is None);
    let (r4, o2) = timeout_result(r3, queue, m.id@, now2);
    let m2 = requeued(m1, now2);
    assert(r4[queue].pending =~= seq![m2]);
    assert(!r4[queue].in_flight.contains_key(m.id@));
    assert(r4[t] == r[t]);
    let r5 = dequeue_in(r4, queue, false);
    assert(r5[queue].in_flight[m.id@] == m2);
    assert(dead_letter_target_of(r5[queue], m2) == Some(d.name));
    let (r6, o3) = timeout_result(r5, queue, m.id@, now3);
    assert(r5[queue].pending =~= Seq::<Message>::empty());
}

/// Admission by capacity: a bounded queue refuses a batch that would take it
/// past its bound, and an unbounded queue admits any batch.
pub proof fn capacity_admission(s: QueueView, amount: u64)
    ensures
        s.meta.max_length > 0 && s.pending.len() + amount > s.meta.max_length ==> !fits(s, amount),
        s.meta.max_length == 0 ==> fits(s, amount),
{
}

/// Compacting twice with nothing in between writes the same log both
/// times: the live records of the pending messages, which replay to them.
pub proof fn compaction_is_idempotent(
    s: QueueView,
    now1: u64,
    now2: u64,
    log1: Seq<LogRecord>,
    log2: Seq<LogRecord>,
)
    requires
        s.persistent,
    ensures
        ({
            let s1 = compact_result(s, now1);
            let s2 = compact_result(s1, now2);
            let out1 = apply_storage(log1, new_effects(s, s1));
            let out2 = apply_storage(log2, new_effects(s1, s2));
            &&& out1 == live_records(s.pending)
            &&& out2 == out1
            &&& replay(out2) == s.pending
            &&& s2.pending == s.pending
        }),
{
    let s1 = compact_result(s, now1);
    let s2 = compact_result(s1, now2);
    let d1 = new_effects(s, s1);
    let d2 = new_effects(s1, s2);
    assert(d1 =~= seq![EffectView::RewriteLog(s.pending), EffectView::WriteMeta(s1.meta)]);
    assert(d2 =~= seq![EffectView::RewriteLog(s.pending), EffectView::WriteMeta(s2.meta)]);
    lemma_apply_push(log1, seq![EffectView::RewriteLog(s.pending)], EffectView::WriteMeta(s1.meta));
    lemma_apply_push(log1, Seq::empty(), EffectView::RewriteLog(s.pending));
    assert(seq![EffectView::RewriteLog(s.pending)] =~= Seq::<EffectView>::empty().push(
        EffectView::RewriteLog(s.pending),
    ));
    assert(d1 =~= seq![EffectView::RewriteLog(s.pending)].push(EffectView::WriteMeta(s1.meta)));
    lemma_apply_push(log2, seq![EffectView::RewriteLog(s.pending)], EffectView::WriteMeta(s2.meta));
    lemma_apply_push(log2, Seq::empty(), EffectView::RewriteLog(s.pending));
    assert(d2 =~= seq![EffectView::RewriteLog(s.pending)].push(EffectView::WriteMeta(s2.meta)));
    replay_of_compacted_log(s.pending);
}

/// A restart between a dequeue without acknowledgment and its timeout loses
/// the message: rebuilt from the log, the queue has it neither pending nor
/// in flight. Here the log before the dequeue replays to the pending
/// messages and their ids are distinct.
pub proof fn restart_drops_in_flight(
    s: QueueView,
    log: Seq<LogRecord>,
    stored_meta: QueueMeta,
    now: u64,
)
    requires
        s.persistent,
        s.pending.len() > 0,
        replay(log) == s.pending,
        forall|i: int, j: int|
            0 <= i < j < s.pending.len() ==> s.pending[i].id@ != s.pending[j].id@,
    ensures
        ({
            let (s1, out) = dequeue_result(s, false);
            let m = s.pending[0];
            let log1 = apply_storage(log, new_effects(s, s1));
            let restarted = recovered(s.name, Some(log1), stored_meta, now);
            &&& out == Some(m)
            &&& s1.in_flight.contains_key(m.id@)
            &&& restarted.pending == s1.pending
            &&& forall|i: int|
                0 <= i < restarted.pending.len() ==> restarted.pending[i].id@ != m.id@
            &&& !restarted.in_flight.contains_key(m.id@)
        }),
{
    let (s1, out) = dequeue_result(s, false);
    let m = s.pending[0];
    let d = new_effects(s, s1);
    let tomb = EffectView::AppendTombstone(m.id);
    if s.meta.requeue_time > 0 {
        let sched = EffectView::ScheduleAckTimeout {
            message_id: m.id,
            after_secs: s.meta.requeue_time as u64,
        };
        assert(d =~= Seq::<EffectView>::empty().push(tomb).push(sched));
        lemma_apply_push(log, Seq::<EffectView>::empty().push(tomb), sched);
    } else {
        assert(d =~= Seq::<EffectView>::empty().push(tomb));
    }
    lemma_apply_push(log, Seq::<EffectView>::empty(), tomb);
    lemma_replay_push(log, LogRecord::Tombstone(m.id));
    let after = apply_storage(log, d);
    assert(after == log.push(LogRecord::Tombstone(m.id)));
    assert forall|i: int| 0 <= i < s1.pending.len() implies s1.pending[i].id@ != m.id@ by {
        assert(s1.pending[i] == s.pending[i + 1]);
    }
}

/// An operation on one queue, with the values its method takes.
pub enum QueueOp {
    Enqueue { id: String, item: String, dedup_id: Option<String>, now: u64 },
    Dequeue { auto_ack: bool },
    Ack { id: Seq<char> },
    ExpireDedup { key: Seq<char> },
    TakeInFlight { id: Seq<char> },
    Requeue { message: Message, now: u64 },
    AcceptDeadLetter { message: Message, now: u64 },
    Purge { delete: bool },
    Compact { now: u64 },
    WriteMetadata,
}

/// The queue after operation `op`, as the operation's contract states it.
pub open spec fn step(s: QueueView, op: QueueOp) -> QueueView {
    match op {
        QueueOp::Enqueue { id, item, dedup_id, now } => {
            enqueue_result(s, id, item, dedup_id, now).0
        },
        QueueOp::Dequeue { auto_ack } => dequeue_result(s, auto_ack).0,
        QueueOp::Ack { id } => ack_result(s, id).0,
        QueueOp::ExpireDedup { key } => QueueView { dedup: s.dedup.remove(key), ..s },
        QueueOp::TakeInFlight { id } => QueueView { in_flight: s.in_flight.remove(id), ..s },
        QueueOp::Requeue { message, now } => requeue_result(s, message, now),
        QueueOp::AcceptDeadLetter { message, now } => append_message(s, failed(message, now)),
        QueueOp::Purge { delete } => purge_result(s, delete),
        QueueOp::Compact { now } => compact_result(s, now),
        QueueOp::WriteMetadata => persist_meta(s),
    }
}

proof fn lemma_apply_two(log: Seq<LogRecord>, a: EffectView, b: EffectView)
    ensures
        apply_storage(log, seq![a, b]) == apply_storage_effect(apply_storage_effect(log, a), b),
{
    lemma_apply_push(log, Seq::empty(), a);
    assert(seq![a] =~= Seq::<EffectView>::empty().push(a));
    lemma_apply_push(log, seq![a], b);
    assert(seq![a, b] =~= seq![a].push(b));
}

proof fn lemma_apply_one(log: Seq<LogRecord>, a: EffectView)
    ensures
        apply_storage(log, seq![a]) == apply_storage_effect(log, a),
{
    lemma_apply_push(log, Seq::empty(), a);
    assert(seq![a] =~= Seq::<EffectView>::empty().push(a));
}

/// On a persistent queue whose log replays to its pending messages, every
/// operation records storage effects that keep it so: carried out on the
/// log, they leave a log that replays to the new pending messages. Deletion
/// happens only at the head, which is what lets a tombstone remove the head
/// on replay.
pub proof fn log_follows_pending(s: QueueView, log: Seq<LogRecord>, op: QueueOp)
    requires
        s.persistent,
        replay(log) == s.pending,
    ensures
        replay(apply_storage(log, new_effects(s, step(s, op)))) == step(s, op).pending,
{
    let t = step(s, op);
    let d = new_effects(s, t);
    match op {
        QueueOp::Enqueue { id, item, dedup_id, now } => {
            if is_duplicate(s, dedup_id) {
                assert(d =~= seq![EffectView::WriteMeta(t.meta)]);
                lemma_apply_one(log, EffectView::WriteMeta(t.meta));
            } else {
                let m = fresh_message(id, item, now);
                lemma_replay_push(log, LogRecord::Live(m));
                if dedup_id is Some && s.meta.deduplication_time > 0 {
                    let e = t.effects[s.effects.len() as int];
                    assert(d =~= seq![e, EffectView::AppendLive(m)]);
                    lemma_apply_two(log, e, EffectView::AppendLive(m));
                } else {
                    assert(d =~= seq![EffectView::AppendLive(m)]);
                    lemma_apply_one(log, EffectView::AppendLive(m));
                }
            }
        },
        QueueOp::Dequeue { auto_ack } => {
            if s.pending.len() == 0 {
                assert(d =~= Seq::<EffectView>::empty());
            } else {
                let m = s.pending[0];
                let tomb = EffectView::AppendTombstone(m.id);
                lemma_replay_push(log, LogRecord::Tombstone(m.id));
                if auto_ack || s.meta.requeue_time > 0 {
                    let e = t.effects[s.effects.len() as int + 1];
                    assert(d =~= seq![tomb, e]);
                    lemma_apply_two(log, tomb, e);
                } else {
                    assert(d =~= seq![tomb]);
                    lemma_apply_one(log, tomb);
                }
            }
        },
        QueueOp::Ack { id } => {
            if s.in_flight.contains_key(id) {
                assert(d =~= seq![EffectView::WriteMeta(t.meta)]);
                lemma_apply_one(log, EffectView::WriteMeta(t.meta));
            } else {
                assert(d =~= Seq::<EffectView>::empty());
            }
        },
        QueueOp::ExpireDedup { key } => {
            assert(d =~= Seq::<EffectView>::empty());
        },
        QueueOp::TakeInFlight { id } => {
            assert(d =~= Seq::<EffectView>::empty());
        },
        QueueOp::Requeue { message, now } => {
            let m = requeued(message, now);
            lemma_replay_push(log, LogRecord::Live(m));
            assert(d =~= seq![EffectView::AppendLive(m), EffectView::WriteMeta(t.meta)]);
            lemma_apply_two(log, EffectView::AppendLive(m), EffectView::WriteMeta(t.meta));
        },
        QueueOp::AcceptDeadLetter { message, now } => {
            let m = failed(message, now);
            lemma_replay_push(log, LogRecord::Live(m));
            assert(d =~= seq![EffectView::AppendLive(m)]);
            lemma_apply_one(log, EffectView::AppendLive(m));
        },
        QueueOp::Purge { delete } => {
            if delete {
                assert(d =~= seq![EffectView::RemoveFolder]);
                lemma_apply_one(log, EffectView::RemoveFolder);
            } else {
                assert(d =~= seq![EffectView::RemoveItemLog, EffectView::WriteMeta(t.meta)]);
                lemma_apply_two(log, EffectView::RemoveItemLog, EffectView::WriteMeta(t.meta));
            }
            assert(replay(Seq::<LogRecord>::empty()) =~= Seq::<Message>::empty());
        },
        QueueOp::Compact { now } => {
            let e = EffectView::RewriteLog(s.pending);
            assert(d =~= seq![e, EffectView::WriteMeta(t.meta)]);
            lemma_apply_two(log, e, EffectView::WriteMeta(t.meta));
            replay_of_compacted_log(s.pending);
        },
        QueueOp::WriteMetadata => {
            assert(d =~= seq![EffectView::WriteMeta(t.meta)]);
            lemma_apply_one(log, EffectView::WriteMeta(t.meta));
        },
    }
}

/// Each message id is held once: pending ids are distinct, no pending id is
/// in flight, and each in-flight message sits under its own id.
pub open spec fn ids_unique(s: QueueView) -> bool {
    &&& forall|i: int, j: int|
        0 <= i < j < s.pending.len() ==> #[trigger] s.pending[i].id@ != #[trigger] s.pending[j].id@
    &&& forall|i: int|
        0 <= i < s.pending.len() ==> !s.in_flight.contains_key(#[trigger] s.pending[i].id@)
    &&& forall|k: Seq<char>| #[trigger] s.in_flight.contains_key(k) ==> s.in_flight[k].id@ == k
}

/// Whether `id` is new to the queue: neither pending nor in flight.
pub open spec fn is_fresh(s: QueueView, id: Seq<char>) -> bool {
    &&& forall|i: int| 0 <= i < s.pending.len() ==> #[trigger] s.pending[i].id@ != id
    &&& !s.in_flight.contains_key(id)
}

/// Whether `op` brings in only ids that are new to the queue.
pub open spec fn brings_fresh_ids(s: QueueView, op: QueueOp) -> bool {
    match op {
        QueueOp::Enqueue { id, .. } => is_fresh(s, id@),
        QueueOp::Requeue { message, .. } => is_fresh(s, message.id@),
        QueueOp::AcceptDeadLetter { message, .. } => is_fresh(s, message.id@),
        _ => true,
    }
}

/// Every operation keeps each message id in at most one place, pending or
/// in flight, as long as the messages it brings in carry new ids. A message
/// taken out of the in-flight table carries an id that is then new, so it
/// may be requeued.
pub proof fn ids_stay_unique(s: QueueView, op: QueueOp)
    requires
        ids_unique(s),
        brings_fresh_ids(s, op),
    ensures
        ids_unique(step(s, op)),
        op matches QueueOp::TakeInFlight { id } ==> (s.in_flight.contains_key(id) ==> is_fresh(
            step(s, op),
            s.in_flight[id].id@,
        )),
{
    let t = step(s, op);
    match op {
        QueueOp::Dequeue { auto_ack } => {
            if s.pending.len() > 0 {
                let m = s.pending[0];
                assert forall|i: int, j: int|
                    0 <= i < j < t.pending.len() implies #[trigger] t.pending[i].id@
                        != #[trigger] t.pending[j].id@ by {
                    assert(t.pending[i] == s.pending[i + 1]);
                    assert(t.pending[j] == s.pending[j + 1]);
                }
                assert forall|i: int| 0 <= i < t.pending.len() implies !t.in_flight.contains_key(
                    #[trigger] t.pending[i].id@,
                ) by {
                    assert(t.pending[i] == s.pending[i + 1]);
                    assert(s.pending[0].id@ != s.pending[i + 1].id@);
                }
            }
        },
        QueueOp::Enqueue { id, item, dedup_id, now } => {
            if !is_duplicate(s, dedup_id) {
                let m = fresh_message(id, item, now);
                assert forall|i: int, j: int|
                    0 <= i < j < t.pending.len() implies #[trigger] t.pending[i].id@
                        != #[trigger] t.pending[j].id@ by {
                    if j == s.pending.len() {
                        assert(t.pending[j] == m);
                    }
                }
                assert forall|i: int| 0 <= i < t.pending.len() implies !t.in_flight.contains_key(
                    #[trigger] t.pending[i].id@,
                ) by {
                    if i == s.pending.len() {
                        assert(t.pending[i] == m);
                    }
                }
            }
        },
        QueueOp::Requeue { message, now } => {
            let m = requeued(message, now);
            assert forall|i: int, j: int|
                0 <= i < j < t.pending.len() implies #[trigger] t.pending[i].id@
                    != #[trigger] t.pending[j].id@ by {
                if j == s.pending.len() {
                    assert(t.pending[j] == m);
                }
            }
            assert forall|i: int| 0 <= i < t.pending.len() implies !t.in_flight.contains_key(
                #[trigger] t.pending[i].id@,
            ) by {
                if i == s.pending.len() {
                    assert(t.pending[i] == m);
                }
            }
        },
        QueueOp::AcceptDeadLetter { message, now } => {
            let m = failed(message, now);
            assert forall|i: int, j: int|
                0 <= i < j < t.pending.len() implies #[trigger] t.pending[i].id@
                    != #[trigger] t.pending[j].id@ by {
                if j == s.pending.len() {
                    assert(t.pending[j] == m);
                }
            }
            assert forall|i: int| 0 <= i < t.pending.len() implies !t.in_flight.contains_key(
                #[trigger] t.pending[i].id@,
            ) by {
                if i == s.pending.len() {
                    assert(t.pending[i] == m);
                }
            }
        },
        _ => {},
    }
}

/// The messages a queue is answerable for: pending or in flight.
pub open spec fn outstanding(s: QueueView) -> int {
    s.pending.len() + s.in_flight.len() as int
}

/// A dequeue keeps the number of outstanding messages, but for one that is
/// acknowledged at once; each id stays in one place.
pub proof fn dequeue_keeps_outstanding(s: QueueView, auto_ack: bool)
    requires
        s.in_flight.dom().finite(),
        ids_unique(s),
    ensures
        ({
            let (t, r) = dequeue_result(s, auto_ack);
            &&& t.in_flight.dom().finite()
            &&& ids_unique(t)
            &&& outstanding(t) == outstanding(s) - (if r is Some && auto_ack {
                1int
            } else {
                0int
            })
        }),
{
    ids_stay_unique(s, QueueOp::Dequeue { auto_ack });
    if s.pending.len() > 0 && !auto_ack {
        assert(!s.in_flight.contains_key(s.pending[0].id@));
    }
}

/// An acknowledgment timeout that puts the message back in its own queue
/// keeps the number of outstanding messages: the message leaves the
/// in-flight table and comes back at the tail; each id stays in one place.
pub proof fn timeout_keeps_outstanding(
    r: Map<Seq<char>, QueueView>,
    queue: Seq<char>,
    id: Seq<char>,
    now: u64,
)
    requires
        r.contains_key(queue),
        r[queue].in_flight.contains_key(id),
        r[queue].in_flight.dom().finite(),
        ids_unique(r[queue]),
        dead_letter_target_of(r[queue], r[queue].in_flight[id]) is None,
    ensures
        ({
            let (r2, outcome) = timeout_result(r, queue, id, now);
            &&& outcome == TimeoutOutcome::Requeued
            &&& r2[queue].in_flight.dom().finite()
            &&& ids_unique(r2[queue])
            &&& outstanding(r2[queue]) == outstanding(r[queue])
        }),
{
    let s = r[queue];
    let m = s.in_flight[id];
    let take = QueueOp::TakeInFlight { id };
    ids_stay_unique(s, take);
    let s1 = step(s, take);
    ids_stay_unique(s1, QueueOp::Requeue { message: m, now });
}

} // verus!
