use crate::log::{live_records, LogRecord};
use crate::message::Message;
use crate::meta::QueueMeta;
use vstd::prelude::*;

verus! {

/// Work that a queue operation leaves for its caller: storage writes and
/// timers. The caller performs a queue's effects in the order they were
/// recorded, while it still holds the registry.
pub enum Effect {
    /// Create the queue's folder.
    CreateFolder,
    /// Append a live record of this message to the queue's log.
    AppendLive(Message),
    /// Append a tombstone for the message with this id to the queue's log.
    AppendTombstone(String),
    /// Write these messages as live records to the scratch file, then rename
    /// it over the log.
    RewriteLog(Vec<Message>),
    /// Remove the queue's log, keeping its folder.
    RemoveItemLog,
    /// Remove the queue's folder and everything in it.
    RemoveFolder,
    /// Overwrite the queue's metadata document with this one.
    WriteMeta(QueueMeta),
    /// After `after_secs` seconds, stop tracking deduplication key `key`.
    ScheduleDedupExpiry { key: String, after_secs: u64 },
    /// After `after_secs` seconds, time out the in-flight message `message_id`.
    ScheduleAckTimeout { message_id: String, after_secs: u64 },
}

/// An [`Effect`] as a value: the same, with the rewritten log as a sequence.
pub enum EffectView {
    CreateFolder,
    AppendLive(Message),
    AppendTombstone(String),
    RewriteLog(Seq<Message>),
    RemoveItemLog,
    RemoveFolder,
    WriteMeta(QueueMeta),
    ScheduleDedupExpiry { key: String, after_secs: u64 },
    ScheduleAckTimeout { message_id: String, after_secs: u64 },
}

impl View for Effect {
    type V = EffectView;

    open spec fn view(&self) -> EffectView {
        match self {
            Effect::CreateFolder => EffectView::CreateFolder,
            Effect::AppendLive(m) => EffectView::AppendLive(*m),
            Effect::AppendTombstone(id) => EffectView::AppendTombstone(*id),
            Effect::RewriteLog(ms) => EffectView::RewriteLog(ms@),
            Effect::RemoveItemLog => EffectView::RemoveItemLog,
            Effect::RemoveFolder => EffectView::RemoveFolder,
            Effect::WriteMeta(meta) => EffectView::WriteMeta(*meta),
            Effect::ScheduleDedupExpiry { key, after_secs } => EffectView::ScheduleDedupExpiry {
                key: *key,
                after_secs: *after_secs,
            },
            Effect::ScheduleAckTimeout { message_id, after_secs } =>
                EffectView::ScheduleAckTimeout { message_id: *message_id, after_secs: *after_secs },
        }
    }
}

/// The record log after storage effect `e` is carried out on `log`.
pub open spec fn apply_storage_effect(log: Seq<LogRecord>, e: EffectView) -> Seq<LogRecord> {
    match e {
        EffectView::AppendLive(m) => log.push(LogRecord::Live(m)),
        EffectView::AppendTombstone(id) => log.push(LogRecord::Tombstone(id)),
        EffectView::RewriteLog(ms) => live_records(ms),
        EffectView::RemoveItemLog => Seq::empty(),
        EffectView::RemoveFolder => Seq::empty(),
        _ => log,
    }
}

/// The record log after the storage effects in `effects` are carried out on
/// `log`, in order.
pub open spec fn apply_storage(log: Seq<LogRecord>, effects: Seq<EffectView>) -> Seq<LogRecord>
    decreases effects.len(),
{
    if effects.len() == 0 {
        log
    } else {
        apply_storage_effect(apply_storage(log, effects.drop_last()), effects.last())
    }
}

} // verus!
