use vstd::prelude::*;

verus! {

/// Adds one to a counter, staying at the top of its range once there.
pub open spec fn bump(n: u64) -> u64 {
    if n < u64::MAX {
        (n + 1) as u64
    } else {
        n
    }
}

/// Adds one to a requeue count, staying at the top of its range once there.
pub open spec fn bump_requeues(n: u16) -> u16 {
    if n < u16::MAX {
        (n + 1) as u16
    } else {
        n
    }
}

pub fn increment(n: u64) -> (r: u64)
    ensures
        r == bump(n),
{
    n.saturating_add(1)
}

pub fn increment_requeues(n: u16) -> (r: u16)
    ensures
        r == bump_requeues(n),
{
    n.saturating_add(1)
}

/// Routing of messages that time out too often: once a timed-out message has
/// been requeued `threshold` times, it moves to the queue called `name`.
#[derive(Clone, Debug)]
pub struct QueueDeadLetterSettings {
    pub name: String,
    pub threshold: u16,
}

impl QueueDeadLetterSettings {
    pub fn duplicate(&self) -> (r: QueueDeadLetterSettings)
        ensures
            r == *self,
    {
        QueueDeadLetterSettings { name: self.name.clone(), threshold: self.threshold }
    }
}

/// What a queue persists as a whole document: timestamps, counters and
/// configuration. Times are in seconds; a zero `requeue_time` disables
/// requeueing, a zero `deduplication_time` lets deduplication keys live
/// until the queue is purged, and a zero `max_length` leaves the queue
/// unbounded.
#[derive(Clone, Debug)]
pub struct QueueMeta {
    pub created_at: u64,
    pub last_compacted_at: u64,
    pub num_acknowledged: u64,
    pub num_deduplicated: u64,
    pub num_requeued: u64,
    pub requeue_time: u32,
    pub deduplication_time: u32,
    pub max_length: u64,
    pub dead_letter_queue: Option<QueueDeadLetterSettings>,
}

impl QueueMeta {
    pub fn duplicate(&self) -> (r: QueueMeta)
        ensures
            r == *self,
    {
        let dead_letter_queue = match &self.dead_letter_queue {
            Some(d) => Some(d.duplicate()),
            None => None,
        };
        QueueMeta {
            created_at: self.created_at,
            last_compacted_at: self.last_compacted_at,
            num_acknowledged: self.num_acknowledged,
            num_deduplicated: self.num_deduplicated,
            num_requeued: self.num_requeued,
            requeue_time: self.requeue_time,
            deduplication_time: self.deduplication_time,
            max_length: self.max_length,
            dead_letter_queue,
        }
    }
}

} // verus!
