//! Corinth: a persistent message-queue broker.
//!
//! The library holds the broker's logic: the per-queue engine (FIFO of pending
//! messages, deduplication window, in-flight tracking, counters), the
//! append-only record log and its replay, the registry of named queues with
//! dead-letter routing, and the timer-driven transitions. Storage and timers
//! are left to the caller: every operation records what it needs done as an
//! [`Effect`] in the queue's outbox.

pub mod config;
pub mod effect;
mod ids;
pub mod laws;
pub mod log;
pub mod message;
pub mod meta;
pub mod queue;
pub mod registry;
pub mod tracking;

pub use config::{get_compaction_interval, get_port, DEFAULT_COMPACTION_INTERVAL, DEFAULT_PORT};
pub use effect::{apply_storage, apply_storage_effect, Effect, EffectView};
pub use laws::{
    acknowledged_message_never_returns, brings_fresh_ids, capacity_admission,
    compaction_is_idempotent, dequeue_in, dequeue_keeps_outstanding, ids_stay_unique, ids_unique,
    is_fresh, outstanding, timeout_keeps_outstanding,
    log_follows_pending, new_effects, repeated_dedup_id_is_dropped, replay_of_compacted_log,
    restart_drops_in_flight, step, third_timeout_moves_to_dead_letter,
    unacknowledged_message_is_requeued, QueueOp,
};
pub use log::{
    get_queue_folder, live_records, queue_item_file, queue_meta_file, queue_temp_file, replay,
    replay_log, tombstone_line, LogRecord,
};
pub use message::{Message, MessageState};
pub use meta::{bump, bump_requeues, QueueDeadLetterSettings, QueueMeta};
pub use queue::{Queue, QueueView};
pub use registry::{
    create_result, is_dead_letter_target, registry_map, targets, timeout_result, CreateError,
    DeleteError, Registry, TimeoutOutcome,
};
