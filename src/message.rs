use vstd::prelude::*;

verus! {

/// Where a message stands in its life cycle.
#[derive(Clone, Copy, Debug, PartialEq, Eq, Structural)]
pub enum MessageState {
    /// Enqueued by a producer and not yet timed out.
    Pending,
    /// Put back at the tail after an acknowledgment timeout.
    Requeued,
    /// Moved to a dead-letter queue after too many timeouts.
    Failed,
}

/// A queued message. The payload is a JSON text that the engine never inspects.
#[derive(Clone, Debug)]
pub struct Message {
    pub id: String,
    pub queued_at: u64,
    pub updated_at: u64,
    pub item: String,
    pub state: MessageState,
    pub num_requeues: u16,
}

impl Message {
    /// A copy of this message, field by field.
    pub fn duplicate(&self) -> (r: Message)
        ensures
            r == *self,
    {
        Message {
            id: self.id.clone(),
            queued_at: self.queued_at,
            updated_at: self.updated_at,
            item: self.item.clone(),
            state: self.state,
            num_requeues: self.num_requeues,
        }
    }
}

} // verus!
