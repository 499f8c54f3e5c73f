use crate::message::Message;
use vstd::prelude::*;

verus! {

/// One line of a queue's append-only record log.
pub enum LogRecord {
    /// A message appended to the tail of the queue.
    Live(Message),
    /// A tombstone for the message with this id. On replay it removes the
    /// current head, because messages only ever leave a queue at its head.
    Tombstone(String),
}

/// The pending messages that a log describes: a live record goes to the
/// tail, a tombstone takes the head (if any) away.
pub open spec fn replay(records: Seq<LogRecord>) -> Seq<Message>
    decreases records.len(),
{
    if records.len() == 0 {
        Seq::empty()
    } else {
        let before = replay(records.drop_last());
        match records.last() {
            LogRecord::Live(m) => before.push(m),
            LogRecord::Tombstone(_) => if before.len() == 0 {
                before
            } else {
                before.drop_first()
            },
        }
    }
}

/// The log that compaction writes for a list of pending messages: one live
/// record each, in order, and no tombstone.
pub open spec fn live_records(messages: Seq<Message>) -> Seq<LogRecord> {
    messages.map_values(|m: Message| LogRecord::Live(m))
}

/// Rebuilds the pending messages from a log, record by record.
pub fn replay_log(records: &Vec<LogRecord>) -> (r: std::collections::VecDeque<Message>)
    ensures
        r@ == replay(records@),
{
    let mut items: std::collections::VecDeque<Message> = std::collections::VecDeque::new();
    let mut i: usize = 0;
    while i < records.len()
        invariant
            i <= records@.len(),
            items@ == replay(records@.take(i as int)),
        decreases records@.len() - i,
    {
        assert(records@.take(i + 1).drop_last() =~= records@.take(i as int));
        match &records[i] {
            LogRecord::Live(m) => {
                items.push_back(m.duplicate());
            },
            LogRecord::Tombstone(_) => {
                let _ = items.pop_front();
            },
        }
        i = i + 1;
    }
    assert(records@.take(records@.len() as int) =~= records@);
    items
}

/// The text of a tombstone line for message `id`, newline included.
pub fn tombstone_line(id: &str) -> (r: String)
    ensures
        r@ == "{\"$corinth_deleted\":\""@ + id@ + "\" }\n"@,
{
    let mut line = String::from_str("{\"$corinth_deleted\":\"");
    line.append(id);
    line.append("\" }\n");
    line
}

/// The folder that holds a queue's files: `<base>/queues/<name>`.
pub fn get_queue_folder(base: &str, id: &str) -> (r: String)
    ensures
        r@ == base@ + "/queues/"@ + id@,
{
    let mut path = String::from_str(base);
    path.append("/queues/");
    path.append(id);
    path
}

/// The queue's metadata document: `<base>/queues/<name>/meta.json`.
pub fn queue_meta_file(base: &str, id: &str) -> (r: String)
    ensures
        r@ == base@ + "/queues/"@ + id@ + "/meta.json"@,
{
    let mut path = get_queue_folder(base, id);
    path.append("/meta.json");
    path
}

/// A record file of the queue: `<base>/queues/<name>/items<suffix>.jsonl`.
pub fn queue_item_file(base: &str, id: &str, suffix: &str) -> (r: String)
    ensures
        r@ == base@ + "/queues/"@ + id@ + "/items"@ + suffix@ + ".jsonl"@,
{
    let mut path = get_queue_folder(base, id);
    path.append("/items");
    path.append(suffix);
    path.append(".jsonl");
    path
}

/// The scratch file that compaction writes before renaming it over the log.
pub fn queue_temp_file(base: &str, id: &str) -> (r: String)
    ensures
        r@ == base@ + "/queues/"@ + id@ + "/items"@ + "~"@ + ".jsonl"@,
{
    queue_item_file(base, id, "~")
}

} // verus!
