use crate::message::Message;
use crate::meta::QueueDeadLetterSettings;
use crate::queue::{
    append_message, created, dead_letter_target_of, failed, purge_result, requeue_result, Queue,
    QueueView,
};
use crate::tracking::lemma_index_of_distinct;
use vstd::prelude::*;

verus! {

/// The queues of a registry by name, given its names and queues side by side.
pub open spec fn registry_map(names: Seq<Seq<char>>, queues: Seq<Queue>) -> Map<
    Seq<char>,
    QueueView,
> {
    Map::new(|k: Seq<char>| names.contains(k), |k: Seq<char>| queues[names.index_of(k)]@)
}

proof fn lemma_registry_update(names: Seq<Seq<char>>, queues: Seq<Queue>, i: int, q: Queue)
    requires
        names.no_duplicates(),
        names.len() == queues.len(),
        0 <= i < names.len(),
    ensures
        registry_map(names, queues.update(i, q)) == registry_map(names, queues).insert(
            names[i],
            q@,
        ),
{
    let after = registry_map(names, queues.update(i, q));
    let expected = registry_map(names, queues).insert(names[i], q@);
    assert forall|k: Seq<char>| #[trigger] after.contains_key(k) implies expected.contains_key(k)
        && after[k] == expected[k] by {
        let j = names.index_of(k);
        lemma_index_of_distinct(names, j);
        lemma_index_of_distinct(names, i);
    }
    assert forall|k: Seq<char>| #[trigger]
        expected.contains_key(k) implies after.contains_key(k) by {
        if k == names[i] {
            lemma_index_of_distinct(names, i);
        }
    }
    assert(after =~= expected);
}

proof fn lemma_registry_push(names: Seq<Seq<char>>, queues: Seq<Queue>, n: Seq<char>, q: Queue)
    requires
        names.no_duplicates(),
        names.len() == queues.len(),
        !names.contains(n),
    ensures
        names.push(n).no_duplicates(),
        registry_map(names.push(n), queues.push(q)) == registry_map(names, queues).insert(n, q@),
{
    let names2 = names.push(n);
    assert(names2.no_duplicates()) by {
        assert forall|a: int, b: int| 0 <= a < names2.len() && 0 <= b < names2.len() && a != b
            implies names2[a] != names2[b] by {
            if a == names.len() {
                assert(names.contains(names[b]));
            } else if b == names.len() {
                assert(names.contains(names[a]));
            }
        }
    }
    let after = registry_map(names2, queues.push(q));
    let expected = registry_map(names, queues).insert(n, q@);
    assert forall|k: Seq<char>| #[trigger] after.contains_key(k) implies expected.contains_key(k)
        && after[k] == expected[k] by {
        let j = names2.index_of(k);
        lemma_index_of_distinct(names2, j);
        if j < names.len() {
            lemma_index_of_distinct(names, j);
        }
    }
    assert forall|k: Seq<char>| #[trigger]
        expected.contains_key(k) implies after.contains_key(k) by {
        if k == n {
            assert(names2[names.len() as int] == n);
        } else {
            let j = names.index_of(k);
            assert(names2[j] == k);
        }
    }
    assert(after =~= expected);
}

proof fn lemma_registry_remove(names: Seq<Seq<char>>, queues: Seq<Queue>, i: int)
    requires
        names.no_duplicates(),
        names.len() == queues.len(),
        0 <= i < names.len(),
    ensures
        names.remove(i).no_duplicates(),
        registry_map(names.remove(i), queues.remove(i)) == registry_map(names, queues).remove(
            names[i],
        ),
{
    let names2 = names.remove(i);
    assert(names2.no_duplicates()) by {
        assert forall|a: int, b: int| 0 <= a < names2.len() && 0 <= b < names2.len() && a != b
            implies names2[a] != names2[b] by {
            let a1 = if a < i { a } else { a + 1 };
            let b1 = if b < i { b } else { b + 1 };
            assert(names2[a] == names[a1]);
            assert(names2[b] == names[b1]);
        }
    }
    let after = registry_map(names2, queues.remove(i));
    let expected = registry_map(names, queues).remove(names[i]);
    assert forall|k: Seq<char>| #[trigger] after.contains_key(k) implies expected.contains_key(k)
        && after[k] == expected[k] by {
        let j = names2.index_of(k);
        lemma_index_of_distinct(names2, j);
        let j1 = if j < i { j } else { j + 1 };
        assert(names[j1] == k);
        lemma_index_of_distinct(names, j1);
    }
    assert forall|k: Seq<char>| #[trigger]
        expected.contains_key(k) implies after.contains_key(k) by {
        let j = names.index_of(k);
        lemma_index_of_distinct(names, j);
        lemma_index_of_distinct(names, i);
        if j < i {
            assert(names2[j] == k);
        } else {
            assert(names2[j - 1] == k);
        }
    }
    assert(after =~= expected);
}

/// Why a queue could not be created.
#[derive(Clone, Copy, Debug, PartialEq, Eq, Structural)]
pub enum CreateError {
    /// A queue of that name exists.
    AlreadyExists,
    /// The dead-letter target named in the settings does not exist.
    DeadLetterTargetMissing,
}

/// Why a queue could not be deleted.
#[derive(Clone, Copy, Debug, PartialEq, Eq, Structural)]
pub enum DeleteError {
    /// No queue of that name exists.
    NotFound,
    /// Some queue routes its failed messages to this one.
    DeadLetterInUse,
}

/// What an acknowledgment timeout did.
#[derive(Clone, Copy, Debug, PartialEq, Eq, Structural)]
pub enum TimeoutOutcome {
    /// The message was not in flight (acknowledged, or the queue is gone).
    NotInFlight,
    /// The message went back to the tail of its queue.
    Requeued,
    /// The message moved to its queue's dead-letter target.
    DeadLettered,
    /// The message was due for a dead-letter target that no longer exists,
    /// and was dropped.
    Dropped,
}

/// Whether queue `s` routes its failed messages to the queue called `name`.
pub open spec fn targets(s: QueueView, name: Seq<char>) -> bool {
    match s.meta.dead_letter_queue {
        Some(d) => d.name@ == name,
        None => false,
    }
}

/// Whether some queue of `r` routes its failed messages to `name`.
pub open spec fn is_dead_letter_target(r: Map<Seq<char>, QueueView>, name: Seq<char>) -> bool {
    exists|k: Seq<char>| r.contains_key(k) && #[trigger] targets(r[k], name)
}

/// The outcome of creating a queue called `name` with this configuration.
pub open spec fn create_result(
    r: Map<Seq<char>, QueueView>,
    name: Seq<char>,
    requeue_time: u32,
    deduplication_time: u32,
    persistent: bool,
    max_length: u64,
    dead_letter_queue: Option<QueueDeadLetterSettings>,
    now: u64,
) -> (Map<Seq<char>, QueueView>, Result<(), CreateError>) {
    if r.contains_key(name) {
        (r, Err(CreateError::AlreadyExists))
    } else if dead_letter_queue matches Some(d) && !r.contains_key(d.name@) {
        (r, Err(CreateError::DeadLetterTargetMissing))
    } else {
        (
            r.insert(
                name,
                created(
                    name,
                    requeue_time,
                    deduplication_time,
                    persistent,
                    max_length,
                    dead_letter_queue,
                    now,
                ),
            ),
            Ok(()),
        )
    }
}

/// The acknowledgment timeout of message `id` in queue `queue`. If it is
/// still in flight it leaves the in-flight table; then it either moves, as
/// failed, to the tail of the queue's dead-letter target (dropped where that
/// is gone), or goes back, requeued, to the tail of its own queue.
pub open spec fn timeout_result(
    r: Map<Seq<char>, QueueView>,
    queue: Seq<char>,
    id: Seq<char>,
    now: u64,
) -> (Map<Seq<char>, QueueView>, TimeoutOutcome) {
    if !r.contains_key(queue) || !r[queue].in_flight.contains_key(id) {
        (r, TimeoutOutcome::NotInFlight)
    } else {
        let s = r[queue];
        let m = s.in_flight[id];
        let s1 = QueueView { in_flight: s.in_flight.remove(id), ..s };
        let r1 = r.insert(queue, s1);
        match dead_letter_target_of(s, m) {
            Some(t) => if r1.contains_key(t@) {
                let moved = append_message(r1[t@], failed(m, now));
                (r1.insert(t@, moved), TimeoutOutcome::DeadLettered)
            } else {
                (r1, TimeoutOutcome::Dropped)
            },
            None => (r.insert(queue, requeue_result(s1, m, now)), TimeoutOutcome::Requeued),
        }
    }
}

/// The queues of the broker, by name.
pub struct Registry {
    names: Vec<String>,
    queues: Vec<Queue>,
}

impl View for Registry {
    type V = Map<Seq<char>, QueueView>;

    closed spec fn view(&self) -> Map<Seq<char>, QueueView> {
        registry_map(self.name_seq(), self.queues@)
    }
}

impl Registry {
    pub closed spec fn name_seq(&self) -> Seq<Seq<char>> {
        self.names@.map_values(|s: String| s@)
    }

    /// Each name is held once, beside its queue.
    pub closed spec fn wf(&self) -> bool {
        &&& self.names@.len() == self.queues@.len()
        &&& self.name_seq().no_duplicates()
    }

    pub fn new() -> (r: Registry)
        ensures
            r.wf(),
            r@ == Map::<Seq<char>, QueueView>::empty(),
    {
        let r = Registry { names: Vec::new(), queues: Vec::new() };
        assert(r@ =~= Map::<Seq<char>, QueueView>::empty());
        r
    }

    fn position(&self, name: &String) -> (r: Option<usize>)
        requires
            self.wf(),
        ensures
            match r {
                Some(i) => {
                    &&& i < self.names@.len()
                    &&& self.name_seq()[i as int] == name@
                    &&& self@.contains_key(name@)
                    &&& self@[name@] == self.queues@[i as int]@
                },
                None => !self@.contains_key(name@),
            },
    {
        let mut i: usize = 0;
        while i < self.names.len()
            invariant
                self.wf(),
                i <= self.names@.len(),
                forall|j: int| 0 <= j < i ==> self.name_seq()[j] != name@,
            decreases self.names@.len() - i,
        {
            if self.names[i] == *name {
                proof {
                    lemma_index_of_distinct(self.name_seq(), i as int);
                }
                return Some(i);
            }
            i = i + 1;
        }
        None
    }

    /// Whether a queue called `name` exists.
    pub fn queue_exists(&self, name: &String) -> (r: bool)
        requires
            self.wf(),
        ensures
            r == self@.contains_key(name@),
    {
        self.position(name).is_some()
    }

    /// The queue called `name`, if it exists.
    pub fn get(&self, name: &String) -> (r: Option<&Queue>)
        requires
            self.wf(),
        ensures
            match r {
                Some(q) => self@.contains_key(name@) && q@ == self@[name@],
                None => !self@.contains_key(name@),
            },
    {
        match self.position(name) {
            Some(i) => Some(&self.queues[i]),
            None => None,
        }
    }

    /// The queue called `name` to work on, if it exists.
    pub fn get_mut(&mut self, name: &String) -> (r: Option<&mut Queue>)
        requires
            old(self).wf(),
        ensures
            final(self).wf(),
            match r {
                Some(q) => {
                    &&& old(self)@.contains_key(name@)
                    &&& (*q)@ == old(self)@[name@]
                    &&& final(self)@ == old(self)@.insert(name@, (*final(q))@)
                },
                None => !old(self)@.contains_key(name@) && final(self)@ == old(self)@,
            },
    {
        match self.position(name) {
            Some(i) => {
                let ghost names = self.name_seq();
                let ghost queues = self.queues@;
                let q = &mut self.queues[i];
                proof {
                    lemma_registry_update(names, queues, i as int, *final(q));
                }
                Some(q)
            },
            None => None,
        }
    }
    /// The names of the queues.
    pub fn queue_names(&self) -> (r: Vec<String>)
        requires
            self.wf(),
        ensures
            r@.map_values(|s: String| s@).to_set() == self@.dom(),
    {
        let mut out: Vec<String> = Vec::new();
        let mut i: usize = 0;
        while i < self.names.len()
            invariant
                i <= self.names@.len(),
                out@ == self.names@.take(i as int),
            decreases self.names@.len() - i,
        {
            out.push(self.names[i].clone());
            assert(out@ =~= self.names@.take(i + 1));
            i = i + 1;
        }
        assert(self.names@.take(self.names@.len() as int) =~= self.names@);
        assert(out@.map_values(|s: String| s@) =~= self.name_seq());
        assert(self.name_seq().to_set() =~= self@.dom());
        out
    }

    /// Adds `queue` under its own name, replacing a queue of that name.
    pub fn insert_queue(&mut self, queue: Queue)
        requires
            old(self).wf(),
        ensures
            final(self).wf(),
            final(self)@ == old(self)@.insert(queue@.name, queue@),
    {
        let name = queue.get_name();
        let ghost names = self.name_seq();
        let ghost queues = self.queues@;
        match self.position(&name) {
            Some(i) => {
                proof {
                    lemma_registry_update(names, queues, i as int, queue);
                }
                self.queues.set(i, queue);
            },
            None => {
                proof {
                    lemma_registry_push(names, queues, name@, queue);
                }
                self.names.push(name);
                self.queues.push(queue);
                assert(self.name_seq() =~= names.push(name@));
            },
        }
    }

    /// Creates an empty queue called `name`. Fails if the name is taken or
    /// if the dead-letter target does not exist.
    pub fn create_queue(
        &mut self,
        name: String,
        requeue_time: u32,
        deduplication_time: u32,
        persistent: bool,
        max_length: u64,
        dead_letter_queue: Option<QueueDeadLetterSettings>,
        now: u64,
    ) -> (r: Result<(), CreateError>)
        requires
            old(self).wf(),
        ensures
            final(self).wf(),
            (final(self)@, r) == create_result(
                old(self)@,
                name@,
                requeue_time,
                deduplication_time,
                persistent,
                max_length,
                dead_letter_queue,
                now,
            ),
    {
        if self.queue_exists(&name) {
            return Err(CreateError::AlreadyExists);
        }
        if let Some(d) = &dead_letter_queue {
            if !self.queue_exists(&d.name) {
                return Err(CreateError::DeadLetterTargetMissing);
            }
        }
        let queue = Queue::new(
            name,
            requeue_time,
            deduplication_time,
            persistent,
            max_length,
            dead_letter_queue,
            now,
        );
        self.insert_queue(queue);
        Ok(())
    }

    /// Whether some queue routes its failed messages to the queue `name`.
    pub fn is_dead_letter_queue(&self, name: &String) -> (r: bool)
        requires
            self.wf(),
        ensures
            r == is_dead_letter_target(self@, name@),
    {
        let mut k: usize = 0;
        while k < self.queues.len()
            invariant
                self.wf(),
                k <= self.queues@.len(),
                forall|j: int| 0 <= j < k ==> !targets(#[trigger] self.queues@[j]@, name@),
            decreases self.queues@.len() - k,
        {
            let meta = self.queues[k].get_meta();
            if let Some(d) = &meta.dead_letter_queue {
                if d.name == *name {
                    proof {
                        lemma_index_of_distinct(self.name_seq(), k as int);
                        let key = self.name_seq()[k as int];
                        assert(self@.contains_key(key));
                        assert(targets(self@[key], name@));
                    }
                    return true;
                }
            }
            k = k + 1;
        }
        proof {
            assert forall|key: Seq<char>| self@.contains_key(key) implies !#[trigger] targets(
                self@[key],
                name@,
            ) by {
                let j = self.name_seq().index_of(key);
                lemma_index_of_distinct(self.name_seq(), j);
            }
        }
        false
    }

    /// Removes the queue called `name`, purged with its folder, and returns
    /// it so that its last effects can be carried out. A queue that another
    /// queue routes failed messages to stays.
    pub fn delete_queue(&mut self, name: &String) -> (r: Result<Queue, DeleteError>)
        requires
            old(self).wf(),
        ensures
            final(self).wf(),
            !old(self)@.contains_key(name@) ==> r == Err::<Queue, DeleteError>(
                DeleteError::NotFound,
            ) && final(self)@ == old(self)@,
            old(self)@.contains_key(name@) && is_dead_letter_target(old(self)@, name@) ==> r
                == Err::<Queue, DeleteError>(DeleteError::DeadLetterInUse) && final(self)@ == old(
                self,
            )@,
            old(self)@.contains_key(name@) && !is_dead_letter_target(old(self)@, name@) ==> (
            r matches Ok(q) && q@ == purge_result(old(self)@[name@], true)) && final(self)@ == old(
                self,
            )@.remove(name@),
    {
        let i = match self.position(name) {
            Some(i) => i,
            None => return Err(DeleteError::NotFound),
        };
        if self.is_dead_letter_queue(name) {
            return Err(DeleteError::DeadLetterInUse);
        }
        let ghost names = self.name_seq();
        let ghost queues = self.queues@;
        proof {
            lemma_registry_remove(names, queues, i as int);
        }
        let _ = self.names.remove(i);
        let mut queue = self.queues.remove(i);
        assert(self.name_seq() =~= names.remove(i as int));
        queue.purge(true);
        Ok(queue)
    }

    /// Takes in-flight message `msg_id` of queue `queue` out of its in-flight
    /// table, if both exist.
    pub fn get_message(&mut self, queue: &String, msg_id: &String) -> (r: Option<Message>)
        requires
            old(self).wf(),
        ensures
            final(self).wf(),
            old(self)@.contains_key(queue@) && old(self)@[queue@].in_flight.contains_key(msg_id@)
                ==> r == Some(old(self)@[queue@].in_flight[msg_id@]) && final(self)@ == old(
                self,
            )@.insert(
                queue@,
                QueueView {
                    in_flight: old(self)@[queue@].in_flight.remove(msg_id@),
                    ..old(self)@[queue@]
                },
            ),
            !(old(self)@.contains_key(queue@) && old(self)@[queue@].in_flight.contains_key(
                msg_id@,
            )) ==> r is None && final(self)@ == old(self)@,
    {
        let i = match self.position(queue) {
            Some(i) => i,
            None => return None,
        };
        let ghost names = self.name_seq();
        let ghost queues = self.queues@;
        let ghost before = self.queues@[i as int]@;
        let r = self.queues[i].take_in_flight(msg_id);
        proof {
            lemma_registry_update(names, queues, i as int, self.queues@[i as int]);
            assert(queues.update(i as int, self.queues@[i as int]) =~= self.queues@);
            if r is None {
                assert(before.in_flight.remove(msg_id@) =~= before.in_flight);
                assert(self@ =~= old(self)@);
            }
        }
        r
    }

    /// Runs the acknowledgment timeout of message `message_id` in queue
    /// `queue`; see [`timeout_result`].
    pub fn ack_timeout(&mut self, queue: &String, message_id: &String, now: u64) -> (r:
        TimeoutOutcome)
        requires
            old(self).wf(),
        ensures
            final(self).wf(),
            (final(self)@, r) == timeout_result(old(self)@, queue@, message_id@, now),
    {
        let msg = match self.get_message(queue, message_id) {
            Some(m) => m,
            None => return TimeoutOutcome::NotInFlight,
        };
        let i = match self.position(queue) {
            Some(i) => i,
            None => return TimeoutOutcome::NotInFlight,
        };
        let ghost names = self.name_seq();
        let ghost queues = self.queues@;
        match self.queues[i].dead_letter_target(&msg) {
            Some(target) => match self.position(&target) {
                Some(j) => {
                    self.queues[j].accept_dead_letter(msg, now);
                    proof {
                        lemma_registry_update(names, queues, j as int, self.queues@[j as int]);
                        assert(queues.update(j as int, self.queues@[j as int]) =~= self.queues@);
                    }
                    TimeoutOutcome::DeadLettered
                },
                None => TimeoutOutcome::Dropped,
            },
            None => {
                self.queues[i].requeue(msg, now);
                proof {
                    lemma_registry_update(names, queues, i as int, self.queues@[i as int]);
                    assert(queues.update(i as int, self.queues@[i as int]) =~= self.queues@);
                }
                TimeoutOutcome::Requeued
            },
        }
    }
}

} // verus!
