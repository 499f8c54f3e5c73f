use crate::message::Message;
use vstd::prelude::*;

verus! {

/// The deduplication keys that are currently tracked, each held once.
pub struct DedupSet {
    keys: Vec<String>,
}

impl DedupSet {
    /// The keys, as character sequences, in the order they were registered.
    pub closed spec fn key_seq(&self) -> Seq<Seq<char>> {
        self.keys@.map_values(|s: String| s@)
    }

    #[verifier::type_invariant]
    closed spec fn keys_distinct(&self) -> bool {
        self.key_seq().no_duplicates()
    }

    pub fn new() -> (r: DedupSet)
        ensures
            r@ == Set::<Seq<char>>::empty(),
    {
        let r = DedupSet { keys: Vec::new() };
        assert(r.key_seq().to_set() =~= Set::<Seq<char>>::empty());
        r
    }

    fn position(&self, key: &String) -> (r: Option<usize>)
        ensures
            match r {
                Some(i) => i < self.keys@.len() && self.key_seq()[i as int] == key@,
                None => !self@.contains(key@),
            },
    {
        let mut i: usize = 0;
        while i < self.keys.len()
            invariant
                i <= self.keys@.len(),
                forall|j: int| 0 <= j < i ==> self.key_seq()[j] != key@,
            decreases self.keys@.len() - i,
        {
            if self.keys[i] == *key {
                return Some(i);
            }
            i = i + 1;
        }
        None
    }

    pub fn contains(&self, key: &String) -> (r: bool)
        ensures
            r == self@.contains(key@),
    {
        self.position(key).is_some()
    }

    /// Tracks `key`; a key that is tracked already stays tracked once.
    pub fn insert(&mut self, key: String)
        ensures
            final(self)@ == old(self)@.insert(key@),
    {
        proof {
            use_type_invariant(&*self);
        }
        let ghost k = key@;
        match self.position(&key) {
            Some(_) => {
                assert(self@ =~= old(self)@.insert(k));
            },
            None => {
                let ghost old_seq = self.key_seq();
                let mut keys = Vec::new();
                std::mem::swap(&mut keys, &mut self.keys);
                keys.push(key);
                assert(keys@.map_values(|s: String| s@) =~= old_seq.push(k));
                self.keys = keys;
                assert forall|x: Seq<char>| #[trigger]
                    self@.contains(x) <== old(self)@.insert(k).contains(x) by {
                    if x == k {
                        assert(self.key_seq()[old_seq.len() as int] == k);
                    }
                    if old_seq.contains(x) {
                        let j = choose|j: int| 0 <= j < old_seq.len() && old_seq[j] == x;
                        assert(self.key_seq()[j] == x);
                    }
                }
                assert(self@ =~= old(self)@.insert(k));
            },
        }
    }

    /// Stops tracking `key`.
    pub fn remove(&mut self, key: &String)
        ensures
            final(self)@ == old(self)@.remove(key@),
    {
        proof {
            use_type_invariant(&*self);
        }
        match self.position(key) {
            Some(i) => {
                let ghost old_seq = self.key_seq();
                let mut keys = Vec::new();
                std::mem::swap(&mut keys, &mut self.keys);
                keys.remove(i);
                assert(keys@.map_values(|s: String| s@) =~= old_seq.remove(i as int));
                self.keys = keys;
                assert forall|x: Seq<char>| #[trigger]
                    self@.contains(x) <==> old(self)@.remove(key@).contains(x) by {
                    if old_seq.contains(x) && x != key@ {
                        let j = choose|j: int| 0 <= j < old_seq.len() && old_seq[j] == x;
                        assert(j != i);
                        if j < i {
                            assert(self.key_seq()[j] == x);
                        } else {
                            assert(self.key_seq()[j - 1] == x);
                        }
                    }
                    if self.key_seq().contains(x) {
                        let j = choose|j: int|
                            0 <= j < self.key_seq().len() && self.key_seq()[j] == x;
                        if j < i {
                            assert(old_seq[j] == x);
                        } else {
                            assert(old_seq[j + 1] == x);
                        }
                    }
                }
                assert(self@ =~= old(self)@.remove(key@));
            },
            None => {
                assert(self@ =~= old(self)@.remove(key@));
            },
        }
    }

    /// The tracked keys are finitely many.
    pub proof fn lemma_finite(&self)
        ensures
            self@.finite(),
    {
        vstd::seq_lib::seq_to_set_is_finite(self.key_seq());
    }

    pub fn len(&self) -> (r: usize)
        ensures
            r == self@.len(),
            self@.finite(),
    {
        proof {
            use_type_invariant(self);
            self.key_seq().unique_seq_to_set();
        }
        self.keys.len()
    }
}

impl View for DedupSet {
    type V = Set<Seq<char>>;

    closed spec fn view(&self) -> Set<Seq<char>> {
        self.key_seq().to_set()
    }
}

/// In a sequence without duplicates, the element at `i` is found at `i`.
pub proof fn lemma_index_of_distinct(ids: Seq<Seq<char>>, i: int)
    requires
        ids.no_duplicates(),
        0 <= i < ids.len(),
    ensures
        ids.contains(ids[i]),
        ids.index_of(ids[i]) == i,
{
    assert(ids.contains(ids[i]));
}

/// The messages that were handed out and not yet acknowledged, by id.
pub struct InFlight {
    entries: Vec<Message>,
}

impl InFlight {
    /// The ids of the entries, in the order they were first inserted.
    pub closed spec fn id_seq(&self) -> Seq<Seq<char>> {
        self.entries@.map_values(|m: Message| m.id@)
    }

    #[verifier::type_invariant]
    closed spec fn ids_distinct(&self) -> bool {
        self.id_seq().no_duplicates()
    }

    pub fn new() -> (r: InFlight)
        ensures
            r@ == Map::<Seq<char>, Message>::empty(),
    {
        let r = InFlight { entries: Vec::new() };
        assert(r@ =~= Map::<Seq<char>, Message>::empty());
        r
    }

    fn position(&self, id: &String) -> (r: Option<usize>)
        ensures
            match r {
                Some(i) => i < self.entries@.len() && self.id_seq()[i as int] == id@,
                None => !self@.contains_key(id@),
            },
    {
        let mut i: usize = 0;
        while i < self.entries.len()
            invariant
                i <= self.entries@.len(),
                forall|j: int| 0 <= j < i ==> self.id_seq()[j] != id@,
            decreases self.entries@.len() - i,
        {
            if self.entries[i].id == *id {
                return Some(i);
            }
            i = i + 1;
        }
        None
    }

    pub fn contains_key(&self, id: &String) -> (r: bool)
        ensures
            r == self@.contains_key(id@),
    {
        proof {
            use_type_invariant(self);
        }
        match self.position(id) {
            Some(i) => {
                proof {
                    lemma_index_of_distinct(self.id_seq(), i as int);
                }
                true
            },
            None => false,
        }
    }

    /// Records `m` under its id, replacing an entry with the same id.
    pub fn insert(&mut self, m: Message)
        ensures
            final(self)@ == old(self)@.insert(m.id@, m),
    {
        proof {
            use_type_invariant(&*self);
        }
        let ghost k = m.id@;
        let ghost old_ids = self.id_seq();
        let ghost old_entries = self.entries@;
        let mut entries = Vec::new();
        std::mem::swap(&mut entries, &mut self.entries);
        match self.position_in(&entries, &m.id) {
            Some(i) => {
                entries.set(i, m);
                assert(entries@.map_values(|e: Message| e.id@) =~= old_ids);
                self.entries = entries;
                assert forall|x: Seq<char>| #[trigger] self@.contains_key(x) implies
                    old(self)@.insert(k, m).contains_key(x)
                    && self@[x] == old(self)@.insert(k, m)[x] by {
                    let j = self.id_seq().index_of(x);
                    lemma_index_of_distinct(old_ids, j);
                    lemma_index_of_distinct(old_ids, i as int);
                    if x == k {
                        assert(j == i);
                    } else {
                        assert(j != i);
                        assert(self.entries@[j] == old_entries[j]);
                    }
                }
                assert forall|x: Seq<char>| #[trigger] old(self)@.insert(k, m).contains_key(x)
                    implies self@.contains_key(x) by {
                    if x != k {
                        let j = old_ids.index_of(x);
                        assert(self.id_seq()[j] == x);
                    } else {
                        assert(self.id_seq()[i as int] == x);
                    }
                }
                assert(self@ =~= old(self)@.insert(k, m));
            },
            None => {
                entries.push(m);
                assert(entries@.map_values(|e: Message| e.id@) =~= old_ids.push(k));
                self.entries = entries;
                assert forall|x: Seq<char>| #[trigger] self@.contains_key(x) implies
                    old(self)@.insert(k, m).contains_key(x)
                    && self@[x] == old(self)@.insert(k, m)[x] by {
                    let j = self.id_seq().index_of(x);
                    lemma_index_of_distinct(self.id_seq(), j);
                    if j < old_ids.len() {
                        lemma_index_of_distinct(old_ids, j);
                    }
                }
                assert forall|x: Seq<char>| #[trigger] old(self)@.insert(k, m).contains_key(x)
                    implies self@.contains_key(x) by {
                    if x != k {
                        let j = old_ids.index_of(x);
                        assert(self.id_seq()[j] == x);
                    } else {
                        assert(self.id_seq()[old_ids.len() as int] == x);
                    }
                }
                assert(self@ =~= old(self)@.insert(k, m));
            },
        }
    }

    fn position_in(&self, entries: &Vec<Message>, id: &String) -> (r: Option<usize>)
        ensures
            match r {
                Some(i) => i < entries@.len() && entries@[i as int].id@ == id@,
                None => forall|j: int| 0 <= j < entries@.len() ==> entries@[j].id@ != id@,
            },
    {
        let mut i: usize = 0;
        while i < entries.len()
            invariant
                i <= entries@.len(),
                forall|j: int| 0 <= j < i ==> entries@[j].id@ != id@,
            decreases entries@.len() - i,
        {
            if entries[i].id == *id {
                return Some(i);
            }
            i = i + 1;
        }
        None
    }

    /// Takes the entry recorded under `id` out, if there is one.
    pub fn remove(&mut self, id: &String) -> (r: Option<Message>)
        ensures
            r == (if old(self)@.contains_key(id@) {
                Some(old(self)@[id@])
            } else {
                None::<Message>
            }),
            final(self)@ == old(self)@.remove(id@),
    {
        proof {
            use_type_invariant(&*self);
        }
        let ghost old_ids = self.id_seq();
        match self.position(id) {
            Some(i) => {
                proof {
                    lemma_index_of_distinct(old_ids, i as int);
                }
                let mut entries = Vec::new();
                std::mem::swap(&mut entries, &mut self.entries);
                let m = entries.remove(i);
                assert(entries@.map_values(|e: Message| e.id@) =~= old_ids.remove(i as int));
                self.entries = entries;
                assert forall|x: Seq<char>| #[trigger] self@.contains_key(x) implies
                    old(self)@.remove(id@).contains_key(x)
                    && self@[x] == old(self)@.remove(id@)[x] by {
                    let j = self.id_seq().index_of(x);
                    lemma_index_of_distinct(self.id_seq(), j);
                    if j < i {
                        lemma_index_of_distinct(old_ids, j);
                    } else {
                        lemma_index_of_distinct(old_ids, j + 1);
                    }
                }
                assert forall|x: Seq<char>| #[trigger] old(self)@.remove(id@).contains_key(x)
                    implies self@.contains_key(x) by {
                    let j = old_ids.index_of(x);
                    if j < i {
                        assert(self.id_seq()[j] == x);
                    } else {
                        assert(self.id_seq()[j - 1] == x);
                    }
                }
                assert(self@ =~= old(self)@.remove(id@));
                Some(m)
            },
            None => {
                assert(self@ =~= old(self)@.remove(id@));
                None
            },
        }
    }

    /// The in-flight ids are finitely many.
    pub proof fn lemma_finite(&self)
        ensures
            self@.dom().finite(),
    {
        assert(self@.dom() =~= self.id_seq().to_set());
        vstd::seq_lib::seq_to_set_is_finite(self.id_seq());
    }

    pub fn len(&self) -> (r: usize)
        ensures
            r == self@.len(),
            self@.dom().finite(),
    {
        proof {
            use_type_invariant(self);
            self.id_seq().unique_seq_to_set();
            assert(self@.dom() =~= self.id_seq().to_set());
            vstd::seq_lib::seq_to_set_is_finite(self.id_seq());
        }
        self.entries.len()
    }
}

impl View for InFlight {
    type V = Map<Seq<char>, Message>;

    closed spec fn view(&self) -> Map<Seq<char>, Message> {
        Map::new(
            |k: Seq<char>| self.id_seq().contains(k),
            |k: Seq<char>| self.entries@[self.id_seq().index_of(k)],
        )
    }
}

} // verus!
