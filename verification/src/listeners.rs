//! The table of requests that wait for their response.

use vstd::prelude::*;

verus! {

/// Whether no key stands twice in `entries`.
spec fn distinct_keys<S>(entries: Seq<(String, S)>) -> bool {
    forall|i: int, j: int|
        0 <= i < j < entries.len() ==> (#[trigger] entries[i]).0@ != (#[trigger] entries[j]).0@
}

/// Whether `at` is a place in `entries` that holds `key`.
spec fn holds_key<S>(entries: Seq<(String, S)>, at: int, key: Seq<char>) -> bool {
    0 <= at < entries.len() && entries[at].0@ == key
}

/// Whether `key` stands in `entries`.
spec fn has_key<S>(entries: Seq<(String, S)>, key: Seq<char>) -> bool {
    exists|at: int| holds_key(entries, at, key)
}

/// A place in `entries` that holds `key`, where there is one.
spec fn place_of<S>(entries: Seq<(String, S)>, key: Seq<char>) -> int {
    choose|at: int| holds_key(entries, at, key)
}

/// The mapping that `entries` stands for: each key to what is stored with it.
spec fn table_of<S>(entries: Seq<(String, S)>) -> Map<Seq<char>, S> {
    Map::new(
        |key: Seq<char>| has_key(entries, key),
        |key: Seq<char>| entries[place_of(entries, key)].1,
    )
}

/// The mapping without any key.
pub open spec fn empty_table<S>() -> Map<Seq<char>, S> {
    Map::empty()
}

/// With distinct keys, the place of a key is the only place that holds it.
proof fn lemma_place_is_unique<S>(entries: Seq<(String, S)>, at: int)
    requires
        distinct_keys(entries),
        0 <= at < entries.len(),
    ensures
        has_key(entries, entries[at].0@),
        place_of(entries, entries[at].0@) == at,
        table_of(entries)[entries[at].0@] == entries[at].1,
{
    let key = entries[at].0@;
    assert(holds_key(entries, at, key));
    let found = place_of(entries, key);
    assert(holds_key(entries, found, key));
    if found < at {
        assert(entries[found].0@ != entries[at].0@);
    } else if at < found {
        assert(entries[at].0@ != entries[found].0@);
    }
}

/// Adding an entry under a new key inserts it into the mapping.
proof fn lemma_table_push<S>(entries: Seq<(String, S)>, key: String, slot: S)
    requires
        distinct_keys(entries),
        !has_key(entries, key@),
    ensures
        distinct_keys(entries.push((key, slot))),
        table_of(entries.push((key, slot))) == table_of(entries).insert(key@, slot),
{
    let grown = entries.push((key, slot));
    assert forall|i: int, j: int| 0 <= i < j < grown.len() implies (#[trigger] grown[i]).0@ != (
    #[trigger] grown[j]).0@ by {
        if j == entries.len() {
            assert(holds_key(entries, i, grown[i].0@));
        } else {
            assert(grown[i] == entries[i] && grown[j] == entries[j]);
        }
    }
    assert forall|k: Seq<char>| has_key(grown, k) <==> (k == key@ || has_key(entries, k)) by {
        if has_key(grown, k) {
            let at = place_of(grown, k);
            assert(holds_key(grown, at, k));
            if at < entries.len() {
                assert(holds_key(entries, at, k));
            }
        }
        if k == key@ {
            assert(holds_key(grown, entries.len() as int, k));
        }
        if has_key(entries, k) {
            let at = place_of(entries, k);
            assert(holds_key(entries, at, k));
            assert(holds_key(grown, at, k));
        }
    }
    assert forall|k: Seq<char>| has_key(grown, k) implies #[trigger] table_of(grown)[k]
        == table_of(entries).insert(key@, slot)[k] by {
        let at = place_of(grown, k);
        assert(holds_key(grown, at, k));
        lemma_place_is_unique(grown, at);
        if at < entries.len() {
            assert(holds_key(entries, at, k));
            lemma_place_is_unique(entries, at);
        }
    }
    assert(table_of(grown) =~= table_of(entries).insert(key@, slot));
}

/// Replacing what is stored with a key replaces it in the mapping.
proof fn lemma_table_update<S>(entries: Seq<(String, S)>, at: int, key: String, slot: S)
    requires
        distinct_keys(entries),
        holds_key(entries, at, key@),
    ensures
        distinct_keys(entries.update(at, (key, slot))),
        table_of(entries.update(at, (key, slot))) == table_of(entries).insert(key@, slot),
{
    let changed = entries.update(at, (key, slot));
    assert forall|i: int, j: int| 0 <= i < j < changed.len() implies (#[trigger] changed[i]).0@
        != (#[trigger] changed[j]).0@ by {
        assert(changed[i].0@ == entries[i].0@);
        assert(changed[j].0@ == entries[j].0@);
    }
    assert forall|k: Seq<char>| has_key(changed, k) <==> has_key(entries, k) by {
        if has_key(changed, k) {
            let found = place_of(changed, k);
            assert(holds_key(changed, found, k));
            assert(holds_key(entries, found, k));
        }
        if has_key(entries, k) {
            let found = place_of(entries, k);
            assert(holds_key(entries, found, k));
            assert(holds_key(changed, found, k));
        }
    }
    assert forall|k: Seq<char>| has_key(changed, k) implies #[trigger] table_of(changed)[k]
        == table_of(entries).insert(key@, slot)[k] by {
        let found = place_of(changed, k);
        assert(holds_key(changed, found, k));
        lemma_place_is_unique(changed, found);
        assert(holds_key(entries, found, k));
        lemma_place_is_unique(entries, found);
        if found != at {
            assert(entries[found].0@ != entries[at].0@);
        }
    }
    assert(table_of(changed) =~= table_of(entries).insert(key@, slot));
}

/// Taking an entry out removes its key from the mapping, and the entry held what the
/// mapping had under that key.
proof fn lemma_table_remove<S>(entries: Seq<(String, S)>, at: int)
    requires
        distinct_keys(entries),
        0 <= at < entries.len(),
    ensures
        distinct_keys(entries.remove(at)),
        table_of(entries).contains_key(entries[at].0@),
        table_of(entries)[entries[at].0@] == entries[at].1,
        table_of(entries.remove(at)) == table_of(entries).remove(entries[at].0@),
{
    let key = entries[at].0@;
    let rest = entries.remove(at);
    lemma_place_is_unique(entries, at);
    assert forall|i: int| 0 <= i < rest.len() implies #[trigger] rest[i] == entries[if i < at {
        i
    } else {
        i + 1
    }] by {}
    assert forall|i: int, j: int| 0 <= i < j < rest.len() implies (#[trigger] rest[i]).0@ != (
    #[trigger] rest[j]).0@ by {
        let from_i = if i < at { i } else { i + 1 };
        let from_j = if j < at { j } else { j + 1 };
        assert(entries[from_i].0@ != entries[from_j].0@);
    }
    assert forall|k: Seq<char>| has_key(rest, k) <==> (k != key && has_key(entries, k)) by {
        if has_key(rest, k) {
            let found = place_of(rest, k);
            assert(holds_key(rest, found, k));
            let from = if found < at { found } else { found + 1 };
            assert(holds_key(entries, from, k));
            if from < at {
                assert(entries[from].0@ != entries[at].0@);
            } else {
                assert(entries[at].0@ != entries[from].0@);
            }
        }
        if k != key && has_key(entries, k) {
            let found = place_of(entries, k);
            assert(holds_key(entries, found, k));
            let to = if found < at { found } else { found - 1 };
            assert(holds_key(rest, to, k));
        }
    }
    assert forall|k: Seq<char>| has_key(rest, k) implies #[trigger] table_of(rest)[k] == table_of(
        entries,
    ).remove(key)[k] by {
        let found = place_of(rest, k);
        assert(holds_key(rest, found, k));
        lemma_place_is_unique(rest, found);
        let from = if found < at { found } else { found + 1 };
        assert(holds_key(entries, from, k));
        lemma_place_is_unique(entries, from);
    }
    assert(table_of(rest) =~= table_of(entries).remove(key));
}

/// With distinct keys, the mapping has as many keys as there are entries.
proof fn lemma_table_size<S>(entries: Seq<(String, S)>)
    requires
        distinct_keys(entries),
    ensures
        table_of(entries).dom().finite(),
        table_of(entries).dom().len() == entries.len(),
    decreases entries.len(),
{
    if entries.len() == 0 {
        assert forall|k: Seq<char>| !has_key(entries, k) by {
            if has_key(entries, k) {
                assert(holds_key(entries, place_of(entries, k), k));
            }
        }
        assert(table_of(entries).dom() =~= Set::<Seq<char>>::empty());
    } else {
        let front = entries.drop_last();
        let (key, slot) = entries.last();
        assert(entries =~= front.push((key, slot)));
        assert forall|i: int, j: int| 0 <= i < j < front.len() implies (#[trigger] front[i]).0@ != (
        #[trigger] front[j]).0@ by {
            assert(front[i] == entries[i] && front[j] == entries[j]);
        }
        assert(!has_key(front, key@)) by {
            if has_key(front, key@) {
                let at = place_of(front, key@);
                assert(holds_key(front, at, key@));
                assert(entries[at].0@ != entries[entries.len() - 1].0@);
            }
        }
        lemma_table_size(front);
        lemma_table_push(front, key, slot);
        assert(table_of(entries).dom() =~= table_of(front).dom().insert(key@));
        assert(!table_of(front).dom().contains(key@));
    }
}

/// The requests that wait for their response: each correlation id with the slot that its
/// response is to be delivered to. No id stands in the table twice.
pub struct Listeners<S> {
    entries: Vec<(String, S)>,
}

impl<S> View for Listeners<S> {
    type V = Map<Seq<char>, S>;

    closed spec fn view(&self) -> Map<Seq<char>, S> {
        table_of(self.entries@)
    }
}

impl<S> Listeners<S> {
    #[verifier::type_invariant]
    spec fn well_formed(self) -> bool {
        distinct_keys(self.entries@)
    }

    /// The empty table.
    pub fn new() -> (listeners: Self)
        ensures
            listeners@ == empty_table::<S>(),
    {
        let listeners = Listeners { entries: Vec::new() };
        assert(listeners@ =~= Map::<Seq<char>, S>::empty()) by {
            assert forall|k: Seq<char>| !has_key(listeners.entries@, k) by {
                if has_key(listeners.entries@, k) {
                    assert(holds_key(listeners.entries@, place_of(listeners.entries@, k), k));
                }
            }
        }
        listeners
    }

    /// The place of `key` among the entries, if it stands there.
    fn position(&self, key: &String) -> (place: Option<usize>)
        ensures
            match place {
                Some(at) => holds_key(self.entries@, at as int, key@),
                None => !has_key(self.entries@, key@),
            },
    {
        let mut at: usize = 0;
        while at < self.entries.len()
            invariant
                at <= self.entries@.len(),
                forall|i: int| 0 <= i < at ==> !holds_key(self.entries@, i, key@),
            decreases self.entries@.len() - at,
        {
            if self.entries[at].0 == *key {
                return Some(at);
            }
            at += 1;
        }
        assert(!has_key(self.entries@, key@)) by {
            if has_key(self.entries@, key@) {
                assert(holds_key(self.entries@, place_of(self.entries@, key@), key@));
            }
        }
        None
    }

    /// The number of requests that wait.
    pub fn len(&self) -> (count: usize)
        ensures
            self@.dom().finite(),
            count == self@.len(),
    {
        proof {
            use_type_invariant(self);
            lemma_table_size(self.entries@);
        }
        self.entries.len()
    }

    /// Whether no request waits.
    pub fn is_empty(&self) -> (empty: bool)
        ensures
            empty == (self@ == empty_table::<S>()),
    {
        proof {
            use_type_invariant(self);
            lemma_table_size(self.entries@);
            if self.entries@.len() == 0 {
                assert(self@ =~= Map::<Seq<char>, S>::empty());
            }
        }
        self.entries.len() == 0
    }

    /// Whether a request waits under `message_id`.
    pub fn contains(&self, message_id: &str) -> (found: bool)
        ensures
            found == self@.contains_key(message_id@),
    {
        let key = message_id.to_owned();
        self.position(&key).is_some()
    }

    /// Registers `sender` as the slot of the request `msg_id`. A slot that stood under
    /// that id before is replaced.
    pub fn add_callback(&mut self, msg_id: String, sender: S)
        ensures
            final(self)@ == old(self)@.insert(msg_id@, sender),
    {
        proof {
            use_type_invariant(&*self);
        }
        let place = self.position(&msg_id);
        let mut entries: Vec<(String, S)> = Vec::new();
        std::mem::swap(&mut entries, &mut self.entries);
        match place {
            Some(at) => {
                proof {
                    lemma_table_update(entries@, at as int, msg_id, sender);
                }
                entries.set(at, (msg_id, sender));
            },
            None => {
                proof {
                    lemma_table_push(entries@, msg_id, sender);
                }
                entries.push((msg_id, sender));
            },
        }
        self.entries = entries;
    }

    /// Takes the slot of the request `message_id` out of the table, if one waits there.
    pub fn take(&mut self, message_id: &str) -> (slot: Option<S>)
        ensures
            slot == if old(self)@.contains_key(message_id@) {
                Some(old(self)@[message_id@])
            } else {
                None
            },
            final(self)@ == old(self)@.remove(message_id@),
    {
        proof {
            use_type_invariant(&*self);
        }
        let key = message_id.to_owned();
        match self.position(&key) {
            Some(at) => {
                let mut entries: Vec<(String, S)> = Vec::new();
                std::mem::swap(&mut entries, &mut self.entries);
                proof {
                    lemma_table_remove(entries@, at as int);
                }
                let entry = entries.remove(at);
                self.entries = entries;
                Some(entry.1)
            },
            None => {
                assert(old(self)@.remove(message_id@) =~= old(self)@);
                None
            },
        }
    }
}

/// Takes the slot of the request `message_id` out of `listeners`, if one waits there:
/// the slot is handed out once, and a second call for the same id finds nothing.
pub fn find_callback_listener<S>(listeners: &mut Listeners<S>, message_id: &str) -> (slot: Option<
    S,
>)
    ensures
        slot == if old(listeners)@.contains_key(message_id@) {
            Some(old(listeners)@[message_id@])
        } else {
            None
        },
        final(listeners)@ == old(listeners)@.remove(message_id@),
{
    listeners.take(message_id)
}

} // verus!
