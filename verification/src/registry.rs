//! Tables from the name of a message type to what is registered for it.

use vstd::prelude::*;

verus! {

/// The table that some registrations make: where a name is registered twice, the later one counts.
pub open spec fn registered<T>(entries: Seq<(String, T)>) -> Map<Seq<char>, T>
    decreases entries.len(),
{
    if entries.len() == 0 {
        Map::empty()
    } else {
        registered(entries.drop_last()).insert(entries.last().0@, entries.last().1)
    }
}

/// A table keyed by names, each of which occurs once.
pub struct KeyedMap<T> {
    entries: Vec<(String, T)>,
}

impl<T> View for KeyedMap<T> {
    type V = Map<Seq<char>, T>;

    closed spec fn view(&self) -> Map<Seq<char>, T> {
        registered(self.entries@)
    }
}

/// Under a name that occurs once, the table holds what stands beside it; under a name that does
/// not occur it holds nothing.
proof fn lemma_registered<T>(entries: Seq<(String, T)>, key: Seq<char>)
    ensures
        registered(entries).contains_key(key) <==> exists|i: int|
            0 <= i < entries.len() && #[trigger] entries[i].0@ == key,
        forall|i: int|
            0 <= i < entries.len() && #[trigger] entries[i].0@ == key && (forall|j: int|
                i < j < entries.len() ==> #[trigger] entries[j].0@ != key) ==> registered(
                entries,
            )[key] == entries[i].1,
    decreases entries.len(),
{
    if entries.len() > 0 {
        let front = entries.drop_last();
        lemma_registered(front, key);
        assert forall|i: int|
            0 <= i < entries.len() && #[trigger] entries[i].0@ == key implies registered(
            entries,
        ).contains_key(key) by {
            if i < front.len() {
                assert(front[i].0@ == key);
            }
        }
        if registered(entries).contains_key(key) {
            if entries.last().0@ == key {
                assert(entries[entries.len() - 1].0@ == key);
            } else {
                let i = choose|i: int| 0 <= i < front.len() && #[trigger] front[i].0@ == key;
                assert(entries[i].0@ == key);
            }
        }
        assert forall|i: int|
            0 <= i < entries.len() && #[trigger] entries[i].0@ == key && (forall|j: int|
                i < j < entries.len() ==> #[trigger] entries[j].0@ != key) implies registered(
            entries,
        )[key] == entries[i].1 by {
            if i < front.len() {
                assert(front[i].0@ == key);
                assert(entries[entries.len() - 1].0@ != key);
                assert forall|j: int| i < j < front.len() implies #[trigger] front[j].0@ != key by {
                    assert(entries[j].0@ != key);
                }
            }
        }
    }
}

/// The later registration counts: whatever was registered before, a name has what was registered
/// for it last, and the other names have what they had.
pub proof fn law_later_registration_counts<T>(
    entries: Seq<(String, T)>,
    entry: (String, T),
    other: Seq<char>,
)
    ensures
        registered(entries.push(entry)).contains_key(entry.0@),
        registered(entries.push(entry))[entry.0@] == entry.1,
        other != entry.0@ ==> (registered(entries.push(entry)).contains_key(other)
            <==> registered(entries).contains_key(other)),
        other != entry.0@ && registered(entries).contains_key(other) ==> registered(
            entries.push(entry),
        )[other] == registered(entries)[other],
        registered(entries).contains_key(other) <==> exists|i: int|
            0 <= i < entries.len() && #[trigger] entries[i].0@ == other,
{
    lemma_registered(entries, other);
    assert(entries.push(entry).drop_last() =~= entries);
}

impl<T> KeyedMap<T> {
    /// No name occurs twice.
    #[verifier::type_invariant]
    spec fn wf(&self) -> bool {
        forall|i: int, j: int|
            0 <= i < j < self.entries@.len() ==> (#[trigger] self.entries@[i]).0@ != (
            #[trigger] self.entries@[j]).0@
    }

    /// A table without entries.
    pub fn new() -> (r: Self)
        ensures
            r@ == Map::<Seq<char>, T>::empty(),
    {
        KeyedMap { entries: Vec::new() }
    }

    /// Where `key` stands, if it does.
    fn position(&self, key: &str) -> (r: Option<usize>)
        requires
            self.wf(),
        ensures
            match r {
                Some(i) => i < self.entries@.len() && self.entries@[i as int].0@ == key@
                    && self@.contains_key(key@) && self@[key@] == self.entries@[i as int].1,
                None => !self@.contains_key(key@) && forall|i: int|
                    0 <= i < self.entries@.len() ==> (#[trigger] self.entries@[i]).0@ != key@,
            },
    {
        let wanted: String = key.to_owned();
        let mut i: usize = 0;
        proof {
            lemma_registered(self.entries@, key@);
        }
        while i < self.entries.len()
            invariant
                i <= self.entries@.len(),
                wanted@ == key@,
                forall|j: int| 0 <= j < i ==> (#[trigger] self.entries@[j]).0@ != key@,
                self.wf(),
                registered(self.entries@).contains_key(key@) <==> exists|i: int|
                    0 <= i < self.entries@.len() && #[trigger] self.entries@[i].0@ == key@,
                forall|i: int|
                    0 <= i < self.entries@.len() && #[trigger] self.entries@[i].0@ == key@ && (
                    forall|j: int|
                        i < j < self.entries@.len() ==> #[trigger] self.entries@[j].0@ != key@)
                        ==> registered(self.entries@)[key@] == self.entries@[i].1,
            decreases self.entries@.len() - i,
        {
            if self.entries[i].0 == wanted {
                assert(self.entries@[i as int].0@ == key@);
                return Some(i);
            }
            i += 1;
        }
        None
    }

    /// Registers `value` under `key`, in place of what was there.
    pub fn insert(&mut self, key: String, value: T)
        ensures
            final(self)@ == old(self)@.insert(key@, value),
    {
        proof {
            use_type_invariant(&*self);
        }
        let ghost before = self.entries@;
        let ghost name = key@;
        let place: Option<usize> = self.position(key.as_str());
        let mut entries: Vec<(String, T)> = Vec::new();
        std::mem::swap(&mut self.entries, &mut entries);
        match place {
            Some(i) => {
                entries.set(i, (key, value));
            },
            None => {
                entries.push((key, value));
            },
        }
        self.entries = entries;
        proof {
            let after = self.entries@;
            let at = match place {
                Some(i) => i as int,
                None => before.len() as int,
            };
            let wanted = registered(before).insert(name, value);
            assert forall|k: Seq<char>|
                #![trigger registered(after).dom().contains(k)]
                #![trigger registered(after)[k]]
                registered(after).dom().contains(k) == wanted.dom().contains(k) && (registered(
                    after,
                ).dom().contains(k) ==> registered(after)[k] == wanted[k]) by {
                lemma_registered(before, k);
                lemma_registered(after, k);
                if registered(after).contains_key(k) {
                    let i = choose|i: int| 0 <= i < after.len() && #[trigger] after[i].0@ == k;
                    assert(after[i].0@ == k);
                    if k != name {
                        assert(before[i].0@ == k);
                    }
                }
                if registered(before).contains_key(k) {
                    let i = choose|i: int| 0 <= i < before.len() && #[trigger] before[i].0@ == k;
                    assert(after[i].0@ == k);
                }
                if k == name {
                    assert(after[at].0@ == k);
                }
            }
            assert(registered(after) =~= wanted);
        }
    }

    /// What is registered under `key`.
    pub fn get(&self, key: &str) -> (r: Option<&T>)
        ensures
            match r {
                Some(value) => self@.contains_key(key@) && *value == self@[key@],
                None => !self@.contains_key(key@),
            },
    {
        proof {
            use_type_invariant(self);
        }
        match self.position(key) {
            Some(i) => Some(&self.entries[i].1),
            None => None,
        }
    }

    /// The table that a list of registrations makes.
    pub fn from_entries(entries: Vec<(String, T)>) -> (r: Self)
        ensures
            r@ == registered(entries@),
    {
        let mut table: KeyedMap<T> = KeyedMap::new();
        let ghost all = entries@;
        for entry in iter: entries
            invariant
                iter.seq() == all,
                table@ == registered(all.take(iter.index() as int)),
        {
            assert(all.take(iter.index() + 1).drop_last() =~= all.take(iter.index() as int));
            table.insert(entry.0, entry.1);
        }
        assert(all.take(all.len() as int) =~= all);
        table
    }
}

} // verus!
