use vstd::prelude::*;

use crate::text::same_text;

verus! {

/// A table keyed by MAC address, in which each address occurs at most once.
pub struct MacTable<V> {
    entries: Vec<(String, V)>,
    contents: Ghost<Map<Seq<char>, V>>,
}

/// Seconds by MAC address: the clients whose connection is open, with the
/// seconds each has left, or the seconds that the store holds for each client.
pub type ClientSeconds = MacTable<i32>;

impl<V> View for MacTable<V> {
    type V = Map<Seq<char>, V>;

    closed spec fn view(&self) -> Map<Seq<char>, V> {
        self.contents@
    }
}

impl<V> MacTable<V> {
    #[verifier::type_invariant]
    closed spec fn inv(self) -> bool {
        &&& forall|i: int, j: int|
            0 <= i < j < self.entries@.len() ==> #[trigger] self.entries@[i].0@
                != #[trigger] self.entries@[j].0@
        &&& forall|i: int|
            0 <= i < self.entries@.len() ==> {
                &&& self.contents@.contains_key(#[trigger] self.entries@[i].0@)
                &&& self.contents@[self.entries@[i].0@] == self.entries@[i].1
            }
        &&& forall|k: Seq<char>| #[trigger]
            self.contents@.contains_key(k) ==> exists|i: int|
                0 <= i < self.entries@.len() && #[trigger] self.entries@[i].0@ == k
    }

    /// The empty table.
    pub fn new() -> (r: Self)
        ensures
            r@ == Map::<Seq<char>, V>::empty(),
    {
        MacTable { entries: Vec::new(), contents: Ghost(Map::empty()) }
    }

    /// The position of `mac` in the entries, if it is there.
    fn position(&self, mac: &str) -> (r: Option<usize>)
        ensures
            match r {
                Some(i) => i < self.entries@.len() && self.entries@[i as int].0@ == mac@,
                None => !self@.contains_key(mac@),
            },
    {
        proof {
            use_type_invariant(self);
        }
        let mut i: usize = 0;
        while i < self.entries.len()
            invariant
                i <= self.entries@.len(),
                forall|j: int| 0 <= j < i ==> self.entries@[j].0@ != mac@,
            decreases self.entries.len() - i,
        {
            if same_text(self.entries[i].0.as_str(), mac) {
                return Some(i);
            }
            i = i + 1;
        }
        None
    }

    /// Whether `mac` is in the table.
    pub fn contains_key(&self, mac: &str) -> (r: bool)
        ensures
            r == self@.contains_key(mac@),
    {
        proof {
            use_type_invariant(self);
        }
        match self.position(mac) {
            Some(_) => true,
            None => false,
        }
    }

    /// The value held for `mac`, if it is in the table.
    pub fn get(&self, mac: &str) -> (r: Option<&V>)
        ensures
            r is Some <==> self@.contains_key(mac@),
            r matches Some(v) ==> *v == self@[mac@],
    {
        proof {
            use_type_invariant(self);
        }
        match self.position(mac) {
            Some(i) => Some(&self.entries[i].1),
            None => None,
        }
    }

    /// Sets the value of `mac` to `value`, and gives back the value that it
    /// held before, if it was in the table.
    pub fn insert(&mut self, mac: String, value: V) -> (r: Option<V>)
        ensures
            final(self)@ == old(self)@.insert(mac@, value),
            r == (if old(self)@.contains_key(mac@) {
                Some(old(self)@[mac@])
            } else {
                None
            }),
    {
        proof {
            use_type_invariant(&*self);
        }
        let mut taken = MacTable::new();
        std::mem::swap(self, &mut taken);
        proof {
            use_type_invariant(&taken);
        }
        let ghost old_map = taken.contents@;
        let ghost old_entries = taken.entries@;
        let pos = taken.position(mac.as_str());
        let mut entries = taken.entries;
        let ghost mac_view = mac@;
        let ghost new_entry = (mac, value);
        let previous = match pos {
            Some(i) => {
                let mut slot = (mac, value);
                entries.set_and_swap(i, &mut slot);
                Some(slot.1)
            },
            None => {
                entries.push((mac, value));
                None
            },
        };
        let ghost new_map = old_map.insert(mac_view, new_entry.1);
        proof {
            assert forall|k: Seq<char>| #[trigger] new_map.contains_key(k) implies exists|i: int|
                0 <= i < entries@.len() && #[trigger] entries@[i].0@ == k by {
                if k == mac_view {
                    match pos {
                        Some(p) => {
                            assert(entries@[p as int].0@ == k);
                        },
                        None => {
                            assert(entries@[entries@.len() - 1].0@ == k);
                        },
                    }
                } else {
                    let j = choose|j: int| 0 <= j < old_entries.len() && #[trigger] old_entries[j].0@ == k;
                    assert(entries@[j].0@ == k);
                }
            }
            assert forall|i: int| 0 <= i < entries@.len() implies {
                &&& new_map.contains_key(#[trigger] entries@[i].0@)
                &&& new_map[entries@[i].0@] == entries@[i].1
            } by {
                if i < old_entries.len() && entries@[i] != new_entry {
                    assert(entries@[i] == old_entries[i]);
                    if old_entries[i].0@ == mac_view {
                        assert(pos is Some);
                        let p = pos->0;
                        assert(p as int != i);
                    }
                }
            }
            assert forall|i: int, j: int| 0 <= i < j < entries@.len() implies #[trigger] entries@[i].0@
                != #[trigger] entries@[j].0@ by {
                if j == old_entries.len() {
                    assert(!old_map.contains_key(mac_view));
                    assert(old_map.contains_key(old_entries[i].0@));
                } else {
                    match pos {
                        Some(p) => {
                            if i == p as int {
                                assert(old_entries[j].0@ != old_entries[i].0@);
                            } else if j == p as int {
                                assert(old_entries[j].0@ != old_entries[i].0@);
                            } else {
                                assert(entries@[i] == old_entries[i]);
                                assert(entries@[j] == old_entries[j]);
                            }
                        },
                        None => {
                            assert(entries@[i] == old_entries[i]);
                            assert(entries@[j] == old_entries[j]);
                        },
                    }
                }
            }
        }
        proof {
            let built = MacTable { entries: entries, contents: Ghost(new_map) };
            assert(built.contents@ == new_map);
            assert(built.entries@ == entries@);
            assert(built.inv());
        }
        *self = MacTable { entries, contents: Ghost(new_map) };
        previous
    }

    /// Takes `mac` out of the table, and gives back the value that it held, if
    /// it was there.
    pub fn remove(&mut self, mac: &str) -> (r: Option<V>)
        ensures
            final(self)@ == old(self)@.remove(mac@),
            r == (if old(self)@.contains_key(mac@) {
                Some(old(self)@[mac@])
            } else {
                None
            }),
    {
        proof {
            use_type_invariant(&*self);
        }
        let pos = self.position(mac);
        match pos {
            None => {
                proof {
                    assert(self@.remove(mac@) =~= self@);
                }
                None
            },
            Some(p) => {
                let mut taken = MacTable::new();
                std::mem::swap(self, &mut taken);
                proof {
                    use_type_invariant(&taken);
                }
                let ghost old_map = taken.contents@;
                let ghost old_entries = taken.entries@;
                let mut entries = taken.entries;
                let removed = entries.remove(p);
                let ghost new_map = old_map.remove(mac@);
                proof {
                    assert forall|i: int| 0 <= i < entries@.len() implies {
                        &&& new_map.contains_key(#[trigger] entries@[i].0@)
                        &&& new_map[entries@[i].0@] == entries@[i].1
                    } by {
                        if i < p {
                            assert(entries@[i] == old_entries[i]);
                            assert(old_entries[i].0@ != old_entries[p as int].0@);
                        } else {
                            assert(entries@[i] == old_entries[i + 1]);
                            assert(old_entries[i + 1].0@ != old_entries[p as int].0@);
                        }
                    }
                    assert forall|k: Seq<char>| #[trigger] new_map.contains_key(k) implies exists|i: int|
                        0 <= i < entries@.len() && #[trigger] entries@[i].0@ == k by {
                        let j = choose|j: int| 0 <= j < old_entries.len() && #[trigger] old_entries[j].0@ == k;
                        if j < p {
                            assert(entries@[j].0@ == k);
                        } else {
                            assert(j != p);
                            assert(entries@[j - 1].0@ == k);
                        }
                    }
                    assert forall|i: int, j: int| 0 <= i < j < entries@.len() implies #[trigger] entries@[i].0@
                        != #[trigger] entries@[j].0@ by {
                        let oi = if i < p { i } else { i + 1 };
                        let oj = if j < p { j } else { j + 1 };
                        assert(entries@[i] == old_entries[oi]);
                        assert(entries@[j] == old_entries[oj]);
                    }
                    let built = MacTable { entries: entries, contents: Ghost(new_map) };
                    assert(built.contents@ == new_map);
                    assert(built.entries@ == entries@);
                    assert(built.inv());
                }
                *self = MacTable { entries, contents: Ghost(new_map) };
                Some(removed.1)
            },
        }
    }

    /// The MAC addresses in the table, each once.
    pub fn macs(&self) -> (r: Vec<String>)
        ensures
            forall|i: int, j: int| 0 <= i < j < r@.len() ==> #[trigger] r@[i]@ != #[trigger] r@[j]@,
            forall|i: int| 0 <= i < r@.len() ==> self@.contains_key(#[trigger] r@[i]@),
            forall|k: Seq<char>| #[trigger] self@.contains_key(k) ==> exists|i: int|
                0 <= i < r@.len() && #[trigger] r@[i]@ == k,
    {
        proof {
            use_type_invariant(self);
        }
        let mut r: Vec<String> = Vec::new();
        let mut i: usize = 0;
        while i < self.entries.len()
            invariant
                i <= self.entries@.len(),
                r@.len() == i,
                forall|j: int| 0 <= j < i ==> #[trigger] r@[j]@ == self.entries@[j].0@,
            decreases self.entries.len() - i,
        {
            r.push(self.entries[i].0.clone());
            i = i + 1;
        }
        proof {
            assert forall|i: int, j: int| 0 <= i < j < r@.len() implies #[trigger] r@[i]@
                != #[trigger] r@[j]@ by {
                assert(self.entries@[i].0@ != self.entries@[j].0@);
            }
            assert forall|k: Seq<char>| #[trigger] self@.contains_key(k) implies exists|i: int|
                0 <= i < r@.len() && #[trigger] r@[i]@ == k by {
                let j = choose|j: int| 0 <= j < self.entries@.len() && #[trigger] self.entries@[j].0@ == k;
                assert(r@[j]@ == k);
            }
        }
        r
    }
}

} // verus!

verus! {

/// `list` names each key of `keys` once and nothing else.
pub open spec fn lists_exactly(list: Seq<String>, keys: Set<Seq<char>>) -> bool {
    &&& forall|i: int, j: int| 0 <= i < j < list.len() ==> #[trigger] list[i]@ != #[trigger] list[j]@
    &&& forall|i: int| 0 <= i < list.len() ==> keys.contains(#[trigger] list[i]@)
    &&& forall|k: Seq<char>| #[trigger] keys.contains(k) ==> exists|i: int|
        0 <= i < list.len() && #[trigger] list[i]@ == k
}

/// `k` is among the first `n` entries of `list`.
pub open spec fn listed_before(list: Seq<String>, n: int, k: Seq<char>) -> bool {
    exists|j: int| 0 <= j < n && #[trigger] list[j]@ == k
}

} // verus!

verus! {

/// Listing one more entry of `list` adds exactly that entry's key.
pub proof fn lemma_listed_step(list: Seq<String>, i: int)
    requires
        0 <= i < list.len(),
    ensures
        forall|k: Seq<char>|
            #[trigger] listed_before(list, i + 1, k) <==> (listed_before(list, i, k) || k == list[i]@),
{
    assert forall|k: Seq<char>| #[trigger]
        listed_before(list, i + 1, k) <==> (listed_before(list, i, k) || k == list[i]@) by {
        if listed_before(list, i + 1, k) {
            let a = choose|a: int| 0 <= a < i + 1 && #[trigger] list[a]@ == k;
            if a < i {
                assert(listed_before(list, i, k));
            }
        }
        if k == list[i]@ {
            assert(list[i]@ == k);
        }
        if listed_before(list, i, k) {
            let a = choose|a: int| 0 <= a < i && #[trigger] list[a]@ == k;
            assert(list[a]@ == k);
        }
    }
}

/// In a list whose keys are distinct, no entry's key is listed before it.
pub proof fn lemma_not_listed_before(list: Seq<String>, i: int)
    requires
        0 <= i < list.len(),
        forall|a: int, b: int| 0 <= a < b < list.len() ==> #[trigger] list[a]@ != #[trigger] list[b]@,
    ensures
        !listed_before(list, i, list[i]@),
{
    if listed_before(list, i, list[i]@) {
        let a = choose|a: int| 0 <= a < i && #[trigger] list[a]@ == list[i]@;
        assert(list[a]@ != list[i]@);
    }
}

/// A list that names the keys of `m` and nothing else lists, in full,
/// exactly those keys.
pub proof fn lemma_listed_all<V>(list: Seq<String>, m: Map<Seq<char>, V>)
    requires
        forall|a: int| 0 <= a < list.len() ==> m.contains_key(#[trigger] list[a]@),
        forall|k: Seq<char>| #[trigger] m.contains_key(k) ==> exists|a: int|
            0 <= a < list.len() && #[trigger] list[a]@ == k,
    ensures
        forall|k: Seq<char>|
            #![trigger listed_before(list, list.len() as int, k)]
            #![trigger m.contains_key(k)]
            listed_before(list, list.len() as int, k) <==> m.contains_key(k),
{
    assert forall|k: Seq<char>| listed_before(list, list.len() as int, k) <==> m.contains_key(k) by {
        if m.contains_key(k) {
            let a = choose|a: int| 0 <= a < list.len() && #[trigger] list[a]@ == k;
            assert(listed_before(list, list.len() as int, k));
        }
        if listed_before(list, list.len() as int, k) {
            let a = choose|a: int| 0 <= a < list.len() && #[trigger] list[a]@ == k;
            assert(m.contains_key(list[a]@));
        }
    }
}

} // verus!
