//! A map from phone numbers.

use vstd::prelude::*;

use crate::pdu::{AddressView, PduAddress};

verus! {

/// A map from phone numbers, kept as a list of entries in which no number occurs twice.
pub struct AddressMap<V> {
    entries: Vec<(PduAddress, V)>,
}

impl<V> View for AddressMap<V> {
    type V = Map<AddressView, V>;

    closed spec fn view(&self) -> Map<AddressView, V> {
        entries_map(self.entries@)
    }
}

/// The position of `addr` among the entries; any number where it is not there.
spec fn position<V>(entries: Seq<(PduAddress, V)>, addr: AddressView) -> int {
    choose|i: int| 0 <= i < entries.len() && entries[i].0@ == addr
}

spec fn listed<V>(entries: Seq<(PduAddress, V)>, addr: AddressView) -> bool {
    exists|i: int| 0 <= i < entries.len() && #[trigger] entries[i].0@ == addr
}

spec fn entries_map<V>(entries: Seq<(PduAddress, V)>) -> Map<AddressView, V> {
    Map::new(
        |addr: AddressView| listed(entries, addr),
        |addr: AddressView| entries[position(entries, addr)].1,
    )
}

impl<V> AddressMap<V> {
    /// No number occurs twice.
    pub closed spec fn wf(&self) -> bool {
        forall|i: int, j: int|
            0 <= i < j < self.entries@.len() ==> #[trigger] self.entries@[i].0@
                != #[trigger] self.entries@[j].0@
    }

    /// A map without entries.
    pub fn new() -> (r: AddressMap<V>)
        ensures
            r.wf(),
            r@ == Map::<AddressView, V>::empty(),
    {
        let r: AddressMap<V> = AddressMap { entries: Vec::new() };
        assert(r@ =~= Map::<AddressView, V>::empty());
        r
    }

    /// Where the entry for `addr` stands.
    fn find(&self, addr: &PduAddress) -> (r: Option<usize>)
        requires
            self.wf(),
        ensures
            r is Some <==> self@.contains_key(addr@),
            r matches Some(i) ==> i < self.entries@.len() && self.entries@[i as int].0@ == addr@
                && self.entries@[i as int].1 == self@[addr@],
    {
        let mut i: usize = 0;
        while i < self.entries.len()
            invariant
                self.wf(),
                i <= self.entries@.len(),
                forall|j: int| 0 <= j < i ==> #[trigger] self.entries@[j].0@ != addr@,
            decreases self.entries.len() - i,
        {
            if self.entries[i].0.same(addr) {
                assert(self.entries@[i as int].0@ == addr@);
                return Some(i);
            }
            i = i + 1;
        }
        None
    }

    /// Whether there is an entry for `addr`.
    pub fn contains(&self, addr: &PduAddress) -> (r: bool)
        requires
            self.wf(),
        ensures
            r == self@.contains_key(addr@),
    {
        self.find(addr).is_some()
    }

    /// The entry for `addr`.
    pub fn get(&self, addr: &PduAddress) -> (r: Option<&V>)
        requires
            self.wf(),
        ensures
            r is Some <==> self@.contains_key(addr@),
            r matches Some(v) ==> *v == self@[addr@],
    {
        match self.find(addr) {
            Some(i) => Some(&self.entries[i].1),
            None => None,
        }
    }

    /// Takes the entry for `addr` out.
    pub fn remove(&mut self, addr: &PduAddress) -> (r: Option<V>)
        requires
            old(self).wf(),
        ensures
            final(self).wf(),
            final(self)@ == old(self)@.remove(addr@),
            r is Some <==> old(self)@.contains_key(addr@),
            r matches Some(v) ==> v == old(self)@[addr@],
    {
        let ghost before = self.entries@;
        match self.find(addr) {
            Some(i) => {
                let (_, value) = self.entries.remove(i);
                proof {
                    let after = self.entries@;
                    assert forall|a: AddressView| a != addr@ implies listed(after, a) == listed(
                        before,
                        a,
                    ) by {
                        if listed(before, a) {
                            let p = position(before, a);
                            if p < i {
                                assert(after[p].0@ == a);
                            } else {
                                assert(after[p - 1].0@ == a);
                            }
                        }
                        if listed(after, a) {
                            let p = position(after, a);
                            if p < i {
                                assert(before[p].0@ == a);
                            } else {
                                assert(before[p + 1].0@ == a);
                            }
                        }
                    }
                    assert forall|a: AddressView| a != addr@ && listed(after, a) implies after[
                        position(after, a)
                    ].1 == before[position(before, a)].1 by {
                        let p = position(after, a);
                        let q = if p < i { p } else { p + 1 };
                        assert(before[q].0@ == a);
                        let o = position(before, a);
                        assert(before[o].0@ == a);
                        assert(o == q);
                    }
                    assert(!listed(after, addr@)) by {
                        if listed(after, addr@) {
                            let p = position(after, addr@);
                            let q = if p < i { p } else { p + 1 };
                            assert(before[q].0@ == addr@ && before[i as int].0@ == addr@);
                        }
                    }
                    assert(entries_map(after) =~= entries_map(before).remove(addr@));
                }
                Some(value)
            },
            None => {
                assert(self@ =~= old(self)@.remove(addr@));
                None
            },
        }
    }

    /// Makes `value` the entry for `addr`.
    pub fn insert(&mut self, addr: PduAddress, value: V)
        requires
            old(self).wf(),
        ensures
            final(self).wf(),
            final(self)@ == old(self)@.insert(addr@, value),
    {
        let ghost start = self@;
        self.remove(&addr);
        let ghost before = self.entries@;
        let ghost n = before.len() as int;
        assert(entries_map(before) == start.remove(addr@));
        assert(!entries_map(before).contains_key(addr@));
        assert(!listed(before, addr@));
        self.entries.push((addr, value));
        proof {
            let after = self.entries@;
            assert(after[n].0@ == addr@);
            assert forall|i: int| 0 <= i < n implies #[trigger] after[i] == before[i] && after[i].0@
                != addr@ by {
                assert(before[i].0@ != addr@);
            }
            assert forall|a: AddressView| a != addr@ implies listed(after, a) == listed(
                before,
                a,
            ) by {
                if listed(before, a) {
                    let p = position(before, a);
                    assert(after[p].0@ == a);
                }
                if listed(after, a) {
                    let p = position(after, a);
                    assert(p != n);
                    assert(before[p].0@ == a);
                }
            }
            assert forall|a: AddressView| a != addr@ && listed(after, a) implies after[position(
                after,
                a,
            )].1 == before[position(before, a)].1 by {
                let p = position(after, a);
                assert(p != n);
                assert(before[p].0@ == a);
                let o = position(before, a);
                assert(before[o].0@ == a);
                assert(o == p);
            }
            assert(position(after, addr@) == n);
            assert(entries_map(after) =~= entries_map(before).insert(addr@, value));
            assert(entries_map(after) =~= start.insert(addr@, value));
        }
    }
}

} // verus!
