//! A set of certificate types.

use crate::certificate::CertificateType;
use std::collections::HashMap;
use vstd::prelude::*;

verus! {

broadcast use vstd::std_specs::hash::group_hash_axioms;

/// A set of certificate types, kept by slot.
pub struct SeenCerts {
    by_slot: HashMap<u64, Vec<CertificateType>>,
}

/// Where a certificate type is in a list, if it is there.
fn position(list: &Vec<CertificateType>, cert_type: &CertificateType) -> (position: Option<usize>)
    ensures
        match position {
            Some(position) => position < list@.len() && list@[position as int] == *cert_type,
            None => !list@.contains(*cert_type),
        },
{
    for index in 0..list.len()
        invariant
            forall|i: int| 0 <= i < index ==> list@[i] != *cert_type,
    {
        if list[index].same(cert_type) {
            return Some(index);
        }
    }
    None
}

impl SeenCerts {
    /// Each type is listed once, with those of its slot.
    pub closed spec fn wf(self) -> bool {
        forall|slot: u64| #[trigger]
            self.by_slot@.contains_key(slot) ==> {
                &&& self.by_slot@[slot]@.no_duplicates()
                &&& forall|i: int|
                    0 <= i < self.by_slot@[slot]@.len() ==> (
                    #[trigger] self.by_slot@[slot]@[i]).of_slot() == slot
            }
    }

    /// Whether a type is in the set.
    closed spec fn has(self, cert_type: CertificateType) -> bool {
        self.by_slot@.contains_key(cert_type.of_slot())
            && self.by_slot@[cert_type.of_slot()]@.contains(cert_type)
    }
}

impl View for SeenCerts {
    type V = Set<CertificateType>;

    closed spec fn view(&self) -> Set<CertificateType> {
        Set::new(|cert_type: CertificateType| self.has(cert_type))
    }
}

impl SeenCerts {
    /// The empty set.
    pub fn new() -> (seen: Self)
        ensures
            seen.wf(),
            seen@ == Set::<CertificateType>::empty(),
    {
        let seen = SeenCerts { by_slot: HashMap::new() };
        assert(seen@ =~= Set::<CertificateType>::empty());
        seen
    }

    /// Whether a type is in the set.
    pub fn contains(&self, cert_type: &CertificateType) -> (found: bool)
        requires
            self.wf(),
        ensures
            found == self@.contains(*cert_type),
    {
        match self.by_slot.get(&cert_type.slot()) {
            Some(list) => position(list, cert_type).is_some(),
            None => false,
        }
    }

    /// Adds a type to the set. Returns whether it was not there before.
    pub fn insert(&mut self, cert_type: CertificateType) -> (inserted: bool)
        requires
            old(self).wf(),
        ensures
            final(self).wf(),
            final(self)@ == old(self)@.insert(cert_type),
            inserted == !old(self)@.contains(cert_type),
    {
        let slot: u64 = cert_type.slot();
        let mut list: Vec<CertificateType> = match self.by_slot.remove(&slot) {
            Some(list) => list,
            None => Vec::new(),
        };
        let ghost before = list@;
        let inserted: bool = position(&list, &cert_type).is_none();
        if inserted {
            list.push(cert_type);
        }
        let ghost after = list@;
        self.by_slot.insert(slot, list);
        proof {
            assert forall|other: CertificateType| #[trigger]
                self@.contains(other) == old(self)@.insert(cert_type).contains(other) by {
                if inserted {
                    assert(after[before.len() as int] == cert_type);
                    if before.contains(other) {
                        let i = choose|i: int| 0 <= i < before.len() && before[i] == other;
                        assert(after[i] == other);
                    }
                    if after.contains(other) && other != cert_type {
                        let i = choose|i: int| 0 <= i < after.len() && after[i] == other;
                        assert(before[i] == other);
                    }
                }
            }
            assert(self@ =~= old(self)@.insert(cert_type));
        }
        inserted
    }

    /// Takes a type out of the set. Returns whether it was there.
    pub fn remove(&mut self, cert_type: &CertificateType) -> (removed: bool)
        requires
            old(self).wf(),
        ensures
            final(self).wf(),
            final(self)@ == old(self)@.remove(*cert_type),
            removed == old(self)@.contains(*cert_type),
    {
        let slot: u64 = cert_type.slot();
        let mut list: Vec<CertificateType> = match self.by_slot.remove(&slot) {
            Some(list) => list,
            None => Vec::new(),
        };
        let ghost before = list@;
        let mut removed: bool = false;
        if let Some(index) = position(&list, cert_type) {
            list.remove(index);
            removed = true;
        }
        let ghost after = list@;
        if !list.is_empty() {
            self.by_slot.insert(slot, list);
        }
        proof {
            assert forall|other: CertificateType| #[trigger]
                self@.contains(other) == old(self)@.remove(*cert_type).contains(other) by {
                if removed {
                    let index = choose|index: int|
                        0 <= index < before.len() && before[index] == *cert_type && after
                            == before.remove(index);
                    if before.contains(other) && other != *cert_type {
                        let i = choose|i: int| 0 <= i < before.len() && before[i] == other;
                        if i < index {
                            assert(after[i] == other);
                        } else {
                            assert(after[i - 1] == other);
                        }
                    }
                    if after.contains(other) {
                        let i = choose|i: int| 0 <= i < after.len() && after[i] == other;
                        if i < index {
                            assert(before[i] == other);
                        } else {
                            assert(before[i + 1] == other);
                        }
                    }
                }
            }
            assert(self@ =~= old(self)@.remove(*cert_type));
        }
        removed
    }
}

} // verus!
