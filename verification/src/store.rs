use vstd::prelude::*;
use crate::address::Address;
use crate::keyed::{keyed_map, unique_keys, lemma_keyed_map_contains, lemma_keyed_map_get,
    lemma_keyed_map_update};

verus! {

/// Why a store operation was refused.
#[derive(Clone, Copy, Debug, PartialEq, Eq, Structural)]
pub enum StoreError {
    /// A record is already allocated at the address.
    AlreadyAllocated,
    /// No record is allocated at the address.
    UnknownRecord,
    /// The value does not fit in the record's reserved size.
    RecordTooLarge,
}

/// One fixed-size storage slot: the slot's size is the length of its
/// contents, which allocation zero-fills.
struct StoreSlot {
    address: Address,
    funder: Address,
    data: Vec<u8>,
}

pub open spec fn spec_zeros(n: nat) -> Seq<u8> {
    Seq::new(n, |i: int| 0u8)
}

spec fn slot_key() -> spec_fn(StoreSlot) -> Seq<u8> {
    |s: StoreSlot| s.address@
}

spec fn slot_data() -> spec_fn(StoreSlot) -> Seq<u8> {
    |s: StoreSlot| s.data@
}

spec fn slot_funder() -> spec_fn(StoreSlot) -> Seq<u8> {
    |s: StoreSlot| s.funder@
}

/// The account store: fixed-size, address-derivable slots with one-time
/// initialization.
pub struct Store {
    slots: Vec<StoreSlot>,
}

impl Store {
    /// The allocated records, as a map from address to contents.
    pub closed spec fn records(&self) -> Map<Seq<u8>, Seq<u8>> {
        keyed_map(self.slots@, slot_key(), slot_data())
    }

    /// Who funded each allocated record.
    pub closed spec fn funders(&self) -> Map<Seq<u8>, Seq<u8>> {
        keyed_map(self.slots@, slot_key(), slot_funder())
    }

    /// Addresses are write-once, so each names at most one slot.
    pub closed spec fn wf(&self) -> bool {
        unique_keys(self.slots@, slot_key())
    }

    /// An empty store.
    pub fn new() -> (s: Store)
        ensures
            s.wf(),
            s.records() == Map::<Seq<u8>, Seq<u8>>::empty(),
            s.funders() == Map::<Seq<u8>, Seq<u8>>::empty(),
    {
        let s = Store { slots: Vec::new() };
        proof {
            assert(s.slots@.len() == 0);
        }
        s
    }

    fn find_slot(&self, address: &Address) -> (r: Option<usize>)
        ensures
            match r {
                Some(i) => i < self.slots@.len() && self.slots@[i as int].address@ == address@,
                None => forall|j: int|
                    0 <= j < self.slots@.len() ==> #[trigger] self.slots@[j].address@ != address@,
            },
    {
        let mut j: usize = 0;
        while j < self.slots.len()
            invariant
                0 <= j <= self.slots@.len(),
                forall|k: int| 0 <= k < j ==> #[trigger] self.slots@[k].address@ != address@,
            decreases self.slots@.len() - j,
        {
            if self.slots[j].address == *address {
                return Some(j);
            }
            j = j + 1;
        }
        None
    }

    /// Whether a record is allocated at the address.
    pub fn is_allocated(&self, address: &Address) -> (r: bool)
        ensures
            r == self.records().contains_key(address@),
    {
        proof {
            lemma_keyed_map_contains(self.slots@, slot_key(), slot_data(), address@);
        }
        match self.find_slot(address) {
            Some(_) => true,
            None => false,
        }
    }

    /// The contents of the record at the address, if one is allocated.
    pub fn read(&self, address: &Address) -> (r: Option<Vec<u8>>)
        requires
            self.wf(),
        ensures
            match r {
                Some(d) => self.records().contains_key(address@) && d@ == self.records()[address@],
                None => !self.records().contains_key(address@),
            },
    {
        proof {
            lemma_keyed_map_contains(self.slots@, slot_key(), slot_data(), address@);
        }
        match self.find_slot(address) {
            Some(i) => {
                proof {
                    lemma_keyed_map_get(self.slots@, slot_key(), slot_data(), i as int);
                }
                let slot = &self.slots[i];
                let mut out: Vec<u8> = Vec::new();
                let mut k: usize = 0;
                while k < slot.data.len()
                    invariant
                        0 <= k <= slot.data@.len(),
                        out@ == slot.data@.take(k as int),
                    decreases slot.data@.len() - k,
                {
                    out.push(slot.data[k]);
                    proof {
                        assert(out@ =~= slot.data@.take(k + 1));
                    }
                    k = k + 1;
                }
                proof {
                    assert(slot.data@.take(slot.data@.len() as int) =~= slot.data@);
                }
                Some(out)
            },
            None => None,
        }
    }

    /// Allocates a zero-filled record of `size_bytes` at the address,
    /// funded by `funder`.  Fails, leaving the store as it was, exactly
    /// when the address is already allocated.
    pub fn allocate(&mut self, address: &Address, size_bytes: usize, funder: &Address) -> (r:
        Result<(), StoreError>)
        requires
            old(self).wf(),
        ensures
            final(self).wf(),
            match r {
                Ok(_) => !old(self).records().contains_key(address@) && final(self).records()
                    == old(self).records().insert(address@, spec_zeros(size_bytes as nat))
                    && final(self).funders() == old(self).funders().insert(address@, funder@),
                Err(e) => e == StoreError::AlreadyAllocated && old(self).records().contains_key(
                    address@,
                ) && *final(self) == *old(self),
            },
    {
        proof {
            lemma_keyed_map_contains(self.slots@, slot_key(), slot_data(), address@);
        }
        match self.find_slot(address) {
            Some(_) => Err(StoreError::AlreadyAllocated),
            None => {
                let mut data: Vec<u8> = Vec::new();
                let mut k: usize = 0;
                while k < size_bytes
                    invariant
                        0 <= k <= size_bytes,
                        data@ == spec_zeros(k as nat),
                    decreases size_bytes - k,
                {
                    data.push(0u8);
                    proof {
                        assert(data@ =~= spec_zeros((k + 1) as nat));
                    }
                    k = k + 1;
                }
                let slot = StoreSlot { address: *address, funder: *funder, data };
                self.slots.push(slot);
                proof {
                    assert(self.slots@.drop_last() =~= old(self).slots@);
                    assert forall|i: int, j: int| 0 <= i < j < self.slots@.len() implies slot_key()(
                        self.slots@[i],
                    ) != slot_key()(self.slots@[j]) by {
                        if j == self.slots@.len() - 1 {
                            assert(self.slots@[i] == old(self).slots@[i]);
                        } else {
                            assert(self.slots@[i] == old(self).slots@[i]);
                            assert(self.slots@[j] == old(self).slots@[j]);
                        }
                    }
                }
                Ok(())
            },
        }
    }

    /// Writes `value` into the record at the address, padding the rest
    /// of the slot with zeroes.  Fails, leaving the store as it was,
    /// exactly when no record is allocated there or the value exceeds
    /// the record's reserved size.
    pub fn write_record(&mut self, address: &Address, value: &Vec<u8>) -> (r: Result<
        (),
        StoreError,
    >)
        requires
            old(self).wf(),
        ensures
            final(self).wf(),
            match r {
                Ok(_) => old(self).records().contains_key(address@) && value@.len() <= old(
                    self,
                ).records()[address@].len() && final(self).records() == old(self).records().insert(
                    address@,
                    value@ + spec_zeros((old(self).records()[address@].len() - value@.len()) as nat),
                ) && final(self).funders() == old(self).funders(),
                Err(e) => *final(self) == *old(self) && match e {
                    StoreError::UnknownRecord => !old(self).records().contains_key(address@),
                    StoreError::RecordTooLarge => old(self).records().contains_key(address@)
                        && value@.len() > old(self).records()[address@].len(),
                    _ => false,
                },
            },
    {
        proof {
            lemma_keyed_map_contains(self.slots@, slot_key(), slot_data(), address@);
        }
        let i = match self.find_slot(address) {
            Some(i) => i,
            None => {
                return Err(StoreError::UnknownRecord);
            },
        };
        proof {
            lemma_keyed_map_get(self.slots@, slot_key(), slot_data(), i as int);
            lemma_keyed_map_get(self.slots@, slot_key(), slot_funder(), i as int);
        }
        let size = self.slots[i].data.len();
        if value.len() > size {
            return Err(StoreError::RecordTooLarge);
        }
        let mut data: Vec<u8> = Vec::new();
        let mut k: usize = 0;
        while k < value.len()
            invariant
                0 <= k <= value@.len(),
                data@ == value@.take(k as int),
            decreases value@.len() - k,
        {
            data.push(value[k]);
            proof {
                assert(data@ =~= value@.take(k + 1));
            }
            k = k + 1;
        }
        proof {
            assert(value@.take(value@.len() as int) =~= value@);
            assert(data@ =~= value@ + spec_zeros(0));
        }
        while k < size
            invariant
                value@.len() <= k <= size,
                data@ == value@ + spec_zeros((k - value@.len()) as nat),
            decreases size - k,
        {
            data.push(0u8);
            proof {
                assert(data@ =~= value@ + spec_zeros((k + 1 - value@.len()) as nat));
            }
            k = k + 1;
        }
        let funder = self.slots[i].funder;
        let updated = StoreSlot { address: *address, funder, data };
        self.slots[i] = updated;
        proof {
            assert(value@ + spec_zeros((size - value@.len()) as nat) == updated.data@);
            lemma_keyed_map_update(old(self).slots@, slot_key(), slot_data(), i as int, updated);
            lemma_keyed_map_update(old(self).slots@, slot_key(), slot_funder(), i as int, updated);
            assert forall|a: int, b: int| 0 <= a < b < self.slots@.len() implies slot_key()(
                self.slots@[a],
            ) != slot_key()(self.slots@[b]) by {
                assert(slot_key()(self.slots@[a]) == slot_key()(old(self).slots@[a]));
                assert(slot_key()(self.slots@[b]) == slot_key()(old(self).slots@[b]));
            }
            assert(old(self).funders().insert(address@, updated.funder@) =~= old(self).funders());
        }
        Ok(())
    }
}

} // verus!
