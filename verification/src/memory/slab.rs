//! A page of secret memory, split into slots of one size.

use super::memcall::{os_alloc, page_size, Region};
use crate::error::Error;
use crate::secret;
use vstd::prelude::*;

verus! {

/// Slot size of the pool's slab: a key fits exactly.
pub const DEFAULT_SLOT_SIZE: usize = 32;

/// How long a request waits for a slot before it is served in another way.
pub const SLOT_WAIT_TIMEOUT_MILLIS: u64 = 30_000;

/// Slots of secret memory. A slot that is not checked out holds zeros.
pub struct SecureSlab {
    slot_size: usize,
    /// The memory of each slot, while it is not checked out.
    slots: Vec<Option<Region>>,
}

/// The mathematical content of a [`SecureSlab`].
#[verifier::ext_equal]
pub struct SlabView {
    pub slot_size: nat,
    /// Which slots are free.
    pub free: Seq<bool>,
}

impl View for SecureSlab {
    type V = SlabView;

    closed spec fn view(&self) -> SlabView {
        SlabView {
            slot_size: self.slot_size as nat,
            free: Seq::new(self.slots@.len(), |i: int| self.slots@[i] is Some),
        }
    }
}

/// `i` is the first free slot.
pub open spec fn first_free(free: Seq<bool>, i: int) -> bool {
    &&& 0 <= i < free.len()
    &&& free[i]
    &&& forall|k: int| 0 <= k < i ==> !#[trigger] free[k]
}

/// No slot is free.
pub open spec fn exhausted(free: Seq<bool>) -> bool {
    forall|k: int| 0 <= k < free.len() ==> !#[trigger] free[k]
}

impl SecureSlab {
    /// Free slots are wiped.
    pub closed spec fn wf(&self) -> bool {
        forall|i: int|
            0 <= i < self.slots@.len() && (#[trigger] self.slots@[i]) is Some
                ==> self.slots@[i]->0@ == secret::zeros(self.slot_size as nat)
    }

    /// A slab over memory that was split into slots of `slot_size` zero bytes.
    pub fn from_regions(slot_size: usize, regions: Vec<Region>) -> (r: SecureSlab)
        requires
            forall|i: int|
                0 <= i < regions@.len() ==> (#[trigger] regions@[i])@ == secret::zeros(
                    slot_size as nat,
                ),
        ensures
            r.wf(),
            r@.slot_size == slot_size,
            r@.free == Seq::new(regions@.len(), |i: int| true),
    {
        let ghost count = regions@.len();
        let mut regions = regions;
        let mut back: Vec<Option<Region>> = Vec::new();
        while regions.len() > 0
            invariant
                back@.len() + regions@.len() == count,
                forall|i: int| 0 <= i < back@.len() ==> (#[trigger] back@[i]) is Some,
                forall|i: int|
                    0 <= i < back@.len() ==> (#[trigger] back@[i])->0@ == secret::zeros(
                        slot_size as nat,
                    ),
                forall|i: int|
                    0 <= i < regions@.len() ==> (#[trigger] regions@[i])@ == secret::zeros(
                        slot_size as nat,
                    ),
            decreases regions@.len(),
        {
            let region = regions.pop();
            back.push(region);
        }
        let r = SecureSlab { slot_size, slots: back };
        assert(r@.free =~= Seq::new(count, |i: int| true));
        r
    }

    /// A slab of one page.
    pub fn new(slot_size: usize) -> (r: Result<SecureSlab, Error>)
        requires
            0 < slot_size <= 4096,
        ensures
            r is Ok,
            r matches Ok(s) ==> s.wf() && s@.slot_size == slot_size && s@.free == Seq::new(
                (4096int / slot_size as int) as nat,
                |i: int| true,
            ),
    {
        let count: usize = page_size() / slot_size;
        let mut regions: Vec<Region> = Vec::new();
        while regions.len() < count
            invariant
                regions@.len() <= count,
                slot_size <= 4096,
                forall|i: int|
                    0 <= i < regions@.len() ==> (#[trigger] regions@[i])@ == secret::zeros(
                        slot_size as nat,
                    ),
            decreases count - regions@.len(),
        {
            match os_alloc(slot_size) {
                Ok(region) => {
                    regions.push(region);
                },
                Err(e) => {
                    return Err(Error::Memory(e.message()));
                },
            }
        }
        Ok(SecureSlab::from_regions(slot_size, regions))
    }

    /// The size of a slot.
    pub fn slot_size(&self) -> (r: usize)
        ensures
            r == self@.slot_size,
    {
        self.slot_size
    }

    /// The first free slot.
    pub fn find_free_slot(&self) -> (r: Option<usize>)
        ensures
            match r {
                Some(i) => first_free(self@.free, i as int),
                None => exhausted(self@.free),
            },
    {
        let mut i: usize = 0;
        while i < self.slots.len()
            invariant
                i <= self.slots@.len(),
                self@.free.len() == self.slots@.len(),
                forall|k: int| 0 <= k < i ==> !#[trigger] self@.free[k],
            decreases self.slots@.len() - i,
        {
            if self.slots[i].is_some() {
                return Some(i);
            }
            i += 1;
        }
        None
    }

    /// Take the memory of a free slot.
    pub fn checkout(&mut self, index: usize) -> (r: Region)
        requires
            old(self).wf(),
            index < old(self)@.free.len(),
            old(self)@.free[index as int],
        ensures
            final(self).wf(),
            r@ == secret::zeros(old(self)@.slot_size),
            final(self)@ == (SlabView {
                free: old(self)@.free.update(index as int, false),
                ..old(self)@
            }),
    {
        self.slots.push(None);
        let slot = self.slots.swap_remove(index);
        assert(self@.free =~= old(self)@.free.update(index as int, false));
        slot.unwrap()
    }

    /// Wipe the memory of a slot and give it back.
    pub fn release(&mut self, index: usize, region: Region)
        requires
            old(self).wf(),
            index < old(self)@.free.len(),
            !old(self)@.free[index as int],
            region@.len() == old(self)@.slot_size,
        ensures
            final(self).wf(),
            final(self)@ == (SlabView {
                free: old(self)@.free.update(index as int, true),
                ..old(self)@
            }),
    {
        let mut region = region;
        region.wipe();
        self.slots.push(Some(region));
        let _ = self.slots.swap_remove(index);
        assert(self@.free =~= old(self)@.free.update(index as int, true));
    }
}

}
