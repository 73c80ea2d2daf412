//! A pool of secret memory for short-lived copies, with a cache of recently
//! decrypted secrets.

use super::hot_cache::{self, HotCache};
use super::memcall::Region;
use super::memory_enclave::SealContext;
use super::secure_buffer::{self, copy_bytes, BufferView, SecureBuffer, State};
use super::slab::{self, SecureSlab, SlabView, DEFAULT_SLOT_SIZE, SLOT_WAIT_TIMEOUT_MILLIS};
use crate::crypto::KEY_LEN;
use crate::error::Error;
use crate::secret::{self, zeroize_slice, SecretBytes};
use crate::text::{self, concat, decimal};
use vstd::prelude::*;

verus! {

enum PoolSlotOrigin {
    /// A slot of the slab, by its number.
    Slab { index: usize, region: Region },
    /// A guarded buffer of its own.
    Standalone(SecureBuffer),
}

/// Secret memory on loan from the pool: a slot of the slab, or a guarded buffer
/// of its own for a larger request or when the slab is exhausted.
pub struct PoolSlot {
    origin: PoolSlotOrigin,
}

/// The mathematical content of a [`PoolSlot`].
#[verifier::ext_equal]
pub struct SlotView {
    pub data: Seq<u8>,
    /// The number of the slab's slot.
    pub index: Option<usize>,
}

impl View for PoolSlot {
    type V = SlotView;

    closed spec fn view(&self) -> SlotView {
        match self.origin {
            PoolSlotOrigin::Slab { index, region } => SlotView {
                data: region@,
                index: Some(index),
            },
            PoolSlotOrigin::Standalone(buf) => SlotView { data: buf@.data, index: None },
        }
    }
}

impl PoolSlot {
    /// A standalone buffer is whole and can be written.
    pub closed spec fn wf(&self) -> bool {
        match self.origin {
            PoolSlotOrigin::Slab { .. } => true,
            PoolSlotOrigin::Standalone(buf) => buf.wf() && buf@.state == State::Mutable,
        }
    }

    /// The guarded buffer behind the slot, where it is not one of the slab's.
    pub closed spec fn standalone(&self) -> Option<BufferView> {
        match self.origin {
            PoolSlotOrigin::Slab { .. } => None,
            PoolSlotOrigin::Standalone(buf) => Some(buf@),
        }
    }

    /// A slot over a slot of the slab.
    fn from_slab(index: usize, region: Region) -> (r: PoolSlot)
        ensures
            r.wf(),
            r@ == (SlotView { data: region@, index: Some(index) }),
            r.standalone() is None,
    {
        PoolSlot { origin: PoolSlotOrigin::Slab { index, region } }
    }

    /// A slot over a guarded buffer, which is made writable.
    pub fn from_standalone(buf: SecureBuffer) -> (r: PoolSlot)
        requires
            buf.wf(),
            buf@.state != State::Dead,
        ensures
            r.wf(),
            r@ == (SlotView { data: buf@.data, index: None }),
            r.standalone() == Some(buf@.melted()),
    {
        let mut buf = buf;
        let _ = buf.melt();
        PoolSlot { origin: PoolSlotOrigin::Standalone(buf) }
    }

    /// The bytes, for writing.
    pub fn bytes(&mut self) -> (r: &mut [u8])
        requires
            old(self).wf(),
        ensures
            r@ == old(self)@.data,
            final(r)@.len() == r@.len() ==> final(self).wf() && final(self)@ == (SlotView {
                data: final(r)@,
                ..old(self)@
            }) && final(self).standalone() == with_data(old(self).standalone(), final(r)@),
    {
        match &mut self.origin {
            PoolSlotOrigin::Slab { index: _, region } => region.as_mut_slice(),
            PoolSlotOrigin::Standalone(buf) => buf.bytes(),
        }
    }

    /// Overwrite the bytes with `src`.
    pub fn fill(&mut self, src: &[u8])
        requires
            old(self).wf(),
            old(self)@.data.len() == src@.len(),
        ensures
            final(self).wf(),
            final(self)@ == (SlotView { data: src@, ..old(self)@ }),
            final(self).standalone() == with_data(old(self).standalone(), src@),
    {
        copy_bytes(self.bytes(), src);
    }

    /// The bytes, for reading.
    pub fn as_slice(&self) -> (r: &[u8])
        requires
            self.wf(),
        ensures
            r@ == self@.data,
    {
        match &self.origin {
            PoolSlotOrigin::Slab { index: _, region } => region.as_slice(),
            PoolSlotOrigin::Standalone(buf) => buf.as_slice(),
        }
    }

    /// How many bytes the slot has.
    pub fn size(&self) -> (r: usize)
        requires
            self.wf(),
        ensures
            r == self@.data.len(),
    {
        self.as_slice().len()
    }

    /// The number of the slab's slot, where it is one.
    pub fn slab_index(&self) -> (r: Option<usize>)
        ensures
            r == self@.index,
    {
        match &self.origin {
            PoolSlotOrigin::Slab { index, region: _ } => Some(*index),
            PoolSlotOrigin::Standalone(_) => None,
        }
    }

    /// A description without the bytes.
    pub fn debug_text(&self) -> (r: String)
        requires
            self.wf(),
        ensures
            r@ == "PoolSlot { len: "@ + text::decimal_of(self@.data.len()) + " }"@,
    {
        let len = decimal(self.size() as u64);
        let head = concat("PoolSlot { len: ", len.as_str());
        concat(head.as_str(), " }")
    }
}

/// A buffer, if there is one, with other data.
pub open spec fn with_data(buf: Option<BufferView>, data: Seq<u8>) -> Option<BufferView> {
    match buf {
        Some(b) => Some(BufferView { data, ..b }),
        None => None,
    }
}

/// The pool of a process.
pub struct Pool {
    slab: SecureSlab,
    hot_cache: HotCache,
}

/// The mathematical content of a [`Pool`].
#[verifier::ext_equal]
pub struct PoolView {
    pub slab: SlabView,
    /// The cached secrets, least recently used first.
    pub cache: Seq<hot_cache::Cached>,
}

impl View for Pool {
    type V = PoolView;

    closed spec fn view(&self) -> PoolView {
        PoolView { slab: self.slab@, cache: self.hot_cache@ }
    }
}

/// How a request for `size` bytes is served.
pub enum Service {
    /// By the slab's slot of this number.
    Slab(int),
    /// Not yet: all slots are out, and the request has not waited long enough.
    Wait,
    /// By a buffer of its own.
    Standalone,
}

impl PoolView {
    /// How a request for `size` bytes that has waited for `waited_millis` is
    /// served: small ones by the first free slot of the slab, waiting for one
    /// until the time is up; others by a buffer of their own.
    pub open spec fn service(self, size: int, waited_millis: int) -> Service {
        if size > self.slab.slot_size {
            Service::Standalone
        } else if !slab::exhausted(self.slab.free) {
            Service::Slab(choose|i: int| slab::first_free(self.slab.free, i))
        } else if waited_millis >= SLOT_WAIT_TIMEOUT_MILLIS {
            Service::Standalone
        } else {
            Service::Wait
        }
    }

    /// The pool while the slot `i` is on loan.
    pub open spec fn lent(self, i: int) -> PoolView {
        PoolView { slab: SlabView { free: self.slab.free.update(i, false), ..self.slab }, ..self }
    }

    /// The pool once the slot `i` is back.
    pub open spec fn returned(self, i: int) -> PoolView {
        PoolView { slab: SlabView { free: self.slab.free.update(i, true), ..self.slab }, ..self }
    }

    /// `slot` can be given back to this pool.
    pub open spec fn takes(self, slot: SlotView) -> bool {
        slot.index matches Some(i) ==> i < self.slab.free.len() && !self.slab.free[i as int]
            && slot.data.len() == self.slab.slot_size
    }
}

impl Pool {
    /// The slab and the cache are whole.
    pub closed spec fn wf(&self) -> bool {
        self.slab.wf() && self.hot_cache.wf()
    }

    /// A pool over `slab`, with nothing cached.
    pub fn with_slab(slab: SecureSlab) -> (r: Pool)
        requires
            slab.wf(),
        ensures
            r.wf(),
            r@ == (PoolView { slab: slab@, cache: Seq::empty() }),
    {
        Pool { slab, hot_cache: HotCache::new() }
    }

    /// A pool with a slab of one page.
    pub fn new() -> (r: Result<Pool, Error>)
        ensures
            r is Ok,
            r matches Ok(p) ==> p.wf() && p@ == (PoolView {
                slab: SlabView {
                    slot_size: DEFAULT_SLOT_SIZE as nat,
                    free: Seq::new(128, |i: int| true),
                },
                cache: Seq::empty(),
            }),
    {
        match SecureSlab::new(DEFAULT_SLOT_SIZE) {
            Ok(slab) => Ok(Pool::with_slab(slab)),
            Err(e) => Err(e),
        }
    }
}

/// What the pool has for a request.
pub enum Checkout {
    /// A slot of the slab.
    Slot(PoolSlot),
    /// Nothing yet: wait and ask again.
    Wait,
    /// Nothing: the request needs a buffer of its own.
    Standalone,
}

/// Ask the pool for a slot of its slab with room for `size` bytes, after
/// `waited_millis` of waiting for one.
pub fn pool_checkout(pool: &mut Pool, size: usize, waited_millis: u64) -> (r: Checkout)
    requires
        old(pool).wf(),
    ensures
        final(pool).wf(),
        match old(pool)@.service(size as int, waited_millis as int) {
            Service::Slab(i) => {
                &&& slab::first_free(old(pool)@.slab.free, i)
                &&& 0 <= i <= usize::MAX
                &&& r is Slot
                &&& r->Slot_0.wf()
                &&& r->Slot_0@ == (SlotView {
                    data: secret::zeros(old(pool)@.slab.slot_size),
                    index: Some(i as usize),
                })
                &&& r->Slot_0.standalone() is None
                &&& final(pool)@ == old(pool)@.lent(i)
            },
            Service::Wait => r is Wait && final(pool)@ == old(pool)@,
            Service::Standalone => r is Standalone && final(pool)@ == old(pool)@,
        },
{
    if size > pool.slab.slot_size() {
        return Checkout::Standalone;
    }
    match pool.slab.find_free_slot() {
        Some(index) => {
            proof {
                let free = pool@.slab.free;
                let i = choose|i: int| slab::first_free(free, i);
                assert(slab::first_free(free, index as int));
                assert(i == index);
            }
            let region = pool.slab.checkout(index);
            Checkout::Slot(PoolSlot::from_slab(index, region))
        },
        None => if waited_millis < SLOT_WAIT_TIMEOUT_MILLIS {
            Checkout::Wait
        } else {
            Checkout::Standalone
        },
    }
}

/// Ask the pool for `size` bytes, after `waited_millis` of waiting for a slot.
/// Nothing comes back where the caller should wait and ask again.
pub fn pool_acquire(pool: &mut Pool, size: usize, waited_millis: u64) -> (r: Result<
    Option<PoolSlot>,
    Error,
>)
    requires
        old(pool).wf(),
    ensures
        final(pool).wf(),
        match old(pool)@.service(size as int, waited_millis as int) {
            Service::Slab(i) => {
                &&& slab::first_free(old(pool)@.slab.free, i)
                &&& 0 <= i <= usize::MAX
                &&& r is Ok && r->Ok_0 is Some
                &&& r->Ok_0->0.wf()
                &&& r->Ok_0->0@ == (SlotView {
                    data: secret::zeros(old(pool)@.slab.slot_size),
                    index: Some(i as usize),
                })
                &&& r->Ok_0->0.standalone() is None
                &&& final(pool)@ == old(pool)@.lent(i)
            },
            Service::Wait => {
                &&& r is Ok && r->Ok_0 is None
                &&& final(pool)@ == old(pool)@
            },
            Service::Standalone => {
                &&& r is Ok <==> secure_buffer::allocatable(size as int)
                &&& size + 3 * 4096 <= isize::MAX ==> r is Ok
                &&& r matches Ok(o) ==> o is Some && o->0.wf() && o->0@ == (SlotView {
                    data: secret::zeros(size as nat),
                    index: None,
                }) && o->0.standalone() is Some && o->0.standalone()->0.intact()
                &&& r matches Err(e) ==> e@ == secure_buffer::no_buffer()
                &&& final(pool)@ == old(pool)@
            },
        },
{
    match pool_checkout(pool, size, waited_millis) {
        Checkout::Slot(slot) => Ok(Some(slot)),
        Checkout::Wait => Ok(None),
        Checkout::Standalone => match SecureBuffer::new(size) {
            Ok(buf) => Ok(Some(PoolSlot::from_standalone(buf))),
            Err(e) => Err(e),
        },
    }
}

/// Give a slot back. Its bytes are wiped. A slot of the slab is free again; the
/// memory of a buffer of its own is handed out, all of it and wiped, together
/// with whether its canaries were intact.
pub fn pool_release(pool: &mut Pool, slot: PoolSlot) -> (r: Option<(bool, Region)>)
    requires
        old(pool).wf(),
        slot.wf(),
        old(pool)@.takes(slot@),
    ensures
        final(pool).wf(),
        final(pool)@ == match slot@.index {
            Some(i) => old(pool)@.returned(i as int),
            None => old(pool)@,
        },
        r is Some <==> slot.standalone() is Some,
        r matches Some((intact, region)) ==> {
            let b = slot.standalone()->0;
            &&& intact == b.intact()
            &&& secure_buffer::suits(region, b.data.len() as int, b.page_size as int)
            &&& region@ == secret::zeros(region@.len())
        },
{
    let mut slot = slot;
    zeroize_slice(slot.bytes());
    match slot.origin {
        PoolSlotOrigin::Slab { index, region } => {
            pool.slab.release(index, region);
            None
        },
        PoolSlotOrigin::Standalone(buf) => Some(buf.dispose()),
    }
}

/// A slot with a copy of the master key. Nothing comes back where the caller
/// should wait and ask again.
pub fn coffer_view(pool: &mut Pool, ctx: &mut SealContext, waited_millis: u64) -> (r: Result<
    Option<PoolSlot>,
    Error,
>)
    requires
        old(pool).wf(),
        old(ctx).wf(),
        old(pool)@.slab.slot_size <= KEY_LEN,
    ensures
        final(pool).wf(),
        final(ctx).wf(),
        final(ctx)@ == old(ctx)@,
        r is Ok,
        match old(pool)@.service(KEY_LEN as int, waited_millis as int) {
            Service::Slab(i) => r->Ok_0 is Some && r->Ok_0->0.wf() && r->Ok_0->0@ == (SlotView {
                data: old(ctx)@.key,
                index: Some(i as usize),
            }) && final(pool)@ == old(pool)@.lent(i),
            Service::Wait => r->Ok_0 is None && final(pool)@ == old(pool)@,
            Service::Standalone => r->Ok_0 is Some && r->Ok_0->0.wf() && r->Ok_0->0@ == (SlotView {
                data: old(ctx)@.key,
                index: None,
            }) && final(pool)@ == old(pool)@,
        },
{
    let key = match ctx.master_key() {
        Ok(key) => key,
        Err(e) => {
            return Err(e);
        },
    };
    assert(secure_buffer::allocatable(KEY_LEN as int));
    match pool_acquire(pool, key.len(), waited_millis) {
        Ok(Some(slot)) => {
            let mut slot = slot;
            slot.fill(key.as_slice());
            Ok(Some(slot))
        },
        Ok(None) => Ok(None),
        Err(e) => Err(e),
    }
}

/// Cache `plaintext` under `id`.
pub fn hot_cache_insert(pool: &mut Pool, id: u64, plaintext: SecretBytes)
    requires
        old(pool).wf(),
    ensures
        final(pool).wf(),
        final(pool)@ == (PoolView {
            cache: hot_cache::inserted(old(pool)@.cache, id, plaintext@),
            ..old(pool)@
        }),
{
    pool.hot_cache.insert(id, plaintext);
}

/// A copy of what is cached under `id`.
pub fn hot_cache_get(pool: &mut Pool, id: u64) -> (r: Option<SecretBytes>)
    requires
        old(pool).wf(),
    ensures
        final(pool).wf(),
        match hot_cache::lookup(old(pool)@.cache, id) {
            Some(p) => r is Some && r->0@ == p,
            None => r is None,
        },
        final(pool)@ == (PoolView {
            cache: hot_cache::promoted(old(pool)@.cache, id),
            ..old(pool)@
        }),
{
    pool.hot_cache.get(id)
}

/// Drop what is cached under `id`.
pub fn hot_cache_evict(pool: &mut Pool, id: u64)
    requires
        old(pool).wf(),
    ensures
        final(pool).wf(),
        final(pool)@ == (PoolView {
            cache: hot_cache::without(old(pool)@.cache, id),
            ..old(pool)@
        }),
{
    pool.hot_cache.evict(id);
}

/// No two loans share a slot: while a slot is on loan, no request is served by
/// it, whatever loans and returns of other slots came between.
pub proof fn law_loans_are_distinct(pool: PoolView, i: int, size: int, waited: int, j: int)
    requires
        0 <= i < pool.slab.free.len(),
        !pool.slab.free[i],
        pool.service(size, waited) == Service::Slab(j),
        slab::first_free(pool.slab.free, j),
    ensures
        i != j,
        !pool.lent(j).slab.free[i],
        forall|k: int|
            k != i && 0 <= k < pool.slab.free.len() ==> !(#[trigger] pool.returned(k)).slab.free[i],
{
}

/// Giving a slot back undoes the loan.
pub proof fn law_release_undoes_acquire(pool: PoolView, i: int)
    requires
        slab::first_free(pool.slab.free, i),
    ensures
        pool.lent(i).returned(i) == pool,
{
    assert(pool.lent(i).returned(i).slab.free =~= pool.slab.free);
}

/// A slot that was given back is lent again at once: where all others are out, the
/// next request that fits gets it without waiting.
pub proof fn law_returned_slot_is_lent_again(pool: PoolView, i: int, size: int, waited: int)
    requires
        0 <= i < pool.slab.free.len(),
        forall|k: int| 0 <= k < pool.slab.free.len() && k != i ==> !#[trigger] pool.slab.free[k],
        size <= pool.slab.slot_size,
    ensures
        pool.returned(i).service(size, waited) == Service::Slab(i),
{
    let free = pool.returned(i).slab.free;
    assert(free[i]);
    assert forall|k: int| 0 <= k < i implies !#[trigger] free[k] by {
        assert(free[k] == pool.slab.free[k]);
    }
    assert(slab::first_free(free, i));
    let j = choose|j: int| slab::first_free(free, j);
    assert(slab::first_free(free, j));
    assert(free[j]);
    if j != i {
        assert(free[j] == pool.slab.free[j]);
    }
}

/// A small request is served by the slab as long as a slot is free, however
/// long it has waited; a large one never waits and never takes a slot.
pub proof fn law_small_requests_use_the_slab(pool: PoolView, size: int, waited: int)
    ensures
        size > pool.slab.slot_size ==> pool.service(size, waited) == Service::Standalone,
        size <= pool.slab.slot_size && !slab::exhausted(pool.slab.free) ==> pool.service(
            size,
            waited,
        ) is Slab,
        pool.service(size, waited) is Wait <==> size <= pool.slab.slot_size && slab::exhausted(
            pool.slab.free,
        ) && waited < SLOT_WAIT_TIMEOUT_MILLIS,
{
}

/// How a request is served, told by the free slots and the time: where it fits a slot
/// and some slot is free, by the lowest free one, at once; where it fits and none is
/// free, it waits while less than thirty seconds have passed and then gets a buffer of
/// its own; and where it does not fit, it gets a buffer of its own at once.
pub proof fn law_service(pool: PoolView, size: int, waited: int, k: int)
    ensures
        size > pool.slab.slot_size ==> pool.service(size, waited) == Service::Standalone,
        size <= pool.slab.slot_size && 0 <= k < pool.slab.free.len() && pool.slab.free[k] ==> (
        pool.service(size, waited) matches Service::Slab(i) && 0 <= i <= k && pool.slab.free[i]
            && forall|j: int| 0 <= j < i ==> !#[trigger] pool.slab.free[j]),
        size <= pool.slab.slot_size && (forall|j: int|
            0 <= j < pool.slab.free.len() ==> !#[trigger] pool.slab.free[j]) ==> pool.service(
            size,
            waited,
        ) == if waited >= 30_000 {
            Service::Standalone
        } else {
            Service::Wait
        },
{
    let free = pool.slab.free;
    if size <= pool.slab.slot_size && 0 <= k < free.len() && free[k] {
        lemma_first_free(free, k);
        let i = choose|i: int| slab::first_free(free, i);
        assert(slab::first_free(free, i));
        if k < i {
            assert(!free[k]);
        }
    }
}

proof fn lemma_first_free(free: Seq<bool>, k: int)
    requires
        0 <= k < free.len(),
        free[k],
    ensures
        exists|i: int| slab::first_free(free, i),
    decreases k,
{
    if forall|j: int| 0 <= j < k ==> !#[trigger] free[j] {
        assert(slab::first_free(free, k));
    } else {
        let j = choose|j: int| 0 <= j < k && #[trigger] free[j];
        lemma_first_free(free, j);
    }
}

/// Lending and giving back change that one slot and nothing else.
pub proof fn law_loans_touch_one_slot(pool: PoolView, i: int, k: int)
    requires
        0 <= i < pool.slab.free.len(),
        0 <= k < pool.slab.free.len(),
    ensures
        pool.lent(i).slab.free.len() == pool.slab.free.len(),
        pool.returned(i).slab.free.len() == pool.slab.free.len(),
        !pool.lent(i).slab.free[i],
        pool.returned(i).slab.free[i],
        k != i ==> pool.lent(i).slab.free[k] == pool.slab.free[k],
        k != i ==> pool.returned(i).slab.free[k] == pool.slab.free[k],
        pool.lent(i).slab.slot_size == pool.slab.slot_size,
        pool.returned(i).slab.slot_size == pool.slab.slot_size,
        pool.lent(i).cache == pool.cache,
        pool.returned(i).cache == pool.cache,
{
}

/// A slot of this pool's slab that is out and has a slot's size can be given back,
/// and so can any buffer of its own.
pub proof fn law_loans_can_be_returned(pool: PoolView, data: Seq<u8>, i: usize)
    ensures
        pool.takes(SlotView { data, index: None }),
        i < pool.slab.free.len() && !pool.slab.free[i as int] && data.len() == pool.slab.slot_size
            ==> pool.takes(SlotView { data, index: Some(i) }),
{
}

/// Writing to a slot with a buffer of its own changes the buffer's data and nothing else
/// of it.
pub proof fn law_with_data(b: BufferView, data: Seq<u8>)
    ensures
        with_data(None, data) is None,
        with_data(Some(b), data) is Some,
        with_data(Some(b), data)->0.data == data,
        (BufferView { data: b.data, ..with_data(Some(b), data)->0 }) == b,
{
}

}
