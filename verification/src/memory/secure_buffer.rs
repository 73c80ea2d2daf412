//! A guarded buffer for secret bytes and the states it goes through.

use super::memcall::{
    os_alloc, os_lock, os_protect, os_unlock, page_size, MemError, Protection, Region,
};
use crate::crypto::os_random;
use crate::error::{Error, ErrorView};
use crate::secret::{self, zeroize_slice, SecretBytes};
use crate::text::{self, concat, decimal};
use vstd::prelude::*;
use vstd::slice::slice_subrange;
use vstd::string::StringExecFns;

verus! {

/// Length of a canary. A guard page is filled with it, over and over.
pub const CANARY_LEN: usize = 32;

/// What a buffer allows.
#[derive(Clone, Copy, Debug, PartialEq, Eq, Structural)]
pub enum State {
    /// Reading and writing.
    Mutable,
    /// Reading.
    Frozen,
    /// Nothing: the memory is gone.
    Dead,
}

/// `size` rounded up to a multiple of `page`.
pub open spec fn rounded_up(size: int, page: int) -> int {
    (size + page - 1) / page * page
}

/// Where the parts of a guarded allocation lie:
/// `[guard page][inner region][guard page]`.
#[derive(Clone, Copy, Debug)]
pub struct BufferLayout {
    pub page_size: usize,
    /// Length of the inner region, a multiple of the page size.
    pub inner_rounded: usize,
    /// Length of the whole allocation.
    pub alloc_len: usize,
    /// Offset of the inner region.
    pub inner_offset: usize,
    /// Offset of the second guard page.
    pub post_guard_offset: usize,
}

impl BufferLayout {
    /// The layout for `size` bytes of data.
    pub open spec fn describes(&self, size: int, page: int) -> bool {
        &&& self.page_size == page
        &&& self.inner_rounded == rounded_up(size, page)
        &&& self.alloc_len == page + rounded_up(size, page) + page
        &&& self.inner_offset == page
        &&& self.post_guard_offset == page + rounded_up(size, page)
    }

    /// Lay out an allocation with room for `size` bytes, if its length can be
    /// written in a `usize`.
    pub fn plan(size: usize, page: usize) -> (r: Option<BufferLayout>)
        requires
            page > 0,
        ensures
            r is Some <==> page + rounded_up(size as int, page as int) + page <= usize::MAX,
            r matches Some(l) ==> l.describes(size as int, page as int),
    {
        proof {
            lemma_rounded_up(size as int, page as int);
        }
        let whole: usize = size / page;
        let pages: usize = if size % page == 0 {
            whole
        } else {
            assert(whole < usize::MAX) by (nonlinear_arith)
                requires
                    whole == size / page,
                    size % page != 0,
                    page > 0,
            ;
            whole + 1
        };
        assert(pages == (size + page - 1) / page as int) by {
            lemma_ceil(size as int, page as int);
        }
        let inner_rounded: usize = match pages.checked_mul(page) {
            Some(v) => v,
            None => {
                return None;
            },
        };
        let post: usize = match page.checked_add(inner_rounded) {
            Some(v) => v,
            None => {
                return None;
            },
        };
        let alloc_len: usize = match post.checked_add(page) {
            Some(v) => v,
            None => {
                return None;
            },
        };
        Some(
            BufferLayout {
                page_size: page,
                inner_rounded,
                alloc_len,
                inner_offset: page,
                post_guard_offset: post,
            },
        )
    }
}

proof fn lemma_ceil(size: int, page: int)
    requires
        size >= 0,
        page > 0,
    ensures
        (size + page - 1) / page == if size % page == 0 {
            size / page
        } else {
            size / page + 1
        },
{
    let q = size / page;
    let r = size % page;
    vstd::arithmetic::div_mod::lemma_fundamental_div_mod(size, page);
    if r == 0 {
        vstd::arithmetic::div_mod::lemma_fundamental_div_mod_converse(
            size + page - 1,
            page,
            q,
            page - 1,
        );
    } else {
        assert(size + page - 1 == (q + 1) * page + (r - 1)) by (nonlinear_arith)
            requires
                size == page * q + r,
        ;
        vstd::arithmetic::mul::lemma_mul_is_commutative(q + 1, page);
        vstd::arithmetic::div_mod::lemma_fundamental_div_mod_converse(
            size + page - 1,
            page,
            q + 1,
            r - 1,
        );
    }
}

/// Rounding up gives at least the size, less than a page more, and a multiple of the page.
pub proof fn lemma_rounded_up(size: int, page: int)
    requires
        size >= 0,
        page > 0,
    ensures
        size <= rounded_up(size, page) < size + page,
        rounded_up(size, page) % page == 0,
{
    let n = size + page - 1;
    vstd::arithmetic::div_mod::lemma_fundamental_div_mod(n, page);
    vstd::arithmetic::mul::lemma_mul_is_commutative(n / page, page);
    vstd::arithmetic::div_mod::lemma_mod_multiples_basic(n / page, page);
}

/// The mathematical content of a [`SecureBuffer`].
#[verifier::ext_equal]
pub struct BufferView {
    pub data: Seq<u8>,
    pub state: State,
    /// The inner region is locked into memory.
    pub locked: bool,
    /// The access that the guard pages allow.
    pub guards: Protection,
    pub page_size: nat,
    /// What the guard page in front of the inner region holds.
    pub pre_guard: Seq<u8>,
    /// What the guard page behind the inner region holds.
    pub post_guard: Seq<u8>,
    /// What the guard page in front was filled with.
    pub pre_canary: Seq<u8>,
    /// What the guard page behind was filled with.
    pub post_canary: Seq<u8>,
}

impl BufferView {
    /// The buffer, read-only.
    pub open spec fn frozen(self) -> BufferView {
        BufferView { state: State::Frozen, ..self }
    }

    /// The buffer, writable.
    pub open spec fn melted(self) -> BufferView {
        BufferView { state: State::Mutable, ..self }
    }

    /// The buffer, writable, with the bytes that were drawn, if they were.
    pub open spec fn scrambled(self, drawn: Option<Seq<u8>>) -> BufferView {
        match drawn {
            Some(data) => BufferView { data, ..self.melted() },
            None => self.melted(),
        }
    }

    /// The buffer, wiped and dead, its memory unlocked and accessible.
    pub open spec fn destroyed(self) -> BufferView {
        BufferView {
            data: secret::zeros(self.data.len()),
            state: State::Dead,
            locked: false,
            guards: Protection::ReadWrite,
            pre_guard: secret::zeros(self.pre_guard.len()),
            post_guard: secret::zeros(self.post_guard.len()),
            ..self
        }
    }

    /// Both guard pages still carry their canaries.
    pub open spec fn intact(self) -> bool {
        carries(self.pre_guard, self.pre_canary) && carries(self.post_guard, self.post_canary)
    }
}

/// A guarded buffer for secret material.
///
/// Layout: `[guard page][inner region][guard page]`. The inner region is locked
/// into memory. The guard pages are inaccessible and filled with canaries; when the
/// buffer is destroyed these are compared, and the memory is wiped.
pub struct SecureBuffer {
    region: Region,
    alloc_len: usize,
    inner_len: usize,
    pre_canary: Vec<u8>,
    post_canary: Vec<u8>,
    page_size: usize,
    state: State,
    mlocked: bool,
    guards: Protection,
}

/// A guard page is filled with `canary`, over and over.
pub open spec fn carries(guard: Seq<u8>, canary: Seq<u8>) -> bool {
    forall|i: int| 0 <= i < guard.len() ==> #[trigger] guard[i] == canary[i % (CANARY_LEN as int)]
}

fn filled_with(guard: &[u8], canary: &Vec<u8>) -> (r: bool)
    requires
        canary@.len() == CANARY_LEN,
    ensures
        r == carries(guard@, canary@),
{
    let mut i: usize = 0;
    while i < guard.len()
        invariant
            i <= guard@.len(),
            canary@.len() == CANARY_LEN,
            forall|k: int|
                0 <= k < i ==> #[trigger] guard@[k] == canary@[k % (CANARY_LEN as int)],
        decreases guard@.len() - i,
    {
        if guard[i] != canary[i % CANARY_LEN] {
            return false;
        }
        i += 1;
    }
    true
}

/// `region` is an allocation for a buffer of `size` bytes.
pub open spec fn suits(region: Region, size: int, page: int) -> bool {
    region@.len() == page + rounded_up(size, page) + page
}

/// The bytes of an allocation that hold the data.
pub open spec fn data_part(region: Region, size: int, page: int) -> Seq<u8> {
    region@.subrange(page, page + size)
}

/// The guard page in front.
pub open spec fn pre_part(region: Region, page: int) -> Seq<u8> {
    region@.subrange(0, page)
}

/// The guard page behind.
pub open spec fn post_part(region: Region, page: int) -> Seq<u8> {
    region@.subrange(region@.len() - page, region@.len() as int)
}

/// Why no buffer was made, if so: the first of the four calls that failed.
pub open spec fn assembly_error(
    alloc: Result<Region, MemError>,
    locked: Result<(), MemError>,
    pre_guard: Result<(), MemError>,
    post_guard: Result<(), MemError>,
) -> Option<ErrorView> {
    match (alloc, locked, pre_guard, post_guard) {
        (Err(e), _, _, _) => Some(ErrorView::Memory("SecureBuffer::new alloc: "@ + e.text())),
        (_, Err(e), _, _) => Some(ErrorView::Memory("SecureBuffer::new lock: "@ + e.text())),
        (_, _, Err(e), _) => Some(ErrorView::Memory("SecureBuffer::new guard: "@ + e.text())),
        (_, _, _, Err(e)) => Some(ErrorView::Memory("SecureBuffer::new guard: "@ + e.text())),
        _ => None,
    }
}

fn memory_error(what: &str, e: MemError) -> (r: Error)
    ensures
        r@ == ErrorView::Memory(what@ + e.text()),
{
    let text = e.message();
    Error::Memory(concat(what, text.as_str()))
}

/// Fill the guard pages of an allocation with the canaries.
pub fn place_canaries(
    region: &mut Region,
    size: usize,
    page: usize,
    pre_canary: &Vec<u8>,
    post_canary: &Vec<u8>,
)
    requires
        page > 0,
        page + rounded_up(size as int, page as int) + page <= usize::MAX,
        suits(*old(region), size as int, page as int),
        pre_canary@.len() == CANARY_LEN,
        post_canary@.len() == CANARY_LEN,
    ensures
        suits(*final(region), size as int, page as int),
        final(region).owned() == old(region).owned(),
        data_part(*final(region), size as int, page as int) == data_part(
            *old(region),
            size as int,
            page as int,
        ),
        carries(pre_part(*final(region), page as int), pre_canary@),
        carries(post_part(*final(region), page as int), post_canary@),
{
    proof {
        lemma_rounded_up(size as int, page as int);
    }
    let ghost before = region@;
    let bytes = region.as_mut_slice();
    let post_at: usize = bytes.len() - page;
    let mut i: usize = 0;
    while i < page
        invariant
            i <= page,
            page <= post_at,
            post_at + page == bytes@.len(),
            bytes@.len() == before.len(),
            pre_canary@.len() == CANARY_LEN,
            post_canary@.len() == CANARY_LEN,
            forall|k: int|
                0 <= k < i ==> #[trigger] bytes@[k] == pre_canary@[k % (CANARY_LEN as int)],
            forall|k: int|
                post_at <= k < post_at + i ==> #[trigger] bytes@[k] == post_canary@[(k - post_at)
                    % (CANARY_LEN as int)],
            forall|k: int| page <= k < post_at ==> #[trigger] bytes@[k] == before[k],
        decreases page - i,
    {
        bytes[i] = pre_canary[i % CANARY_LEN];
        bytes[post_at + i] = post_canary[i % CANARY_LEN];
        i += 1;
    }
    assert(data_part(*region, size as int, page as int) =~= before.subrange(
        page as int,
        page + size,
    ));
}

/// The canary to use: the drawn bytes, or `fallback` repeated where the
/// generator failed.
pub fn canary_from(drawn: Result<Vec<u8>, String>, fallback: u8) -> (r: Vec<u8>)
    ensures
        drawn matches Ok(v) ==> r@ == v@,
        drawn is Err ==> r@ == Seq::new(CANARY_LEN as nat, |i: int| fallback),
{
    match drawn {
        Ok(v) => v,
        Err(_) => {
            let v: Vec<u8> = vec![fallback; CANARY_LEN];
            assert(v@ =~= Seq::new(CANARY_LEN as nat, |i: int| fallback));
            v
        },
    }
}

/// Draw a canary from the operating system's generator.
pub fn random_canary(fallback: u8) -> (r: Vec<u8>)
    ensures
        r@.len() == CANARY_LEN,
{
    let mut bytes: Vec<u8> = vec![0u8; CANARY_LEN];
    let drawn: Result<Vec<u8>, String> = match os_random(bytes.as_mut_slice()) {
        Ok(()) => Ok(bytes),
        Err(e) => Err(e),
    };
    canary_from(drawn, fallback)
}

/// Why a buffer was not filled with random bytes: the generator failed with the
/// text `t`.
pub open spec fn scramble_error(t: Seq<char>) -> ErrorView {
    ErrorView::Memory("scramble OsRng: "@ + t)
}

/// What filling a buffer with random bytes comes to, given what the generator
/// returned.
pub fn scramble_result(drawn: Result<(), String>) -> (r: Result<(), Error>)
    ensures
        r is Ok <==> drawn is Ok,
        r matches Err(e) ==> e@ == scramble_error(drawn->Err_0@),
{
    match drawn {
        Ok(()) => Ok(()),
        Err(t) => Err(Error::Memory(concat("scramble OsRng: ", t.as_str()))),
    }
}

/// Draw `n` random bytes from the operating system's generator.
pub(crate) fn draw_bytes(n: usize) -> (r: Result<SecretBytes, String>)
    ensures
        r matches Ok(d) ==> d@.len() == n,
{
    let mut bytes = SecretBytes::new(vec![0u8; n]);
    match os_random(bytes.as_mut_slice()) {
        Ok(()) => Ok(bytes),
        Err(t) => Err(t),
    }
}

/// Copy `src` over `dest`.
pub fn copy_bytes(dest: &mut [u8], src: &[u8])
    requires
        old(dest)@.len() == src@.len(),
    ensures
        final(dest)@ == src@,
{
    let mut i: usize = 0;
    while i < src.len()
        invariant
            i <= src@.len(),
            dest@.len() == src@.len(),
            forall|k: int| 0 <= k < i ==> dest@[k] == src@[k],
        decreases src@.len() - i,
    {
        dest[i] = src[i];
        i += 1;
    }
    assert(dest@ =~= src@);
}

impl SecureBuffer {
    /// The content of the buffer.
    pub closed spec fn view(&self) -> BufferView {
        BufferView {
            data: data_part(self.region, self.inner_len as int, self.page_size as int),
            state: self.state,
            locked: self.mlocked,
            guards: self.guards,
            page_size: self.page_size as nat,
            pre_guard: pre_part(self.region, self.page_size as int),
            post_guard: post_part(self.region, self.page_size as int),
            pre_canary: self.pre_canary@,
            post_canary: self.post_canary@,
        }
    }

    /// The parts of the buffer fit together. While it is alive, its inner region
    /// is locked and its guard pages are inaccessible; the memory of a dead
    /// buffer is wiped.
    pub closed spec fn wf(&self) -> bool {
        let page = self.page_size as int;
        let size = self.inner_len as int;
        &&& page > 0
        &&& self.alloc_len == page + rounded_up(size, page) + page
        &&& suits(self.region, size, page)
        &&& self.pre_canary@.len() == CANARY_LEN
        &&& self.post_canary@.len() == CANARY_LEN
        &&& self.state != State::Dead ==> self.mlocked && self.guards == Protection::NoAccess
        &&& self.state == State::Dead ==> self.region@ == secret::zeros(self.region@.len())
    }

    /// Put a buffer together from what the memory primitives returned: the
    /// allocation, with the canaries in its guard pages, and the outcomes of
    /// locking the inner region and of making the two guard pages inaccessible.
    /// A buffer is made only where all of them succeeded.
    pub fn assemble(
        size: usize,
        page: usize,
        alloc: Result<Region, MemError>,
        pre_canary: Vec<u8>,
        post_canary: Vec<u8>,
        locked: Result<(), MemError>,
        pre_guard: Result<(), MemError>,
        post_guard: Result<(), MemError>,
    ) -> (r: Result<SecureBuffer, Error>)
        requires
            page > 0,
            page + rounded_up(size as int, page as int) + page <= usize::MAX,
            alloc matches Ok(region) ==> suits(region, size as int, page as int),
            pre_canary@.len() == CANARY_LEN,
            post_canary@.len() == CANARY_LEN,
        ensures
            r is Ok <==> alloc is Ok && locked is Ok && pre_guard is Ok && post_guard is Ok,
            r matches Ok(b) ==> b.wf() && b@.data.len() == size && b@ == (BufferView {
                data: data_part(alloc->Ok_0, size as int, page as int),
                state: State::Mutable,
                locked: true,
                guards: Protection::NoAccess,
                page_size: page as nat,
                pre_guard: pre_part(alloc->Ok_0, page as int),
                post_guard: post_part(alloc->Ok_0, page as int),
                pre_canary: pre_canary@,
                post_canary: post_canary@,
            }),
            r matches Err(e) ==> Some(e@) == assembly_error(alloc, locked, pre_guard, post_guard),
    {
        let region = match alloc {
            Ok(region) => region,
            Err(e) => {
                return Err(memory_error("SecureBuffer::new alloc: ", e));
            },
        };
        match locked {
            Ok(()) => {},
            Err(e) => {
                return Err(memory_error("SecureBuffer::new lock: ", e));
            },
        }
        match pre_guard {
            Ok(()) => {},
            Err(e) => {
                return Err(memory_error("SecureBuffer::new guard: ", e));
            },
        }
        match post_guard {
            Ok(()) => {},
            Err(e) => {
                return Err(memory_error("SecureBuffer::new guard: ", e));
            },
        }
        proof {
            lemma_rounded_up(size as int, page as int);
        }
        let layout = BufferLayout::plan(size, page).unwrap();
        Ok(
            SecureBuffer {
                region,
                alloc_len: layout.alloc_len,
                inner_len: size,
                pre_canary,
                post_canary,
                page_size: page,
                state: State::Mutable,
                mlocked: true,
                guards: Protection::NoAccess,
            },
        )
    }

    /// Allocate a new mutable buffer of zero bytes in portable memory.
    pub fn new(size: usize) -> (r: Result<SecureBuffer, Error>)
        ensures
            r is Ok <==> allocatable(size as int),
            size + 3 * 4096 <= isize::MAX ==> r is Ok,
            r matches Ok(b) ==> b@.data.len() == size && forall|i: int|
                0 <= i < size ==> b@.data[i] == 0,
            r matches Ok(b) ==> b.wf() && b@.state == State::Mutable && b@.locked && b@.guards
                == Protection::NoAccess && b@.page_size == 4096 && b@.data == secret::zeros(
                size as nat,
            ) && b@.intact(),
            r matches Err(e) ==> e@ == no_buffer(),
    {
        let page: usize = page_size();
        let layout = match BufferLayout::plan(size, page) {
            Some(layout) => layout,
            None => {
                let refused = MemError::Alloc(
                    "invalid parameters to Layout::from_size_align".to_owned(),
                );
                return Err(memory_error("SecureBuffer::new alloc: ", refused));
            },
        };
        proof {
            lemma_rounded_up(size as int, page as int);
        }
        let mut alloc = os_alloc(layout.alloc_len);
        let pre_canary = random_canary(0xab);
        let post_canary = random_canary(0xcd);
        let mut locked: Result<(), MemError> = Ok(());
        let mut pre_guard: Result<(), MemError> = Ok(());
        let mut post_guard: Result<(), MemError> = Ok(());
        match &mut alloc {
            Ok(region) => {
                place_canaries(region, size, page, &pre_canary, &post_canary);
                locked = os_lock(region, layout.inner_offset, layout.inner_rounded);
                pre_guard = os_protect(region, 0, page, Protection::NoAccess);
                post_guard = os_protect(
                    region,
                    layout.post_guard_offset,
                    page,
                    Protection::NoAccess,
                );
            },
            Err(_) => {},
        }
        let ghost zeroed = secret::zeros(layout.alloc_len as nat);
        assert(zeroed.subrange(page as int, page + size) =~= secret::zeros(size as nat));
        SecureBuffer::assemble(
            size,
            page,
            alloc,
            pre_canary,
            post_canary,
            locked,
            pre_guard,
            post_guard,
        )
    }

    /// How many bytes of data the buffer holds.
    pub fn size(&self) -> (r: usize)
        requires
            self.wf(),
        ensures
            r == self@.data.len(),
    {
        proof {
            lemma_rounded_up(self.inner_len as int, self.page_size as int);
        }
        self.inner_len
    }

    /// Whether the buffer still has its memory.
    pub fn is_alive(&self) -> (r: bool)
        ensures
            r == (self@.state != State::Dead),
    {
        self.state != State::Dead
    }

    /// Whether the buffer can be written.
    pub fn is_mutable(&self) -> (r: bool)
        ensures
            r == (self@.state == State::Mutable),
    {
        self.state == State::Mutable
    }

    /// Whether the inner region is locked into memory.
    pub fn is_locked(&self) -> (r: bool)
        ensures
            r == self@.locked,
    {
        self.mlocked
    }

    /// Offset and length of the inner region in the allocation, the range whose
    /// protection [`freeze_with`](Self::freeze_with) and
    /// [`melt_with`](Self::melt_with) are about.
    pub fn inner_range(&self) -> (r: (usize, usize))
        requires
            self.wf(),
        ensures
            r.0 == self@.page_size,
            r.1 == rounded_up(self@.data.len() as int, self@.page_size as int),
    {
        proof {
            lemma_rounded_up(self.inner_len as int, self.page_size as int);
        }
        (self.page_size, self.alloc_len - 2 * self.page_size)
    }

    /// The data, for writing.
    pub fn bytes(&mut self) -> (r: &mut [u8])
        requires
            old(self).wf(),
            old(self)@.state == State::Mutable,
        ensures
            r@ == old(self)@.data,
            final(r)@.len() == r@.len() ==> final(self).wf() && final(self)@ == (BufferView {
                data: final(r)@,
                ..old(self)@
            }),
    {
        proof {
            lemma_rounded_up(self.inner_len as int, self.page_size as int);
        }
        let base: usize = self.page_size;
        let len: usize = self.inner_len;
        proof {
            let whole = self.region@;
            assert forall|mid: Seq<u8>| mid.len() == len implies ({
                let after = #[trigger] super::memcall::spliced(whole, base as int, len as int, mid);
                &&& after.len() == whole.len()
                &&& after.subrange(base as int, base + len) == mid
                &&& forall|k: int| #![trigger after[k]]
                    (0 <= k < base || base + len <= k < whole.len()) ==> after[k] == whole[k]
            }) by {
                let after = super::memcall::spliced(whole, base as int, len as int, mid);
                assert(after.subrange(base as int, base + len) =~= mid);
            }
        }
        self.region.window(base, len)
    }

    /// The data, for reading.
    pub fn as_slice(&self) -> (r: &[u8])
        requires
            self.wf(),
            self@.state != State::Dead,
        ensures
            r@ == self@.data,
    {
        proof {
            lemma_rounded_up(self.inner_len as int, self.page_size as int);
        }
        slice_subrange(
            self.region.as_slice(),
            self.page_size,
            self.page_size + self.inner_len,
        )
    }

    /// Overwrite the data with `src`.
    pub fn fill(&mut self, src: &[u8])
        requires
            old(self).wf(),
            old(self)@.state == State::Mutable,
            old(self)@.data.len() == src@.len(),
        ensures
            final(self).wf(),
            final(self)@ == (BufferView { data: src@, ..old(self)@ }),
    {
        copy_bytes(self.bytes(), src);
    }

    /// Make the buffer read-only, given what protecting its inner region
    /// returned.
    pub fn freeze_with(&mut self, protected: Result<(), MemError>) -> (r: Result<(), Error>)
        requires
            old(self).wf(),
        ensures
            final(self).wf(),
            r is Ok <==> old(self)@.state != State::Dead && protected is Ok,
            r is Ok ==> final(self)@ == old(self)@.frozen(),
            r matches Err(e) ==> final(self)@ == old(self)@ && e@ == ErrorView::Memory(
                if old(self)@.state == State::Dead {
                    "SecureBuffer::freeze on dead buffer"@
                } else {
                    "freeze: "@ + protected->Err_0.text()
                },
            ),
    {
        if self.state == State::Dead {
            return Err(Error::Memory("SecureBuffer::freeze on dead buffer".to_owned()));
        }
        match protected {
            Ok(()) => {
                self.state = State::Frozen;
                Ok(())
            },
            Err(e) => {
                let text = e.message();
                Err(Error::Memory(concat("freeze: ", text.as_str())))
            },
        }
    }

    /// Make the buffer writable again, given what protecting its inner region
    /// returned.
    pub fn melt_with(&mut self, protected: Result<(), MemError>) -> (r: Result<(), Error>)
        requires
            old(self).wf(),
        ensures
            final(self).wf(),
            r is Ok <==> old(self)@.state != State::Dead && protected is Ok,
            r is Ok ==> final(self)@ == old(self)@.melted(),
            r matches Err(e) ==> final(self)@ == old(self)@ && e@ == ErrorView::Memory(
                if old(self)@.state == State::Dead {
                    "SecureBuffer::melt on dead buffer"@
                } else {
                    "melt: "@ + protected->Err_0.text()
                },
            ),
    {
        if self.state == State::Dead {
            return Err(Error::Memory("SecureBuffer::melt on dead buffer".to_owned()));
        }
        match protected {
            Ok(()) => {
                self.state = State::Mutable;
                Ok(())
            },
            Err(e) => {
                let text = e.message();
                Err(Error::Memory(concat("melt: ", text.as_str())))
            },
        }
    }

    /// Make the buffer read-only. Memory that the platform maps is protected by
    /// the platform, which reports through [`freeze_with`](Self::freeze_with).
    pub fn freeze(&mut self) -> (r: Result<(), Error>)
        requires
            old(self).wf(),
        ensures
            final(self).wf(),
            r is Ok <==> old(self)@.state != State::Dead,
            r is Ok ==> final(self)@ == old(self)@.frozen(),
            r matches Err(e) ==> final(self)@ == old(self)@ && e@ == ErrorView::Memory(
                "SecureBuffer::freeze on dead buffer"@,
            ),
    {
        let (offset, len) = self.inner_range();
        let protected = os_protect(&self.region, offset, len, Protection::ReadOnly);
        self.freeze_with(protected)
    }

    /// Make the buffer writable again.
    pub fn melt(&mut self) -> (r: Result<(), Error>)
        requires
            old(self).wf(),
        ensures
            final(self).wf(),
            r is Ok <==> old(self)@.state != State::Dead,
            r is Ok ==> final(self)@ == old(self)@.melted(),
            r matches Err(e) ==> final(self)@ == old(self)@ && e@ == ErrorView::Memory(
                "SecureBuffer::melt on dead buffer"@,
            ),
    {
        let (offset, len) = self.inner_range();
        let protected = os_protect(&self.region, offset, len, Protection::ReadWrite);
        self.melt_with(protected)
    }

    /// Fill the buffer with random bytes and leave it mutable.
    pub fn scramble(&mut self) -> (r: Result<(), Error>)
        requires
            old(self).wf(),
        ensures
            final(self).wf(),
            old(self)@.state == State::Dead ==> r is Err && final(self)@ == old(self)@
                && r->Err_0@ == ErrorView::Memory("SecureBuffer::melt on dead buffer"@),
            old(self)@.state != State::Dead ==> final(self)@.data.len() == old(self)@.data.len()
                && final(self)@ == (BufferView {
                data: final(self)@.data,
                state: State::Mutable,
                ..old(self)@
            }),
            old(self)@.state != State::Dead && r is Err ==> exists|t: Seq<char>|
                r->Err_0@ == #[trigger] scramble_error(t),
    {
        if self.state == State::Dead {
            return self.melt();
        }
        let drawn = draw_bytes(self.size());
        self.scramble_from(drawn)
    }

    /// Fill the buffer with the bytes that were drawn and leave it mutable. Where
    /// the draw failed, the data stay.
    pub fn scramble_from(&mut self, drawn: Result<SecretBytes, String>) -> (r: Result<(), Error>)
        requires
            old(self).wf(),
            drawn matches Ok(d) ==> d@.len() == old(self)@.data.len(),
        ensures
            final(self).wf(),
            old(self)@.state == State::Dead ==> r is Err && final(self)@ == old(self)@
                && r->Err_0@ == ErrorView::Memory("SecureBuffer::melt on dead buffer"@),
            old(self)@.state != State::Dead ==> {
                &&& r is Ok <==> drawn is Ok
                &&& final(self)@ == old(self)@.scrambled(
                    match drawn {
                        Ok(d) => Some(d@),
                        Err(_) => None,
                    },
                )
                &&& r matches Err(e) ==> e@ == scramble_error(drawn->Err_0@)
            },
    {
        if self.state != State::Mutable {
            match self.melt() {
                Ok(()) => {},
                Err(e) => {
                    return Err(e);
                },
            }
        }
        match drawn {
            Ok(bytes) => {
                self.fill(bytes.as_slice());
                scramble_result(Ok(()))
            },
            Err(t) => scramble_result(Err(t)),
        }
    }

    /// Set every byte of the data to zero.
    pub fn zeroize(&mut self)
        requires
            old(self).wf(),
            old(self)@.state == State::Mutable,
        ensures
            final(self).wf(),
            final(self)@ == (BufferView { data: secret::zeros(old(self)@.data.len()), ..old(self)@ }),
    {
        zeroize_slice(self.bytes());
    }

    /// Whether the guard pages still carry the canaries. The guard pages
    /// must be readable again.
    fn canaries_intact(&self) -> (r: bool)
        requires
            self.wf(),
        ensures
            r == self@.intact(),
    {
        proof {
            lemma_rounded_up(self.inner_len as int, self.page_size as int);
        }
        let whole = self.region.as_slice();
        let pre = slice_subrange(whole, 0, self.page_size);
        let post = slice_subrange(whole, self.alloc_len - self.page_size, self.alloc_len);
        filled_with(pre, &self.pre_canary) && filled_with(post, &self.post_canary)
    }

    /// Compare the canaries, wipe the memory and mark the buffer dead. The
    /// answer is whether both guard pages still carried their canaries; of a
    /// buffer that is dead already nothing is compared. Memory that the platform
    /// maps must be made accessible first, the guard pages included.
    pub fn destroy(&mut self) -> (intact: bool)
        requires
            old(self).wf(),
        ensures
            intact == (old(self)@.state == State::Dead || old(self)@.intact()),
            final(self).wf(),
            old(self)@.state == State::Dead ==> final(self)@ == old(self)@,
            old(self)@.state != State::Dead ==> final(self)@ == old(self)@.destroyed(),
    {
        if self.state == State::Dead {
            return true;
        }
        proof {
            lemma_rounded_up(self.inner_len as int, self.page_size as int);
        }
        let page: usize = self.page_size;
        let (offset, len) = self.inner_range();
        let _ = os_protect(&self.region, 0, page, Protection::ReadWrite);
        let _ = os_protect(&self.region, self.alloc_len - page, page, Protection::ReadWrite);
        let _ = os_protect(&self.region, offset, len, Protection::ReadWrite);
        let intact: bool = self.canaries_intact();
        self.region.wipe();
        if self.mlocked {
            let _ = os_unlock(&self.region, offset, len);
        }
        self.mlocked = false;
        self.guards = Protection::ReadWrite;
        self.state = State::Dead;
        assert(self@ =~= old(self)@.destroyed());
        intact
    }

    /// The memory of a destroyed buffer, to be given back to the platform.
    pub fn into_region(self) -> (r: Region)
        requires
            self.wf(),
            self@.state == State::Dead,
        ensures
            suits(r, self@.data.len() as int, self@.page_size as int),
            r@ == secret::zeros(r@.len()),
    {
        proof {
            lemma_rounded_up(self.inner_len as int, self.page_size as int);
        }
        self.region
    }

    /// Destroy the buffer and hand out its memory, all of it and wiped, to be
    /// given back. The answer beside it is whether the canaries were intact.
    pub fn dispose(self) -> (r: (bool, Region))
        requires
            self.wf(),
        ensures
            r.0 == (self@.state == State::Dead || self@.intact()),
            suits(r.1, self@.data.len() as int, self@.page_size as int),
            r.1@ == secret::zeros(r.1@.len()),
    {
        let mut gone = self;
        let intact: bool = gone.destroy();
        (intact, gone.into_region())
    }

    /// A description without the data.
    pub fn debug_text(&self) -> (r: String)
        requires
            self.wf(),
        ensures
            r@ == "SecureBuffer { inner_len: "@ + text::decimal_of(self@.data.len()) + ", state: "@
                + state_name(self@.state) + " }"@,
    {
        proof {
            lemma_rounded_up(self.inner_len as int, self.page_size as int);
        }
        let mut s = "SecureBuffer { inner_len: ".to_owned();
        let len = decimal(self.inner_len as u64);
        s.append(len.as_str());
        s.append(", state: ");
        match self.state {
            State::Mutable => s.append("Mutable"),
            State::Frozen => s.append("Frozen"),
            State::Dead => s.append("Dead"),
        }
        s.append(" }");
        s
    }
}

/// How a state is displayed.
pub open spec fn state_name(s: State) -> Seq<char> {
    match s {
        State::Mutable => "Mutable"@,
        State::Frozen => "Frozen"@,
        State::Dead => "Dead"@,
    }
}

/// The error for a size that no buffer can have.
pub open spec fn no_buffer() -> ErrorView {
    ErrorView::Memory(
        "SecureBuffer::new alloc: "@ + ("alloc: "@
            + "invalid parameters to Layout::from_size_align"@),
    )
}

/// A portable allocation for `size` bytes of data can be had.
pub open spec fn allocatable(size: int) -> bool {
    4096 + rounded_up(size, 4096) + 4096 <= isize::MAX
}

/// Freezing and melting change nothing but the access, and destroying leaves no
/// byte of the data.
pub proof fn law_states_keep_the_data(b: BufferView)
    ensures
        b.frozen().melted() == b.melted(),
        b.melted().frozen() == b.frozen(),
        b.frozen().data == b.data,
        b.melted().data == b.data,
        b.destroyed().data.len() == b.data.len(),
        forall|i: int| 0 <= i < b.data.len() ==> b.destroyed().data[i] == 0,
{
}

/// An overflow is noticed: where both guard pages carry their canaries, changing
/// any one byte of either is found when the buffer is destroyed.
pub proof fn law_overflow_is_noticed(b: BufferView, i: int, x: u8)
    requires
        b.intact(),
    ensures
        0 <= i < b.pre_guard.len() && x != b.pre_guard[i] ==> !(BufferView {
            pre_guard: b.pre_guard.update(i, x),
            ..b
        }).intact(),
        0 <= i < b.post_guard.len() && x != b.post_guard[i] ==> !(BufferView {
            post_guard: b.post_guard.update(i, x),
            ..b
        }).intact(),
{
    if 0 <= i < b.pre_guard.len() {
        assert(b.pre_guard.update(i, x)[i] == x);
    }
    if 0 <= i < b.post_guard.len() {
        assert(b.post_guard.update(i, x)[i] == x);
    }
}

/// A buffer can be had for every size that leaves room for three pages below the
/// longest allocation, and for none that leaves no room for the two guard pages.
pub proof fn law_every_size_can_be_had(size: int)
    requires
        size >= 0,
    ensures
        size + 3 * 4096 <= isize::MAX ==> allocatable(size),
        allocatable(size) ==> size + 2 * 4096 <= isize::MAX,
{
    lemma_rounded_up(size, 4096);
}

/// The layout of a buffer: guard pages of one page each around an inner region that
/// holds the data and is the least whole number of pages that does.
pub proof fn law_layout(layout: BufferLayout, size: int, page: int)
    requires
        size >= 0,
        page > 0,
        layout.describes(size, page),
    ensures
        layout.page_size == page,
        layout.inner_offset == page,
        layout.post_guard_offset == page + layout.inner_rounded,
        layout.alloc_len == layout.inner_rounded + 2 * page,
        size <= layout.inner_rounded < size + page,
        layout.inner_rounded as int % page == 0,
{
    lemma_rounded_up(size, page);
}

/// Freezing, melting, filling with drawn bytes and destroying, told by what they
/// change and what they leave.
pub proof fn law_states(b: BufferView, drawn: Seq<u8>)
    ensures
        b.frozen().state == State::Frozen,
        (BufferView { state: b.state, ..b.frozen() }) == b,
        b.melted().state == State::Mutable,
        (BufferView { state: b.state, ..b.melted() }) == b,
        b.scrambled(Some(drawn)).state == State::Mutable,
        b.scrambled(Some(drawn)).data == drawn,
        (BufferView { state: b.state, data: b.data, ..b.scrambled(Some(drawn)) }) == b,
        b.scrambled(None).data == b.data,
        b.scrambled(None).state == State::Mutable,
        b.destroyed().state == State::Dead,
        !b.destroyed().locked,
        b.destroyed().data.len() == b.data.len(),
        b.destroyed().pre_guard.len() == b.pre_guard.len(),
        b.destroyed().post_guard.len() == b.post_guard.len(),
        forall|i: int| 0 <= i < b.data.len() ==> b.destroyed().data[i] == 0,
        forall|i: int| 0 <= i < b.pre_guard.len() ==> b.destroyed().pre_guard[i] == 0,
        forall|i: int| 0 <= i < b.post_guard.len() ==> b.destroyed().post_guard[i] == 0,
{
}

/// Canaries are intact exactly where every byte of both guard pages is the byte of
/// the canary that belongs there.
pub proof fn law_intact(b: BufferView)
    ensures
        b.intact() <==> (forall|i: int|
            0 <= i < b.pre_guard.len() ==> #[trigger] b.pre_guard[i] == b.pre_canary[i % 32]) && (
        forall|i: int|
            0 <= i < b.post_guard.len() ==> #[trigger] b.post_guard[i] == b.post_canary[i % 32]),
{
}

/// The parts of an allocation: the front guard page, the data from the second page
/// on, and the last page.
pub proof fn law_parts(region: Region, size: int, page: int)
    requires
        size >= 0,
        page > 0,
        suits(region, size, page),
    ensures
        pre_part(region, page).len() == page,
        post_part(region, page).len() == page,
        data_part(region, size, page).len() == size,
        forall|i: int| 0 <= i < page ==> pre_part(region, page)[i] == #[trigger] region@[i],
        forall|i: int| 0 <= i < size ==> data_part(region, size, page)[i] == region@[page + i],
        forall|i: int|
            0 <= i < page ==> post_part(region, page)[i] == region@[region@.len() - page + i],
        region@.len() >= size + 2 * page,
{
    lemma_rounded_up(size, page);
}

/// Why a buffer was not made: the first call that failed, and its own text.
pub proof fn law_assembly_errors(
    alloc: Result<Region, MemError>,
    locked: Result<(), MemError>,
    pre_guard: Result<(), MemError>,
    post_guard: Result<(), MemError>,
)
    ensures
        assembly_error(alloc, locked, pre_guard, post_guard) is None <==> alloc is Ok && locked
            is Ok && pre_guard is Ok && post_guard is Ok,
        alloc matches Err(e) ==> assembly_error(alloc, locked, pre_guard, post_guard) == Some(
            ErrorView::Memory("SecureBuffer::new alloc: "@ + e.text()),
        ),
        alloc is Ok && locked is Err ==> assembly_error(alloc, locked, pre_guard, post_guard)
            == Some(ErrorView::Memory("SecureBuffer::new lock: "@ + locked->Err_0.text())),
{
}

/// A failed draw is reported with the generator's own text, whatever it is; a region
/// suits a buffer by its length alone.
pub proof fn law_draw_and_region(t: Seq<char>, region: Region, size: int, page: int)
    ensures
        scramble_error(t) == ErrorView::Memory("scramble OsRng: "@ + t),
        suits(region, size, page) <==> region@.len() == rounded_up(size, page) + 2 * page,
        no_buffer() == ErrorView::Memory(
            "SecureBuffer::new alloc: "@ + ("alloc: "@
                + "invalid parameters to Layout::from_size_align"@),
        ),
{
}

}
