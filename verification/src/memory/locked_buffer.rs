//! Shared guarded buffers, and the registry through which all of them can be
//! wiped at shutdown.

use super::memcall::Region;
use super::secure_buffer::{self, draw_bytes, BufferView, SecureBuffer, State};
use crate::error::Error;
use crate::secret::{self, SecretBytes};
use crate::text::{self, concat, decimal};
use vstd::prelude::*;

verus! {

struct Entry {
    id: usize,
    buf: SecureBuffer,
    /// The buffer is in the list of those to wipe at shutdown.
    registered: bool,
}

/// The shared buffers of a process.
pub struct Registry {
    entries: Vec<Entry>,
    next_id: usize,
}

/// One shared buffer.
#[verifier::ext_equal]
pub struct LockedView {
    pub buf: BufferView,
    pub registered: bool,
}

/// The mathematical content of a [`Registry`].
#[verifier::ext_equal]
pub struct RegistryView {
    /// The live buffers by identifier.
    pub bufs: Map<usize, LockedView>,
    /// The identifier of the next buffer.
    pub next_id: usize,
}

spec fn entry_view(e: Entry) -> LockedView {
    LockedView { buf: e.buf@, registered: e.registered }
}

spec fn listed(s: Seq<Entry>, id: usize) -> bool {
    exists|i: int| 0 <= i < s.len() && (#[trigger] s[i]).id == id
}

spec fn index_of(s: Seq<Entry>, id: usize) -> int {
    choose|i: int| 0 <= i < s.len() && (#[trigger] s[i]).id == id
}

spec fn distinct(s: Seq<Entry>) -> bool {
    forall|i: int, j: int| 0 <= i < j < s.len() ==> (#[trigger] s[i]).id != (#[trigger] s[j]).id
}

spec fn content(s: Seq<Entry>) -> Map<usize, LockedView> {
    Map::new(|id: usize| listed(s, id), |id: usize| entry_view(s[index_of(s, id)]))
}

proof fn lemma_content(s: Seq<Entry>, i: int)
    requires
        distinct(s),
        0 <= i < s.len(),
    ensures
        content(s).contains_key(s[i].id),
        content(s)[s[i].id] == entry_view(s[i]),
{
    assert(listed(s, s[i].id));
    let k = index_of(s, s[i].id);
    assert(k == i);
}

proof fn lemma_push(s: Seq<Entry>, e: Entry)
    requires
        distinct(s),
        !listed(s, e.id),
    ensures
        distinct(s.push(e)),
        content(s.push(e)) == content(s).insert(e.id, entry_view(e)),
{
    let t = s.push(e);
    assert forall|i: int, j: int| 0 <= i < j < t.len() implies (#[trigger] t[i]).id != (
    #[trigger] t[j]).id by {
        if j == s.len() {
            assert(s[i].id != e.id);
        }
    }
    assert forall|id: usize| content(t).contains_key(id) <==> content(s).insert(
        e.id,
        entry_view(e),
    ).contains_key(id) by {
        if listed(t, id) {
            let k = index_of(t, id);
            if k < s.len() {
                assert(s[k].id == id);
            }
        }
        if listed(s, id) {
            let k = index_of(s, id);
            assert(t[k].id == id);
        }
        assert(t[s.len() as int].id == e.id);
    }
    assert forall|id: usize| content(t).contains_key(id) implies content(t)[id] == content(
        s,
    ).insert(e.id, entry_view(e))[id] by {
        let k = index_of(t, id);
        lemma_content(t, k);
        if k < s.len() {
            lemma_content(s, k);
            assert(s[k].id == id);
        }
    }
    assert(content(t) =~= content(s).insert(e.id, entry_view(e)));
}

proof fn lemma_update(s: Seq<Entry>, i: int, e: Entry)
    requires
        distinct(s),
        0 <= i < s.len(),
        e.id == s[i].id,
    ensures
        distinct(s.update(i, e)),
        content(s.update(i, e)) == content(s).insert(e.id, entry_view(e)),
{
    let t = s.update(i, e);
    assert forall|j: int| 0 <= j < t.len() implies (#[trigger] t[j]).id == s[j].id by {}
    assert(distinct(t)) by {
        assert forall|a: int, b: int| 0 <= a < b < t.len() implies (#[trigger] t[a]).id != (
        #[trigger] t[b]).id by {
            assert(s[a].id != s[b].id);
        }
    }
    assert forall|id: usize| content(t).contains_key(id) <==> content(s).insert(
        e.id,
        entry_view(e),
    ).contains_key(id) by {
        if listed(t, id) {
            let k = index_of(t, id);
            assert(s[k].id == id);
        }
        if listed(s, id) {
            let k = index_of(s, id);
            assert(t[k].id == id);
        }
        assert(t[i].id == e.id);
    }
    assert forall|id: usize| content(t).contains_key(id) implies content(t)[id] == content(
        s,
    ).insert(e.id, entry_view(e))[id] by {
        let k = index_of(t, id);
        lemma_content(t, k);
        lemma_content(s, k);
        lemma_content(t, i);
        if id == e.id {
            assert(k == i);
        }
    }
    assert(content(t) =~= content(s).insert(e.id, entry_view(e)));
}

proof fn lemma_remove(s: Seq<Entry>, i: int)
    requires
        distinct(s),
        0 <= i < s.len(),
    ensures
        distinct(s.remove(i)),
        content(s.remove(i)) == content(s).remove(s[i].id),
{
    let t = s.remove(i);
    assert forall|j: int| 0 <= j < t.len() implies #[trigger] t[j] == s[if j < i {
        j
    } else {
        j + 1
    }] by {}
    assert forall|id: usize| content(t).contains_key(id) <==> content(s).remove(
        s[i].id,
    ).contains_key(id) by {
        if listed(t, id) {
            let k = index_of(t, id);
            let m = if k < i {
                k
            } else {
                k + 1
            };
            assert(s[m].id == id);
        }
        if listed(s, id) && id != s[i].id {
            let k = index_of(s, id);
            let m = if k < i {
                k
            } else {
                k - 1
            };
            assert(t[m].id == id);
        }
    }
    assert forall|id: usize| content(t).contains_key(id) implies content(t)[id] == content(
        s,
    ).remove(s[i].id)[id] by {
        let k = index_of(t, id);
        let m = if k < i {
            k
        } else {
            k + 1
        };
        lemma_content(t, k);
        lemma_content(s, m);
    }
    assert(content(t) =~= content(s).remove(s[i].id));
}

impl View for Registry {
    type V = RegistryView;

    closed spec fn view(&self) -> RegistryView {
        RegistryView { bufs: content(self.entries@), next_id: self.next_id }
    }
}

/// A buffer that has been wiped: writable, and all zero.
pub open spec fn wiped(b: BufferView) -> BufferView {
    BufferView { data: secret::zeros(b.data.len()), state: State::Mutable, ..b }
}

impl Registry {
    /// Every buffer is whole and alive, identifiers are unique and used up in
    /// order.
    pub closed spec fn wf(&self) -> bool {
        &&& distinct(self.entries@)
        &&& forall|i: int|
            0 <= i < self.entries@.len() ==> {
                &&& (#[trigger] self.entries@[i]).buf.wf()
                &&& self.entries@[i].buf@.state != State::Dead
                &&& self.entries@[i].id < self.next_id
            }
    }

    /// A registry without buffers.
    pub fn new() -> (r: Registry)
        ensures
            r.wf(),
            r@ == (RegistryView { bufs: Map::empty(), next_id: 1 }),
    {
        let r = Registry { entries: Vec::new(), next_id: 1 };
        assert(r@.bufs =~= Map::empty());
        r
    }

    fn locate(&self, id: usize) -> (r: usize)
        requires
            self.wf(),
            self@.bufs.contains_key(id),
        ensures
            r < self.entries@.len(),
            self.entries@[r as int].id == id,
            self@.bufs[id] == entry_view(self.entries@[r as int]),
    {
        let mut i: usize = 0;
        while i < self.entries.len()
            invariant
                i <= self.entries@.len(),
                distinct(self.entries@),
                listed(self.entries@, id),
                forall|k: int| 0 <= k < i ==> (#[trigger] self.entries@[k]).id != id,
            decreases self.entries@.len() - i,
        {
            if self.entries[i].id == id {
                proof {
                    lemma_content(self.entries@, i as int);
                }
                return i;
            }
            i += 1;
        }
        assert(!listed(self.entries@, id));
        i
    }
}

/// A handle to a shared buffer in a [`Registry`].
#[derive(Debug)]
pub struct LockedBuffer {
    pub id: usize,
}

impl LockedBuffer {
    /// The handle's buffer is in the registry.
    pub open spec fn live_in(&self, reg: RegistryView) -> bool {
        reg.bufs.contains_key(self.id)
    }

    /// Register `buf` under a new identifier.
    pub fn from_buffer(reg: &mut Registry, buf: SecureBuffer) -> (r: LockedBuffer)
        requires
            old(reg).wf(),
            old(reg)@.next_id < usize::MAX,
            buf.wf(),
            buf@.state != State::Dead,
        ensures
            final(reg).wf(),
            r.id == old(reg)@.next_id,
            !old(reg)@.bufs.contains_key(r.id),
            final(reg)@ == (RegistryView {
                bufs: old(reg)@.bufs.insert(r.id, LockedView { buf: buf@, registered: true }),
                next_id: (old(reg)@.next_id + 1) as usize,
            }),
    {
        let id: usize = reg.next_id;
        let entry = Entry { id, buf, registered: true };
        proof {
            lemma_push(reg.entries@, entry);
        }
        reg.entries.push(entry);
        reg.next_id = id + 1;
        LockedBuffer { id }
    }

    /// A new buffer of `size` zero bytes.
    pub fn new(reg: &mut Registry, size: usize) -> (r: Result<LockedBuffer, Error>)
        requires
            old(reg).wf(),
            old(reg)@.next_id < usize::MAX,
        ensures
            final(reg).wf(),
            r is Ok <==> secure_buffer::allocatable(size as int),
            size + 3 * 4096 <= isize::MAX ==> r is Ok,
            r matches Ok(b) ==> b.id == old(reg)@.next_id && added(
                old(reg)@,
                final(reg)@,
                secret::zeros(size as nat),
            ),
            r matches Err(e) ==> e@ == secure_buffer::no_buffer() && final(reg)@ == old(reg)@,
    {
        match SecureBuffer::new(size) {
            Ok(buf) => Ok(LockedBuffer::from_buffer(reg, buf)),
            Err(e) => Err(e),
        }
    }

    /// A new buffer of `size` random bytes.
    pub fn random(reg: &mut Registry, size: usize) -> (r: Result<LockedBuffer, Error>)
        requires
            old(reg).wf(),
            old(reg)@.next_id < usize::MAX,
        ensures
            final(reg).wf(),
            r is Ok ==> secure_buffer::allocatable(size as int),
            r matches Ok(b) ==> b.id == old(reg)@.next_id && exists|data: Seq<u8>|
                data.len() == size && #[trigger] added(old(reg)@, final(reg)@, data),
            r matches Err(e) ==> final(reg)@ == old(reg)@ && if secure_buffer::allocatable(
                size as int,
            ) {
                exists|t: Seq<char>| e@ == #[trigger] secure_buffer::scramble_error(t)
            } else {
                e@ == secure_buffer::no_buffer()
            },
    {
        match SecureBuffer::new(size) {
            Ok(buf) => LockedBuffer::random_in(reg, buf),
            Err(e) => Err(e),
        }
    }

    /// Fill `buf` with random bytes and register it.
    pub fn random_in(reg: &mut Registry, buf: SecureBuffer) -> (r: Result<LockedBuffer, Error>)
        requires
            old(reg).wf(),
            old(reg)@.next_id < usize::MAX,
            buf.wf(),
            buf@.state != State::Dead,
        ensures
            final(reg).wf(),
            r matches Ok(b) ==> b.id == old(reg)@.next_id && exists|data: Seq<u8>|
                data.len() == buf@.data.len() && #[trigger] added(old(reg)@, final(reg)@, data),
            r matches Err(e) ==> final(reg)@ == old(reg)@ && exists|t: Seq<char>|
                e@ == #[trigger] secure_buffer::scramble_error(t),
    {
        let drawn = draw_bytes(buf.size());
        LockedBuffer::random_from(reg, buf, drawn)
    }

    /// Fill `buf` with the bytes that were drawn and register it. Where the draw
    /// failed, nothing is registered.
    pub fn random_from(
        reg: &mut Registry,
        buf: SecureBuffer,
        drawn: Result<SecretBytes, String>,
    ) -> (r: Result<LockedBuffer, Error>)
        requires
            old(reg).wf(),
            old(reg)@.next_id < usize::MAX,
            buf.wf(),
            buf@.state != State::Dead,
            drawn matches Ok(d) ==> d@.len() == buf@.data.len(),
        ensures
            final(reg).wf(),
            r is Ok <==> drawn is Ok,
            r matches Ok(b) ==> b.id == old(reg)@.next_id && added(
                old(reg)@,
                final(reg)@,
                drawn->Ok_0@,
            ),
            r matches Err(e) ==> final(reg)@ == old(reg)@ && e@ == secure_buffer::scramble_error(
                drawn->Err_0@,
            ),
    {
        let mut buf = buf;
        match buf.scramble_from(drawn) {
            Ok(()) => Ok(LockedBuffer::from_buffer(reg, buf)),
            Err(e) => Err(e),
        }
    }

    /// A new buffer with a copy of `bytes`.
    pub fn from_bytes(reg: &mut Registry, bytes: &[u8]) -> (r: Result<LockedBuffer, Error>)
        requires
            old(reg).wf(),
            old(reg)@.next_id < usize::MAX,
        ensures
            final(reg).wf(),
            r is Ok <==> secure_buffer::allocatable(bytes@.len() as int),
            bytes@.len() + 3 * 4096 <= isize::MAX ==> r is Ok,
            r matches Ok(b) ==> b.id == old(reg)@.next_id && added(
                old(reg)@,
                final(reg)@,
                bytes@,
            ),
            r matches Err(e) ==> e@ == secure_buffer::no_buffer() && final(reg)@ == old(reg)@,
    {
        match SecureBuffer::new(bytes.len()) {
            Ok(buf) => Ok(LockedBuffer::from_bytes_in(reg, buf, bytes)),
            Err(e) => Err(e),
        }
    }

    /// Copy `bytes` into `buf` and register it.
    pub fn from_bytes_in(reg: &mut Registry, buf: SecureBuffer, bytes: &[u8]) -> (r: LockedBuffer)
        requires
            old(reg).wf(),
            old(reg)@.next_id < usize::MAX,
            buf.wf(),
            buf@.state == State::Mutable,
            buf@.data.len() == bytes@.len(),
        ensures
            final(reg).wf(),
            r.id == old(reg)@.next_id,
            added(old(reg)@, final(reg)@, bytes@),
    {
        let mut buf = buf;
        buf.fill(bytes);
        LockedBuffer::from_buffer(reg, buf)
    }

    /// Make the buffer read-only.
    pub fn freeze(&self, reg: &mut Registry) -> (r: Result<(), Error>)
        requires
            old(reg).wf(),
            self.live_in(old(reg)@),
        ensures
            final(reg).wf(),
            r is Ok,
            final(reg)@ == old(reg)@.with_buf(
                self.id,
                BufferView { state: State::Frozen, ..old(reg)@.bufs[self.id].buf },
            ),
    {
        let i: usize = reg.locate(self.id);
        let ghost before = reg.entries@;
        let entry = &mut reg.entries[i];
        let r = entry.buf.freeze();
        proof {
            lemma_update(before, i as int, reg.entries@[i as int]);
        }
        r
    }
}

impl LockedBuffer {
    /// Make the buffer writable again.
    pub fn melt(&self, reg: &mut Registry) -> (r: Result<(), Error>)
        requires
            old(reg).wf(),
            self.live_in(old(reg)@),
        ensures
            final(reg).wf(),
            r is Ok,
            final(reg)@ == old(reg)@.with_buf(
                self.id,
                BufferView { state: State::Mutable, ..old(reg)@.bufs[self.id].buf },
            ),
    {
        let i: usize = reg.locate(self.id);
        let ghost before = reg.entries@;
        let entry = &mut reg.entries[i];
        let r = entry.buf.melt();
        proof {
            lemma_update(before, i as int, reg.entries@[i as int]);
        }
        r
    }

    /// Fill the buffer with random bytes and leave it writable.
    pub fn scramble(&self, reg: &mut Registry) -> (r: Result<(), Error>)
        requires
            old(reg).wf(),
            self.live_in(old(reg)@),
        ensures
            final(reg).wf(),
            final(reg)@.bufs[self.id].buf.data.len() == old(reg)@.bufs[self.id].buf.data.len(),
            final(reg)@ == old(reg)@.with_buf(
                self.id,
                BufferView {
                    data: final(reg)@.bufs[self.id].buf.data,
                    state: State::Mutable,
                    ..old(reg)@.bufs[self.id].buf
                },
            ),
            r matches Err(e) ==> exists|t: Seq<char>|
                e@ == #[trigger] secure_buffer::scramble_error(t),
    {
        let drawn = draw_bytes(self.size(reg));
        self.scramble_from(reg, drawn)
    }

    /// Fill the buffer with the bytes that were drawn and leave it writable. Where
    /// the draw failed, the bytes stay.
    pub fn scramble_from(&self, reg: &mut Registry, drawn: Result<SecretBytes, String>) -> (r:
        Result<(), Error>)
        requires
            old(reg).wf(),
            self.live_in(old(reg)@),
            drawn matches Ok(d) ==> d@.len() == old(reg)@.bufs[self.id].buf.data.len(),
        ensures
            final(reg).wf(),
            r is Ok <==> drawn is Ok,
            final(reg)@ == old(reg)@.with_buf(
                self.id,
                old(reg)@.bufs[self.id].buf.scrambled(
                    match drawn {
                        Ok(d) => Some(d@),
                        Err(_) => None,
                    },
                ),
            ),
            r matches Err(e) ==> e@ == secure_buffer::scramble_error(drawn->Err_0@),
    {
        let i: usize = reg.locate(self.id);
        let ghost before = reg.entries@;
        let entry = &mut reg.entries[i];
        let r = entry.buf.scramble_from(drawn);
        proof {
            lemma_update(before, i as int, reg.entries@[i as int]);
        }
        r
    }

    /// Set every byte to zero and leave the buffer writable.
    pub fn wipe(&self, reg: &mut Registry)
        requires
            old(reg).wf(),
            self.live_in(old(reg)@),
        ensures
            final(reg).wf(),
            final(reg)@ == old(reg)@.with_buf(self.id, wiped(old(reg)@.bufs[self.id].buf)),
    {
        let i: usize = reg.locate(self.id);
        let ghost before = reg.entries@;
        let entry = &mut reg.entries[i];
        let _ = entry.buf.melt();
        if entry.buf.is_alive() {
            entry.buf.zeroize();
        }
        proof {
            lemma_update(before, i as int, reg.entries@[i as int]);
        }
    }

    /// A copy of the bytes, wiped when dropped.
    pub fn bytes_zeroizing(&self, reg: &Registry) -> (r: SecretBytes)
        requires
            reg.wf(),
            self.live_in(reg@),
        ensures
            r@ == reg@.bufs[self.id].buf.data,
    {
        let i: usize = reg.locate(self.id);
        SecretBytes::copy_of(reg.entries[i].buf.as_slice())
    }

    /// How many bytes the buffer holds.
    pub fn size(&self, reg: &Registry) -> (r: usize)
        requires
            reg.wf(),
            self.live_in(reg@),
        ensures
            r == reg@.bufs[self.id].buf.data.len(),
    {
        let i: usize = reg.locate(self.id);
        reg.entries[i].buf.size()
    }

    /// Give the buffer up: it is wiped, and the registry forgets it. Its memory is
    /// handed out, all of it and wiped, together with whether its canaries were
    /// intact.
    pub fn release(self, reg: &mut Registry) -> (r: (bool, Region))
        requires
            old(reg).wf(),
            self.live_in(old(reg)@),
        ensures
            final(reg).wf(),
            final(reg)@ == (RegistryView {
                bufs: old(reg)@.bufs.remove(self.id),
                ..old(reg)@
            }),
            r.0 == old(reg)@.bufs[self.id].buf.intact(),
            secure_buffer::suits(
                r.1,
                old(reg)@.bufs[self.id].buf.data.len() as int,
                old(reg)@.bufs[self.id].buf.page_size as int,
            ),
            r.1@ == secret::zeros(r.1@.len()),
    {
        self.wipe(reg);
        let i: usize = reg.locate(self.id);
        proof {
            lemma_remove(reg.entries@, i as int);
            assert(reg@.bufs.remove(self.id) =~= old(reg)@.bufs.remove(self.id));
        }
        let entry = reg.entries.remove(i);
        entry.buf.dispose()
    }

    /// A description without the bytes.
    pub fn debug_text(&self) -> (r: String)
        ensures
            r@ == "LockedBuffer { id: "@ + text::decimal_of(self.id as nat) + " }"@,
    {
        let id = decimal(self.id as u64);
        let head = concat("LockedBuffer { id: ", id.as_str());
        concat(head.as_str(), " }")
    }
}

/// What the shutdown wipe makes of one buffer.
pub open spec fn shut(b: LockedView) -> LockedView {
    LockedView { buf: wiped(b.buf), ..b }
}

/// One buffer after it was taken out of the list.
pub open spec fn unlisted(b: LockedView) -> LockedView {
    LockedView { registered: false, ..b }
}

proof fn lemma_mapped(s: Seq<Entry>, t: Seq<Entry>, f: spec_fn(LockedView) -> LockedView)
    requires
        distinct(s),
        s.len() == t.len(),
        forall|i: int|
            0 <= i < s.len() ==> (#[trigger] t[i]).id == s[i].id && entry_view(t[i]) == f(
                entry_view(s[i]),
            ),
    ensures
        distinct(t),
        content(t) == content(s).map_values(f),
{
    assert(distinct(t)) by {
        assert forall|a: int, b: int| 0 <= a < b < t.len() implies (#[trigger] t[a]).id != (
        #[trigger] t[b]).id by {
            assert(s[a].id != s[b].id);
        }
    }
    assert forall|id: usize| content(t).contains_key(id) <==> content(s).contains_key(id) by {
        if listed(t, id) {
            let k = index_of(t, id);
            assert(s[k].id == id);
        }
        if listed(s, id) {
            let k = index_of(s, id);
            assert(t[k].id == id);
        }
    }
    assert forall|id: usize| content(t).contains_key(id) implies content(t)[id] == f(
        content(s)[id],
    ) by {
        let k = index_of(t, id);
        lemma_content(t, k);
        lemma_content(s, k);
    }
    assert(content(t) =~= content(s).map_values(f));
}

/// Zeroize all live buffers, those included that were taken out of the list.
pub fn zeroize_all_registered(reg: &mut Registry)
    requires
        old(reg).wf(),
    ensures
        final(reg).wf(),
        final(reg)@ == (RegistryView {
            bufs: old(reg)@.bufs.map_values(|b: LockedView| shut(b)),
            ..old(reg)@
        }),
{
    let ghost before = reg.entries@;
    let mut i: usize = 0;
    while i < reg.entries.len()
        invariant
            i <= reg.entries@.len(),
            reg.wf(),
            reg.next_id == old(reg).next_id,
            distinct(before),
            before.len() == reg.entries@.len(),
            forall|k: int|
                0 <= k < i ==> (#[trigger] reg.entries@[k]).id == before[k].id && entry_view(
                    reg.entries@[k],
                ) == shut(entry_view(before[k])),
            forall|k: int| i <= k < before.len() ==> #[trigger] reg.entries@[k] == before[k],
        decreases reg.entries@.len() - i,
    {
        let ghost now = reg.entries@;
        let entry = &mut reg.entries[i];
        let _ = entry.buf.melt();
        if entry.buf.is_alive() {
            entry.buf.zeroize();
        }
        proof {
            lemma_update(now, i as int, reg.entries@[i as int]);
            assert(reg.entries@ =~= now.update(i as int, reg.entries@[i as int]));
        }
        i += 1;
    }
    proof {
        lemma_mapped(before, reg.entries@, |b: LockedView| shut(b));
    }
}

/// Zeroize all live buffers and take them out of the list. Call at shutdown. A
/// handle stays usable, and a later call wipes its buffer again.
pub fn zeroize_all(reg: &mut Registry)
    requires
        old(reg).wf(),
    ensures
        final(reg).wf(),
        final(reg)@ == (RegistryView {
            bufs: old(reg)@.bufs.map_values(|b: LockedView| unlisted(shut(b))),
            ..old(reg)@
        }),
{
    zeroize_all_registered(reg);
    let ghost before = reg.entries@;
    let mut i: usize = 0;
    while i < reg.entries.len()
        invariant
            i <= reg.entries@.len(),
            reg.wf(),
            reg.next_id == old(reg).next_id,
            distinct(before),
            before.len() == reg.entries@.len(),
            forall|k: int|
                0 <= k < i ==> (#[trigger] reg.entries@[k]).id == before[k].id && entry_view(
                    reg.entries@[k],
                ) == unlisted(entry_view(before[k])),
            forall|k: int| i <= k < before.len() ==> #[trigger] reg.entries@[k] == before[k],
        decreases reg.entries@.len() - i,
    {
        let ghost now = reg.entries@;
        let entry = &mut reg.entries[i];
        entry.registered = false;
        proof {
            lemma_update(now, i as int, reg.entries@[i as int]);
            assert(reg.entries@ =~= now.update(i as int, reg.entries@[i as int]));
        }
        i += 1;
    }
    proof {
        lemma_mapped(before, reg.entries@, |b: LockedView| unlisted(b));
        assert(reg@.bufs =~= old(reg)@.bufs.map_values(|b: LockedView| unlisted(shut(b))));
    }
}

impl RegistryView {
    /// The registry with the content of one buffer replaced.
    pub open spec fn with_buf(self, id: usize, buf: BufferView) -> RegistryView {
        RegistryView { bufs: self.bufs.insert(id, LockedView { buf, ..self.bufs[id] }), ..self }
    }
}

/// `after` is `before` with one more buffer: registered, writable, holding
/// `data`.
pub open spec fn added(before: RegistryView, after: RegistryView, data: Seq<u8>) -> bool {
    let id = before.next_id;
    &&& after.next_id == id + 1
    &&& !before.bufs.contains_key(id)
    &&& after.bufs.contains_key(id)
    &&& after.bufs[id].registered
    &&& after.bufs[id].buf.data == data
    &&& after.bufs[id].buf.state == State::Mutable
    &&& after.bufs == before.bufs.insert(id, after.bufs[id])
}

/// After the shutdown wipe every live buffer holds nothing but zeros, as many as
/// it had bytes, and none is listed any more. This holds of every call, also for
/// buffers that were filled again after an earlier one.
pub proof fn law_shutdown_wipes_all(reg: RegistryView, id: usize)
    requires
        reg.bufs.contains_key(id),
    ensures
        ({
            let wiped = reg.bufs.map_values(|b: LockedView| shut(b));
            let after = reg.bufs.map_values(|b: LockedView| unlisted(shut(b)));
            &&& wiped.contains_key(id)
            &&& wiped[id].buf.data == secret::zeros(reg.bufs[id].buf.data.len())
            &&& after.contains_key(id)
            &&& after[id].buf.data == secret::zeros(reg.bufs[id].buf.data.len())
            &&& !after[id].registered
        }),
{
}

/// A new buffer reads back as what it was made from, and making it changes no
/// other buffer.
pub proof fn law_new_buffer_reads_back(
    before: RegistryView,
    after: RegistryView,
    data: Seq<u8>,
    other: usize,
)
    requires
        added(before, after, data),
    ensures
        after.bufs[before.next_id].buf.data == data,
        before.bufs.contains_key(other) ==> after.bufs.contains_key(other) && after.bufs[other]
            == before.bufs[other],
{
}

/// Making a buffer adds exactly one, under the next identifier: listed, writable,
/// with the given data; the identifiers go up by one.
pub proof fn law_making_a_buffer(
    before: RegistryView,
    after: RegistryView,
    data: Seq<u8>,
    id: usize,
)
    requires
        added(before, after, data),
    ensures
        after.next_id == before.next_id + 1,
        !before.bufs.contains_key(before.next_id),
        after.bufs.contains_key(id) <==> before.bufs.contains_key(id) || id == before.next_id,
        after.bufs[before.next_id].registered,
        after.bufs[before.next_id].buf.state == State::Mutable,
        after.bufs[before.next_id].buf.data == data,
        before.bufs.contains_key(id) ==> after.bufs[id] == before.bufs[id],
{
}

/// Changing one buffer changes no other, no identifier, and not what is listed.
pub proof fn law_changing_a_buffer(reg: RegistryView, id: usize, buf: BufferView, other: usize)
    requires
        reg.bufs.contains_key(id),
    ensures
        reg.with_buf(id, buf).bufs[id].buf == buf,
        reg.with_buf(id, buf).bufs[id].registered == reg.bufs[id].registered,
        reg.with_buf(id, buf).next_id == reg.next_id,
        reg.with_buf(id, buf).bufs.contains_key(other) <==> reg.bufs.contains_key(other),
        other != id ==> reg.with_buf(id, buf).bufs[other] == reg.bufs[other],
{
}

/// Wiping a buffer zeroes every byte, keeps how many there are, leaves it writable,
/// and touches neither its guard pages nor its canaries.
pub proof fn law_wiping_a_buffer(b: BufferView)
    ensures
        wiped(b).data.len() == b.data.len(),
        forall|i: int| 0 <= i < b.data.len() ==> wiped(b).data[i] == 0,
        wiped(b).state == State::Mutable,
        (BufferView { data: b.data, state: b.state, ..wiped(b) }) == b,
{
}

/// The shutdown wipe zeroes every byte of every live buffer, loses none, and empties
/// the list.
pub proof fn law_shutdown(reg: RegistryView, id: usize, i: int)
    requires
        reg.bufs.contains_key(id),
        0 <= i < reg.bufs[id].buf.data.len(),
    ensures
        ({
            let wiped = reg.bufs.map_values(|b: LockedView| shut(b));
            let after = reg.bufs.map_values(|b: LockedView| unlisted(shut(b)));
            &&& wiped[id].buf.data.len() == reg.bufs[id].buf.data.len()
            &&& wiped[id].buf.data[i] == 0
            &&& wiped[id].registered == reg.bufs[id].registered
            &&& after[id].buf.data.len() == reg.bufs[id].buf.data.len()
            &&& after[id].buf.data[i] == 0
            &&& !after[id].registered
        }),
{
}

/// A handle is live exactly while the registry has a buffer under its identifier.
pub proof fn law_live_handles(handle: LockedBuffer, reg: RegistryView)
    ensures
        handle.live_in(reg) <==> reg.bufs.contains_key(handle.id),
{
}

}
