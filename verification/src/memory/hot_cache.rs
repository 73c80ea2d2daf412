//! A small cache of recently decrypted secrets, least recently used first out.

use crate::secret::SecretBytes;
use std::collections::VecDeque;
use vstd::prelude::*;

verus! {

/// How many secrets the cache holds at most.
pub const HOT_CACHE_MAX: usize = 8;

struct HotEntry {
    id: u64,
    plaintext: SecretBytes,
}

/// Recently decrypted secrets by identifier. The front is the least recently
/// used. A secret that leaves the cache is wiped.
pub struct HotCache {
    entries: VecDeque<HotEntry>,
}

/// A cached secret and its identifier.
pub struct Cached {
    pub id: u64,
    pub plaintext: Seq<u8>,
}

/// The secret under `id`.
pub open spec fn lookup(s: Seq<Cached>, id: u64) -> Option<Seq<u8>>
    decreases s.len(),
{
    if s.len() == 0 {
        None
    } else if s.last().id == id {
        Some(s.last().plaintext)
    } else {
        lookup(s.drop_last(), id)
    }
}

/// The entries whose identifier is not `id`, in their order.
pub open spec fn without(s: Seq<Cached>, id: u64) -> Seq<Cached>
    decreases s.len(),
{
    if s.len() == 0 {
        s
    } else if s.last().id == id {
        without(s.drop_last(), id)
    } else {
        without(s.drop_last(), id).push(s.last())
    }
}

/// The entries after `plaintext` was cached under `id`: what was under `id`
/// goes, then, if the cache is full, what was used longest ago, and the new
/// entry is the most recent.
pub open spec fn inserted(s: Seq<Cached>, id: u64, plaintext: Seq<u8>) -> Seq<Cached> {
    let kept = without(s, id);
    let room = if kept.len() >= HOT_CACHE_MAX {
        kept.drop_first()
    } else {
        kept
    };
    room.push(Cached { id, plaintext })
}

/// The entries after a lookup of `id`: what was found is the most recent.
pub open spec fn promoted(s: Seq<Cached>, id: u64) -> Seq<Cached> {
    match lookup(s, id) {
        Some(plaintext) => without(s, id).push(Cached { id, plaintext }),
        None => s,
    }
}

/// No identifier occurs twice.
pub open spec fn distinct(s: Seq<Cached>) -> bool {
    forall|i: int, j: int| 0 <= i < j < s.len() ==> (#[trigger] s[i]).id != (#[trigger] s[j]).id
}

proof fn lemma_absent(s: Seq<Cached>, id: u64)
    requires
        forall|i: int| 0 <= i < s.len() ==> (#[trigger] s[i]).id != id,
    ensures
        without(s, id) == s,
        lookup(s, id) is None,
    decreases s.len(),
{
    if s.len() > 0 {
        lemma_absent(s.drop_last(), id);
        assert(s.drop_last().push(s.last()) =~= s);
    }
}

proof fn lemma_present(s: Seq<Cached>, pos: int, id: u64)
    requires
        distinct(s),
        0 <= pos < s.len(),
        s[pos].id == id,
    ensures
        without(s, id) == s.remove(pos),
        lookup(s, id) == Some(s[pos].plaintext),
    decreases s.len(),
{
    if pos == s.len() - 1 {
        lemma_absent(s.drop_last(), id);
        assert(s.drop_last() =~= s.remove(pos));
    } else {
        lemma_present(s.drop_last(), pos, id);
        assert(s.drop_last().remove(pos).push(s.last()) =~= s.remove(pos));
    }
}

/// Taking entries out keeps the others, in their order and distinct.
proof fn lemma_without(s: Seq<Cached>, id: u64)
    requires
        distinct(s),
    ensures
        distinct(without(s, id)),
        without(s, id).len() <= s.len(),
        forall|i: int| 0 <= i < without(s, id).len() ==> (#[trigger] without(s, id)[i]).id != id,
        forall|i: int|
            0 <= i < without(s, id).len() ==> s.contains(#[trigger] without(s, id)[i]),
        lookup(s, id) is None ==> without(s, id) == s,
        lookup(s, id) is Some ==> without(s, id).len() == s.len() - 1,
    decreases s.len(),
{
    if s.len() > 0 {
        let rest = s.drop_last();
        lemma_without(rest, id);
        assert forall|i: int| 0 <= i < without(rest, id).len() implies s.contains(
            #[trigger] without(rest, id)[i],
        ) && without(rest, id)[i].id != s.last().id by {
            let e = without(rest, id)[i];
            assert(rest.contains(e));
            let k = choose|k: int| 0 <= k < rest.len() && rest[k] == e;
            assert(s[k] == e);
            assert(s[k].id != s[s.len() - 1].id);
        }
        assert(s.contains(s.last()));
        if s.last().id == id {
            assert forall|i: int| 0 <= i < rest.len() implies (#[trigger] rest[i]).id != id by {
                assert(s[i].id != s[s.len() - 1].id);
            }
            lemma_absent(rest, id);
        } else {
            assert(rest.push(s.last()) =~= s);
        }
    }
}

impl View for HotCache {
    type V = Seq<Cached>;

    /// The entries, least recently used first.
    closed spec fn view(&self) -> Seq<Cached> {
        self.entries@.map_values(
            |e: HotEntry| Cached { id: e.id, plaintext: e.plaintext@ },
        )
    }
}

impl HotCache {
    /// The cache is within its capacity, and no identifier occurs twice.
    pub open spec fn wf(&self) -> bool {
        &&& self@.len() <= HOT_CACHE_MAX
        &&& distinct(self@)
    }

    /// An empty cache.
    pub fn new() -> (r: HotCache)
        ensures
            r@ == Seq::<Cached>::empty(),
            r.wf(),
    {
        let r = HotCache { entries: VecDeque::with_capacity(HOT_CACHE_MAX) };
        assert(r@ =~= Seq::<Cached>::empty());
        r
    }

    /// Where the entry for `id` is.
    fn position(&self, id: u64) -> (r: Option<usize>)
        ensures
            match r {
                Some(i) => i < self@.len() && self@[i as int].id == id,
                None => forall|i: int| 0 <= i < self@.len() ==> (#[trigger] self@[i]).id != id,
            },
    {
        let mut i: usize = 0;
        while i < self.entries.len()
            invariant
                i <= self.entries@.len(),
                self@.len() == self.entries@.len(),
                forall|k: int| 0 <= k < i ==> (#[trigger] self@[k]).id != id,
            decreases self.entries@.len() - i,
        {
            if self.entries[i].id == id {
                return Some(i);
            }
            i += 1;
        }
        None
    }

    /// Take the entry for `id` out.
    fn take(&mut self, id: u64) -> (r: Option<SecretBytes>)
        requires
            old(self).wf(),
        ensures
            final(self)@ == without(old(self)@, id),
            final(self).wf(),
            match lookup(old(self)@, id) {
                Some(p) => r is Some && r->0@ == p,
                None => r is None,
            },
    {
        proof {
            lemma_without(self@, id);
        }
        match self.position(id) {
            None => {
                proof {
                    lemma_absent(self@, id);
                }
                None
            },
            Some(pos) => {
                proof {
                    lemma_present(self@, pos as int, id);
                }
                let entry = self.entries.remove(pos);
                assert(self@ =~= old(self)@.remove(pos as int));
                match entry {
                    Some(entry) => Some(entry.plaintext),
                    None => None,
                }
            },
        }
    }

    /// Append an entry.
    fn put(&mut self, id: u64, plaintext: SecretBytes)
        ensures
            final(self)@ == old(self)@.push(Cached { id, plaintext: plaintext@ }),
    {
        self.entries.push_back(HotEntry { id, plaintext });
        assert(self@ =~= old(self)@.push(Cached { id, plaintext: plaintext@ }));
    }

    /// A copy of the secret under `id`, which becomes the most recently used.
    pub fn get(&mut self, id: u64) -> (r: Option<SecretBytes>)
        requires
            old(self).wf(),
        ensures
            match lookup(old(self)@, id) {
                Some(p) => r is Some && r->0@ == p,
                None => r is None,
            },
            final(self)@ == promoted(old(self)@, id),
            final(self).wf(),
    {
        proof {
            lemma_without(self@, id);
        }
        match self.take(id) {
            None => None,
            Some(plaintext) => {
                let copy = plaintext.duplicate();
                self.put(id, plaintext);
                Some(copy)
            },
        }
    }

    /// Cache `plaintext` under `id`, in place of what was there. A full cache
    /// drops what was used longest ago.
    pub fn insert(&mut self, id: u64, plaintext: SecretBytes)
        requires
            old(self).wf(),
        ensures
            final(self)@ == inserted(old(self)@, id, plaintext@),
            final(self).wf(),
    {
        proof {
            lemma_without(self@, id);
        }
        let _ = self.take(id);
        let ghost kept = self@;
        if self.entries.len() >= HOT_CACHE_MAX {
            let _ = self.entries.pop_front();
            assert(self@ =~= kept.drop_first());
        }
        self.put(id, plaintext);
    }

    /// Drop what is cached under `id`.
    pub fn evict(&mut self, id: u64)
        requires
            old(self).wf(),
        ensures
            final(self)@ == without(old(self)@, id),
            final(self).wf(),
    {
        let _ = self.take(id);
    }
}

proof fn lemma_lookup_without(s: Seq<Cached>, id: u64, other: u64)
    ensures
        lookup(without(s, id), other) == if other == id {
            None
        } else {
            lookup(s, other)
        },
    decreases s.len(),
{
    if s.len() > 0 {
        lemma_lookup_without(s.drop_last(), id, other);
        let w = without(s.drop_last(), id);
        assert(w.push(s.last()).drop_last() =~= w);
    }
}

proof fn lemma_lookup_drop_first(s: Seq<Cached>, other: u64)
    requires
        distinct(s),
        s.len() > 0,
    ensures
        lookup(s.drop_first(), other) == if s[0].id == other {
            None
        } else {
            lookup(s, other)
        },
    decreases s.len(),
{
    if s.len() > 1 {
        lemma_lookup_drop_first(s.drop_last(), other);
        assert(s.drop_first().drop_last() =~= s.drop_last().drop_first());
        assert(s.drop_first().last() == s.last());
        assert(s[0].id != s[s.len() - 1].id);
    } else {
        assert(s.drop_first().len() == 0);
        assert(lookup(s.drop_first(), other) is None);
        assert(lookup(s.drop_last(), other) is None);
    }
}

/// What was cached is found under its identifier.
pub proof fn law_get_after_insert(s: Seq<Cached>, id: u64, plaintext: Seq<u8>)
    ensures
        lookup(inserted(s, id, plaintext), id) == Some(plaintext),
{
}

/// Caching a secret takes away none of the others, but for the least recently
/// used one where the cache was full and the identifier new.
pub proof fn law_insert_keeps_others(s: Seq<Cached>, id: u64, plaintext: Seq<u8>, other: u64)
    requires
        distinct(s),
        s.len() <= HOT_CACHE_MAX,
        other != id,
    ensures
        lookup(inserted(s, id, plaintext), other) == if s.len() == HOT_CACHE_MAX && lookup(s, id)
            is None && s[0].id == other {
            None
        } else {
            lookup(s, other)
        },
{
    lemma_without(s, id);
    lemma_lookup_without(s, id, other);
    let kept = without(s, id);
    if kept.len() >= HOT_CACHE_MAX {
        lemma_lookup_drop_first(kept, other);
        let room = kept.drop_first();
        assert(room.push(Cached { id, plaintext }).drop_last() =~= room);
    } else {
        assert(kept.push(Cached { id, plaintext }).drop_last() =~= kept);
    }
}

/// What was evicted is gone, and nothing else is.
pub proof fn law_evict(s: Seq<Cached>, id: u64, other: u64)
    ensures
        lookup(without(s, id), other) == if other == id {
            None
        } else {
            lookup(s, other)
        },
{
    lemma_lookup_without(s, id, other);
}

/// A lookup changes what is found under no identifier.
pub proof fn law_get_keeps_all(s: Seq<Cached>, id: u64, other: u64)
    ensures
        lookup(promoted(s, id), other) == lookup(s, other),
{
    lemma_lookup_without(s, id, other);
    let w = without(s, id);
    if let Some(plaintext) = lookup(s, id) {
        assert(w.push(Cached { id, plaintext }).drop_last() =~= w);
    }
}

/// What is found under an identifier is what an entry holds under it, and nothing is
/// found exactly where no entry has it.
pub proof fn law_lookup(s: Seq<Cached>, id: u64, i: int)
    requires
        distinct(s),
    ensures
        0 <= i < s.len() && s[i].id == id ==> lookup(s, id) == Some(s[i].plaintext),
        (forall|k: int| 0 <= k < s.len() ==> (#[trigger] s[k]).id != id) ==> lookup(s, id) is None,
{
    if 0 <= i < s.len() && s[i].id == id {
        lemma_present(s, i, id);
    }
    if forall|k: int| 0 <= k < s.len() ==> (#[trigger] s[k]).id != id {
        lemma_absent(s, id);
    }
}

/// Caching under a new identifier: with fewer than eight entries it goes behind them;
/// with eight, the first of them, the least recently used, goes. No cache grows beyond
/// eight.
pub proof fn law_insert_new(s: Seq<Cached>, id: u64, plaintext: Seq<u8>)
    requires
        forall|k: int| 0 <= k < s.len() ==> (#[trigger] s[k]).id != id,
        s.len() <= 8,
    ensures
        s.len() < 8 ==> inserted(s, id, plaintext) == s.push(Cached { id, plaintext }),
        s.len() == 8 ==> inserted(s, id, plaintext) == s.subrange(1, 8).push(
            Cached { id, plaintext },
        ),
        inserted(s, id, plaintext).len() <= 8,
{
    lemma_absent(s, id);
    if s.len() == 8 {
        assert(s.drop_first() =~= s.subrange(1, 8));
    }
}

/// Caching under an identifier that is there replaces its entry, moves it to the end,
/// and keeps all others in their order.
pub proof fn law_insert_again(s: Seq<Cached>, pos: int, plaintext: Seq<u8>)
    requires
        distinct(s),
        s.len() <= 8,
        0 <= pos < s.len(),
    ensures
        inserted(s, s[pos].id, plaintext) == s.remove(pos).push(
            Cached { id: s[pos].id, plaintext },
        ),
{
    lemma_present(s, pos, s[pos].id);
}

/// A lookup moves what it finds to the end and keeps all others in their order; one
/// that finds nothing changes nothing.
pub proof fn law_get_promotes(s: Seq<Cached>, id: u64, pos: int)
    requires
        distinct(s),
    ensures
        0 <= pos < s.len() && s[pos].id == id ==> promoted(s, id) == s.remove(pos).push(s[pos]),
        (forall|k: int| 0 <= k < s.len() ==> (#[trigger] s[k]).id != id) ==> promoted(s, id) == s,
{
    if 0 <= pos < s.len() && s[pos].id == id {
        lemma_present(s, pos, id);
    }
    if forall|k: int| 0 <= k < s.len() ==> (#[trigger] s[k]).id != id {
        lemma_absent(s, id);
    }
}

/// Evicting takes out that entry and keeps all others in their order.
pub proof fn law_evict_keeps_order(s: Seq<Cached>, id: u64, pos: int)
    requires
        distinct(s),
    ensures
        0 <= pos < s.len() && s[pos].id == id ==> without(s, id) == s.remove(pos),
        (forall|k: int| 0 <= k < s.len() ==> (#[trigger] s[k]).id != id) ==> without(s, id) == s,
{
    if 0 <= pos < s.len() && s[pos].id == id {
        lemma_present(s, pos, id);
    }
    if forall|k: int| 0 <= k < s.len() ==> (#[trigger] s[k]).id != id {
        lemma_absent(s, id);
    }
}

}
