use vstd::prelude::*;
use crate::glyph::{GlyphPlacement, GpuCacheStatus};

verus! {

/// Identity of a rasterized glyph: font, glyph index, size and subpixel phase.
#[derive(Clone, Copy, Debug, PartialEq, Eq, Structural)]
pub struct GlyphKey {
    pub font: u64,
    pub glyph: u16,
    pub size_bits: u32,
    pub x_bin: u8,
    pub y_bin: u8,
}

/// A cached glyph: its placement and, for one in an atlas, the handle of its
/// packer allocation.
#[derive(Clone, Copy, Debug, PartialEq, Eq, Structural)]
pub struct GlyphEntry {
    pub key: GlyphKey,
    pub placement: GlyphPlacement,
    pub atlas_id: u64,
}

/// A table from glyph identity to placement, with the set of identities in
/// use this frame.
pub struct GlyphCache {
    pub entries: Vec<GlyphEntry>,
    pub in_use: Vec<GlyphKey>,
}

pub open spec fn find(s: Seq<GlyphEntry>, k: GlyphKey) -> Option<GlyphEntry>
    decreases s.len(),
{
    if s.len() == 0 {
        None
    } else if s.last().key == k {
        Some(s.last())
    } else {
        find(s.drop_last(), k)
    }
}

/// The entries whose key is in use, in order.
pub open spec fn kept(s: Seq<GlyphEntry>, u: Seq<GlyphKey>) -> Seq<GlyphEntry>
    decreases s.len(),
{
    if s.len() == 0 {
        s
    } else if u.contains(s.last().key) {
        kept(s.drop_last(), u).push(s.last())
    } else {
        kept(s.drop_last(), u)
    }
}

pub open spec fn holds_allocation(e: GlyphEntry) -> bool {
    e.placement.status != GpuCacheStatus::SkipRasterization
}

/// The allocation handles of the entries whose key is not in use, in order.
pub open spec fn freed_ids(s: Seq<GlyphEntry>, u: Seq<GlyphKey>) -> Seq<u64>
    decreases s.len(),
{
    if s.len() == 0 {
        Seq::empty()
    } else if !u.contains(s.last().key) && holds_allocation(s.last()) {
        freed_ids(s.drop_last(), u).push(s.last().atlas_id)
    } else {
        freed_ids(s.drop_last(), u)
    }
}

pub open spec fn keys_unique(s: Seq<GlyphEntry>) -> bool {
    forall|i: int, j: int| 0 <= i < j < s.len() ==> s[i].key != s[j].key
}

proof fn lemma_find_none(s: Seq<GlyphEntry>, k: GlyphKey)
    requires
        find(s, k) is None,
    ensures
        forall|i: int| 0 <= i < s.len() ==> s[i].key != k,
    decreases s.len(),
{
    if s.len() > 0 {
        lemma_find_none(s.drop_last(), k);
        assert forall|i: int| 0 <= i < s.len() implies s[i].key != k by {
            if i < s.len() - 1 {
                assert(s[i] == s.drop_last()[i]);
            }
        }
    }
}

proof fn lemma_find_kept(s: Seq<GlyphEntry>, u: Seq<GlyphKey>, k: GlyphKey)
    ensures
        find(kept(s, u), k) == (if u.contains(k) { find(s, k) } else { None }),
    decreases s.len(),
{
    if s.len() > 0 {
        lemma_find_kept(s.drop_last(), u, k);
        if u.contains(s.last().key) {
            assert(kept(s, u).drop_last() == kept(s.drop_last(), u));
        }
    }
}

proof fn lemma_kept_from(s: Seq<GlyphEntry>, u: Seq<GlyphKey>)
    ensures
        kept(s, u).len() <= s.len(),
        forall|j: int| 0 <= j < kept(s, u).len() ==> exists|i: int| 0 <= i < s.len()
            && s[i] == #[trigger] kept(s, u)[j],
    decreases s.len(),
{
    if s.len() > 0 {
        let t = s.drop_last();
        lemma_kept_from(t, u);
        assert forall|j: int| 0 <= j < kept(s, u).len() implies exists|i: int| 0 <= i < s.len()
            && s[i] == #[trigger] kept(s, u)[j] by {
            if j < kept(t, u).len() {
                let i = choose|i: int| 0 <= i < t.len() && t[i] == kept(t, u)[j];
                assert(s[i] == t[i]);
            } else {
                assert(s[s.len() - 1] == kept(s, u)[j]);
            }
        }
    }
}

proof fn lemma_kept_unique(s: Seq<GlyphEntry>, u: Seq<GlyphKey>)
    requires
        keys_unique(s),
    ensures
        keys_unique(kept(s, u)),
    decreases s.len(),
{
    if s.len() > 0 {
        let t = s.drop_last();
        assert(keys_unique(t)) by {
            assert forall|i: int, j: int| 0 <= i < j < t.len() implies t[i].key != t[j].key by {
                assert(t[i] == s[i] && t[j] == s[j]);
            }
        }
        lemma_kept_unique(t, u);
        lemma_kept_from(t, u);
        if u.contains(s.last().key) {
            let kt = kept(t, u);
            assert forall|i: int, j: int| 0 <= i < j < kept(s, u).len() implies kept(s, u)[i].key
                != kept(s, u)[j].key by {
                if j == kt.len() {
                    let m = choose|m: int| 0 <= m < t.len() && t[m] == #[trigger] kt[i];
                    assert(s[m] == t[m]);
                    assert(kept(s, u)[i] == kt[i]);
                } else {
                    assert(kept(s, u)[i] == kt[i] && kept(s, u)[j] == kt[j]);
                }
            }
        }
    }
}

/// No two entries that hold an allocation share its handle.
pub open spec fn ids_unique(s: Seq<GlyphEntry>) -> bool {
    forall|i: int, j: int| 0 <= i < s.len() && 0 <= j < s.len() && i != j && holds_allocation(
        #[trigger] s[i],
    ) && holds_allocation(#[trigger] s[j]) ==> s[i].atlas_id != s[j].atlas_id
}

proof fn lemma_freed_from(s: Seq<GlyphEntry>, u: Seq<GlyphKey>)
    ensures
        forall|m: int| 0 <= m < freed_ids(s, u).len() ==> exists|i: int| 0 <= i < s.len()
            && holds_allocation(s[i]) && s[i].atlas_id == #[trigger] freed_ids(s, u)[m],
    decreases s.len(),
{
    if s.len() > 0 {
        let t = s.drop_last();
        lemma_freed_from(t, u);
        assert forall|m: int| 0 <= m < freed_ids(s, u).len() implies exists|i: int| 0 <= i
            < s.len() && holds_allocation(s[i]) && s[i].atlas_id == #[trigger] freed_ids(s, u)[m] by {
            if m < freed_ids(t, u).len() {
                assert(freed_ids(s, u)[m] == freed_ids(t, u)[m]);
                let i = choose|i: int| 0 <= i < t.len() && holds_allocation(t[i]) && t[i].atlas_id
                    == freed_ids(t, u)[m];
                assert(s[i] == t[i]);
            } else {
                assert(s[s.len() - 1].atlas_id == freed_ids(s, u)[m]);
            }
        }
    }
}

/// The handles that eviction frees are held by no entry that it keeps.
proof fn lemma_freed_apart(s: Seq<GlyphEntry>, u: Seq<GlyphKey>)
    requires
        ids_unique(s),
    ensures
        forall|j: int, m: int| 0 <= j < kept(s, u).len() && 0 <= m < freed_ids(s, u).len()
            && holds_allocation(#[trigger] kept(s, u)[j]) ==> kept(s, u)[j].atlas_id
            != #[trigger] freed_ids(s, u)[m],
    decreases s.len(),
{
    if s.len() > 0 {
        let t = s.drop_last();
        assert(ids_unique(t)) by {
            assert forall|i: int, j: int| 0 <= i < t.len() && 0 <= j < t.len() && i != j
                && holds_allocation(#[trigger] t[i]) && holds_allocation(#[trigger] t[j]) implies
                t[i].atlas_id != t[j].atlas_id by {
                assert(t[i] == s[i] && t[j] == s[j]);
            }
        }
        lemma_freed_apart(t, u);
        lemma_freed_from(t, u);
        lemma_kept_from(t, u);
        let n = s.len() - 1;
        assert forall|j: int, m: int| 0 <= j < kept(s, u).len() && 0 <= m < freed_ids(s, u).len()
            && holds_allocation(#[trigger] kept(s, u)[j]) implies kept(s, u)[j].atlas_id
            != #[trigger] freed_ids(s, u)[m] by {
            if u.contains(s[n].key) {
                assert(freed_ids(s, u) == freed_ids(t, u));
                if j < kept(t, u).len() {
                    assert(kept(s, u)[j] == kept(t, u)[j]);
                } else {
                    assert(kept(s, u)[j] == s[n]);
                    let i = choose|i: int| 0 <= i < t.len() && holds_allocation(t[i])
                        && t[i].atlas_id == freed_ids(t, u)[m];
                    assert(s[i] == t[i]);
                }
            } else if holds_allocation(s[n]) {
                assert(kept(s, u) == kept(t, u));
                if m < freed_ids(t, u).len() {
                    assert(freed_ids(s, u)[m] == freed_ids(t, u)[m]);
                } else {
                    assert(freed_ids(s, u)[m] == s[n].atlas_id);
                    let i = choose|i: int| 0 <= i < t.len() && t[i] == kept(t, u)[j];
                    assert(s[i] == t[i]);
                }
            } else {
                assert(kept(s, u) == kept(t, u));
                assert(freed_ids(s, u) == freed_ids(t, u));
            }
        }
    }
}

impl GlyphCache {
    pub open spec fn wf(&self) -> bool {
        keys_unique(self.entries@)
    }

    pub open spec fn lookup(&self, k: GlyphKey) -> Option<GlyphEntry> {
        find(self.entries@, k)
    }

    pub open spec fn used(&self, k: GlyphKey) -> bool {
        self.in_use@.contains(k)
    }

    pub fn new() -> (r: GlyphCache)
        ensures
            r.wf(),
            r.entries@.len() == 0,
            forall|k: GlyphKey| r.lookup(k) is None && !r.used(k),
    {
        GlyphCache { entries: Vec::new(), in_use: Vec::new() }
    }

    /// The entry stored for `k`, if any.
    pub fn get(&self, k: GlyphKey) -> (r: Option<GlyphEntry>)
        ensures
            r == self.lookup(k),
    {
        let mut i: usize = self.entries.len();
        assert(self.entries@.subrange(0, i as int) =~= self.entries@);
        while i > 0
            invariant
                i <= self.entries@.len(),
                find(self.entries@, k) == find(self.entries@.subrange(0, i as int), k),
            decreases i,
        {
            let e = self.entries[i - 1];
            assert(self.entries@.subrange(0, i as int).drop_last()
                =~= self.entries@.subrange(0, i - 1));
            if e.key == k {
                return Some(e);
            }
            i = i - 1;
        }
        None
    }

    /// Whether `k` was marked in use since the set was last cleared.
    pub fn is_used(&self, k: GlyphKey) -> (r: bool)
        ensures
            r == self.used(k),
    {
        let mut i: usize = 0;
        while i < self.in_use.len()
            invariant
                i <= self.in_use@.len(),
                forall|j: int| 0 <= j < i ==> self.in_use@[j] != k,
            decreases self.in_use@.len() - i,
        {
            if self.in_use[i] == k {
                return true;
            }
            i = i + 1;
        }
        false
    }

    /// Records that `k` is drawn this frame, so that eviction keeps it.
    pub fn mark_in_use(&mut self, k: GlyphKey)
        ensures
            final(self).entries@ == old(self).entries@,
            forall|k2: GlyphKey| #[trigger] final(self).used(k2) == (old(self).used(k2) || k2 == k),
    {
        if !self.is_used(k) {
            self.in_use.push(k);
            assert forall|k2: GlyphKey| #[trigger] self.used(k2) == (old(self).used(k2) || k2 == k) by {
                if old(self).used(k2) {
                    let j = choose|j: int| 0 <= j < old(self).in_use@.len()
                        && old(self).in_use@[j] == k2;
                    assert(self.in_use@[j] == k2);
                }
                if self.used(k2) && k2 != k {
                    let j = choose|j: int| 0 <= j < self.in_use@.len() && self.in_use@[j] == k2;
                    assert(old(self).in_use@[j] == k2);
                }
                if k2 == k {
                    assert(self.in_use@[self.in_use@.len() - 1] == k);
                }
            }
        }
    }

    /// Forgets which glyphs were in use; done once a frame has been prepared.
    pub fn clear_in_use(&mut self)
        ensures
            final(self).entries@ == old(self).entries@,
            forall|k: GlyphKey| !final(self).used(k),
    {
        self.in_use.clear();
    }

    /// Returns the entry for `k`, storing `e` first when `k` is absent; a new
    /// entry is marked in use.
    pub fn get_or_insert(&mut self, e: GlyphEntry) -> (r: GlyphEntry)
        requires
            old(self).wf(),
        ensures
            final(self).wf(),
            old(self).lookup(e.key) matches Some(v) ==> r == v,
            old(self).lookup(e.key) is Some ==> final(self).entries@ == old(self).entries@,
            old(self).lookup(e.key) is None ==> r == e && final(self).used(e.key),
            old(self).lookup(e.key) is None ==> final(self).entries@ == old(self).entries@.push(e),
            final(self).lookup(e.key) == Some(r),
            forall|k: GlyphKey| k != e.key ==> final(self).lookup(k) == old(self).lookup(k),
            forall|k: GlyphKey| k != e.key ==> final(self).used(k) == old(self).used(k),
    {
        match self.get(e.key) {
            Some(v) => v,
            None => {
                proof {
                    lemma_find_none(self.entries@, e.key);
                }
                self.entries.push(e);
                assert(self.entries@.drop_last() =~= old(self).entries@);
                self.mark_in_use(e.key);
                e
            },
        }
    }

    /// Removes every entry whose key is not in use and returns the allocation
    /// handles those entries held, for the packer to free.
    pub fn evict_unused(&mut self) -> (freed: Vec<u64>)
        requires
            old(self).wf(),
        ensures
            final(self).wf(),
            final(self).in_use@ == old(self).in_use@,
            final(self).entries@ == kept(old(self).entries@, old(self).in_use@),
            freed@ == freed_ids(old(self).entries@, old(self).in_use@),
            ids_unique(old(self).entries@) ==> ids_unique(final(self).entries@),
            ids_unique(old(self).entries@) ==> forall|j: int, m: int| 0 <= j
                < final(self).entries@.len() && 0 <= m < freed@.len() && holds_allocation(
                #[trigger] final(self).entries@[j],
            ) ==> final(self).entries@[j].atlas_id != #[trigger] freed@[m],
            forall|j: int| 0 <= j < final(self).entries@.len() ==> exists|i: int| 0 <= i
                < old(self).entries@.len() && old(self).entries@[i]
                == #[trigger] final(self).entries@[j],
            forall|k: GlyphKey| #[trigger] final(self).lookup(k) == (if old(self).used(k) {
                old(self).lookup(k)
            } else {
                None
            }),
    {
        let ghost s = self.entries@;
        let ghost u = self.in_use@;
        let mut out: Vec<GlyphEntry> = Vec::new();
        let mut freed: Vec<u64> = Vec::new();
        let mut i: usize = 0;
        while i < self.entries.len()
            invariant
                s == self.entries@,
                u == self.in_use@,
                i <= s.len(),
                out@ == kept(s.subrange(0, i as int), u),
                freed@ == freed_ids(s.subrange(0, i as int), u),
            decreases s.len() - i,
        {
            let e = self.entries[i];
            assert(s.subrange(0, i + 1).drop_last() =~= s.subrange(0, i as int));
            if self.is_used(e.key) {
                out.push(e);
            } else {
                match e.placement.status {
                    GpuCacheStatus::InAtlas { .. } => {
                        freed.push(e.atlas_id);
                    },
                    GpuCacheStatus::SkipRasterization => {},
                }
            }
            i = i + 1;
        }
        assert(s.subrange(0, s.len() as int) =~= s);
        self.entries = out;
        proof {
            lemma_kept_unique(s, u);
            lemma_kept_from(s, u);
            if ids_unique(s) {
                lemma_freed_apart(s, u);
                let k = kept(s, u);
                assert forall|i: int, j: int| 0 <= i < k.len() && 0 <= j < k.len() && i != j
                    && holds_allocation(#[trigger] k[i]) && holds_allocation(#[trigger] k[j]) implies
                    k[i].atlas_id != k[j].atlas_id by {
                    let a = choose|a: int| 0 <= a < s.len() && s[a] == k[i];
                    let b = choose|b: int| 0 <= b < s.len() && s[b] == k[j];
                    assert(k[i].key != k[j].key);
                }
            }
            assert forall|k: GlyphKey| #[trigger] self.lookup(k) == (if u.contains(k) {
                find(s, k)
            } else {
                None
            }) by {
                lemma_find_kept(s, u, k);
            }
        }
        freed
    }
}

/// Asking twice for the same identity, with nothing evicted between, gives the
/// placement stored by the first call, and the second call stores nothing.
pub proof fn lemma_get_or_insert_twice(c0: GlyphCache, c1: GlyphCache, c2: GlyphCache,
    e1: GlyphEntry, e2: GlyphEntry, r1: GlyphEntry, r2: GlyphEntry)
    requires
        e1.key == e2.key,
        c0.lookup(e1.key) matches Some(v) ==> r1 == v,
        c0.lookup(e1.key) is None ==> r1 == e1,
        c1.lookup(e1.key) == Some(r1),
        c1.lookup(e2.key) matches Some(v) ==> r2 == v,
        c1.lookup(e2.key) is Some ==> c2.entries@ == c1.entries@,
    ensures
        r2 == r1,
        c2.entries@ == c1.entries@,
{
}

} // verus!
