use vstd::prelude::*;
use crate::ContentType;
use crate::cache::{GlyphCache, GlyphEntry, GlyphKey, holds_allocation, ids_unique};
use crate::glyph::{GlyphPlacement, GpuCacheStatus, RasterKind, classify};
use crate::packer::{Allocation, MAX_SIDE, Packer};

verus! {

/// Progress of one glyph's search for room in an atlas.
#[derive(Clone, Copy, Debug, PartialEq, Eq, Structural)]
pub struct AllocState {
    /// An eviction pass has already run for this glyph.
    pub evicted: bool,
    /// Current side length of the atlas texture.
    pub size: u32,
    /// Largest side length the device supports.
    pub max_size: u32,
}

/// Outcome of the last allocation attempt.
#[derive(Clone, Copy, Debug, PartialEq, Eq, Structural)]
pub enum AllocEvent {
    Allocated { x: u16, y: u16 },
    Failed,
}

/// What the caller does next.
#[derive(Clone, Copy, Debug, PartialEq, Eq, Structural)]
pub enum AllocAction {
    /// Write the bitmap at this position and cache the placement.
    Store { x: u16, y: u16 },
    /// Evict every glyph not in use this frame, then retry.
    Evict,
    /// Recreate the texture at this side length, then retry.
    Grow { size: u32 },
    /// No room even at the largest size: the prepare call fails.
    AtlasFull,
}

pub open spec fn alloc_state_ok(s: AllocState) -> bool {
    1 <= s.size <= s.max_size
}

/// The side length after one growth step: doubled, capped at the maximum.
pub open spec fn grown(s: AllocState) -> int {
    if 2 * s.size > s.max_size { s.max_size as int } else { 2 * s.size }
}

pub open spec fn after_evict(s: AllocState) -> AllocState {
    AllocState { evicted: true, size: s.size, max_size: s.max_size }
}

pub open spec fn after_grow(s: AllocState) -> AllocState {
    AllocState { evicted: s.evicted, size: grown(s) as u32, max_size: s.max_size }
}

pub open spec fn failed_evicted(s: AllocState, ev: AllocEvent) -> bool {
    ev == AllocEvent::Failed && s.evicted
}

/// One decision of the allocate, evict, grow loop.
pub fn alloc_step(s: AllocState, ev: AllocEvent) -> (r: (AllocState, AllocAction))
    requires
        alloc_state_ok(s),
    ensures
        alloc_state_ok(r.0),
        r.0.max_size == s.max_size,
        ev matches AllocEvent::Allocated { x, y } ==> r.0 == s && r.1 == (AllocAction::Store { x, y }),
        ev == AllocEvent::Failed && !s.evicted ==> r.0 == after_evict(s) && r.1 == AllocAction::Evict,
        failed_evicted(s, ev) && s.size < s.max_size ==> r.0 == after_grow(s) && r.0.size > s.size,
        failed_evicted(s, ev) && s.size < s.max_size ==> r.1 == (AllocAction::Grow { size: r.0.size }),
        r.1 == AllocAction::AtlasFull <==> (failed_evicted(s, ev) && s.size == s.max_size),
{
    match ev {
        AllocEvent::Allocated { x, y } => (s, AllocAction::Store { x, y }),
        AllocEvent::Failed => {
            if !s.evicted {
                (AllocState { evicted: true, ..s }, AllocAction::Evict)
            } else if s.size < s.max_size {
                let size = if s.size > s.max_size / 2 { s.max_size } else { 2 * s.size };
                (AllocState { size, ..s }, AllocAction::Grow { size })
            } else {
                (s, AllocAction::AtlasFull)
            }
        },
    }
}

/// One atlas texture: its packer, its glyph cache, the content type it
/// holds, and the largest side length the device allows.
pub struct AtlasInstance {
    pub packer: Packer,
    pub cache: GlyphCache,
    pub kind: ContentType,
    pub max_size: u32,
}

/// A cached entry of an atlas holding `kind` lies inside a texture of the
/// given size and names that content type.
pub open spec fn entry_fits(e: GlyphEntry, kind: ContentType, width: int, height: int) -> bool {
    match e.placement.status {
        GpuCacheStatus::InAtlas { x, y, content_type } => content_type == kind && x
            + e.placement.width <= width && y + e.placement.height <= height,
        GpuCacheStatus::SkipRasterization => true,
    }
}

/// A cached entry in an atlas is backed by a live allocation of the packer
/// with its handle and its rectangle.
pub open spec fn entry_held(e: GlyphEntry, p: Packer) -> bool {
    match e.placement.status {
        GpuCacheStatus::InAtlas { x, y, .. } => exists|a: Allocation| #[trigger] p.holds(a) && a.id
            == e.atlas_id && a.x == x && a.y == y && a.width == e.placement.width && a.height
            == e.placement.height,
        GpuCacheStatus::SkipRasterization => true,
    }
}

proof fn lemma_held_transfer(s: Seq<GlyphEntry>, p0: Packer, p1: Packer)
    requires
        forall|i: int| 0 <= i < s.len() ==> entry_held(#[trigger] s[i], p0),
        forall|b: Allocation| #[trigger] p0.holds(b) ==> p1.holds(b),
    ensures
        forall|i: int| 0 <= i < s.len() ==> entry_held(#[trigger] s[i], p1),
{
    assert forall|i: int| 0 <= i < s.len() implies entry_held(#[trigger] s[i], p1) by {
        let e = s[i];
        assert(entry_held(e, p0));
        if holds_allocation(e) {
            let b = choose|b: Allocation| #[trigger] p0.holds(b) && b.id == e.atlas_id && b.x
                == e.placement.status->x && b.y == e.placement.status->y && b.width
                == e.placement.width && b.height == e.placement.height;
            assert(p1.holds(b));
        }
    }
}

/// The rectangle a cached entry occupies in its atlas.
pub open spec fn cached_rect(e: GlyphEntry) -> Allocation {
    match e.placement.status {
        GpuCacheStatus::InAtlas { x, y, .. } => Allocation {
            id: e.atlas_id,
            x: x as u32,
            y: y as u32,
            width: e.placement.width as u32,
            height: e.placement.height as u32,
            shelf: 0,
        },
        GpuCacheStatus::SkipRasterization => Allocation {
            id: e.atlas_id,
            x: 0,
            y: 0,
            width: 0,
            height: 0,
            shelf: 0,
        },
    }
}

pub open spec fn same_or_gone(a: Option<GlyphEntry>, b: Option<GlyphEntry>) -> bool {
    a == b || a is None
}

impl AtlasInstance {
    pub open spec fn wf(&self) -> bool {
        &&& self.packer.wf()
        &&& self.cache.wf()
        &&& self.packer.width == self.packer.height
        &&& 1 <= self.packer.width <= self.max_size <= MAX_SIDE
        &&& forall|i: int| 0 <= i < self.cache.entries@.len() ==> entry_fits(
            #[trigger] self.cache.entries@[i],
            self.kind,
            self.packer.width as int,
            self.packer.height as int,
        )
        &&& ids_unique(self.cache.entries@)
        &&& forall|i: int| 0 <= i < self.cache.entries@.len() ==> entry_held(
            #[trigger] self.cache.entries@[i],
            self.packer,
        )
    }

    /// The texture is at its largest size and still has no room for `w` by `h`.
    pub open spec fn full(&self, w: u32, h: u32) -> bool {
        self.packer.width == self.max_size && !self.packer.has_room(w, h)
    }

    pub fn new(kind: ContentType, size: u32, max_size: u32) -> (r: AtlasInstance)
        requires
            1 <= size <= max_size <= MAX_SIDE,
        ensures
            r.wf(),
            r.kind == kind,
            r.packer.width == size,
            r.max_size == max_size,
            r.packer.allocs@.len() == 0,
            forall|k: GlyphKey| r.cache.lookup(k) is None,
    {
        AtlasInstance { packer: Packer::new(size, size), cache: GlyphCache::new(), kind, max_size }
    }

    /// Finds room for a `w` by `h` bitmap: allocate; on failure evict the
    /// glyphs not in use and retry; then grow the texture and retry, until it
    /// reaches its largest size. `None` means the atlas is full.
    pub fn allocate(&mut self, w: u32, h: u32) -> (r: Option<Allocation>)
        requires
            old(self).wf(),
            old(self).packer.next_id < u64::MAX,
            w > 0,
        ensures
            final(self).wf(),
            final(self).kind == old(self).kind,
            final(self).max_size == old(self).max_size,
            final(self).packer.width >= old(self).packer.width,
            final(self).cache.in_use@ == old(self).cache.in_use@,
            r matches Some(a) ==> a.width == w && a.height == h && a.x + a.width
                <= final(self).packer.width && a.y + a.height <= final(self).packer.height,
            r matches Some(a) ==> final(self).packer.allocs@.len() > 0
                && final(self).packer.allocs@.last() == a,
            r matches Some(a) ==> forall|i: int| 0 <= i < final(self).cache.entries@.len()
                && holds_allocation(#[trigger] final(self).cache.entries@[i])
                ==> final(self).cache.entries@[i].atlas_id != a.id,
            r is None ==> final(self).full(w, h),
            r is None ==> forall|k: GlyphKey| !old(self).cache.used(k) ==> (
            #[trigger] final(self).cache.lookup(k)) is None,
            forall|k: GlyphKey| same_or_gone(#[trigger] final(self).cache.lookup(k), old(self).cache.lookup(k)),
            forall|k: GlyphKey| old(self).cache.used(k) ==> #[trigger] final(self).cache.lookup(k)
                == old(self).cache.lookup(k),
            old(self).packer.has_room(w, h) ==> r is Some && final(self).cache.entries@ == old(
                self).cache.entries@ && final(self).packer.width == old(self).packer.width,
    {
        let ghost st_next = self.packer.next_id;
        let mut st = AllocState { evicted: false, size: self.packer.width, max_size: self.max_size };
        loop
            invariant
                self.wf(),
                w > 0,
                self.kind == old(self).kind,
                self.max_size == old(self).max_size,
                self.packer.next_id == st_next,
                st_next < u64::MAX,
                self.packer.width >= old(self).packer.width,
                self.cache.in_use@ == old(self).cache.in_use@,
                st.size == self.packer.width,
                st.max_size == self.max_size,
                st.evicted ==> forall|k: GlyphKey| !old(self).cache.used(k) ==> (
                #[trigger] self.cache.lookup(k)) is None,
                forall|k: GlyphKey| same_or_gone(#[trigger] self.cache.lookup(k), old(self).cache.lookup(k)),
                forall|k: GlyphKey| old(self).cache.used(k) ==> #[trigger] self.cache.lookup(k)
                    == old(self).cache.lookup(k),
                !st.evicted ==> self.cache.entries@ == old(self).cache.entries@ && self.packer
                    == old(self).packer,
                st.evicted ==> !old(self).packer.has_room(w, h),
            decreases (if st.evicted { 0int } else { 1int }) + st.max_size - st.size,
        {
            let ghost pk = self.packer;
            let attempt = self.packer.allocate(w, h);
            let ev = match attempt {
                Some(a) => AllocEvent::Allocated { x: a.x as u16, y: a.y as u16 },
                None => AllocEvent::Failed,
            };
            let (next, action) = alloc_step(st, ev);
            match attempt {
                Some(a) => {
                    proof {
                        crate::packer::lemma_last_inside(self.packer);
                        assert forall|i: int| 0 <= i < self.cache.entries@.len() implies entry_held(
                            #[trigger] self.cache.entries@[i],
                            self.packer,
                        ) && (holds_allocation(self.cache.entries@[i])
                            ==> self.cache.entries@[i].atlas_id != a.id) by {
                            let e = self.cache.entries@[i];
                            assert(entry_held(e, pk));
                            if holds_allocation(e) {
                                let b = choose|b: Allocation| #[trigger] pk.holds(b) && b.id
                                    == e.atlas_id && b.x == e.placement.status->x
                                    && b.y == e.placement.status->y && b.width == e.placement.width
                                    && b.height == e.placement.height;
                                let m = choose|m: int| 0 <= m < pk.allocs@.len() && pk.allocs@[m] == b;
                                assert(pk.alloc_ok(pk.allocs@[m]));
                                assert(self.packer.allocs@[m] == b);
                                assert(self.packer.holds(b));
                            }
                        }
                    }
                    return Some(a);
                },
                None => {},
            }
            proof {
                assert forall|b: Allocation| #[trigger] pk.holds(b) implies self.packer.holds(b) by {
                    let m = choose|m: int| 0 <= m < pk.allocs@.len() && pk.allocs@[m] == b;
                    assert(self.packer.allocs@[m] == b);
                }
                lemma_held_transfer(self.cache.entries@, pk, self.packer);
            }
            match action {
                AllocAction::Evict => {
                    let ghost before = self.cache;
                    let ghost inst0 = *self;
                    assert(inst0.wf());
                    let freed = self.cache.evict_unused();
                    let ghost after = self.cache;
                    let ghost entries = self.cache.entries@;
                    assert forall|j: int| 0 <= j < entries.len() implies entry_held(
                        #[trigger] entries[j],
                        self.packer,
                    ) by {
                        let m = choose|m: int| 0 <= m < before.entries@.len() && before.entries@[m]
                            == after.entries@[j];
                        assert(inst0.cache.entries@[m] == before.entries@[m]);
                        assert(entry_held(inst0.cache.entries@[m], inst0.packer));
                    }
                    let mut i: usize = 0;
                    while i < freed.len()
                        invariant
                            self.cache.wf(),
                            self.cache.entries@ == entries,
                            self.cache.in_use@ == old(self).cache.in_use@,
                            self.max_size == old(self).max_size,
                            self.kind == old(self).kind,
                            1 <= self.packer.width <= self.max_size <= MAX_SIDE,
                            self.packer.width >= old(self).packer.width,
                            self.packer.wf(),
                            self.packer.width == self.packer.height,
                            self.packer.width == st.size,
                            self.packer.next_id == st_next,
                            st_next < u64::MAX,
                            i <= freed@.len(),
                            ids_unique(entries),
                            forall|j: int, m: int| 0 <= j < entries.len() && 0 <= m < freed@.len()
                                && holds_allocation(#[trigger] entries[j]) ==> entries[j].atlas_id
                                != #[trigger] freed@[m],
                            forall|j: int| 0 <= j < entries.len() ==> entry_held(
                                #[trigger] entries[j],
                                self.packer,
                            ),
                        decreases freed@.len() - i,
                    {
                        let ghost p0 = self.packer;
                        self.packer.free(freed[i]);
                        assert forall|j: int| 0 <= j < entries.len() implies entry_held(
                            #[trigger] entries[j],
                            self.packer,
                        ) by {
                            let e = entries[j];
                            assert(entry_held(e, p0));
                            if holds_allocation(e) {
                                let b = choose|b: Allocation| #[trigger] p0.holds(b) && b.id
                                    == e.atlas_id && b.x == e.placement.status->x
                                    && b.y == e.placement.status->y && b.width == e.placement.width
                                    && b.height == e.placement.height;
                                assert(e.atlas_id != freed@[i as int]);
                                assert(self.packer.holds(b));
                            }
                        }
                        i = i + 1;
                    }
                    assert forall|k: GlyphKey| #[trigger] self.cache.lookup(k) == (if before.used(k) {
                        before.lookup(k)
                    } else {
                        None
                    }) by {
                        assert(self.cache.entries@ == after.entries@);
                        assert(after.lookup(k) == (if before.used(k) {
                            before.lookup(k)
                        } else {
                            None
                        }));
                    }
                    assert forall|j: int| 0 <= j < self.cache.entries@.len() implies entry_fits(
                        #[trigger] self.cache.entries@[j],
                        self.kind,
                        self.packer.width as int,
                        self.packer.height as int,
                    ) by {
                        let m = choose|m: int| 0 <= m < before.entries@.len() && before.entries@[m]
                            == after.entries@[j];
                        assert(entry_fits(before.entries@[m], self.kind, self.packer.width as int,
                            self.packer.height as int));
                    }
                },
                AllocAction::Grow { size } => {
                    let ghost inst1 = *self;
                    assert(inst1.wf());
                    self.packer.grow(size);
                    assert forall|j: int| 0 <= j < self.cache.entries@.len() implies entry_held(
                        #[trigger] self.cache.entries@[j],
                        self.packer,
                    ) by {
                        let e = self.cache.entries@[j];
                        assert(e == inst1.cache.entries@[j]);
                        assert(entry_held(e, inst1.packer));
                        if holds_allocation(e) {
                            let b = choose|b: Allocation| #[trigger] inst1.packer.holds(b) && b.id
                                == e.atlas_id && b.x == e.placement.status->x
                                && b.y == e.placement.status->y && b.width == e.placement.width
                                && b.height == e.placement.height;
                            let m = choose|m: int| 0 <= m < inst1.packer.allocs@.len()
                                && inst1.packer.allocs@[m] == b;
                            assert(self.packer.allocs@[m] == b);
                            assert(self.packer.holds(b));
                        }
                    }
                    assert forall|j: int| 0 <= j < self.cache.entries@.len() implies entry_fits(
                        #[trigger] self.cache.entries@[j],
                        self.kind,
                        self.packer.width as int,
                        self.packer.height as int,
                    ) by {
                        assert(entry_fits(self.cache.entries@[j], self.kind, pk.width as int,
                            pk.height as int));
                    }
                },
                _ => {
                    assert(attempt is None);
                    assert(!pk.has_room(w, h));
                    assert(self.packer.shelves@ == pk.shelves@ && self.packer.top == pk.top);
                    proof {
                        if self.packer.has_room(w, h) {
                        if exists|i: int| 0 <= i < self.packer.shelves@.len() && self.packer.fits(
                            i,
                            w,
                            h,
                        ) {
                            let i = choose|i: int| 0 <= i < self.packer.shelves@.len()
                                && self.packer.fits(i, w, h);
                            assert(pk.fits(i, w, h));
                        }
                        assert(pk.has_room(w, h));
                    }
                    }
                    return None;
                },
            }
            st = next;
        }
    }
}

/// What the rasterizer reports for a glyph: pixel format, bitmap size and
/// offsets from the glyph origin.
#[derive(Clone, Copy, Debug, PartialEq, Eq, Structural)]
pub struct RasterInfo {
    pub kind: RasterKind,
    pub width: u32,
    pub height: u32,
    pub left: i32,
    pub top: i32,
}

#[derive(Clone, Copy, Debug, PartialEq, Eq, Structural)]
pub enum PrepareError {
    /// The atlas cannot hold the glyph even after eviction at its largest size.
    AtlasFull,
}

/// The mask atlas and the color atlas.
pub struct TextAtlas {
    pub mask: AtlasInstance,
    pub color: AtlasInstance,
}

/// `key` is cached in `inst` with placement `p`.
pub open spec fn stored(inst: AtlasInstance, key: GlyphKey, p: GlyphPlacement) -> bool {
    match inst.cache.lookup(key) {
        Some(e) => e.placement == p,
        None => false,
    }
}

/// `p` is an atlas placement of content type `ct` for the bitmap `img`.
pub open spec fn placed_as(p: GlyphPlacement, img: RasterInfo, ct: ContentType) -> bool {
    &&& p.width == img.width && p.height == img.height
    &&& p.left == img.left as i16 && p.top == img.top as i16
    &&& match p.status {
        GpuCacheStatus::InAtlas { content_type, .. } => content_type == ct,
        GpuCacheStatus::SkipRasterization => false,
    }
}

/// Stores a nonempty bitmap in `inst`, allocating room for it.
fn store(inst: &mut AtlasInstance, key: GlyphKey, img: RasterInfo) -> (r: Result<
    GlyphPlacement,
    PrepareError,
>)
    requires
        old(inst).wf(),
        old(inst).packer.next_id < u64::MAX,
        img.width > 0 && img.height > 0,
        old(inst).cache.lookup(key) is None,
    ensures
        final(inst).wf(),
        final(inst).kind == old(inst).kind,
        final(inst).max_size == old(inst).max_size,
        r is Err ==> final(inst).full(img.width, img.height),
        r matches Ok(p) ==> placed_as(p, img, old(inst).kind) && stored(*final(inst), key, p),
        old(inst).packer.has_room(img.width, img.height) ==> r is Ok,
        forall|k: GlyphKey| k != key ==> same_or_gone(
            #[trigger] final(inst).cache.lookup(k),
            old(inst).cache.lookup(k),
        ),
        forall|k: GlyphKey| k != key && old(inst).cache.used(k) ==> (#[trigger] final(inst).cache.lookup(k))
            == old(inst).cache.lookup(k),
{
    match inst.allocate(img.width, img.height) {
        None => Err(PrepareError::AtlasFull),
        Some(a) => {
            assert(inst.packer.width <= MAX_SIDE && inst.packer.height <= MAX_SIDE);
            assert(a.x + a.width <= MAX_SIDE && a.y + a.height <= MAX_SIDE);
            let status = GpuCacheStatus::InAtlas { x: a.x as u16, y: a.y as u16, content_type: inst.kind };
            let placement = GlyphPlacement {
                width: img.width as u16,
                height: img.height as u16,
                left: img.left as i16,
                top: img.top as i16,
                status,
            };
            let ghost c0 = inst.cache;
            let e = GlyphEntry { key, placement, atlas_id: a.id };
            inst.cache.get_or_insert(e);
            assert forall|j: int| 0 <= j < inst.cache.entries@.len() implies entry_fits(
                #[trigger] inst.cache.entries@[j],
                inst.kind,
                inst.packer.width as int,
                inst.packer.height as int,
            ) by {
                if j < c0.entries@.len() {
                    assert(inst.cache.entries@[j] == c0.entries@[j]);
                }
            }
            proof {
                let n = c0.entries@.len() as int;
                assert(inst.cache.entries@ == c0.entries@.push(e));
                assert(inst.packer.allocs@[inst.packer.allocs@.len() - 1] == a);
                assert(inst.packer.holds(a));
                assert(entry_held(e, inst.packer));
                assert forall|j: int| 0 <= j < inst.cache.entries@.len() implies entry_held(
                    #[trigger] inst.cache.entries@[j],
                    inst.packer,
                ) by {
                    if j < n {
                        assert(inst.cache.entries@[j] == c0.entries@[j]);
                    }
                }
                assert forall|i: int, j: int| 0 <= i < inst.cache.entries@.len() && 0 <= j
                    < inst.cache.entries@.len() && i != j && holds_allocation(
                    #[trigger] inst.cache.entries@[i],
                ) && holds_allocation(#[trigger] inst.cache.entries@[j]) implies inst.cache.entries@[i].atlas_id
                    != inst.cache.entries@[j].atlas_id by {
                    if i < n {
                        assert(inst.cache.entries@[i] == c0.entries@[i]);
                    }
                    if j < n {
                        assert(inst.cache.entries@[j] == c0.entries@[j]);
                    }
                }
            }
            Ok(placement)
        },
    }
}

pub open spec fn placement_of(e: Option<GlyphEntry>) -> Option<GlyphPlacement> {
    match e {
        Some(e) => Some(e.placement),
        None => None,
    }
}

impl TextAtlas {
    /// Both atlases are well formed, each holds its own content type, and no
    /// glyph is cached in both.
    pub open spec fn wf(&self) -> bool {
        &&& self.mask.wf() && self.color.wf()
        &&& self.mask.kind == ContentType::Mask && self.color.kind == ContentType::Color
        &&& forall|k: GlyphKey| !((#[trigger] self.mask.cache.lookup(k)) is Some
            && self.color.cache.lookup(k) is Some)
    }

    /// What `lookup` returns for `key`: the mask atlas's entry, else the
    /// color atlas's.
    pub open spec fn lookup_spec(&self, key: GlyphKey) -> Option<GlyphPlacement> {
        if self.mask.cache.lookup(key) is Some {
            placement_of(self.mask.cache.lookup(key))
        } else {
            placement_of(self.color.cache.lookup(key))
        }
    }

    pub fn new(size: u32, max_size: u32) -> (r: TextAtlas)
        requires
            1 <= size <= max_size <= MAX_SIDE,
        ensures
            r.wf(),
            r.mask.packer.width == size && r.color.packer.width == size,
    {
        TextAtlas {
            mask: AtlasInstance::new(ContentType::Mask, size, max_size),
            color: AtlasInstance::new(ContentType::Color, size, max_size),
        }
    }

    /// The cached placement of `key`, looked up in the mask atlas and then in
    /// the color atlas; a hit is marked in use in the atlas that holds it.
    pub fn lookup(&mut self, key: GlyphKey) -> (r: Option<GlyphPlacement>)
        requires
            old(self).wf(),
        ensures
            final(self).wf(),
            r == old(self).lookup_spec(key),
            final(self).mask.packer == old(self).mask.packer,
            final(self).color.packer == old(self).color.packer,
            final(self).mask.cache.entries@ == old(self).mask.cache.entries@,
            final(self).color.cache.entries@ == old(self).color.cache.entries@,
            old(self).mask.cache.lookup(key) is Some ==> final(self).mask.cache.used(key),
            old(self).mask.cache.lookup(key) is None && old(self).color.cache.lookup(key) is Some
                ==> final(self).color.cache.used(key),
    {
        let r = match self.mask.cache.get(key) {
            Some(e) => {
                self.mask.cache.mark_in_use(key);
                Some(e.placement)
            },
            None => match self.color.cache.get(key) {
                Some(e) => {
                    self.color.cache.mark_in_use(key);
                    Some(e.placement)
                },
                None => None,
            },
        };
        assert forall|k: GlyphKey| !((#[trigger] self.mask.cache.lookup(k)) is Some
            && self.color.cache.lookup(k) is Some) by {
            assert(self.mask.cache.lookup(k) == old(self).mask.cache.lookup(k));
            assert(self.color.cache.lookup(k) == old(self).color.cache.lookup(k));
        }
        r
    }

    /// Caches a glyph that missed both atlases from what the rasterizer made
    /// of it. An empty bitmap is cached as skipped in the color atlas and
    /// takes no room; any other goes to the atlas of its content type.
    pub fn insert_rasterized(&mut self, key: GlyphKey, img: RasterInfo) -> (r: Result<
        GlyphPlacement,
        PrepareError,
    >)
        requires
            old(self).wf(),
            old(self).mask.packer.next_id < u64::MAX,
            old(self).color.packer.next_id < u64::MAX,
            old(self).mask.cache.lookup(key) is None,
            old(self).color.cache.lookup(key) is None,
        ensures
            final(self).wf(),
            img.width == 0 || img.height == 0 ==> final(self).mask == old(self).mask
                && final(self).color.packer == old(self).color.packer,
            img.width == 0 || img.height == 0 ==> (r matches Ok(p) && p.status
                == GpuCacheStatus::SkipRasterization && stored(final(self).color, key, p)),
            r matches Ok(p) ==> p.left == img.left as i16 && p.top == img.top as i16,
            classify_spec(img) == Some(ContentType::Color) ==> final(self).mask == old(self).mask,
            classify_spec(img) == Some(ContentType::Mask) ==> final(self).color == old(self).color,
            classify_spec(img) == Some(ContentType::Color) ==> (r matches Ok(p) ==> placed_as(
                p,
                img,
                ContentType::Color,
            ) && stored(final(self).color, key, p)),
            classify_spec(img) == Some(ContentType::Mask) ==> (r matches Ok(p) ==> placed_as(
                p,
                img,
                ContentType::Mask,
            ) && stored(final(self).mask, key, p)),
            classify_spec(img) == Some(ContentType::Color) ==> (r is Err ==> final(self).color.full(
                img.width,
                img.height,
            )),
            classify_spec(img) == Some(ContentType::Mask) ==> (r is Err ==> final(self).mask.full(
                img.width,
                img.height,
            )),
            classify_spec(img) == Some(ContentType::Color) && old(self).color.packer.has_room(
                img.width,
                img.height,
            ) ==> r is Ok,
            classify_spec(img) == Some(ContentType::Mask) && old(self).mask.packer.has_room(
                img.width,
                img.height,
            ) ==> r is Ok,
            forall|k: GlyphKey| k != key && old(self).mask.cache.used(k) ==> (
            #[trigger] final(self).mask.cache.lookup(k)) == old(self).mask.cache.lookup(k),
            forall|k: GlyphKey| k != key && old(self).color.cache.used(k) ==> (
            #[trigger] final(self).color.cache.lookup(k)) == old(self).color.cache.lookup(k),
    {
        match classify(img.kind, img.width, img.height) {
            None => {
                let placement = GlyphPlacement {
                    width: img.width as u16,
                    height: img.height as u16,
                    left: img.left as i16,
                    top: img.top as i16,
                    status: GpuCacheStatus::SkipRasterization,
                };
                let ghost c0 = self.color.cache;
                self.color.cache.get_or_insert(GlyphEntry { key, placement, atlas_id: 0 });
                assert forall|j: int| 0 <= j < self.color.cache.entries@.len() implies entry_fits(
                    #[trigger] self.color.cache.entries@[j],
                    self.color.kind,
                    self.color.packer.width as int,
                    self.color.packer.height as int,
                ) by {
                    if j < c0.entries@.len() {
                        assert(self.color.cache.entries@[j] == c0.entries@[j]);
                    }
                }
                Ok(placement)
            },
            Some(ContentType::Color) => {
                let ghost c0 = self.color.cache;
                let r = store(&mut self.color, key, img);
                assert forall|k: GlyphKey| !((#[trigger] self.mask.cache.lookup(k)) is Some
                    && self.color.cache.lookup(k) is Some) by {
                    if k != key {
                        assert(same_or_gone(self.color.cache.lookup(k), c0.lookup(k)));
                    }
                }
                r
            },
            Some(ContentType::Mask) => {
                let ghost c0 = self.mask.cache;
                let r = store(&mut self.mask, key, img);
                assert forall|k: GlyphKey| !((#[trigger] self.mask.cache.lookup(k)) is Some
                    && self.color.cache.lookup(k) is Some) by {
                    if k != key {
                        assert(same_or_gone(self.mask.cache.lookup(k), c0.lookup(k)));
                    }
                }
                r
            },
        }
    }
}

/// The content type that `classify` gives a rasterized bitmap.
pub open spec fn classify_spec(img: RasterInfo) -> Option<ContentType> {
    if img.width == 0 || img.height == 0 {
        None
    } else if img.kind == RasterKind::Color {
        Some(ContentType::Color)
    } else {
        Some(ContentType::Mask)
    }
}

/// Once a glyph is stored in either atlas, looking it up yields exactly the
/// stored placement: the rasterizer is not needed a second time.
pub proof fn lemma_lookup_after_insert(a: TextAtlas, key: GlyphKey, p: GlyphPlacement)
    requires
        a.wf(),
        stored(a.mask, key, p) || stored(a.color, key, p),
    ensures
        a.lookup_spec(key) == Some(p),
{
    assert(!(a.mask.cache.lookup(key) is Some && a.color.cache.lookup(key) is Some));
}

/// The rectangles of two distinct cached glyphs of one atlas never overlap,
/// and each lies inside the texture.
pub proof fn lemma_cached_disjoint(inst: AtlasInstance, i: int, j: int)
    requires
        inst.wf(),
        0 <= i < inst.cache.entries@.len(),
        0 <= j < inst.cache.entries@.len(),
        i != j,
        holds_allocation(inst.cache.entries@[i]),
        holds_allocation(inst.cache.entries@[j]),
    ensures
        crate::packer::disjoint(
            cached_rect(inst.cache.entries@[i]),
            cached_rect(inst.cache.entries@[j]),
        ),
        crate::packer::inside(
            cached_rect(inst.cache.entries@[i]),
            inst.packer.width as int,
            inst.packer.height as int,
        ),
{
    let e = inst.cache.entries@[i];
    let f = inst.cache.entries@[j];
    assert(entry_held(e, inst.packer) && entry_held(f, inst.packer));
    assert(entry_fits(e, inst.kind, inst.packer.width as int, inst.packer.height as int));
    let a = choose|a: Allocation| #[trigger] inst.packer.holds(a) && a.id == e.atlas_id && a.x
        == e.placement.status->x && a.y == e.placement.status->y && a.width == e.placement.width
        && a.height == e.placement.height;
    let b = choose|b: Allocation| #[trigger] inst.packer.holds(b) && b.id == f.atlas_id && b.x
        == f.placement.status->x && b.y == f.placement.status->y && b.width == f.placement.width
        && b.height == f.placement.height;
    let m = choose|m: int| 0 <= m < inst.packer.allocs@.len() && inst.packer.allocs@[m] == a;
    let k = choose|k: int| 0 <= k < inst.packer.allocs@.len() && inst.packer.allocs@[k] == b;
    assert(e.atlas_id != f.atlas_id);
    crate::packer::lemma_allocs_inside_disjoint(inst.packer, m, k);
}

} // verus!
