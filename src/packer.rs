use vstd::prelude::*;

verus! {

/// A horizontal band of the texture; allocations are appended at `cursor`.
#[derive(Clone, Copy, Debug, PartialEq, Eq, Structural)]
pub struct Shelf {
    pub y: u32,
    pub height: u32,
    pub cursor: u32,
}

/// A live allocation: its handle, its rectangle and the shelf that holds it.
#[derive(Clone, Copy, Debug, PartialEq, Eq, Structural)]
pub struct Allocation {
    pub id: u64,
    pub x: u32,
    pub y: u32,
    pub width: u32,
    pub height: u32,
    pub shelf: usize,
}

/// A shelf packer over a `width` by `height` texture.
pub struct Packer {
    pub width: u32,
    pub height: u32,
    pub top: u32,
    pub shelves: Vec<Shelf>,
    pub allocs: Vec<Allocation>,
    pub next_id: u64,
}

/// Largest texture side length whose coordinates fit the placement fields.
pub const MAX_SIDE: u32 = 65535;

pub open spec fn disjoint(a: Allocation, b: Allocation) -> bool {
    a.x + a.width <= b.x || b.x + b.width <= a.x || a.y + a.height <= b.y || b.y + b.height <= a.y
}

pub open spec fn inside(a: Allocation, width: int, height: int) -> bool {
    a.x + a.width <= width && a.y + a.height <= height
}

impl Packer {
    pub open spec fn shelf_ok(&self, i: int) -> bool {
        let s = self.shelves@[i];
        s.cursor <= self.width && s.y + s.height <= self.top
    }

    pub open spec fn alloc_ok(&self, a: Allocation) -> bool {
        let s = self.shelves@[a.shelf as int];
        a.shelf < self.shelves@.len() && 0 < a.width && a.y == s.y && a.height <= s.height && a.x + a.width
            <= s.cursor && a.id < self.next_id
    }

    pub open spec fn wf(&self) -> bool {
        &&& self.width <= MAX_SIDE && self.height <= MAX_SIDE && self.top <= self.height
        &&& forall|i: int| 0 <= i < self.shelves@.len() ==> self.shelf_ok(i)
        &&& forall|i: int, j: int| 0 <= i < j < self.shelves@.len() ==> #[trigger] self.shelves@[i].y
            + self.shelves@[i].height <= #[trigger] self.shelves@[j].y
        &&& forall|i: int| 0 <= i < self.allocs@.len() ==> self.alloc_ok(#[trigger] self.allocs@[i])
        &&& forall|i: int, j: int| 0 <= i < self.allocs@.len() && 0 <= j < self.allocs@.len() && i
            != j ==> (#[trigger] self.allocs@[i]).id != (#[trigger] self.allocs@[j]).id
        &&& forall|i: int, j: int| 0 <= i < self.allocs@.len() && 0 <= j < self.allocs@.len()
            && i != j && self.allocs@[i].shelf == self.allocs@[j].shelf ==> self.allocs@[i].x
            + self.allocs@[i].width <= self.allocs@[j].x || self.allocs@[j].x
            + self.allocs@[j].width <= self.allocs@[i].x
    }

    /// `a` is a live allocation.
    pub open spec fn holds(&self, a: Allocation) -> bool {
        exists|i: int| 0 <= i < self.allocs@.len() && self.allocs@[i] == a
    }

    /// Live handles, each below `next_id`.
    pub open spec fn live(&self, id: u64) -> bool {
        exists|i: int| 0 <= i < self.allocs@.len() && self.allocs@[i].id == id
    }

    pub fn new(width: u32, height: u32) -> (r: Packer)
        requires
            width <= MAX_SIDE,
            height <= MAX_SIDE,
        ensures
            r.wf(),
            r.width == width && r.height == height,
            r.allocs@.len() == 0,
    {
        Packer { width, height, top: 0, shelves: Vec::new(), allocs: Vec::new(), next_id: 0 }
    }

    pub open spec fn fits(&self, i: int, w: u32, h: u32) -> bool {
        h <= self.shelves@[i].height && self.shelves@[i].cursor + w <= self.width
    }

    /// Some shelf, or a new shelf on top, has room for `w` by `h`.
    pub open spec fn has_room(&self, w: u32, h: u32) -> bool {
        (exists|i: int| 0 <= i < self.shelves@.len() && self.fits(i, w, h)) || (w <= self.width
            && self.top + h <= self.height)
    }

    /// Reserves a `w` by `h` rectangle: in the first shelf with room, else in a
    /// new shelf on top; `None` when neither has room. The handle is fresh.
    pub fn allocate(&mut self, w: u32, h: u32) -> (r: Option<Allocation>)
        requires
            old(self).wf(),
            old(self).next_id < u64::MAX,
            w > 0,
        ensures
            final(self).wf(),
            final(self).width == old(self).width && final(self).height == old(self).height,
            r is None <==> !old(self).has_room(w, h),
            r is None ==> final(self).shelves@ == old(self).shelves@ && final(self).top
                == old(self).top,
            r is None <==> (forall|i: int| 0 <= i < old(self).shelves@.len() ==> !old(self).fits(
                i,
                w,
                h,
            )) && (w > old(self).width || old(self).top + h > old(self).height),
            r is None ==> final(self).allocs@ == old(self).allocs@ && final(self).next_id
                == old(self).next_id,
            r matches Some(a) ==> a.width == w && a.height == h && a.id == old(self).next_id
                && final(self).allocs@ == old(self).allocs@.push(a) && final(self).next_id
                == old(self).next_id + 1,
            r matches Some(a) ==> forall|j: int| 0 <= j < old(self).allocs@.len()
                ==> old(self).allocs@[j].id != a.id,
    {
        let mut i: usize = 0;
        while i < self.shelves.len()
            invariant
                self.wf(),
                self.next_id < u64::MAX,
                self.width == old(self).width && self.height == old(self).height,
                self.allocs@ == old(self).allocs@ && self.next_id == old(self).next_id,
                self.shelves@ == old(self).shelves@ && self.top == old(self).top,
                i <= self.shelves@.len(),
                forall|k: int| 0 <= k < i ==> !old(self).fits(k, w, h),
                w > 0,
            decreases self.shelves@.len() - i,
        {
            let s = self.shelves[i];
            if h <= s.height && w <= self.width && s.cursor <= self.width - w {
                let a = Allocation { id: self.next_id, x: s.cursor, y: s.y, width: w, height: h, shelf: i };
                let ghost before = *self;
                assert(old(self).fits(i as int, w, h));
                self.shelves.set(i, Shelf { y: s.y, height: s.height, cursor: s.cursor + w });
                self.allocs.push(a);
                self.next_id = self.next_id + 1;
                proof {
                    assert forall|k: int| 0 <= k < self.allocs@.len() implies self.alloc_ok(
                        #[trigger] self.allocs@[k],
                    ) by {
                        if k < before.allocs@.len() {
                            assert(before.alloc_ok(before.allocs@[k]));
                        }
                    }
                    assert forall|k: int| 0 <= k < self.shelves@.len() implies self.shelf_ok(k) by {
                        assert(before.shelf_ok(k));
                    }
                    assert forall|k: int, j: int| 0 <= k < j < self.shelves@.len() implies
                        #[trigger] self.shelves@[k].y + self.shelves@[k].height
                        <= #[trigger] self.shelves@[j].y by {
                        assert(before.shelves@[k].y + before.shelves@[k].height
                            <= before.shelves@[j].y);
                    }
                    assert forall|k: int, j: int| 0 <= k < self.allocs@.len() && 0 <= j
                        < self.allocs@.len() && k != j && self.allocs@[k].shelf
                        == self.allocs@[j].shelf implies self.allocs@[k].x + self.allocs@[k].width
                        <= self.allocs@[j].x || self.allocs@[j].x + self.allocs@[j].width
                        <= self.allocs@[k].x by {
                        if k < before.allocs@.len() {
                            assert(before.alloc_ok(before.allocs@[k]));
                        }
                        if j < before.allocs@.len() {
                            assert(before.alloc_ok(before.allocs@[j]));
                        }
                    }
                    assert forall|k: int| 0 <= k < before.allocs@.len() implies before.allocs@[k].id
                        != a.id by {
                        assert(before.alloc_ok(before.allocs@[k]));
                    }
                }
                return Some(a);
            }
            i = i + 1;
        }
        if w > self.width || h > self.height - self.top {
            return None;
        }
        let ghost before = *self;
        let a = Allocation { id: self.next_id, x: 0, y: self.top, width: w, height: h, shelf: self.shelves.len() };
        self.shelves.push(Shelf { y: self.top, height: h, cursor: w });
        self.allocs.push(a);
        self.top = self.top + h;
        self.next_id = self.next_id + 1;
        proof {
            assert forall|k: int| 0 <= k < self.allocs@.len() implies self.alloc_ok(
                #[trigger] self.allocs@[k],
            ) by {
                if k < before.allocs@.len() {
                    assert(before.alloc_ok(before.allocs@[k]));
                }
            }
            assert forall|k: int| 0 <= k < self.shelves@.len() implies self.shelf_ok(k) by {
                if k < before.shelves@.len() {
                    assert(before.shelf_ok(k));
                }
            }
            assert forall|k: int, j: int| 0 <= k < j < self.shelves@.len() implies
                #[trigger] self.shelves@[k].y + self.shelves@[k].height
                <= #[trigger] self.shelves@[j].y by {
                assert(before.shelf_ok(k));
                if j < before.shelves@.len() {
                    assert(before.shelves@[k].y + before.shelves@[k].height
                        <= before.shelves@[j].y);
                }
            }
            assert forall|k: int, j: int| 0 <= k < self.allocs@.len() && 0 <= j
                < self.allocs@.len() && k != j && self.allocs@[k].shelf
                == self.allocs@[j].shelf implies self.allocs@[k].x + self.allocs@[k].width
                <= self.allocs@[j].x || self.allocs@[j].x + self.allocs@[j].width
                <= self.allocs@[k].x by {
                if k < before.allocs@.len() {
                    assert(before.alloc_ok(before.allocs@[k]));
                }
                if j < before.allocs@.len() {
                    assert(before.alloc_ok(before.allocs@[j]));
                }
            }
            assert forall|k: int| 0 <= k < before.allocs@.len() implies before.allocs@[k].id
                != a.id by {
                assert(before.alloc_ok(before.allocs@[k]));
            }
        }
        Some(a)
    }

    /// Enlarges the texture to `size` on both axes; live allocations keep
    /// their positions.
    pub fn grow(&mut self, size: u32)
        requires
            old(self).wf(),
            old(self).width <= size <= MAX_SIDE,
            old(self).height <= size,
        ensures
            final(self).wf(),
            final(self).width == size && final(self).height == size,
            final(self).allocs@ == old(self).allocs@,
            final(self).next_id == old(self).next_id,
    {
        self.width = size;
        self.height = size;
        assert forall|k: int| 0 <= k < self.shelves@.len() implies self.shelf_ok(k) by {
            assert(old(self).shelf_ok(k));
        }
        assert forall|k: int| 0 <= k < self.allocs@.len() implies self.alloc_ok(
            #[trigger] self.allocs@[k],
        ) by {
            assert(old(self).alloc_ok(old(self).allocs@[k]));
        }
    }

    /// Releases the allocation with handle `id`; `false` when none is live.
    pub fn free(&mut self, id: u64) -> (r: bool)
        requires
            old(self).wf(),
        ensures
            final(self).wf(),
            final(self).width == old(self).width && final(self).height == old(self).height,
            final(self).next_id == old(self).next_id,
            r == old(self).live(id),
            r ==> exists|i: int| 0 <= i < old(self).allocs@.len() && old(self).allocs@[i].id == id
                && final(self).allocs@ == old(self).allocs@.remove(i),
            !r ==> final(self).allocs@ == old(self).allocs@,
            forall|a: Allocation| #[trigger] final(self).holds(a) <==> old(self).holds(a) && a.id != id,
    {
        let mut i: usize = 0;
        while i < self.allocs.len()
            invariant
                self.wf(),
                self.width == old(self).width && self.height == old(self).height,
                self.allocs@ == old(self).allocs@ && self.next_id == old(self).next_id,
                self.shelves@ == old(self).shelves@ && self.top == old(self).top,
                i <= self.allocs@.len(),
                forall|k: int| 0 <= k < i ==> self.allocs@[k].id != id,
            decreases self.allocs@.len() - i,
        {
            if self.allocs[i].id == id {
                let gone = self.allocs[i];
                let shelf = gone.shelf;
                let ghost before = *self;
                self.allocs.remove(i);
                proof {
                    assert forall|k: int| 0 <= k < self.shelves@.len() implies self.shelf_ok(k) by {
                        assert(before.shelf_ok(k));
                    }
                    assert forall|k: int| 0 <= k < self.allocs@.len() implies self.alloc_ok(
                        #[trigger] self.allocs@[k],
                    ) by {
                        if k < i {
                            assert(self.allocs@[k] == before.allocs@[k]);
                            assert(before.alloc_ok(before.allocs@[k]));
                        } else {
                            assert(self.allocs@[k] == before.allocs@[k + 1]);
                            assert(before.alloc_ok(before.allocs@[k + 1]));
                        }
                    }
                    assert forall|k: int, j: int| 0 <= k < self.allocs@.len() && 0 <= j
                        < self.allocs@.len() && k != j && self.allocs@[k].shelf
                        == self.allocs@[j].shelf implies self.allocs@[k].x + self.allocs@[k].width
                        <= self.allocs@[j].x || self.allocs@[j].x + self.allocs@[j].width
                        <= self.allocs@[k].x by {
                        let k0 = if k < i { k } else { k + 1 };
                        let j0 = if j < i { j } else { j + 1 };
                        assert(self.allocs@[k] == before.allocs@[k0]);
                        assert(self.allocs@[j] == before.allocs@[j0]);
                    }
                }
                proof {
                    assert(before.alloc_ok(gone));
                    assert forall|k: int| 0 <= k < self.allocs@.len() && (
                    #[trigger] self.allocs@[k]).shelf == gone.shelf implies self.allocs@[k].x
                        + self.allocs@[k].width <= gone.x || gone.x + gone.width
                        <= self.allocs@[k].x by {
                        let k0 = if k < i { k } else { k + 1 };
                        assert(self.allocs@[k] == before.allocs@[k0]);
                    }
                }
                self.release_tail(gone);
                self.reset_if_empty(shelf);
                proof {
                    assert forall|a: Allocation| #[trigger] self.holds(a) <==> before.holds(a)
                        && a.id != id by {
                        if self.holds(a) {
                            let k = choose|k: int| 0 <= k < self.allocs@.len() && self.allocs@[k] == a;
                            let k0 = if k < i { k } else { k + 1 };
                            assert(self.allocs@[k] == before.allocs@[k0]);
                            assert(before.allocs@[k0].id != before.allocs@[i as int].id);
                        }
                        if before.holds(a) && a.id != id {
                            let m = choose|m: int| 0 <= m < before.allocs@.len() && before.allocs@[m] == a;
                            assert(m != i);
                            if m < i {
                                assert(self.allocs@[m] == a);
                            } else {
                                assert(self.allocs@[m - 1] == a);
                            }
                        }
                    }
                }
                return true;
            }
            i = i + 1;
        }
        assert forall|a: Allocation| #[trigger] self.holds(a) implies a.id != id by {
            let m = choose|m: int| 0 <= m < self.allocs@.len() && self.allocs@[m] == a;
        }
        false
    }

    /// Gives back the room of a removed allocation that ended its shelf.
    fn release_tail(&mut self, gone: Allocation)
        requires
            old(self).wf(),
            gone.shelf < old(self).shelves@.len(),
            gone.y == old(self).shelves@[gone.shelf as int].y,
            gone.width > 0,
            forall|k: int| 0 <= k < old(self).allocs@.len() && (#[trigger] old(self).allocs@[k]).shelf
                == gone.shelf ==> old(self).allocs@[k].x + old(self).allocs@[k].width <= gone.x
                || gone.x + gone.width <= old(self).allocs@[k].x,
        ensures
            final(self).wf(),
            final(self).allocs@ == old(self).allocs@,
            final(self).width == old(self).width && final(self).height == old(self).height,
            final(self).next_id == old(self).next_id,
    {
        let s = self.shelves[gone.shelf];
        if gone.x <= s.cursor && gone.width == s.cursor - gone.x {
            let ghost before = *self;
            self.shelves.set(gone.shelf, Shelf { y: s.y, height: s.height, cursor: gone.x });
            proof {
                assert forall|k: int| 0 <= k < self.shelves@.len() implies self.shelf_ok(k) by {
                    assert(before.shelf_ok(k));
                }
                assert forall|k: int, m: int| 0 <= k < m < self.shelves@.len() implies
                    #[trigger] self.shelves@[k].y + self.shelves@[k].height
                    <= #[trigger] self.shelves@[m].y by {
                    assert(before.shelves@[k].y + before.shelves@[k].height <= before.shelves@[m].y);
                }
                assert forall|k: int| 0 <= k < self.allocs@.len() implies self.alloc_ok(
                    #[trigger] self.allocs@[k],
                ) by {
                    assert(before.alloc_ok(before.allocs@[k]));
                }
            }
        }
    }

    /// Makes a shelf that holds no live allocation reusable from its start.
    fn reset_if_empty(&mut self, shelf: usize)
        requires
            old(self).wf(),
        ensures
            final(self).wf(),
            final(self).allocs@ == old(self).allocs@,
            final(self).width == old(self).width && final(self).height == old(self).height,
            final(self).next_id == old(self).next_id,
    {
        if shelf >= self.shelves.len() {
            return;
        }
        let mut j: usize = 0;
        while j < self.allocs.len()
            invariant
                self.wf(),
                self.allocs@ == old(self).allocs@ && self.shelves@ == old(self).shelves@,
                self.width == old(self).width && self.height == old(self).height,
                self.next_id == old(self).next_id && self.top == old(self).top,
                shelf < self.shelves@.len(),
                j <= self.allocs@.len(),
                forall|k: int| 0 <= k < j ==> self.allocs@[k].shelf != shelf,
            decreases self.allocs@.len() - j,
        {
            if self.allocs[j].shelf == shelf {
                return;
            }
            j = j + 1;
        }
        let ghost before = *self;
        let s = self.shelves[shelf];
        self.shelves.set(shelf, Shelf { y: s.y, height: s.height, cursor: 0 });
        proof {
            assert forall|k: int| 0 <= k < self.shelves@.len() implies self.shelf_ok(k) by {
                assert(before.shelf_ok(k));
            }
            assert forall|k: int, m: int| 0 <= k < m < self.shelves@.len() implies
                #[trigger] self.shelves@[k].y + self.shelves@[k].height
                <= #[trigger] self.shelves@[m].y by {
                assert(before.shelves@[k].y + before.shelves@[k].height <= before.shelves@[m].y);
            }
            assert forall|k: int| 0 <= k < self.allocs@.len() implies self.alloc_ok(
                #[trigger] self.allocs@[k],
            ) by {
                assert(before.alloc_ok(before.allocs@[k]));
            }
        }
    }
}

/// Every live allocation lies inside the texture, and no two overlap.
pub proof fn lemma_allocs_inside_disjoint(p: Packer, i: int, j: int)
    requires
        p.wf(),
        0 <= i < p.allocs@.len(),
        0 <= j < p.allocs@.len(),
        i != j,
    ensures
        inside(p.allocs@[i], p.width as int, p.height as int),
        disjoint(p.allocs@[i], p.allocs@[j]),
{
    let a = p.allocs@[i];
    let b = p.allocs@[j];
    assert(p.alloc_ok(a) && p.alloc_ok(b));
    assert(p.shelf_ok(a.shelf as int));
    if a.shelf != b.shelf {
        if a.shelf < b.shelf {
            assert(p.shelves@[a.shelf as int].y + p.shelves@[a.shelf as int].height
                <= p.shelves@[b.shelf as int].y);
        } else {
            assert(p.shelves@[b.shelf as int].y + p.shelves@[b.shelf as int].height
                <= p.shelves@[a.shelf as int].y);
        }
    }
}

/// The most recent allocation lies inside the texture.
pub proof fn lemma_last_inside(p: Packer)
    requires
        p.wf(),
        p.allocs@.len() > 0,
    ensures
        inside(p.allocs@.last(), p.width as int, p.height as int),
{
    let a = p.allocs@.last();
    assert(p.alloc_ok(a));
    assert(p.shelf_ok(a.shelf as int));
}

/// A handle freed and followed by a new allocation is never handed out again:
/// the new allocation's handle differs from every handle live before the free.
pub proof fn lemma_no_stale_handle(before: Packer, freed: Packer, after: Packer, id: u64,
    a: Allocation)
    requires
        before.wf(),
        before.live(id),
        freed.next_id == before.next_id,
        a.id == freed.next_id,
        after.allocs@ == freed.allocs@.push(a),
    ensures
        a.id != id,
{
    let i = choose|i: int| 0 <= i < before.allocs@.len() && before.allocs@[i].id == id;
    assert(before.alloc_ok(before.allocs@[i]));
}

} // verus!
