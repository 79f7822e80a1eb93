use vstd::prelude::*;

verus! {

/// A clip rectangle in pixel space; `right` and `bottom` are exclusive edges.
#[derive(Clone, Copy, Debug, PartialEq, Eq, Structural)]
pub struct Bounds {
    pub left: i32,
    pub top: i32,
    pub right: i32,
    pub bottom: i32,
}

/// A glyph quad on screen together with the atlas origin it samples from.
#[derive(Clone, Copy, Debug, PartialEq, Eq, Structural)]
pub struct GlyphQuad {
    pub x: i32,
    pub y: i32,
    pub width: i32,
    pub height: i32,
    pub atlas_x: u16,
    pub atlas_y: u16,
}

pub open spec fn min(a: int, b: int) -> int {
    if a < b { a } else { b }
}

pub open spec fn max(a: int, b: int) -> int {
    if a > b { a } else { b }
}

/// Clamps a run's bounds to the viewport: the top-left corner to zero, the
/// bottom-right corner to the resolution.
pub fn clamp_bounds(b: Bounds, width: u32, height: u32) -> (r: Bounds)
    requires
        width <= i32::MAX,
        height <= i32::MAX,
    ensures
        r.left == max(b.left as int, 0),
        r.top == max(b.top as int, 0),
        r.right == min(b.right as int, width as int),
        r.bottom == min(b.bottom as int, height as int),
{
    Bounds {
        left: if b.left > 0 { b.left } else { 0 },
        top: if b.top > 0 { b.top } else { 0 },
        right: if b.right < width as i32 { b.right } else { width as i32 },
        bottom: if b.bottom < height as i32 { b.bottom } else { height as i32 },
    }
}

/// Whether a line spanning `[start, end]` vertically meets `[top, bottom]`.
pub fn line_visible(start: i32, end: i32, b: Bounds) -> (r: bool)
    ensures
        r == (start <= b.bottom && b.top <= end),
{
    start <= b.bottom && b.top <= end
}

/// Whether line extent `e = (start, end)` meets the bounds vertically.
pub open spec fn vis(e: (i32, i32), b: Bounds) -> bool {
    e.0 <= b.bottom && b.top <= e.1
}

/// The block of visible lines among vertically ordered line extents: the
/// invisible lines at the start are skipped, then lines are taken while visible.
pub fn visible_runs(extents: &Vec<(i32, i32)>, b: Bounds) -> (r: (usize, usize))
    ensures
        r.0 <= r.1 <= extents@.len(),
        forall|k: int| 0 <= k < r.0 ==> !vis(#[trigger] extents@[k], b),
        forall|k: int| r.0 <= k < r.1 ==> vis(#[trigger] extents@[k], b),
        r.1 < extents@.len() ==> !vis(extents@[r.1 as int], b),
        (forall|k: int| 0 <= k < extents@.len() ==> (#[trigger] extents@[k]).0 > b.bottom) ==> r.0
            == r.1,
{
    let mut i: usize = 0;
    while i < extents.len() && !line_visible(extents[i].0, extents[i].1, b)
        invariant
            i <= extents@.len(),
            forall|k: int| 0 <= k < i ==> !vis(#[trigger] extents@[k], b),
        decreases extents@.len() - i,
    {
        i = i + 1;
    }
    let mut j: usize = i;
    while j < extents.len() && line_visible(extents[j].0, extents[j].1, b)
        invariant
            i <= j <= extents@.len(),
            forall|k: int| i <= k < j ==> vis(#[trigger] extents@[k], b),
        decreases extents@.len() - j,
    {
        j = j + 1;
    }
    (i, j)
}

/// Nothing of the quad is visible: its intersection with the bounds (right
/// and bottom edges exclusive) has no area.
pub open spec fn outside(q: GlyphQuad, b: Bounds) -> bool {
    min(q.x + q.width, b.right as int) <= max(q.x as int, b.left as int)
        || min(q.y + q.height, b.bottom as int) <= max(q.y as int, b.top as int)
}

/// The quad lies wholly inside the bounds.
pub open spec fn contained(q: GlyphQuad, b: Bounds) -> bool {
    b.left <= q.x && q.x + q.width <= b.right && b.top <= q.y && q.y + q.height <= b.bottom
}

/// The visible part of a quad: each edge moved inside the bounds, the atlas
/// origin shifted by what the left and top edges lost.
pub open spec fn clipped(q: GlyphQuad, b: Bounds) -> GlyphQuad {
    let x = max(q.x as int, b.left as int);
    let y = max(q.y as int, b.top as int);
    GlyphQuad {
        x: x as i32,
        y: y as i32,
        width: (min(q.x + q.width, b.right as int) - x) as i32,
        height: (min(q.y + q.height, b.bottom as int) - y) as i32,
        atlas_x: (q.atlas_x + (x - q.x)) as u16,
        atlas_y: (q.atlas_y + (y - q.y)) as u16,
    }
}

pub open spec fn quad_ok(q: GlyphQuad) -> bool {
    0 <= q.width <= u16::MAX && 0 <= q.height <= u16::MAX
        && q.x + q.width <= i32::MAX && q.y + q.height <= i32::MAX
        && q.atlas_x + q.width <= u16::MAX && q.atlas_y + q.height <= u16::MAX
}

/// Clips a glyph quad to the bounds; `None` when nothing of it is visible.
pub fn clip_quad(q: GlyphQuad, b: Bounds) -> (r: Option<GlyphQuad>)
    requires
        quad_ok(q),
    ensures
        outside(q, b) <==> r is None,
        r matches Some(c) ==> c == clipped(q, b) && c.width > 0 && c.height > 0,
{
    let max_x = q.x + q.width;
    let max_y = q.y + q.height;
    let x0 = if q.x > b.left { q.x } else { b.left };
    let x1 = if max_x < b.right { max_x } else { b.right };
    let y0 = if q.y > b.top { q.y } else { b.top };
    let y1 = if max_y < b.bottom { max_y } else { b.bottom };
    if x1 <= x0 || y1 <= y0 {
        return None;
    }
    let atlas_x = q.atlas_x + (x0 - q.x) as u16;
    let atlas_y = q.atlas_y + (y0 - q.y) as u16;
    Some(GlyphQuad { x: x0, y: y0, width: x1 - x0, height: y1 - y0, atlas_x, atlas_y })
}

/// Clipping a quad of positive area that the bounds already contain leaves it
/// unchanged.
pub proof fn lemma_clip_contained(q: GlyphQuad, b: Bounds)
    requires
        quad_ok(q),
        contained(q, b),
        q.width > 0,
        q.height > 0,
    ensures
        !outside(q, b),
        clipped(q, b) == q,
{
}

} // verus!
