use vstd::prelude::*;
use crate::ContentType;
use crate::clip::{Bounds, GlyphQuad, clip_quad, clipped, outside, quad_ok};

verus! {

/// Pixel format reported by the rasterizer.
#[derive(Clone, Copy, Debug, PartialEq, Eq, Structural)]
pub enum RasterKind {
    Color,
    Mask,
    SubpixelMask,
}

/// Where a cached glyph's bitmap lives.
#[derive(Clone, Copy, Debug, PartialEq, Eq, Structural)]
pub enum GpuCacheStatus {
    InAtlas { x: u16, y: u16, content_type: ContentType },
    /// The bitmap is empty: never rasterized again, never drawn.
    SkipRasterization,
}

/// Size, rasterization offsets and location of a cached glyph.
#[derive(Clone, Copy, Debug, PartialEq, Eq, Structural)]
pub struct GlyphPlacement {
    pub width: u16,
    pub height: u16,
    pub left: i16,
    pub top: i16,
    pub status: GpuCacheStatus,
}

/// One instance of the glyph quad drawn by the shader.
#[derive(Clone, Copy, Debug, PartialEq, Eq, Structural)]
pub struct GlyphVertex {
    pub x: i32,
    pub y: i32,
    pub width: u16,
    pub height: u16,
    pub u: u16,
    pub v: u16,
    pub color: u32,
    pub content_type: u16,
    pub convert_to_linear: u16,
}

/// Which atlas a rasterized bitmap goes to; `None` for an empty bitmap, which
/// is cached as skipped and takes no room in any atlas. Subpixel masks are
/// drawn as plain masks.
pub fn classify(kind: RasterKind, w: u32, h: u32) -> (r: Option<ContentType>)
    ensures
        (w == 0 || h == 0) <==> r is None,
        r is Some && kind == RasterKind::Color ==> r == Some(ContentType::Color),
        r is Some && kind != RasterKind::Color ==> r == Some(ContentType::Mask),
{
    if w == 0 || h == 0 {
        None
    } else {
        match kind {
            RasterKind::Color => Some(ContentType::Color),
            RasterKind::Mask => Some(ContentType::Mask),
            RasterKind::SubpixelMask => Some(ContentType::Mask),
        }
    }
}

/// The unclipped quad of a glyph at physical position `(px, py)`.
pub open spec fn quad_of(p: GlyphPlacement, px: int, py: int, ax: u16, ay: u16) -> GlyphQuad {
    GlyphQuad {
        x: (px + p.left) as i32,
        y: (py - p.top) as i32,
        width: p.width as i32,
        height: p.height as i32,
        atlas_x: ax,
        atlas_y: ay,
    }
}

/// The coordinates of a glyph fit the vertex fields and its atlas region fits
/// the atlas coordinate range.
pub open spec fn placement_fits(p: GlyphPlacement, px: int, py: int) -> bool {
    match p.status {
        GpuCacheStatus::InAtlas { x, y, .. } => i32::MIN <= px + p.left
            && px + p.left + p.width <= i32::MAX && i32::MIN <= py - p.top
            && py - p.top + p.height <= i32::MAX && x + p.width <= u16::MAX
            && y + p.height <= u16::MAX,
        GpuCacheStatus::SkipRasterization => true,
    }
}

pub open spec fn content_tag(c: ContentType) -> u16 {
    if c == ContentType::Color { 0 } else { 1 }
}

pub open spec fn vertex_of(q: GlyphQuad, c: ContentType, color: u32, accurate: bool) -> GlyphVertex {
    GlyphVertex {
        x: q.x,
        y: q.y,
        width: q.width as u16,
        height: q.height as u16,
        u: q.atlas_x,
        v: q.atlas_y,
        color,
        content_type: content_tag(c),
        convert_to_linear: if accurate { 1 } else { 0 },
    }
}

/// The clipped vertex of a glyph, or `None` when it is skipped or clipped away.
pub open spec fn glyph_vertex_spec(p: GlyphPlacement, px: int, py: int, clip: Bounds, color: u32,
    accurate: bool) -> Option<GlyphVertex> {
    match p.status {
        GpuCacheStatus::SkipRasterization => None,
        GpuCacheStatus::InAtlas { x, y, content_type } => {
            let q = quad_of(p, px, py, x, y);
            if outside(q, clip) {
                None
            } else {
                Some(vertex_of(clipped(q, clip), content_type, color, accurate))
            }
        },
    }
}

/// Builds the vertex of one glyph: its quad placed from the rasterization
/// offsets, clipped to `clip`, with color and both tags filled in.
pub fn glyph_vertex(p: GlyphPlacement, px: i32, py: i32, clip: Bounds, color: u32,
    accurate: bool) -> (r: Option<GlyphVertex>)
    requires
        placement_fits(p, px as int, py as int),
    ensures
        r == glyph_vertex_spec(p, px as int, py as int, clip, color, accurate),
        p.status == GpuCacheStatus::SkipRasterization ==> r is None,
        r matches Some(v) ==> v.width > 0 && v.height > 0,
{
    match p.status {
        GpuCacheStatus::SkipRasterization => None,
        GpuCacheStatus::InAtlas { x, y, content_type } => {
            let q = GlyphQuad {
                x: px + p.left as i32,
                y: py - p.top as i32,
                width: p.width as i32,
                height: p.height as i32,
                atlas_x: x,
                atlas_y: y,
            };
            assert(q == quad_of(p, px as int, py as int, x, y));
            match clip_quad(q, clip) {
                None => None,
                Some(c) => Some(GlyphVertex {
                    x: c.x,
                    y: c.y,
                    width: c.width as u16,
                    height: c.height as u16,
                    u: c.atlas_x,
                    v: c.atlas_y,
                    color,
                    content_type: content_type.tag(),
                    convert_to_linear: if accurate { 1 } else { 0 },
                }),
            }
        },
    }
}

} // verus!
