use vstd::prelude::*;
use crate::clip::{Bounds, clamp_bounds, max, min};
use crate::glyph::{GlyphPlacement, GlyphVertex, glyph_vertex, glyph_vertex_spec, placement_fits};
use crate::staging::{COPY_BUFFER_ALIGNMENT, UploadAction, is_pow2, plan_upload};

verus! {

/// Bytes of one vertex record in the buffer: position 8, size 4, atlas
/// origin 4, color 4, tags 4, then 4 bytes of depth that the caller appends.
pub const VERTEX_SIZE: u64 = 28;

/// Initial vertex buffer capacity in bytes, a power of two.
pub const INITIAL_BUFFER_SIZE: u64 = 4096;

/// A resolved glyph of a visible line: its cached placement, its physical
/// position and its color.
#[derive(Clone, Copy, Debug, PartialEq, Eq, Structural)]
pub struct FrameGlyph {
    pub placement: GlyphPlacement,
    pub x: i32,
    pub y: i32,
    pub color: u32,
}

/// The vertices that a sequence of glyphs yields, in order.
pub open spec fn emitted(gs: Seq<FrameGlyph>, clip: Bounds, accurate: bool) -> Seq<GlyphVertex>
    decreases gs.len(),
{
    if gs.len() == 0 {
        Seq::empty()
    } else {
        let g = gs.last();
        let prev = emitted(gs.drop_last(), clip, accurate);
        match glyph_vertex_spec(g.placement, g.x as int, g.y as int, clip, g.color, accurate) {
            Some(v) => prev.push(v),
            None => prev,
        }
    }
}

pub open spec fn clamped(b: Bounds, width: u32, height: u32) -> Bounds {
    Bounds {
        left: max(b.left as int, 0) as i32,
        top: max(b.top as int, 0) as i32,
        right: min(b.right as int, width as int) as i32,
        bottom: min(b.bottom as int, height as int) as i32,
    }
}

/// CPU side of a text renderer: this frame's vertices, how many to draw, and
/// the capacity of the vertex buffer.
pub struct TextRenderer {
    pub vertex_buffer_size: u64,
    pub glyph_vertices: Vec<GlyphVertex>,
    pub glyphs_to_render: u32,
}

impl TextRenderer {
    pub fn new() -> (r: TextRenderer)
        ensures
            r.vertex_buffer_size == INITIAL_BUFFER_SIZE,
            r.glyph_vertices@.len() == 0,
            r.glyphs_to_render == 0,
    {
        TextRenderer { vertex_buffer_size: INITIAL_BUFFER_SIZE, glyph_vertices: Vec::new(), glyphs_to_render: 0 }
    }

    /// Starts a frame: the previous frame's vertices are dropped.
    pub fn begin_frame(&mut self)
        ensures
            final(self).glyph_vertices@.len() == 0,
            final(self).vertex_buffer_size == old(self).vertex_buffer_size,
            final(self).glyphs_to_render == old(self).glyphs_to_render,
    {
        self.glyph_vertices.clear();
    }

    /// Appends the vertices of one text area's visible glyphs, clipped to
    /// `bounds` clamped to the `width` by `height` viewport.
    pub fn prepare(&mut self, glyphs: &Vec<FrameGlyph>, bounds: Bounds, width: u32, height: u32,
        accurate: bool)
        requires
            width <= i32::MAX,
            height <= i32::MAX,
            forall|i: int| 0 <= i < glyphs@.len() ==> placement_fits(
                #[trigger] glyphs@[i].placement,
                glyphs@[i].x as int,
                glyphs@[i].y as int,
            ),
        ensures
            final(self).glyph_vertices@ == old(self).glyph_vertices@ + emitted(
                glyphs@,
                clamped(bounds, width, height),
                accurate,
            ),
            final(self).vertex_buffer_size == old(self).vertex_buffer_size,
            final(self).glyphs_to_render == old(self).glyphs_to_render,
    {
        let clip = clamp_bounds(bounds, width, height);
        assert(clip == clamped(bounds, width, height));
        let ghost start = self.glyph_vertices@;
        let mut i: usize = 0;
        assert(glyphs@.subrange(0, 0) =~= Seq::<FrameGlyph>::empty());
        assert(start + Seq::<GlyphVertex>::empty() =~= start);
        while i < glyphs.len()
            invariant
                i <= glyphs@.len(),
                self.vertex_buffer_size == old(self).vertex_buffer_size,
                self.glyphs_to_render == old(self).glyphs_to_render,
                start == old(self).glyph_vertices@,
                forall|k: int| 0 <= k < glyphs@.len() ==> placement_fits(
                    #[trigger] glyphs@[k].placement,
                    glyphs@[k].x as int,
                    glyphs@[k].y as int,
                ),
                self.glyph_vertices@ == start + emitted(glyphs@.subrange(0, i as int), clip, accurate),
            decreases glyphs@.len() - i,
        {
            let g = glyphs[i];
            assert(glyphs@.subrange(0, i + 1).drop_last() =~= glyphs@.subrange(0, i as int));
            let ghost prev = emitted(glyphs@.subrange(0, i as int), clip, accurate);
            match glyph_vertex(g.placement, g.x, g.y, clip, g.color, accurate) {
                Some(v) => {
                    self.glyph_vertices.push(v);
                    assert(start + prev.push(v) =~= (start + prev).push(v));
                },
                None => {},
            }
            i = i + 1;
        }
        assert(glyphs@.subrange(0, glyphs@.len() as int) =~= glyphs@);
    }

    /// Ends a frame: records how many glyphs to draw and decides how their
    /// bytes reach the vertex buffer; a reallocation updates the capacity.
    pub fn finish(&mut self) -> (r: UploadAction)
        requires
            old(self).glyph_vertices@.len() <= u32::MAX,
        ensures
            final(self).glyphs_to_render == old(self).glyph_vertices@.len(),
            final(self).glyph_vertices@ == old(self).glyph_vertices@,
            old(self).glyph_vertices@.len() == 0 ==> r == UploadAction::Skip,
            old(self).glyph_vertices@.len() > 0 && old(self).vertex_buffer_size
                >= old(self).glyph_vertices@.len() * VERTEX_SIZE ==> r == UploadAction::WriteInPlace,
            old(self).glyph_vertices@.len() > 0 && old(self).vertex_buffer_size
                < old(self).glyph_vertices@.len() * VERTEX_SIZE ==> r is Reallocate,
            r matches UploadAction::Reallocate { size } ==> final(self).vertex_buffer_size == size
                && size >= old(self).glyph_vertices@.len() * VERTEX_SIZE && is_pow2(size as nat)
                && (size == COPY_BUFFER_ALIGNMENT || size < 2 * old(self).glyph_vertices@.len()
                * VERTEX_SIZE),
            !(r is Reallocate) ==> final(self).vertex_buffer_size == old(self).vertex_buffer_size,
    {
        let n = self.glyph_vertices.len();
        self.glyphs_to_render = n as u32;
        let bytes = n as u64 * VERTEX_SIZE;
        let r = plan_upload(self.vertex_buffer_size, bytes);
        match r {
            UploadAction::Reallocate { size } => {
                self.vertex_buffer_size = size;
            },
            _ => {},
        }
        r
    }

    /// The instance count of the draw call, or `None` when nothing is drawn.
    pub fn render(&self) -> (r: Option<u32>)
        ensures
            self.glyphs_to_render == 0 ==> r is None,
            self.glyphs_to_render > 0 ==> r == Some(self.glyphs_to_render),
    {
        if self.glyphs_to_render == 0 {
            None
        } else {
            Some(self.glyphs_to_render)
        }
    }
}

} // verus!
