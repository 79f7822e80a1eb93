use cryoglyph::clip::Bounds;
use cryoglyph::frame::{FrameGlyph, TextRenderer, VERTEX_SIZE};
use cryoglyph::glyph::GlyphVertex;
use cryoglyph::pack::pack_vertices;
use cryoglyph::glyph::{GlyphPlacement, GpuCacheStatus};
use cryoglyph::staging::UploadAction;
use cryoglyph::ContentType;

fn glyph(x: i32, y: i32) -> FrameGlyph {
    let status = GpuCacheStatus::InAtlas { x: 0, y: 0, content_type: ContentType::Mask };
    FrameGlyph { placement: GlyphPlacement { width: 4, height: 4, left: 0, top: 0, status }, x, y, color: 7 }
}

#[test]
fn prepare_emits_visible_glyphs_only() {
    let mut r = TextRenderer::new();
    r.begin_frame();
    let b = Bounds { left: 0, top: 0, right: 100, bottom: 50 };
    r.prepare(&vec![glyph(1, 1), glyph(1, 60), glyph(200, 1)], b, 800, 600, false);
    assert_eq!(r.glyph_vertices.len(), 1);
    assert_eq!(r.finish(), UploadAction::WriteInPlace);
    assert_eq!(r.render(), Some(1));
}

#[test]
fn empty_frame_draws_nothing() {
    let mut r = TextRenderer::new();
    r.begin_frame();
    let b = Bounds { left: 0, top: 0, right: 100, bottom: 50 };
    r.prepare(&vec![glyph(1, 80)], b, 800, 600, true);
    assert_eq!(r.finish(), UploadAction::Skip);
    assert_eq!(r.render(), None);
}

#[test]
fn vertex_buffer_grows_past_capacity() {
    let mut r = TextRenderer::new();
    assert_eq!(r.vertex_buffer_size, 4096);
    let b = Bounds { left: 0, top: 0, right: 1000, bottom: 1000 };
    let glyphs: Vec<FrameGlyph> = (0..146).map(|i| glyph(i, 0)).collect();
    r.begin_frame();
    r.prepare(&glyphs, b, 1000, 1000, false);
    assert_eq!(r.finish(), UploadAction::WriteInPlace);
    let more: Vec<FrameGlyph> = (0..147).map(|i| glyph(i, 0)).collect();
    r.begin_frame();
    r.prepare(&more, b, 1000, 1000, false);
    assert_eq!(r.finish(), UploadAction::Reallocate { size: 8192 });
    assert_eq!(r.vertex_buffer_size, 8192);
    assert_eq!(r.render(), Some(147));
}

#[test]
fn pack_vertex_bytes() {
    let v = GlyphVertex {
        x: -1,
        y: 258,
        width: 3,
        height: 4,
        u: 0x0102,
        v: 5,
        color: 0xaabbccdd,
        content_type: 1,
        convert_to_linear: 0,
    };
    let bytes = pack_vertices(&vec![v, v], &vec![0x3f800000, 0]);
    assert_eq!(bytes.len(), 2 * VERTEX_SIZE as usize);
    assert_eq!(
        &bytes[..28],
        &[255, 255, 255, 255, 2, 1, 0, 0, 3, 0, 4, 0, 2, 1, 5, 0, 0xdd, 0xcc, 0xbb, 0xaa, 1, 0, 0, 0, 0, 0, 0x80, 0x3f]
    );
    assert_eq!(&bytes[52..], &[0, 0, 0, 0]);
}
