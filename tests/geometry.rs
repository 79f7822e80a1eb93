use cryoglyph::clip::{clamp_bounds, clip_quad, line_visible, visible_runs, Bounds, GlyphQuad};
use cryoglyph::glyph::{classify, glyph_vertex, GlyphPlacement, GpuCacheStatus, RasterKind};
use cryoglyph::staging::{next_copy_buffer_size, plan_upload, UploadAction};
use cryoglyph::frame::VERTEX_SIZE;
use cryoglyph::ContentType;

fn quad(x: i32, y: i32, width: i32, height: i32) -> GlyphQuad {
    GlyphQuad { x, y, width, height, atlas_x: 5, atlas_y: 7 }
}

#[test]
fn clip_left_edge_shifts_atlas_origin() {
    let b = Bounds { left: 0, top: 0, right: 100, bottom: 50 };
    let c = clip_quad(quad(-10, 10, 30, 10), b).unwrap();
    assert_eq!((c.x, c.y, c.width, c.height), (0, 10, 20, 10));
    assert_eq!((c.atlas_x, c.atlas_y), (15, 7));
}

#[test]
fn clip_contained_is_unchanged() {
    let b = Bounds { left: 0, top: 0, right: 100, bottom: 50 };
    let q = quad(10, 10, 20, 10);
    assert_eq!(clip_quad(q, b), Some(q));
}

#[test]
fn clip_outside_is_discarded() {
    let b = Bounds { left: 0, top: 0, right: 100, bottom: 50 };
    assert_eq!(clip_quad(quad(120, 10, 20, 10), b), None);
    assert_eq!(clip_quad(quad(10, 60, 20, 10), b), None);
}

#[test]
fn clip_bottom_right_shrinks_only() {
    let b = Bounds { left: 0, top: 0, right: 100, bottom: 50 };
    let c = clip_quad(quad(90, 45, 20, 10), b).unwrap();
    assert_eq!((c.x, c.y, c.width, c.height, c.atlas_x, c.atlas_y), (90, 45, 10, 5, 5, 7));
}

#[test]
fn bounds_clamped_to_viewport() {
    let b = clamp_bounds(Bounds { left: -5, top: -1, right: 900, bottom: 40 }, 800, 600);
    assert_eq!(b, Bounds { left: 0, top: 0, right: 800, bottom: 40 });
}

#[test]
fn lines_below_bounds_are_hidden() {
    let b = Bounds { left: 0, top: 0, right: 100, bottom: 50 };
    assert!(!line_visible(60, 80, b));
    assert!(line_visible(40, 60, b));
}

#[test]
fn buffer_sizes_are_aligned_powers_of_two() {
    assert_eq!(next_copy_buffer_size(0), 4);
    assert_eq!(next_copy_buffer_size(3), 4);
    assert_eq!(next_copy_buffer_size(4096), 4096);
    assert_eq!(next_copy_buffer_size(4097), 8192);
}

#[test]
fn growing_vertex_buffer_reallocates() {
    let per_glyph: u64 = VERTEX_SIZE;
    let cap = next_copy_buffer_size(100 * per_glyph);
    assert_eq!(plan_upload(cap, 100 * per_glyph), UploadAction::WriteInPlace);
    assert_eq!(plan_upload(cap, 0), UploadAction::Skip);
    let big = 200 * per_glyph;
    assert_eq!(plan_upload(cap, big), UploadAction::Reallocate { size: 8192 });
}

#[test]
fn content_type_channels() {
    assert_eq!(ContentType::Color.num_channels(), 4);
    assert_eq!(ContentType::Mask.num_channels(), 1);
    assert_eq!(ContentType::Mask.tag(), 1);
}

#[test]
fn empty_clip_rect_discards() {
    let b = clamp_bounds(Bounds { left: 10, top: 0, right: 5, bottom: 50 }, 100, 50);
    assert_eq!(clip_quad(quad(0, 10, 20, 10), b), None);
    let full = Bounds { left: 0, top: 0, right: 100, bottom: 50 };
    assert_eq!(clip_quad(quad(100, 10, 20, 10), full), None);
    assert_eq!(clip_quad(quad(-20, 10, 20, 10), full), None);
}

#[test]
fn visible_block_of_lines() {
    let b = Bounds { left: 0, top: 20, right: 100, bottom: 50 };
    let lines = vec![(0, 10), (10, 25), (25, 40), (40, 55), (55, 70), (70, 85)];
    assert_eq!(visible_runs(&lines, b), (1, 4));
    let below = vec![(60, 70), (70, 80)];
    let (s, e) = visible_runs(&below, b);
    assert_eq!(e - s, 0);
}

#[test]
fn classify_content() {
    assert_eq!(classify(RasterKind::Color, 3, 4), Some(ContentType::Color));
    assert_eq!(classify(RasterKind::SubpixelMask, 3, 4), Some(ContentType::Mask));
    assert_eq!(classify(RasterKind::Mask, 0, 4), None);
    assert_eq!(classify(RasterKind::Color, 3, 0), None);
}

#[test]
fn vertex_from_placement() {
    let p = GlyphPlacement {
        width: 30,
        height: 10,
        left: -2,
        top: 5,
        status: GpuCacheStatus::InAtlas { x: 40, y: 3, content_type: ContentType::Color },
    };
    let b = Bounds { left: 0, top: 0, right: 100, bottom: 50 };
    let v = glyph_vertex(p, -8, 15, b, 0xff00ff00, true).unwrap();
    assert_eq!((v.x, v.y, v.width, v.height), (0, 10, 20, 10));
    assert_eq!((v.u, v.v), (50, 3));
    assert_eq!((v.color, v.content_type, v.convert_to_linear), (0xff00ff00, 0, 1));
    let skip = GlyphPlacement { status: GpuCacheStatus::SkipRasterization, ..p };
    assert_eq!(glyph_vertex(skip, 10, 15, b, 0, false), None);
}
