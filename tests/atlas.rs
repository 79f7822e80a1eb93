use cryoglyph::atlas::{AtlasInstance, PrepareError, RasterInfo, TextAtlas};
use cryoglyph::glyph::RasterKind;
use cryoglyph::cache::{GlyphEntry, GlyphKey};
use cryoglyph::glyph::{GlyphPlacement, GpuCacheStatus};
use cryoglyph::ContentType;
use cryoglyph::atlas::{alloc_step, AllocAction, AllocEvent, AllocState};
use cryoglyph::packer::Packer;

#[test]
fn alloc_retry_sequence() {
    let s = AllocState { evicted: false, size: 256, max_size: 1024 };
    let (s, a) = alloc_step(s, AllocEvent::Failed);
    assert_eq!(a, AllocAction::Evict);
    let (s, a) = alloc_step(s, AllocEvent::Failed);
    assert_eq!(a, AllocAction::Grow { size: 512 });
    let (s, a) = alloc_step(s, AllocEvent::Failed);
    assert_eq!(a, AllocAction::Grow { size: 1024 });
    let (s, a) = alloc_step(s, AllocEvent::Failed);
    assert_eq!(a, AllocAction::AtlasFull);
    let (_, a) = alloc_step(s, AllocEvent::Allocated { x: 3, y: 4 });
    assert_eq!(a, AllocAction::Store { x: 3, y: 4 });
}

#[test]
fn first_failure_is_never_atlas_full() {
    let s = AllocState { evicted: false, size: 1024, max_size: 1024 };
    assert_eq!(alloc_step(s, AllocEvent::Failed).1, AllocAction::Evict);
}

#[test]
fn packer_places_inside_and_grows() {
    let mut p = Packer::new(16, 16);
    let a = p.allocate(10, 8).unwrap();
    assert_eq!((a.x, a.y), (0, 0));
    let b = p.allocate(6, 8).unwrap();
    assert_eq!((b.x, b.y), (10, 0));
    let c = p.allocate(16, 8).unwrap();
    assert_eq!((c.x, c.y), (0, 8));
    assert!(p.allocate(4, 4).is_none());
    p.grow(32);
    let d = p.allocate(4, 4).unwrap();
    assert!(d.x + d.width <= 32 && d.y + d.height <= 32);
    assert_eq!((d.x, d.y), (16, 0));
}

#[test]
fn freed_handle_is_not_reused() {
    let mut p = Packer::new(64, 64);
    let a = p.allocate(8, 8).unwrap();
    assert!(p.free(a.id));
    assert!(!p.free(a.id));
    let b = p.allocate(8, 8).unwrap();
    assert_ne!(a.id, b.id);
}

#[test]
fn atlas_evicts_then_grows_then_fails() {
    let mut atlas = AtlasInstance::new(ContentType::Mask, 16, 32);
    let a = atlas.allocate(16, 16).unwrap();
    let key = GlyphKey { font: 0, glyph: 1, size_bits: 0, x_bin: 0, y_bin: 0 };
    let status = GpuCacheStatus::InAtlas { x: 0, y: 0, content_type: ContentType::Mask };
    let placement = GlyphPlacement { width: 16, height: 16, left: 0, top: 0, status };
    atlas.cache.get_or_insert(GlyphEntry { key, placement, atlas_id: a.id });
    atlas.cache.clear_in_use();
    // the unused glyph is evicted, which makes room without growing
    let b = atlas.allocate(16, 16).unwrap();
    assert_eq!(atlas.packer.width, 16);
    assert_ne!(a.id, b.id);
    assert_eq!(atlas.cache.get(key), None);
    // no room left and nothing to evict: grow to the ceiling
    let c = atlas.allocate(16, 16).unwrap();
    assert_eq!(atlas.packer.width, 32);
    assert!(c.x + c.width <= 32 && c.y + c.height <= 32);
    assert!(atlas.allocate(64, 1).is_none());
    assert_eq!(atlas.packer.width, 32);
}

#[test]
fn text_atlas_routes_and_skips() {
    let mut atlas = TextAtlas::new(16, 16);
    let k1 = GlyphKey { font: 0, glyph: 1, size_bits: 0, x_bin: 0, y_bin: 0 };
    let k2 = GlyphKey { font: 0, glyph: 2, size_bits: 0, x_bin: 0, y_bin: 0 };
    let k3 = GlyphKey { font: 0, glyph: 3, size_bits: 0, x_bin: 0, y_bin: 0 };
    assert_eq!(atlas.lookup(k1), None);
    let space = RasterInfo { kind: RasterKind::Mask, width: 0, height: 0, left: 0, top: 0 };
    let p = atlas.insert_rasterized(k1, space).unwrap();
    assert_eq!(p.status, GpuCacheStatus::SkipRasterization);
    assert_eq!(atlas.mask.packer.allocs.len() + atlas.color.packer.allocs.len(), 0);
    assert_eq!(atlas.lookup(k1), Some(p));
    let sub = RasterInfo { kind: RasterKind::SubpixelMask, width: 5, height: 6, left: -1, top: 4 };
    let q = atlas.insert_rasterized(k2, sub).unwrap();
    assert_eq!(q.status, GpuCacheStatus::InAtlas { x: 0, y: 0, content_type: ContentType::Mask });
    assert_eq!((q.width, q.height, q.left, q.top), (5, 6, -1, 4));
    assert_eq!(atlas.lookup(k2), Some(q));
    let huge = RasterInfo { kind: RasterKind::Color, width: 40, height: 40, left: 0, top: 0 };
    assert_eq!(atlas.insert_rasterized(k3, huge), Err(PrepareError::AtlasFull));
}

#[test]
fn freed_tail_is_reused() {
    let mut p = Packer::new(16, 16);
    p.allocate(8, 8).unwrap();
    let b = p.allocate(8, 8).unwrap();
    p.allocate(16, 8).unwrap();
    assert!(p.free(b.id));
    let c = p.allocate(8, 8).unwrap();
    assert_eq!((c.x, c.y), (8, 0));
}

#[test]
fn inserted_glyph_is_found_again() {
    let mut atlas = TextAtlas::new(16, 16);
    let k = GlyphKey { font: 2, glyph: 9, size_bits: 1, x_bin: 0, y_bin: 0 };
    let img = RasterInfo { kind: RasterKind::Color, width: 4, height: 4, left: 0, top: 3 };
    let p = atlas.insert_rasterized(k, img).unwrap();
    assert_eq!(p.status, GpuCacheStatus::InAtlas { x: 0, y: 0, content_type: ContentType::Color });
    assert_eq!(atlas.lookup(k), Some(p));
    assert_eq!(atlas.lookup(k), Some(p));
    assert_eq!(atlas.color.cache.entries.len(), 1);
    assert_eq!(atlas.mask.cache.entries.len(), 0);
}
