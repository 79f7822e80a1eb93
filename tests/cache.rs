use cryoglyph::cache::{GlyphCache, GlyphEntry, GlyphKey};
use cryoglyph::glyph::{GlyphPlacement, GpuCacheStatus};
use cryoglyph::ContentType;

fn key(glyph: u16) -> GlyphKey {
    GlyphKey { font: 1, glyph, size_bits: 16, x_bin: 0, y_bin: 0 }
}

fn entry(glyph: u16, id: u64, x: u16) -> GlyphEntry {
    let status = GpuCacheStatus::InAtlas { x, y: 0, content_type: ContentType::Mask };
    GlyphEntry {
        key: key(glyph),
        placement: GlyphPlacement { width: 8, height: 9, left: 1, top: 7, status },
        atlas_id: id,
    }
}

#[test]
fn get_or_insert_twice_keeps_first() {
    let mut c = GlyphCache::new();
    let first = entry(3, 10, 0);
    let second = entry(3, 11, 20);
    assert_eq!(c.get_or_insert(first), first);
    assert_eq!(c.get_or_insert(second), first);
    assert_eq!(c.entries.len(), 1);
    assert_eq!(c.get(key(3)), Some(first));
    assert_eq!(c.get(key(4)), None);
}

#[test]
fn evict_frees_only_unused() {
    let mut c = GlyphCache::new();
    c.get_or_insert(entry(1, 10, 0));
    c.get_or_insert(entry(2, 11, 8));
    let skip = GlyphEntry {
        key: key(3),
        placement: GlyphPlacement {
            width: 0,
            height: 0,
            left: 0,
            top: 0,
            status: GpuCacheStatus::SkipRasterization,
        },
        atlas_id: 0,
    };
    c.get_or_insert(skip);
    c.clear_in_use();
    c.mark_in_use(key(2));
    assert!(c.is_used(key(2)));
    assert!(!c.is_used(key(1)));
    let freed = c.evict_unused();
    assert_eq!(freed, vec![10]);
    assert_eq!(c.get(key(1)), None);
    assert_eq!(c.get(key(3)), None);
    assert_eq!(c.get(key(2)), Some(entry(2, 11, 8)));
}
