use vstd::prelude::*;
use crate::glyph::GlyphVertex;

verus! {

pub open spec fn le16(x: u16) -> Seq<u8> {
    seq![(x % 256) as u8, (x / 256) as u8]
}

pub open spec fn le32(x: u32) -> Seq<u8> {
    seq![(x % 256) as u8, ((x / 256) % 256) as u8, ((x / 65536) % 256) as u8, (x / 16777216) as u8]
}

/// The 28-byte little-endian record of one vertex: position, size, atlas
/// origin, color, content tag, color conversion tag, then the depth bits.
pub open spec fn record_bytes(v: GlyphVertex, depth: u32) -> Seq<u8> {
    le32(v.x as u32) + le32(v.y as u32) + le16(v.width) + le16(v.height) + le16(v.u) + le16(v.v)
        + le32(v.color) + le16(v.content_type) + le16(v.convert_to_linear) + le32(depth)
}

/// The records of a sequence of vertices with their depths, back to back.
pub open spec fn packed(vs: Seq<GlyphVertex>, ds: Seq<u32>) -> Seq<u8>
    decreases vs.len(),
{
    if vs.len() == 0 || ds.len() < vs.len() {
        Seq::empty()
    } else {
        packed(vs.drop_last(), ds.subrange(0, vs.len() - 1)) + record_bytes(
            vs.last(),
            ds[vs.len() - 1],
        )
    }
}

fn push_le16(out: &mut Vec<u8>, x: u16)
    ensures
        final(out)@ == old(out)@ + le16(x),
{
    out.push((x % 256) as u8);
    out.push((x / 256) as u8);
    assert(final(out)@ =~= old(out)@ + le16(x));
}

fn push_le32(out: &mut Vec<u8>, x: u32)
    ensures
        final(out)@ == old(out)@ + le32(x),
{
    out.push((x % 256) as u8);
    out.push(((x / 256) % 256) as u8);
    out.push(((x / 65536) % 256) as u8);
    out.push((x / 16777216) as u8);
    assert(final(out)@ =~= old(out)@ + le32(x));
}

/// Serializes vertices into the byte layout of the vertex buffer; `depths`
/// holds the bit pattern of each vertex's depth.
pub fn pack_vertices(vs: &Vec<GlyphVertex>, depths: &Vec<u32>) -> (r: Vec<u8>)
    requires
        depths@.len() == vs@.len(),
    ensures
        r@ == packed(vs@, depths@),
        r@.len() == 28 * vs@.len(),
{
    let mut out: Vec<u8> = Vec::new();
    let mut i: usize = 0;
    assert(vs@.subrange(0, 0).len() == 0);
    while i < vs.len()
        invariant
            i <= vs@.len(),
            depths@.len() == vs@.len(),
            out@ == packed(vs@.subrange(0, i as int), depths@.subrange(0, i as int)),
            out@.len() == 28 * i,
        decreases vs@.len() - i,
    {
        let v = vs[i];
        let ghost prev = out@;
        push_le32(&mut out, v.x as u32);
        push_le32(&mut out, v.y as u32);
        push_le16(&mut out, v.width);
        push_le16(&mut out, v.height);
        push_le16(&mut out, v.u);
        push_le16(&mut out, v.v);
        push_le32(&mut out, v.color);
        push_le16(&mut out, v.content_type);
        push_le16(&mut out, v.convert_to_linear);
        push_le32(&mut out, depths[i]);
        proof {
            let s = vs@.subrange(0, i + 1);
            let d = depths@.subrange(0, i + 1);
            assert(s.drop_last() =~= vs@.subrange(0, i as int));
            assert(d.subrange(0, i as int) =~= depths@.subrange(0, i as int));
            assert(out@ =~= prev + record_bytes(v, depths@[i as int]));
        }
        i = i + 1;
    }
    assert(vs@.subrange(0, vs@.len() as int) =~= vs@);
    assert(depths@.subrange(0, vs@.len() as int) =~= depths@);
    out
}

} // verus!
