//! Glyph geometry and vertex-buffer sizing for an atlas-based GPU text renderer.
use vstd::prelude::*;

pub mod atlas;
pub mod cache;
pub mod clip;
pub mod frame;
pub mod glyph;
pub mod pack;
pub mod packer;
pub mod staging;

verus! {

/// Which atlas holds a glyph, and how many channels it occupies there.
#[derive(Clone, Copy, Debug, PartialEq, Eq, Structural)]
pub enum ContentType {
    Color,
    Mask,
}

impl ContentType {
    /// Channels per texel: four for color glyphs, one for masks.
    pub fn num_channels(self) -> (r: u32)
        ensures
            r == (if self == ContentType::Color { 4u32 } else { 1u32 }),
    {
        match self {
            ContentType::Color => 4,
            ContentType::Mask => 1,
        }
    }

    /// The tag written into a vertex record.
    pub fn tag(self) -> (r: u16)
        ensures
            r == (if self == ContentType::Color { 0u16 } else { 1u16 }),
    {
        match self {
            ContentType::Color => 0,
            ContentType::Mask => 1,
        }
    }
}

} // verus!
