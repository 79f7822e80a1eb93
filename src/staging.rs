use vstd::prelude::*;

verus! {

/// Granularity, in bytes, that buffer copies must respect.
pub const COPY_BUFFER_ALIGNMENT: u64 = 4;

pub open spec fn is_pow2(n: nat) -> bool
    decreases n,
{
    if n == 1 {
        true
    } else if n < 1 || n % 2 == 1 {
        false
    } else {
        is_pow2(n / 2)
    }
}

/// Size of a vertex buffer able to hold `size` bytes: the next power of two,
/// never below the copy alignment.
pub fn next_copy_buffer_size(size: u64) -> (r: u64)
    requires
        size <= 0x8000_0000_0000_0000u64,
    ensures
        is_pow2(r as nat),
        r >= size,
        r >= COPY_BUFFER_ALIGNMENT,
        r % COPY_BUFFER_ALIGNMENT == 0,
        r == COPY_BUFFER_ALIGNMENT || r < 2 * size,
{
    let mut r: u64 = COPY_BUFFER_ALIGNMENT;
    assert(is_pow2(4)) by {
        reveal_with_fuel(is_pow2, 3);
    }
    while r < size
        invariant
            is_pow2(r as nat),
            r >= 4,
            r % 4 == 0,
            r == 4 || r < 2 * size,
            size <= 0x8000_0000_0000_0000u64,
        decreases 2 * size + 8 - r,
    {
        r = r * 2;
    }
    r
}

/// What to do with the vertex bytes of one frame.
#[derive(Clone, Copy, Debug, PartialEq, Eq, Structural)]
pub enum UploadAction {
    /// Nothing was accumulated: no upload and no draw.
    Skip,
    /// The current buffer is large enough: write through the staging helper.
    WriteInPlace,
    /// Destroy the buffer and create one of the given size holding the bytes.
    Reallocate { size: u64 },
}

/// Decides how `len` bytes of vertices reach a buffer of `capacity` bytes.
pub fn plan_upload(capacity: u64, len: u64) -> (r: UploadAction)
    requires
        len <= 0x8000_0000_0000_0000u64,
    ensures
        len == 0 ==> r == UploadAction::Skip,
        len > 0 && capacity >= len ==> r == UploadAction::WriteInPlace,
        len > 0 && capacity < len ==> (match r {
            UploadAction::Reallocate { size } => is_pow2(size as nat) && size >= len
                && size % COPY_BUFFER_ALIGNMENT == 0 && (size == COPY_BUFFER_ALIGNMENT
                || size < 2 * len),
            _ => false,
        }),
{
    if len == 0 {
        UploadAction::Skip
    } else if capacity >= len {
        UploadAction::WriteInPlace
    } else {
        UploadAction::Reallocate { size: next_copy_buffer_size(len) }
    }
}

} // verus!
