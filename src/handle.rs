use vstd::prelude::*;

verus! {

/// The bits of a handle that hold the backend tag.
pub const TAG_MASK: u64 = 0xFF00_0000_0000_0000;

/// The bits of a handle that hold the backend-local id.
pub const INNER_MASK: u64 = 0x00FF_FFFF_FFFF_FFFF;

/// Tag of the real-time signal backend.
pub const SIGNAL_TAG: u8 = 1;

/// Tag of the user-level interrupt backend.
pub const INTERRUPT_TAG: u8 = 2;

/// The backends that a handle's tag can select.
#[derive(Clone, Copy, Debug, PartialEq, Eq, Structural)]
pub enum Backend {
    Signal,
    Interrupt,
}

/// Bits 63 to 56 of a handle.
pub open spec fn tag_of(h: u64) -> u8 {
    (h >> 56u64) as u8
}

/// Bits 55 to 0 of a handle.
pub open spec fn inner_of(h: u64) -> u64 {
    h & INNER_MASK
}

/// The handle with the given tag whose inner id is the low 56 bits of `inner`.
pub open spec fn handle_of(tag: u8, inner: u64) -> u64 {
    ((tag as u64) << 56u64) | (inner & INNER_MASK)
}

/// The backend that a tag selects, if any.
pub open spec fn backend_of_tag(tag: u8) -> Option<Backend> {
    if tag == SIGNAL_TAG {
        Some(Backend::Signal)
    } else if tag == INTERRUPT_TAG {
        Some(Backend::Interrupt)
    } else {
        None
    }
}

/// Packs a tag and an inner id into a handle; bits of `inner` above the
/// 56th are dropped.
pub fn encode(tag: u8, inner: u64) -> (h: u64)
    ensures
        h == handle_of(tag, inner),
{
    ((tag as u64) << 56u64) | (inner & INNER_MASK)
}

/// Splits a handle into its tag and its inner id.
pub fn decode(h: u64) -> (r: (u8, u64))
    ensures
        r == (tag_of(h), inner_of(h)),
{
    ((h >> 56u64) as u8, h & INNER_MASK)
}

/// The backend that a handle's tag selects, or `None` for an unknown tag.
pub fn backend_of(h: u64) -> (r: Option<Backend>)
    ensures
        r == backend_of_tag(tag_of(h)),
{
    let (tag, _) = decode(h);
    if tag == SIGNAL_TAG {
        Some(Backend::Signal)
    } else if tag == INTERRUPT_TAG {
        Some(Backend::Interrupt)
    } else {
        None
    }
}

/// Decoding an encoded handle gives back the tag and the inner id, for every
/// inner id that fits in 56 bits.
pub proof fn lemma_decode_encode(tag: u8, inner: u64)
    requires
        inner <= INNER_MASK,
    ensures
        tag_of(handle_of(tag, inner)) == tag,
        inner_of(handle_of(tag, inner)) == inner,
{
    assert((((tag as u64) << 56u64) | (inner & 0x00FF_FFFF_FFFF_FFFFu64)) >> 56u64 == tag as u64)
        by (bit_vector)
        requires
            inner <= 0x00FF_FFFF_FFFF_FFFFu64,
    ;
    assert((((tag as u64) << 56u64) | (inner & 0x00FF_FFFF_FFFF_FFFFu64))
        & 0x00FF_FFFF_FFFF_FFFFu64 == inner) by (bit_vector)
        requires
            inner <= 0x00FF_FFFF_FFFF_FFFFu64,
    ;
}

/// Encoding the two parts of a handle gives back the handle.
pub proof fn lemma_encode_decode(h: u64)
    ensures
        handle_of(tag_of(h), inner_of(h)) == h,
{
    assert((((h >> 56u64) as u8 as u64) << 56u64) | ((h & 0x00FF_FFFF_FFFF_FFFFu64)
        & 0x00FF_FFFF_FFFF_FFFFu64) == h) by (bit_vector);
}

} // verus!
