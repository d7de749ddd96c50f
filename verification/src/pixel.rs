//! Channel order of a frame: four bytes per pixel, the first and the third of
//! which trade places between the order a capture device delivers and the
//! order the compositor works in.

use vstd::prelude::*;

verus! {

/// Bytes per pixel: three colour channels and one opacity channel.
pub const CHANNELS: usize = 4;

/// Whether byte `i` of a buffer of `len` bytes lies in a complete pixel, that
/// is, not in a tail of fewer than four bytes.
pub open spec fn in_whole_pixel(len: nat, i: int) -> bool {
    0 <= i && i - i % 4 + 4 <= len
}

/// The byte that stands at index `i` once the first and third channel of
/// every complete pixel of `raw` have traded places.
pub open spec fn swapped_byte(raw: Seq<u8>, i: int) -> u8 {
    if in_whole_pixel(raw.len(), i) && i % 4 == 0 {
        raw[i + 2]
    } else if in_whole_pixel(raw.len(), i) && i % 4 == 2 {
        raw[i - 2]
    } else {
        raw[i]
    }
}

/// `raw` with the first and third channel of every complete pixel exchanged.
/// A tail of fewer than four bytes stays as it is.
pub open spec fn rgba_of(raw: Seq<u8>) -> Seq<u8> {
    Seq::new(raw.len(), |i: int| swapped_byte(raw, i))
}

/// Exchanges the first and third channel of every pixel in place.
pub fn to_rgba(pixels: &mut Vec<u8>)
    ensures
        final(pixels)@ == rgba_of(old(pixels)@),
{
    let len = pixels.len();
    let mut at: usize = 0;
    while len - at >= 4
        invariant
            at <= len,
            at % 4 == 0,
            pixels@.len() == len,
            old(pixels)@.len() == len,
            forall|i: int| 0 <= i < at ==> pixels@[i] == swapped_byte(old(pixels)@, i),
            forall|i: int| at <= i < len ==> pixels@[i] == old(pixels)@[i],
        decreases len - at,
    {
        let first = pixels[at];
        let third = pixels[at + 2];
        pixels[at] = third;
        pixels[at + 2] = first;
        at = at + 4;
    }
    assert(pixels@ =~= rgba_of(old(pixels)@));
}

/// Exchanging the channels twice gives the buffer back.
pub proof fn lemma_rgba_of_involution(raw: Seq<u8>)
    ensures
        rgba_of(raw).len() == raw.len(),
        rgba_of(rgba_of(raw)) == raw,
{
    assert(rgba_of(rgba_of(raw)) =~= raw);
}

} // verus!
