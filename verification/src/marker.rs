//! The marker row: one row of a single fixed colour that separates the frozen
//! rows above it from the live rows below.

use vstd::prelude::*;

verus! {

/// Red channel of the marker colour.
pub const MARKER_RED: u8 = 163;

/// Green channel of the marker colour.
pub const MARKER_GREEN: u8 = 73;

/// Blue channel of the marker colour.
pub const MARKER_BLUE: u8 = 164;

/// Opacity channel of the marker colour.
pub const MARKER_ALPHA: u8 = 126;

/// One pixel of the marker colour.
pub open spec fn marker_pixel() -> Seq<u8> {
    seq![MARKER_RED, MARKER_GREEN, MARKER_BLUE, MARKER_ALPHA]
}

/// A row of `frame_width` pixels, each of the marker colour.
pub open spec fn marker_row(frame_width: nat) -> Seq<u8> {
    Seq::new(4 * frame_width, |i: int| marker_pixel()[i % 4])
}

/// Every pixel of a marker row is the marker colour.
pub proof fn lemma_marker_row_uniform(frame_width: nat, pixel: int)
    requires
        0 <= pixel < frame_width,
    ensures
        marker_row(frame_width).len() == 4 * frame_width,
        marker_row(frame_width).subrange(4 * pixel, 4 * pixel + 4) == marker_pixel(),
{
    assert(marker_row(frame_width).subrange(4 * pixel, 4 * pixel + 4) =~= marker_pixel());
}

} // verus!
