//! The mathematical model of the freeze accumulator: what it holds, what one
//! live frame does to it, and which frame is handed on.

use vstd::prelude::*;
use crate::marker::marker_row;

verus! {

/// What a freeze accumulator holds, as plain mathematical values.
pub struct FreezeState {
    /// Pixels per row.
    pub frame_width: nat,
    /// Rows per frame.
    pub frame_height: nat,
    /// Rows that one live frame adds to the frozen block.
    pub rows_per_step: nat,
    /// The row that is frozen next; also the number of rows frozen so far.
    pub next_row: nat,
    /// The frozen rows, top to bottom.
    pub frozen: Seq<u8>,
}

impl FreezeState {
    /// The state at the start of a run: nothing frozen yet.
    pub open spec fn fresh(frame_width: nat, frame_height: nat, rows_per_step: nat) -> FreezeState {
        FreezeState { frame_width, frame_height, rows_per_step, next_row: 0, frozen: Seq::empty() }
    }

    /// Bytes per row.
    pub open spec fn stride(self) -> nat {
        self.frame_width * 4
    }

    /// Bytes per frame.
    pub open spec fn frame_len(self) -> nat {
        self.frame_height * self.stride()
    }

    /// The dimensions are positive, the cursor is within the frame, and the
    /// frozen block holds exactly the rows above the cursor.
    pub open spec fn valid(self) -> bool {
        &&& self.frame_width > 0
        &&& self.frame_height > 0
        &&& self.rows_per_step > 0
        &&& self.next_row <= self.frame_height
        &&& self.frozen.len() == self.next_row * self.stride()
    }

    /// Every row of the frame is frozen.
    pub open spec fn complete(self) -> bool {
        self.frozen.len() >= self.frame_len()
    }

    /// The marker row has no room left below the frozen rows with at least
    /// one live row under it: no frame is handed on any more.
    pub open spec fn exhausted(self) -> bool {
        self.live_from() >= self.frame_len()
    }

    /// Offset just past the marker row: where the live part of a composed
    /// frame begins.
    pub open spec fn live_from(self) -> nat {
        self.frozen.len() + self.stride()
    }

    /// Offset of the first byte that the next step freezes.
    pub open spec fn yank_from(self) -> nat {
        self.next_row * self.stride()
    }

    /// Offset just past the last byte that the next step freezes.
    pub open spec fn yank_to(self) -> nat {
        (self.next_row + self.rows_per_step) * self.stride()
    }

    /// Whether `live` supplies the rows of the next step: they lie within the
    /// frame's height and within the bytes that `live` has.
    pub open spec fn can_freeze(self, live: Seq<u8>) -> bool {
        &&& self.next_row + self.rows_per_step <= self.frame_height
        &&& self.yank_to() <= live.len()
    }

    /// The state after `live` has been offered for freezing: its next rows are
    /// appended and the cursor moves on, or nothing changes where `live`
    /// cannot supply them.
    pub open spec fn freeze(self, live: Seq<u8>) -> FreezeState {
        if self.can_freeze(live) {
            FreezeState {
                next_row: self.next_row + self.rows_per_step,
                frozen: self.frozen + live.subrange(self.yank_from() as int, self.yank_to() as int),
                ..self
            }
        } else {
            self
        }
    }

    /// The frame handed on for `live`: the frozen rows, the marker row, then
    /// `live` from there to the end of the frame. There is none once the
    /// marker row reaches the end of the frame, nor where `live` is too short
    /// to fill the rest.
    pub open spec fn compose(self, live: Seq<u8>) -> Option<Seq<u8>> {
        if !self.exhausted() && live.len() >= self.frame_len() {
            Some(
                self.frozen + marker_row(self.frame_width) + live.subrange(
                    self.live_from() as int,
                    self.frame_len() as int,
                ),
            )
        } else {
            None
        }
    }

    /// The state after one pull of the frame source, given what the capture
    /// gave: a failed capture changes nothing.
    pub open spec fn after(self, captured: Option<Seq<u8>>) -> FreezeState {
        match captured {
            Some(live) => self.freeze(live),
            None => self,
        }
    }

    /// The frame that one pull of the frame source hands on, given what the
    /// capture gave: the live frame is frozen from first and composed after.
    pub open spec fn output(self, captured: Option<Seq<u8>>) -> Option<Seq<u8>> {
        match captured {
            Some(live) => self.freeze(live).compose(live),
            None => None,
        }
    }

    /// The state after a series of pulls, given what each capture gave.
    pub open spec fn run(self, pulls: Seq<Option<Seq<u8>>>) -> FreezeState
        decreases pulls.len(),
    {
        if pulls.len() == 0 {
            self
        } else {
            self.run(pulls.drop_last()).after(pulls.last())
        }
    }
}

/// The bytes of a frame that may be missing.
pub open spec fn bytes_of(frame: Option<Vec<u8>>) -> Option<Seq<u8>> {
    match frame {
        Some(bytes) => Some(bytes@),
        None => None,
    }
}

/// Rows and bytes are in step: whole rows add up, and more rows are more
/// bytes.
pub proof fn lemma_row_bytes(stride: nat, a: nat, b: nat)
    ensures
        (a + b) * stride == a * stride + b * stride,
        a <= b ==> a * stride <= b * stride,
        stride > 0 && a < b ==> a * stride + stride <= b * stride,
        stride > 0 && a * stride <= b * stride ==> a <= b,
        stride > 0 && a * stride < b * stride ==> a < b,
{
    assert((a + b) * stride == a * stride + b * stride) by (nonlinear_arith);
    assert(a <= b ==> a * stride <= b * stride) by (nonlinear_arith);
    assert(stride > 0 && a < b ==> a * stride + stride <= b * stride) by (nonlinear_arith);
    assert(stride > 0 && a * stride <= b * stride ==> a <= b) by (nonlinear_arith);
    assert(stride > 0 && a * stride < b * stride ==> a < b) by (nonlinear_arith);
}

} // verus!
