//! The freeze accumulator and the compositor that reads it.

use vstd::prelude::*;
use crate::marker::{marker_row, MARKER_ALPHA, MARKER_BLUE, MARKER_GREEN, MARKER_RED};
use crate::pixel::CHANNELS;
use crate::state::{bytes_of, lemma_row_bytes, FreezeState};

verus! {

/// The horizontal line that travels down the frame and freezes what it has
/// passed. For now up -> down only.
pub struct Line {
    frame_width: usize,
    frame_height: usize,
    y_pos: usize,
    size: usize,
    currently_frozen: Vec<u8>,
}

impl View for Line {
    type V = FreezeState;

    closed spec fn view(&self) -> FreezeState {
        FreezeState {
            frame_width: self.frame_width as nat,
            frame_height: self.frame_height as nat,
            rows_per_step: self.size as nat,
            next_row: self.y_pos as nat,
            frozen: self.currently_frozen@,
        }
    }
}

impl Line {
    /// Every line is valid, and a whole frame of its dimensions can be
    /// addressed.
    #[verifier::type_invariant]
    spec fn inv(self) -> bool {
        &&& self@.valid()
        &&& self@.frame_len() <= usize::MAX
    }

    /// A line at the top of a frame of 640 by 480 pixels that freezes one row
    /// per step.
    pub fn new() -> (line: Self)
        ensures
            line@ == FreezeState::fresh(640, 480, 1),
            line@.valid(),
    {
        Self { frame_width: 640, frame_height: 480, y_pos: 0, size: 1, currently_frozen: vec![] }
    }

    /// A line at the top of a frame of `frame_width` by `frame_height` pixels
    /// that freezes `size` rows per step. There is none where a dimension or
    /// `size` is zero, or where a frame of these dimensions has more bytes
    /// than can be addressed.
    pub fn with_geometry(frame_width: usize, frame_height: usize, size: usize) -> (line: Option<Self>)
        ensures
            line is Some <==> frame_width > 0 && frame_height > 0 && size > 0 && frame_height
                * (frame_width * 4) <= usize::MAX,
            line matches Some(l) ==> l@ == FreezeState::fresh(
                frame_width as nat,
                frame_height as nat,
                size as nat,
            ) && l@.valid(),
    {
        if frame_width == 0 || frame_height == 0 || size == 0 {
            return None;
        }
        let width_4 = match frame_width.checked_mul(CHANNELS) {
            Some(width_4) => width_4,
            None => {
                proof {
                    lemma_row_bytes((frame_width * 4) as nat, 1, frame_height as nat);
                }
                return None;
            },
        };
        if frame_height.checked_mul(width_4).is_none() {
            return None;
        }
        Some(Self { frame_width, frame_height, y_pos: 0, size, currently_frozen: vec![] })
    }

    /// Pixels per row.
    pub fn frame_width(&self) -> (width: usize)
        ensures
            width == self@.frame_width,
    {
        self.frame_width
    }

    /// Rows per frame.
    pub fn frame_height(&self) -> (height: usize)
        ensures
            height == self@.frame_height,
    {
        self.frame_height
    }

    /// The row that is frozen next.
    pub fn y_pos(&self) -> (row: usize)
        ensures
            row == self@.next_row,
    {
        self.y_pos
    }

    /// Rows frozen per step.
    pub fn size(&self) -> (rows: usize)
        ensures
            rows == self@.rows_per_step,
    {
        self.size
    }

    /// The rows frozen so far, top to bottom.
    pub fn currently_frozen(&self) -> (frozen: &Vec<u8>)
        ensures
            frozen@ == self@.frozen,
    {
        &self.currently_frozen
    }

    /// Freezes the next rows of `live_frame`: appends them to the frozen rows
    /// and moves the line down by as many rows. Where `live_frame` does not
    /// reach to the end of those rows, or they would lie below the frame,
    /// nothing is read and nothing changes.
    pub fn extract_and_freeze(&mut self, live_frame: &Vec<u8>)
        ensures
            final(self)@ == old(self)@.freeze(live_frame@),
            final(self)@.valid(),
            old(self)@.frozen.is_prefix_of(final(self)@.frozen),
            final(self)@.frozen.len() == old(self)@.frozen.len() + (if old(self)@.can_freeze(
                live_frame@,
            ) {
                old(self)@.rows_per_step * old(self)@.stride()
            } else {
                0
            }),
    {
        proof {
            use_type_invariant(&*self);
            lemma_row_bytes(self@.stride(), self@.next_row, self@.rows_per_step);
            lemma_row_bytes(self@.stride(), self@.next_row, self@.frame_height);
            lemma_row_bytes(
                self@.stride(),
                self@.next_row + self@.rows_per_step,
                self@.frame_height,
            );
        }
        if self.size > self.frame_height - self.y_pos {
            return ;
        }
        let width_4 = self.frame_width * CHANNELS;
        let yank_from = self.y_pos * width_4;
        let to_yank = self.size * width_4;
        let yank_to = yank_from + to_yank;
        if yank_to > live_frame.len() {
            return ;
        }
        // The line is taken out whole, so that its rows and its position are
        // never seen out of step.
        let mut taken = Line::new();
        std::mem::swap(self, &mut taken);
        let Line { frame_width, frame_height, y_pos, size, currently_frozen } = taken;
        let mut currently_frozen = currently_frozen;
        currently_frozen.extend_from_slice(&live_frame.as_slice()[yank_from..yank_to]);
        assert(currently_frozen@ =~= old(self)@.frozen + live_frame@.subrange(
            yank_from as int,
            yank_to as int,
        ));
        *self = Line { frame_width, frame_height, y_pos: y_pos + size, size, currently_frozen };
    }

    /// One pull of a frame source that freezes: given what the capture gave,
    /// freezes the next rows of the live frame and composes the frame to hand
    /// on. A failed capture ends the stream and leaves the line as it is.
    pub fn advance(&mut self, captured: Option<Vec<u8>>) -> (composed: Option<Vec<u8>>)
        ensures
            final(self)@ == old(self)@.after(bytes_of(captured)),
            bytes_of(composed) == old(self)@.output(bytes_of(captured)),
            final(self)@.valid(),
            composed matches Some(out) ==> out@.len() == old(self)@.frame_len(),
    {
        proof {
            use_type_invariant(&*self);
        }
        match captured {
            Some(frame) => {
                self.extract_and_freeze(&frame);
                merge(frame, self)
            },
            None => None,
        }
    }
}

/// Composes the frame to hand on for the live frame `frame`: the frozen rows
/// of `line`, one marker row, then `frame` from there to the end. There is
/// nothing to hand on once the marker row reaches the end of the frame, nor
/// where `frame` is too short to fill the rest.
pub fn merge(frame: Vec<u8>, line: &Line) -> (composed: Option<Vec<u8>>)
    ensures
        bytes_of(composed) == line@.compose(frame@),
        composed matches Some(out) ==> out@.len() == line@.frame_len(),
{
    proof {
        use_type_invariant(line);
        lemma_row_bytes(line@.stride(), 1, line@.frame_height);
    }
    let width_4 = line.frame_width * CHANNELS;
    let max_len = line.frame_height * width_4;
    let frozen_part = &line.currently_frozen;
    if frozen_part.len() >= max_len {
        None
    } else {
        // (163, 73, 164) is purple.
        let mut purple_line: Vec<u8> = vec![];
        for pixel in 0..line.frame_width
            invariant
                purple_line@ == marker_row(pixel as nat),
        {
            purple_line.push(MARKER_RED);
            purple_line.push(MARKER_GREEN);
            purple_line.push(MARKER_BLUE);
            purple_line.push(MARKER_ALPHA);
            assert(purple_line@ =~= marker_row((pixel + 1) as nat));
        }
        let mut result = vec![];
        result.extend_from_slice(frozen_part.as_slice());
        result.extend_from_slice(purple_line.as_slice());
        assert(result@ =~= line@.frozen + marker_row(line@.frame_width));
        if result.len() >= max_len || frame.len() < max_len {
            None
        } else {
            let new_part = &frame.as_slice()[result.len()..max_len];
            result.extend_from_slice(new_part);
            assert(result@ =~= line@.frozen + marker_row(line@.frame_width) + frame@.subrange(
                line@.live_from() as int,
                line@.frame_len() as int,
            ));
            Some(result)
        }
    }
}

} // verus!
