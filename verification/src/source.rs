//! Frame sources: whatever hands on one frame per pull, or ends the stream.

use vstd::prelude::*;
use crate::line::Line;
use crate::pixel::{rgba_of, to_rgba};
use crate::state::bytes_of;

verus! {

/// A producer of frames, pulled once per frame shown.
pub trait FrameSource {
    /// The next frame, or `None` once the stream has ended.
    fn next_frame(&mut self) -> Option<Vec<u8>>;
}

/// A frame source that freezes: it pulls live frames from `device` and hands
/// on what `line` makes of them.
pub struct LineDrawingDevice<D: FrameSource> {
    pub device: D,
    pub line: Line,
}

impl<D: FrameSource> FrameSource for LineDrawingDevice<D> {
    /// Pulls one live frame from the device, freezes its next rows and hands
    /// on the composed frame. Whatever the device gave, the line and the
    /// frame handed on are what one pull makes of it.
    fn next_frame(&mut self) -> (composed: Option<Vec<u8>>)
        ensures
            exists|captured: Option<Seq<u8>>|
                final(self).line@ == #[trigger] old(self).line@.after(captured) && bytes_of(
                    composed,
                ) == old(self).line@.output(captured),
            final(self).line@.valid(),
            old(self).line@.frozen.is_prefix_of(final(self).line@.frozen),
            composed matches Some(out) ==> out@.len() == old(self).line@.frame_len(),
    {
        let frame = self.device.next_frame();
        let ghost captured = bytes_of(frame);
        let composed = self.line.advance(frame);
        assert(self.line@ == old(self).line@.after(captured));
        composed
    }
}

/// One pull of a frame source that hands the camera's frames on as they are:
/// given what the capture gave, the frame in the compositor's channel order.
/// A failed capture ends the stream.
pub fn passthrough(captured: Option<Vec<u8>>) -> (frame: Option<Vec<u8>>)
    ensures
        bytes_of(frame) == match bytes_of(captured) {
            Some(raw) => Some(rgba_of(raw)),
            None => None,
        },
        captured matches Some(raw) ==> frame matches Some(out) && out@.len() == raw@.len(),
{
    match captured {
        Some(raw) => {
            let mut frame = raw;
            to_rgba(&mut frame);
            Some(frame)
        },
        None => None,
    }
}

} // verus!
