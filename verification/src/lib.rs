//! A progressive scan-line freeze for a stream of fixed-size RGBA frames.
//!
//! Each incoming live frame donates its next rows to a growing block of
//! frozen rows. The frame handed on shows the frozen rows on top, one marker
//! row below them, and the live frame in the rest. Once the marker row has no
//! room left the stream ends.

pub mod laws;
pub mod line;
pub mod marker;
pub mod pixel;
pub mod source;
pub mod state;
