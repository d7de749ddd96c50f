use freeze_line::line::Line;
use freeze_line::marker::{MARKER_ALPHA, MARKER_BLUE, MARKER_GREEN, MARKER_RED};
use freeze_line::source::{FrameSource, LineDrawingDevice};

/// A frame source that hands on what it was given, one capture per pull.
struct Replay {
    captures: Vec<Option<Vec<u8>>>,
    pulled: usize,
}

impl Replay {
    fn of(captures: Vec<Option<Vec<u8>>>) -> Replay {
        Replay { captures, pulled: 0 }
    }
}

impl FrameSource for Replay {
    fn next_frame(&mut self) -> Option<Vec<u8>> {
        let capture = self.captures.get(self.pulled).cloned().flatten();
        self.pulled += 1;
        capture
    }
}

fn marker_row(frame_width: usize) -> Vec<u8> {
    let mut row = Vec::new();
    for _ in 0..frame_width {
        row.extend_from_slice(&[MARKER_RED, MARKER_GREEN, MARKER_BLUE, MARKER_ALPHA]);
    }
    row
}

/// A frame of 2 by 3 pixels, all zero but for one byte per row that tells
/// the frame and the row.
fn tagged_frame(tag: u8) -> Vec<u8> {
    let mut frame = vec![0u8; 24];
    for row in 0..3 {
        frame[row * 8] = tag * 10 + row as u8;
    }
    frame
}

#[test]
fn three_frames_through_a_frame_of_three_rows() {
    let mut line = Line::with_geometry(2, 3, 1).unwrap();
    let (one, two, three) = (tagged_frame(1), tagged_frame(2), tagged_frame(3));

    let first = line.advance(Some(one.clone()));
    assert_eq!(line.currently_frozen(), &one[0..8].to_vec());
    let mut expected = one[0..8].to_vec();
    expected.extend_from_slice(&marker_row(2));
    expected.extend_from_slice(&one[16..24]);
    assert_eq!(expected.len(), 24);
    assert_eq!(first, Some(expected));

    let second = line.advance(Some(two.clone()));
    let mut frozen = one[0..8].to_vec();
    frozen.extend_from_slice(&two[8..16]);
    assert_eq!(frozen.len(), 16);
    assert_eq!(line.currently_frozen(), &frozen);
    assert_eq!(second, None);

    let third = line.advance(Some(three.clone()));
    frozen.extend_from_slice(&three[16..24]);
    assert_eq!(line.currently_frozen().len(), 24);
    assert_eq!(line.currently_frozen(), &frozen);
    assert_eq!(third, None);
}

#[test]
fn advance_freezes_first_and_composes_after() {
    let mut line = Line::with_geometry(1, 4, 1).unwrap();
    let live: Vec<u8> = (1..=16).collect();
    let composed = line.advance(Some(live)).unwrap();
    assert_eq!(composed, vec![1, 2, 3, 4, 163, 73, 164, 126, 9, 10, 11, 12, 13, 14, 15, 16]);
}

#[test]
fn advance_on_a_failed_capture_ends_the_stream_and_keeps_the_line() {
    let mut line = Line::with_geometry(2, 3, 1).unwrap();
    line.advance(Some(tagged_frame(1)));
    let frozen = line.currently_frozen().clone();
    assert_eq!(line.advance(None), None);
    assert_eq!(line.y_pos(), 1);
    assert_eq!(line.currently_frozen(), &frozen);
}

#[test]
fn advance_on_a_short_frame_hands_on_nothing() {
    let mut line = Line::with_geometry(2, 4, 1).unwrap();
    assert_eq!(line.advance(Some(vec![1u8; 5])), None);
    assert_eq!(line.y_pos(), 0);
    assert!(line.currently_frozen().is_empty());
    assert!(line.advance(Some(vec![1u8; 32])).is_some());
}

#[test]
fn one_row_per_pull_freezes_the_frame_in_as_many_pulls_as_rows() {
    for height in 1..12usize {
        let width = 3usize;
        let frame_len = width * height * 4;
        let mut line = Line::with_geometry(width, height, 1).unwrap();
        for pull in 1..=height + 3 {
            let live: Vec<u8> = (0..frame_len).map(|i| (i + pull) as u8).collect();
            let composed = line.advance(Some(live));
            assert_eq!(line.y_pos(), pull.min(height));
            assert_eq!(line.currently_frozen().len() >= frame_len, pull >= height);
            assert_eq!(composed.is_some(), pull + 1 < height);
        }
    }
}

#[test]
fn frozen_rows_never_shrink() {
    let mut line = Line::with_geometry(2, 5, 1).unwrap();
    let captures: Vec<Option<Vec<u8>>> = vec![
        Some(vec![1; 40]),
        None,
        Some(vec![2; 3]),
        Some(vec![3; 40]),
        Some(vec![]),
        Some(vec![4; 90]),
        Some(vec![5; 40]),
        None,
        Some(vec![6; 40]),
        Some(vec![7; 40]),
        Some(vec![8; 40]),
    ];
    let mut before = line.currently_frozen().clone();
    for captured in captures {
        line.advance(captured);
        let after = line.currently_frozen().clone();
        assert!(after.len() >= before.len());
        assert!(after.len() <= 40);
        assert_eq!(after.len() % 8, 0);
        assert_eq!(after.len(), line.y_pos() * 8);
        assert_eq!(after[..before.len()].to_vec(), before);
        before = after;
    }
    assert_eq!(before.len(), 40);
}

#[test]
fn every_frame_handed_on_has_the_length_of_one_frame() {
    let mut line = Line::with_geometry(4, 7, 2).unwrap();
    let mut handed_on = 0;
    for pull in 0..10u8 {
        if let Some(frame) = line.advance(Some(vec![pull; 4 * 7 * 4 + pull as usize])) {
            assert_eq!(frame.len(), 4 * 7 * 4);
            handed_on += 1;
        }
    }
    assert_eq!(handed_on, 2);
}

#[test]
fn marker_row_is_the_same_in_every_frame_handed_on() {
    let mut line = Line::with_geometry(3, 6, 1).unwrap();
    let mut rows = Vec::new();
    for pull in 0..6u8 {
        let live = vec![pull.wrapping_mul(41); 72];
        if let Some(frame) = line.advance(Some(live)) {
            let from = line.currently_frozen().len();
            rows.push(frame[from..from + 12].to_vec());
        }
    }
    assert_eq!(rows.len(), 4);
    for row in rows {
        assert_eq!(row, marker_row(3));
        for pixel in row.chunks(4) {
            assert_eq!(pixel, &[163, 73, 164, 126]);
        }
    }
}

#[test]
fn nothing_is_handed_on_after_the_stream_has_ended() {
    let mut line = Line::with_geometry(2, 3, 1).unwrap();
    assert!(line.advance(Some(vec![1; 24])).is_some());
    assert!(line.advance(Some(vec![2; 24])).is_none());
    for captured in [Some(vec![3u8; 24]), None, Some(vec![4; 7]), Some(vec![5; 99]), Some(vec![6; 24])] {
        assert_eq!(line.advance(captured), None);
    }
    assert_eq!(line.y_pos(), 3);
}

#[test]
fn line_drawing_device_freezes_what_its_device_hands_on() {
    let (one, two, three) = (tagged_frame(1), tagged_frame(2), tagged_frame(3));
    let mut source = LineDrawingDevice {
        device: Replay::of(vec![Some(one.clone()), Some(two.clone()), Some(three)]),
        line: Line::with_geometry(2, 3, 1).unwrap(),
    };

    let mut expected = one[0..8].to_vec();
    expected.extend_from_slice(&marker_row(2));
    expected.extend_from_slice(&one[16..24]);
    assert_eq!(source.next_frame(), Some(expected));
    assert_eq!(source.line.y_pos(), 1);

    assert_eq!(source.next_frame(), None);
    assert_eq!(source.line.y_pos(), 2);
    assert_eq!(source.next_frame(), None);
    assert_eq!(source.line.y_pos(), 3);
    assert_eq!(source.device.pulled, 3);
}

#[test]
fn line_drawing_device_ends_the_stream_when_its_device_does() {
    let mut source = LineDrawingDevice {
        device: Replay::of(vec![Some(vec![9; 64]), None, Some(vec![8; 64])]),
        line: Line::with_geometry(4, 4, 1).unwrap(),
    };
    assert!(source.next_frame().is_some());
    assert_eq!(source.next_frame(), None);
    assert_eq!(source.line.y_pos(), 1);
    assert_eq!(source.line.currently_frozen(), &vec![9u8; 16]);
    let third = source.next_frame().unwrap();
    assert_eq!(third[0..16].to_vec(), vec![9u8; 16]);
    assert_eq!(third[16..32].to_vec(), vec![8u8; 16]);
    assert_eq!(third[32..48].to_vec(), marker_row(4));
    assert_eq!(third[48..64].to_vec(), vec![8u8; 16]);
}

#[test]
fn line_drawing_devices_can_be_stacked() {
    let inner = LineDrawingDevice {
        device: Replay::of(vec![Some(vec![1; 48]), Some(vec![2; 48])]),
        line: Line::with_geometry(3, 4, 1).unwrap(),
    };
    let mut outer = LineDrawingDevice { device: inner, line: Line::with_geometry(3, 4, 2).unwrap() };
    let frame = outer.next_frame().unwrap();
    assert_eq!(frame.len(), 48);
    assert_eq!(frame[0..12].to_vec(), vec![1u8; 12]);
    assert_eq!(frame[12..24].to_vec(), marker_row(3));
    assert_eq!(frame[24..36].to_vec(), marker_row(3));
    assert_eq!(frame[36..48].to_vec(), vec![1u8; 12]);
}
