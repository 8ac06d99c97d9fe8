//! Frame synchronizer behaviour on synthetic byte streams.

use cbm8032_vis::frame::byte_to_char_sheet_col_row;
use cbm8032_vis::frame::byte_to_mode;
use cbm8032_vis::frame::Cbm8032Frame;
use cbm8032_vis::frame::Cbm8032FrameMode;
use cbm8032_vis::sync::FrameSynchronizer;
use cbm8032_vis::sync::Geometry;
use cbm8032_vis::sync::SyncEvent;

const W: usize = 40;
const N: usize = 50;
const MARKER: u8 = 51;

fn sub_buffer(seqnum: u8, payload: &[u8]) -> Vec<u8> {
    assert_eq!(payload.len(), W);
    let mut v = vec![seqnum];
    v.extend_from_slice(payload);
    v
}

fn payloads() -> Vec<Vec<u8>> {
    (0..N).map(|i| vec![(i as u8).wrapping_mul(3); W]).collect()
}

fn mode_sub_buffer(mode_byte: u8) -> Vec<u8> {
    let mut payload = vec![0u8; W];
    payload[0] = mode_byte;
    sub_buffer(MARKER, &payload)
}

fn frame_stream(payloads: &[Vec<u8>], mode_byte: u8) -> Vec<u8> {
    let mut s = vec![0u8; W];
    for (i, p) in payloads.iter().enumerate() {
        s.extend_from_slice(&sub_buffer((i + 1) as u8, p));
    }
    s.extend_from_slice(&mode_sub_buffer(mode_byte));
    s
}

fn new_sync() -> FrameSynchronizer {
    FrameSynchronizer::new(Geometry::cbm8032())
}

#[test]
fn well_formed_stream_emits_one_frame() {
    let ps = payloads();
    let stream = frame_stream(&ps, 0);
    let mut sync = new_sync();
    let frames = sync.feed_bytes(&stream);
    assert_eq!(frames.len(), 1);
    let expected: Vec<u8> = ps.concat();
    assert_eq!(frames[0].data, expected);
    assert_eq!(frames[0].data.len(), 2000);
    assert_eq!(frames[0].mode, Cbm8032FrameMode::Graphics);
}

#[test]
fn mode_byte_nonzero_selects_text() {
    let ps = payloads();
    let stream = frame_stream(&ps, 7);
    let mut sync = new_sync();
    let frames = sync.feed_bytes(&stream);
    assert_eq!(frames.len(), 1);
    assert_eq!(frames[0].mode, Cbm8032FrameMode::Text);
}

#[test]
fn corrupted_sequence_number_emits_nothing_and_resyncs() {
    let ps = payloads();
    let mut corrupt = vec![0u8; W];
    corrupt.extend_from_slice(&sub_buffer(1, &ps[0]));
    corrupt.extend_from_slice(&sub_buffer(2, &ps[1]));
    // Sub-buffer 3 arrives numbered 9: synchronization is lost.
    corrupt.extend_from_slice(&sub_buffer(9, &ps[2]));

    let mut sync = new_sync();
    let frames = sync.feed_bytes(&corrupt);
    assert_eq!(frames.len(), 0);

    // A subsequent well-formed transmission produces a correct frame again.
    let frames = sync.feed_bytes(&frame_stream(&ps, 0));
    assert_eq!(frames.len(), 1);
    assert_eq!(frames[0].data, ps.concat());
    assert_eq!(frames[0].mode, Cbm8032FrameMode::Graphics);
}

#[test]
fn corruption_reports_exactly_one_sync_loss() {
    let ps = payloads();
    let mut corrupt = vec![0u8; W];
    corrupt.extend_from_slice(&sub_buffer(1, &ps[0]));
    corrupt.extend_from_slice(&sub_buffer(9, &ps[1]));
    let mut sync = new_sync();
    let mut losses = 0;
    let mut completions = 0;
    for &b in &corrupt {
        match sync.handle_received_byte(b) {
            SyncEvent::SyncLost => losses += 1,
            SyncEvent::FrameComplete(_) => completions += 1,
            SyncEvent::Continue => (),
        }
    }
    assert_eq!(losses, 1);
    assert_eq!(completions, 0);
}

#[test]
fn replayed_stream_after_padding_gives_identical_frames() {
    let ps = payloads();
    let stream = frame_stream(&ps, 0);
    let pad = sub_buffer(MARKER, &[0u8; W]);
    let mut whole = stream.clone();
    whole.extend_from_slice(&pad);
    whole.extend_from_slice(&stream);

    let mut sync = new_sync();
    let frames = sync.feed_bytes(&whole);
    assert_eq!(frames.len(), 2);
    assert_eq!(frames[0], frames[1]);
    assert_eq!(frames[0].data, ps.concat());
}

#[test]
fn padding_sub_buffer_alone_does_not_double_complete() {
    let ps = payloads();
    let mut whole = frame_stream(&ps, 0);
    whole.extend_from_slice(&sub_buffer(MARKER, &[0u8; W]));
    let mut sync = new_sync();
    let mut losses = 0;
    let mut completions = 0;
    for &b in &whole {
        match sync.handle_received_byte(b) {
            SyncEvent::SyncLost => losses += 1,
            SyncEvent::FrameComplete(_) => completions += 1,
            SyncEvent::Continue => (),
        }
    }
    assert_eq!(completions, 1);
    assert_eq!(losses, 0);
}

#[test]
fn stream_without_zero_run_never_emits() {
    // Sub-buffers without the sync preamble: frame boundaries cannot be
    // recovered, so nothing may be emitted.
    let ps = payloads();
    let mut stream = Vec::new();
    for (i, p) in ps.iter().enumerate() {
        stream.extend_from_slice(&sub_buffer((i + 1) as u8, p));
    }
    stream.extend_from_slice(&mode_sub_buffer(0));
    // Keep every byte nonzero so no zero run can form by accident.
    let stream: Vec<u8> = stream.iter().map(|&b| if b == 0 { 1 } else { b }).collect();
    let mut sync = new_sync();
    let frames = sync.feed_bytes(&stream);
    assert_eq!(frames.len(), 0);
}

#[test]
fn short_zero_run_is_reset_by_nonzero_byte() {
    let ps = payloads();
    let mut stream = vec![0u8; W - 1];
    stream.push(200);
    stream.extend_from_slice(&frame_stream(&ps, 0));
    let mut sync = new_sync();
    let frames = sync.feed_bytes(&stream);
    assert_eq!(frames.len(), 1);
    assert_eq!(frames[0].data, ps.concat());
}

#[test]
fn back_to_back_transmissions_need_no_second_zero_run() {
    // After a completed frame the machine expects sub-buffer 1 again, so a
    // device may start the next transmission immediately.
    let ps = payloads();
    let mut whole = frame_stream(&ps, 0);
    for (i, p) in ps.iter().enumerate() {
        whole.extend_from_slice(&sub_buffer((i + 1) as u8, p));
    }
    whole.extend_from_slice(&mode_sub_buffer(1));
    let mut sync = new_sync();
    let frames = sync.feed_bytes(&whole);
    assert_eq!(frames.len(), 2);
    assert_eq!(frames[0].mode, Cbm8032FrameMode::Graphics);
    assert_eq!(frames[1].mode, Cbm8032FrameMode::Text);
    assert_eq!(frames[1].data, ps.concat());
}

#[test]
fn tiny_geometry_works_the_same_way() {
    // One payload byte per sub-buffer, one data sub-buffer per frame: the
    // marker is 2 and the whole transmission is five bytes long.
    let g = Geometry::new(1, 1).expect("a one-byte geometry is within bounds");
    assert_eq!(g.frame_len(), 1);
    assert_eq!(g.marker(), 2);
    let mut sync = FrameSynchronizer::new(g);
    let stream = [0u8, 1, 0xAA, 2, 0];
    let frames = sync.feed_bytes(&stream);
    assert_eq!(frames.len(), 1);
    assert_eq!(frames[0].data, vec![0xAA]);
    assert_eq!(frames[0].mode, Cbm8032FrameMode::Graphics);
}

#[test]
fn geometry_constants_of_the_cbm8032() {
    let g = Geometry::cbm8032();
    assert_eq!(g.data_per_buffer, 40);
    assert_eq!(g.data_buffers, 50);
    assert_eq!(g.frame_len(), 2000);
    assert_eq!(g.marker(), 51);
}

#[test]
fn geometry_bounds_are_enforced() {
    assert!(Geometry::new(40, 50).is_some());
    assert!(Geometry::new(1, 1).is_some());
    assert!(Geometry::new(0, 50).is_none());
    assert!(Geometry::new(40, 0).is_none());
    assert!(Geometry::new(40, 255).is_none());
    assert!(Geometry::new(70000, 5).is_none());
}

#[test]
fn byte_to_mode_mapping() {
    assert_eq!(byte_to_mode(0), Cbm8032FrameMode::Graphics);
    assert_eq!(byte_to_mode(1), Cbm8032FrameMode::Text);
    assert_eq!(byte_to_mode(255), Cbm8032FrameMode::Text);
}

#[test]
fn blank_graphics_frame() {
    let f = Cbm8032Frame::blank_graphics();
    assert_eq!(f.mode, Cbm8032FrameMode::Graphics);
    assert_eq!(f.data.len(), 2000);
    assert!(f.data.iter().all(|&b| b == 32));
}

#[test]
fn char_sheet_lookup() {
    assert_eq!(byte_to_char_sheet_col_row(0, &Cbm8032FrameMode::Graphics), [0, 0]);
    assert_eq!(byte_to_char_sheet_col_row(37, &Cbm8032FrameMode::Graphics), [5, 2]);
    assert_eq!(byte_to_char_sheet_col_row(255, &Cbm8032FrameMode::Text), [15, 31]);
    assert_eq!(byte_to_char_sheet_col_row(0, &Cbm8032FrameMode::Text), [0, 16]);
}
