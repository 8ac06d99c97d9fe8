//! Receiver-cycle decisions and the consumer-side handle state.

use cbm8032_vis::fps::Fps;
use cbm8032_vis::fps::RateSample;
use cbm8032_vis::frame::Cbm8032Frame;
use cbm8032_vis::frame::Cbm8032FrameMode;
use cbm8032_vis::serial::first_usb_index;
use cbm8032_vis::serial::HandleState;
use cbm8032_vis::serial::Message;
use cbm8032_vis::serial::ReceiverCore;
use cbm8032_vis::serial::ReceiverEvent;
use cbm8032_vis::serial::BAUD_RATE;
use cbm8032_vis::sync::Geometry;

const W: usize = 40;
const N: usize = 50;
const MARKER: u8 = 51;

fn frame_stream(mode_byte: u8) -> Vec<u8> {
    let mut s = vec![0u8; W];
    for i in 0..N {
        s.extend_from_slice(&[(i + 1) as u8]);
        s.extend_from_slice(&[i as u8; W]);
    }
    s.push(MARKER);
    let mut mode_payload = vec![0u8; W];
    mode_payload[0] = mode_byte;
    s.extend_from_slice(&mode_payload);
    s
}

fn message(fill: u8) -> Message {
    let frame = Cbm8032Frame::new(Cbm8032FrameMode::Graphics, vec![fill; 2000]);
    let mut hz = RateSample::zero();
    hz.min_num = fill as u64;
    (frame, hz)
}

#[test]
fn receiver_core_emits_one_message_per_transmission() {
    let fps = Fps::with_window_len_and_tick_rate(10, 1000);
    let mut core = ReceiverCore::new(Geometry::cbm8032(), fps);
    let stream = frame_stream(0);
    let mut messages = Vec::new();
    let mut t = 0u64;
    for &b in &stream {
        t += 1;
        match core.process_byte(b, t) {
            ReceiverEvent::Frame(m) => messages.push(m),
            ReceiverEvent::OutOfSync => panic!("no sync loss expected"),
            ReceiverEvent::Nothing => (),
        }
    }
    assert_eq!(messages.len(), 1);
    let (frame, hz) = &messages[0];
    assert_eq!(frame.mode, Cbm8032FrameMode::Graphics);
    assert_eq!(frame.data.len(), 2000);
    // One sample, taken when the last byte of the stream arrived: one delta
    // of the whole stream's duration.
    let expected_delta = stream.len() as u64;
    assert_eq!((hz.min_num, hz.min_den), (1000, expected_delta));
    assert_eq!((hz.max_num, hz.max_den), (1000, expected_delta));
    assert_eq!((hz.avg_num, hz.avg_den), (1000, expected_delta as u128));
}

#[test]
fn receiver_core_reports_sync_loss() {
    let fps = Fps::with_window_len(10);
    let mut core = ReceiverCore::new(Geometry::cbm8032(), fps);
    let mut stream = vec![0u8; W];
    stream.push(1);
    stream.extend_from_slice(&[5u8; W]);
    stream.push(9);  // expected sub-buffer 2: out of sequence
    stream.extend_from_slice(&[5u8; W]);
    let mut losses = 0;
    for &b in &stream {
        if matches!(core.process_byte(b, 0), ReceiverEvent::OutOfSync) {
            losses += 1;
        }
    }
    assert_eq!(losses, 1);
}

#[test]
fn try_recv_frame_returns_only_the_newest_message() {
    let mut h = HandleState::new();
    let drained = vec![message(1), message(2), message(3)];
    let got = h.try_recv_frame(drained);
    let frame = got.expect("a frame was drained");
    assert_eq!(frame.data[0], 3);
    assert_eq!(h.frame_hz().min_num, 3);
}

#[test]
fn try_recv_frame_twice_with_no_new_data() {
    let mut h = HandleState::new();
    let got = h.try_recv_frame(vec![message(7)]);
    assert!(got.is_some());
    let cached = h.frame_hz();
    // Second poll with nothing drained: no frame, cache untouched.
    let got = h.try_recv_frame(Vec::new());
    assert!(got.is_none());
    assert_eq!(h.frame_hz(), cached);
}

#[test]
fn closed_handle_returns_no_frames() {
    let mut h = HandleState::new();
    h.close();
    let got = h.try_recv_frame(vec![message(5), message(6)]);
    assert!(got.is_none());
    // The cached sample is still readable after close.
    assert_eq!(h.frame_hz(), RateSample::zero());
}

#[test]
fn fresh_handle_reports_zero_rate() {
    let h = HandleState::new();
    let z = h.frame_hz();
    assert_eq!((z.avg_num, z.avg_den), (0, 1));
    assert_eq!((z.min_num, z.min_den), (0, 1));
    assert_eq!((z.max_num, z.max_den), (0, 1));
    assert_eq!(RateSample::default(), RateSample::zero());
}

#[test]
fn first_usb_port_is_selected_by_position() {
    assert_eq!(first_usb_index(&vec![false, true, true]), Some(1));
    assert_eq!(first_usb_index(&vec![true]), Some(0));
    assert_eq!(first_usb_index(&vec![false, false]), None);
    assert_eq!(first_usb_index(&Vec::new()), None);
}

#[test]
fn protocol_baud_rate() {
    assert_eq!(BAUD_RATE, 1_500_000);
}
