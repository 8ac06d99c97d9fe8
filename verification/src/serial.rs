//! The decision core of serial frame reception: what the receiver loop does
//! with every byte it reads, and what the consumer-facing handle returns
//! when polled.
//!
//! The loop around [`ReceiverCore`] — opening the port, reading with a short
//! timeout, sending messages across a channel, watching the closing flag —
//! is I/O and lives outside this crate. It hands every received byte and a
//! tick-count timestamp in, and carries the returned messages to the
//! consumer. The consumer's side drains its channel and hands the drained
//! messages, in arrival order, to [`HandleState::try_recv_frame`].

use crate::fps::evicted;
use crate::fps::spec_delta;
use crate::fps::Fps;
use crate::fps::RateSample;
use crate::frame::Cbm8032Frame;
use crate::sync::step;
use crate::sync::FrameModel;
use crate::sync::FrameSynchronizer;
use crate::sync::Geometry;
use crate::sync::SyncEvent;
use crate::sync::SyncModel;
use vstd::prelude::*;

verus! {

/// The serial line's fixed baud rate.
pub const BAUD_RATE: u32 = 1500000;

/// One message from the receiver to the consumer: a completed frame and the
/// rates observed when it completed.
pub type Message = (Cbm8032Frame, RateSample);

/// What [`ReceiverCore::process_byte`] decided for one byte.
pub enum ReceiverEvent {
    /// The byte was consumed; nothing to do.
    Nothing,
    /// The byte revealed an out-of-sequence sub-buffer; worth logging,
    /// never fatal.
    OutOfSync,
    /// The byte completed a frame: send this message downstream.
    Frame(Message),
}

/// Owns the synchronizer and the rate tracker and makes every decision of
/// the receive cycle that is not I/O: which bytes complete a frame, and
/// what rates to report alongside it.
pub struct ReceiverCore {
    pub synchronizer: FrameSynchronizer,
    pub fps: Fps,
}

impl ReceiverCore {
    /// Both halves are in their well-formed states.
    pub open spec fn wf(&self) -> bool {
        &&& self.synchronizer.wf()
        &&& self.fps.wf()
    }

    /// A fresh core: the synchronizer scanning for its first zero run, the
    /// given rate tracker as the frame-rate window.
    pub fn new(geom: Geometry, fps: Fps) -> (core: Self)
        requires
            geom.wf(),
            fps.wf(),
        ensures
            core.wf(),
            core.synchronizer.geom == geom,
            core.synchronizer@ == (SyncModel::Counting { count: 0int }),
            core.fps == fps,
    {
        ReceiverCore { synchronizer: FrameSynchronizer::new(geom), fps }
    }

    /// Feed one byte read from the port, stamped with the tick count at
    /// which it was handled. Exactly when the byte completes a frame, the
    /// rate tracker takes a sample and the frame leaves with the freshly
    /// reduced rates; otherwise the tracker is untouched.
    pub fn process_byte(&mut self, byte: u8, now: u64) -> (ev: ReceiverEvent)
        requires
            old(self).wf(),
        ensures
            final(self).wf(),
            final(self).synchronizer.geom == old(self).synchronizer.geom,
            final(self).synchronizer@ == step(
                old(self).synchronizer.geom,
                old(self).synchronizer@,
                byte,
            ).next,
            ({
                let out = step(old(self).synchronizer.geom, old(self).synchronizer@, byte);
                match ev {
                    ReceiverEvent::Nothing => {
                        &&& out.emit is None
                        &&& !out.lost
                        &&& final(self).fps == old(self).fps
                    },
                    ReceiverEvent::OutOfSync => {
                        &&& out.emit is None
                        &&& out.lost
                        &&& final(self).fps == old(self).fps
                    },
                    ReceiverEvent::Frame(m) => {
                        &&& out.emit == Some(FrameModel { mode: m.0.mode, data: m.0.data@ })
                        &&& m.0.data@.len() == old(self).synchronizer.geom.spec_frame_len()
                        &&& final(self).fps.last == now
                        &&& final(self).fps.window_len == old(self).fps.window_len
                        &&& final(self).fps.ticks_per_sec == old(self).fps.ticks_per_sec
                        &&& final(self).fps@ == evicted(
                            old(self).fps.window_len as int,
                            old(self).fps@.push(spec_delta(old(self).fps.last, now)),
                        )
                        &&& m.1.avg_num == final(self).fps.spec_avg().0
                        &&& m.1.avg_den == final(self).fps.spec_avg().1
                        &&& m.1.min_num == final(self).fps.spec_min().0
                        &&& m.1.min_den == final(self).fps.spec_min().1
                        &&& m.1.max_num == final(self).fps.spec_max().0
                        &&& m.1.max_den == final(self).fps.spec_max().1
                    },
                }
            }),
    {
        match self.synchronizer.handle_received_byte(byte) {
            SyncEvent::Continue => ReceiverEvent::Nothing,
            SyncEvent::SyncLost => ReceiverEvent::OutOfSync,
            SyncEvent::FrameComplete(frame) => {
                self.fps.sample(now);
                let hz = self.fps.rate_sample();
                ReceiverEvent::Frame((frame, hz))
            },
        }
    }
}

/// The consumer-side state behind a handle: whether the stream was closed,
/// and the most recent rate sample seen alongside a received frame.
pub struct HandleState {
    pub closed: bool,
    pub last_recorded_frame_hz: RateSample,
}

impl HandleState {
    /// An open handle that has not yet seen any rate sample.
    pub fn new() -> (h: Self)
        ensures
            !h.closed,
            h.last_recorded_frame_hz == RateSample::spec_zero(),
    {
        HandleState { closed: false, last_recorded_frame_hz: RateSample::zero() }
    }

    /// The freshest frame among everything the channel held.
    ///
    /// `drained` is every message buffered since the last poll, in arrival
    /// order: only the newest is returned — freshness beats completeness
    /// for a visualization consumer — and its rate sample is cached. With
    /// nothing drained, nothing is returned and the cache keeps its value.
    /// Once the handle is closed, no frame is ever returned again.
    pub fn try_recv_frame(&mut self, drained: Vec<Message>) -> (frame: Option<Cbm8032Frame>)
        ensures
            final(self).closed == old(self).closed,
            old(self).closed ==> frame is None && *final(self) == *old(self),
            !old(self).closed ==> match frame {
                Some(f) => {
                    &&& drained@.len() > 0
                    &&& f == drained@.last().0
                    &&& final(self).last_recorded_frame_hz == drained@.last().1
                },
                None => {
                    &&& drained@.len() == 0
                    &&& *final(self) == *old(self)
                },
            },
    {
        if self.closed {
            return None;
        }
        let mut drained = drained;
        match drained.pop() {
            None => None,
            Some((frame, hz)) => {
                self.last_recorded_frame_hz = hz;
                Some(frame)
            },
        }
    }

    /// The rate sample cached by the last successful poll.
    pub fn frame_hz(&self) -> (hz: RateSample)
        ensures
            hz == self.last_recorded_frame_hz,
    {
        self.last_recorded_frame_hz
    }

    /// Mark the stream closed. The cached rate sample stays readable.
    pub fn close(&mut self)
        ensures
            final(self).closed,
            final(self).last_recorded_frame_hz == old(self).last_recorded_frame_hz,
    {
        self.closed = true;
    }
}

impl RateSample {
    /// The reading of an empty window: every rate is the rational zero.
    pub open spec fn spec_zero() -> RateSample {
        RateSample { avg_num: 0, avg_den: 1, min_num: 0, min_den: 1, max_num: 0, max_den: 1 }
    }

    /// The reading reported before any frame has arrived.
    pub fn zero() -> (r: RateSample)
        ensures
            r == RateSample::spec_zero(),
    {
        RateSample { avg_num: 0, avg_den: 1, min_num: 0, min_den: 1, max_num: 0, max_den: 1 }
    }
}

impl Default for RateSample {
    /// The zero reading.
    fn default() -> (r: Self)
        ensures
            r == RateSample::spec_zero(),
    {
        RateSample::zero()
    }
}

/// Which of the enumerated serial ports to use: the first USB-type port by
/// position, if any. `is_usb` says, for each enumerated port in order,
/// whether it is a USB port.
pub fn first_usb_index(is_usb: &Vec<bool>) -> (r: Option<usize>)
    ensures
        match r {
            Some(i) => {
                &&& i < is_usb@.len()
                &&& is_usb@[i as int]
                &&& forall|j: int| 0 <= j < i ==> !is_usb@[j]
            },
            None => forall|j: int| 0 <= j < is_usb@.len() ==> !is_usb@[j],
        },
{
    let mut i: usize = 0;
    while i < is_usb.len()
        invariant
            i <= is_usb@.len(),
            forall|j: int| 0 <= j < i ==> !is_usb@[j],
        decreases is_usb@.len() - i,
    {
        if is_usb[i] {
            return Some(i);
        }
        i += 1;
    }
    None
}

} // verus!
