//! The self-synchronizing protocol state machine that turns the raw serial
//! byte stream into complete frames.
//!
//! Wire protocol (the framing with explicit end-of-frame/padding
//! disambiguation): a frame is sent as a run of zero bytes whose length
//! equals the data width of one sub-buffer, followed by numbered sub-buffers.
//! Each sub-buffer is one sequence-number byte followed by a fixed number of
//! payload bytes. Data sub-buffers carry sequence numbers `1..=n`; one final
//! mode sub-buffer carries the sequence number `n + 1` (the end-of-frame
//! marker) and its first payload byte selects the display mode. A second
//! marker sub-buffer in a row announces the inter-frame zero padding and
//! resets the machine to zero-scanning without emitting anything. Any other
//! unexpected sequence number is a loss of synchronization: the machine
//! drops the partial frame and returns to zero-scanning.

use crate::frame::spec_byte_to_mode;
use crate::frame::byte_to_mode;
use crate::frame::Cbm8032Frame;
use crate::frame::Cbm8032FrameMode;
use vstd::prelude::*;

verus! {

/// Payload bytes in one data sub-buffer of the CBM 8032 protocol.
pub const DATA_PER_BUFFER: usize = 40;

/// Data sub-buffers in one frame of the CBM 8032 protocol.
pub const DATA_BUFFERS_PER_FRAME: usize = 50;

/// Sub-buffers in one frame of the CBM 8032 protocol, the mode sub-buffer
/// included.
pub const TOTAL_BUFFERS_PER_FRAME: usize = 51;

/// The protocol constants of one device generation: the payload width of a
/// sub-buffer and the number of data sub-buffers per frame.
///
/// Two incompatible generations of the wire protocol exist, so these are
/// values rather than hard-coded constants.
#[derive(Clone, Copy, Debug, PartialEq, Eq, Structural)]
pub struct Geometry {
    /// Payload bytes carried by one sub-buffer; also the length of the
    /// zero-byte run that marks a frame boundary.
    pub data_per_buffer: usize,
    /// Number of data sub-buffers per frame. The end-of-frame marker is the
    /// sequence number one past this.
    pub data_buffers: usize,
}

impl Geometry {
    /// Bounds on a usable geometry: at least one payload byte and one data
    /// sub-buffer; all sequence numbers and the marker must fit in the one
    /// sequence-number byte, and the frame length must fit comfortably in
    /// `usize` on any platform.
    pub open spec fn wf(self) -> bool {
        &&& 1 <= self.data_per_buffer <= 0xffff
        &&& 1 <= self.data_buffers <= 254
    }

    /// Total payload bytes in one full frame.
    pub open spec fn spec_frame_len(self) -> int {
        self.data_buffers * self.data_per_buffer
    }

    /// The reserved end-of-frame sequence number: one past the last data
    /// sub-buffer.
    pub open spec fn spec_marker(self) -> int {
        self.data_buffers + 1
    }

    /// A geometry with the given constants, if they are within bounds.
    pub fn new(data_per_buffer: usize, data_buffers: usize) -> (g: Option<Geometry>)
        ensures
            match g {
                Some(geometry) => {
                    &&& geometry.data_per_buffer == data_per_buffer
                    &&& geometry.data_buffers == data_buffers
                    &&& geometry.wf()
                },
                None => !(Geometry { data_per_buffer, data_buffers }).wf(),
            },
    {
        if 1 <= data_per_buffer && data_per_buffer <= 0xffff && 1 <= data_buffers
            && data_buffers <= 254 {
            Some(Geometry { data_per_buffer, data_buffers })
        } else {
            None
        }
    }

    /// The geometry observed on the CBM 8032: 40-byte sub-buffers, 50 data
    /// sub-buffers, 2000 bytes of frame data, 51 sub-buffers in all.
    pub fn cbm8032() -> (g: Geometry)
        ensures
            g.data_per_buffer == DATA_PER_BUFFER,
            g.data_buffers == DATA_BUFFERS_PER_FRAME,
            g.wf(),
    {
        Geometry { data_per_buffer: DATA_PER_BUFFER, data_buffers: DATA_BUFFERS_PER_FRAME }
    }

    /// Total payload bytes in one full frame.
    pub fn frame_len(&self) -> (len: usize)
        requires
            self.wf(),
        ensures
            len == self.spec_frame_len(),
    {
        proof {
            assert(self.data_buffers * self.data_per_buffer <= 254 * 0xffff) by (nonlinear_arith)
                requires
                    1 <= self.data_per_buffer <= 0xffff,
                    1 <= self.data_buffers <= 254,
            ;
        }
        self.data_buffers * self.data_per_buffer
    }

    /// The end-of-frame marker as the sequence-number byte that carries it.
    pub fn marker(&self) -> (m: u8)
        requires
            self.wf(),
        ensures
            m == self.spec_marker(),
    {
        (self.data_buffers + 1) as u8
    }
}

/// Mathematical model of the synchronizer state.
///
/// `Counting` scans for the zero run that marks a frame boundary; `count`
/// zero bytes have been seen in a row. `Assembling` collects numbered
/// sub-buffers: `expected` is the next acceptable sequence number,
/// `prev_marker` records that the sub-buffer just consumed was the
/// end-of-frame marker (so a second marker announces the inter-frame
/// padding), `staging` holds the partially received sub-buffer, and `acc`
/// the frame data accumulated so far.
#[verifier::ext_equal]
pub enum SyncModel {
    Counting { count: int },
    Assembling { expected: int, prev_marker: bool, staging: Seq<u8>, acc: Seq<u8> },
}

/// Mathematical model of an emitted frame.
#[verifier::ext_equal]
pub struct FrameModel {
    pub mode: Cbm8032FrameMode,
    pub data: Seq<u8>,
}

/// What one step of the state machine does: the state it moves to, the frame
/// it emits, if any, and whether it detected a loss of synchronization.
#[verifier::ext_equal]
pub struct StepOut {
    pub next: SyncModel,
    pub emit: Option<FrameModel>,
    pub lost: bool,
}

/// The state entered when synchronization is (re)gained: expecting the first
/// data sub-buffer, with empty staging and accumulation buffers.
pub open spec fn initial_in_sync() -> SyncModel {
    SyncModel::Assembling {
        expected: 1,
        prev_marker: false,
        staging: Seq::empty(),
        acc: Seq::empty(),
    }
}

/// What the machine does once a full sub-buffer stands in the staging
/// buffer: `seqnum` is its sequence-number byte and `payload` its payload;
/// `expected`, `prev_marker` and `acc` are taken from the assembling state.
pub open spec fn decide(
    g: Geometry,
    expected: int,
    prev_marker: bool,
    acc: Seq<u8>,
    seqnum: u8,
    payload: Seq<u8>,
) -> StepOut {
    if seqnum == g.spec_marker() {
        if prev_marker {
            StepOut { next: SyncModel::Counting { count: 0 }, emit: None, lost: false }
        } else if expected == g.spec_marker() {
            StepOut {
                next: SyncModel::Assembling {
                    expected: 1,
                    prev_marker: true,
                    staging: Seq::empty(),
                    acc: Seq::empty(),
                },
                emit: Some(FrameModel { mode: spec_byte_to_mode(payload[0]), data: acc }),
                lost: false,
            }
        } else {
            StepOut { next: SyncModel::Counting { count: 0 }, emit: None, lost: true }
        }
    } else if seqnum == expected {
        StepOut {
            next: SyncModel::Assembling {
                expected: expected + 1,
                prev_marker: false,
                staging: Seq::empty(),
                acc: acc + payload,
            },
            emit: None,
            lost: false,
        }
    } else {
        StepOut { next: SyncModel::Counting { count: 0 }, emit: None, lost: true }
    }
}

/// The state machine's transition on one received byte.
///
/// While counting zeroes, a zero byte advances the count and any other byte
/// resets it; one sub-buffer's width of zeroes in a row enters the assembling
/// state. While assembling, bytes fill the staging buffer; once it holds a
/// full sub-buffer (sequence number plus payload), the sequence number
/// decides:
/// - the end-of-frame marker right after another marker is the start of the
///   inter-frame zero padding: back to counting, nothing emitted;
/// - the marker when all data sub-buffers have arrived completes a frame:
///   the first payload byte selects the mode, the accumulator becomes the
///   frame's data, and the machine stays in sync expecting the next frame;
/// - the marker anywhere else, or any sequence number other than the
///   expected one, is a loss of synchronization: back to counting, the
///   partial frame dropped;
/// - the expected sequence number appends the payload to the accumulator and
///   advances the expectation by exactly one.
pub open spec fn step(g: Geometry, m: SyncModel, byte: u8) -> StepOut {
    match m {
        SyncModel::Counting { count } => {
            if byte == 0 {
                if count + 1 == g.data_per_buffer {
                    StepOut { next: initial_in_sync(), emit: None, lost: false }
                } else {
                    StepOut {
                        next: SyncModel::Counting { count: count + 1 },
                        emit: None,
                        lost: false,
                    }
                }
            } else {
                StepOut { next: SyncModel::Counting { count: 0 }, emit: None, lost: false }
            }
        },
        SyncModel::Assembling { expected, prev_marker, staging, acc } => {
            let staging2 = staging.push(byte);
            if staging2.len() < g.data_per_buffer + 1 {
                StepOut {
                    next: SyncModel::Assembling { expected, prev_marker, staging: staging2, acc },
                    emit: None,
                    lost: false,
                }
            } else {
                decide(
                    g,
                    expected,
                    prev_marker,
                    acc,
                    staging2[0],
                    staging2.subrange(1, staging2.len() as int),
                )
            }
        },
    }
}

/// The states the machine can actually be in under a given geometry: the
/// zero count stays below the run length, the expected sequence number stays
/// between the first data sub-buffer and the marker, the staging buffer
/// never holds more than a full sub-buffer less the deciding byte, the
/// accumulator holds exactly the payloads already accepted, and the marker
/// flag is set only right after a frame was emitted.
pub open spec fn wf_model(g: Geometry, m: SyncModel) -> bool {
    match m {
        SyncModel::Counting { count } => 0 <= count < g.data_per_buffer,
        SyncModel::Assembling { expected, prev_marker, staging, acc } => {
            &&& 1 <= expected <= g.spec_marker()
            &&& staging.len() <= g.data_per_buffer
            &&& acc.len() == (expected - 1) * g.data_per_buffer
            &&& (prev_marker ==> expected == 1)
        },
    }
}

/// One step keeps the machine within its well-formed states, and a frame is
/// emitted exactly when all data sub-buffers had arrived, so its data always
/// has the full frame length.
pub proof fn lemma_step_wf(g: Geometry, m: SyncModel, byte: u8)
    requires
        g.wf(),
        wf_model(g, m),
    ensures
        wf_model(g, step(g, m, byte).next),
        step(g, m, byte).emit matches Some(f) ==> f.data.len() == g.spec_frame_len(),
{
    let out = step(g, m, byte);
    match m {
        SyncModel::Counting { count } => {},
        SyncModel::Assembling { expected, prev_marker, staging, acc } => {
            let staging2 = staging.push(byte);
            if staging2.len() < g.data_per_buffer + 1 {
            } else {
                let seqnum = staging2[0];
                let payload = staging2.subrange(1, staging2.len() as int);
                if seqnum == g.spec_marker() {
                    if prev_marker {
                    } else if expected == g.spec_marker() {
                        assert(acc.len() == (g.spec_marker() - 1) * g.data_per_buffer);
                        assert((g.spec_marker() - 1) * g.data_per_buffer
                            == g.data_buffers * g.data_per_buffer);
                    }
                } else if seqnum == expected {
                    assert(payload.len() == g.data_per_buffer);
                    assert((acc + payload).len() == (expected - 1) * g.data_per_buffer
                        + g.data_per_buffer);
                    assert((expected - 1) * g.data_per_buffer + g.data_per_buffer
                        == ((expected + 1) - 1) * g.data_per_buffer) by (nonlinear_arith);
                    assert(expected < g.spec_marker());
                }
            }
        },
    }
}

/// Executable synchronizer state, mirroring [`SyncModel`].
pub enum SyncState {
    CountingZeroes { count: usize },
    InSync { expected: u8, prev_marker: bool, staging: Vec<u8>, acc: Vec<u8> },
}

impl View for SyncState {
    type V = SyncModel;

    open spec fn view(&self) -> SyncModel {
        match self {
            SyncState::CountingZeroes { count } => SyncModel::Counting { count: *count as int },
            SyncState::InSync { expected, prev_marker, staging, acc } => SyncModel::Assembling {
                expected: *expected as int,
                prev_marker: *prev_marker,
                staging: staging@,
                acc: acc@,
            },
        }
    }
}

/// What [`FrameSynchronizer::handle_received_byte`] reports for one byte.
#[derive(Debug)]
pub enum SyncEvent {
    /// Nothing noteworthy: the byte was consumed.
    Continue,
    /// A frame just completed.
    FrameComplete(Cbm8032Frame),
    /// An out-of-sequence sub-buffer forced a resynchronization. Expected on
    /// a noisy line; never fatal.
    SyncLost,
}

/// The event an executable step must report for the step the model took.
pub open spec fn event_matches(out: StepOut, ev: SyncEvent) -> bool {
    match ev {
        SyncEvent::Continue => out.emit is None && !out.lost,
        SyncEvent::FrameComplete(f) => !out.lost && out.emit == Some(
            FrameModel { mode: f.mode, data: f.data@ },
        ),
        SyncEvent::SyncLost => out.lost && out.emit is None,
    }
}

/// The protocol state machine: consumes one byte at a time and reports when
/// a frame has just completed. It never blocks, and it recovers from stream
/// corruption on its own by returning to the zero-scanning state.
pub struct FrameSynchronizer {
    /// The protocol constants this synchronizer was built for.
    pub geom: Geometry,
    /// The machine's current state. Exposed for inspection; the methods
    /// require [`FrameSynchronizer::wf`], which ties it to the geometry.
    pub state: SyncState,
}

impl View for FrameSynchronizer {
    type V = SyncModel;

    open spec fn view(&self) -> SyncModel {
        self.state@
    }
}

impl FrameSynchronizer {
    /// The synchronizer's state is meaningful for its geometry.
    pub open spec fn wf(&self) -> bool {
        &&& self.geom.wf()
        &&& wf_model(self.geom, self@)
    }

    /// A new synchronizer, scanning for the first zero run.
    pub fn new(geom: Geometry) -> (s: Self)
        requires
            geom.wf(),
        ensures
            s.wf(),
            s.geom == geom,
            s@ == (SyncModel::Counting { count: 0int }),
    {
        FrameSynchronizer { geom, state: SyncState::CountingZeroes { count: 0 } }
    }

    /// Consume one byte of the serial stream: exactly one transition of
    /// [`step`], reported through the returned event.
    pub fn handle_received_byte(&mut self, byte: u8) -> (ev: SyncEvent)
        requires
            old(self).wf(),
        ensures
            final(self).wf(),
            final(self).geom == old(self).geom,
            final(self)@ == step(old(self).geom, old(self)@, byte).next,
            event_matches(step(old(self).geom, old(self)@, byte), ev),
            (ev matches SyncEvent::FrameComplete(f) ==> f.data@.len()
                == old(self).geom.spec_frame_len()),
    {
        proof {
            lemma_step_wf(self.geom, self@, byte);
        }
        let mut taken = SyncState::CountingZeroes { count: 0 };
        core::mem::swap(&mut taken, &mut self.state);
        match taken {
            SyncState::CountingZeroes { count } => {
                if byte == 0 {
                    if count + 1 == self.geom.data_per_buffer {
                        self.state = SyncState::InSync {
                            expected: 1,
                            prev_marker: false,
                            staging: Vec::new(),
                            acc: Vec::new(),
                        };
                    } else {
                        self.state = SyncState::CountingZeroes { count: count + 1 };
                    }
                } else {
                    self.state = SyncState::CountingZeroes { count: 0 };
                }
                SyncEvent::Continue
            },
            SyncState::InSync { expected, prev_marker, mut staging, mut acc } => {
                staging.push(byte);
                if staging.len() < self.geom.data_per_buffer + 1 {
                    self.state = SyncState::InSync { expected, prev_marker, staging, acc };
                    SyncEvent::Continue
                } else {
                    let seqnum = staging[0];
                    if seqnum == self.geom.marker() {
                        if prev_marker {
                            self.state = SyncState::CountingZeroes { count: 0 };
                            SyncEvent::Continue
                        } else if expected == self.geom.marker() {
                            let mode = byte_to_mode(staging[1]);
                            let frame = Cbm8032Frame::new(mode, acc);
                            self.state = SyncState::InSync {
                                expected: 1,
                                prev_marker: true,
                                staging: Vec::new(),
                                acc: Vec::new(),
                            };
                            SyncEvent::FrameComplete(frame)
                        } else {
                            self.state = SyncState::CountingZeroes { count: 0 };
                            SyncEvent::SyncLost
                        }
                    } else if seqnum == expected {
                        let ghost acc0 = acc@;
                        let ghost staged = staging@;
                        let mut i: usize = 1;
                        assert(acc@ =~= acc0 + staged.subrange(1, 1));
                        while i < staging.len()
                            invariant
                                1 <= i <= staging@.len(),
                                staging@ == staged,
                                acc@ == acc0 + staged.subrange(1, i as int),
                            decreases staging@.len() - i,
                        {
                            acc.push(staging[i]);
                            assert(staged.subrange(1, i + 1) =~= staged.subrange(1, i as int)
                                + seq![staged[i as int]]);
                            i += 1;
                        }
                        assert(acc@ =~= acc0 + staged.subrange(1, staged.len() as int));
                        self.state = SyncState::InSync {
                            expected: expected + 1,
                            prev_marker: false,
                            staging: Vec::new(),
                            acc,
                        };
                        SyncEvent::Continue
                    } else {
                        self.state = SyncState::CountingZeroes { count: 0 };
                        SyncEvent::SyncLost
                    }
                }
            },
        }
    }
}

} // verus!
