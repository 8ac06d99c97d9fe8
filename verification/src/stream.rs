//! Byte streams as the synchronizer sees them: what feeding a whole stream
//! produces, how well-formed transmissions are laid out on the wire, and the
//! laws the machine obeys on them — one frame per well-formed transmission,
//! recovery after a corrupted sub-buffer, and identical frames when the same
//! stream is replayed after the inter-frame padding.

use crate::frame::spec_byte_to_mode;
use crate::frame::Cbm8032Frame;
use crate::sync::decide;
use crate::sync::initial_in_sync;
use crate::sync::step;
use crate::sync::FrameModel;
use crate::sync::FrameSynchronizer;
use crate::sync::Geometry;
use crate::sync::StepOut;
use crate::sync::SyncEvent;
use crate::sync::SyncModel;
use vstd::prelude::*;

verus! {

/// What feeding a whole byte sequence produces: the state the machine ends
/// in and every frame it emitted, in order.
#[verifier::ext_equal]
pub struct FeedOut {
    pub state: SyncModel,
    pub frames: Seq<FrameModel>,
}

/// The frames one step emits: at most one.
pub open spec fn emitted(out: StepOut) -> Seq<FrameModel> {
    match out.emit {
        Some(f) => seq![f],
        None => Seq::empty(),
    }
}

/// Feed the bytes of `s` to the machine one at a time, starting from state
/// `m`, collecting every emitted frame.
pub open spec fn feed(g: Geometry, m: SyncModel, s: Seq<u8>) -> FeedOut
    decreases s.len(),
{
    if s.len() == 0 {
        FeedOut { state: m, frames: Seq::empty() }
    } else {
        let out = step(g, m, s[0]);
        let rest = feed(g, out.next, s.drop_first());
        FeedOut { state: rest.state, frames: emitted(out) + rest.frames }
    }
}

/// Feeding a concatenation is feeding the first part and then the second
/// from the state the first part left behind; the emitted frames are those
/// of the two parts in order.
pub proof fn lemma_feed_append(g: Geometry, m: SyncModel, s1: Seq<u8>, s2: Seq<u8>)
    ensures
        feed(g, m, s1 + s2).state == feed(g, feed(g, m, s1).state, s2).state,
        feed(g, m, s1 + s2).frames == feed(g, m, s1).frames + feed(
            g,
            feed(g, m, s1).state,
            s2,
        ).frames,
    decreases s1.len(),
{
    if s1.len() == 0 {
        assert(s1 + s2 =~= s2);
        assert(feed(g, m, s1).frames + feed(g, m, s2).frames =~= feed(g, m, s2).frames);
    } else {
        let out = step(g, m, s1[0]);
        assert((s1 + s2)[0] == s1[0]);
        assert((s1 + s2).drop_first() =~= s1.drop_first() + s2);
        lemma_feed_append(g, out.next, s1.drop_first(), s2);
        let mid = feed(g, out.next, s1.drop_first()).state;
        assert(feed(g, m, s1 + s2).frames =~= feed(g, m, s1).frames + feed(g, mid, s2).frames);
    }
}

/// Feeding a single byte is one transition of [`step`].
pub proof fn lemma_feed_one(g: Geometry, m: SyncModel, b: u8)
    ensures
        feed(g, m, seq![b]).state == step(g, m, b).next,
        feed(g, m, seq![b]).frames == emitted(step(g, m, b)),
{
    let s1 = seq![b];
    assert(s1.len() == 1);
    assert(s1[0] == b);
    let rest = s1.drop_first();
    assert(rest.len() == 0);
    let out = step(g, m, b);
    assert(feed(g, out.next, rest).state == out.next);
    assert(feed(g, out.next, rest).frames == Seq::<FrameModel>::empty());
    assert(feed(g, m, s1).frames =~= emitted(out));
}

/// The mathematical content of an executable frame.
pub open spec fn frame_model_of(f: Cbm8032Frame) -> FrameModel {
    FrameModel { mode: f.mode, data: f.data@ }
}

/// The mathematical content of a sequence of executable frames.
pub open spec fn frame_models(frames: Seq<Cbm8032Frame>) -> Seq<FrameModel> {
    frames.map_values(|f: Cbm8032Frame| frame_model_of(f))
}

impl FrameSynchronizer {
    /// Feed a chunk of received bytes one at a time, collecting every frame
    /// that completes, in order.
    pub fn feed_bytes(&mut self, bytes: &[u8]) -> (frames: Vec<Cbm8032Frame>)
        requires
            old(self).wf(),
        ensures
            final(self).wf(),
            final(self).geom == old(self).geom,
            final(self)@ == feed(old(self).geom, old(self)@, bytes@).state,
            frame_models(frames@) == feed(old(self).geom, old(self)@, bytes@).frames,
    {
        let ghost g = self.geom;
        let ghost m0 = self@;
        let mut frames: Vec<Cbm8032Frame> = Vec::new();
        let mut i: usize = 0;
        assert(bytes@.take(0) =~= Seq::<u8>::empty());
        assert(frame_models(frames@) =~= Seq::<FrameModel>::empty());
        while i < bytes.len()
            invariant
                i <= bytes@.len(),
                self.wf(),
                self.geom == g,
                feed(g, m0, bytes@.take(i as int)).state == self@,
                feed(g, m0, bytes@.take(i as int)).frames == frame_models(frames@),
            decreases bytes@.len() - i,
        {
            let ghost taken = bytes@.take(i as int);
            let ghost m_before = self@;
            let ghost frames_before = frames@;
            let b = bytes[i];
            let ev = self.handle_received_byte(b);
            match ev {
                SyncEvent::FrameComplete(f) => frames.push(f),
                SyncEvent::Continue => (),
                SyncEvent::SyncLost => (),
            }
            proof {
                let out = step(g, m_before, b);
                lemma_feed_append(g, m0, taken, seq![b]);
                lemma_feed_one(g, m_before, b);
                assert(bytes@.take(i + 1) =~= taken + seq![b]);
                assert(frame_models(frames@) =~= frame_models(frames_before) + emitted(out));
            }
            i += 1;
        }
        assert(bytes@.take(bytes@.len() as int) =~= bytes@);
        frames
    }
}

/// A run of zero bytes of the given length.
pub open spec fn zero_run(len: int) -> Seq<u8> {
    Seq::new(len as nat, |i: int| 0u8)
}

/// One sub-buffer as it stands on the wire: the sequence-number byte, then
/// the payload.
pub open spec fn sub_buffer(seqnum: u8, payload: Seq<u8>) -> Seq<u8> {
    seq![seqnum] + payload
}

/// Data sub-buffers on the wire, numbered consecutively from `first`.
pub open spec fn data_stream(payloads: Seq<Seq<u8>>, first: int) -> Seq<u8>
    decreases payloads.len(),
{
    if payloads.len() == 0 {
        Seq::empty()
    } else {
        sub_buffer(first as u8, payloads[0]) + data_stream(payloads.drop_first(), first + 1)
    }
}

/// The data payloads of one full transmission: one per data sub-buffer, each
/// of the data width.
pub open spec fn wf_payloads(g: Geometry, payloads: Seq<Seq<u8>>) -> bool {
    &&& payloads.len() == g.data_buffers
    &&& forall|i: int|
        0 <= i < payloads.len() ==> (#[trigger] payloads[i]).len() == g.data_per_buffer
}

/// One well-formed frame transmission on the wire: the zero run of one
/// sub-buffer's width, the data sub-buffers numbered from 1 in order, then
/// the mode sub-buffer carrying the end-of-frame marker.
pub open spec fn frame_stream(g: Geometry, payloads: Seq<Seq<u8>>, mode_payload: Seq<u8>) -> Seq<
    u8,
> {
    zero_run(g.data_per_buffer as int) + data_stream(payloads, 1) + sub_buffer(
        g.spec_marker() as u8,
        mode_payload,
    )
}

/// A transmission cut short by a corrupted sequence number: the zero run,
/// `k - 1` well-numbered data sub-buffers, then a sub-buffer whose sequence
/// byte `c` is not the expected `k`.
pub open spec fn corrupt_stream(
    g: Geometry,
    payloads: Seq<Seq<u8>>,
    c: u8,
    p: Seq<u8>,
) -> Seq<u8> {
    zero_run(g.data_per_buffer as int) + data_stream(payloads, 1) + sub_buffer(c, p)
}

/// Scanning a full zero run from any zero count carries the machine into
/// the assembling state, emitting nothing.
pub proof fn lemma_feed_zero_run(g: Geometry, c: int)
    requires
        g.wf(),
        0 <= c < g.data_per_buffer,
    ensures
        feed(g, SyncModel::Counting { count: c }, zero_run(g.data_per_buffer - c)) == (FeedOut {
            state: initial_in_sync(),
            frames: Seq::empty(),
        }),
    decreases g.data_per_buffer - c,
{
    let w = g.data_per_buffer as int;
    let s = zero_run(w - c);
    let m = SyncModel::Counting { count: c };
    assert(s.len() == w - c);
    assert(s[0] == 0);
    let out = step(g, m, 0);
    if c + 1 == w {
        assert(out.next == initial_in_sync());
        assert(s =~= seq![0u8]);
        lemma_feed_one(g, m, 0);
        assert(feed(g, m, s) =~= (FeedOut { state: initial_in_sync(), frames: Seq::empty() }));
    } else {
        assert(s.drop_first() =~= zero_run(w - (c + 1)));
        lemma_feed_zero_run(g, c + 1);
        assert(feed(g, m, s) =~= (FeedOut { state: initial_in_sync(), frames: Seq::empty() }));
    }
}

/// Bytes that do not yet fill the staging buffer are simply staged: no
/// decision, no frame, no loss.
pub proof fn lemma_feed_partial(
    g: Geometry,
    e: int,
    pm: bool,
    st: Seq<u8>,
    acc: Seq<u8>,
    s: Seq<u8>,
)
    requires
        g.wf(),
        st.len() + s.len() <= g.data_per_buffer,
    ensures
        feed(
            g,
            SyncModel::Assembling { expected: e, prev_marker: pm, staging: st, acc },
            s,
        ) == (FeedOut {
            state: SyncModel::Assembling { expected: e, prev_marker: pm, staging: st + s, acc },
            frames: Seq::empty(),
        }),
    decreases s.len(),
{
    let m = SyncModel::Assembling { expected: e, prev_marker: pm, staging: st, acc };
    if s.len() == 0 {
        assert(st + s =~= st);
        assert(feed(g, m, s) =~= (FeedOut {
            state: SyncModel::Assembling { expected: e, prev_marker: pm, staging: st + s, acc },
            frames: Seq::empty(),
        }));
    } else {
        let st2 = st.push(s[0]);
        assert(st2.len() < g.data_per_buffer + 1);
        lemma_feed_partial(g, e, pm, st2, acc, s.drop_first());
        assert(st2 + s.drop_first() =~= st + s);
        assert(feed(g, m, s) =~= (FeedOut {
            state: SyncModel::Assembling { expected: e, prev_marker: pm, staging: st + s, acc },
            frames: Seq::empty(),
        }));
    }
}

/// Feeding one whole sub-buffer from an empty staging buffer performs
/// exactly the decision [`decide`] makes on its sequence number and payload.
pub proof fn lemma_feed_sub_buffer(
    g: Geometry,
    e: int,
    pm: bool,
    acc: Seq<u8>,
    seqnum: u8,
    payload: Seq<u8>,
)
    requires
        g.wf(),
        payload.len() == g.data_per_buffer,
    ensures
        ({
            let out = decide(g, e, pm, acc, seqnum, payload);
            feed(
                g,
                SyncModel::Assembling { expected: e, prev_marker: pm, staging: Seq::empty(), acc },
                sub_buffer(seqnum, payload),
            ) == (FeedOut { state: out.next, frames: emitted(out) })
        }),
{
    let w = g.data_per_buffer as int;
    let m = SyncModel::Assembling { expected: e, prev_marker: pm, staging: Seq::empty(), acc };
    let s = sub_buffer(seqnum, payload);
    assert(s.len() == w + 1);
    let prefix = s.take(w);
    let lastb = s[w];
    assert(s =~= prefix + seq![lastb]);
    lemma_feed_append(g, m, prefix, seq![lastb]);
    lemma_feed_partial(g, e, pm, Seq::empty(), acc, prefix);
    assert(Seq::empty() + prefix =~= prefix);
    let staged = SyncModel::Assembling { expected: e, prev_marker: pm, staging: prefix, acc };
    assert(feed(g, m, prefix).state == staged);
    lemma_feed_one(g, staged, lastb);
    assert(prefix.push(lastb) =~= s);
    assert(s[0] == seqnum);
    assert(s.subrange(1, s.len() as int) =~= payload);
    let out = decide(g, e, pm, acc, seqnum, payload);
    assert(step(g, staged, lastb) == out);
    assert(feed(g, m, s).frames =~= emitted(out));
}

/// Consecutive, correctly numbered data sub-buffers are all accepted: each
/// payload lands on the end of the accumulator and the expectation advances
/// by exactly one per sub-buffer, with nothing emitted.
pub proof fn lemma_feed_data_stream(
    g: Geometry,
    e: int,
    pm: bool,
    acc: Seq<u8>,
    payloads: Seq<Seq<u8>>,
)
    requires
        g.wf(),
        1 <= e,
        e + payloads.len() <= g.spec_marker(),
        forall|i: int|
            0 <= i < payloads.len() ==> (#[trigger] payloads[i]).len() == g.data_per_buffer,
    ensures
        feed(
            g,
            SyncModel::Assembling { expected: e, prev_marker: pm, staging: Seq::empty(), acc },
            data_stream(payloads, e),
        ) == (FeedOut {
            state: SyncModel::Assembling {
                expected: e + payloads.len(),
                prev_marker: if payloads.len() == 0 {
                    pm
                } else {
                    false
                },
                staging: Seq::empty(),
                acc: acc + payloads.flatten(),
            },
            frames: Seq::empty(),
        }),
    decreases payloads.len(),
{
    let m = SyncModel::Assembling { expected: e, prev_marker: pm, staging: Seq::empty(), acc };
    if payloads.len() == 0 {
        assert(payloads.flatten() == Seq::<u8>::empty());
        assert(acc + payloads.flatten() =~= acc);
        assert(feed(g, m, data_stream(payloads, e)) =~= (FeedOut {
            state: SyncModel::Assembling {
                expected: e,
                prev_marker: pm,
                staging: Seq::empty(),
                acc: acc + payloads.flatten(),
            },
            frames: Seq::empty(),
        }));
    } else {
        let p0 = payloads[0];
        let s1 = sub_buffer(e as u8, p0);
        let rest = data_stream(payloads.drop_first(), e + 1);
        assert(data_stream(payloads, e) == s1 + rest);
        lemma_feed_append(g, m, s1, rest);
        lemma_feed_sub_buffer(g, e, pm, acc, e as u8, p0);
        assert(e < g.spec_marker());
        assert(g.spec_marker() <= 255);
        assert((e as u8) as int == e);
        let out = decide(g, e, pm, acc, e as u8, p0);
        assert(out.next == (SyncModel::Assembling {
            expected: e + 1,
            prev_marker: false,
            staging: Seq::empty(),
            acc: acc + p0,
        }));
        assert(out.emit is None);
        lemma_feed_data_stream(g, e + 1, false, acc + p0, payloads.drop_first());
        assert(payloads.flatten() == p0 + payloads.drop_first().flatten());
        assert((acc + p0) + payloads.drop_first().flatten() =~= acc + payloads.flatten());
        assert(feed(g, m, data_stream(payloads, e)) =~= (FeedOut {
            state: SyncModel::Assembling {
                expected: e + payloads.len(),
                prev_marker: false,
                staging: Seq::empty(),
                acc: acc + payloads.flatten(),
            },
            frames: Seq::empty(),
        }));
    }
}

/// Flattening payloads of one uniform width multiplies the count by the
/// width.
pub proof fn lemma_uniform_flatten_len(payloads: Seq<Seq<u8>>, w: int)
    requires
        forall|i: int| 0 <= i < payloads.len() ==> (#[trigger] payloads[i]).len() == w,
    ensures
        payloads.flatten().len() == payloads.len() * w,
    decreases payloads.len(),
{
    if payloads.len() == 0 {
    } else {
        lemma_uniform_flatten_len(payloads.drop_first(), w);
        assert(payloads.flatten().len() == w + (payloads.len() - 1) * w);
        assert(w + (payloads.len() - 1) * w == payloads.len() * w) by (nonlinear_arith);
    }
}

/// LAW: on a well-formed transmission — a zero run of one sub-buffer's
/// width, the data sub-buffers 1..=n in order, then the mode sub-buffer —
/// the machine, starting from zero-scanning, emits exactly one frame; its
/// data is the concatenation of the data payloads in order and fills the
/// whole frame, and its mode is the one the mode byte selects.
pub proof fn lemma_well_formed_stream_one_frame(
    g: Geometry,
    payloads: Seq<Seq<u8>>,
    mode_payload: Seq<u8>,
)
    requires
        g.wf(),
        wf_payloads(g, payloads),
        mode_payload.len() == g.data_per_buffer,
    ensures
        feed(
            g,
            SyncModel::Counting { count: 0 },
            frame_stream(g, payloads, mode_payload),
        ) == (FeedOut {
            state: SyncModel::Assembling {
                expected: 1,
                prev_marker: true,
                staging: Seq::empty(),
                acc: Seq::empty(),
            },
            frames: seq![
                FrameModel {
                    mode: spec_byte_to_mode(mode_payload[0]),
                    data: payloads.flatten(),
                },
            ],
        }),
        payloads.flatten().len() == g.spec_frame_len(),
{
    let c0 = SyncModel::Counting { count: 0 };
    let zr = zero_run(g.data_per_buffer as int);
    let ds = data_stream(payloads, 1);
    let mb = sub_buffer(g.spec_marker() as u8, mode_payload);
    let n = payloads.len() as int;
    assert(frame_stream(g, payloads, mode_payload) == (zr + ds) + mb);
    lemma_feed_append(g, c0, zr + ds, mb);
    lemma_feed_append(g, c0, zr, ds);
    lemma_feed_zero_run(g, 0);
    assert(zero_run(g.data_per_buffer - 0) =~= zr);
    lemma_feed_data_stream(g, 1, false, Seq::empty(), payloads);
    let flat = payloads.flatten();
    assert(Seq::empty() + flat =~= flat);
    let after_data = SyncModel::Assembling {
        expected: 1 + n,
        prev_marker: false,
        staging: Seq::empty(),
        acc: flat,
    };
    assert(feed(g, c0, zr + ds).state =~= after_data);
    lemma_feed_sub_buffer(g, 1 + n, false, flat, g.spec_marker() as u8, mode_payload);
    assert((g.spec_marker() as u8) as int == g.spec_marker());
    let out = decide(g, 1 + n, false, flat, g.spec_marker() as u8, mode_payload);
    assert(out.emit == Some(
        FrameModel { mode: spec_byte_to_mode(mode_payload[0]), data: flat },
    ));
    lemma_uniform_flatten_len(payloads, g.data_per_buffer as int);
    assert(feed(g, c0, frame_stream(g, payloads, mode_payload)).frames =~= seq![
        FrameModel { mode: spec_byte_to_mode(mode_payload[0]), data: flat },
    ]);
}

/// LAW: a corrupted sequence number at sub-buffer `k` of a transmission
/// makes the machine emit no frame for that attempt and return to
/// zero-scanning.
pub proof fn lemma_corrupt_sub_buffer_no_frame(
    g: Geometry,
    payloads: Seq<Seq<u8>>,
    k: int,
    c: u8,
    p: Seq<u8>,
)
    requires
        g.wf(),
        1 <= k <= g.data_buffers,
        payloads.len() == k - 1,
        forall|i: int|
            0 <= i < payloads.len() ==> (#[trigger] payloads[i]).len() == g.data_per_buffer,
        p.len() == g.data_per_buffer,
        c as int != k,
    ensures
        feed(g, SyncModel::Counting { count: 0 }, corrupt_stream(g, payloads, c, p)) == (FeedOut {
            state: SyncModel::Counting { count: 0 },
            frames: Seq::empty(),
        }),
{
    let c0 = SyncModel::Counting { count: 0 };
    let zr = zero_run(g.data_per_buffer as int);
    let ds = data_stream(payloads, 1);
    let bad = sub_buffer(c, p);
    assert(corrupt_stream(g, payloads, c, p) == (zr + ds) + bad);
    lemma_feed_append(g, c0, zr + ds, bad);
    lemma_feed_append(g, c0, zr, ds);
    lemma_feed_zero_run(g, 0);
    assert(zero_run(g.data_per_buffer - 0) =~= zr);
    lemma_feed_data_stream(g, 1, false, Seq::empty(), payloads);
    let flat = payloads.flatten();
    assert(Seq::empty() + flat =~= flat);
    let after_data = SyncModel::Assembling {
        expected: k,
        prev_marker: false,
        staging: Seq::empty(),
        acc: flat,
    };
    assert(feed(g, c0, zr + ds).state =~= after_data);
    lemma_feed_sub_buffer(g, k, false, flat, c, p);
    let out = decide(g, k, false, flat, c, p);
    assert(out.next == c0);
    assert(out.emit is None);
    assert(feed(g, c0, corrupt_stream(g, payloads, c, p)).frames =~= Seq::<FrameModel>::empty());
}

/// LAW: after a corrupted transmission, a subsequent well-formed zero run
/// and full sub-buffer sequence again produces exactly the correct frame.
pub proof fn lemma_resync_after_corruption(
    g: Geometry,
    bad_payloads: Seq<Seq<u8>>,
    k: int,
    c: u8,
    p: Seq<u8>,
    payloads: Seq<Seq<u8>>,
    mode_payload: Seq<u8>,
)
    requires
        g.wf(),
        1 <= k <= g.data_buffers,
        bad_payloads.len() == k - 1,
        forall|i: int|
            0 <= i < bad_payloads.len() ==> (#[trigger] bad_payloads[i]).len()
                == g.data_per_buffer,
        p.len() == g.data_per_buffer,
        c as int != k,
        wf_payloads(g, payloads),
        mode_payload.len() == g.data_per_buffer,
    ensures
        feed(
            g,
            SyncModel::Counting { count: 0 },
            corrupt_stream(g, bad_payloads, c, p) + frame_stream(g, payloads, mode_payload),
        ).frames == seq![
            FrameModel { mode: spec_byte_to_mode(mode_payload[0]), data: payloads.flatten() },
        ],
{
    let c0 = SyncModel::Counting { count: 0 };
    lemma_feed_append(
        g,
        c0,
        corrupt_stream(g, bad_payloads, c, p),
        frame_stream(g, payloads, mode_payload),
    );
    lemma_corrupt_sub_buffer_no_frame(g, bad_payloads, k, c, p);
    lemma_well_formed_stream_one_frame(g, payloads, mode_payload);
    assert(feed(
        g,
        c0,
        corrupt_stream(g, bad_payloads, c, p) + frame_stream(g, payloads, mode_payload),
    ).frames =~= seq![
        FrameModel { mode: spec_byte_to_mode(mode_payload[0]), data: payloads.flatten() },
    ]);
}

/// LAW: replaying the same well-formed transmission after the inter-frame
/// padding sub-buffer produces two structurally identical frames.
pub proof fn lemma_replayed_stream_identical_frames(
    g: Geometry,
    payloads: Seq<Seq<u8>>,
    mode_payload: Seq<u8>,
    pad_payload: Seq<u8>,
)
    requires
        g.wf(),
        wf_payloads(g, payloads),
        mode_payload.len() == g.data_per_buffer,
        pad_payload.len() == g.data_per_buffer,
    ensures
        ({
            let s = frame_stream(g, payloads, mode_payload);
            let pad = sub_buffer(g.spec_marker() as u8, pad_payload);
            let f = FrameModel {
                mode: spec_byte_to_mode(mode_payload[0]),
                data: payloads.flatten(),
            };
            feed(g, SyncModel::Counting { count: 0 }, s + pad + s).frames == seq![f, f]
        }),
{
    let c0 = SyncModel::Counting { count: 0 };
    let s = frame_stream(g, payloads, mode_payload);
    let pad = sub_buffer(g.spec_marker() as u8, pad_payload);
    let f = FrameModel { mode: spec_byte_to_mode(mode_payload[0]), data: payloads.flatten() };
    lemma_well_formed_stream_one_frame(g, payloads, mode_payload);
    let after_one = SyncModel::Assembling {
        expected: 1,
        prev_marker: true,
        staging: Seq::empty(),
        acc: Seq::empty(),
    };
    lemma_feed_append(g, c0, s + pad, s);
    lemma_feed_append(g, c0, s, pad);
    lemma_feed_sub_buffer(g, 1, true, Seq::empty(), g.spec_marker() as u8, pad_payload);
    assert((g.spec_marker() as u8) as int == g.spec_marker());
    let out = decide(g, 1, true, Seq::empty(), g.spec_marker() as u8, pad_payload);
    assert(out.next == c0);
    assert(out.emit is None);
    assert(feed(g, c0, s + pad).state == c0);
    assert(feed(g, c0, s + pad + s).frames =~= seq![f, f]);
}

} // verus!
