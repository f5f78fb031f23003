//! The output stage: what the device callback writes for one invocation.
//!
//! The callback must never wait. While playback is paused it writes silence
//! and leaves the ring buffer alone, so that the decoder can fill it and
//! playback resumes at once. While playing it takes one sample per output
//! slot, with silence for the slots for which the ring has none, runs each
//! through the equalizer and applies the volume.
//!
//! [`fill_output`] is the part that moves samples; [`render`] is the whole
//! callback. The arithmetic on sample values is the caller's and comes in as
//! a function.

use vstd::prelude::*;
use crate::audio::AudioState;
use crate::eq::{cascade, Biquad};
use crate::ring::{RingBuffer, RingModel};
use crate::arith::{gives, total, SampleOp};
use crate::sample::SILENCE;

verus! {

/// `len` slots of silence.
pub open spec fn silence(len: nat) -> Seq<u32> {
    Seq::new(len, |i: int| SILENCE)
}

/// What `len` output slots receive from a ring that holds `items`: its
/// samples, oldest first, then silence for the slots that are left.
pub open spec fn drained(items: Seq<u32>, len: nat) -> Seq<u32> {
    Seq::new(
        len,
        |i: int|
            if i < items.len() {
                items[i]
            } else {
                SILENCE
            },
    )
}

/// The ring after `len` output slots were served from it.
pub open spec fn after_drain(ring: RingModel, len: nat) -> RingModel {
    if len >= ring.items.len() {
        RingModel { items: Seq::empty(), capacity: ring.capacity }
    } else {
        RingModel { items: ring.items.skip(len as int), capacity: ring.capacity }
    }
}

/// Fills every slot of `out` for one invocation of the device callback and
/// says whether playback is on.
///
/// Paused: `out` is silence and the ring buffer is untouched. Playing: `out`
/// holds the oldest samples of the ring buffer, which leave it, followed by
/// silence where the ring ran empty.
pub fn fill_output(playing: bool, ring: &mut RingBuffer, out: &mut Vec<u32>) -> (live: bool)
    ensures
        live == playing,
        final(out)@.len() == old(out)@.len(),
        !playing ==> final(out)@ == silence(old(out)@.len()) && final(ring)@ == old(ring)@,
        playing ==> final(out)@ == drained(old(ring)@.items, old(out)@.len()) && final(ring)@
            == after_drain(old(ring)@, old(out)@.len()),
        final(ring)@.capacity == old(ring)@.capacity,
        final(ring)@.items.len() <= old(ring)@.items.len(),
{
    let len = out.len();
    let ghost ring_before = ring@;
    let mut slot: usize = 0;
    if !playing {
        while slot < len
            invariant
                slot <= len,
                out@.len() == len,
                forall|i: int| 0 <= i < slot ==> out@[i] == SILENCE,
            decreases len - slot,
        {
            out[slot] = SILENCE;
            slot = slot + 1;
        }
        assert(out@ =~= silence(len as nat));
        return false;
    }
    let stored = ring.len();
    proof {
        assert(ring_before.items.skip(0) =~= ring_before.items);
        assert(after_drain(ring_before, 0).items =~= ring_before.items);
    }
    while slot < len
        invariant
            slot <= len,
            out@.len() == len,
            stored == ring_before.items.len(),
            ring@.capacity == ring_before.capacity,
            ring@ == after_drain(ring_before, slot as nat),
            forall|i: int| 0 <= i < slot ==> out@[i] == drained(ring_before.items, len as nat)[i],
        decreases len - slot,
    {
        let sample = match ring.pop() {
            Some(sample) => sample,
            None => SILENCE,
        };
        proof {
            if slot < stored {
                assert(ring_before.items.skip(slot as int).drop_first()
                    =~= ring_before.items.skip(slot + 1));
                assert(ring_before.items.skip(slot as int).first() == ring_before.items[slot as int]);
                if slot + 1 >= stored {
                    assert(ring_before.items.skip(slot + 1) =~= Seq::<u32>::empty());
                }
            }
        }
        out[slot] = sample;
        slot = slot + 1;
    }
    assert(out@ =~= drained(ring_before.items, len as nat));
    true
}

/// Whether slot `i` of `out` is what the equalizer and the volume make of
/// sample `i` of `raw`.
///
/// `trace[i]` is the chain before the sample and `trace[i + 1]` the chain
/// after it. `signals[i]` is the way of the sample through the chain, from
/// `raw[i]` to what leaves the last section; a disabled equalizer leaves the
/// chain alone and the way is the sample itself. `out[i]` is the product of
/// the end of that way and the volume.
pub open spec fn shaped_slot<A: Fn(SampleOp, u32, u32) -> u32>(
    arith: A,
    enabled: bool,
    volume: u32,
    trace: Seq<Seq<Biquad>>,
    signals: Seq<Seq<u32>>,
    raw: Seq<u32>,
    out: Seq<u32>,
    i: int,
) -> bool {
    &&& signals[i].len() >= 1
    &&& signals[i].first() == raw[i]
    &&& if enabled {
        cascade(arith, trace[i], trace[i + 1], signals[i])
    } else {
        trace[i + 1] == trace[i] && signals[i].len() == 1
    }
    &&& gives(arith, SampleOp::Mul, signals[i].last(), volume, out[i])
}

/// Whether `out` is what the equalizer and the volume make of the samples
/// `raw`, taken one after the other: every slot is shaped, and the trace
/// holds the chain before the first sample and after each.
pub open spec fn shaped<A: Fn(SampleOp, u32, u32) -> u32>(
    arith: A,
    enabled: bool,
    volume: u32,
    trace: Seq<Seq<Biquad>>,
    signals: Seq<Seq<u32>>,
    raw: Seq<u32>,
    out: Seq<u32>,
) -> bool {
    &&& trace.len() == raw.len() + 1
    &&& signals.len() == raw.len()
    &&& out.len() == raw.len()
    &&& forall|i: int|
        0 <= i < raw.len() ==> #[trigger] shaped_slot(
            arith,
            enabled,
            volume,
            trace,
            signals,
            raw,
            out,
            i,
        )
}

/// One whole invocation of the device callback.
///
/// Paused: `out` is silence, and neither the ring buffer nor the equalizer is
/// touched. Playing: one sample per slot leaves the ring buffer, silence
/// standing in where it ran empty; each goes through the equalizer if that is
/// enabled, and is multiplied by the volume.
pub fn render<A>(
    state: &AudioState,
    eq: &mut crate::eq::Eq,
    ring: &mut RingBuffer,
    out: &mut Vec<u32>,
    arith: &A,
) -> (live: bool) where A: Fn(SampleOp, u32, u32) -> u32
    requires
        total(*arith),
    ensures
        live == state@.playing,
        final(out)@.len() == old(out)@.len(),
        final(eq).enabled == old(eq).enabled,
        !live ==> final(out)@ == silence(old(out)@.len()) && final(ring)@ == old(ring)@
            && final(eq).bands@ == old(eq).bands@,
        live ==> final(ring)@ == after_drain(old(ring)@, old(out)@.len()),
        live ==> exists|trace: Seq<Seq<Biquad>>, signals: Seq<Seq<u32>>|
            {
                &&& #[trigger] shaped(
                    *arith,
                    old(eq).enabled,
                    state@.volume,
                    trace,
                    signals,
                    drained(old(ring)@.items, old(out)@.len()),
                    final(out)@,
                )
                &&& trace.first() == old(eq).bands@
                &&& trace.last() == final(eq).bands@
            },
{
    let live = fill_output(state.is_playing(), ring, out);
    if !live {
        return false;
    }
    let volume = state.volume();
    let len = out.len();
    let ghost raw = out@;
    let ghost enabled = eq.enabled;
    let ghost mut trace: Seq<Seq<Biquad>> = seq![eq.bands@];
    let ghost mut signals: Seq<Seq<u32>> = Seq::empty();
    let mut slot: usize = 0;
    while slot < len
        invariant
            slot <= len,
            len == raw.len(),
            out@.len() == len,
            eq.enabled == enabled,
            volume == state@.volume,
            total(*arith),
            forall|i: int| slot <= i < len ==> out@[i] == raw[i],
            trace.len() == slot + 1,
            signals.len() == slot,
            trace.first() == old(eq).bands@,
            trace.last() == eq.bands@,
            forall|i: int|
                0 <= i < slot ==> #[trigger] shaped_slot(
                    *arith,
                    enabled,
                    volume,
                    trace,
                    signals,
                    raw,
                    out@,
                    i,
                ),
        decreases len - slot,
    {
        let ghost old_out = out@;
        let ghost old_trace = trace;
        let ghost old_signals = signals;
        let x = out[slot];
        let ghost before = eq.bands@;
        let y = eq.process(x, arith);
        let ghost way = if enabled {
            choose|signal: Seq<u32>|
                {
                    &&& #[trigger] cascade(*arith, before, eq.bands@, signal)
                    &&& signal.first() == x
                    &&& signal.last() == y
                }
        } else {
            seq![x]
        };
        let z = arith(SampleOp::Mul, y, volume);
        out[slot] = z;
        proof {
            trace = trace.push(eq.bands@);
            signals = signals.push(way);
            assert forall|i: int| 0 <= i < slot + 1 implies #[trigger] shaped_slot(
                *arith,
                enabled,
                volume,
                trace,
                signals,
                raw,
                out@,
                i,
            ) by {
                if i < slot {
                    assert(shaped_slot(
                        *arith,
                        enabled,
                        volume,
                        old_trace,
                        old_signals,
                        raw,
                        old_out,
                        i,
                    ));
                    assert(trace[i] == old_trace[i]);
                    assert(trace[i + 1] == old_trace[i + 1]);
                    assert(signals[i] == old_signals[i]);
                    assert(out@[i] == old_out[i]);
                } else {
                    assert(trace[i] == before);
                    assert(trace[i + 1] == eq.bands@);
                    assert(signals[i] == way);
                    assert(raw[i] == x);
                    assert(out@[i] == z);
                    assert(way.last() == y);
                }
            }
        }
        slot = slot + 1;
    }
    assert(shaped(*arith, enabled, volume, trace, signals, raw, out@));
    true
}

/// With the equalizer disabled every output slot is the product of the
/// sample that left the ring buffer and the volume, and the chain is the same
/// after every sample as before the first.
pub proof fn lemma_bypass_leaves_samples<A: Fn(SampleOp, u32, u32) -> u32>(
    arith: A,
    volume: u32,
    trace: Seq<Seq<Biquad>>,
    signals: Seq<Seq<u32>>,
    raw: Seq<u32>,
    out: Seq<u32>,
)
    requires
        shaped(arith, false, volume, trace, signals, raw, out),
    ensures
        forall|i: int|
            0 <= i < raw.len() ==> gives(arith, SampleOp::Mul, raw[i], volume, #[trigger] out[i]),
        forall|i: int| 0 <= i <= raw.len() ==> #[trigger] trace[i] == trace[0],
        trace.last() == trace.first(),
{
    assert forall|i: int| 0 <= i < raw.len() implies gives(
        arith,
        SampleOp::Mul,
        raw[i],
        volume,
        #[trigger] out[i],
    ) by {
        assert(shaped_slot(arith, false, volume, trace, signals, raw, out, i));
    }
    lemma_bypass_trace(arith, volume, trace, signals, raw, out, raw.len() as int);
    assert forall|i: int| 0 <= i <= raw.len() implies #[trigger] trace[i] == trace[0] by {
        lemma_bypass_trace(arith, volume, trace, signals, raw, out, i);
    }
}

proof fn lemma_bypass_trace<A: Fn(SampleOp, u32, u32) -> u32>(
    arith: A,
    volume: u32,
    trace: Seq<Seq<Biquad>>,
    signals: Seq<Seq<u32>>,
    raw: Seq<u32>,
    out: Seq<u32>,
    upto: int,
)
    requires
        shaped(arith, false, volume, trace, signals, raw, out),
        0 <= upto <= raw.len(),
    ensures
        trace[upto] == trace[0],
    decreases upto,
{
    if upto > 0 {
        lemma_bypass_trace(arith, volume, trace, signals, raw, out, upto - 1);
        assert(shaped_slot(arith, false, volume, trace, signals, raw, out, upto - 1));
    }
}

/// With the equalizer disabled what is written follows the ring: a slot that
/// took a sample holds the product of that sample and the volume, in the
/// order in which the samples stood in the ring, and where zero times the
/// volume is zero every other slot is silent.
pub proof fn lemma_output_follows_the_ring<A: Fn(SampleOp, u32, u32) -> u32>(
    arith: A,
    volume: u32,
    trace: Seq<Seq<Biquad>>,
    signals: Seq<Seq<u32>>,
    items: Seq<u32>,
    len: nat,
    out: Seq<u32>,
)
    requires
        shaped(arith, false, volume, trace, signals, drained(items, len), out),
    ensures
        out.len() == len,
        forall|i: int|
            0 <= i < len && i < items.len() ==> gives(
                arith,
                SampleOp::Mul,
                items[i],
                volume,
                #[trigger] out[i],
            ),
        (forall|r: u32| #[trigger] gives(arith, SampleOp::Mul, SILENCE, volume, r) ==> r == SILENCE)
            ==> forall|i: int| items.len() <= i < len ==> #[trigger] out[i] == SILENCE,
{
    lemma_bypass_leaves_samples(arith, volume, trace, signals, drained(items, len), out);
    assert forall|i: int| 0 <= i < len && i < items.len() implies gives(
        arith,
        SampleOp::Mul,
        items[i],
        volume,
        #[trigger] out[i],
    ) by {
        assert(drained(items, len)[i] == items[i]);
    }
    if forall|r: u32| #[trigger] gives(arith, SampleOp::Mul, SILENCE, volume, r) ==> r == SILENCE {
        assert forall|i: int| items.len() <= i < len implies #[trigger] out[i] == SILENCE by {
            assert(drained(items, len)[i] == SILENCE);
            assert(gives(arith, SampleOp::Mul, SILENCE, volume, out[i]));
        }
    }
}

/// A playing invocation takes no more samples than there are slots and
/// leaves the ring within its capacity; slots beyond the ring's samples are
/// silent, and an invocation without slots takes nothing.
pub proof fn lemma_drain_bounds(ring: RingModel, len: nat)
    requires
        ring.wf(),
    ensures
        after_drain(ring, len).wf(),
        after_drain(ring, 0) == ring,
        after_drain(ring, len).items.len() + len >= ring.items.len(),
        drained(ring.items, len).len() == len,
        forall|i: int| ring.items.len() <= i < len ==> drained(ring.items, len)[i] == SILENCE,
{
    assert(ring.items.skip(0) =~= ring.items);
    if ring.items.len() == 0 {
        assert(after_drain(ring, 0).items =~= ring.items);
    }
}

/// Once the stream is exhausted the output is silence: an empty ring gives
/// nothing else, however many slots are asked for.
pub proof fn lemma_empty_ring_is_silent(len: nat)
    ensures
        drained(Seq::empty(), len) == silence(len),
{
    assert(drained(Seq::empty(), len) =~= silence(len));
}

} // verus!
