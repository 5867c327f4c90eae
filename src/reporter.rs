//! Post-processing of the bandwidth samples for the report.

use vstd::prelude::*;

verus! {

/// A stretch of the run with the bytes received in it.
#[derive(Debug, Clone, Copy, PartialEq, Eq, Structural)]
pub struct BandwidthInterval {
    /// When the interval ends, in ms since the start of the run.
    pub end_ms: u128,
    /// Its length in ms; never 0.
    pub duration_ms: u128,
    pub bytes: u64,
}

/// The intervals between successive samples, the first one starting at
/// `last_ms`. A sample at or before the previous one closes an interval of
/// no length, which is left out.
pub open spec fn intervals_from(samples: Seq<(u128, u64)>, last_ms: u128) -> Seq<BandwidthInterval>
    decreases samples.len(),
{
    if samples.len() == 0 {
        seq![]
    } else {
        let end = samples[0].0;
        let duration = if end >= last_ms {
            (end - last_ms) as u128
        } else {
            0u128
        };
        let rest = intervals_from(samples.drop_first(), end);
        if duration == 0 {
            rest
        } else {
            seq![BandwidthInterval { end_ms: end, duration_ms: duration, bytes: samples[0].1 }]
                + rest
        }
    }
}

/// Turns `(end ms, bytes)` samples into intervals, the first starting at 0.
/// Throughput over an interval is `bytes * 8 / duration`.
pub fn bandwidth_intervals(samples: &Vec<(u128, u64)>) -> (r: Vec<BandwidthInterval>)
    ensures
        r@ == intervals_from(samples@, 0),
        forall|i: int| 0 <= i < r@.len() ==> (#[trigger] r@[i]).duration_ms > 0,
{
    let mut out: Vec<BandwidthInterval> = Vec::new();
    let mut last_ms: u128 = 0;
    let mut i: usize = 0;
    assert(samples@.skip(0) =~= samples@);
    while i < samples.len()
        invariant
            i <= samples@.len(),
            out@ + intervals_from(samples@.skip(i as int), last_ms) == intervals_from(samples@, 0),
            forall|k: int| 0 <= k < out@.len() ==> (#[trigger] out@[k]).duration_ms > 0,
        decreases samples@.len() - i,
    {
        let (end_ms, bytes) = samples[i];
        let duration_ms = if end_ms >= last_ms {
            end_ms - last_ms
        } else {
            0
        };
        let ghost rest = samples@.skip(i + 1);
        assert(samples@.skip(i as int).drop_first() =~= rest);
        if duration_ms != 0 {
            let ghost before = out@;
            out.push(BandwidthInterval { end_ms, duration_ms, bytes });
            assert(out@ + intervals_from(rest, end_ms) =~= before + (seq![
                BandwidthInterval { end_ms, duration_ms, bytes },
            ] + intervals_from(rest, end_ms)));
        }
        last_ms = end_ms;
        i = i + 1;
    }
    assert(samples@.skip(i as int) =~= Seq::<(u128, u64)>::empty());
    assert(out@ + Seq::<BandwidthInterval>::empty() =~= out@);
    out
}

} // verus!
