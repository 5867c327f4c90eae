//! Anomaly events: threshold breaches and reordering seen during a run.

use vstd::prelude::*;

verus! {

/// The kinds of behaviour that a run flags.
#[derive(Debug, Clone, Copy, PartialEq, Eq, Structural)]
pub enum AnomalyType {
    PacketLoss,
    OutOfOrder,
    DuplicatePacket,
    HighLatencySpike,
    JitterSpike,
    SynTimeout,
    ConnectionReset,
    ExcessiveRetransmissions,
}

/// One flagged event.
#[derive(Debug, Clone)]
pub struct AnomalyEvent {
    /// Milliseconds since the start of the run.
    pub timestamp_ms: u128,
    pub anomaly_type: AnomalyType,
    pub description: String,
}

/// Whether `events` are, one for one, of the given kinds and descriptions.
/// Timestamps are left free: they come from the clock.
pub open spec fn events_match(
    events: Seq<AnomalyEvent>,
    expected: Seq<(AnomalyType, Seq<char>)>,
) -> bool {
    &&& events.len() == expected.len()
    &&& forall|i: int|
        0 <= i < events.len() ==> #[trigger] events[i].anomaly_type == expected[i].0
            && events[i].description@ == expected[i].1
}

/// Whether `after` is `before` followed by events matching `expected`.
pub open spec fn appended(
    before: Seq<AnomalyEvent>,
    after: Seq<AnomalyEvent>,
    expected: Seq<(AnomalyType, Seq<char>)>,
) -> bool {
    &&& after.len() == before.len() + expected.len()
    &&& after.subrange(0, before.len() as int) == before
    &&& events_match(after.subrange(before.len() as int, after.len() as int), expected)
}

/// Appending nothing leaves a log as it is.
pub proof fn lemma_appended_none(s: Seq<AnomalyEvent>)
    ensures
        appended(s, s, seq![]),
{
    assert(s.subrange(0, s.len() as int) =~= s);
}

/// Pushing one event appends exactly that event.
pub proof fn lemma_appended_push(s: Seq<AnomalyEvent>, e: AnomalyEvent)
    ensures
        appended(s, s.push(e), seq![(e.anomaly_type, e.description@)]),
{
    assert(s.push(e).subrange(0, s.len() as int) =~= s);
    assert(s.push(e).subrange(s.len() as int, s.len() + 1int) =~= seq![e]);
}

/// Two appends in a row are one append of both.
pub proof fn lemma_appended_trans(
    a: Seq<AnomalyEvent>,
    b: Seq<AnomalyEvent>,
    c: Seq<AnomalyEvent>,
    first: Seq<(AnomalyType, Seq<char>)>,
    second: Seq<(AnomalyType, Seq<char>)>,
)
    requires
        appended(a, b, first),
        appended(b, c, second),
    ensures
        appended(a, c, first + second),
{
    assert(c.subrange(0, a.len() as int) =~= b.subrange(0, a.len() as int));
    let tail = c.subrange(a.len() as int, c.len() as int);
    let e = first + second;
    assert forall|i: int| 0 <= i < tail.len() implies #[trigger] tail[i].anomaly_type == e[i].0
        && tail[i].description@ == e[i].1 by {
        if i < first.len() {
            assert(tail[i] == b.subrange(a.len() as int, b.len() as int)[i]);
        } else {
            assert(tail[i] == c.subrange(b.len() as int, c.len() as int)[i - first.len()]);
        }
    }
}

/// Post-run analysis of a packet stream. No analysis is defined yet, so
/// nothing is ever reported.
pub fn detect_anomalies() -> (r: Vec<AnomalyEvent>)
    ensures
        r@.len() == 0,
{
    Vec::new()
}

} // verus!
