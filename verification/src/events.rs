//! The observable effects of the coordinator, and the abstract state of
//! a coordinated unit.
//!
//! Every acquire and release call on a unit appends a record of what it
//! did to an event log; the 0→1 and 1→0 count transitions additionally
//! record the setup, launch and stop work done on the wrapped context.
//! The spec functions here say, for a unit in a given abstract state,
//! exactly which events one call appends.

use vstd::prelude::*;

verus! {

/// One observable action of the coordinator on a unit, tagged with the
/// unit's identity.
#[derive(Clone, Copy, Debug, PartialEq, Eq, Structural)]
pub enum Event {
    /// An acquire call was applied: the count went up by one.
    Acquired(u64),
    /// The unit ran the context's one-time setup, synchronously on the
    /// acquiring caller, before the launch.
    Prepared(u64),
    /// The unit launched the context's independent execution and saw it
    /// report in as running.
    Launched(u64),
    /// A release call was applied: the count went down by one.
    Released(u64),
    /// The unit asked the running context to stop.
    StopRequested(u64),
    /// The context confirmed that it stopped.
    Stopped(u64),
}

/// The abstract state of one coordinated unit: its identity and how
/// many acquire calls are outstanding (not yet matched by a release).
pub ghost struct UnitModel {
    pub id: u64,
    pub count: int,
}

/// The events one acquire call appends for a unit in state `m`: the
/// count update, and — only on the 0→1 transition — the setup run on
/// the acquiring caller followed by the launch.
pub open spec fn acquire_delta(m: UnitModel) -> Seq<Event> {
    if m.count == 0 {
        seq![Event::Acquired(m.id), Event::Prepared(m.id), Event::Launched(m.id)]
    } else {
        seq![Event::Acquired(m.id)]
    }
}

/// The events one release call appends for a unit in state `m`: the
/// count update, and — only on the 1→0 transition — the stop request
/// followed by the confirmed stop.
pub open spec fn release_delta(m: UnitModel) -> Seq<Event> {
    if m.count == 1 {
        seq![Event::Released(m.id), Event::StopRequested(m.id), Event::Stopped(m.id)]
    } else {
        seq![Event::Released(m.id)]
    }
}

/// The events of acquiring every member of a composite, first member
/// first.
pub open spec fn acquire_deltas(ms: Seq<UnitModel>) -> Seq<Event>
    decreases ms.len(),
{
    if ms.len() == 0 {
        Seq::empty()
    } else {
        acquire_delta(ms[0]) + acquire_deltas(ms.drop_first())
    }
}

/// The events of releasing every member of a composite, first member
/// first (release visits members in the same order as acquire).
pub open spec fn release_deltas(ms: Seq<UnitModel>) -> Seq<Event>
    decreases ms.len(),
{
    if ms.len() == 0 {
        Seq::empty()
    } else {
        release_delta(ms[0]) + release_deltas(ms.drop_first())
    }
}

/// Every member's count moved by `d`.
pub open spec fn shifted(ms: Seq<UnitModel>, d: int) -> Seq<UnitModel> {
    ms.map_values(|m: UnitModel| UnitModel { id: m.id, count: m.count + d })
}

/// Every member can take one more acquire without its count leaving the
/// machine range.
pub open spec fn all_counts_below_max(ms: Seq<UnitModel>) -> bool {
    forall|i: int| 0 <= i < ms.len() ==> #[trigger] ms[i].count < usize::MAX
}

/// Every member has at least one outstanding acquire, so a release is
/// owed to each.
pub open spec fn all_counts_positive(ms: Seq<UnitModel>) -> bool {
    forall|i: int| 0 <= i < ms.len() ==> #[trigger] ms[i].count > 0
}

/// How often `e` occurs in `s`.
pub open spec fn occurrences(s: Seq<Event>, e: Event) -> nat
    decreases s.len(),
{
    if s.len() == 0 {
        0
    } else {
        occurrences(s.drop_first(), e) + (if s[0] == e { 1nat } else { 0nat })
    }
}

/// Occurrence counting distributes over concatenation.
pub proof fn lemma_occurrences_concat(a: Seq<Event>, b: Seq<Event>, e: Event)
    ensures
        occurrences(a + b, e) == occurrences(a, e) + occurrences(b, e),
    decreases a.len(),
{
    if a.len() == 0 {
        assert(a + b =~= b);
    } else {
        lemma_occurrences_concat(a.drop_first(), b, e);
        assert((a + b).drop_first() =~= a.drop_first() + b);
        assert((a + b)[0] == a[0]);
    }
}

/// The per-member acquire events of a concatenation are the two parts'
/// events, in order.
pub proof fn lemma_acquire_deltas_concat(a: Seq<UnitModel>, b: Seq<UnitModel>)
    ensures
        acquire_deltas(a + b) == acquire_deltas(a) + acquire_deltas(b),
    decreases a.len(),
{
    if a.len() == 0 {
        assert(a + b =~= b);
        assert(acquire_deltas(a) + acquire_deltas(b) =~= acquire_deltas(b));
    } else {
        lemma_acquire_deltas_concat(a.drop_first(), b);
        assert((a + b).drop_first() =~= a.drop_first() + b);
        assert((a + b)[0] == a[0]);
        assert(acquire_deltas(a + b) =~= acquire_deltas(a) + acquire_deltas(b));
    }
}

/// The per-member release events of a concatenation are the two parts'
/// events, in order.
pub proof fn lemma_release_deltas_concat(a: Seq<UnitModel>, b: Seq<UnitModel>)
    ensures
        release_deltas(a + b) == release_deltas(a) + release_deltas(b),
    decreases a.len(),
{
    if a.len() == 0 {
        assert(a + b =~= b);
        assert(release_deltas(a) + release_deltas(b) =~= release_deltas(b));
    } else {
        lemma_release_deltas_concat(a.drop_first(), b);
        assert((a + b).drop_first() =~= a.drop_first() + b);
        assert((a + b)[0] == a[0]);
        assert(release_deltas(a + b) =~= release_deltas(a) + release_deltas(b));
    }
}

/// Shifting the counts of a concatenation shifts the two parts.
pub proof fn lemma_shifted_concat(a: Seq<UnitModel>, b: Seq<UnitModel>, d: int)
    ensures
        shifted(a + b, d) == shifted(a, d) + shifted(b, d),
{
    assert(shifted(a + b, d) =~= shifted(a, d) + shifted(b, d));
}

} // verus!
