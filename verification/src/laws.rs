//! The laws of the coordinator, proved over the abstract unit state and
//! the event log: counting is correct, launches and stops happen exactly
//! on the 0→1 and 1→0 transitions, chains visit their members in
//! registration-reverse order on acquire and release alike, and
//! composition depth does not change behaviour.

use vstd::prelude::*;

use crate::events::Event;
use crate::events::UnitModel;
use crate::events::acquire_delta;
use crate::events::acquire_deltas;
use crate::events::lemma_occurrences_concat;
use crate::events::occurrences;
use crate::events::release_delta;
use crate::events::release_deltas;
use crate::events::shifted;

verus! {

/// The unit's state after one acquire is applied to it.
pub open spec fn raised(m: UnitModel) -> UnitModel {
    UnitModel { id: m.id, count: m.count + 1 }
}

/// The unit's state after one release is applied to it.
pub open spec fn lowered(m: UnitModel) -> UnitModel {
    UnitModel { id: m.id, count: m.count - 1 }
}

/// The events of `n` successive acquire calls on one unit starting in
/// state `m`.
pub open spec fn acquire_run(m: UnitModel, n: nat) -> Seq<Event>
    decreases n,
{
    if n == 0 {
        Seq::empty()
    } else {
        acquire_delta(m) + acquire_run(raised(m), (n - 1) as nat)
    }
}

/// The events of `n` successive release calls on one unit starting in
/// state `m`.
pub open spec fn release_run(m: UnitModel, n: nat) -> Seq<Event>
    decreases n,
{
    if n == 0 {
        Seq::empty()
    } else {
        release_delta(m) + release_run(lowered(m), (n - 1) as nat)
    }
}

proof fn lemma_occurrences_singleton(x: Event, e: Event)
    ensures
        occurrences(seq![x], e) == if x == e { 1nat } else { 0nat },
{
    assert(seq![x].drop_first() =~= Seq::<Event>::empty());
    assert(occurrences(Seq::<Event>::empty(), e) == 0);
    assert(seq![x][0] == x);
}

proof fn lemma_occurrences_triple(a: Event, b: Event, c: Event, e: Event)
    ensures
        occurrences(seq![a, b, c], e) == (if a == e { 1nat } else { 0nat })
            + (if b == e { 1nat } else { 0nat }) + (if c == e { 1nat } else { 0nat }),
{
    assert(seq![a, b, c].drop_first() =~= seq![b, c]);
    assert(seq![b, c].drop_first() =~= seq![c]);
    assert(seq![c].drop_first() =~= Seq::<Event>::empty());
    assert(occurrences(Seq::<Event>::empty(), e) == 0);
    assert(occurrences(seq![c], e) == if c == e { 1nat } else { 0nat });
    assert(occurrences(seq![b, c], e)
        == (if b == e { 1nat } else { 0nat }) + (if c == e { 1nat } else { 0nat }));
}

/// What one acquire call contributes to each event count.
proof fn lemma_acquire_delta_counts(m: UnitModel)
    ensures
        occurrences(acquire_delta(m), Event::Acquired(m.id)) == 1,
        occurrences(acquire_delta(m), Event::Prepared(m.id)) == if m.count == 0 { 1nat } else { 0nat },
        occurrences(acquire_delta(m), Event::Launched(m.id)) == if m.count == 0 { 1nat } else { 0nat },
        occurrences(acquire_delta(m), Event::Released(m.id)) == 0,
        occurrences(acquire_delta(m), Event::StopRequested(m.id)) == 0,
        occurrences(acquire_delta(m), Event::Stopped(m.id)) == 0,
{
    if m.count == 0 {
        lemma_occurrences_triple(
            Event::Acquired(m.id), Event::Prepared(m.id), Event::Launched(m.id),
            Event::Acquired(m.id),
        );
        lemma_occurrences_triple(
            Event::Acquired(m.id), Event::Prepared(m.id), Event::Launched(m.id),
            Event::Prepared(m.id),
        );
        lemma_occurrences_triple(
            Event::Acquired(m.id), Event::Prepared(m.id), Event::Launched(m.id),
            Event::Launched(m.id),
        );
        lemma_occurrences_triple(
            Event::Acquired(m.id), Event::Prepared(m.id), Event::Launched(m.id),
            Event::Released(m.id),
        );
        lemma_occurrences_triple(
            Event::Acquired(m.id), Event::Prepared(m.id), Event::Launched(m.id),
            Event::StopRequested(m.id),
        );
        lemma_occurrences_triple(
            Event::Acquired(m.id), Event::Prepared(m.id), Event::Launched(m.id),
            Event::Stopped(m.id),
        );
    } else {
        lemma_occurrences_singleton(Event::Acquired(m.id), Event::Acquired(m.id));
        lemma_occurrences_singleton(Event::Acquired(m.id), Event::Prepared(m.id));
        lemma_occurrences_singleton(Event::Acquired(m.id), Event::Launched(m.id));
        lemma_occurrences_singleton(Event::Acquired(m.id), Event::Released(m.id));
        lemma_occurrences_singleton(Event::Acquired(m.id), Event::StopRequested(m.id));
        lemma_occurrences_singleton(Event::Acquired(m.id), Event::Stopped(m.id));
    }
}

/// What one release call contributes to each event count.
proof fn lemma_release_delta_counts(m: UnitModel)
    ensures
        occurrences(release_delta(m), Event::Released(m.id)) == 1,
        occurrences(release_delta(m), Event::StopRequested(m.id)) == if m.count == 1 { 1nat } else { 0nat },
        occurrences(release_delta(m), Event::Stopped(m.id)) == if m.count == 1 { 1nat } else { 0nat },
        occurrences(release_delta(m), Event::Acquired(m.id)) == 0,
        occurrences(release_delta(m), Event::Prepared(m.id)) == 0,
        occurrences(release_delta(m), Event::Launched(m.id)) == 0,
{
    if m.count == 1 {
        lemma_occurrences_triple(
            Event::Released(m.id), Event::StopRequested(m.id), Event::Stopped(m.id),
            Event::Released(m.id),
        );
        lemma_occurrences_triple(
            Event::Released(m.id), Event::StopRequested(m.id), Event::Stopped(m.id),
            Event::StopRequested(m.id),
        );
        lemma_occurrences_triple(
            Event::Released(m.id), Event::StopRequested(m.id), Event::Stopped(m.id),
            Event::Stopped(m.id),
        );
        lemma_occurrences_triple(
            Event::Released(m.id), Event::StopRequested(m.id), Event::Stopped(m.id),
            Event::Acquired(m.id),
        );
        lemma_occurrences_triple(
            Event::Released(m.id), Event::StopRequested(m.id), Event::Stopped(m.id),
            Event::Prepared(m.id),
        );
        lemma_occurrences_triple(
            Event::Released(m.id), Event::StopRequested(m.id), Event::Stopped(m.id),
            Event::Launched(m.id),
        );
    } else {
        lemma_occurrences_singleton(Event::Released(m.id), Event::Released(m.id));
        lemma_occurrences_singleton(Event::Released(m.id), Event::StopRequested(m.id));
        lemma_occurrences_singleton(Event::Released(m.id), Event::Stopped(m.id));
        lemma_occurrences_singleton(Event::Released(m.id), Event::Acquired(m.id));
        lemma_occurrences_singleton(Event::Released(m.id), Event::Prepared(m.id));
        lemma_occurrences_singleton(Event::Released(m.id), Event::Launched(m.id));
    }
}

/// Event counts over a run of `n` acquire calls: one Acquired per call,
/// and setup and launch exactly once if and only if the run started
/// idle, never otherwise.
pub proof fn lemma_acquire_run_counts(m: UnitModel, n: nat)
    requires
        m.count >= 0,
    ensures
        occurrences(acquire_run(m, n), Event::Acquired(m.id)) == n,
        occurrences(acquire_run(m, n), Event::Prepared(m.id))
            == if m.count == 0 && n > 0 { 1nat } else { 0nat },
        occurrences(acquire_run(m, n), Event::Launched(m.id))
            == if m.count == 0 && n > 0 { 1nat } else { 0nat },
        occurrences(acquire_run(m, n), Event::Released(m.id)) == 0,
        occurrences(acquire_run(m, n), Event::StopRequested(m.id)) == 0,
        occurrences(acquire_run(m, n), Event::Stopped(m.id)) == 0,
    decreases n,
{
    if n > 0 {
        lemma_acquire_run_counts(raised(m), (n - 1) as nat);
        lemma_acquire_delta_counts(m);
        let rest = acquire_run(raised(m), (n - 1) as nat);
        lemma_occurrences_concat(acquire_delta(m), rest, Event::Acquired(m.id));
        lemma_occurrences_concat(acquire_delta(m), rest, Event::Prepared(m.id));
        lemma_occurrences_concat(acquire_delta(m), rest, Event::Launched(m.id));
        lemma_occurrences_concat(acquire_delta(m), rest, Event::Released(m.id));
        lemma_occurrences_concat(acquire_delta(m), rest, Event::StopRequested(m.id));
        lemma_occurrences_concat(acquire_delta(m), rest, Event::Stopped(m.id));
    }
}

/// Event counts over a run of `n` release calls, with no more releases
/// than are owed: one Released per call, and the stop request and the
/// confirmed stop exactly once if and only if the run takes the count
/// all the way to zero, never otherwise.
pub proof fn lemma_release_run_counts(m: UnitModel, n: nat)
    requires
        n <= m.count,
    ensures
        occurrences(release_run(m, n), Event::Released(m.id)) == n,
        occurrences(release_run(m, n), Event::StopRequested(m.id))
            == if n == m.count && n > 0 { 1nat } else { 0nat },
        occurrences(release_run(m, n), Event::Stopped(m.id))
            == if n == m.count && n > 0 { 1nat } else { 0nat },
        occurrences(release_run(m, n), Event::Acquired(m.id)) == 0,
        occurrences(release_run(m, n), Event::Prepared(m.id)) == 0,
        occurrences(release_run(m, n), Event::Launched(m.id)) == 0,
    decreases n,
{
    if n > 0 {
        lemma_release_run_counts(lowered(m), (n - 1) as nat);
        lemma_release_delta_counts(m);
        let rest = release_run(lowered(m), (n - 1) as nat);
        lemma_occurrences_concat(release_delta(m), rest, Event::Released(m.id));
        lemma_occurrences_concat(release_delta(m), rest, Event::StopRequested(m.id));
        lemma_occurrences_concat(release_delta(m), rest, Event::Stopped(m.id));
        lemma_occurrences_concat(release_delta(m), rest, Event::Acquired(m.id));
        lemma_occurrences_concat(release_delta(m), rest, Event::Prepared(m.id));
        lemma_occurrences_concat(release_delta(m), rest, Event::Launched(m.id));
    }
}

/// `n + 1` successive acquires are `n` of them followed by one more,
/// applied to the state the first `n` produced.
pub proof fn lemma_acquire_run_snoc(m: UnitModel, n: nat)
    ensures
        acquire_run(m, (n + 1) as nat) == acquire_run(m, n)
            + acquire_delta(UnitModel { id: m.id, count: m.count + n }),
    decreases n,
{
    if n == 0 {
        assert(acquire_run(raised(m), 0) =~= Seq::<Event>::empty());
        assert(acquire_run(m, 1) =~= acquire_delta(m));
        assert(acquire_run(m, 0) =~= Seq::<Event>::empty());
        assert(acquire_run(m, 0) + acquire_delta(m) =~= acquire_delta(m));
    } else {
        lemma_acquire_run_snoc(raised(m), (n - 1) as nat);
        assert(acquire_run(m, (n + 1) as nat)
            =~= acquire_run(m, n) + acquire_delta(UnitModel { id: m.id, count: m.count + n }));
    }
}

/// `n + 1` successive releases are `n` of them followed by one more,
/// applied to the state the first `n` produced.
pub proof fn lemma_release_run_snoc(m: UnitModel, n: nat)
    ensures
        release_run(m, (n + 1) as nat) == release_run(m, n)
            + release_delta(UnitModel { id: m.id, count: m.count - n }),
    decreases n,
{
    if n == 0 {
        assert(release_run(lowered(m), 0) =~= Seq::<Event>::empty());
        assert(release_run(m, 1) =~= release_delta(m));
        assert(release_run(m, 0) =~= Seq::<Event>::empty());
        assert(release_run(m, 0) + release_delta(m) =~= release_delta(m));
    } else {
        lemma_release_run_snoc(lowered(m), (n - 1) as nat);
        assert(release_run(m, (n + 1) as nat)
            =~= release_run(m, n) + release_delta(UnitModel { id: m.id, count: m.count - n }));
    }
}

/// Count correctness: any `n` acquire calls followed by the `n`
/// matching release calls, starting from an idle unit, log each call
/// once and perform exactly one setup, one launch, one stop request and
/// one confirmed stop. (After the last release the count is back to
/// zero, so a well-formed unit's running flag is false again; see
/// `crate::unit::lemma_idle_unit_not_running`.)
pub proof fn lemma_count_correctness(id: u64, n: nat)
    requires
        n >= 1,
    ensures
        ({
            let trace = acquire_run(UnitModel { id: id, count: 0 }, n)
                + release_run(UnitModel { id: id, count: n as int }, n);
            &&& occurrences(trace, Event::Acquired(id)) == n
            &&& occurrences(trace, Event::Released(id)) == n
            &&& occurrences(trace, Event::Prepared(id)) == 1
            &&& occurrences(trace, Event::Launched(id)) == 1
            &&& occurrences(trace, Event::StopRequested(id)) == 1
            &&& occurrences(trace, Event::Stopped(id)) == 1
        }),
{
    let up = UnitModel { id: id, count: 0 };
    let down = UnitModel { id: id, count: n as int };
    lemma_acquire_run_counts(up, n);
    lemma_release_run_counts(down, n);
    lemma_occurrences_concat(acquire_run(up, n), release_run(down, n), Event::Acquired(id));
    lemma_occurrences_concat(acquire_run(up, n), release_run(down, n), Event::Released(id));
    lemma_occurrences_concat(acquire_run(up, n), release_run(down, n), Event::Prepared(id));
    lemma_occurrences_concat(acquire_run(up, n), release_run(down, n), Event::Launched(id));
    lemma_occurrences_concat(acquire_run(up, n), release_run(down, n), Event::StopRequested(id));
    lemma_occurrences_concat(acquire_run(up, n), release_run(down, n), Event::Stopped(id));
}

/// No double launch: however many acquire calls arrive while the count
/// is already positive, none of them launches the context or re-runs
/// its setup.
pub proof fn lemma_no_double_launch(m: UnitModel, n: nat)
    requires
        m.count > 0,
    ensures
        occurrences(acquire_run(m, n), Event::Launched(m.id)) == 0,
        occurrences(acquire_run(m, n), Event::Prepared(m.id)) == 0,
{
    lemma_acquire_run_counts(m, n);
}

/// No premature stop: release calls that leave the count positive never
/// request a stop, and never see one confirmed.
pub proof fn lemma_no_premature_stop(m: UnitModel, n: nat)
    requires
        n < m.count,
    ensures
        occurrences(release_run(m, n), Event::StopRequested(m.id)) == 0,
        occurrences(release_run(m, n), Event::Stopped(m.id)) == 0,
{
    lemma_release_run_counts(m, n);
}

/// Where member `i`'s Acquired event stands in the log of one acquire
/// over a composite: after the full event groups of the members before
/// it.
pub open spec fn acquire_offset(ms: Seq<UnitModel>, i: int) -> int
    decreases i,
{
    if i <= 0 {
        0
    } else {
        acquire_delta(ms[0]).len() + acquire_offset(ms.drop_first(), i - 1)
    }
}

/// Where member `i`'s Released event stands in the log of one release
/// over a composite.
pub open spec fn release_offset(ms: Seq<UnitModel>, i: int) -> int
    decreases i,
{
    if i <= 0 {
        0
    } else {
        release_delta(ms[0]).len() + release_offset(ms.drop_first(), i - 1)
    }
}

proof fn lemma_acquire_offset_at(ms: Seq<UnitModel>, i: int)
    requires
        0 <= i < ms.len(),
    ensures
        0 <= acquire_offset(ms, i) < acquire_deltas(ms).len(),
        acquire_deltas(ms)[acquire_offset(ms, i)] == Event::Acquired(ms[i].id),
    decreases i,
{
    if i == 0 {
        assert(acquire_delta(ms[0])[0] == Event::Acquired(ms[0].id));
        assert(acquire_deltas(ms)[0] == acquire_delta(ms[0])[0]);
    } else {
        lemma_acquire_offset_at(ms.drop_first(), i - 1);
        assert(ms.drop_first()[i - 1] == ms[i]);
    }
}

proof fn lemma_release_offset_at(ms: Seq<UnitModel>, i: int)
    requires
        0 <= i < ms.len(),
    ensures
        0 <= release_offset(ms, i) < release_deltas(ms).len(),
        release_deltas(ms)[release_offset(ms, i)] == Event::Released(ms[i].id),
    decreases i,
{
    if i == 0 {
        assert(release_delta(ms[0])[0] == Event::Released(ms[0].id));
        assert(release_deltas(ms)[0] == release_delta(ms[0])[0]);
    } else {
        lemma_release_offset_at(ms.drop_first(), i - 1);
        assert(ms.drop_first()[i - 1] == ms[i]);
    }
}

proof fn lemma_acquire_offset_mono(ms: Seq<UnitModel>, i: int, j: int)
    requires
        0 <= i < j < ms.len(),
    ensures
        acquire_offset(ms, i) < acquire_offset(ms, j),
    decreases i,
{
    if i == 0 {
        if j - 1 < ms.drop_first().len() {
            lemma_acquire_offset_at(ms.drop_first(), j - 1);
        }
    } else {
        lemma_acquire_offset_mono(ms.drop_first(), i - 1, j - 1);
    }
}

proof fn lemma_release_offset_mono(ms: Seq<UnitModel>, i: int, j: int)
    requires
        0 <= i < j < ms.len(),
    ensures
        release_offset(ms, i) < release_offset(ms, j),
    decreases i,
{
    if i == 0 {
        if j - 1 < ms.drop_first().len() {
            lemma_release_offset_at(ms.drop_first(), j - 1);
        }
    } else {
        lemma_release_offset_mono(ms.drop_first(), i - 1, j - 1);
    }
}

/// Chain ordering, acquire side: in the log of one acquire over a
/// composite, the member visited at position `i` has its Acquired event
/// strictly before that of the member at position `j`, for every
/// `i < j`. A chain built by registering U1, then U2, then U3 has the
/// model order U3, U2, U1, so U3 is acquired before U2 before U1.
pub proof fn lemma_chain_acquire_order(ms: Seq<UnitModel>, i: int, j: int)
    requires
        0 <= i < j < ms.len(),
    ensures
        ({
            let t = acquire_deltas(ms);
            &&& 0 <= acquire_offset(ms, i) < acquire_offset(ms, j) < t.len()
            &&& t[acquire_offset(ms, i)] == Event::Acquired(ms[i].id)
            &&& t[acquire_offset(ms, j)] == Event::Acquired(ms[j].id)
        }),
{
    lemma_acquire_offset_at(ms, i);
    lemma_acquire_offset_at(ms, j);
    lemma_acquire_offset_mono(ms, i, j);
}

/// Chain ordering, release side: release visits the members in the
/// same order as acquire — most recently registered first, not the
/// mirror image.
pub proof fn lemma_chain_release_order(ms: Seq<UnitModel>, i: int, j: int)
    requires
        0 <= i < j < ms.len(),
    ensures
        ({
            let t = release_deltas(ms);
            &&& 0 <= release_offset(ms, i) < release_offset(ms, j) < t.len()
            &&& t[release_offset(ms, i)] == Event::Released(ms[i].id)
            &&& t[release_offset(ms, j)] == Event::Released(ms[j].id)
        }),
{
    lemma_release_offset_at(ms, i);
    lemma_release_offset_at(ms, j);
    lemma_release_offset_mono(ms, i, j);
}

/// Composition depth is irrelevant: a composite of one member logs
/// exactly the bare member's events and moves to exactly the bare
/// member's successor state, on acquire and release alike. Together
/// with `Blueprint::new`'s guarantee that a one-unit chain has the
/// model of the bare unit, a chain of one behaves identically to the
/// unit under every acquire/release sequence.
pub proof fn lemma_single_member_chain(m: UnitModel)
    ensures
        acquire_deltas(seq![m]) == acquire_delta(m),
        release_deltas(seq![m]) == release_delta(m),
        shifted(seq![m], 1) == seq![raised(m)],
        shifted(seq![m], -1) == seq![lowered(m)],
{
    assert(seq![m].drop_first() =~= Seq::<UnitModel>::empty());
    assert(acquire_deltas(Seq::<UnitModel>::empty()) =~= Seq::<Event>::empty());
    assert(release_deltas(Seq::<UnitModel>::empty()) =~= Seq::<Event>::empty());
    assert(acquire_deltas(seq![m]) =~= acquire_delta(m));
    assert(release_deltas(seq![m]) =~= release_delta(m));
    assert(shifted(seq![m], 1) =~= seq![raised(m)]);
    assert(shifted(seq![m], -1) =~= seq![lowered(m)]);
}

} // verus!
