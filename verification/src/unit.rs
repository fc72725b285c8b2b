//! The reference-counted coordinator for one lifecycle-managed context,
//! and the pairwise composite that lets two units be acquired and
//! released as one.

use vstd::prelude::*;

use crate::events::Event;
use crate::events::UnitModel;
use crate::events::acquire_delta;
use crate::events::acquire_deltas;
use crate::events::all_counts_below_max;
use crate::events::all_counts_positive;
use crate::events::lemma_acquire_deltas_concat;
use crate::events::lemma_release_deltas_concat;
use crate::events::lemma_shifted_concat;
use crate::events::release_delta;
use crate::events::release_deltas;
use crate::events::shifted;
use crate::laws::acquire_run;
use crate::laws::lemma_acquire_run_snoc;
use crate::laws::lemma_release_run_snoc;
use crate::laws::lemma_single_member_chain;
use crate::laws::release_run;

verus! {

/// The capability surface a lifecycle-managed context supplies to the
/// coordinator. The coordinator makes no claim about the context's own
/// state, so the methods carry no contract; any business data the
/// context touches is the implementor's responsibility to guard.
pub trait Actor {
    /// One-time initialization, run synchronously to completion on the
    /// acquiring caller, before the context's independent execution is
    /// launched. Setup work belongs here, not at the head of `start`:
    /// only here is it serialized against a matching release (see
    /// `crate::race`).
    fn setup(&mut self);

    /// The long-running body, executed inside the launched execution.
    /// It must periodically observe the stop signal and return when the
    /// signal is set. The coordinator never calls it on the acquiring
    /// caller; an embedding that backs the launch with a real thread or
    /// task invokes it there. A return while acquires are still
    /// outstanding is an unrequested exit: fatal, to be escalated
    /// loudly by the embedding — the coordinator has no restart policy,
    /// and treating it as a clean stop would leave callers believing
    /// the context is up.
    fn start(&mut self);

    /// Ask the running context to terminate, from the releasing
    /// caller. A signal only: it must not itself stop the context.
    fn abort(&mut self);
}

/// Anything with reference-counted acquire/release semantics: a single
/// coordinated unit, a pair of them, or a whole chain. The shape is
/// identical regardless of composition depth, so callers can treat a
/// dependency group as one resource.
///
/// The contract speaks of the member models in the order in which
/// acquire and release visit them, and of the event log: each call
/// appends exactly the per-member events of `acquire_deltas` /
/// `release_deltas`, first member first.
pub trait Unit: Sized {
    /// The abstract state of every member unit, in visiting order.
    spec fn model(&self) -> Seq<UnitModel>;

    /// Structural well-formedness: counts in machine range, running
    /// flags consistent with the counts.
    spec fn wf(&self) -> bool;

    /// Increment every member's count; on a member's 0→1 transition run
    /// its setup and launch its context, then wait until it is running.
    /// Acquire and release calls must be paired one to one; a count at
    /// the machine limit is the one input the pairing discipline cannot
    /// admit.
    fn acquire(&mut self, log: &mut Vec<Event>)
        requires
            old(self).wf(),
            all_counts_below_max(old(self).model()),
        ensures
            final(self).wf(),
            final(self).model() == shifted(old(self).model(), 1),
            final(log)@ == old(log)@ + acquire_deltas(old(self).model()),
    ;

    /// Decrement every member's count; on a member's 1→0 transition ask
    /// its context to stop and wait for the confirmation. A release is
    /// only permitted when one is owed: every member's count must be
    /// positive (an unpaired release is a contract violation by the
    /// caller).
    fn release(&mut self, log: &mut Vec<Event>)
        requires
            old(self).wf(),
            all_counts_positive(old(self).model()),
        ensures
            final(self).wf(),
            final(self).model() == shifted(old(self).model(), -1),
            final(log)@ == old(log)@ + release_deltas(old(self).model()),
    ;
}

/// The coordinator for exactly one lifecycle-managed context: the
/// count of outstanding acquires, the running flag of the launched
/// execution, and the wrapped context itself.
pub struct ActorUnit<A1: Actor> {
    /// True from the launch until the context confirms termination.
    running: bool,
    /// Outstanding acquire calls not yet matched by a release.
    count: usize,
    /// The tag under which this unit's events appear in the log.
    id: u64,
    /// The wrapped context.
    actor: A1,
}

impl<A1: Actor> ActorUnit<A1> {
    /// The running flag: true exactly while the launched execution is
    /// up.
    pub closed spec fn spec_running(&self) -> bool {
        self.running
    }

    /// A fresh, inactive unit around `inner`, whose events will carry
    /// the tag `id`.
    pub fn new(inner: A1, id: u64) -> (u: ActorUnit<A1>)
        ensures
            u.wf(),
            u.model() == seq![UnitModel { id: id, count: 0 }],
            !u.spec_running(),
    {
        let u = ActorUnit { running: false, count: 0, id: id, actor: inner };
        proof {
            assert(u.model() =~= seq![UnitModel { id: id, count: 0 }]);
        }
        u
    }

    /// Whether the launched execution is currently up.
    pub fn is_running(&self) -> (b: bool)
        ensures
            b == self.spec_running(),
    {
        self.running
    }

    /// How many acquire calls are outstanding.
    pub fn current_count(&self) -> (n: usize)
        ensures
            n as int == self.model()[0].count,
    {
        self.count
    }

    /// `n` acquire calls in a row: the count rises by `n`, and the log
    /// grows by exactly the trace `acquire_run` that the counting laws
    /// in `crate::laws` quantify over — so those laws speak about this
    /// implementation, not only about the trace functions.
    pub fn acquire_many(&mut self, n: usize, log: &mut Vec<Event>)
        requires
            old(self).wf(),
            old(self).model()[0].count + n <= usize::MAX,
        ensures
            final(self).wf(),
            final(self).model() == seq![
                UnitModel {
                    id: old(self).model()[0].id,
                    count: old(self).model()[0].count + n,
                },
            ],
            final(log)@ == old(log)@ + acquire_run(old(self).model()[0], n as nat),
    {
        let ghost m0 = self.model()[0];
        let ghost base = log@;
        proof {
            assert(self.model() =~= seq![UnitModel { id: m0.id, count: m0.count + 0 }]);
            assert(log@ =~= base + acquire_run(m0, 0));
        }
        let mut i: usize = 0;
        while i < n
            invariant
                self.wf(),
                self.model() == seq![UnitModel { id: m0.id, count: m0.count + i }],
                m0.count >= 0,
                m0.count + n <= usize::MAX,
                i <= n,
                log@ == base + acquire_run(m0, i as nat),
            decreases n - i,
        {
            let ghost mi = self.model()[0];
            proof {
                assert(self.model() =~= seq![mi]);
            }
            self.acquire(log);
            proof {
                lemma_single_member_chain(mi);
                lemma_acquire_run_snoc(m0, i as nat);
                assert(log@ =~= base + acquire_run(m0, (i + 1) as nat));
                assert(self.model() =~= seq![UnitModel { id: m0.id, count: m0.count + (i + 1) }]);
            }
            i = i + 1;
        }
    }

    /// `n` release calls in a row, with no more releases than acquires
    /// are outstanding: the count falls by `n`, and the log grows by
    /// exactly the trace `release_run` of the counting laws.
    pub fn release_many(&mut self, n: usize, log: &mut Vec<Event>)
        requires
            old(self).wf(),
            n <= old(self).model()[0].count,
        ensures
            final(self).wf(),
            final(self).model() == seq![
                UnitModel {
                    id: old(self).model()[0].id,
                    count: old(self).model()[0].count - n,
                },
            ],
            final(log)@ == old(log)@ + release_run(old(self).model()[0], n as nat),
    {
        let ghost m0 = self.model()[0];
        let ghost base = log@;
        proof {
            assert(self.model() =~= seq![UnitModel { id: m0.id, count: m0.count - 0 }]);
            assert(log@ =~= base + release_run(m0, 0));
        }
        let mut i: usize = 0;
        while i < n
            invariant
                self.wf(),
                self.model() == seq![UnitModel { id: m0.id, count: m0.count - i }],
                n <= m0.count,
                i <= n,
                log@ == base + release_run(m0, i as nat),
            decreases n - i,
        {
            let ghost mi = self.model()[0];
            proof {
                assert(self.model() =~= seq![mi]);
            }
            self.release(log);
            proof {
                lemma_single_member_chain(mi);
                lemma_release_run_snoc(m0, i as nat);
                assert(log@ =~= base + release_run(m0, (i + 1) as nat));
                assert(self.model() =~= seq![UnitModel { id: m0.id, count: m0.count - (i + 1) }]);
            }
            i = i + 1;
        }
    }
}

impl<A1: Actor> Unit for ActorUnit<A1> {
    closed spec fn model(&self) -> Seq<UnitModel> {
        seq![UnitModel { id: self.id, count: self.count as int }]
    }

    /// The launched execution runs exactly while acquires are
    /// outstanding.
    closed spec fn wf(&self) -> bool {
        self.running == (self.count > 0)
    }

    fn acquire(&mut self, log: &mut Vec<Event>) {
        let ghost m = self.model()[0];
        proof {
            assert(old(self).model()[0].count < usize::MAX);
        }
        self.count = self.count + 1;
        log.push(Event::Acquired(self.id));
        if self.count == 1 {
            // 0→1: run the one-time setup to completion on this caller,
            // then launch the independent execution and wait until it
            // reports in as running.
            self.actor.setup();
            log.push(Event::Prepared(self.id));
            log.push(Event::Launched(self.id));
            self.running = true;
        }
        proof {
            assert(self.model() =~= shifted(old(self).model(), 1));
            assert(old(self).model().drop_first().len() == 0);
            assert(acquire_deltas(old(self).model().drop_first()) =~= Seq::<Event>::empty());
            assert(acquire_deltas(old(self).model()) =~= acquire_delta(m));
            assert(log@ =~= old(log)@ + acquire_deltas(old(self).model()));
        }
    }

    fn release(&mut self, log: &mut Vec<Event>) {
        let ghost m = self.model()[0];
        proof {
            assert(old(self).model()[0].count > 0);
        }
        self.count = self.count - 1;
        log.push(Event::Released(self.id));
        if self.count == 0 {
            // 1→0: signal the running context to stop, then wait for
            // its confirmation before returning.
            self.actor.abort();
            log.push(Event::StopRequested(self.id));
            self.running = false;
            log.push(Event::Stopped(self.id));
        }
        proof {
            assert(self.model() =~= shifted(old(self).model(), -1));
            assert(old(self).model().drop_first().len() == 0);
            assert(release_deltas(old(self).model().drop_first()) =~= Seq::<Event>::empty());
            assert(release_deltas(old(self).model()) =~= release_delta(m));
            assert(log@ =~= old(log)@ + release_deltas(old(self).model()));
        }
    }
}

/// A well-formed unit whose count has returned to zero is not running:
/// after the last release of any matched acquire/release sequence the
/// launched execution is down again.
pub proof fn lemma_idle_unit_not_running<A1: Actor>(u: &ActorUnit<A1>)
    requires
        u.wf(),
        u.model()[0].count == 0,
    ensures
        !u.spec_running(),
{
}

/// Two units acquired and released as one: acquire calls the first
/// member's acquire and then the second's, and release follows the same
/// fixed order (it is not reversed). No atomicity is provided across
/// the pair: if the first member's call unwinds, the second is never
/// reached.
impl<U1: Unit, U2: Unit> Unit for (U1, U2) {
    open spec fn model(&self) -> Seq<UnitModel> {
        self.0.model() + self.1.model()
    }

    open spec fn wf(&self) -> bool {
        self.0.wf() && self.1.wf()
    }

    fn acquire(&mut self, log: &mut Vec<Event>) {
        proof {
            assert forall|i: int| 0 <= i < self.0.model().len() implies
                #[trigger] self.0.model()[i].count < usize::MAX by {
                assert(self.model()[i] == self.0.model()[i]);
            }
            assert forall|i: int| 0 <= i < self.1.model().len() implies
                #[trigger] self.1.model()[i].count < usize::MAX by {
                assert(self.model()[self.0.model().len() + i] == self.1.model()[i]);
            }
        }
        self.0.acquire(log);
        self.1.acquire(log);
        proof {
            lemma_shifted_concat(old(self).0.model(), old(self).1.model(), 1);
            lemma_acquire_deltas_concat(old(self).0.model(), old(self).1.model());
            assert(log@ =~= old(log)@ + acquire_deltas(old(self).model()));
        }
    }

    fn release(&mut self, log: &mut Vec<Event>) {
        proof {
            assert forall|i: int| 0 <= i < self.0.model().len() implies
                #[trigger] self.0.model()[i].count > 0 by {
                assert(self.model()[i] == self.0.model()[i]);
            }
            assert forall|i: int| 0 <= i < self.1.model().len() implies
                #[trigger] self.1.model()[i].count > 0 by {
                assert(self.model()[self.0.model().len() + i] == self.1.model()[i]);
            }
        }
        self.0.release(log);
        self.1.release(log);
        proof {
            lemma_shifted_concat(old(self).0.model(), old(self).1.model(), -1);
            lemma_release_deltas_concat(old(self).0.model(), old(self).1.model());
            assert(log@ =~= old(log)@ + release_deltas(old(self).model()));
        }
    }
}

} // verus!
