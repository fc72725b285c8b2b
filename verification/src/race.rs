//! The setup/stop race the coordinator's setup hook exists to remove,
//! as a small-step interleaving model.
//!
//! The exclusivity lock serializes acquire and release calls against
//! each other, but not against the launched context's own execution. A
//! context that performs its one-time setup inside its run body
//! therefore races against a stop request: setup code that installs the
//! shared "ready" state unconditionally can overwrite a stop that was
//! already requested, and the run loop then finds the stop signal under
//! freshly installed state — it cannot stop cleanly. Setup placed in
//! the dedicated hook runs to completion on the acquiring caller before
//! the launch, and the matching release can only follow the acquire, so
//! the overwrite can never happen.
//!
//! The model interleaves the caller's two transitions (the 0→1 acquire
//! and the 1→0 release) with the context's own steps (its folded-in
//! setup, and one poll of its loop). `lemma_no_race_with_setup` proves
//! the lost-stop flag unreachable for every interleaving when setup is
//! in the hook; `lemma_race_without_setup` exhibits an interleaving
//! that sets it when setup is folded into the run body.

use vstd::prelude::*;

verus! {

/// Where the context implementor placed the one-time setup work.
#[derive(Clone, Copy, Debug, PartialEq, Eq, Structural)]
pub enum SetupPlacement {
    /// In the dedicated setup hook: run to completion on the acquiring
    /// caller, before the launch.
    InPrepare,
    /// Folded into the head of the context's own run body: run inside
    /// the launched execution, concurrently with a possible release.
    InRun,
}

/// One interleaved execution of a caller acquiring then releasing a
/// unit while the launched context does its own work.
#[derive(Clone, Copy, Debug, PartialEq, Eq, Structural)]
pub struct RaceState {
    /// The acquire's 0→1 transition has happened: the launch was issued.
    pub launched: bool,
    /// The one-time setup has run (wherever it was placed).
    pub setup_done: bool,
    /// The shared "ready" state that setup installs and a stop clears.
    pub shared_ready: bool,
    /// The release asked the context to stop.
    pub stop_requested: bool,
    /// The context found the stop signal only after setup had
    /// overwritten the cleared state: it could not stop cleanly.
    pub cannot_stop: bool,
    /// The context's run body returned.
    pub exited: bool,
}

/// The interleaved steps: two from the callers, two from the context.
#[derive(Clone, Copy, Debug, PartialEq, Eq, Structural)]
pub enum RaceStep {
    /// The acquiring caller's 0→1 transition: run the setup hook if the
    /// setup is placed there, then issue the launch.
    Acquire,
    /// The releasing caller's 1→0 transition: clear the shared state
    /// and raise the stop signal. Only possible after the acquire,
    /// because release calls must pair with acquire calls.
    Release,
    /// The launched context runs its folded-in setup, if the setup is
    /// placed in the run body: it installs the shared state
    /// unconditionally.
    ContextSetup,
    /// The launched context polls its loop once: it exits cleanly when
    /// the shared state is gone, and flags a lost stop when it finds
    /// the stop signal under installed state.
    ContextPoll,
}

/// Before the acquire: nothing launched, nothing installed, no signal.
pub open spec fn race_init() -> RaceState {
    RaceState {
        launched: false,
        setup_done: false,
        shared_ready: false,
        stop_requested: false,
        cannot_stop: false,
        exited: false,
    }
}

/// One step of the interleaving. A step whose enabling condition does
/// not hold leaves the state unchanged.
pub open spec fn race_step(p: SetupPlacement, s: RaceState, step: RaceStep) -> RaceState {
    match step {
        RaceStep::Acquire => {
            if !s.launched {
                if p == SetupPlacement::InPrepare {
                    RaceState { launched: true, setup_done: true, shared_ready: true, ..s }
                } else {
                    RaceState { launched: true, ..s }
                }
            } else {
                s
            }
        },
        RaceStep::Release => {
            if s.launched && !s.stop_requested {
                RaceState { shared_ready: false, stop_requested: true, ..s }
            } else {
                s
            }
        },
        RaceStep::ContextSetup => {
            if p == SetupPlacement::InRun && s.launched && !s.setup_done && !s.exited {
                RaceState { setup_done: true, shared_ready: true, ..s }
            } else {
                s
            }
        },
        RaceStep::ContextPoll => {
            if s.launched && s.setup_done && !s.exited {
                if !s.shared_ready {
                    RaceState { exited: true, ..s }
                } else if s.stop_requested {
                    RaceState { cannot_stop: true, exited: true, ..s }
                } else {
                    s
                }
            } else {
                s
            }
        },
    }
}

/// The state after an interleaving, applied left to right from the
/// initial state.
pub open spec fn race_run(p: SetupPlacement, steps: Seq<RaceStep>) -> RaceState
    decreases steps.len(),
{
    if steps.len() == 0 {
        race_init()
    } else {
        race_step(p, race_run(p, steps.drop_last()), steps.last())
    }
}

/// The inductive invariant of the setup-in-hook discipline: the stop
/// signal is only ever raised after the launch, and never under
/// installed shared state — so a poll never finds both.
pub open spec fn prepare_inv(s: RaceState) -> bool {
    &&& !s.cannot_stop
    &&& (s.stop_requested ==> s.launched)
    &&& (s.stop_requested ==> !s.shared_ready)
}

proof fn lemma_prepare_inv_init()
    ensures
        prepare_inv(race_init()),
{
}

proof fn lemma_prepare_inv_step(s: RaceState, step: RaceStep)
    requires
        prepare_inv(s),
    ensures
        prepare_inv(race_step(SetupPlacement::InPrepare, s, step)),
{
}

proof fn lemma_prepare_inv_run(steps: Seq<RaceStep>)
    ensures
        prepare_inv(race_run(SetupPlacement::InPrepare, steps)),
    decreases steps.len(),
{
    if steps.len() == 0 {
        lemma_prepare_inv_init();
    } else {
        lemma_prepare_inv_run(steps.drop_last());
        lemma_prepare_inv_step(race_run(SetupPlacement::InPrepare, steps.drop_last()), steps.last());
    }
}

/// Setup/stop non-race when the setup hook is used: with the one-time
/// setup in the dedicated hook, no interleaving of the caller's acquire
/// and release with the context's own steps ever loses a stop — the
/// cannot-stop flag is false in every reachable state, however soon the
/// release follows the acquire.
pub proof fn lemma_no_race_with_setup(steps: Seq<RaceStep>)
    ensures
        !race_run(SetupPlacement::InPrepare, steps).cannot_stop,
{
    lemma_prepare_inv_run(steps);
}

/// The interleaving that loses the stop when setup is folded into the
/// run body: launch, immediate release, then the context's setup
/// overwrites the cleared state, and its first poll finds the stop
/// signal under installed state.
pub open spec fn losing_interleaving() -> Seq<RaceStep> {
    seq![RaceStep::Acquire, RaceStep::Release, RaceStep::ContextSetup, RaceStep::ContextPoll]
}

/// Race when setup is folded into the run body: there is an
/// interleaving — acquire, immediate release, then the context's own
/// setup and first poll — after which the context reports that it
/// could not stop cleanly. The coordinator cannot prevent this; it can
/// only make the dedicated hook available.
pub proof fn lemma_race_without_setup()
    ensures
        race_run(SetupPlacement::InRun, losing_interleaving()).cannot_stop,
{
    let p = SetupPlacement::InRun;
    let steps = losing_interleaving();
    let s1 = seq![RaceStep::Acquire];
    let s2 = seq![RaceStep::Acquire, RaceStep::Release];
    let s3 = seq![RaceStep::Acquire, RaceStep::Release, RaceStep::ContextSetup];
    assert(s1.drop_last() =~= Seq::<RaceStep>::empty());
    assert(s2.drop_last() =~= s1);
    assert(s3.drop_last() =~= s2);
    assert(steps.drop_last() =~= s3);
    assert(race_run(p, Seq::<RaceStep>::empty()) == race_init());
    assert(race_run(p, s1) == race_step(p, race_init(), RaceStep::Acquire));
    assert(race_run(p, s2) == race_step(p, race_run(p, s1), RaceStep::Release));
    assert(race_run(p, s3) == race_step(p, race_run(p, s2), RaceStep::ContextSetup));
    assert(race_run(p, steps) == race_step(p, race_run(p, s3), RaceStep::ContextPoll));
}

/// One step of the interleaving, executably: what the model's
/// `race_step` says, value for value.
pub fn apply_race_step(p: SetupPlacement, s: RaceState, step: RaceStep) -> (t: RaceState)
    ensures
        t == race_step(p, s, step),
{
    match step {
        RaceStep::Acquire => {
            if !s.launched {
                if p == SetupPlacement::InPrepare {
                    RaceState { launched: true, setup_done: true, shared_ready: true, ..s }
                } else {
                    RaceState { launched: true, ..s }
                }
            } else {
                s
            }
        },
        RaceStep::Release => {
            if s.launched && !s.stop_requested {
                RaceState { shared_ready: false, stop_requested: true, ..s }
            } else {
                s
            }
        },
        RaceStep::ContextSetup => {
            if p == SetupPlacement::InRun && s.launched && !s.setup_done && !s.exited {
                RaceState { setup_done: true, shared_ready: true, ..s }
            } else {
                s
            }
        },
        RaceStep::ContextPoll => {
            if s.launched && s.setup_done && !s.exited {
                if !s.shared_ready {
                    RaceState { exited: true, ..s }
                } else if s.stop_requested {
                    RaceState { cannot_stop: true, exited: true, ..s }
                } else {
                    s
                }
            } else {
                s
            }
        },
    }
}

/// The initial state of the model, executably.
pub fn initial_race_state() -> (s: RaceState)
    ensures
        s == race_init(),
{
    RaceState {
        launched: false,
        setup_done: false,
        shared_ready: false,
        stop_requested: false,
        cannot_stop: false,
        exited: false,
    }
}

} // verus!
