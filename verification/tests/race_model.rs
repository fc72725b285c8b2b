use okkoi::race::RaceState;
use okkoi::race::RaceStep;
use okkoi::race::SetupPlacement;
use okkoi::race::apply_race_step;
use okkoi::race::initial_race_state;

fn run(p: SetupPlacement, steps: &[RaceStep]) -> RaceState {
    let mut s = initial_race_state();
    for step in steps {
        s = apply_race_step(p, s, *step);
    }
    s
}

#[test]
fn check_race_without_setup() {
    // Setup folded into the run body: an immediate release after the
    // acquire lets the context's setup overwrite the cleared state, and
    // its next poll finds the stop signal it can no longer honour.
    let s = run(
        SetupPlacement::InRun,
        &[RaceStep::Acquire, RaceStep::Release, RaceStep::ContextSetup, RaceStep::ContextPoll],
    );
    assert!(s.cannot_stop);
}

#[test]
fn check_no_race_with_setup() {
    // Setup in the dedicated hook: it completes inside the acquire,
    // before the launch, so the same immediate release is seen by the
    // context's first poll as a clean shutdown.
    let s = run(
        SetupPlacement::InPrepare,
        &[RaceStep::Acquire, RaceStep::Release, RaceStep::ContextSetup, RaceStep::ContextPoll],
    );
    assert!(!s.cannot_stop);
    assert!(s.exited);
}

#[test]
fn folded_setup_is_clean_when_release_comes_late() {
    // Even with setup folded into the run body, a release that arrives
    // after the setup has finished shuts the context down cleanly.
    let s = run(
        SetupPlacement::InRun,
        &[RaceStep::Acquire, RaceStep::ContextSetup, RaceStep::Release, RaceStep::ContextPoll],
    );
    assert!(!s.cannot_stop);
    assert!(s.exited);
}

#[test]
fn prepare_placement_survives_many_interleavings() {
    // Every interleaving of the four steps, taken twice over: with the
    // setup in the hook the lost-stop flag never appears.
    let steps = [RaceStep::Acquire, RaceStep::Release, RaceStep::ContextSetup, RaceStep::ContextPoll];
    for a in 0..4 {
        for b in 0..4 {
            for c in 0..4 {
                for d in 0..4 {
                    let order = [
                        steps[a], steps[b], steps[c], steps[d],
                        steps[d], steps[c], steps[b], steps[a],
                    ];
                    let s = run(SetupPlacement::InPrepare, &order);
                    assert!(!s.cannot_stop);
                }
            }
        }
    }
}

#[test]
fn steps_out_of_turn_do_nothing() {
    // A release before the acquire, or a poll before the launch, is not
    // enabled and leaves the state unchanged.
    let s = run(SetupPlacement::InRun, &[RaceStep::Release, RaceStep::ContextPoll]);
    assert_eq!(s, initial_race_state());
}
