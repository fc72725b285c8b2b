use std::cell::Cell;
use std::rc::Rc;

use okkoi::chain::Blueprint;
use okkoi::events::Event;
use okkoi::unit::Actor;
use okkoi::unit::ActorUnit;
use okkoi::unit::Unit;

struct NopActor;

/// A context whose one-time setup and stop-request hooks report, through
/// shared cells, how often the coordinator invoked them.
struct SharingActor {
    setups: Rc<Cell<u32>>,
    aborts: Rc<Cell<u32>>,
}

impl Actor for SharingActor {
    fn setup(&mut self) {
        self.setups.set(self.setups.get() + 1);
    }
    fn start(&mut self) {}
    fn abort(&mut self) {
        self.aborts.set(self.aborts.get() + 1);
    }
}

impl Actor for NopActor {
    fn setup(&mut self) {}
    fn start(&mut self) {}
    fn abort(&mut self) {}
}

fn occurrences(log: &[Event], e: Event) -> usize {
    log.iter().filter(|x| **x == e).count()
}

#[test]
fn matched_pairs_launch_and_stop_once() {
    let mut log: Vec<Event> = Vec::new();
    let mut u = ActorUnit::new(NopActor, 7);
    assert!(!u.is_running());
    for _ in 0..3 {
        u.acquire(&mut log);
        assert!(u.is_running());
    }
    for _ in 0..3 {
        u.release(&mut log);
    }
    assert!(!u.is_running());
    assert_eq!(u.current_count(), 0);
    assert_eq!(occurrences(&log, Event::Acquired(7)), 3);
    assert_eq!(occurrences(&log, Event::Released(7)), 3);
    assert_eq!(occurrences(&log, Event::Prepared(7)), 1);
    assert_eq!(occurrences(&log, Event::Launched(7)), 1);
    assert_eq!(occurrences(&log, Event::StopRequested(7)), 1);
    assert_eq!(occurrences(&log, Event::Stopped(7)), 1);
}

#[test]
fn first_acquire_prepares_then_launches() {
    let mut log: Vec<Event> = Vec::new();
    let mut u = ActorUnit::new(NopActor, 1);
    u.acquire(&mut log);
    assert_eq!(
        log,
        vec![Event::Acquired(1), Event::Prepared(1), Event::Launched(1)],
    );
}

#[test]
fn later_acquires_do_not_launch_again() {
    let mut log: Vec<Event> = Vec::new();
    let mut u = ActorUnit::new(NopActor, 1);
    u.acquire(&mut log);
    log.clear();
    u.acquire(&mut log);
    u.acquire(&mut log);
    assert_eq!(log, vec![Event::Acquired(1), Event::Acquired(1)]);
}

#[test]
fn early_releases_do_not_request_stop() {
    let mut log: Vec<Event> = Vec::new();
    let mut u = ActorUnit::new(NopActor, 1);
    u.acquire(&mut log);
    u.acquire(&mut log);
    u.acquire(&mut log);
    log.clear();
    u.release(&mut log);
    u.release(&mut log);
    assert_eq!(log, vec![Event::Released(1), Event::Released(1)]);
    assert!(u.is_running());
}

#[test]
fn last_release_stops() {
    let mut log: Vec<Event> = Vec::new();
    let mut u = ActorUnit::new(NopActor, 1);
    u.acquire(&mut log);
    log.clear();
    u.release(&mut log);
    assert_eq!(
        log,
        vec![Event::Released(1), Event::StopRequested(1), Event::Stopped(1)],
    );
    assert!(!u.is_running());
}

#[test]
fn chain_acquires_most_recent_registration_first() {
    let mut log: Vec<Event> = Vec::new();
    let u1 = ActorUnit::new(NopActor, 1);
    let u2 = ActorUnit::new(NopActor, 2);
    let u3 = ActorUnit::new(NopActor, 3);
    let mut c = Blueprint::new(u1).register(u2).register(u3);
    c.acquire(&mut log);
    assert_eq!(
        log,
        vec![
            Event::Acquired(3),
            Event::Prepared(3),
            Event::Launched(3),
            Event::Acquired(2),
            Event::Prepared(2),
            Event::Launched(2),
            Event::Acquired(1),
            Event::Prepared(1),
            Event::Launched(1),
        ],
    );
}

#[test]
fn chain_releases_in_the_same_order_as_acquire() {
    let mut log: Vec<Event> = Vec::new();
    let u1 = ActorUnit::new(NopActor, 1);
    let u2 = ActorUnit::new(NopActor, 2);
    let u3 = ActorUnit::new(NopActor, 3);
    let mut c = Blueprint::new(u1).register(u2).register(u3);
    c.acquire(&mut log);
    log.clear();
    c.release(&mut log);
    assert_eq!(
        log,
        vec![
            Event::Released(3),
            Event::StopRequested(3),
            Event::Stopped(3),
            Event::Released(2),
            Event::StopRequested(2),
            Event::Stopped(2),
            Event::Released(1),
            Event::StopRequested(1),
            Event::Stopped(1),
        ],
    );
}

#[test]
fn pair_visits_first_member_then_second() {
    let mut log: Vec<Event> = Vec::new();
    let a = ActorUnit::new(NopActor, 10);
    let b = ActorUnit::new(NopActor, 20);
    let mut pair = (a, b);
    pair.acquire(&mut log);
    pair.release(&mut log);
    assert_eq!(
        log,
        vec![
            Event::Acquired(10),
            Event::Prepared(10),
            Event::Launched(10),
            Event::Acquired(20),
            Event::Prepared(20),
            Event::Launched(20),
            Event::Released(10),
            Event::StopRequested(10),
            Event::Stopped(10),
            Event::Released(20),
            Event::StopRequested(20),
            Event::Stopped(20),
        ],
    );
}

#[test]
fn chain_of_one_behaves_as_bare_unit() {
    let mut bare_log: Vec<Event> = Vec::new();
    let mut bare = ActorUnit::new(NopActor, 5);
    bare.acquire(&mut bare_log);
    bare.acquire(&mut bare_log);
    bare.release(&mut bare_log);
    bare.release(&mut bare_log);

    let mut chain_log: Vec<Event> = Vec::new();
    let mut chain = Blueprint::new(ActorUnit::new(NopActor, 5));
    chain.acquire(&mut chain_log);
    chain.acquire(&mut chain_log);
    chain.release(&mut chain_log);
    chain.release(&mut chain_log);

    assert_eq!(bare_log, chain_log);
}

#[test]
fn repeated_calls_match_the_loop_forms() {
    let mut one_by_one: Vec<Event> = Vec::new();
    let mut u = ActorUnit::new(NopActor, 4);
    for _ in 0..5 {
        u.acquire(&mut one_by_one);
    }
    for _ in 0..5 {
        u.release(&mut one_by_one);
    }

    let mut looped: Vec<Event> = Vec::new();
    let mut v = ActorUnit::new(NopActor, 4);
    v.acquire_many(5, &mut looped);
    assert_eq!(v.current_count(), 5);
    v.release_many(5, &mut looped);
    assert_eq!(v.current_count(), 0);
    assert!(!v.is_running());

    assert_eq!(one_by_one, looped);
}

#[test]
fn setup_and_abort_reach_the_wrapped_context() {
    let setups = Rc::new(Cell::new(0));
    let aborts = Rc::new(Cell::new(0));
    let actor = SharingActor { setups: Rc::clone(&setups), aborts: Rc::clone(&aborts) };
    let mut log: Vec<Event> = Vec::new();
    let mut u = ActorUnit::new(actor, 9);
    u.acquire(&mut log);
    u.acquire(&mut log);
    u.release(&mut log);
    u.release(&mut log);
    assert_eq!(setups.get(), 1);
    assert_eq!(aborts.get(), 1);
}
