//! The chain builder: an accumulator that wraps any number of units
//! into one handle whose acquire and release cascade through all of
//! them.
//!
//! `register` places the newly registered unit *first*, in front of the
//! whole previous chain. Acquire therefore visits the most recently
//! registered unit first, and release visits the members in that same
//! order — release is not a mirror image of acquire. Callers whose
//! members depend on one another must take this into account; the order
//! is a documented, load-bearing part of the contract (see
//! `crate::laws::lemma_chain_acquire_order`).

use vstd::prelude::*;

use crate::events::Event;
use crate::events::UnitModel;
use crate::unit::Unit;

verus! {

/// A chain of units behind a single acquire/release handle. Purely a
/// delegation node: it holds no state of its own beyond its members.
pub struct Blueprint<U1: Unit>(U1);

impl<U1: Unit> Blueprint<U1> {
    /// A chain containing exactly `unit`. The chain has the model of
    /// the bare unit, so it behaves identically to it under every
    /// acquire/release sequence.
    pub fn new(unit: U1) -> (b: Blueprint<U1>)
        ensures
            b.wf() <==> unit.wf(),
            b.model() == unit.model(),
    {
        Blueprint(unit)
    }

    /// A new chain that is the pair of the newly registered unit and
    /// the entire previous chain, the new unit first: acquire and
    /// release both visit `unit` before every member of `self`.
    pub fn register<U2: Unit>(self, unit: U2) -> (b: Blueprint<(U2, Blueprint<U1>)>)
        ensures
            b.wf() <==> (unit.wf() && self.wf()),
            b.model() == unit.model() + self.model(),
    {
        Blueprint((unit, self))
    }
}

impl<U1: Unit> Unit for Blueprint<U1> {
    closed spec fn model(&self) -> Seq<UnitModel> {
        self.0.model()
    }

    closed spec fn wf(&self) -> bool {
        self.0.wf()
    }

    fn acquire(&mut self, log: &mut Vec<Event>) {
        self.0.acquire(log);
    }

    fn release(&mut self, log: &mut Vec<Event>) {
        self.0.release(log);
    }
}

} // verus!
