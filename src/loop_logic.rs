use vstd::prelude::*;

use crate::idle::IdleQueue;
use crate::list::SourceList;
use crate::sys::{Readiness, Token};

verus! {

/// What the embedding code does next in a dispatch cycle.
pub enum Step<C> {
    /// Invoke the dispatcher of the token with this readiness.
    Dispatch(Token, Readiness),
    /// Run this idle callback.
    Idle(C),
    /// The cycle is over.
    Done,
}

/// One dispatch cycle: the batch of readiness that one wait returned,
/// followed by one drain of the idle queue.
///
/// The batch is fixed when the cycle begins. Each entry is looked up in the
/// registry as it is reached, so a source removed by an earlier callback of
/// the same cycle is skipped, and a source inserted during the cycle is not
/// dispatched before the next one.
pub struct Cycle {
    events: Vec<(Token, Readiness)>,
    pos: usize,
    bound: u64,
    drain_started: bool,
}

impl Cycle {
    /// The batch, in the order the backend reported it.
    pub closed spec fn events(&self) -> Seq<(Token, Readiness)> {
        self.events@
    }

    /// How many entries of the batch have been reached.
    pub closed spec fn pos(&self) -> nat {
        self.pos as nat
    }

    /// Tokens issued before the cycle began lie below this value.
    pub closed spec fn bound(&self) -> nat {
        self.bound as nat
    }

    /// Whether the idle drain of this cycle has begun.
    pub closed spec fn drain_started(&self) -> bool {
        self.drain_started
    }

    pub open spec fn wf(&self) -> bool {
        &&& self.pos() <= self.events().len()
        &&& self.drain_started() ==> self.pos() == self.events().len()
    }

    /// Whether an entry for `t` is dispatched when reached: the token was
    /// issued before the cycle began and is still live.
    pub open spec fn dispatchable<D>(&self, list: &SourceList<D>, t: Token) -> bool {
        t.0 < self.bound() && list@.contains_key(t.0)
    }

    /// Begins a cycle on the batch that a wait returned.
    pub fn new<D>(events: Vec<(Token, Readiness)>, list: &SourceList<D>) -> (r: Cycle)
        ensures
            r.wf(),
            r.events() == events@,
            r.pos() == 0,
            r.bound() == list.next_token(),
            !r.drain_started(),
    {
        Cycle { events, pos: 0, bound: list.token_bound(), drain_started: false }
    }

    /// Advances the cycle against the registry as it now stands.
    ///
    /// Entries of the batch come first, in order, skipping those whose token
    /// is not dispatchable; once the batch is through, the idle queue's
    /// drain begins (once per cycle) and its callbacks come one by one.
    pub fn next_step<D, C>(&mut self, list: &SourceList<D>, idle: &mut IdleQueue<C>) -> (r: Step<C>)
        requires
            old(self).wf(),
            old(idle).wf(),
        ensures
            final(self).wf(),
            final(idle).wf(),
            final(self).events() == old(self).events(),
            final(self).bound() == old(self).bound(),
            old(self).pos() <= final(self).pos(),
            match r {
                Step::Dispatch(t, readiness) => {
                    &&& !old(self).drain_started() && !final(self).drain_started()
                    &&& old(self).pos() < final(self).pos()
                    &&& final(self).events()[final(self).pos() - 1] == (t, readiness)
                    &&& final(self).dispatchable(list, t)
                    &&& forall|j: int| old(self).pos() <= j < final(self).pos() - 1
                        ==> !final(self).dispatchable(list, (#[trigger] final(self).events()[j]).0)
                    &&& *final(idle) == *old(idle)
                },
                _ => {
                    let batch = if old(self).drain_started() {
                        old(idle).draining()
                    } else {
                        old(idle).draining() + old(idle).pending()
                    };
                    &&& final(self).drain_started()
                    &&& final(self).pos() == final(self).events().len()
                    &&& forall|j: int| old(self).pos() <= j < final(self).pos()
                        ==> !final(self).dispatchable(list, (#[trigger] final(self).events()[j]).0)
                    &&& old(self).drain_started() ==> final(idle).pending() == old(idle).pending()
                    &&& !old(self).drain_started() ==> final(idle).pending() == Seq::<(u64, C)>::empty()
                    &&& final(idle).next_id() == old(idle).next_id()
                    &&& match r {
                        Step::Idle(callback) => batch.len() > 0 && callback == batch[0].1
                            && final(idle).draining() == batch.drop_first(),
                        _ => batch.len() == 0 && final(idle).draining() == batch,
                    }
                },
            },
    {
        while self.pos < self.events.len()
            invariant
                old(self).wf(),
                old(idle).wf(),
                self.events@ == old(self).events@,
                self.bound == old(self).bound,
                self.drain_started == old(self).drain_started,
                old(self).pos <= self.pos <= self.events@.len(),
                forall|j: int| old(self).pos() <= j < self.pos ==> !self.dispatchable(list, (#[trigger] self.events@[j]).0),
                *idle == *old(idle),
            decreases self.events@.len() - self.pos,
        {
            let (t, readiness) = self.events[self.pos];
            self.pos = self.pos + 1;
            if t.0 < self.bound && list.contains(t) {
                return Step::Dispatch(t, readiness);
            }
        }
        if !self.drain_started {
            idle.start_drain();
            self.drain_started = true;
        }
        match idle.next_idle() {
            Some(callback) => Step::Idle(callback),
            None => Step::Done,
        }
    }
}

/// A token that was removed is never dispatched again, in the cycle that
/// removed it or in any later one.
pub proof fn lemma_retired_never_dispatched<D>(cycle: Cycle, list: SourceList<D>, t: Token)
    requires
        list.retired(t),
    ensures
        !cycle.dispatchable(&list, t),
{
}

/// A token issued during a cycle is not dispatched before the next cycle.
pub proof fn lemma_inserted_waits_next_cycle<D>(cycle: Cycle, before: SourceList<D>, t: Token)
    requires
        cycle.bound() == before.next_token(),
        t.0 >= before.next_token(),
    ensures
        forall|list: SourceList<D>| !#[trigger] cycle.dispatchable(&list, t),
{
}

} // verus!
