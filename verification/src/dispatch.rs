//! Admission of requests under a bound on the number of transfers that run at once.
//!
//! The dispatcher keeps no request and runs no transfer. It counts the workers that
//! are active and tells its caller what to do next: take the next request from the
//! input and start a worker on it, wait for a worker to end, or finish.

use vstd::prelude::*;

verus! {

/// What the caller of a dispatcher does next.
#[derive(Debug, Clone, Copy, PartialEq, Eq, Structural)]
pub enum Admission {
    /// A slot is free and the input may hold more: take the next request.
    Admit,
    /// Nothing can be admitted now: wait for a worker to reach its end.
    Wait,
    /// The input is exhausted and every worker has ended.
    Finish,
}

/// What a dispatcher is told.
#[derive(Debug, Clone, Copy, PartialEq, Eq, Structural)]
pub enum Notice {
    /// The input gave a request, and a worker was started on it.
    Started,
    /// The input has no more requests.
    Exhausted,
    /// A worker reached its terminal event.
    Ended,
}

/// The dispatcher's state.
pub struct Dispatcher {
    /// The most transfers that may run at once.
    pub limit: usize,
    /// The number of workers that have started and not ended.
    pub active: usize,
    /// Whether the input has run out.
    pub exhausted: bool,
}

impl Dispatcher {
    /// No more workers are active than the limit allows.
    pub open spec fn wf(self) -> bool {
        self.active <= self.limit
    }

    /// A dispatcher with nothing admitted yet.
    pub open spec fn initial(limit: usize) -> Dispatcher {
        Dispatcher { limit, active: 0, exhausted: false }
    }

    /// What to do in this state. A request is admitted whenever a slot is free and
    /// the input has not run out, so none waits while it could run.
    pub open spec fn decision(self) -> Admission {
        if !self.exhausted && self.active < self.limit {
            Admission::Admit
        } else if self.exhausted && self.active == 0 {
            Admission::Finish
        } else {
            Admission::Wait
        }
    }

    /// The state after `notice`. A start that the state does not allow, and an end
    /// with no worker active, change nothing.
    pub open spec fn after(self, notice: Notice) -> Dispatcher {
        match notice {
            Notice::Started => if self.decision() == Admission::Admit {
                Dispatcher { active: (self.active + 1) as usize, ..self }
            } else {
                self
            },
            Notice::Exhausted => Dispatcher { exhausted: true, ..self },
            Notice::Ended => if self.active > 0 {
                Dispatcher { active: (self.active - 1) as usize, ..self }
            } else {
                self
            },
        }
    }

    /// The state after the notices of `history`, in order.
    pub open spec fn after_all(self, history: Seq<Notice>) -> Dispatcher
        decreases history.len(),
    {
        if history.len() == 0 {
            self
        } else {
            self.after_all(history.drop_last()).after(history.last())
        }
    }

    pub fn new(limit: usize) -> (dispatcher: Dispatcher)
        ensures
            dispatcher == Dispatcher::initial(limit),
            dispatcher.wf(),
    {
        Dispatcher { limit, active: 0, exhausted: false }
    }

    /// What the caller does next.
    pub fn next(&self) -> (admission: Admission)
        ensures
            admission == self.decision(),
    {
        if !self.exhausted && self.active < self.limit {
            Admission::Admit
        } else if self.exhausted && self.active == 0 {
            Admission::Finish
        } else {
            Admission::Wait
        }
    }

    /// Records `notice`.
    pub fn record(&mut self, notice: Notice)
        requires
            old(self).wf(),
        ensures
            final(self).wf(),
            *final(self) == old(self).after(notice),
    {
        match notice {
            Notice::Started => {
                if !self.exhausted && self.active < self.limit {
                    self.active = self.active + 1;
                }
            },
            Notice::Exhausted => {
                self.exhausted = true;
            },
            Notice::Ended => {
                if self.active > 0 {
                    self.active = self.active - 1;
                }
            },
        }
    }

    /// The number of workers that are active.
    pub fn active(&self) -> (active: usize)
        ensures
            active == self.active,
    {
        self.active
    }
}

/// Whatever the dispatcher is told, in whatever order, it never counts more active
/// workers than its limit, and the limit never changes.
pub proof fn lemma_never_over_limit(dispatcher: Dispatcher, history: Seq<Notice>)
    requires
        dispatcher.wf(),
    ensures
        dispatcher.after_all(history).wf(),
        dispatcher.after_all(history).active <= dispatcher.limit,
        dispatcher.after_all(history).limit == dispatcher.limit,
    decreases history.len(),
{
    if history.len() > 0 {
        lemma_never_over_limit(dispatcher, history.drop_last());
    }
}

/// A worker is started only in a state that admits one: a start raises the count
/// of active workers exactly when a slot is free and the input has not run out.
pub proof fn lemma_start_needs_a_slot(dispatcher: Dispatcher)
    requires
        dispatcher.wf(),
    ensures
        dispatcher.after(Notice::Started).active == dispatcher.active + 1 <==> (
        !dispatcher.exhausted && dispatcher.active < dispatcher.limit),
        dispatcher.after(Notice::Started).active != dispatcher.active + 1 ==> dispatcher.after(
            Notice::Started,
        ) == dispatcher,
{
}

/// Once the input has run out it stays so, and the dispatcher finishes exactly when
/// the last active worker has ended.
pub proof fn lemma_finishes_when_drained(dispatcher: Dispatcher, history: Seq<Notice>)
    requires
        dispatcher.wf(),
        dispatcher.exhausted,
    ensures
        dispatcher.after_all(history).exhausted,
        dispatcher.after_all(history).decision() != Admission::Admit,
        dispatcher.after_all(history).decision() == Admission::Finish <==> dispatcher.after_all(
            history,
        ).active == 0,
    decreases history.len(),
{
    if history.len() > 0 {
        lemma_finishes_when_drained(dispatcher, history.drop_last());
    }
}

} // verus!
