//! A fetch as a whole: the dispatcher together with the workers that it has admitted.
//!
//! A session keeps each running worker in a slot. A slot is taken when a request is
//! admitted and freed when its worker finishes, so the slots in use are the
//! transfers that run, and the dispatcher's count is their number.

use crate::dispatch::Admission;
use crate::dispatch::Dispatcher;
use crate::dispatch::Notice;
use crate::fetch::PackageFetcher;
use crate::request::Request;
use crate::worker::Outcome;
use crate::worker::Phase;
use crate::worker::Step;
use crate::worker::TransferWorker;
use vstd::prelude::*;

verus! {

/// Whether a worker waits on the network: for the response, or for the body.
pub open spec fn on_network(worker: TransferWorker) -> bool {
    worker.phase == Phase::Response || worker.phase == Phase::Copy
}

/// The number of slots of `slots` that hold a worker.
pub open spec fn occupied(slots: Seq<Option<TransferWorker>>) -> nat
    decreases slots.len(),
{
    if slots.len() == 0 {
        0
    } else {
        occupied(slots.drop_last()) + if slots.last() is Some {
            1nat
        } else {
            0nat
        }
    }
}

/// The number of slots of `slots` that hold a worker which waits on the network.
pub open spec fn networking(slots: Seq<Option<TransferWorker>>) -> nat
    decreases slots.len(),
{
    if slots.len() == 0 {
        0
    } else {
        networking(slots.drop_last()) + if slots.last() matches Some(worker) && on_network(worker) {
            1nat
        } else {
            0nat
        }
    }
}

/// No more workers wait on the network than there are workers.
pub proof fn lemma_networking_is_occupied(slots: Seq<Option<TransferWorker>>)
    ensures
        networking(slots) <= occupied(slots) <= slots.len(),
    decreases slots.len(),
{
    if slots.len() > 0 {
        lemma_networking_is_occupied(slots.drop_last());
    }
}

/// Where every slot holds a worker, the slots in use are all the slots.
pub proof fn lemma_occupied_when_full(slots: Seq<Option<TransferWorker>>)
    requires
        forall|i: int| 0 <= i < slots.len() ==> #[trigger] slots[i] is Some,
    ensures
        occupied(slots) == slots.len(),
    decreases slots.len(),
{
    if slots.len() > 0 {
        assert forall|i: int| 0 <= i < slots.drop_last().len() implies #[trigger] slots.drop_last()[i] is Some by {
            assert(slots.drop_last()[i] == slots[i]);
        }
        lemma_occupied_when_full(slots.drop_last());
    }
}

/// What a change of one slot does to the number of slots in use.
pub proof fn lemma_occupied_update(
    slots: Seq<Option<TransferWorker>>,
    at: int,
    slot: Option<TransferWorker>,
)
    requires
        0 <= at < slots.len(),
    ensures
        occupied(slots.update(at, slot)) + (if slots[at] is Some {
            1nat
        } else {
            0nat
        }) == occupied(slots) + (if slot is Some {
            1nat
        } else {
            0nat
        }),
    decreases slots.len(),
{
    let after = slots.update(at, slot);
    if at == slots.len() - 1 {
        assert(after.drop_last() =~= slots.drop_last());
    } else {
        lemma_occupied_update(slots.drop_last(), at, slot);
        assert(after.drop_last() =~= slots.drop_last().update(at, slot));
    }
}

/// The state of a fetch.
pub struct Session {
    pub dispatcher: Dispatcher,
    /// The number of attempts that may follow the first, for every request.
    pub retries: u16,
    /// Whether every attempt goes through the turnstile.
    pub throttled: bool,
    /// The workers that run, each in its slot.
    pub slots: Vec<Option<TransferWorker>>,
}

impl Session {
    /// Every slot in use holds a worker that was admitted and has not finished, the
    /// dispatcher counts exactly the slots in use, and there are no more slots than
    /// transfers may run at once.
    pub open spec fn wf(self) -> bool {
        &&& self.dispatcher.wf()
        &&& occupied(self.slots@) == self.dispatcher.active
        &&& self.slots@.len() <= self.dispatcher.limit
        &&& forall|i: int|
            0 <= i < self.slots@.len() ==> (#[trigger] self.slots@[i] matches Some(worker)
                ==> worker.wf() && worker.phase != Phase::Idle && !worker.finished())
    }

    /// A session that has admitted nothing.
    pub fn new(fetcher: &PackageFetcher) -> (session: Session)
        ensures
            session.wf(),
            session.dispatcher == Dispatcher::initial(fetcher.concurrent),
            session.retries == fetcher.retries,
            session.throttled == fetcher.delay_between_requests is Some,
            session.slots@.len() == 0,
    {
        Session {
            dispatcher: fetcher.dispatcher(),
            retries: fetcher.retries,
            throttled: fetcher.delay_between_requests.is_some(),
            slots: Vec::new(),
        }
    }

    /// What the caller does next: take a request from the input, wait for a worker,
    /// or finish.
    pub fn next(&self) -> (admission: Admission)
        ensures
            admission == self.dispatcher.decision(),
    {
        self.dispatcher.next()
    }

    /// Records that the input has no more requests.
    pub fn close_input(&mut self)
        requires
            old(self).wf(),
        ensures
            final(self).wf(),
            final(self).dispatcher == old(self).dispatcher.after(Notice::Exhausted),
            final(self).slots == old(self).slots,
            final(self).retries == old(self).retries,
            final(self).throttled == old(self).throttled,
    {
        self.dispatcher.record(Notice::Exhausted);
    }

    /// The index of the first free slot; the number of slots if none is free.
    fn free_slot(&self) -> (at: usize)
        ensures
            at <= self.slots@.len(),
            at < self.slots@.len() ==> self.slots@[at as int] is None,
            at == self.slots@.len() ==> occupied(self.slots@) == self.slots@.len(),
            forall|i: int| 0 <= i < at ==> #[trigger] self.slots@[i] is Some,
    {
        let n = self.slots.len();
        let mut at: usize = 0;
        while at < n
            invariant
                n == self.slots@.len(),
                at <= n,
                forall|i: int| 0 <= i < at ==> #[trigger] self.slots@[i] is Some,
            decreases n - at,
        {
            if self.slots[at].is_none() {
                return at;
            }
            at += 1;
        }
        proof {
            lemma_occupied_when_full(self.slots@);
        }
        n
    }

    /// Admits `package` if a slot is free and the input is open: starts a worker on
    /// it, and returns the worker's slot with its first step, which publishes
    /// `Fetching`. Otherwise nothing changes.
    pub fn start(&mut self, package: Request) -> (r: Option<(usize, Step)>)
        requires
            old(self).wf(),
        ensures
            final(self).wf(),
            final(self).retries == old(self).retries,
            final(self).throttled == old(self).throttled,
            final(self).dispatcher == old(self).dispatcher.after(Notice::Started),
            r is Some <==> old(self).dispatcher.decision() == Admission::Admit,
            r is None ==> final(self).slots == old(self).slots,
            r matches Some((slot, step)) ==> {
                let worker = TransferWorker::initial(package, old(self).retries, old(self).throttled);
                &&& slot < final(self).slots@.len()
                &&& slot <= old(self).slots@.len()
                &&& final(self).slots@.len() == if slot < old(self).slots@.len() {
                    old(self).slots@.len()
                } else {
                    old(self).slots@.len() + 1
                }
                &&& (slot < old(self).slots@.len() ==> old(self).slots@[slot as int] is None)
                &&& forall|i: int| 0 <= i < slot ==> #[trigger] old(self).slots@[i] is Some
                &&& final(self).slots@[slot as int] == Some(worker.after(Outcome::Admitted))
                &&& step == worker.step(Outcome::Admitted)
                &&& forall|i: int|
                    0 <= i < old(self).slots@.len() && i != slot ==> final(self).slots@[i] == old(
                        self,
                    ).slots@[i]
            },
    {
        match self.dispatcher.next() {
            Admission::Admit => {},
            _ => {
                self.dispatcher.record(Notice::Started);
                return None;
            },
        }
        let mut worker = TransferWorker::new(package, self.retries, self.throttled);
        let step = worker.advance(Outcome::Admitted);
        let at = self.free_slot();
        let ghost before = self.slots@;
        if at < self.slots.len() {
            self.slots.remove(at);
            self.slots.insert(at, Some(worker));
            proof {
                assert(self.slots@ =~= before.update(at as int, Some(worker)));
                lemma_occupied_update(before, at as int, Some(worker));
            }
        } else {
            self.slots.push(Some(worker));
            proof {
                assert(self.slots@.drop_last() =~= before);
            }
        }
        self.dispatcher.record(Notice::Started);
        Some((at, step))
    }

    /// Reports the outcome of the action that the worker in `slot` waits for, and
    /// returns the worker's answer. A worker that finishes frees its slot. Nothing
    /// changes for a slot that holds no worker.
    pub fn report(&mut self, slot: usize, outcome: Outcome) -> (r: Option<Step>)
        requires
            old(self).wf(),
        ensures
            final(self).wf(),
            final(self).retries == old(self).retries,
            final(self).throttled == old(self).throttled,
            final(self).slots@.len() == old(self).slots@.len(),
            forall|i: int|
                0 <= i < old(self).slots@.len() && i != slot ==> final(self).slots@[i] == old(
                    self,
                ).slots@[i],
            r is Some <==> slot < old(self).slots@.len() && old(self).slots@[slot as int] is Some,
            r is None ==> *final(self) == *old(self),
            r matches Some(step) ==> {
                let worker = old(self).slots@[slot as int]->0;
                &&& step == worker.step(outcome)
                &&& final(self).slots@[slot as int] == if worker.after(outcome).finished() {
                    None
                } else {
                    Some(worker.after(outcome))
                }
                &&& final(self).dispatcher == if worker.after(outcome).finished() {
                    old(self).dispatcher.after(Notice::Ended)
                } else {
                    old(self).dispatcher
                }
            },
    {
        if slot >= self.slots.len() || self.slots[slot].is_none() {
            return None;
        }
        let ghost before = self.slots@;
        let taken = self.slots.remove(slot);
        match taken {
            None => None,
            Some(worker) => {
                let mut worker = worker;
                let step = worker.advance(outcome);
                proof {
                    lemma_networking_is_occupied(before);
                    assert(before[slot as int] is Some);
                }
                if worker.is_finished() {
                    self.slots.insert(slot, None);
                    proof {
                        assert(self.slots@ =~= before.update(slot as int, None));
                        lemma_occupied_update(before, slot as int, None);
                    }
                    self.dispatcher.record(Notice::Ended);
                } else {
                    self.slots.insert(slot, Some(worker));
                    proof {
                        assert(self.slots@ =~= before.update(slot as int, Some(worker)));
                        lemma_occupied_update(before, slot as int, Some(worker));
                    }
                }
                Some(step)
            },
        }
    }

    /// The number of workers that run.
    pub fn running(&self) -> (running: usize)
        requires
            self.wf(),
        ensures
            running == occupied(self.slots@),
            running <= self.dispatcher.limit,
    {
        self.dispatcher.active()
    }
}

/// In every state of a session, no more workers wait on the network than the
/// concurrency limit allows: the workers that run are the slots in use, the
/// dispatcher counts them, and it never counts more than its limit.
pub proof fn lemma_network_is_bounded(session: Session)
    requires
        session.wf(),
    ensures
        networking(session.slots@) <= occupied(session.slots@),
        occupied(session.slots@) == session.dispatcher.active,
        session.dispatcher.active <= session.dispatcher.limit,
        networking(session.slots@) <= session.dispatcher.limit,
        session.slots@.len() <= session.dispatcher.limit,
{
    lemma_networking_is_occupied(session.slots@);
}

} // verus!
