//! The life of one request: fetch, validate, install, and try again on failure.
//!
//! A worker performs no I/O. Its caller carries out the action that the worker names
//! and reports the outcome; the worker answers with the event to publish, if any,
//! and the next action. One attempt runs through these phases:
//!
//! 1. `Fetching` is published.
//! 2. The worker goes through the turnstile, if the fetcher has one.
//! 3. The request is sent; the response must carry a success status.
//! 4. The staging file is created.
//! 5. The body is copied to the staging file; then `Fetched` is published.
//! 6. The staging file is validated.
//! 7. The staging file is moved to its destination; then `Validated` is published.
//!
//! A failure in any phase ends the attempt. While retries are left the staging file is
//! discarded and the next attempt starts at once; after the last one `Error` is
//! published. `Validated` and `Error` are terminal: nothing follows either.

use crate::fetch::EventKind;
use crate::fetch::FetchError;
use crate::fetch::FetchRequest;
use crate::hash::ChecksumError;
use crate::request::Request;
use vstd::prelude::*;

verus! {

/// Where a worker stands.
#[derive(Debug, Clone, Copy, PartialEq, Eq, Structural)]
pub enum Phase {
    /// Not admitted yet.
    Idle,
    /// Waiting at the turnstile.
    Turnstile,
    /// Waiting for the response.
    Response,
    /// Waiting for the staging file.
    Staging,
    /// Waiting for the body to be copied.
    Copy,
    /// Waiting for the validation.
    Verify,
    /// Waiting for the move to the destination.
    Install,
    /// Ended with `Validated`.
    Done,
    /// Ended with `Error`.
    Failed,
}

/// What the caller of a worker does next.
#[derive(Debug, Clone, Copy, PartialEq, Eq, Structural)]
pub enum Action {
    /// Wait for the dispatcher to admit the request.
    AwaitAdmission,
    /// Go through the turnstile.
    PassTurnstile,
    /// Send the request and wait for the response's status.
    Request,
    /// Create the staging file.
    CreateStaging,
    /// Copy the response's body to the staging file.
    CopyBody,
    /// Validate the staging file against the request's size and checksum.
    Verify,
    /// Move the staging file to the destination.
    Install,
    /// Nothing is left to do.
    Stop,
}

/// What the caller reports to a worker.
#[derive(Debug)]
pub enum Outcome {
    /// The dispatcher admitted the request.
    Admitted,
    /// The worker went through the turnstile.
    TurnstilePassed,
    /// A response arrived, with this status.
    Response(u16),
    /// No response arrived; the text describes the failure.
    RequestFailed(String),
    StagingCreated,
    StagingFailed(std::io::Error),
    BodyCopied,
    CopyFailed(std::io::Error),
    ChecksumOk,
    ChecksumFailed(ChecksumError),
    Installed,
    InstallFailed(std::io::Error),
}

/// A worker's answer to an outcome.
#[derive(Debug)]
pub struct Step {
    /// The event to publish for the request, before anything else is done.
    pub event: Option<EventKind>,
    /// Whether to remove the staging file, before the action is carried out.
    pub discard_staging: bool,
    /// What to do next.
    pub action: Action,
}

/// Whether `status` is an HTTP success status.
pub open spec fn is_success(status: u16) -> bool {
    200 <= status <= 299
}

/// The action that a worker in `phase` waits for.
pub open spec fn pending(phase: Phase) -> Action {
    match phase {
        Phase::Idle => Action::AwaitAdmission,
        Phase::Turnstile => Action::PassTurnstile,
        Phase::Response => Action::Request,
        Phase::Staging => Action::CreateStaging,
        Phase::Copy => Action::CopyBody,
        Phase::Verify => Action::Verify,
        Phase::Install => Action::Install,
        Phase::Done => Action::Stop,
        Phase::Failed => Action::Stop,
    }
}

/// The event that is published on going from phase `from` to a later phase.
pub open spec fn announced(from: Phase) -> Option<EventKind> {
    match from {
        Phase::Idle => Some(EventKind::Fetching),
        Phase::Copy => Some(EventKind::Fetched),
        Phase::Install => Some(EventKind::Validated),
        _ => None,
    }
}

/// The state of the transfer of one request.
pub struct TransferWorker {
    /// The request, and the number of attempts that have failed.
    pub request: FetchRequest,
    /// The number of attempts that may follow the first.
    pub retries: u16,
    /// Whether each attempt goes through the turnstile.
    pub throttled: bool,
    pub phase: Phase,
}

impl TransferWorker {
    /// No more attempts have failed than may be retried.
    pub open spec fn wf(self) -> bool {
        self.request.attempt <= self.retries
    }

    /// A worker that waits to be admitted.
    pub open spec fn initial(package: Request, retries: u16, throttled: bool) -> TransferWorker {
        TransferWorker {
            request: FetchRequest { package, attempt: 0 },
            retries,
            throttled,
            phase: Phase::Idle,
        }
    }

    /// The phase in which an attempt starts.
    pub open spec fn first_phase(self) -> Phase {
        if self.throttled {
            Phase::Turnstile
        } else {
            Phase::Response
        }
    }

    /// The phase that `outcome` leads to, if it reports the success of the current one.
    pub open spec fn progress(self, outcome: Outcome) -> Option<Phase> {
        match (self.phase, outcome) {
            (Phase::Idle, Outcome::Admitted) => Some(self.first_phase()),
            (Phase::Turnstile, Outcome::TurnstilePassed) => Some(Phase::Response),
            (Phase::Response, Outcome::Response(status)) => if is_success(status) {
                Some(Phase::Staging)
            } else {
                None
            },
            (Phase::Staging, Outcome::StagingCreated) => Some(Phase::Copy),
            (Phase::Copy, Outcome::BodyCopied) => Some(Phase::Verify),
            (Phase::Verify, Outcome::ChecksumOk) => Some(Phase::Install),
            (Phase::Install, Outcome::Installed) => Some(Phase::Done),
            _ => None,
        }
    }

    /// The error that `outcome` reports, if it reports the failure of the current phase.
    pub open spec fn failure(self, outcome: Outcome) -> Option<FetchError> {
        let package = self.request.package.uri;
        match (self.phase, outcome) {
            (Phase::Response, Outcome::Response(status)) => if is_success(status) {
                None
            } else {
                Some(FetchError::Response { package, status })
            },
            (Phase::Response, Outcome::RequestFailed(message)) => Some(
                FetchError::Request { package, message },
            ),
            (Phase::Staging, Outcome::StagingFailed(cause)) => Some(
                FetchError::Create { package, cause },
            ),
            (Phase::Copy, Outcome::CopyFailed(cause)) => Some(FetchError::Copy { package, cause }),
            (Phase::Verify, Outcome::ChecksumFailed(source)) => Some(
                FetchError::InvalidHash { package, source },
            ),
            (Phase::Install, Outcome::InstallFailed(cause)) => Some(
                FetchError::Rename { package, cause },
            ),
            _ => None,
        }
    }

    /// Whether a failed attempt may be followed by another.
    pub open spec fn may_retry(self) -> bool {
        self.request.attempt < self.retries
    }

    /// The worker with its phase changed.
    pub open spec fn in_phase(self, phase: Phase) -> TransferWorker {
        TransferWorker { phase, ..self }
    }

    /// The worker at the start of its next attempt.
    pub open spec fn retried(self) -> TransferWorker {
        TransferWorker {
            request: FetchRequest {
                package: self.request.package,
                attempt: (self.request.attempt + 1) as usize,
            },
            phase: self.first_phase(),
            ..self
        }
    }

    /// The worker after `outcome`. An outcome that belongs to no action of the
    /// current phase changes nothing.
    pub open spec fn after(self, outcome: Outcome) -> TransferWorker {
        if let Some(phase) = self.progress(outcome) {
            self.in_phase(phase)
        } else if self.failure(outcome) is Some {
            if self.may_retry() {
                self.retried()
            } else {
                self.in_phase(Phase::Failed)
            }
        } else {
            self
        }
    }

    /// The worker's answer to `outcome`.
    pub open spec fn step(self, outcome: Outcome) -> Step {
        if let Some(phase) = self.progress(outcome) {
            Step { event: announced(self.phase), discard_staging: false, action: pending(phase) }
        } else if let Some(error) = self.failure(outcome) {
            if self.may_retry() {
                Step {
                    event: Some(EventKind::Fetching),
                    discard_staging: true,
                    action: pending(self.first_phase()),
                }
            } else {
                Step {
                    event: Some(EventKind::Error(error)),
                    discard_staging: true,
                    action: Action::Stop,
                }
            }
        } else {
            Step { event: None, discard_staging: false, action: pending(self.phase) }
        }
    }

    pub fn new(package: Request, retries: u16, throttled: bool) -> (worker: TransferWorker)
        ensures
            worker == TransferWorker::initial(package, retries, throttled),
            worker.wf(),
    {
        TransferWorker {
            request: FetchRequest { package, attempt: 0 },
            retries,
            throttled,
            phase: Phase::Idle,
        }
    }

    /// The action that the worker waits for.
    pub fn pending_action(&self) -> (action: Action)
        ensures
            action == pending(self.phase),
    {
        action_for(self.phase)
    }

    /// Whether the worker has published its terminal event.
    pub fn is_finished(&self) -> (finished: bool)
        ensures
            finished == (self.phase == Phase::Done || self.phase == Phase::Failed),
    {
        match self.phase {
            Phase::Done => true,
            Phase::Failed => true,
            _ => false,
        }
    }

    /// The number of attempts that have started.
    pub fn attempts(&self) -> (attempts: usize)
        requires
            self.wf(),
        ensures
            attempts == if self.phase == Phase::Idle {
                0
            } else {
                self.request.attempt + 1
            },
    {
        match self.phase {
            Phase::Idle => 0,
            _ => self.request.attempt + 1,
        }
    }

    /// Moves on after a success.
    fn proceed(&mut self, phase: Phase) -> (step: Step)
        ensures
            *final(self) == old(self).in_phase(phase),
            step == (Step {
                event: announced(old(self).phase),
                discard_staging: false,
                action: pending(phase),
            }),
    {
        let event = match self.phase {
            Phase::Idle => Some(EventKind::Fetching),
            Phase::Copy => Some(EventKind::Fetched),
            Phase::Install => Some(EventKind::Validated),
            _ => None,
        };
        self.phase = phase;
        Step { event, discard_staging: false, action: action_for(phase) }
    }

    /// Ends the attempt with `error`: starts the next one, or gives up.
    fn fail(&mut self, error: FetchError) -> (step: Step)
        requires
            old(self).wf(),
        ensures
            final(self).wf(),
            *final(self) == if old(self).may_retry() {
                old(self).retried()
            } else {
                old(self).in_phase(Phase::Failed)
            },
            step == if old(self).may_retry() {
                Step {
                    event: Some(EventKind::Fetching),
                    discard_staging: true,
                    action: pending(old(self).first_phase()),
                }
            } else {
                Step {
                    event: Some(EventKind::Error(error)),
                    discard_staging: true,
                    action: Action::Stop,
                }
            },
    {
        if self.request.attempt < self.retries as usize {
            self.request.attempt = self.request.attempt + 1;
            let first = if self.throttled {
                Phase::Turnstile
            } else {
                Phase::Response
            };
            self.phase = first;
            Step {
                event: Some(EventKind::Fetching),
                discard_staging: true,
                action: action_for(first),
            }
        } else {
            self.phase = Phase::Failed;
            Step { event: Some(EventKind::Error(error)), discard_staging: true, action: Action::Stop }
        }
    }

    /// Takes the outcome of the pending action, and answers with the event to
    /// publish and the next action.
    pub fn advance(&mut self, outcome: Outcome) -> (step: Step)
        requires
            old(self).wf(),
        ensures
            final(self).wf(),
            *final(self) == old(self).after(outcome),
            step == old(self).step(outcome),
    {
        let first = if self.throttled {
            Phase::Turnstile
        } else {
            Phase::Response
        };
        match (self.phase, outcome) {
            (Phase::Idle, Outcome::Admitted) => self.proceed(first),
            (Phase::Turnstile, Outcome::TurnstilePassed) => self.proceed(Phase::Response),
            (Phase::Response, Outcome::Response(status)) => {
                if 200 <= status && status <= 299 {
                    self.proceed(Phase::Staging)
                } else {
                    let package = self.request.package.uri.clone();
                    self.fail(FetchError::Response { package, status })
                }
            },
            (Phase::Response, Outcome::RequestFailed(message)) => {
                let package = self.request.package.uri.clone();
                self.fail(FetchError::Request { package, message })
            },
            (Phase::Staging, Outcome::StagingCreated) => self.proceed(Phase::Copy),
            (Phase::Staging, Outcome::StagingFailed(cause)) => {
                let package = self.request.package.uri.clone();
                self.fail(FetchError::Create { package, cause })
            },
            (Phase::Copy, Outcome::BodyCopied) => self.proceed(Phase::Verify),
            (Phase::Copy, Outcome::CopyFailed(cause)) => {
                let package = self.request.package.uri.clone();
                self.fail(FetchError::Copy { package, cause })
            },
            (Phase::Verify, Outcome::ChecksumOk) => self.proceed(Phase::Install),
            (Phase::Verify, Outcome::ChecksumFailed(source)) => {
                let package = self.request.package.uri.clone();
                self.fail(FetchError::InvalidHash { package, source })
            },
            (Phase::Install, Outcome::Installed) => self.proceed(Phase::Done),
            (Phase::Install, Outcome::InstallFailed(cause)) => {
                let package = self.request.package.uri.clone();
                self.fail(FetchError::Rename { package, cause })
            },
            (phase, _) => Step { event: None, discard_staging: false, action: action_for(phase) },
        }
    }
}

/// The action that a worker in `phase` waits for.
fn action_for(phase: Phase) -> (action: Action)
    ensures
        action == pending(phase),
{
    match phase {
        Phase::Idle => Action::AwaitAdmission,
        Phase::Turnstile => Action::PassTurnstile,
        Phase::Response => Action::Request,
        Phase::Staging => Action::CreateStaging,
        Phase::Copy => Action::CopyBody,
        Phase::Verify => Action::Verify,
        Phase::Install => Action::Install,
        Phase::Done => Action::Stop,
        Phase::Failed => Action::Stop,
    }
}

impl TransferWorker {
    /// Whether the worker has published its terminal event.
    pub open spec fn finished(self) -> bool {
        self.phase == Phase::Done || self.phase == Phase::Failed
    }

    /// The worker after the outcomes of `outcomes`, in order.
    pub open spec fn after_all(self, outcomes: Seq<Outcome>) -> TransferWorker
        decreases outcomes.len(),
    {
        if outcomes.len() == 0 {
            self
        } else {
            self.after_all(outcomes.drop_last()).after(outcomes.last())
        }
    }

    /// The events that the worker publishes while it takes `outcomes`, in order.
    pub open spec fn published(self, outcomes: Seq<Outcome>) -> Seq<EventKind>
        decreases outcomes.len(),
    {
        if outcomes.len() == 0 {
            Seq::empty()
        } else {
            let earlier = self.published(outcomes.drop_last());
            match self.after_all(outcomes.drop_last()).step(outcomes.last()).event {
                Some(event) => earlier.push(event),
                None => earlier,
            }
        }
    }

    /// The actions that the worker asks for while it takes `outcomes`, one for each.
    pub open spec fn asked(self, outcomes: Seq<Outcome>) -> Seq<Action>
        decreases outcomes.len(),
    {
        if outcomes.len() == 0 {
            Seq::empty()
        } else {
            self.asked(outcomes.drop_last()).push(
                self.after_all(outcomes.drop_last()).step(outcomes.last()).action,
            )
        }
    }
}

/// The outcome of going through the turnstile, for a worker that has one.
pub open spec fn turnstile_outcomes(throttled: bool) -> Seq<Outcome> {
    if throttled {
        seq![Outcome::TurnstilePassed]
    } else {
        Seq::empty()
    }
}

/// The outcomes of a request that is admitted, fetched, validated and installed at
/// the first attempt.
pub open spec fn clean_transfer(throttled: bool, status: u16) -> Seq<Outcome> {
    seq![Outcome::Admitted] + turnstile_outcomes(throttled) + seq![
        Outcome::Response(status),
        Outcome::StagingCreated,
        Outcome::BodyCopied,
        Outcome::ChecksumOk,
        Outcome::Installed,
    ]
}

/// The outcomes of one attempt that is fetched in full and then fails validation.
pub open spec fn corrupt_attempt(throttled: bool, status: u16, error: ChecksumError) -> Seq<Outcome> {
    turnstile_outcomes(throttled) + seq![
        Outcome::Response(status),
        Outcome::StagingCreated,
        Outcome::BodyCopied,
        Outcome::ChecksumFailed(error),
    ]
}

/// The outcomes of as many attempts as `errors` has items, each fetched in full and
/// failing validation with its item of `errors`.
pub open spec fn corrupt_attempts(throttled: bool, status: u16, errors: Seq<ChecksumError>) -> Seq<
    Outcome,
>
    decreases errors.len(),
{
    if errors.len() == 0 {
        Seq::empty()
    } else {
        corrupt_attempts(throttled, status, errors.drop_last()) + corrupt_attempt(
            throttled,
            status,
            errors.last(),
        )
    }
}

/// `Fetched` then `Fetching`, `n` times over: what `n` failed attempts publish when
/// each is fetched in full and followed by another.
pub open spec fn refetched(n: nat) -> Seq<EventKind>
    decreases n,
{
    if n == 0 {
        Seq::empty()
    } else {
        refetched((n - 1) as nat) + seq![EventKind::Fetched, EventKind::Fetching]
    }
}

/// Taking one more outcome is one more step from where the earlier ones led.
pub proof fn lemma_one_more(worker: TransferWorker, outcomes: Seq<Outcome>, outcome: Outcome)
    ensures
        worker.after_all(outcomes.push(outcome)) == worker.after_all(outcomes).after(outcome),
        worker.published(outcomes.push(outcome)) == match worker.after_all(outcomes).step(
            outcome,
        ).event {
            Some(event) => worker.published(outcomes).push(event),
            None => worker.published(outcomes),
        },
        worker.asked(outcomes.push(outcome)) == worker.asked(outcomes).push(
            worker.after_all(outcomes).step(outcome).action,
        ),
{
    assert(outcomes.push(outcome).drop_last() =~= outcomes);
}

/// Taking two runs of outcomes one after the other is taking the second from where
/// the first led.
pub proof fn lemma_runs_compose(worker: TransferWorker, first: Seq<Outcome>, rest: Seq<Outcome>)
    ensures
        worker.after_all(first + rest) == worker.after_all(first).after_all(rest),
        worker.published(first + rest) == worker.published(first) + worker.after_all(
            first,
        ).published(rest),
        worker.asked(first + rest) == worker.asked(first) + worker.after_all(first).asked(rest),
    decreases rest.len(),
{
    if rest.len() == 0 {
        assert(first + rest =~= first);
        assert(worker.published(first) + Seq::<EventKind>::empty() =~= worker.published(first));
        assert(worker.asked(first) + Seq::<Action>::empty() =~= worker.asked(first));
    } else {
        lemma_runs_compose(worker, first, rest.drop_last());
        assert((first + rest).drop_last() =~= first + rest.drop_last());
        assert((first + rest).last() == rest.last());
        let middle = worker.after_all(first);
        let before = middle.after_all(rest.drop_last());
        match before.step(rest.last()).event {
            Some(event) => {
                assert((worker.published(first) + middle.published(rest.drop_last())).push(event)
                    =~= worker.published(first) + middle.published(rest.drop_last()).push(event));
            },
            None => {},
        }
        assert((worker.asked(first) + middle.asked(rest.drop_last())).push(
            before.step(rest.last()).action,
        ) =~= worker.asked(first) + middle.asked(rest.drop_last()).push(
            before.step(rest.last()).action,
        ));
    }
}

/// Whatever outcomes a worker takes, in whatever order, it stays well-formed: it
/// never starts more attempts than one more than its retries. Its request, its
/// retries and its turnstile setting never change.
pub proof fn lemma_attempts_are_bounded(worker: TransferWorker, outcomes: Seq<Outcome>)
    requires
        worker.wf(),
    ensures
        worker.after_all(outcomes).wf(),
        worker.after_all(outcomes).request.attempt <= worker.retries,
        worker.after_all(outcomes).request.attempt >= worker.request.attempt,
        worker.after_all(outcomes).request.package == worker.request.package,
        worker.after_all(outcomes).retries == worker.retries,
        worker.after_all(outcomes).throttled == worker.throttled,
    decreases outcomes.len(),
{
    if outcomes.len() > 0 {
        lemma_attempts_are_bounded(worker, outcomes.drop_last());
    }
}

/// A worker that has published its terminal event takes no further outcome into
/// account: its state stays, and it publishes nothing more.
pub proof fn lemma_finished_stays(worker: TransferWorker, outcomes: Seq<Outcome>)
    requires
        worker.finished(),
    ensures
        worker.after_all(outcomes) == worker,
        worker.published(outcomes) == Seq::<EventKind>::empty(),
    decreases outcomes.len(),
{
    if outcomes.len() > 0 {
        lemma_finished_stays(worker, outcomes.drop_last());
    }
}

/// Whether `events` is what a request may have published when its worker is
/// finished or not: at most one terminal event, in the last place, and there exactly
/// when the worker is finished.
pub open spec fn well_ordered(events: Seq<EventKind>, finished: bool) -> bool {
    &&& forall|i: int| 0 <= i < events.len() - 1 ==> !(#[trigger] events[i]).is_terminal()
    &&& finished ==> events.len() > 0 && events.last().is_terminal()
    &&& !finished ==> forall|i: int| 0 <= i < events.len() ==> !(#[trigger] events[i]).is_terminal()
}

/// For every request and every run of outcomes, at most one terminal event
/// (`Validated` or `Error`) is published, nothing is published after it, and it is
/// published exactly when the worker finishes. A request whose worker has started
/// publishes `Fetching` first.
pub proof fn lemma_one_terminal_event(worker: TransferWorker, outcomes: Seq<Outcome>)
    requires
        worker.wf(),
        !worker.finished(),
    ensures
        well_ordered(worker.published(outcomes), worker.after_all(outcomes).finished()),
        worker.phase == Phase::Idle && worker.published(outcomes).len() > 0
            ==> worker.published(outcomes).first() == EventKind::Fetching,
        worker.phase == Phase::Idle && worker.published(outcomes).len() == 0 ==> worker.after_all(
            outcomes,
        ).phase == Phase::Idle,
    decreases outcomes.len(),
{
    if outcomes.len() > 0 {
        let earlier = outcomes.drop_last();
        lemma_one_terminal_event(worker, earlier);
        lemma_attempts_are_bounded(worker, earlier);
        let before = worker.after_all(earlier);
        let events = worker.published(earlier);
        let step = before.step(outcomes.last());
        match step.event {
            Some(event) => {
                let all = events.push(event);
                assert(!before.finished());
                assert(event.is_terminal() <==> before.after(outcomes.last()).finished());
                assert forall|i: int| 0 <= i < all.len() - 1 implies !(#[trigger] all[i]).is_terminal() by {
                    assert(all[i] == events[i]);
                }
                if worker.phase == Phase::Idle {
                    if events.len() > 0 {
                        assert(all.first() == events.first());
                    } else {
                        assert(before.phase == Phase::Idle);
                        assert(all.first() == event);
                    }
                }
            },
            None => {},
        }
    }
}

/// Whether `events` ends as a worker in `phase` has last published: nothing before
/// admission, `Fetching` while the attempt fetches, `Fetched` while it validates and
/// installs, `Validated` when done, and `Error` when failed.
pub open spec fn ends_as(events: Seq<EventKind>, phase: Phase) -> bool {
    match phase {
        Phase::Idle => events.len() == 0,
        Phase::Turnstile | Phase::Response | Phase::Staging | Phase::Copy => events.len() > 0
            && events.last() == EventKind::Fetching,
        Phase::Verify | Phase::Install => events.len() > 0 && events.last() == EventKind::Fetched,
        Phase::Done => events.len() > 0 && events.last() == EventKind::Validated,
        Phase::Failed => events.len() > 0 && events.last() is Error,
    }
}

/// Whether every `Fetched` of `events` stands directly after a `Fetching`, and
/// every `Validated` directly after a `Fetched`.
pub open spec fn in_causal_order(events: Seq<EventKind>) -> bool {
    forall|i: int|
        0 <= i < events.len() ==> ((#[trigger] events[i]) == EventKind::Fetched ==> i > 0
            && events[i - 1] == EventKind::Fetching) && (events[i] == EventKind::Validated ==> i
            > 0 && events[i - 1] == EventKind::Fetched)
}

/// For every request and every run of outcomes the events come in causal order:
/// `Fetching` opens every attempt, `Fetched` follows the `Fetching` of its attempt,
/// and `Validated` follows the `Fetched` of the attempt that succeeds. What was
/// published last tells where the worker stands.
pub proof fn lemma_events_are_in_causal_order(worker: TransferWorker, outcomes: Seq<Outcome>)
    requires
        worker.wf(),
        worker.phase == Phase::Idle,
    ensures
        ends_as(worker.published(outcomes), worker.after_all(outcomes).phase),
        in_causal_order(worker.published(outcomes)),
    decreases outcomes.len(),
{
    if outcomes.len() > 0 {
        let earlier = outcomes.drop_last();
        lemma_events_are_in_causal_order(worker, earlier);
        let before = worker.after_all(earlier);
        let events = worker.published(earlier);
        match before.step(outcomes.last()).event {
            Some(event) => {
                let all = events.push(event);
                assert forall|i: int| 0 <= i < all.len() implies ((#[trigger] all[i])
                    == EventKind::Fetched ==> i > 0 && all[i - 1] == EventKind::Fetching) && (all[i]
                    == EventKind::Validated ==> i > 0 && all[i - 1] == EventKind::Fetched) by {
                    if i < events.len() {
                        assert(all[i] == events[i]);
                        if i > 0 {
                            assert(all[i - 1] == events[i - 1]);
                        }
                    } else if i > 0 {
                        assert(all[i - 1] == events.last());
                    }
                }
            },
            None => {},
        }
    }
}

/// For every request that is reachable and arrives with the right size and digest,
/// the events are exactly `Fetching`, `Fetched`, `Validated`; the worker finishes at
/// the first attempt, and asks for the move to the destination before it stops.
pub proof fn lemma_clean_transfer(worker: TransferWorker, status: u16)
    requires
        worker.wf(),
        worker.phase == Phase::Idle,
        is_success(status),
    ensures
        worker.published(clean_transfer(worker.throttled, status)) == seq![
            EventKind::Fetching,
            EventKind::Fetched,
            EventKind::Validated,
        ],
        worker.after_all(clean_transfer(worker.throttled, status)) == worker.in_phase(Phase::Done),
        worker.asked(clean_transfer(worker.throttled, status)).contains(Action::Install),
        worker.asked(clean_transfer(worker.throttled, status)).last() == Action::Stop,
{
    let t0 = Seq::<Outcome>::empty();
    let t1 = t0.push(Outcome::Admitted);
    lemma_one_more(worker, t0, Outcome::Admitted);
    let t2 = if worker.throttled {
        t1.push(Outcome::TurnstilePassed)
    } else {
        t1
    };
    if worker.throttled {
        lemma_one_more(worker, t1, Outcome::TurnstilePassed);
    }
    assert(worker.after_all(t2) == worker.in_phase(Phase::Response));
    let t3 = t2.push(Outcome::Response(status));
    lemma_one_more(worker, t2, Outcome::Response(status));
    let t4 = t3.push(Outcome::StagingCreated);
    lemma_one_more(worker, t3, Outcome::StagingCreated);
    let t5 = t4.push(Outcome::BodyCopied);
    lemma_one_more(worker, t4, Outcome::BodyCopied);
    let t6 = t5.push(Outcome::ChecksumOk);
    lemma_one_more(worker, t5, Outcome::ChecksumOk);
    let t7 = t6.push(Outcome::Installed);
    lemma_one_more(worker, t6, Outcome::Installed);
    assert(t7 =~= clean_transfer(worker.throttled, status));
    assert(worker.published(t7) =~= seq![
        EventKind::Fetching,
        EventKind::Fetched,
        EventKind::Validated,
    ]);
    let asked = worker.asked(t7);
    assert(asked[asked.len() - 2] == Action::Install);
}

/// One attempt that is fetched in full and fails validation: `Fetched` is published,
/// then `Fetching` if another attempt follows, else `Error` with the validation's
/// error. The move to the destination is never asked for.
pub proof fn lemma_corrupt_attempt(worker: TransferWorker, status: u16, error: ChecksumError)
    requires
        worker.wf(),
        worker.phase == worker.first_phase(),
        is_success(status),
    ensures
        worker.may_retry() ==> worker.after_all(corrupt_attempt(worker.throttled, status, error))
            == worker.retried() && worker.published(corrupt_attempt(worker.throttled, status, error))
            == seq![EventKind::Fetched, EventKind::Fetching],
        !worker.may_retry() ==> worker.after_all(corrupt_attempt(worker.throttled, status, error))
            == worker.in_phase(Phase::Failed) && worker.published(
            corrupt_attempt(worker.throttled, status, error),
        ) == seq![
            EventKind::Fetched,
            EventKind::Error(
                FetchError::InvalidHash { package: worker.request.package.uri, source: error },
            ),
        ],
        !worker.asked(corrupt_attempt(worker.throttled, status, error)).contains(Action::Install),
{
    let t0 = Seq::<Outcome>::empty();
    let t1 = if worker.throttled {
        t0.push(Outcome::TurnstilePassed)
    } else {
        t0
    };
    if worker.throttled {
        lemma_one_more(worker, t0, Outcome::TurnstilePassed);
    }
    assert(worker.after_all(t1) == worker.in_phase(Phase::Response));
    let t2 = t1.push(Outcome::Response(status));
    lemma_one_more(worker, t1, Outcome::Response(status));
    let t3 = t2.push(Outcome::StagingCreated);
    lemma_one_more(worker, t2, Outcome::StagingCreated);
    let t4 = t3.push(Outcome::BodyCopied);
    lemma_one_more(worker, t3, Outcome::BodyCopied);
    let t5 = t4.push(Outcome::ChecksumFailed(error));
    lemma_one_more(worker, t4, Outcome::ChecksumFailed(error));
    assert(t5 =~= corrupt_attempt(worker.throttled, status, error));
    assert(worker.after_all(t4) == worker.in_phase(Phase::Verify));
    if worker.may_retry() {
        assert(worker.published(t5) =~= seq![EventKind::Fetched, EventKind::Fetching]);
        assert(worker.in_phase(Phase::Verify).retried() == worker.retried());
    } else {
        assert(worker.published(t5) =~= seq![
            EventKind::Fetched,
            EventKind::Error(
                FetchError::InvalidHash { package: worker.request.package.uri, source: error },
            ),
        ]);
    }
    let asked = worker.asked(t5);
    assert forall|i: int| 0 <= i < asked.len() implies asked[i] != Action::Install by {
        if worker.throttled {
            assert(asked =~= seq![
                Action::Request,
                Action::CreateStaging,
                Action::CopyBody,
                Action::Verify,
                asked[4],
            ]);
        } else {
            assert(asked =~= seq![
                Action::CreateStaging,
                Action::CopyBody,
                Action::Verify,
                asked[3],
            ]);
        }
    }
}

/// The worker `worker` with `failed` attempts behind it, at the start of the next.
pub open spec fn at_attempt(worker: TransferWorker, failed: nat) -> TransferWorker {
    TransferWorker {
        request: FetchRequest { package: worker.request.package, attempt: failed as usize },
        phase: worker.first_phase(),
        ..worker
    }
}

/// A run of attempts that are each fetched in full and fail validation, from the
/// start of the first attempt. While attempts are left, each publishes `Fetched` and
/// the next `Fetching`; the one after the last retry publishes `Fetched` and `Error`
/// with its own validation error, and finishes the worker. The move to the
/// destination is never asked for.
pub proof fn lemma_corrupt_attempts(worker: TransferWorker, status: u16, errors: Seq<ChecksumError>)
    requires
        worker.request.attempt == 0,
        worker.phase == worker.first_phase(),
        is_success(status),
        errors.len() <= worker.retries + 1,
    ensures
        errors.len() <= worker.retries ==> worker.after_all(
            corrupt_attempts(worker.throttled, status, errors),
        ) == at_attempt(worker, errors.len()) && worker.published(
            corrupt_attempts(worker.throttled, status, errors),
        ) == refetched(errors.len()),
        errors.len() == worker.retries + 1 ==> worker.after_all(
            corrupt_attempts(worker.throttled, status, errors),
        ) == at_attempt(worker, worker.retries as nat).in_phase(Phase::Failed) && worker.published(
            corrupt_attempts(worker.throttled, status, errors),
        ) == refetched(worker.retries as nat) + seq![
            EventKind::Fetched,
            EventKind::Error(
                FetchError::InvalidHash {
                    package: worker.request.package.uri,
                    source: errors.last(),
                },
            ),
        ],
        !worker.asked(corrupt_attempts(worker.throttled, status, errors)).contains(Action::Install),
    decreases errors.len(),
{
    if errors.len() == 0 {
        assert(at_attempt(worker, 0) == worker);
    } else {
        let earlier = errors.drop_last();
        let head = corrupt_attempts(worker.throttled, status, earlier);
        let tail = corrupt_attempt(worker.throttled, status, errors.last());
        lemma_corrupt_attempts(worker, status, earlier);
        let middle = worker.after_all(head);
        assert(middle == at_attempt(worker, earlier.len()));
        lemma_runs_compose(worker, head, tail);
        lemma_corrupt_attempt(middle, status, errors.last());
        assert(middle.throttled == worker.throttled);
        if errors.len() <= worker.retries {
            assert(middle.may_retry());
            assert(middle.retried() == at_attempt(worker, errors.len()));
            assert(refetched(errors.len()) == refetched(earlier.len()) + seq![
                EventKind::Fetched,
                EventKind::Fetching,
            ]);
        } else {
            assert(!middle.may_retry());
        }
        let asked = worker.asked(head) + middle.asked(tail);
        assert forall|i: int| 0 <= i < asked.len() implies asked[i] != Action::Install by {
            if i < worker.asked(head).len() {
                assert(worker.asked(head)[i] == asked[i]);
            } else {
                assert(middle.asked(tail)[i - worker.asked(head).len()] == asked[i]);
            }
        }
    }
}

/// For every request whose content never matches its digest: the worker makes one
/// attempt more than its retries and no further one, the last event is
/// `Error(InvalidHash)` with the last validation's error, every earlier event is
/// `Fetching` or `Fetched`, and the move to the destination is never asked for, so
/// that nothing is installed.
pub proof fn lemma_corrupt_transfer(worker: TransferWorker, status: u16, errors: Seq<ChecksumError>)
    requires
        worker.wf(),
        worker.phase == Phase::Idle,
        worker.request.attempt == 0,
        is_success(status),
        errors.len() == worker.retries + 1,
    ensures
        ({
            let outcomes = seq![Outcome::Admitted] + corrupt_attempts(
                worker.throttled,
                status,
                errors,
            );
            let end = worker.after_all(outcomes);
            let events = worker.published(outcomes);
            &&& end.phase == Phase::Failed
            &&& end.request.attempt + 1 == worker.retries + 1
            &&& events == seq![EventKind::Fetching] + refetched(worker.retries as nat) + seq![
                EventKind::Fetched,
                EventKind::Error(
                    FetchError::InvalidHash {
                        package: worker.request.package.uri,
                        source: errors.last(),
                    },
                ),
            ]
            &&& events.last() == EventKind::Error(
                FetchError::InvalidHash {
                    package: worker.request.package.uri,
                    source: errors.last(),
                },
            )
            &&& !worker.asked(outcomes).contains(Action::Install)
        }),
{
    let admitted = seq![Outcome::Admitted];
    let rest = corrupt_attempts(worker.throttled, status, errors);
    assert(admitted =~= Seq::<Outcome>::empty().push(Outcome::Admitted));
    lemma_one_more(worker, Seq::<Outcome>::empty(), Outcome::Admitted);
    let started = worker.after_all(admitted);
    assert(started == worker.in_phase(worker.first_phase()));
    lemma_runs_compose(worker, admitted, rest);
    lemma_corrupt_attempts(started, status, errors);
    assert(worker.published(admitted) =~= seq![EventKind::Fetching]);
    assert(worker.asked(admitted) =~= seq![pending(worker.first_phase())]);
    let asked = worker.asked(admitted) + started.asked(rest);
    assert forall|i: int| 0 <= i < asked.len() implies asked[i] != Action::Install by {
        if i >= 1 {
            assert(started.asked(rest)[i - 1] == asked[i]);
        }
    }
    let events = worker.published(admitted + rest);
    assert(events =~= seq![EventKind::Fetching] + refetched(worker.retries as nat) + seq![
        EventKind::Fetched,
        EventKind::Error(
            FetchError::InvalidHash {
                package: worker.request.package.uri,
                source: errors.last(),
            },
        ),
    ]);
}

} // verus!
