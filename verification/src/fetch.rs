//! The events that a fetch reports, the errors that end one, and the settings of a
//! package fetcher.

use crate::dispatch::Dispatcher;
use crate::turnstile::Turnstile;
use crate::hash::ChecksumError;
use crate::request::Request;
use crate::worker::TransferWorker;
use std::sync::Arc;
use vstd::prelude::*;
use vstd::string::StringExecFns;

verus! {

/// Why a transfer failed. Each variant names the request by its URI.
#[derive(Debug)]
pub enum FetchError {
    /// The staging file could not be created.
    Create { package: String, cause: std::io::Error },
    /// The response body could not be written to the staging file.
    Copy { package: String, cause: std::io::Error },
    /// The request never got a response; `message` describes the failure.
    Request { package: String, message: String },
    /// The server answered with a status outside the success range.
    Response { package: String, status: u16 },
    /// The downloaded file has the wrong size or digest.
    InvalidHash { package: String, source: ChecksumError },
    /// The staging file could not be moved to its destination.
    Rename { package: String, cause: std::io::Error },
}

/// What happened to a request.
#[derive(Debug)]
pub enum EventKind {
    /// A transfer of the package is being initiated.
    Fetching,
    /// The package was downloaded in full.
    Fetched,
    /// The request failed for good.
    Error(FetchError),
    /// The package has the expected size and digest, and is installed.
    Validated,
}

impl EventKind {
    /// Whether this event is the last one of its request.
    pub open spec fn is_terminal(self) -> bool {
        self is Validated || self is Error
    }
}

/// An event, with the request that it is about.
#[derive(Debug)]
pub struct FetchEvent {
    pub package: Arc<Request>,
    pub kind: EventKind,
}

impl FetchEvent {
    pub fn new(package: Arc<Request>, kind: EventKind) -> (event: Self)
        ensures
            event.package == package,
            event.kind == kind,
    {
        Self { package, kind }
    }
}

/// The name of the staging file of the package that is to be installed as `name`: the
/// name itself, followed by `.partial`.
pub fn staging_name(name: &str) -> (staging: String)
    ensures
        staging@ == name@ + ".partial"@,
{
    String::from_str(name).concat(".partial")
}

/// A request together with the number of attempts that have failed on it.
pub struct FetchRequest {
    pub package: Request,
    pub attempt: usize,
}

/// The settings of a fetch: how many transfers run at once, how many connections
/// each may open, how often a failed request is tried again, and the minimum time
/// between the starts of two transfers.
pub struct PackageFetcher {
    pub concurrent: usize,
    pub connections_per_file: u16,
    pub retries: u16,
    pub delay_between_requests: Option<u64>,
}

impl PackageFetcher {
    /// One transfer at a time over one connection, three retries, no delay.
    pub fn new() -> (fetcher: Self)
        ensures
            fetcher.concurrent == 1,
            fetcher.connections_per_file == 1,
            fetcher.retries == 3,
            fetcher.delay_between_requests is None,
    {
        Self { concurrent: 1, connections_per_file: 1, retries: 3, delay_between_requests: None }
    }

    pub fn connections_per_file(self, connections: u16) -> (fetcher: Self)
        ensures
            fetcher == (Self { connections_per_file: connections, ..self }),
    {
        let mut fetcher = self;
        fetcher.connections_per_file = connections;
        fetcher
    }

    pub fn concurrent(self, concurrent: usize) -> (fetcher: Self)
        ensures
            fetcher == (Self { concurrent, ..self }),
    {
        let mut fetcher = self;
        fetcher.concurrent = concurrent;
        fetcher
    }

    pub fn retries(self, retries: u16) -> (fetcher: Self)
        ensures
            fetcher == (Self { retries, ..self }),
    {
        let mut fetcher = self;
        fetcher.retries = retries;
        fetcher
    }

    /// Spaces the starts of transfers by at least `milliseconds`.
    pub fn delay_between_requests(self, milliseconds: u64) -> (fetcher: Self)
        ensures
            fetcher == (Self { delay_between_requests: Some(milliseconds), ..self }),
    {
        let mut fetcher = self;
        fetcher.delay_between_requests = Some(milliseconds);
        fetcher
    }

    /// The dispatcher that admits requests under these settings.
    pub fn dispatcher(&self) -> (dispatcher: Dispatcher)
        ensures
            dispatcher == Dispatcher::initial(self.concurrent),
    {
        Dispatcher::new(self.concurrent)
    }

    /// The turnstile that spaces the starts of transfers, if a delay is set.
    pub fn turnstile(&self) -> (turnstile: Option<Turnstile>)
        ensures
            turnstile == match self.delay_between_requests {
                Some(delay) => Some(Turnstile::initial(delay)),
                None => None,
            },
    {
        match self.delay_between_requests {
            Some(delay) => Some(Turnstile::new(delay)),
            None => None,
        }
    }

    /// The worker that transfers `package` under these settings.
    pub fn worker(&self, package: Request) -> (worker: TransferWorker)
        ensures
            worker == TransferWorker::initial(
                package,
                self.retries,
                self.delay_between_requests is Some,
            ),
    {
        TransferWorker::new(package, self.retries, self.delay_between_requests.is_some())
    }
}

impl Default for PackageFetcher {
    /// As [`PackageFetcher::new`], but admitting no transfer until `concurrent` is set.
    fn default() -> (fetcher: Self)
        ensures
            fetcher.concurrent == 0,
            fetcher.connections_per_file == 1,
            fetcher.retries == 3,
            fetcher.delay_between_requests is None,
    {
        Self { concurrent: 0, connections_per_file: 1, retries: 3, delay_between_requests: None }
    }
}

} // verus!
