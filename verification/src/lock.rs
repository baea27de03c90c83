//! Waiting for the processes that hold the lock files of `apt` and `dpkg`.
//!
//! Nothing here looks at the system. The caller lists the files that processes hold
//! open and asks whether a lock file is among them; a watch turns the answers of
//! successive polls into events.

use vstd::prelude::*;

verus! {

/// The lock file of the package lists.
pub const LISTS_LOCK: &'static str = "/var/lib/apt/lists/lock";

/// The lock file of the package database.
pub const DPKG_LOCK: &'static str = "/var/lib/dpkg/lock";

/// The number of seconds between two polls of a watch.
pub const POLL_SECONDS: u64 = 3;

/// What a watch reports.
#[derive(Debug, Clone, Copy, PartialEq, Eq, Structural)]
pub enum AptLockEvent {
    Locked,
    Unlocked,
}

/// The texts of a list of strings.
pub open spec fn texts(list: Seq<String>) -> Seq<Seq<char>> {
    Seq::new(list.len(), |i: int| list[i]@)
}

/// Whether one of the files in `open` is one of `paths`.
pub open spec fn lock_found(open: Seq<Seq<char>>, paths: Seq<Seq<char>>) -> bool {
    exists|i: int, j: int|
        0 <= i < open.len() && 0 <= j < paths.len() && #[trigger] open[i] == #[trigger] paths[j]
}

/// Whether `file` is one of `paths`.
fn is_one_of(file: &String, paths: &[String]) -> (r: bool)
    ensures
        r == exists|j: int| 0 <= j < paths@.len() && file@ == (#[trigger] texts(paths@)[j]),
{
    let n = paths.len();
    let mut j: usize = 0;
    while j < n
        invariant
            n == paths@.len(),
            j <= n,
            forall|k: int| 0 <= k < j ==> file@ != (#[trigger] texts(paths@)[k]),
        decreases n - j,
    {
        if *file == paths[j] {
            proof {
                assert(texts(paths@)[j as int] == file@);
            }
            return true;
        }
        j += 1;
    }
    false
}

/// Whether a process holds one of the lock files `paths`, given the files that the
/// processes of the system hold open.
#[must_use]
pub fn apt_lock_found(open: &[String], paths: &[String]) -> (found: bool)
    ensures
        found == lock_found(texts(open@), texts(paths@)),
{
    let n = open.len();
    let mut i: usize = 0;
    while i < n
        invariant
            n == open@.len(),
            i <= n,
            forall|a: int, b: int|
                0 <= a < i && 0 <= b < paths@.len() ==> #[trigger] texts(open@)[a]
                    != #[trigger] texts(paths@)[b],
        decreases n - i,
    {
        if is_one_of(&open[i], paths) {
            proof {
                let j = choose|j: int|
                    0 <= j < paths@.len() && open@[i as int]@ == (#[trigger] texts(paths@)[j]);
                assert(texts(open@)[i as int] == texts(paths@)[j]);
            }
            return true;
        }
        proof {
            assert forall|b: int| 0 <= b < paths@.len() implies #[trigger] texts(open@)[i as int]
                != #[trigger] texts(paths@)[b] by {}
        }
        i += 1;
    }
    false
}

/// Where a watch stands.
#[derive(Debug, Clone, Copy, PartialEq, Eq, Structural)]
pub enum WatchPhase {
    /// No poll has been answered.
    Started,
    /// `Locked` was reported, and the lock was held at the last poll.
    Waiting,
    /// `Unlocked` was reported.
    Ended,
}

/// A watch's answer to a poll.
#[derive(Debug, Clone, Copy, PartialEq, Eq, Structural)]
pub struct WatchStep {
    /// The event to report.
    pub event: Option<AptLockEvent>,
    /// Whether to poll again, after [`POLL_SECONDS`].
    pub poll_again: bool,
}

/// A watch on the lock files.
#[derive(Debug, Clone, Copy, PartialEq, Eq, Structural)]
pub struct LockWatch {
    pub phase: WatchPhase,
}

impl LockWatch {
    /// The watch after a poll that found the lock held, or not.
    pub open spec fn after(self, found: bool) -> LockWatch {
        match self.phase {
            WatchPhase::Ended => self,
            _ => if found {
                LockWatch { phase: WatchPhase::Waiting }
            } else {
                LockWatch { phase: WatchPhase::Ended }
            },
        }
    }

    /// The answer to a poll: `Locked` at the first poll if the lock is held, nothing
    /// while it stays held, `Unlocked` at the first poll that finds it free.
    pub open spec fn step(self, found: bool) -> WatchStep {
        match self.phase {
            WatchPhase::Ended => WatchStep { event: None, poll_again: false },
            WatchPhase::Started => if found {
                WatchStep { event: Some(AptLockEvent::Locked), poll_again: true }
            } else {
                WatchStep { event: Some(AptLockEvent::Unlocked), poll_again: false }
            },
            WatchPhase::Waiting => if found {
                WatchStep { event: None, poll_again: true }
            } else {
                WatchStep { event: Some(AptLockEvent::Unlocked), poll_again: false }
            },
        }
    }

    /// The watch after the polls of `polls`, in order.
    pub open spec fn after_all(self, polls: Seq<bool>) -> LockWatch
        decreases polls.len(),
    {
        if polls.len() == 0 {
            self
        } else {
            self.after_all(polls.drop_last()).after(polls.last())
        }
    }

    /// The events that the watch reports over the polls of `polls`, in order.
    pub open spec fn reported(self, polls: Seq<bool>) -> Seq<AptLockEvent>
        decreases polls.len(),
    {
        if polls.len() == 0 {
            Seq::empty()
        } else {
            match self.after_all(polls.drop_last()).step(polls.last()).event {
                Some(event) => self.reported(polls.drop_last()).push(event),
                None => self.reported(polls.drop_last()),
            }
        }
    }

    /// A watch that has answered no poll.
    pub fn new() -> (watch: LockWatch)
        ensures
            watch.phase == WatchPhase::Started,
    {
        LockWatch { phase: WatchPhase::Started }
    }

    /// Takes the answer of a poll.
    pub fn observe(&mut self, found: bool) -> (step: WatchStep)
        ensures
            *final(self) == old(self).after(found),
            step == old(self).step(found),
    {
        match self.phase {
            WatchPhase::Ended => WatchStep { event: None, poll_again: false },
            WatchPhase::Started => {
                if found {
                    self.phase = WatchPhase::Waiting;
                    WatchStep { event: Some(AptLockEvent::Locked), poll_again: true }
                } else {
                    self.phase = WatchPhase::Ended;
                    WatchStep { event: Some(AptLockEvent::Unlocked), poll_again: false }
                }
            },
            WatchPhase::Waiting => {
                if found {
                    WatchStep { event: None, poll_again: true }
                } else {
                    self.phase = WatchPhase::Ended;
                    WatchStep { event: Some(AptLockEvent::Unlocked), poll_again: false }
                }
            },
        }
    }
}

/// Whatever the polls find, a new watch reports nothing, or `Locked` alone while the
/// lock is held, or `Unlocked` alone, or `Locked` then `Unlocked`; it has ended
/// exactly when `Unlocked` is reported.
pub proof fn lemma_watch_reports(watch: LockWatch, polls: Seq<bool>)
    requires
        watch.phase == WatchPhase::Started,
    ensures
        match watch.after_all(polls).phase {
            WatchPhase::Started => watch.reported(polls) == Seq::<AptLockEvent>::empty(),
            WatchPhase::Waiting => watch.reported(polls) == seq![AptLockEvent::Locked],
            WatchPhase::Ended => watch.reported(polls) == seq![AptLockEvent::Unlocked]
                || watch.reported(polls) == seq![AptLockEvent::Locked, AptLockEvent::Unlocked],
        },
        watch.after_all(polls).phase == WatchPhase::Started <==> polls.len() == 0,
    decreases polls.len(),
{
    if polls.len() > 0 {
        lemma_watch_reports(watch, polls.drop_last());
        let before = watch.after_all(polls.drop_last());
        let events = watch.reported(polls.drop_last());
        match before.step(polls.last()).event {
            Some(event) => {
                if before.phase == WatchPhase::Started {
                    assert(events.push(event) =~= seq![event]);
                } else {
                    assert(events.push(event) =~= seq![AptLockEvent::Locked, event]);
                }
            },
            None => {},
        }
    }
}

} // verus!
