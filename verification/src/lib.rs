//! Building blocks for driving `apt` tooling: parsers for the output of
//! `apt`, `apt-cache`, `apt-get`, `apt-mark` and `dpkg-query`, command-line
//! models for those programs, and the decision logic of a package fetcher
//! (admission, per-request retry, rate limiting and checksum validation).
//!
//! Every function here is pure: callers perform the I/O and hand the results in.
//!
//! - [`request`], [`apt_get`]: the files that `apt-get` would download.
//! - [`hash`]: validation of a downloaded file against its size and digest.
//! - [`worker`], [`dispatch`], [`session`], [`turnstile`], [`fetch`]: the package
//!   fetcher, as state machines whose every step is a function call.
//! - [`apt`], [`apt_cache`], [`apt_mark`], [`dpkg`], [`upgrade`], [`lock`]: what the
//!   tools print, and what it means.
//! - [`command`]: the command lines of the tools, as plain values.
//! - [`text`], [`version`]: the text handling underneath.

pub mod apt;
pub mod apt_cache;
pub mod apt_get;
pub mod apt_mark;
pub mod command;
pub mod dispatch;
pub mod dpkg;
pub mod fetch;
pub mod hash;
pub mod lock;
pub mod request;
pub mod session;
pub mod text;
pub mod turnstile;
pub mod upgrade;
pub mod version;
pub mod worker;

pub use crate::apt_cache::AptCache;
pub use crate::apt_cache::Policy;
pub use crate::apt_get::AptGet;
pub use crate::apt_mark::AptMark;
pub use crate::dpkg::Dpkg;
pub use crate::dpkg::DpkgQuery;
pub use crate::upgrade::AptUpgradeEvent;
