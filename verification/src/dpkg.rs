//! Command lines of `dpkg` and `dpkg-query`, and what `dpkg-query` prints.

use crate::command::texts;
use crate::command::Invocation;
use crate::command::InvocationView;
use crate::text;
use vstd::prelude::*;
use vstd::slice::slice_subrange;
use vstd::string::StrSliceExecFns;

verus! {

/// A command line of `dpkg`.
#[derive(Debug, Clone)]
pub struct Dpkg {
    pub command: Invocation,
}

impl View for Dpkg {
    type V = InvocationView;

    open spec fn view(&self) -> InvocationView {
        self.command@
    }
}

impl Dpkg {
    /// `dpkg`, with `LANG` set to `C` so that its output comes in English.
    pub fn new() -> (r: Self)
        ensures
            r@ == (InvocationView {
                program: "dpkg"@,
                args: Seq::empty(),
                envs: seq![("LANG"@, "C"@)],
            }),
    {
        let command = Invocation::new("dpkg").env("LANG", "C");
        proof {
            assert(command@.envs =~= seq![("LANG"@, "C"@)]);
        }
        Self { command }
    }

    /// Takes the default action on changed configuration files.
    pub fn force_confdef(self) -> (r: Self)
        ensures
            r@ == self@.arg("--force-confdef"@),
    {
        Self { command: self.command.arg("--force-confdef") }
    }

    /// Keeps old configuration files.
    pub fn force_confold(self) -> (r: Self)
        ensures
            r@ == self@.arg("--force-confold"@),
    {
        Self { command: self.command.arg("--force-confold") }
    }

    /// Configures every package that is unpacked and not configured.
    pub fn configure_all(self) -> (r: Self)
        ensures
            r@ == self@.arg("--configure"@).arg("-a"@),
    {
        Self { command: self.command.arg("--configure").arg("-a") }
    }
}

/// A command line of `dpkg-query`.
#[derive(Debug, Clone)]
pub struct DpkgQuery {
    pub command: Invocation,
}

impl View for DpkgQuery {
    type V = InvocationView;

    open spec fn view(&self) -> InvocationView {
        self.command@
    }
}

impl DpkgQuery {
    /// `dpkg-query`, with `LANG` set to `C` so that its output comes in English.
    pub fn new() -> (r: Self)
        ensures
            r@ == (InvocationView {
                program: "dpkg-query"@,
                args: Seq::empty(),
                envs: seq![("LANG"@, "C"@)],
            }),
    {
        let command = Invocation::new("dpkg-query").env("LANG", "C");
        proof {
            assert(command@.envs =~= seq![("LANG"@, "C"@)]);
        }
        Self { command }
    }

    /// The command line that prints, for each of `packages`, its name and its status on
    /// one line.
    pub fn show_installed(self, packages: &[String]) -> (r: Self)
        ensures
            r@ == self@.arg("--show"@).arg("--showformat=${Package} ${db:Status-Status}\n"@).args(
                texts(packages@),
            ),
    {
        Self {
            command: self.command.arg("--show").arg(
                "--showformat=${Package} ${db:Status-Status}\n",
            ).args(packages),
        }
    }
}

/// The package that a line of `dpkg-query` reports as installed: what stands before
/// the first space, where `installed` stands between that space and the next one or
/// the end of the line.
pub open spec fn installed_package(line: Seq<char>) -> Option<Seq<char>> {
    let first = text::index_of(line, 0, ' ');
    if first < line.len() && line.subrange(first + 1, text::index_of(line, first + 1, ' '))
        == "installed"@ {
        Some(line.take(first))
    } else {
        None
    }
}

/// Reads the package of a line of `dpkg-query`, if the line reports it as installed.
pub fn parse_installed(line: &str) -> (r: Option<&str>)
    ensures
        match r {
            Some(package) => installed_package(line@) == Some(package@),
            None => installed_package(line@) is None,
        },
{
    let owned = text::to_chars(line);
    let chars = owned.as_slice();
    let first = text::find_char(chars, 0, ' ');
    if first >= chars.len() {
        return None;
    }
    let second = text::find_char(chars, first + 1, ' ');
    let status = text::to_chars("installed");
    if text::same(slice_subrange(chars, first + 1, second), status.as_slice()) {
        proof {
            assert(line@.take(first as int) =~= line@.subrange(0, first as int));
        }
        Some(line.substring_char(0, first))
    } else {
        None
    }
}

} // verus!
