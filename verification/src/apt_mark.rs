//! Command lines of `apt-mark`, and what `apt-mark` prints.

use crate::command::texts;
use crate::command::Invocation;
use crate::command::InvocationView;
use crate::text;
use vstd::prelude::*;
use vstd::string::StrSliceExecFns;

verus! {

/// A command line of `apt-mark`.
#[derive(Debug, Clone)]
pub struct AptMark {
    pub command: Invocation,
}

impl View for AptMark {
    type V = InvocationView;

    open spec fn view(&self) -> InvocationView {
        self.command@
    }
}

impl AptMark {
    /// `apt-mark`, with `LANG` set to `C` so that its output comes in English.
    pub fn new() -> (r: Self)
        ensures
            r@ == (InvocationView {
                program: "apt-mark"@,
                args: Seq::empty(),
                envs: seq![("LANG"@, "C"@)],
            }),
    {
        let command = Invocation::new("apt-mark").env("LANG", "C");
        proof {
            assert(command@.envs =~= seq![("LANG"@, "C"@)]);
        }
        Self { command }
    }

    /// The command line that holds `packages` back.
    pub fn hold(self, packages: &[String]) -> (r: Self)
        ensures
            r@ == self@.arg("hold"@).args(texts(packages@)),
    {
        Self { command: self.command.arg("hold").args(packages) }
    }

    /// The command line that lets `packages` go.
    pub fn unhold(self, packages: &[String]) -> (r: Self)
        ensures
            r@ == self@.arg("unhold"@).args(texts(packages@)),
    {
        Self { command: self.command.arg("unhold").args(packages) }
    }

    /// The command line that shows packages that have been held.
    pub fn held() -> (r: Self)
        ensures
            r@ == (InvocationView {
                program: "apt-mark"@,
                args: seq!["showhold"@],
                envs: seq![("LANG"@, "C"@)],
            }),
    {
        let r = AptMark::new();
        let r = Self { command: r.command.arg("showhold") };
        proof {
            assert(r@.args =~= seq!["showhold"@]);
        }
        r
    }

    /// The command line that lists the automatically-installed packages.
    pub fn auto_installed() -> (r: Self)
        ensures
            r@ == (InvocationView {
                program: "apt-mark"@,
                args: seq!["showauto"@],
                envs: seq![("LANG"@, "C"@)],
            }),
    {
        let r = AptMark::new();
        let r = Self { command: r.command.arg("showauto") };
        proof {
            assert(r@.args =~= seq!["showauto"@]);
        }
        r
    }

    /// The command line that lists the manually-installed packages.
    pub fn manually_installed() -> (r: Self)
        ensures
            r@ == (InvocationView {
                program: "apt-mark"@,
                args: seq!["showmanual"@],
                envs: seq![("LANG"@, "C"@)],
            }),
    {
        let r = AptMark::new();
        let r = Self { command: r.command.arg("showmanual") };
        proof {
            assert(r@.args =~= seq!["showmanual"@]);
        }
        r
    }

    /// The list of all installed packages: those installed automatically, then those
    /// installed manually.
    pub fn installed(auto: Vec<String>, manual: &[String]) -> (all: Vec<String>)
        ensures
            texts(all@) == texts(auto@) + texts(manual@),
    {
        let mut all = auto;
        let n = manual.len();
        let mut i: usize = 0;
        proof {
            assert(texts(all@) =~= texts(auto@) + texts(manual@.take(0)));
        }
        while i < n
            invariant
                n == manual@.len(),
                i <= n,
                texts(all@) == texts(auto@) + texts(manual@.take(i as int)),
            decreases n - i,
        {
            let ghost before = all@;
            all.push(manual[i].clone());
            proof {
                assert(texts(all@) =~= texts(before).push(manual@[i as int]@));
                assert(texts(manual@.take(i + 1)) =~= texts(manual@.take(i as int)).push(
                    manual@[i as int]@,
                ));
                assert(texts(all@) =~= texts(auto@) + texts(manual@.take(i + 1)));
            }
            i += 1;
        }
        proof {
            assert(manual@.take(n as int) =~= manual@);
        }
        all
    }
}

/// The package that a line of `apt-mark` names: the line without the whitespace at
/// its end.
pub open spec fn scraped(line: Seq<char>) -> Seq<char> {
    line.take(text::trimmed_end(line))
}

/// Reads the package that a line of `apt-mark` names.
pub fn scrape_package(line: &str) -> (package: &str)
    ensures
        package@ == scraped(line@),
{
    let chars = text::to_chars(line);
    let end = text::trim_end_index(chars.as_slice());
    proof {
        assert(line@.take(end as int) =~= line@.subrange(0, end as int));
    }
    line.substring_char(0, end)
}

} // verus!
