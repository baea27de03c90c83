//! Command lines of `apt-get`, and what `apt-get` prints.

use crate::command::texts;
use crate::command::Invocation;
use crate::command::InvocationView;
use crate::request::parse_line;
use crate::request::result_view;
use crate::request::Request;
use crate::request::RequestError;
use crate::request::RequestErrorView;
use crate::request::RequestView;
use crate::text;
use vstd::prelude::*;
use vstd::string::StrSliceExecFns;
use vstd::string::StringExecFns;

verus! {

/// A repository that `apt-get update` could not fetch.
#[derive(Debug)]
pub struct BadPPA {
    pub url: String,
    pub pocket: String,
}

/// A command line of `apt-get`.
#[derive(Debug, Clone)]
pub struct AptGet {
    pub command: Invocation,
}

impl View for AptGet {
    type V = InvocationView;

    open spec fn view(&self) -> InvocationView {
        self.command@
    }
}

impl AptGet {
    /// `apt-get`, with `LANG` set to `C` so that its output comes in English.
    pub fn new() -> (r: Self)
        ensures
            r@ == (InvocationView {
                program: "apt-get"@,
                args: Seq::empty(),
                envs: seq![("LANG"@, "C"@)],
            }),
    {
        let command = Invocation::new("apt-get").env("LANG", "C");
        proof {
            assert(command@.envs =~= seq![("LANG"@, "C"@)]);
        }
        Self { command }
    }

    /// Allows packages to be downgraded.
    pub fn allow_downgrades(self) -> (r: Self)
        ensures
            r@ == self@.arg("--allow-downgrades"@),
    {
        Self { command: self.command.arg("--allow-downgrades") }
    }

    /// Removes the packages that nothing needs any more.
    pub fn autoremove(self) -> (r: Self)
        ensures
            r@ == self@.arg("autoremove"@),
    {
        Self { command: self.command.arg("autoremove") }
    }

    /// Passes `option` on to `dpkg`.
    pub fn dpkg_option(self, option: &str) -> (r: Self)
        ensures
            r@ == self@.arg("-o"@).arg("Dpkg::Options::="@ + option@),
    {
        let passed = String::from_str("Dpkg::Options::=").concat(option);
        Self { command: self.command.arg("-o").arg(passed.as_str()) }
    }

    /// Repairs broken dependencies.
    pub fn fix_broken(self) -> (r: Self)
        ensures
            r@ == self@.arg("install"@).arg("-f"@),
    {
        Self { command: self.command.arg("install").arg("-f") }
    }

    /// Answers yes to every question.
    pub fn force(self) -> (r: Self)
        ensures
            r@ == self@.arg("-y"@),
    {
        Self { command: self.command.arg("-y") }
    }

    /// Passes `--force-breaks` on to `dpkg`.
    pub fn force_breaks(self) -> (r: Self)
        ensures
            r@ == self@.arg("-o"@).arg("Dpkg::Options::="@ + "--force-breaks"@),
    {
        self.dpkg_option("--force-breaks")
    }

    /// Passes `--force-confdef` on to `dpkg`.
    pub fn force_confdef(self) -> (r: Self)
        ensures
            r@ == self@.arg("-o"@).arg("Dpkg::Options::="@ + "--force-confdef"@),
    {
        self.dpkg_option("--force-confdef")
    }

    /// Passes `--force-conflicts` on to `dpkg`.
    pub fn force_conflicts(self) -> (r: Self)
        ensures
            r@ == self@.arg("-o"@).arg("Dpkg::Options::="@ + "--force-conflicts"@),
    {
        self.dpkg_option("--force-conflicts")
    }

    /// Passes `--force-confold` on to `dpkg`.
    pub fn force_confold(self) -> (r: Self)
        ensures
            r@ == self@.arg("-o"@).arg("Dpkg::Options::="@ + "--force-confold"@),
    {
        self.dpkg_option("--force-confold")
    }

    /// Passes `--force-depends` on to `dpkg`.
    pub fn force_depends(self) -> (r: Self)
        ensures
            r@ == self@.arg("-o"@).arg("Dpkg::Options::="@ + "--force-depends"@),
    {
        self.dpkg_option("--force-depends")
    }

    /// Passes `--force-depends-version` on to `dpkg`.
    pub fn force_depends_version(self) -> (r: Self)
        ensures
            r@ == self@.arg("-o"@).arg("Dpkg::Options::="@ + "--force-depends-version"@),
    {
        self.dpkg_option("--force-depends-version")
    }

    /// Passes `--force-overwrite` on to `dpkg`.
    pub fn force_overwrite(self) -> (r: Self)
        ensures
            r@ == self@.arg("-o"@).arg("Dpkg::Options::="@ + "--force-overwrite"@),
    {
        self.dpkg_option("--force-overwrite")
    }

    /// The command line that installs `packages`.
    pub fn install(self, packages: &[String]) -> (r: Self)
        ensures
            r@ == self@.arg("install"@).args(texts(packages@)),
    {
        Self { command: self.command.arg("install").args(packages) }
    }

    /// Marks what is installed as installed automatically.
    pub fn mark_auto(self) -> (r: Self)
        ensures
            r@ == self@.arg("--mark-auto"@),
    {
        Self { command: self.command.arg("--mark-auto") }
    }

    /// Keeps `apt-get` from asking questions.
    pub fn noninteractive(self) -> (r: Self)
        ensures
            r@ == self@.env("DEBIAN_FRONTEND"@, "noninteractive"@),
    {
        Self { command: self.command.env("DEBIAN_FRONTEND", "noninteractive") }
    }

    /// The command line that refreshes the package lists.
    pub fn update(self) -> (r: Self)
        ensures
            r@ == self@.arg("update"@),
    {
        Self { command: self.command.arg("update") }
    }

    /// Only prints what would be done.
    pub fn simulate(self) -> (r: Self)
        ensures
            r@ == self@.arg("-s"@),
    {
        Self { command: self.command.arg("-s") }
    }

    /// The command line that upgrades every package.
    pub fn upgrade(self) -> (r: Self)
        ensures
            r@ == self@.arg("full-upgrade"@),
    {
        Self { command: self.command.arg("full-upgrade") }
    }

    /// The command line that upgrades every package and reports its progress.
    pub fn stream_upgrade(self) -> (r: Self)
        ensures
            r@ == self@.arg("--show-progress"@).arg("full-upgrade"@),
    {
        Self { command: self.command.arg("--show-progress").arg("full-upgrade") }
    }

    /// The command line that removes `packages`.
    pub fn remove(self, packages: &[String]) -> (r: Self)
        ensures
            r@ == self@.arg("remove"@).args(texts(packages@)),
    {
        Self { command: self.command.arg("remove").args(packages) }
    }

    /// The command line that prints the files that `command` would download.
    pub fn fetch_uris(self, command: &[String]) -> (r: Self)
        ensures
            r@ == self@.arg("--print-uris"@).args(texts(command@)),
    {
        Self { command: self.command.arg("--print-uris").args(command) }
    }

    /// The command line that refreshes the package lists, for a caller that reads its output.
    pub fn stream_update(self) -> (r: Self)
        ensures
            r@ == self@.arg("update"@),
    {
        Self { command: self.command.arg("update") }
    }
}

/// The repository that a line of `apt-get update` reports as failed: the second and
/// third words of a line that starts with `Err`.
pub open spec fn bad_ppa(line: Seq<char>) -> Option<(Seq<char>, Seq<char>)> {
    if "Err"@.is_prefix_of(line) {
        match (text::nth_word(line, 1, true), text::nth_word(line, 2, true)) {
            (Some((a, b)), Some((c, d))) => Some((line.subrange(a, b), line.subrange(c, d))),
            _ => None,
        }
    } else {
        None
    }
}

impl BadPPA {
    /// Reads a failed repository from a line of `apt-get update`.
    pub fn parse(line: &str) -> (r: Option<BadPPA>)
        ensures
            match r {
                Some(ppa) => bad_ppa(line@) == Some((ppa.url@, ppa.pocket@)),
                None => bad_ppa(line@) is None,
            },
    {
        let owned = text::to_chars(line);
        let chars = owned.as_slice();
        if text::prefix_len(chars, "Err").is_none() {
            return None;
        }
        let (a, b) = match text::word(chars, 1, true) {
            Some(bounds) => bounds,
            None => {
                return None;
            },
        };
        let (c, d) = match text::word(chars, 2, true) {
            Some(bounds) => bounds,
            None => {
                return None;
            },
        };
        Some(
            BadPPA {
                url: line.substring_char(a, b).to_owned(),
                pocket: line.substring_char(c, d).to_owned(),
            },
        )
    }
}

/// The views of a list of requests.
pub open spec fn requests_view(requests: Seq<Request>) -> Seq<RequestView> {
    Seq::new(requests.len(), |i: int| requests[i]@)
}

/// Whether one of `requests` has the URI `uri`.
pub open spec fn has_uri(requests: Seq<RequestView>, uri: Seq<char>) -> bool {
    exists|j: int| 0 <= j < requests.len() && (#[trigger] requests[j]).uri == uri
}

/// The requests that the output of `apt-get --print-uris` holds. Only the lines that
/// start with a single quote are read. The first line that cannot be read decides
/// the error. Of several requests with one URI the first is kept.
pub open spec fn collect_requests(lines: Seq<Seq<char>>) -> Result<
    Seq<RequestView>,
    RequestErrorView,
>
    decreases lines.len(),
{
    if lines.len() == 0 {
        Ok(Seq::empty())
    } else {
        match collect_requests(lines.drop_last()) {
            Err(error) => Err(error),
            Ok(found) => if !(lines.last().len() > 0 && lines.last()[0] == '\'') {
                Ok(found)
            } else {
                match parse_line(lines.last()) {
                    Err(error) => Err(error),
                    Ok(request) => if has_uri(found, request.uri) {
                        Ok(found)
                    } else {
                        Ok(found.push(request))
                    },
                }
            },
        }
    }
}

/// Whether one of `requests` has the URI `uri`.
fn holds_uri(requests: &Vec<Request>, uri: &String) -> (r: bool)
    ensures
        r == has_uri(requests_view(requests@), uri@),
{
    let n = requests.len();
    let mut i: usize = 0;
    while i < n
        invariant
            n == requests@.len(),
            i <= n,
            forall|j: int| 0 <= j < i ==> (#[trigger] requests_view(requests@)[j]).uri != uri@,
        decreases n - i,
    {
        if requests[i].uri == *uri {
            proof {
                assert(requests_view(requests@)[i as int].uri == uri@);
            }
            return true;
        }
        i += 1;
    }
    false
}

/// Reads the requests in the output of `apt-get --print-uris`, given line by line.
pub fn read_uris(lines: &[String]) -> (r: Result<Vec<Request>, RequestError>)
    ensures
        match r {
            Ok(requests) => collect_requests(texts(lines@)) == Ok::<
                Seq<RequestView>,
                RequestErrorView,
            >(requests_view(requests@)),
            Err(error) => collect_requests(texts(lines@)) == Err::<
                Seq<RequestView>,
                RequestErrorView,
            >(error@),
        },
{
    let n = lines.len();
    let mut found: Vec<Request> = Vec::new();
    let mut i: usize = 0;
    proof {
        assert(texts(lines@).take(0) =~= Seq::<Seq<char>>::empty());
        assert(requests_view(found@) =~= Seq::<RequestView>::empty());
    }
    while i < n
        invariant
            n == lines@.len(),
            i <= n,
            collect_requests(texts(lines@).take(i as int)) == Ok::<
                Seq<RequestView>,
                RequestErrorView,
            >(requests_view(found@)),
        decreases n - i,
    {
        let ghost all = texts(lines@);
        proof {
            assert(all.take(i + 1).drop_last() =~= all.take(i as int));
            assert(all.take(i + 1).last() == lines@[i as int]@);
        }
        let line = lines[i].as_str();
        let chars = text::to_chars(line);
        if chars.len() > 0 && chars[0] == '\'' {
            match Request::parse(line) {
                Err(error) => {
                    proof {
                        lemma_error_stays(all, i + 1);
                        assert(all.take(n as int) =~= all);
                    }
                    return Err(error);
                },
                Ok(request) => {
                    if !holds_uri(&found, &request.uri) {
                        let ghost before = found@;
                        found.push(request);
                        proof {
                            assert(requests_view(found@) =~= requests_view(before).push(request@));
                        }
                    }
                },
            }
        }
        i += 1;
    }
    proof {
        assert(texts(lines@).take(n as int) =~= texts(lines@));
    }
    Ok(found)
}

/// Once a line cannot be read, the lines after it do not matter.
pub proof fn lemma_error_stays(lines: Seq<Seq<char>>, upto: int)
    requires
        0 <= upto <= lines.len(),
        collect_requests(lines.take(upto)) is Err,
    ensures
        collect_requests(lines) == collect_requests(lines.take(upto)),
    decreases lines.len() - upto,
{
    if upto < lines.len() {
        assert(lines.drop_last().take(upto) =~= lines.take(upto));
        lemma_error_stays(lines.drop_last(), upto);
    } else {
        assert(lines.take(upto) =~= lines);
    }
}

/// No two of the requests that are read from the output have the same URI.
pub proof fn lemma_requests_are_distinct(lines: Seq<Seq<char>>)
    ensures
        collect_requests(lines) matches Ok(found) ==> forall|i: int, j: int|
            0 <= i < j < found.len() ==> (#[trigger] found[i]).uri != (#[trigger] found[j]).uri,
    decreases lines.len(),
{
    if lines.len() > 0 {
        lemma_requests_are_distinct(lines.drop_last());
    }
}

} // verus!
