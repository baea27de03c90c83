//! Command lines of `apt-cache`, and what `apt-cache` prints: policies and
//! dependencies.

use crate::command::texts;
use crate::command::Invocation;
use crate::command::InvocationView;
use crate::text;
use vstd::prelude::*;
use vstd::slice::slice_subrange;
use vstd::string::StringExecFns;

verus! {

/// A version of a package, with the sources that offer it.
#[derive(Debug, Clone)]
pub struct VersionSources {
    pub version: String,
    pub sources: Vec<String>,
}

/// What `apt-cache policy` says of one package. The version table lists each version
/// once, in the order in which the versions were first seen.
#[derive(Debug, Clone)]
pub struct Policy {
    pub package: String,
    pub installed: String,
    pub candidate: String,
    pub version_table: Vec<VersionSources>,
}

/// What a [`VersionSources`] holds, as a mathematical value.
pub struct VersionSourcesView {
    pub version: Seq<char>,
    pub sources: Seq<Seq<char>>,
}

/// What a [`Policy`] holds, as a mathematical value.
pub struct PolicyView {
    pub package: Seq<char>,
    pub installed: Seq<char>,
    pub candidate: Seq<char>,
    pub version_table: Seq<VersionSourcesView>,
}

impl View for VersionSources {
    type V = VersionSourcesView;

    open spec fn view(&self) -> VersionSourcesView {
        VersionSourcesView { version: self.version@, sources: texts(self.sources@) }
    }
}

/// The views of the entries of a version table.
pub open spec fn table_view(table: Seq<VersionSources>) -> Seq<VersionSourcesView> {
    Seq::new(table.len(), |i: int| table[i]@)
}

impl View for Policy {
    type V = PolicyView;

    open spec fn view(&self) -> PolicyView {
        PolicyView {
            package: self.package@,
            installed: self.installed@,
            candidate: self.candidate@,
            version_table: table_view(self.version_table@),
        }
    }
}

/// The views of a list of policies.
pub open spec fn policies_view(policies: Seq<Policy>) -> Seq<PolicyView> {
    Seq::new(policies.len(), |i: int| policies[i]@)
}

/// The index of the first entry of `table` for `version` at or after `from`; the
/// length of the table if there is none.
pub open spec fn position_of(table: Seq<VersionSourcesView>, version: Seq<char>, from: int) -> int
    decreases table.len() - from,
{
    if 0 <= from < table.len() && table[from].version != version {
        position_of(table, version, from + 1)
    } else {
        from
    }
}

/// `table` with `source` added to the sources of `version`: at the end of the entry
/// that the version has, or in a new entry at the end of the table.
pub open spec fn add_source(
    table: Seq<VersionSourcesView>,
    version: Seq<char>,
    source: Seq<char>,
) -> Seq<VersionSourcesView> {
    let at = position_of(table, version, 0);
    if at < table.len() {
        table.update(
            at,
            VersionSourcesView { version: table[at].version, sources: table[at].sources.push(source) },
        )
    } else {
        table.push(VersionSourcesView { version, sources: seq![source] })
    }
}

/// Whether no two entries of `table` are for the same version.
pub open spec fn distinct_versions(table: Seq<VersionSourcesView>) -> bool {
    forall|i: int, j: int|
        0 <= i < j < table.len() ==> (#[trigger] table[i]).version != (#[trigger] table[j]).version
}

pub proof fn lemma_position_of(table: Seq<VersionSourcesView>, version: Seq<char>, from: int)
    requires
        0 <= from <= table.len(),
    ensures
        from <= position_of(table, version, from) <= table.len(),
        position_of(table, version, from) < table.len() ==> table[position_of(
            table,
            version,
            from,
        )].version == version,
        forall|k: int|
            from <= k < position_of(table, version, from) ==> (#[trigger] table[k]).version
                != version,
    decreases table.len() - from,
{
    if from < table.len() && table[from].version != version {
        lemma_position_of(table, version, from + 1);
    }
}

/// Adding a source keeps a table free of repeated versions.
pub proof fn lemma_add_source_keeps_distinct(
    table: Seq<VersionSourcesView>,
    version: Seq<char>,
    source: Seq<char>,
)
    requires
        distinct_versions(table),
    ensures
        distinct_versions(add_source(table, version, source)),
{
    lemma_position_of(table, version, 0);
    let after = add_source(table, version, source);
    assert forall|i: int, j: int| 0 <= i < j < after.len() implies (#[trigger] after[i]).version != (
    #[trigger] after[j]).version by {
        if position_of(table, version, 0) < table.len() {
            assert(after[i].version == table[i].version);
            assert(after[j].version == table[j].version);
        } else if j < table.len() {
            assert(after[i] == table[i]);
            assert(after[j] == table[j]);
        } else {
            assert(after[i] == table[i]);
        }
    }
}

/// The name of the package that a heading line gives: the line without the colon
/// at its end.
pub open spec fn package_name(line: Seq<char>) -> Seq<char> {
    if line.len() > 0 && line.last() == ':' {
        line.drop_last()
    } else {
        line
    }
}

/// The second word of `s`, by ASCII whitespace.
pub open spec fn second_word(s: Seq<char>) -> Option<Seq<char>> {
    match text::nth_word(s, 1, true) {
        Some((start, end)) => Some(s.subrange(start, end)),
        None => None,
    }
}

/// A reader of the output of `apt-cache policy`, between two lines.
pub struct PolicyParser {
    /// What has been read of the package at hand.
    pub policy: Policy,
    /// Whether the lines at hand belong to a version table.
    pub in_table: bool,
    /// The version whose sources the lines at hand list.
    pub current_version: String,
}

/// What a [`PolicyParser`] holds, as a mathematical value.
pub struct ParserView {
    pub policy: PolicyView,
    pub in_table: bool,
    pub current_version: Seq<char>,
}

impl View for PolicyParser {
    type V = ParserView;

    open spec fn view(&self) -> ParserView {
        ParserView {
            policy: self.policy@,
            in_table: self.in_table,
            current_version: self.current_version@,
        }
    }
}

/// The reader before the first line.
pub open spec fn initial_parser() -> ParserView {
    ParserView {
        policy: PolicyView {
            package: Seq::empty(),
            installed: Seq::empty(),
            candidate: Seq::empty(),
            version_table: Seq::empty(),
        },
        in_table: false,
        current_version: Seq::empty(),
    }
}

/// The reader after a line outside a version table. An empty line says nothing. A
/// line that starts with no space names the package. Of the other lines, trimmed,
/// one that starts with `I` gives the installed version in its second word, one
/// that starts with `C` the candidate, and one that starts with `V` opens the table.
pub open spec fn after_heading(parser: ParserView, line: Seq<char>) -> ParserView {
    let detail = text::trimmed(line);
    if line.len() == 0 {
        parser
    } else if line[0] != ' ' {
        ParserView { policy: PolicyView { package: package_name(line), ..parser.policy }, ..parser }
    } else if detail.len() > 0 && detail[0] == 'I' {
        match second_word(detail) {
            Some(version) => ParserView {
                policy: PolicyView { installed: version, ..parser.policy },
                ..parser
            },
            None => parser,
        }
    } else if detail.len() > 0 && detail[0] == 'C' {
        match second_word(detail) {
            Some(version) => ParserView {
                policy: PolicyView { candidate: version, ..parser.policy },
                ..parser
            },
            None => parser,
        }
    } else if detail.len() > 0 && detail[0] == 'V' {
        ParserView { in_table: true, current_version: "unknown"@, ..parser }
    } else {
        parser
    }
}

/// Whether a line inside a version table still belongs to the table: it starts with
/// three spaces, or with the mark of the installed version.
pub open spec fn continues_table(line: Seq<char>) -> bool {
    "      "@.is_prefix_of(line) || " *** "@.is_prefix_of(line) || "   "@.is_prefix_of(line)
}

/// The reader after a line inside a version table. A line that starts with six spaces
/// names a source of the version at hand. A line that starts with ` *** ` or with
/// three spaces names the next version. Any other line closes the table, starts the
/// next package with the versions that were last read as installed and candidate,
/// and names it.
pub open spec fn after_table_line(parser: ParserView, line: Seq<char>) -> ParserView {
    if let Some(rest) = text::strip_prefix(line, "      "@) {
        ParserView {
            policy: PolicyView {
                version_table: add_source(
                    parser.policy.version_table,
                    parser.current_version,
                    text::trimmed(rest),
                ),
                ..parser.policy
            },
            ..parser
        }
    } else if let Some(rest) = text::strip_prefix(line, " *** "@) {
        ParserView { current_version: text::trimmed(rest), ..parser }
    } else if let Some(rest) = text::strip_prefix(line, "   "@) {
        ParserView { current_version: text::trimmed(rest), ..parser }
    } else {
        ParserView {
            policy: PolicyView {
                package: package_name(line),
                installed: parser.policy.installed,
                candidate: parser.policy.candidate,
                version_table: Seq::empty(),
            },
            in_table: false,
            ..parser
        }
    }
}

/// The reader after `line`.
pub open spec fn parser_after(parser: ParserView, line: Seq<char>) -> ParserView {
    if parser.in_table {
        after_table_line(parser, line)
    } else {
        after_heading(parser, line)
    }
}

/// The policy that `line` completes, if it closes a version table.
pub open spec fn completed(parser: ParserView, line: Seq<char>) -> Option<PolicyView> {
    if parser.in_table && !continues_table(line) {
        Some(parser.policy)
    } else {
        None
    }
}

/// The reader after the lines of `lines`, in order.
pub open spec fn after_lines(parser: ParserView, lines: Seq<Seq<char>>) -> ParserView
    decreases lines.len(),
{
    if lines.len() == 0 {
        parser
    } else {
        parser_after(after_lines(parser, lines.drop_last()), lines.last())
    }
}

/// The policies that the lines of `lines` complete, in order.
pub open spec fn completed_by(parser: ParserView, lines: Seq<Seq<char>>) -> Seq<PolicyView>
    decreases lines.len(),
{
    if lines.len() == 0 {
        Seq::empty()
    } else {
        match completed(after_lines(parser, lines.drop_last()), lines.last()) {
            Some(policy) => completed_by(parser, lines.drop_last()).push(policy),
            None => completed_by(parser, lines.drop_last()),
        }
    }
}

/// The policies in the output of `apt-cache policy`: those that a line completes,
/// then the one at hand when the output ends.
pub open spec fn all_policies(lines: Seq<Seq<char>>) -> Seq<PolicyView> {
    completed_by(initial_parser(), lines).push(after_lines(initial_parser(), lines).policy)
}

/// The name of the package that a heading line gives.
fn package_of(chars: &[char]) -> (name: String)
    ensures
        name@ == package_name(chars@),
{
    let n = chars.len();
    if n > 0 && chars[n - 1] == ':' {
        proof {
            assert(chars@.drop_last() =~= chars@.subrange(0, n - 1));
        }
        text::string_of(chars, 0, n - 1)
    } else {
        proof {
            assert(chars@ =~= chars@.subrange(0, n as int));
        }
        text::string_of(chars, 0, n)
    }
}

/// The second word of the text, by ASCII whitespace.
fn second_word_of(chars: &[char]) -> (r: Option<String>)
    ensures
        match r {
            Some(word) => second_word(chars@) == Some(word@),
            None => second_word(chars@) is None,
        },
{
    match text::word(chars, 1, true) {
        Some((start, end)) => Some(text::string_of(chars, start, end)),
        None => None,
    }
}

/// The text after its first `skip` characters, trimmed.
fn trimmed_rest(chars: &[char], skip: usize) -> (r: String)
    requires
        skip <= chars@.len(),
    ensures
        r@ == text::trimmed(chars@.skip(skip as int)),
{
    let rest = slice_subrange(chars, skip, chars.len());
    proof {
        assert(rest@ =~= chars@.skip(skip as int));
    }
    let (start, end) = text::trim_bounds(rest);
    text::string_of(rest, start, end)
}

/// Adds `source` to the sources of `version` in `table`.
fn push_source(table: &mut Vec<VersionSources>, version: &String, source: String)
    ensures
        table_view(final(table)@) == add_source(table_view(old(table)@), version@, source@),
{
    let ghost before = table_view(table@);
    let n = table.len();
    let mut at: usize = 0;
    while at < n && table[at].version != *version
        invariant
            n == table@.len(),
            at <= n,
            table_view(table@) == before,
            position_of(before, version@, 0) == position_of(before, version@, at as int),
        decreases n - at,
    {
        proof {
            assert(before[at as int].version == table@[at as int].version@);
        }
        at += 1;
    }
    if at < n {
        proof {
            assert(before[at as int].version == table@[at as int].version@);
        }
        let mut entry = table.remove(at);
        let ghost sources = texts(entry.sources@);
        entry.sources.push(source);
        proof {
            assert(texts(entry.sources@) =~= sources.push(source@));
        }
        table.insert(at, entry);
        proof {
            assert(table_view(table@) =~= add_source(before, version@, source@));
        }
    } else {
        let mut sources: Vec<String> = Vec::new();
        sources.push(source);
        table.push(VersionSources { version: version.clone(), sources });
        proof {
            assert(texts(sources@) =~= seq![source@]);
            assert(table_view(table@) =~= add_source(before, version@, source@));
        }
    }
}

impl PolicyParser {
    /// A reader that has read nothing.
    pub fn new() -> (parser: PolicyParser)
        ensures
            parser@ == initial_parser(),
    {
        let parser = PolicyParser {
            policy: Policy {
                package: String::new(),
                installed: String::new(),
                candidate: String::new(),
                version_table: Vec::new(),
            },
            in_table: false,
            current_version: String::new(),
        };
        proof {
            assert(parser@.policy.version_table =~= Seq::empty());
        }
        parser
    }

    /// Reads a line outside a version table.
    fn read_heading(&mut self, chars: &[char])
        requires
            !old(self).in_table,
        ensures
            final(self)@ == after_heading(old(self)@, chars@),
    {
        if chars.len() == 0 {
            return ;
        }
        if chars[0] != ' ' {
            self.policy.package = package_of(chars);
            return ;
        }
        let (start, end) = text::trim_bounds(chars);
        let detail = slice_subrange(chars, start, end);
        if detail.len() == 0 {
            return ;
        }
        if detail[0] == 'I' {
            if let Some(version) = second_word_of(detail) {
                self.policy.installed = version;
            }
        } else if detail[0] == 'C' {
            if let Some(version) = second_word_of(detail) {
                self.policy.candidate = version;
            }
        } else if detail[0] == 'V' {
            self.in_table = true;
            self.current_version = String::from_str("unknown");
        }
    }

    /// Reads a line inside a version table.
    fn read_table_line(&mut self, chars: &[char]) -> (done: Option<Policy>)
        requires
            old(self).in_table,
        ensures
            final(self)@ == after_table_line(old(self)@, chars@),
            match done {
                Some(policy) => completed(old(self)@, chars@) == Some(policy@),
                None => completed(old(self)@, chars@) is None,
            },
    {
        if let Some(skip) = text::prefix_len(chars, "      ") {
            let source = trimmed_rest(chars, skip);
            push_source(&mut self.policy.version_table, &self.current_version, source);
            None
        } else if let Some(skip) = text::prefix_len(chars, " *** ") {
            self.current_version = trimmed_rest(chars, skip);
            None
        } else if let Some(skip) = text::prefix_len(chars, "   ") {
            self.current_version = trimmed_rest(chars, skip);
            None
        } else {
            let mut next = Policy {
                package: package_of(chars),
                installed: self.policy.installed.clone(),
                candidate: self.policy.candidate.clone(),
                version_table: Vec::new(),
            };
            proof {
                assert(next@.version_table =~= Seq::empty());
            }
            std::mem::swap(&mut self.policy, &mut next);
            self.in_table = false;
            Some(next)
        }
    }

    /// Reads the next line, and returns the policy that the line completes, if any.
    pub fn feed(&mut self, line: &str) -> (done: Option<Policy>)
        ensures
            final(self)@ == parser_after(old(self)@, line@),
            match done {
                Some(policy) => completed(old(self)@, line@) == Some(policy@),
                None => completed(old(self)@, line@) is None,
            },
    {
        let chars = text::to_chars(line);
        if self.in_table {
            self.read_table_line(chars.as_slice())
        } else {
            self.read_heading(chars.as_slice());
            None
        }
    }

    /// The policy at hand when the output ends.
    pub fn finish(self) -> (policy: Policy)
        ensures
            policy@ == self@.policy,
    {
        self.policy
    }
}

/// Reads the policies in the output of `apt-cache policy`, given line by line.
pub fn policies(lines: &[String]) -> (found: Vec<Policy>)
    ensures
        policies_view(found@) == all_policies(texts(lines@)),
{
    let n = lines.len();
    let mut parser = PolicyParser::new();
    let mut found: Vec<Policy> = Vec::new();
    let mut i: usize = 0;
    let ghost all = texts(lines@);
    proof {
        assert(all.take(0) =~= Seq::<Seq<char>>::empty());
        assert(policies_view(found@) =~= completed_by(initial_parser(), all.take(0)));
    }
    while i < n
        invariant
            n == lines@.len(),
            i <= n,
            all == texts(lines@),
            parser@ == after_lines(initial_parser(), all.take(i as int)),
            policies_view(found@) == completed_by(initial_parser(), all.take(i as int)),
        decreases n - i,
    {
        proof {
            assert(all.take(i + 1).drop_last() =~= all.take(i as int));
            assert(all.take(i + 1).last() == lines@[i as int]@);
        }
        let ghost before = found@;
        match parser.feed(lines[i].as_str()) {
            Some(policy) => {
                found.push(policy);
                proof {
                    assert(policies_view(found@) =~= policies_view(before).push(policy@));
                }
            },
            None => {},
        }
        i += 1;
    }
    let ghost before = found@;
    let last = parser.finish();
    found.push(last);
    proof {
        assert(all.take(n as int) =~= all);
        assert(policies_view(found@) =~= policies_view(before).push(last@));
    }
    found
}

/// Reading never puts a version into a table twice.
pub proof fn lemma_tables_list_versions_once(parser: ParserView, line: Seq<char>)
    requires
        distinct_versions(parser.policy.version_table),
    ensures
        distinct_versions(parser_after(parser, line).policy.version_table),
{
    if parser.in_table {
        if let Some(rest) = text::strip_prefix(line, "      "@) {
            lemma_add_source_keeps_distinct(
                parser.policy.version_table,
                parser.current_version,
                text::trimmed(rest),
            );
        }
    }
}

/// A command line of `apt-cache`.
#[derive(Debug, Clone)]
pub struct AptCache {
    pub command: Invocation,
}

impl View for AptCache {
    type V = InvocationView;

    open spec fn view(&self) -> InvocationView {
        self.command@
    }
}

impl AptCache {
    /// `apt-cache`, with `LANG` set to `C` so that its output comes in English.
    pub fn new() -> (r: Self)
        ensures
            r@ == (InvocationView {
                program: "apt-cache"@,
                args: Seq::empty(),
                envs: seq![("LANG"@, "C"@)],
            }),
    {
        let command = Invocation::new("apt-cache").env("LANG", "C");
        proof {
            assert(command@.envs =~= seq![("LANG"@, "C"@)]);
        }
        Self { command }
    }

    /// The command line that lists what `packages` depend on.
    pub fn depends(self, packages: &[String]) -> (r: Self)
        ensures
            r@ == self@.arg("depends"@).args(texts(packages@)),
    {
        Self { command: self.command.arg("depends").args(packages) }
    }

    /// The command line that lists what depends on `packages`.
    pub fn rdepends(self, packages: &[String]) -> (r: Self)
        ensures
            r@ == self@.arg("rdepends"@).args(texts(packages@)),
    {
        Self { command: self.command.arg("rdepends").args(packages) }
    }

    /// The command line that prints the policies of `packages`.
    pub fn policy(self, packages: &[String]) -> (r: Self)
        ensures
            r@ == self@.arg("policy"@).args(texts(packages@)).env("LANG"@, "C"@),
    {
        Self { command: self.command.arg("policy").args(packages).env("LANG", "C") }
    }

    /// The packages that pre-depend on `package`, read from the output of
    /// `apt-cache depends` for the packages that depend on it.
    pub fn predepends_of(output: &str, package: &str) -> (r: Result<Vec<String>, std::io::Error>)
        ensures
            r is Ok <==> text::lines_of(output@).len() > 0,
            r matches Ok(found) ==> texts(found@) == predepending(
                text::lines_of(output@),
                1,
                text::trimmed(text::lines_of(output@)[0]),
                false,
                package@,
            ),
    {
        let mut iter = match PreDependsIter::new(output, package) {
            Ok(iter) => iter,
            Err(error) => {
                return Err(error);
            },
        };
        let mut found: Vec<String> = Vec::new();
        let ghost start = iter@;
        proof {
            assert(texts(found@) =~= Seq::<Seq<char>>::empty());
        }
        loop
            invariant
                iter.wf(),
                text::lines_of(output@).len() > 0,
                start.rest() == predepending(
                    text::lines_of(output@),
                    1,
                    text::trimmed(text::lines_of(output@)[0]),
                    false,
                    package@,
                ),
                texts(found@) + iter@.rest() == start.rest(),
            decreases iter@.lines.len() - iter@.position,
        {
            let ghost before = iter@;
            let ghost earlier = found@;
            match iter.next() {
                Some(name) => {
                    found.push(name);
                    proof {
                        lemma_next_is_first_of_rest(before, false);
                        assert(texts(found@) =~= texts(earlier).push(name@));
                        assert(texts(found@) + iter@.rest() =~= texts(earlier) + before.rest());
                    }
                },
                None => {
                    proof {
                        lemma_next_is_first_of_rest(before, false);
                        assert(texts(found@) + Seq::<Seq<char>>::empty() =~= texts(found@));
                    }
                    return Ok(found);
                },
            }
        }
    }
}

/// The packages that depend on the one asked for, read from the output of
/// `apt-cache rdepends`: every line after the second, without the whitespace at its
/// start.
pub open spec fn reverse_depends(lines: Seq<Seq<char>>) -> Seq<Seq<char>> {
    Seq::new(
        if lines.len() >= 2 {
            (lines.len() - 2) as nat
        } else {
            0
        },
        |i: int| lines[i + 2].skip(text::trimmed_start(lines[i + 2])),
    )
}

/// Reads the packages in the output of `apt-cache rdepends`, given line by line.
pub fn stream_packages(lines: &[String]) -> (packages: Vec<String>)
    ensures
        texts(packages@) == reverse_depends(texts(lines@)),
{
    let n = lines.len();
    let mut packages: Vec<String> = Vec::new();
    if n < 2 {
        proof {
            assert(texts(packages@) =~= reverse_depends(texts(lines@)));
        }
        return packages;
    }
    let mut i: usize = 2;
    while i < n
        invariant
            n == lines@.len(),
            2 <= i <= n,
            packages@.len() == i - 2,
            forall|k: int|
                0 <= k < i - 2 ==> (#[trigger] packages@[k])@ == reverse_depends(texts(lines@))[k],
        decreases n - i,
    {
        let chars = text::to_chars(lines[i].as_str());
        let start = text::trim_start_index(chars.as_slice());
        let package = text::string_of(chars.as_slice(), start, chars.len());
        proof {
            assert(chars@.subrange(start as int, chars@.len() as int) =~= chars@.skip(
                start as int,
            ));
        }
        packages.push(package);
        i += 1;
    }
    proof {
        assert(texts(packages@) =~= reverse_depends(texts(lines@)));
    }
    packages
}

/// Calls `std::io::Error::new` with the kind `NotFound` and `message`.
#[verifier::external_body]
fn not_found(message: &str) -> std::io::Error {
    std::io::Error::new(std::io::ErrorKind::NotFound, message)
}

/// A walk over the output of `apt-cache depends` that picks the packages which
/// pre-depend on a given one.
///
/// The output names a package on a line that starts with no space, and lists what
/// it depends on below, each on a line that starts with a space. A package is
/// reported when the next package's name is read, so the last package of the output
/// is never reported.
pub struct PreDependsIter {
    /// The lines of the output.
    pub lines: Vec<Vec<char>>,
    /// The number of lines that have been read.
    pub position: usize,
    /// The package that the reported ones pre-depend on.
    pub predepend: Vec<char>,
    /// The package whose dependencies the lines at hand list.
    pub active: Vec<char>,
}

/// What a [`PreDependsIter`] holds, as a mathematical value.
pub struct PreDependsView {
    pub lines: Seq<Seq<char>>,
    pub position: int,
    pub predepend: Seq<char>,
    pub active: Seq<char>,
}

/// The texts of a list of lines.
pub open spec fn line_texts(lines: Seq<Vec<char>>) -> Seq<Seq<char>> {
    Seq::new(lines.len(), |i: int| lines[i]@)
}

impl View for PreDependsIter {
    type V = PreDependsView;

    open spec fn view(&self) -> PreDependsView {
        PreDependsView {
            lines: line_texts(self.lines@),
            position: self.position as int,
            predepend: self.predepend@,
            active: self.active@,
        }
    }
}

/// Whether `line` lists a dependency: it starts with a space.
pub open spec fn is_indented(line: Seq<char>) -> bool {
    line.len() > 0 && line[0] == ' '
}

/// The packages that pre-depend on `predepend` in the lines of `lines` from
/// `position` on, where `active` is the package at hand and `found` says whether it
/// is already known to pre-depend.
pub open spec fn predepending(
    lines: Seq<Seq<char>>,
    position: int,
    active: Seq<char>,
    found: bool,
    predepend: Seq<char>,
) -> Seq<Seq<char>>
    decreases lines.len() - position,
{
    if position < 0 || position >= lines.len() {
        Seq::empty()
    } else if !is_indented(lines[position]) {
        let rest = predepending(
            lines,
            position + 1,
            text::trimmed(lines[position]),
            false,
            predepend,
        );
        if found {
            seq![active] + rest
        } else {
            rest
        }
    } else {
        predepending(
            lines,
            position + 1,
            active,
            found || lines[position] == "  PreDepends: "@ + predepend,
            predepend,
        )
    }
}

impl PreDependsView {
    /// The walk after one more line.
    pub open spec fn advanced(self) -> PreDependsView {
        if is_indented(self.lines[self.position]) {
            PreDependsView { position: self.position + 1, ..self }
        } else {
            PreDependsView {
                position: self.position + 1,
                active: text::trimmed(self.lines[self.position]),
                ..self
            }
        }
    }

    /// The next package that the walk reports, if any, and the walk after it;
    /// `found` says whether the package at hand is already known to pre-depend.
    pub open spec fn scan(self, found: bool) -> (Option<Seq<char>>, PreDependsView)
        decreases self.lines.len() - self.position,
    {
        if self.position < 0 || self.position >= self.lines.len() {
            (None, self)
        } else if !is_indented(self.lines[self.position]) {
            if found {
                (Some(self.active), self.advanced())
            } else {
                self.advanced().scan(false)
            }
        } else {
            self.advanced().scan(
                found || self.lines[self.position] == "  PreDepends: "@ + self.predepend,
            )
        }
    }

    /// Everything that the walk still reports.
    pub open spec fn rest(self) -> Seq<Seq<char>> {
        predepending(self.lines, self.position, self.active, false, self.predepend)
    }
}

/// What a walk reports next is the first of all that it still reports, and what it
/// reports after that is the rest. A walk that reports something has moved on.
pub proof fn lemma_next_is_first_of_rest(walk: PreDependsView, found: bool)
    requires
        0 <= walk.position <= walk.lines.len(),
    ensures
        predepending(walk.lines, walk.position, walk.active, found, walk.predepend) == match walk.scan(
            found,
        ).0 {
            Some(name) => seq![name] + walk.scan(found).1.rest(),
            None => Seq::<Seq<char>>::empty(),
        },
        walk.scan(found).1.lines == walk.lines,
        walk.scan(found).1.predepend == walk.predepend,
        walk.position <= walk.scan(found).1.position <= walk.lines.len(),
        walk.scan(found).0 is Some ==> walk.position < walk.scan(found).1.position,
    decreases walk.lines.len() - walk.position,
{
    if walk.position < walk.lines.len() {
        if !is_indented(walk.lines[walk.position]) {
            if !found {
                lemma_next_is_first_of_rest(walk.advanced(), false);
            }
        } else {
            lemma_next_is_first_of_rest(
                walk.advanced(),
                found || walk.lines[walk.position] == "  PreDepends: "@ + walk.predepend,
            );
        }
    }
}

impl PreDependsIter {
    /// No more lines have been read than there are.
    pub open spec fn wf(self) -> bool {
        self.position <= self.lines@.len()
    }

    /// Starts a walk over `output`, whose first line names the first package. Fails
    /// on an output without a line.
    pub fn new(output: &str, predepend: &str) -> (r: Result<Self, std::io::Error>)
        ensures
            r is Ok <==> text::lines_of(output@).len() > 0,
            r matches Ok(iter) ==> iter.wf() && iter@ == (PreDependsView {
                lines: text::lines_of(output@),
                position: 1,
                predepend: predepend@,
                active: text::trimmed(text::lines_of(output@)[0]),
            }),
    {
        let chars = text::to_chars(output);
        let lines = text::split_lines(chars.as_slice());
        if lines.len() == 0 {
            return Err(
                not_found(
                    "expected the first line of the output of apt-cache depends to be a package name",
                ),
            );
        }
        let (start, end) = text::trim_bounds(lines[0].as_slice());
        let mut active: Vec<char> = Vec::new();
        let mut k: usize = start;
        while k < end
            invariant
                lines@.len() > 0,
                start <= k <= end <= lines@[0]@.len(),
                active@ == lines@[0]@.subrange(start as int, k as int),
            decreases end - k,
        {
            active.push(lines[0][k]);
            proof {
                assert(active@ =~= lines@[0]@.subrange(start as int, k + 1));
            }
            k += 1;
        }
        let iter = PreDependsIter { lines, position: 1, predepend: text::to_chars(predepend), active };
        proof {
            assert(iter@.lines =~= text::lines_of(output@));
        }
        Ok(iter)
    }

    /// The next package that pre-depends on the given one, if the output names one.
    pub fn next(&mut self) -> (r: Option<String>)
        requires
            old(self).wf(),
        ensures
            final(self).wf(),
            final(self)@ == old(self)@.scan(false).1,
            match r {
                Some(name) => old(self)@.scan(false).0 == Some(name@),
                None => old(self)@.scan(false).0 is None,
            },
    {
        let marker = text::to_chars("  PreDepends: ");
        let mut found = false;
        let n = self.lines.len();
        while self.position < n
            invariant
                n == self.lines@.len(),
                self.position <= n,
                self.lines == old(self).lines,
                self.predepend == old(self).predepend,
                marker@ == "  PreDepends: "@,
                old(self)@.scan(false) == self@.scan(found),
            decreases n - self.position,
        {
            let ghost before = self@;
            let at = self.position;
            proof {
                assert(before.lines[at as int] == self.lines@[at as int]@);
            }
            if self.lines[at].len() > 0 && self.lines[at][0] == ' ' {
                if !found && names_predepend(
                    self.lines[at].as_slice(),
                    marker.as_slice(),
                    self.predepend.as_slice(),
                ) {
                    found = true;
                }
                self.position = at + 1;
                proof {
                    assert(self@ == before.advanced());
                }
            } else {
                let (start, end) = text::trim_bounds(self.lines[at].as_slice());
                let mut name: Vec<char> = Vec::new();
                let mut k: usize = start;
                while k < end
                    invariant
                        at < self.lines@.len(),
                        start <= k <= end <= self.lines@[at as int]@.len(),
                        name@ == self.lines@[at as int]@.subrange(start as int, k as int),
                    decreases end - k,
                {
                    name.push(self.lines[at][k]);
                    proof {
                        assert(name@ =~= self.lines@[at as int]@.subrange(start as int, k + 1));
                    }
                    k += 1;
                }
                std::mem::swap(&mut self.active, &mut name);
                self.position = at + 1;
                proof {
                    assert(self@ == before.advanced());
                }
                if found {
                    let reported = text::string_of(name.as_slice(), 0, name.len());
                    proof {
                        assert(name@.subrange(0, name@.len() as int) =~= name@);
                    }
                    return Some(reported);
                }
            }
        }
        None
    }
}

/// Whether `line` is `marker` followed by `predepend` and nothing else.
fn names_predepend(line: &[char], marker: &[char], predepend: &[char]) -> (r: bool)
    ensures
        r == (line@ == marker@ + predepend@),
{
    if line.len() < marker.len() || line.len() - marker.len() != predepend.len() {
        return false;
    }
    let r = text::starts_with(line, marker) && text::matches_at(line, marker.len(), predepend);
    proof {
        if r {
            assert(line@ =~= marker@ + predepend@);
        } else if line@ == marker@ + predepend@ {
            assert(line@.subrange(0, marker@.len() as int) =~= marker@);
            assert(line@.subrange(marker@.len() as int, line@.len() as int) =~= predepend@);
        }
    }
    r
}

} // verus!
