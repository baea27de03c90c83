//! What `apt-cache policy`, `apt list --upgradable` and `apt -s dist-upgrade` say
//! about the packages of a system.

use crate::apt_cache::Policy;
use crate::apt_cache::VersionSources;
use crate::text;
use crate::version::compare_versions;
use crate::version::version_order;
use vstd::prelude::*;
use vstd::slice::slice_subrange;
use vstd::string::StrSliceExecFns;
use vstd::utf8::is_ascii_chars;

verus! {

/// A version is orphaned if its only source is the status file of `dpkg`.
pub open spec fn is_orphaned(sources: Seq<String>) -> bool {
    sources.len() == 1 && text::contains(sources[0]@, "/var/lib/dpkg/status"@)
}

/// The index of the first orphaned version among the first `upto` of `table`.
pub open spec fn first_orphaned(table: Seq<VersionSources>, upto: int) -> Option<int>
    decreases upto,
{
    if upto <= 0 {
        None
    } else {
        match first_orphaned(table, upto - 1) {
            Some(found) => Some(found),
            None => if is_orphaned(table[upto - 1].sources@) {
                Some(upto - 1)
            } else {
                None
            },
        }
    }
}

/// The versions of `table` that belong to a repository, in order.
pub open spec fn repository_texts(table: Seq<VersionSources>) -> Seq<Seq<char>>
    decreases table.len(),
{
    if table.len() == 0 {
        Seq::empty()
    } else if is_orphaned(table.last().sources@) {
        repository_texts(table.drop_last())
    } else {
        repository_texts(table.drop_last()).push(table.last().version@)
    }
}

/// The texts of a list of string slices.
pub open spec fn slice_texts(list: Seq<&str>) -> Seq<Seq<char>> {
    Seq::new(list.len(), |i: int| list[i]@)
}

/// The index of the greatest repository version among the first `upto` of `table`:
/// the first one, replaced in turn by each later one that orders after it.
pub open spec fn greatest_repository(table: Seq<VersionSources>, upto: int) -> Option<int>
    decreases upto,
{
    if upto <= 0 {
        None
    } else if is_orphaned(table[upto - 1].sources@) {
        greatest_repository(table, upto - 1)
    } else {
        match greatest_repository(table, upto - 1) {
            None => Some(upto - 1),
            Some(greatest) => if version_order(table[greatest].version@, table[upto - 1].version@)
                < 0 {
                Some(upto - 1)
            } else {
                Some(greatest)
            },
        }
    }
}

/// Whether every version of `table` is written in ASCII, as Debian versions are.
pub open spec fn ascii_versions(table: Seq<VersionSources>) -> bool {
    forall|i: int| 0 <= i < table.len() ==> is_ascii_chars(#[trigger] table[i].version@)
}

/// The repository version that a package can be downgraded to: the greatest one, if
/// the installed version is orphaned and orders after it.
pub open spec fn downgrade_of(policy: Policy) -> Option<int> {
    let table = policy.version_table@;
    match (first_orphaned(table, table.len() as int), greatest_repository(table, table.len() as int)) {
        (Some(local), Some(nonlocal)) => if version_order(
            table[local].version@,
            table[nonlocal].version@,
        ) > 0 {
            Some(nonlocal)
        } else {
            None
        },
        _ => None,
    }
}

/// The packages of `policies` that can be downgraded, each with the version to
/// downgrade to, in order.
pub open spec fn downgradable(policies: Seq<Policy>) -> Seq<(Seq<char>, Seq<char>)>
    decreases policies.len(),
{
    if policies.len() == 0 {
        Seq::empty()
    } else {
        let policy = policies.last();
        match downgrade_of(policy) {
            Some(nonlocal) => downgradable(policies.drop_last()).push(
                (policy.package@, policy.version_table@[nonlocal].version@),
            ),
            None => downgradable(policies.drop_last()),
        }
    }
}

/// Whether no version of a package belongs to a repository.
pub open spec fn is_remoteless(policy: Policy) -> bool {
    forall|i: int|
        0 <= i < policy.version_table@.len() ==> is_orphaned(
            (#[trigger] policy.version_table@[i]).sources@,
        )
}

/// The packages of `policies` that belong to no repository, in order.
pub open spec fn remoteless(policies: Seq<Policy>) -> Seq<Seq<char>>
    decreases policies.len(),
{
    if policies.len() == 0 {
        Seq::empty()
    } else if is_remoteless(policies.last()) {
        remoteless(policies.drop_last()).push(policies.last().package@)
    } else {
        remoteless(policies.drop_last())
    }
}

/// The texts of a list of strings.
pub open spec fn texts(list: Seq<String>) -> Seq<Seq<char>> {
    Seq::new(list.len(), |i: int| list[i]@)
}

/// The texts of a list of pairs of strings.
pub open spec fn text_pairs(list: Seq<(String, String)>) -> Seq<(Seq<char>, Seq<char>)> {
    Seq::new(list.len(), |i: int| (list[i].0@, list[i].1@))
}

/// It is orphaned if the only source is `/var/lib/dpkg/status`.
pub fn is_orphaned_version(sources: &[String]) -> (r: bool)
    ensures
        r == is_orphaned(sources@),
{
    if sources.len() != 1 {
        return false;
    }
    let source = text::to_chars(sources[0].as_str());
    let status = text::to_chars("/var/lib/dpkg/status");
    text::includes(source.as_slice(), status.as_slice())
}

/// The version of the package installed which has no repository.
pub fn orphaned_version(version_table: &[VersionSources]) -> (r: Option<&str>)
    ensures
        match r {
            Some(version) => first_orphaned(version_table@, version_table@.len() as int) matches Some(
                found,
            ) && version@ == version_table@[found].version@,
            None => first_orphaned(version_table@, version_table@.len() as int) is None,
        },
{
    let n = version_table.len();
    let mut i: usize = 0;
    while i < n
        invariant
            n == version_table@.len(),
            i <= n,
            first_orphaned(version_table@, i as int) is None,
        decreases n - i,
    {
        if is_orphaned_version(version_table[i].sources.as_slice()) {
            proof {
                lemma_first_orphaned_stays(version_table@, i + 1, n as int);
            }
            return Some(version_table[i].version.as_str());
        }
        i += 1;
    }
    None
}

/// Once an orphaned version is found, looking further finds the same one.
pub proof fn lemma_first_orphaned_stays(table: Seq<VersionSources>, found: int, upto: int)
    requires
        0 <= found <= upto,
        first_orphaned(table, found) is Some,
    ensures
        first_orphaned(table, upto) == first_orphaned(table, found),
    decreases upto - found,
{
    if found < upto {
        lemma_first_orphaned_stays(table, found, upto - 1);
    }
}

/// A list of package versions associated with a repository.
pub fn repository_versions(version_table: &[VersionSources]) -> (versions: Vec<&str>)
    ensures
        slice_texts(versions@) == repository_texts(version_table@),
{
    let n = version_table.len();
    let mut versions: Vec<&str> = Vec::new();
    let mut i: usize = 0;
    proof {
        assert(version_table@.take(0) =~= Seq::<VersionSources>::empty());
        assert(slice_texts(versions@) =~= repository_texts(version_table@.take(0)));
    }
    while i < n
        invariant
            n == version_table@.len(),
            i <= n,
            slice_texts(versions@) == repository_texts(version_table@.take(i as int)),
        decreases n - i,
    {
        let ghost before = versions@;
        proof {
            assert(version_table@.take(i + 1).drop_last() =~= version_table@.take(i as int));
            assert(version_table@.take(i + 1).last() == version_table@[i as int]);
        }
        if !is_orphaned_version(version_table[i].sources.as_slice()) {
            versions.push(version_table[i].version.as_str());
            proof {
                assert(slice_texts(versions@) =~= slice_texts(before).push(
                    version_table@[i as int].version@,
                ));
            }
        }
        i += 1;
    }
    proof {
        assert(version_table@.take(n as int) =~= version_table@);
    }
    versions
}

/// Which of two versions to keep as the greater, given how they order: the second
/// if the first orders before it, the first otherwise.
pub fn greater_of(first: usize, second: usize, order: i8) -> (kept: usize)
    ensures
        kept == if order < 0 {
            second
        } else {
            first
        },
{
    if order < 0 {
        second
    } else {
        first
    }
}

/// Whether the installed version can be downgraded, given how it orders against the
/// greatest version of a repository: only if it orders after that one.
pub fn is_downgrade(order: i8) -> (r: bool)
    ensures
        r == (order > 0),
{
    order > 0
}

/// The greatest of the versions associated with a repository.
pub fn greatest_repository_version(version_table: &[VersionSources]) -> (r: Option<&str>)
    requires
        ascii_versions(version_table@),
    ensures
        match r {
            Some(version) => greatest_repository(
                version_table@,
                version_table@.len() as int,
            ) matches Some(greatest) && 0 <= greatest < version_table@.len() && version@
                == version_table@[greatest].version@,
            None => greatest_repository(version_table@, version_table@.len() as int) is None,
        },
{
    let n = version_table.len();
    let mut greatest: Option<usize> = None;
    let mut i: usize = 0;
    while i < n
        invariant
            n == version_table@.len(),
            i <= n,
            ascii_versions(version_table@),
            match greatest {
                Some(g) => g < i && greatest_repository(version_table@, i as int) == Some(g as int),
                None => greatest_repository(version_table@, i as int) is None,
            },
        decreases n - i,
    {
        if !is_orphaned_version(version_table[i].sources.as_slice()) {
            match greatest {
                None => {
                    greatest = Some(i);
                },
                Some(g) => {
                    let order = compare_versions(
                        version_table[g].version.as_str(),
                        version_table[i].version.as_str(),
                    );
                    greatest = Some(greater_of(g, i, order));
                },
            }
        }
        i += 1;
    }
    match greatest {
        Some(g) => Some(version_table[g].version.as_str()),
        None => None,
    }
}

/// Whether every version of the table is written in ASCII.
pub fn has_ascii_versions(version_table: &[VersionSources]) -> (r: bool)
    ensures
        r == ascii_versions(version_table@),
{
    let n = version_table.len();
    let mut i: usize = 0;
    while i < n
        invariant
            n == version_table@.len(),
            i <= n,
            forall|k: int| 0 <= k < i ==> is_ascii_chars(#[trigger] version_table@[k].version@),
        decreases n - i,
    {
        if !version_table[i].version.as_str().is_ascii() {
            return false;
        }
        i += 1;
    }
    true
}

/// The version that the package of `policy` can be downgraded to, if any.
pub fn downgrade_target(policy: &Policy) -> (r: Option<&str>)
    requires
        ascii_versions(policy.version_table@),
    ensures
        match r {
            Some(version) => downgrade_of(*policy) matches Some(nonlocal) && version@
                == policy.version_table@[nonlocal].version@,
            None => downgrade_of(*policy) is None,
        },
{
    let table = policy.version_table.as_slice();
    let local = match orphaned_version(table) {
        Some(local) => local,
        None => {
            return None;
        },
    };
    let nonlocal = match greatest_repository_version(table) {
        Some(nonlocal) => nonlocal,
        None => {
            return None;
        },
    };
    proof {
        lemma_first_orphaned_bounds(table@, table@.len() as int);
    }
    if is_downgrade(compare_versions(local, nonlocal)) {
        Some(nonlocal)
    } else {
        None
    }
}

/// An orphaned version that is found lies inside the table.
pub proof fn lemma_first_orphaned_bounds(table: Seq<VersionSources>, upto: int)
    requires
        upto <= table.len(),
    ensures
        first_orphaned(table, upto) matches Some(found) ==> 0 <= found < upto && is_orphaned(
            table[found].sources@,
        ),
    decreases upto,
{
    if upto > 0 {
        lemma_first_orphaned_bounds(table, upto - 1);
    }
}

/// Locates packages which can be downgraded, each with the version to downgrade to.
/// Versions are ordered as Debian orders them, which takes them to be ASCII.
pub fn downgradable_packages(policies: &[Policy]) -> (packages: Vec<(String, String)>)
    requires
        all_ascii(policies@),
    ensures
        text_pairs(packages@) == downgradable(policies@),
{
    let n = policies.len();
    let mut packages: Vec<(String, String)> = Vec::new();
    let mut i: usize = 0;
    proof {
        assert(policies@.take(0) =~= Seq::<Policy>::empty());
        assert(text_pairs(packages@) =~= downgradable(policies@.take(0)));
    }
    while i < n
        invariant
            n == policies@.len(),
            i <= n,
            forall|k: int|
                0 <= k < policies@.len() ==> ascii_versions(
                    (#[trigger] policies@[k]).version_table@,
                ),
            text_pairs(packages@) == downgradable(policies@.take(i as int)),
        decreases n - i,
    {
        proof {
            assert(policies@.take(i + 1).drop_last() =~= policies@.take(i as int));
            assert(policies@.take(i + 1).last() == policies@[i as int]);
        }
        let ghost before = packages@;
        match downgrade_target(&policies[i]) {
            Some(version) => {
                packages.push((policies[i].package.clone(), version.to_owned()));
                proof {
                    assert(text_pairs(packages@) =~= text_pairs(before).push(
                        (policies@[i as int].package@, version@),
                    ));
                }
            },
            None => {},
        }
        i += 1;
    }
    proof {
        assert(policies@.take(n as int) =~= policies@);
    }
    packages
}

/// Whether every version of every policy is written in ASCII.
pub open spec fn all_ascii(policies: Seq<Policy>) -> bool {
    forall|i: int| 0 <= i < policies.len() ==> ascii_versions((#[trigger] policies[i]).version_table@)
}

/// Locates packages which can be downgraded, where every version is written in
/// ASCII; returns nothing where one is not, since such versions cannot be ordered.
pub fn try_downgradable_packages(policies: &[Policy]) -> (r: Option<Vec<(String, String)>>)
    ensures
        r is Some <==> all_ascii(policies@),
        r matches Some(packages) ==> text_pairs(packages@) == downgradable(policies@),
{
    let n = policies.len();
    let mut i: usize = 0;
    while i < n
        invariant
            n == policies@.len(),
            i <= n,
            forall|k: int| 0 <= k < i ==> ascii_versions((#[trigger] policies@[k]).version_table@),
        decreases n - i,
    {
        if !has_ascii_versions(policies[i].version_table.as_slice()) {
            return None;
        }
        i += 1;
    }
    Some(downgradable_packages(policies))
}

/// Whether no version of the policy's package belongs to a repository.
pub fn has_no_repository(policy: &Policy) -> (r: bool)
    ensures
        r == is_remoteless(*policy),
{
    let n = policy.version_table.len();
    let mut i: usize = 0;
    while i < n
        invariant
            n == policy.version_table@.len(),
            i <= n,
            forall|k: int|
                0 <= k < i ==> is_orphaned((#[trigger] policy.version_table@[k]).sources@),
        decreases n - i,
    {
        if !is_orphaned_version(policy.version_table[i].sources.as_slice()) {
            return false;
        }
        i += 1;
    }
    true
}

/// Locates all packages which do not belong to a repository.
pub fn remoteless_packages(policies: &[Policy]) -> (packages: Vec<String>)
    ensures
        texts(packages@) == remoteless(policies@),
{
    let n = policies.len();
    let mut packages: Vec<String> = Vec::new();
    let mut i: usize = 0;
    proof {
        assert(policies@.take(0) =~= Seq::<Policy>::empty());
        assert(texts(packages@) =~= remoteless(policies@.take(0)));
    }
    while i < n
        invariant
            n == policies@.len(),
            i <= n,
            texts(packages@) == remoteless(policies@.take(i as int)),
        decreases n - i,
    {
        proof {
            assert(policies@.take(i + 1).drop_last() =~= policies@.take(i as int));
            assert(policies@.take(i + 1).last() == policies@[i as int]);
        }
        let ghost before = packages@;
        if has_no_repository(&policies[i]) {
            packages.push(policies[i].package.clone());
            proof {
                assert(texts(packages@) =~= texts(before).push(policies@[i as int].package@));
            }
        }
        i += 1;
    }
    proof {
        assert(policies@.take(n as int) =~= policies@);
    }
    packages
}

/// The package that a line of `apt list --upgradable` names: what stands before the
/// first `/`, or the whole line.
pub open spec fn listed_package(line: Seq<char>) -> Seq<char> {
    line.take(text::index_of(line, 0, '/'))
}

/// The package that a line of `apt list --upgradable` names.
pub fn upgradable_package(line: &str) -> (package: &str)
    ensures
        package@ == listed_package(line@),
{
    let chars = text::to_chars(line);
    let at = text::find_char(chars.as_slice(), 0, '/');
    proof {
        assert(line@.take(at as int) =~= line@.subrange(0, at as int));
    }
    line.substring_char(0, at)
}

/// The package that a line of a simulated upgrade installs from a security pocket:
/// the second word of a line that starts with `Inst` and mentions `-security`.
pub open spec fn security_update(line: Seq<char>) -> Option<Seq<char>> {
    if "Inst"@.is_prefix_of(line) && text::contains(line, "-security"@) {
        match text::nth_word(line, 1, true) {
            Some((start, end)) => Some(line.subrange(start, end)),
            None => None,
        }
    } else {
        None
    }
}

/// Reads the package of a security update from a line of `apt -s dist-upgrade`.
pub fn parse_security_update(simulated_line: &str) -> (r: Option<&str>)
    ensures
        match r {
            Some(package) => security_update(simulated_line@) == Some(package@),
            None => security_update(simulated_line@) is None,
        },
{
    let owned = text::to_chars(simulated_line);
    let chars = owned.as_slice();
    let marker = text::to_chars("-security");
    if text::prefix_len(chars, "Inst").is_some() && text::includes(chars, marker.as_slice()) {
        match text::word(chars, 1, true) {
            Some((start, end)) => Some(simulated_line.substring_char(start, end)),
            None => None,
        }
    } else {
        None
    }
}

} // verus!
