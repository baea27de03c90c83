//! The order of Debian version numbers.

use vstd::prelude::*;

verus! {

/// How the `deb-version` crate orders two version numbers: negative where `left` is
/// the older, zero where neither is, positive where `left` is the newer.
pub uninterp spec fn version_order(left: Seq<char>, right: Seq<char>) -> int;

/// Calls `deb_version::compare_versions`, which depends on the two texts alone. That
/// function cuts the texts at counts of characters taken as counts of bytes, so it is
/// called on ASCII only; there it returns for every input.
#[verifier::external_body]
pub(crate) fn compare_versions(left: &str, right: &str) -> (order: i8)
    requires
        vstd::utf8::is_ascii_chars(left@),
        vstd::utf8::is_ascii_chars(right@),
    ensures
        order == version_order(left@, right@),
        -1 <= order <= 1,
{
    match deb_version::compare_versions(left, right) {
        std::cmp::Ordering::Less => -1,
        std::cmp::Ordering::Equal => 0,
        std::cmp::Ordering::Greater => 1,
    }
}

} // verus!
