//! Comparison of two version texts as semantic versions, as the `semver`
//! crate orders them.

use vstd::prelude::*;

verus! {

/// How the first of two versions stands to the second.
#[derive(Debug, Clone, Copy, PartialEq, Eq)]
pub enum VersionOrder {
    Older,
    Same,
    Newer,
}

/// What the comparison of two version texts gives: how the first stands to
/// the second in the order of `semver::Version` (major, minor, patch and
/// pre-release as semantic versioning ranks them, then the build metadata),
/// or the parser's message for the first of the two texts that is no
/// semantic version.
pub uninterp spec fn semver_order(remote: Seq<char>, local: Seq<char>) -> Result<
    VersionOrder,
    Seq<char>,
>;

/// `semver::Version::parse` on both texts, `remote` first, and `cmp` on the
/// two versions: the result is what [`semver_order`] names. An error is the
/// text that `semver::Error` displays.
#[verifier::external_body]
pub(crate) fn compare_versions(remote: &str, local: &str) -> (result: Result<
    VersionOrder,
    String,
>)
    ensures
        match result {
            Ok(order) => semver_order(remote@, local@) == Ok::<VersionOrder, Seq<char>>(order),
            Err(message) => semver_order(remote@, local@) == Err::<VersionOrder, Seq<char>>(
                message@,
            ),
        },
{
    let remote = semver::Version::parse(remote).map_err(|error| error.to_string())?;
    let local = semver::Version::parse(local).map_err(|error| error.to_string())?;
    Ok(match remote.cmp(&local) {
        std::cmp::Ordering::Less => VersionOrder::Older,
        std::cmp::Ordering::Equal => VersionOrder::Same,
        std::cmp::Ordering::Greater => VersionOrder::Newer,
    })
}

} // verus!
