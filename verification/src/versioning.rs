//! Semantic-version tests behind contract migrations.
use vstd::prelude::*;
use crate::errors::StdFault;

verus! {

/// Whether `text` is a version that `semver::Version::parse` accepts.
pub uninterp spec fn semver_parses(text: Seq<char>) -> bool;

/// Whether version `a` precedes version `b` in `semver::Version`'s order.
pub uninterp spec fn semver_less(a: Seq<char>, b: Seq<char>) -> bool;

/// `semver::Version::parse`, reduced to whether the text parses. The result
/// depends on the text alone.
#[verifier::external_body]
pub(crate) fn version_parses(text: &str) -> (r: bool)
    ensures
        r == semver_parses(text@),
{
    semver::Version::parse(text).is_ok()
}

/// `<` on `semver::Version`, of two texts that parse. The result depends on the
/// two texts alone, and a version never precedes itself (the order is the
/// derived one over numbers, pre-release and build parts, each a total order);
/// nothing more of the order is claimed.
#[verifier::external_body]
pub(crate) fn version_less(a: &str, b: &str) -> (r: bool)
    requires
        semver_parses(a@),
        semver_parses(b@),
    ensures
        r == semver_less(a@, b@),
        a@ == b@ ==> !r,
{
    semver::Version::parse(a).unwrap() < semver::Version::parse(b).unwrap()
}

/// Whether a stored text equals a fixed one.
pub fn text_is(text: &String, expected: &str) -> (r: bool)
    ensures
        r == (text@ == expected@),
{
    broadcast use vstd::string::group_string_axioms;
    *text == expected.to_string()
}

/// Outcome of migrating the contract `name` to `version` from the stored
/// contract record: the new version must parse, a record must exist, its
/// version must parse, its name must be `name`, and its version must not be
/// newer. On success the flag says whether the stored version is strictly older
/// (and so has to be rewritten).
pub open spec fn migration_outcome(stored: Option<(Seq<char>, Seq<char>)>, name: Seq<char>, version: Seq<char>) -> Result<bool, StdFault> {
    if !semver_parses(version) {
        Err(StdFault::InvalidVersion)
    } else {
        match stored {
            None => Err(StdFault::NotFound),
            Some((stored_name, stored_version)) => if !semver_parses(stored_version) {
                Err(StdFault::InvalidVersion)
            } else if stored_name != name {
                Err(StdFault::WrongContract)
            } else if semver_less(version, stored_version) {
                Err(StdFault::NewerVersion)
            } else {
                Ok(semver_less(stored_version, version))
            },
        }
    }
}

/// The stored contract record as plain texts.
pub open spec fn record_view(stored: Option<(String, String)>) -> Option<(Seq<char>, Seq<char>)> {
    match stored {
        Some((n, v)) => Some((n@, v@)),
        None => None,
    }
}

/// Check a migration of contract `name` to `version` against the stored record.
pub fn migration_check(stored: &Option<(String, String)>, name: &str, version: &str) -> (r: Result<bool, StdFault>)
    ensures
        r == migration_outcome(record_view(*stored), name@, version@),
        stored matches Some((n, v)) && n@ == name@ && v@ == version@ && semver_parses(version@)
            ==> r == Ok::<bool, StdFault>(false),
{
    if !version_parses(version) {
        return Err(StdFault::InvalidVersion);
    }
    match stored {
        None => Err(StdFault::NotFound),
        Some((stored_name, stored_version)) => {
            if !version_parses(stored_version.as_str()) {
                return Err(StdFault::InvalidVersion);
            }
            if !text_is(stored_name, name) {
                return Err(StdFault::WrongContract);
            }
            if version_less(version, stored_version.as_str()) {
                return Err(StdFault::NewerVersion);
            }
            Ok(version_less(stored_version.as_str(), version))
        },
    }
}

} // verus!
