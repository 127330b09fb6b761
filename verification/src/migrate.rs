//! Checks before a contract migrates to new code.
use vstd::prelude::*;

verus! {

/// Whether `semver::Version::parse` accepts the text.
pub uninterp spec fn semver_parses(s: Seq<char>) -> bool;

/// Whether the version written `a` comes after the one written `b` in
/// `semver::Version`'s ordering (its `PartialOrd`), both parsed by
/// `semver::Version::parse`; a function of the two texts alone.
pub uninterp spec fn semver_newer(a: Seq<char>, b: Seq<char>) -> bool;

/// Asks `semver::Version::parse` whether it accepts the text; the claim is
/// only that the answer is [`semver_parses`] of the text.
#[verifier::external_body]
fn version_parses(s: &str) -> (r: bool)
    ensures
        r == semver_parses(s@),
{
    semver::Version::parse(s).is_ok()
}

/// Parses two versions with `semver::Version::parse` and compares them with
/// its ordering; the claim is only that the answer is [`semver_newer`] of
/// the two texts.
#[verifier::external_body]
fn version_newer(a: &str, b: &str) -> (r: bool)
    requires
        semver_parses(a@),
        semver_parses(b@),
    ensures
        r == semver_newer(a@, b@),
{
    match (semver::Version::parse(a), semver::Version::parse(b)) {
        (Ok(x), Ok(y)) => x > y,
        _ => false,
    }
}

/// Why a migration was refused.
#[derive(Clone, Copy, Debug, PartialEq, Eq, Structural)]
pub enum MigrateError {
    /// The stored version is not a semantic version.
    UnparsableOldVersion,
    /// The new version is not a semantic version.
    UnparsableNewVersion,
    /// The stored contract is another kind of contract.
    MismatchedName,
    /// The stored version is newer than the new one.
    Downgrade,
}

/// Checks a migration from the stored contract name and version to `name`
/// at `version`: both versions must parse, the names must match, and the
/// stored version may not be newer.
pub fn migrate_check(old_contract: &String, old_version: &String, name: &String, version: &String) -> (r: Result<
    (),
    MigrateError,
>)
    ensures
        !semver_parses(old_version@) ==> r == Err::<(), MigrateError>(MigrateError::UnparsableOldVersion),
        semver_parses(old_version@) && !semver_parses(version@) ==> r == Err::<(), MigrateError>(
            MigrateError::UnparsableNewVersion,
        ),
        semver_parses(old_version@) && semver_parses(version@) && old_contract@ != name@ ==> r == Err::<
            (),
            MigrateError,
        >(MigrateError::MismatchedName),
        semver_parses(old_version@) && semver_parses(version@) && old_contract@ == name@ ==> (r is Ok || r
            == Err::<(), MigrateError>(MigrateError::Downgrade)),
        semver_parses(old_version@) && semver_parses(version@) && old_contract@ == name@ ==> (r is Ok
            <==> !semver_newer(old_version@, version@)),
{
    if !version_parses(old_version.as_str()) {
        return Err(MigrateError::UnparsableOldVersion);
    }
    if !version_parses(version.as_str()) {
        return Err(MigrateError::UnparsableNewVersion);
    }
    if *old_contract != *name {
        return Err(MigrateError::MismatchedName);
    }
    if version_newer(old_version.as_str(), version.as_str()) {
        return Err(MigrateError::Downgrade);
    }
    Ok(())
}

/// Checks a migration that only requires the same kind of contract.
pub fn migrate_same_contract(old_contract: &String, name: &String) -> (r: Result<(), MigrateError>)
    ensures
        r is Ok <==> old_contract@ == name@,
        r is Err ==> r == Err::<(), MigrateError>(MigrateError::MismatchedName),
{
    if *old_contract == *name {
        Ok(())
    } else {
        Err(MigrateError::MismatchedName)
    }
}

} // verus!
