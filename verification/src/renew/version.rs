//! Version information of a node's binary and its ordering.

use vstd::prelude::*;
use crate::digest::{sha256_hex, sha256_hex_spec};

verus! {

/// Version information for a node.
#[derive(Debug, Clone, PartialEq, Eq)]
pub struct VersionInfo {
    /// Semantic version string (e.g. "0.3.1").
    pub version: String,
    /// SHA-256 of the binary, lowercase hex.
    pub hash: String,
    /// Binary size in bytes.
    pub size: u64,
    /// Target OS (e.g. "macos", "windows", "linux").
    pub target_os: String,
    /// Target architecture (e.g. "x86_64", "aarch64").
    pub target_arch: String,
}

/// The semantic-version comparison of two version strings: `None` when
/// either does not parse, else -1, 0 or 1 as the first is lower, equal to
/// or higher than the second.
pub uninterp spec fn semver_order(a: Seq<char>, b: Seq<char>) -> Option<i8>;

/// Compares two version strings by semantic-version precedence.
///
/// Trusted: `semver::Version::parse` on both strings and, when both parse,
/// `Ord::cmp` of the two versions (the derived lexicographic order over
/// major, minor, patch, pre-release and build). The contract names the
/// result and states that a parsed comparison is one of -1, 0, 1, that it
/// reverses when the arguments are swapped, and that a string that parses
/// compares equal to itself, as a total order's `cmp` does.
#[verifier::external_body]
fn compare_versions(a: &str, b: &str) -> (r: Option<i8>)
    ensures
        r == semver_order(a@, b@),
        r matches Some(x) ==> -1 <= x <= 1,
        r == Some(1i8) ==> semver_order(b@, a@) == Some(-1i8),
        r == Some(-1i8) ==> semver_order(b@, a@) == Some(1i8),
        r == Some(0i8) ==> semver_order(b@, a@) == Some(0i8),
        r is Some ==> semver_order(a@, a@) == Some(0i8),
{
    match (semver::Version::parse(a), semver::Version::parse(b)) {
        (Ok(x), Ok(y)) => Some(match x.cmp(&y) {
            std::cmp::Ordering::Less => -1,
            std::cmp::Ordering::Equal => 0,
            std::cmp::Ordering::Greater => 1,
        }),
        _ => None,
    }
}

/// Same platform: equal OS and architecture.
pub open spec fn compatible(a: VersionInfo, b: VersionInfo) -> bool {
    a.target_os@ == b.target_os@ && a.target_arch@ == b.target_arch@
}

/// `a` is newer than `b`: a higher semantic version, or, when the versions
/// compare equal or do not both parse, a different binary.
pub open spec fn newer(a: VersionInfo, b: VersionInfo) -> bool {
    match semver_order(a.version@, b.version@) {
        Some(x) => if x > 0 {
            true
        } else if x < 0 {
            false
        } else {
            a.hash@ != b.hash@
        },
        None => a.hash@ != b.hash@,
    }
}

impl VersionInfo {
    /// The version information of a binary with the given content.
    pub fn of_binary(version: &str, content: &[u8], target_os: &str, target_arch: &str) -> (r: Self)
        requires
            content@.len() <= u64::MAX,
        ensures
            r.version@ == version@,
            r.hash@ == sha256_hex_spec(content@),
            r.size == content@.len(),
            r.target_os@ == target_os@,
            r.target_arch@ == target_arch@,
    {
        VersionInfo {
            version: String::from_str(version),
            hash: sha256_hex(content),
            size: content.len() as u64,
            target_os: String::from_str(target_os),
            target_arch: String::from_str(target_arch),
        }
    }

    /// Whether both versions are for the same platform.
    pub fn is_compatible_with(&self, other: &Self) -> (r: bool)
        ensures
            r == compatible(*self, *other),
    {
        self.target_os == other.target_os && self.target_arch == other.target_arch
    }

    /// Whether this version is newer than `other`.
    ///
    /// Of two versions whose semantic versions parse and differ, exactly
    /// one is newer than the other; a binary is never newer than itself.
    pub fn is_newer_than(&self, other: &Self) -> (r: bool)
        ensures
            r == newer(*self, *other),
            (semver_order(self.version@, other.version@) matches Some(x) && x != 0) ==> r != newer(
                *other,
                *self,
            ),
            self.version@ == other.version@ && self.hash@ == other.hash@ ==> !r,
            semver_order(self.version@, other.version@) == Some(1i8) ==> r,
            semver_order(self.version@, other.version@) == Some(-1i8) ==> !r,
            semver_order(self.version@, other.version@) == Some(0i8) ==> r == (self.hash@ != other.hash@),
            semver_order(self.version@, other.version@) is None ==> r == (self.hash@ != other.hash@),
    {
        match compare_versions(self.version.as_str(), other.version.as_str()) {
            Some(x) => {
                if x > 0 {
                    return true;
                }
                if x < 0 {
                    return false;
                }
            },
            None => {},
        }
        self.hash != other.hash
    }
}

/// Compatibility is an equivalence: reflexive and symmetric.
pub proof fn law_compatible_equivalence(a: VersionInfo, b: VersionInfo)
    ensures
        compatible(a, a),
        compatible(a, b) == compatible(b, a),
{
}


/// Which of two builds is newer: a higher semantic version always is and a
/// lower one never is; of two builds with the same semantic version (or
/// whose versions do not both parse) the first is newer exactly when the
/// hashes differ, so a rebuild is offered as an update and the same binary
/// never is.
pub proof fn law_version_order(a: VersionInfo, b: VersionInfo)
    ensures
        semver_order(a.version@, b.version@) == Some(1i8) ==> newer(a, b),
        semver_order(a.version@, b.version@) == Some(-1i8) ==> !newer(a, b),
        semver_order(a.version@, b.version@) == Some(0i8) ==> (newer(a, b) <==> a.hash@ != b.hash@),
        semver_order(a.version@, b.version@) is None ==> (newer(a, b) <==> a.hash@ != b.hash@),
{
}

} // verus!
