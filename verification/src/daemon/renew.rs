//! Decisions of the daemon's update manager: when to check peers, which
//! peer's binary to take, the chunked download and its verification.

use vstd::prelude::*;
use crate::config::AppConfig;
use crate::digest::{sha256_hex, sha256_hex_spec};
use crate::error::AppError;
use crate::p2p::recovery::since;
use crate::renew::version::{VersionInfo, compatible, newer};
use crate::text::concat_str;

verus! {

/// State of the update manager; times are seconds on a monotonic clock.
#[derive(Debug)]
pub struct RenewState {
    pub config: AppConfig,
    pub local_version: Option<VersionInfo>,
    pub last_check: u64,
    pub update_in_progress: bool,
}

impl RenewState {
    /// A manager started at `now`.
    pub fn new(config: AppConfig, local_version: Option<VersionInfo>, now: u64) -> (r: Self)
        ensures
            r.config == config,
            r.local_version == local_version,
            r.last_check == now,
            !r.update_in_progress,
    {
        RenewState { config, local_version, last_check: now, update_in_progress: false }
    }

    /// Whether a check for updates is due at `now`: updates are enabled
    /// and the check interval has passed since the last check.
    pub fn check_due(&self, now: u64) -> (r: bool)
        ensures
            r == (self.config.renew_enabled && since(now, self.last_check)
                >= self.config.renew_check_interval),
    {
        let elapsed: u64 = if now >= self.last_check {
            now - self.last_check
        } else {
            0
        };
        self.config.renew_enabled && elapsed >= self.config.renew_check_interval
    }

    /// Records that a check starts at `now`.
    pub fn start_check(&mut self, now: u64)
        ensures
            final(self).last_check == now,
            final(self).config == old(self).config,
            final(self).local_version == old(self).local_version,
            final(self).update_in_progress == old(self).update_in_progress,
    {
        self.last_check = now;
    }

    /// Starts a download unless one runs: returns whether it started.
    pub fn begin_update(&mut self) -> (started: bool)
        ensures
            started == !old(self).update_in_progress,
            final(self).update_in_progress,
            final(self).last_check == old(self).last_check,
            final(self).config == old(self).config,
            final(self).local_version == old(self).local_version,
    {
        if self.update_in_progress {
            return false;
        }
        self.update_in_progress = true;
        true
    }

    /// Ends a download, whatever its outcome.
    pub fn end_update(&mut self)
        ensures
            !final(self).update_in_progress,
            final(self).last_check == old(self).last_check,
            final(self).config == old(self).config,
            final(self).local_version == old(self).local_version,
    {
        self.update_in_progress = false;
    }
}

/// Whether to update from a peer running `remote`: it is for this platform
/// and newer than the local binary.
pub fn should_update_from(local: &VersionInfo, remote: &VersionInfo) -> (r: bool)
    ensures
        r == (compatible(*remote, *local) && newer(*remote, *local)),
{
    remote.is_compatible_with(local) && remote.is_newer_than(local)
}

/// A peer's answer offers an update worth taking.
pub open spec fn worth_taking(answer: Option<VersionInfo>, local: VersionInfo) -> bool {
    match answer {
        Some(v) => compatible(v, local) && newer(v, local),
        None => false,
    }
}

/// The first peer, in the order asked, whose answer makes an update worth
/// taking; `answers[i]` is peer `i`'s version, or `None` when it did not
/// answer.
pub fn pick_update_source(local: &VersionInfo, answers: &Vec<Option<VersionInfo>>) -> (r: Option<usize>)
    ensures
        match r {
            Some(i) => i < answers@.len() && worth_taking(answers@[i as int], *local) && forall|j: int|
                0 <= j < i ==> !worth_taking(answers@[j], *local),
            None => forall|j: int| 0 <= j < answers@.len() ==> !worth_taking(answers@[j], *local),
        },
{
    let mut i: usize = 0;
    while i < answers.len()
        invariant
            i <= answers@.len(),
            forall|j: int| 0 <= j < i ==> !worth_taking(answers@[j], *local),
        decreases answers@.len() - i,
    {
        match &answers[i] {
            Some(v) => {
                if should_update_from(local, v) {
                    return Some(i);
                }
            },
            None => {},
        }
        i = i + 1;
    }
    None
}

/// What the download does after receiving a chunk.
pub open spec fn chunk_step(offset: u64, len: nat, is_last: bool) -> (u64, bool, bool) {
    if len == 0 && is_last {
        (offset, false, true)
    } else {
        ((offset + len) as u64, true, is_last)
    }
}

/// Handles a received chunk of `len` bytes at `offset`: returns the next
/// offset, whether to keep the bytes, and whether the download is done.
/// An empty last chunk ends it without writing.
pub fn accept_chunk(offset: u64, len: usize, is_last: bool) -> (r: (u64, bool, bool))
    requires
        offset + len <= u64::MAX,
    ensures
        r == chunk_step(offset, len as nat, is_last),
{
    if len == 0 && is_last {
        return (offset, false, true);
    }
    (offset + len as u64, true, is_last)
}

/// The text of the error for a downloaded binary with the wrong hash.
pub open spec fn mismatch_text(expected: Seq<char>, actual: Seq<char>) -> Seq<char> {
    "Hash mismatch: expected "@ + expected + ", got "@ + actual
}

/// Checks a downloaded binary against the version it was announced as.
pub fn verify_update(version: &VersionInfo, content: &[u8]) -> (r: Result<(), AppError>)
    ensures
        sha256_hex_spec(content@) == version.hash@ ==> r is Ok,
        sha256_hex_spec(content@) != version.hash@ ==> (r matches Err(AppError::Io(m)) && m@ == mismatch_text(
            version.hash@,
            sha256_hex_spec(content@),
        )),
{
    let actual = sha256_hex(content);
    if actual == version.hash {
        return Ok(());
    }
    let m = concat_str("Hash mismatch: expected ", version.hash.as_str());
    let m = m.concat(", got ");
    let m = m.concat(actual.as_str());
    Err(AppError::Io(m))
}

} // verus!
