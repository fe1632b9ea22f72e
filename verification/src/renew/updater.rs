//! The updater: its settings and the staging of downloaded binaries.

use vstd::prelude::*;
use vstd::utf8::{decode_utf8, encode_utf8, encode_utf8_decode_utf8, is_char_boundary};
use crate::digest::{sha256_hex, sha256_hex_spec};
use crate::error::{AppError, error_text};
use crate::renew::protocol::RenewResponse;
use crate::renew::version::VersionInfo;
use crate::text::{path_join, path_join_spec, concat_str};

verus! {

/// Updater state and configuration.
#[derive(Debug)]
pub struct Updater {
    /// Whether auto-update is enabled.
    pub enabled: bool,
    /// Check interval in seconds.
    pub check_interval: u64,
    /// Where downloaded updates are staged.
    staging_dir: String,
}

/// `~/.rxiu/updates` under the given home directory.
pub open spec fn staging_dir_spec(home: Seq<char>) -> Seq<char> {
    path_join_spec(path_join_spec(home, ".rxiu"@), "updates"@)
}

/// The staged file for a binary whose hash starts with `prefix`.
pub open spec fn staged_name(prefix: Seq<char>) -> Seq<char> {
    "rxiu-daemon."@ + prefix
}

/// The hash's first eight bytes (UTF-8) end on a character boundary, so
/// they form a string of their own.
pub open spec fn prefix8_ok(hash: Seq<char>) -> bool {
    is_char_boundary(encode_utf8(hash), 8)
}

/// The characters of the hash's first eight bytes.
pub open spec fn prefix8(hash: Seq<char>) -> Seq<char> {
    decode_utf8(encode_utf8(hash).subrange(0, 8))
}

/// The mathematical value of an updater.
pub struct UpdaterModel {
    pub enabled: bool,
    pub check_interval: u64,
    pub staging_dir: Seq<char>,
}

impl View for Updater {
    type V = UpdaterModel;

    closed spec fn view(&self) -> UpdaterModel {
        UpdaterModel { enabled: self.enabled, check_interval: self.check_interval, staging_dir: self.staging_dir@ }
    }
}

impl Updater {

    /// An enabled updater checking every 300 seconds, staging under
    /// `~/.rxiu/updates` of the given home directory (an empty home
    /// stands for a missing one).
    pub fn new(home: &str) -> (u: Self)
        ensures
            u@.enabled,
            u@.check_interval == 300,
            u@.staging_dir == staging_dir_spec(home@),
    {
        let rxiu = path_join(home, ".rxiu");
        Updater { enabled: true, check_interval: 300, staging_dir: path_join(rxiu.as_str(), "updates") }
    }

    /// The staging directory for downloads.
    pub fn staging_dir(&self) -> (r: &String)
        ensures
            r@ == self@.staging_dir,
    {
        &self.staging_dir
    }

    /// The path where the binary with the given hash is staged:
    /// `rxiu-daemon.` and the hash's first eight bytes.
    pub fn staging_path(&self, hash: &str) -> (r: String)
        requires
            prefix8_ok(hash@),
        ensures
            r@ == path_join_spec(self@.staging_dir, staged_name(prefix8(hash@))),
    {
        let (prefix, _rest) = hash.split_at(8);
        proof {
            encode_utf8_decode_utf8(prefix@);
        }
        let name = concat_str("rxiu-daemon.", prefix);
        path_join(self.staging_dir.as_str(), name.as_str())
    }

    /// Whether a downloaded binary has the expected hash.
    pub fn verify_binary(&self, content: &[u8], expected_hash: &str) -> (r: bool)
        ensures
            r == (sha256_hex_spec(content@) == expected_hash@),
    {
        let actual = sha256_hex(content);
        crate::text::str_eq(actual.as_str(), expected_hash)
    }

    /// The answer to a version request, given this node's version
    /// information or the error that prevented reading it.
    pub fn handle_get_version(&self, current: Result<VersionInfo, AppError>) -> (r: Result<RenewResponse, AppError>)
        ensures
            match current {
                Ok(info) => r == Ok::<RenewResponse, AppError>(RenewResponse::Version(info)),
                Err(e) => r matches Ok(RenewResponse::Error(m)) && m@ == error_text(e),
            },
    {
        match current {
            Ok(info) => Ok(RenewResponse::Version(info)),
            Err(e) => Ok(RenewResponse::Error(e.message())),
        }
    }
}

} // verus!
