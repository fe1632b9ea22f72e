//! Error conditions of the file zone system.

use vstd::prelude::*;
use crate::text::concat_str;

verus! {

/// All error conditions that can occur in the file zone system.
///
/// Paths and operating-system errors are carried as their text.
#[derive(Debug, Clone, PartialEq, Eq)]
pub enum AppError {
    ZoneAlreadyExists(String),
    ZoneNotFound(String),
    NoActiveZone,
    FileNotFound(String),
    FileAlreadyExists(String),
    PathNotFound(String),
    NotAFile(String),
    Cancelled,
    InvalidCommand,
    MissingArgument(String),
    Io(String),
    Serialization(String),
    NoHomeDirectory,
}

/// The text shown to the user for an error.
pub open spec fn error_text(e: AppError) -> Seq<char> {
    match e {
        AppError::ZoneAlreadyExists(n) => "Zone '"@ + n@ + "' already exists"@,
        AppError::ZoneNotFound(n) => "Zone '"@ + n@ + "' not found"@,
        AppError::NoActiveZone => "No active zone. Use 'use <zone_name>' to select one"@,
        AppError::FileNotFound(n) => "File '"@ + n@ + "' not found in current zone"@,
        AppError::FileAlreadyExists(n) => "File '"@ + n@
            + "' already exists in zone. Rename or remove it first"@,
        AppError::PathNotFound(p) => "Path does not exist: "@ + p@,
        AppError::NotAFile(p) => "Not a file: "@ + p@,
        AppError::Cancelled => "Operation cancelled by user"@,
        AppError::InvalidCommand => "Invalid command. Type 'help' for available commands"@,
        AppError::MissingArgument(a) => "Missing argument: "@ + a@,
        AppError::Io(m) => "IO error: "@ + m@,
        AppError::Serialization(m) => "Data serialization error: "@ + m@,
        AppError::NoHomeDirectory => "Could not determine home directory"@,
    }
}

fn wrap(prefix: &str, inner: &String, suffix: &str) -> (r: String)
    ensures
        r@ == prefix@ + inner@ + suffix@,
{
    let s = concat_str(prefix, inner.as_str());
    s.concat(suffix)
}

impl AppError {
    /// The text shown to the user for this error.
    pub fn message(&self) -> (r: String)
        ensures
            r@ == error_text(*self),
    {
        match self {
            AppError::ZoneAlreadyExists(n) => wrap("Zone '", n, "' already exists"),
            AppError::ZoneNotFound(n) => wrap("Zone '", n, "' not found"),
            AppError::NoActiveZone => String::from_str(
                "No active zone. Use 'use <zone_name>' to select one",
            ),
            AppError::FileNotFound(n) => wrap("File '", n, "' not found in current zone"),
            AppError::FileAlreadyExists(n) => wrap(
                "File '",
                n,
                "' already exists in zone. Rename or remove it first",
            ),
            AppError::PathNotFound(p) => concat_str("Path does not exist: ", p.as_str()),
            AppError::NotAFile(p) => concat_str("Not a file: ", p.as_str()),
            AppError::Cancelled => String::from_str("Operation cancelled by user"),
            AppError::InvalidCommand => String::from_str(
                "Invalid command. Type 'help' for available commands",
            ),
            AppError::MissingArgument(a) => concat_str("Missing argument: ", a.as_str()),
            AppError::Io(m) => concat_str("IO error: ", m.as_str()),
            AppError::Serialization(m) => concat_str("Data serialization error: ", m.as_str()),
            AppError::NoHomeDirectory => String::from_str("Could not determine home directory"),
        }
    }
}

} // verus!
