//! The error type shared by the library's fallible operations.

use vstd::prelude::*;
use vstd::string::*;
use crate::numeric::{decimal_digits, push_decimal};

verus! {

/// Error type shared by every fallible operation of the library. Each variant
/// carries the human-readable detail that the user interface shows.
#[derive(Debug)]
pub enum AppError {
    Database(String),
    NotFound(String),
    AuthRequired,
    WrongPassword,
    Validation(String),
    ExternalApi(String),
    Io(String),
    Parse(String),
    /// A backup file declares a format version (first field) newer than the
    /// newest this build reads (second field).
    UnsupportedBackupVersion(u8, u8),
}

/// The message shown for an error.
pub open spec fn error_message(e: AppError) -> Seq<char> {
    match e {
        AppError::Database(s) => "Database error: "@ + s@,
        AppError::NotFound(s) => "Not found: "@ + s@,
        AppError::AuthRequired => "Authentication required"@,
        AppError::WrongPassword => "Wrong password"@,
        AppError::Validation(s) => "Invalid input: "@ + s@,
        AppError::ExternalApi(s) => "External API error: "@ + s@,
        AppError::Io(s) => "IO error: "@ + s@,
        AppError::Parse(s) => "Parse error: "@ + s@,
        AppError::UnsupportedBackupVersion(found, max) => "Unsupported backup version: file is v"@
            + decimal_digits(found as nat) + ", this app reads up to v"@ + decimal_digits(max as nat),
    }
}

impl AppError {
    /// The message shown for this error (see `error_message`).
    pub fn message(&self) -> (m: String)
        ensures
            m@ == error_message(*self),
    {
        match self {
            AppError::Database(s) => {
                let mut m = String::from_str("Database error: ");
                m.append(s.as_str());
                m
            },
            AppError::NotFound(s) => {
                let mut m = String::from_str("Not found: ");
                m.append(s.as_str());
                m
            },
            AppError::AuthRequired => String::from_str("Authentication required"),
            AppError::WrongPassword => String::from_str("Wrong password"),
            AppError::Validation(s) => {
                let mut m = String::from_str("Invalid input: ");
                m.append(s.as_str());
                m
            },
            AppError::ExternalApi(s) => {
                let mut m = String::from_str("External API error: ");
                m.append(s.as_str());
                m
            },
            AppError::Io(s) => {
                let mut m = String::from_str("IO error: ");
                m.append(s.as_str());
                m
            },
            AppError::Parse(s) => {
                let mut m = String::from_str("Parse error: ");
                m.append(s.as_str());
                m
            },
            AppError::UnsupportedBackupVersion(found, max) => {
                let mut m = String::from_str("Unsupported backup version: file is v");
                push_decimal(&mut m, *found as u64);
                m.append(", this app reads up to v");
                push_decimal(&mut m, *max as u64);
                m
            },
        }
    }
}

} // verus!
