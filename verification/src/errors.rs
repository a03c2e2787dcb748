//! Categorized failures of the device-library operations.

use vstd::prelude::*;
use vstd::string::StringExecFns;

verus! {

/// The ways a device-library operation can fail.
///
/// A row that cannot be mapped is not an error of its own: under the
/// best-effort policy such a row is dropped from the result and never
/// surfaced individually.
#[derive(Debug, Clone, Copy, PartialEq, Eq, Structural)]
pub enum KoboError {
    /// The database file is missing, unreadable, or not a valid database.
    DatabaseOpenFailure,
    /// A read failed outright, e.g. an expected table is absent.
    QueryFailure,
    /// Neither an identifier nor a title was supplied to the lookup.
    InvalidLookupArgs,
}

impl KoboError {
    /// A short description of the failure.
    pub fn message(&self) -> (r: String)
        ensures
            *self is DatabaseOpenFailure ==> r@ == "Failed to open Kobo database"@,
            *self is QueryFailure ==> r@ == "Failed to query Kobo database"@,
            *self is InvalidLookupArgs ==> r@ == "Either ISBN or title must be provided"@,
    {
        match self {
            KoboError::DatabaseOpenFailure => String::from_str("Failed to open Kobo database"),
            KoboError::QueryFailure => String::from_str("Failed to query Kobo database"),
            KoboError::InvalidLookupArgs => String::from_str("Either ISBN or title must be provided"),
        }
    }
}

} // verus!
