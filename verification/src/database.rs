//! The database handle and how its place is read from a configuration text.

use crate::text::{lines_of, split_lines};
use vstd::prelude::*;

verus! {

/// A handle on the database kept at one path.
#[derive(Debug, Clone, PartialEq, Eq)]
pub struct Database {
    path: String,
}

/// The error type of std's I/O operations, `std::io::Error`, carried through
/// as an opaque value: nothing is claimed of what it holds.
#[verifier::external_type_specification]
#[verifier::external_body]
pub struct ExIoError(std::io::Error);

/// The place of the database that a configuration text names: its first
/// line, or `default.db` where it has no line.
pub open spec fn configured_db_path(config: Seq<char>) -> Seq<char> {
    if lines_of(config).len() > 0 {
        lines_of(config)[0]
    } else {
        "default.db"@
    }
}

impl Database {
    /// The path that the handle was opened on.
    pub closed spec fn path_text(&self) -> Seq<char> {
        self.path@
    }

    /// The path that the handle was opened on.
    pub fn path(&self) -> (path: &str)
        ensures
            path@ == self.path_text(),
    {
        self.path.as_str()
    }
}

/// Reads the place of the database from a configuration text. Every text
/// names one.
pub fn parse_db_path(config: &str) -> (outcome: Result<String, std::io::Error>)
    ensures
        outcome matches Ok(path) && path@ == configured_db_path(config@),
{
    let lines = split_lines(config);
    if lines.len() > 0 {
        Ok(lines[0].to_owned())
    } else {
        Ok(String::from_str("default.db"))
    }
}

/// Opens a handle on the database at `path`. Every path is accepted.
pub fn connect_to_db(path: &str) -> (outcome: Result<Database, std::io::Error>)
    ensures
        outcome matches Ok(db) && db.path_text() == path@,
{
    Ok(Database { path: path.to_owned() })
}

/// Sets up the database that a configuration text names.
pub fn initialize_database(config: &str) -> (outcome: Result<Database, std::io::Error>)
    ensures
        outcome matches Ok(db) && db.path_text() == configured_db_path(config@),
{
    match parse_db_path(config) {
        Ok(path) => connect_to_db(path.as_str()),
        Err(error) => Err(error),
    }
}

} // verus!
