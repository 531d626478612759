//! Operational schema migrations and the migration plan the store runner follows.

use vstd::prelude::*;

use crate::error::{OrchestratorError, Result};
use crate::text::{decimal, law_parse_after_format, parse_u32, spec_parse_u32};

verus! {

/// The single operational migration (v1). Operational tables only: `meta`,
/// `command`, `setting`, `notification`, `launch_template`; the domain entities
/// live in the file-tree store. The runner writes `schema_version` into `meta`.
pub const MIGRATION_V1: &'static str = "CREATE TABLE meta (
         key   TEXT PRIMARY KEY,
         value TEXT NOT NULL
     );

     CREATE TABLE command (
         id         TEXT PRIMARY KEY,
         name       TEXT NOT NULL,
         origin     TEXT NOT NULL CHECK (origin IN ('prebuilt','custom')),
         cli        TEXT NOT NULL,
         args_json  TEXT,
         env_json   TEXT,
         deleted_at TEXT,
         created_at TEXT NOT NULL DEFAULT (datetime('now'))
     );

     CREATE TABLE setting (
         scope      TEXT NOT NULL,
         project_id TEXT,
         key        TEXT NOT NULL,
         value_json TEXT NOT NULL,
         PRIMARY KEY (scope, project_id, key)
     );

     CREATE TABLE notification (
         id           TEXT PRIMARY KEY,
         category     TEXT NOT NULL,
         severity     TEXT NOT NULL,
         title        TEXT,
         message      TEXT NOT NULL,
         detail       TEXT,
         ts           INTEGER NOT NULL,
         session_id   TEXT,
         surface_id   TEXT,
         actions_json TEXT
     );

     CREATE TABLE launch_template (
         id           TEXT PRIMARY KEY,
         project_id   TEXT NOT NULL,
         spec_version INTEGER NOT NULL,
         spec_json    TEXT NOT NULL,
         updated_at   TEXT NOT NULL DEFAULT (datetime('now'))
     );";

/// The ordered migrations; migration `i` brings the store from version `i` to `i + 1`.
pub fn migrations() -> (r: Vec<String>)
    ensures
        r@.len() == 1,
        r@[0]@ == MIGRATION_V1@,
{
    let mut v: Vec<String> = Vec::new();
    v.push(MIGRATION_V1.to_owned());
    v
}

/// The schema version this binary serves.
pub fn current_version() -> (v: u32)
    ensures
        v == 1,
{
    1
}

/// The schema version a store records: its `meta.schema_version` value parsed as
/// a `u32`, or 0 when there is no `meta` table, no recorded value, or a value that
/// does not parse.
pub open spec fn spec_recorded_version(has_meta: bool, recorded: Option<Seq<char>>) -> u32 {
    if !has_meta {
        0
    } else {
        match recorded {
            Some(v) => match spec_parse_u32(v) {
                Some(n) => n,
                None => 0,
            },
            None => 0,
        }
    }
}

/// Decide the store's schema version from what its `meta` table holds.
pub fn recorded_version(has_meta: bool, recorded: Option<&str>) -> (v: u32)
    ensures
        v == spec_recorded_version(
            has_meta,
            match recorded {
                Some(s) => Some(s@),
                None => None,
            },
        ),
        !has_meta ==> v == 0,
        has_meta ==> match recorded {
            Some(s) => match spec_parse_u32(s@) {
                Some(n) => v == n,
                None => v == 0,
            },
            None => v == 0,
        },
{
    if !has_meta {
        return 0;
    }
    match recorded {
        Some(s) => match parse_u32(s) {
            Some(n) => n,
            None => 0,
        },
        None => 0,
    }
}

/// The migrations to apply to a store at version `current` when the binary knows
/// `supported` of them: those with indices `current..supported`, or the refusal of
/// a store that is newer than the binary.
pub fn plan_migrations(current: u32, supported: u32) -> (r: Result<(u32, u32)>)
    ensures
        current > supported ==> r == Err::<(u32, u32), OrchestratorError>(
            OrchestratorError::StoreVersionTooNew { found: current, supported },
        ),
        current <= supported ==> r == Ok::<(u32, u32), OrchestratorError>((current, supported)),
{
    if current > supported {
        Err(OrchestratorError::StoreVersionTooNew { found: current, supported })
    } else {
        Ok((current, supported))
    }
}

/// Without a `meta` table a store is at version 0, whatever else it holds.
pub proof fn law_no_meta_is_version_zero(recorded: Option<Seq<char>>)
    ensures
        spec_recorded_version(false, recorded) == 0,
{
}

/// With a `meta` table whose recorded value parses as a `u32` n, the store is
/// at version n.
pub proof fn law_recorded_value_is_the_version(v: Seq<char>, n: u32)
    requires
        spec_parse_u32(v) == Some(n),
    ensures
        spec_recorded_version(true, Some(v)) == n,
{
}

/// A version written in decimal into the `meta` table is read back as that
/// version.
pub proof fn law_written_version_is_read_back(n: u32)
    ensures
        spec_recorded_version(true, Some(decimal(n as nat))) == n,
{
    law_parse_after_format(n);
}

} // verus!
