//! Forward-only schema migrations for the history database.

use vstd::prelude::*;

use crate::errors::{db_err, told_by_database, StoreError};
use crate::rows::text_at;
use crate::sql::{
    bound, changed_to, database, execute, execute_batch, no_rows, query, row_data, rows_data, Param,
    Tables, CREATE_META, GET_VERSION, SCHEMA_V1, SET_VERSION,
};
use crate::text::{decimal, decimal_round_trip, i64_text, parse_i64, parsed};

verus! {

broadcast use vstd::string::group_string_axioms;

/// The schema version that this module migrates to.
pub const CURRENT_VERSION: i64 = 1;

/// The schema version that the tables record; one that is missing or is not a
/// number counts as 0.
pub open spec fn version_of(t: Tables) -> int {
    if t.meta.contains_key("schema_version"@) {
        match parsed(t.meta["schema_version"@]) {
            Some(n) => n,
            None => 0,
        }
    } else {
        0
    }
}

/// The tables with the schema version `v` recorded.
pub open spec fn with_version(t: Tables, v: int) -> Tables {
    Tables { meta: t.meta.insert("schema_version"@, decimal(v)), ..t }
}

/// The tables after all migrations: the current version is recorded, unless a
/// higher one is.
pub open spec fn migrated(t: Tables) -> Tables {
    if version_of(t) < CURRENT_VERSION {
        with_version(t, CURRENT_VERSION as int)
    } else {
        t
    }
}

/// Apply all migrations up to [`CURRENT_VERSION`]. A blank database gets empty
/// tables; an owned one keeps what it holds. Either way the current version is
/// recorded, unless the database reports an error; a higher version stays.
pub fn migrate(conn: &mut rusqlite::Connection) -> (r: Result<(), StoreError>)
    ensures
        r is Ok && database(*old(conn)).origin is Blank && database(*old(conn)).tables == no_rows()
            && database(*old(conn)).saved is None ==> database(*final(conn)).ready() && database(
            *final(conn),
        ).tables == with_version(no_rows(), CURRENT_VERSION as int),
        r is Ok && database(*old(conn)).origin is Own ==> changed_to(
            database(*old(conn)),
            database(*final(conn)),
            migrated(database(*old(conn)).tables),
        ),
        !(database(*old(conn)).origin is Unknown) ==> if r is Ok {
            database(*final(conn)).faults == database(*old(conn)).faults
        } else {
            database(*final(conn)).faults > database(*old(conn)).faults
        },
        database(*final(conn)).key == database(*old(conn)).key,
        database(*final(conn)).path == database(*old(conn)).path,
        r matches Err(e) ==> told_by_database(e),
{
    let version = current_version(conn)?;
    if version < 1 {
        v1(conn)?;
    }
    if version < CURRENT_VERSION {
        set_version(conn, CURRENT_VERSION)?;
    }
    Ok(())
}

fn current_version(conn: &mut rusqlite::Connection) -> (r: Result<i64, StoreError>)
    ensures
        !(database(*old(conn)).origin is Unknown) ==> match r {
            Ok(v) => changed_to(
                database(*old(conn)),
                database(*final(conn)),
                database(*old(conn)).tables,
            ) && v == version_of(database(*old(conn)).tables),
            Err(_) => database(*final(conn)).faults > database(*old(conn)).faults,
        },
        database(*final(conn)).key == database(*old(conn)).key,
        database(*final(conn)).path == database(*old(conn)).path,
        r matches Err(e) ==> told_by_database(e),
{
    match execute_batch(conn, CREATE_META) {
        Ok(_) => {},
        Err(e) => return Err(db_err(e)),
    }
    let rows = match query(conn, GET_VERSION, &Vec::new(), &Vec::new()) {
        Ok(rows) => rows,
        Err(e) => return Err(db_err(e)),
    };
    assert(rows_data(rows@).len() == rows@.len());
    if rows.len() == 0 {
        return Ok(0);
    }
    assert(rows_data(rows@)[0] == row_data(rows@[0]));
    let value = text_at(&rows[0], 0, "value")?;
    match parse_i64(value.as_str()) {
        Some(v) => Ok(v),
        None => Ok(0),
    }
}

fn set_version(conn: &mut rusqlite::Connection, v: i64) -> (r: Result<(), StoreError>)
    ensures
        !(database(*old(conn)).origin is Unknown) ==> match r {
            Ok(_) => changed_to(
                database(*old(conn)),
                database(*final(conn)),
                with_version(database(*old(conn)).tables, v as int),
            ),
            Err(_) => database(*final(conn)).faults > database(*old(conn)).faults,
        },
        database(*final(conn)).key == database(*old(conn)).key,
        database(*final(conn)).path == database(*old(conn)).path,
        r matches Err(e) ==> told_by_database(e),
{
    let mut params: Vec<Param> = Vec::new();
    params.push(Param::Text(i64_text(v)));
    assert(bound(params@)[0] == params@[0]@);
    match execute(conn, SET_VERSION, params) {
        Ok(_) => Ok(()),
        Err(e) => Err(db_err(e)),
    }
}

/// Version 1: the initial full schema.
fn v1(conn: &mut rusqlite::Connection) -> (r: Result<(), StoreError>)
    ensures
        r is Ok && database(*old(conn)).origin is Blank ==> database(*final(conn)).origin is Own
            && database(*final(conn)).saved == database(*old(conn)).saved && database(
            *final(conn),
        ).tables == (Tables { meta: database(*old(conn)).tables.meta, ..no_rows() }) && database(
            *final(conn),
        ).faults == database(*old(conn)).faults,
        r is Err ==> database(*final(conn)).faults > database(*old(conn)).faults,
        r is Ok && database(*old(conn)).origin is Own ==> changed_to(
            database(*old(conn)),
            database(*final(conn)),
            database(*old(conn)).tables,
        ),
        database(*final(conn)).key == database(*old(conn)).key,
        database(*final(conn)).path == database(*old(conn)).path,
        r matches Err(e) ==> told_by_database(e),
{
    match execute_batch(conn, SCHEMA_V1) {
        Ok(_) => Ok(()),
        Err(e) => Err(db_err(e)),
    }
}

/// Migrations are forward-only: the version that a database records never goes
/// down, and is the current one at least.
pub proof fn migration_is_forward_only(t: Tables)
    ensures
        version_of(migrated(t)) >= version_of(t),
        version_of(migrated(t)) >= CURRENT_VERSION,
        version_of(t) <= CURRENT_VERSION ==> version_of(migrated(t)) == CURRENT_VERSION,
{
    decimal_round_trip(CURRENT_VERSION);
}

/// Migrating a database that has been migrated changes nothing.
pub proof fn migration_is_idempotent(t: Tables)
    ensures
        migrated(migrated(t)) == migrated(t),
{
    migration_is_forward_only(t);
}

/// Migrating raises the recorded version to 1 and no further, and touches nothing else: no
/// row of the history, and nothing else that is recorded. A version that is missing or is
/// not a number counts as 0.
pub proof fn migration_touches_the_version_alone(t: Tables, key: Seq<char>)
    ensures
        version_of(t) < 1 ==> version_of(migrated(t)) == 1,
        version_of(t) >= 1 ==> migrated(t) == t,
        migrated(t).entries == t.entries,
        migrated(t).targets == t.targets,
        migrated(t).index == t.index,
        migrated(t).groups == t.groups,
        key != "schema_version"@ ==> migrated(t).meta.contains_key(key) == t.meta.contains_key(key)
            && migrated(t).meta[key] == t.meta[key],
        !t.meta.contains_key("schema_version"@) ==> version_of(t) == 0,
        t.meta.contains_key("schema_version"@) && parsed(t.meta["schema_version"@]) is None
            ==> version_of(t) == 0,
        t.meta.contains_key("schema_version"@) ==> (parsed(
            t.meta["schema_version"@],
        ) matches Some(v) ==> version_of(t) == v),
{
    decimal_round_trip(1);
}

/// The version that is recorded is the one that is read.
pub proof fn version_is_read_back(t: Tables, v: i64)
    ensures
        version_of(with_version(t, v as int)) == v,
        with_version(t, v as int).entries == t.entries,
        with_version(t, v as int).targets == t.targets,
        with_version(t, v as int).index == t.index,
        with_version(t, v as int).groups == t.groups,
{
    decimal_round_trip(v);
}

} // verus!
