use crate::error::{engine_error, StorageError};
use crate::rows::version_from_rows;
use crate::sqlite::{
    begin, commit_transaction, connection_of, execute, load_array_module, query,
};
use crate::statement::{
    advance_version, plain, select_version, CREATE_VERSION_TABLE, SEED_VERSION,
};
use vstd::prelude::*;

verus! {

/// The number of migration steps, and so the version of an up-to-date store.
pub const LATEST_VERSION: usize = 5;

/// To version 1: the notes.
pub const CREATE_NOTES: &'static str = "CREATE TABLE notes(\
    id INTEGER NOT NULL PRIMARY KEY AUTOINCREMENT, \
    text VARCHAR NOT NULL, \
    timestamp BIGINT)";

/// To version 2: the tags.
pub const CREATE_TAGS: &'static str =
    "CREATE TABLE tags(tag VARCHAR NOT NULL PRIMARY KEY, color VARCHAR NOT NULL)";

/// To version 3: the pairings of tags with notes, one for each pair at most.
pub const CREATE_TAG_MAP: &'static str = "CREATE TABLE tag_map(\
    tag VARCHAR NOT NULL, \
    note_id BIGINT NOT NULL, \
    status INT NOT NULL, \
    PRIMARY KEY (tag, note_id), \
    FOREIGN KEY(note_id) REFERENCES notes(id), \
    FOREIGN KEY(tag) REFERENCES tags(tag))";

/// To version 4: the log of status changes.
pub const CREATE_TAG_MAP_HISTORY: &'static str = "CREATE TABLE tag_map_history(\
    id INTEGER NOT NULL PRIMARY KEY AUTOINCREMENT, \
    tag VARCHAR NOT NULL, \
    note_id BIGINT NOT NULL, \
    status INT NOT NULL, \
    timestamp BIGINT, \
    FOREIGN KEY(note_id) REFERENCES notes(id), \
    FOREIGN KEY(tag) REFERENCES tags(tag))";

/// To version 5: the type of a note; the notes that exist become text notes.
pub const ADD_NOTE_TYPE: &'static str =
    "ALTER TABLE notes ADD COLUMN note_type INTEGER NOT NULL DEFAULT 0";

/// One step of the schema's history: the structural change that leads to `version`.
#[derive(Debug, Clone, Copy)]
pub struct Migration {
    pub version: i32,
    pub sql: &'static str,
}

/// The structural change that leads to `version`; there is one for each version from 1 to
/// the latest, and the list only ever grows at its end.
pub open spec fn evolution_sql(version: int) -> Option<Seq<char>> {
    if version == 1 {
        Some(CREATE_NOTES@)
    } else if version == 2 {
        Some(CREATE_TAGS@)
    } else if version == 3 {
        Some(CREATE_TAG_MAP@)
    } else if version == 4 {
        Some(CREATE_TAG_MAP_HISTORY@)
    } else if version == 5 {
        Some(ADD_NOTE_TYPE@)
    } else {
        None
    }
}

/// The versions that a store at `db_version` has still to reach, in order: every version
/// above it up to the latest.
pub open spec fn pending_versions(db_version: int) -> Seq<int> {
    if 0 <= db_version < LATEST_VERSION {
        Seq::new((LATEST_VERSION - db_version) as nat, |k: int| db_version + 1 + k)
    } else {
        Seq::empty()
    }
}

/// What the count of rows that the conditional update changed means for the step to
/// `version`: exactly one row is success, anything else fails the migration.
pub open spec fn advanced(affected: int, version: int) -> Result<(), StorageError> {
    if affected == 1 {
        Ok(())
    } else {
        Err(StorageError::Migration { version: version as i32 })
    }
}

/// The version cell after the conditional update to `version`: it moves only from the
/// version just before.
pub open spec fn cell_after(cell: int, version: int) -> int {
    if cell == version - 1 {
        version
    } else {
        cell
    }
}

/// The number of rows that the conditional update to `version` changes.
pub open spec fn rows_affected(cell: int, version: int) -> int {
    if cell == version - 1 {
        1
    } else {
        0
    }
}

/// A version cell that holds `cell`, taken through the steps to `versions` in order: the
/// cell at the end, and the first failure if there is one. A step that fails is rolled back
/// and ends the run.
pub open spec fn run(cell: int, versions: Seq<int>) -> (int, Result<(), StorageError>)
    decreases versions.len(),
{
    if versions.len() == 0 {
        (cell, Ok(()))
    } else {
        match advanced(rows_affected(cell, versions[0]), versions[0]) {
            Ok(_) => run(cell_after(cell, versions[0]), versions.drop_first()),
            Err(e) => (cell, Err(e)),
        }
    }
}

/// The structural change that leads to `version`.
pub fn evolution(version: usize) -> (sql: Option<&'static str>)
    ensures
        match sql {
            Some(s) => evolution_sql(version as int) == Some(s@),
            None => evolution_sql(version as int) is None,
        },
{
    if version == 1 {
        Some(CREATE_NOTES)
    } else if version == 2 {
        Some(CREATE_TAGS)
    } else if version == 3 {
        Some(CREATE_TAG_MAP)
    } else if version == 4 {
        Some(CREATE_TAG_MAP_HISTORY)
    } else if version == 5 {
        Some(ADD_NOTE_TYPE)
    } else {
        None
    }
}

/// The steps that a store at `db_version` has still to take, in order: one for every
/// version above it up to the latest, none for a store that is up to date or beyond.
pub fn pending_migrations(db_version: usize) -> (plan: Vec<Migration>)
    ensures
        plan.len() == pending_versions(db_version as int).len(),
        forall|k: int|
            0 <= k < plan.len() ==> (#[trigger] plan[k]).version == pending_versions(
                db_version as int,
            )[k] && evolution_sql(plan[k].version as int) == Some(plan[k].sql@),
{
    let mut plan: Vec<Migration> = Vec::new();
    let mut v: usize = db_version;
    while v < LATEST_VERSION
        invariant
            db_version <= v,
            v <= LATEST_VERSION || v == db_version,
            plan.len() == v - db_version,
            forall|k: int|
                0 <= k < plan.len() ==> (#[trigger] plan[k]).version == db_version + 1 + k
                    && evolution_sql(plan[k].version as int) == Some(plan[k].sql@),
        decreases LATEST_VERSION - v,
    {
        v += 1;
        match evolution(v) {
            Some(sql) => {
                plan.push(Migration { version: v as i32, sql });
            },
            None => {
                assert(false);
            },
        }
    }
    plan
}

/// Judges the count of rows that the conditional update to `version` changed.
pub fn check_advanced(affected: usize, version: i32) -> (r: Result<(), StorageError>)
    ensures
        r == advanced(affected as int, version as int),
{
    if affected != 1 {
        Err(StorageError::Migration { version })
    } else {
        Ok(())
    }
}

/// From any version up to the latest, the pending steps bring the version cell to the
/// latest version, one step at a time and without a failure; for a store that is up to date
/// no step is pending, so that bringing it up to date again changes nothing.
pub proof fn lemma_migration_reaches_latest(db_version: int)
    requires
        0 <= db_version <= LATEST_VERSION,
    ensures
        run(db_version, pending_versions(db_version)) == (LATEST_VERSION as int, Ok::<(), StorageError>(())),
        pending_versions(db_version).len() == LATEST_VERSION - db_version,
        pending_versions(LATEST_VERSION as int).len() == 0,
    decreases LATEST_VERSION - db_version,
{
    if db_version < LATEST_VERSION {
        lemma_migration_reaches_latest(db_version + 1);
        assert(pending_versions(db_version).drop_first() =~= pending_versions(db_version + 1));
    }
}

/// However a run goes, the version cell never moves back, and it moves by exactly one for
/// each step that succeeds: a run that succeeds on steps that each follow the cell's
/// version ends at the last of them.
pub proof fn lemma_run_is_monotonic(cell: int, versions: Seq<int>)
    ensures
        run(cell, versions).0 >= cell,
        run(cell, versions).0 <= cell + versions.len(),
        run(cell, versions).1 is Ok ==> run(cell, versions).0 == cell + versions.len(),
    decreases versions.len(),
{
    if versions.len() > 0 {
        if advanced(rows_affected(cell, versions[0]), versions[0]) is Ok {
            lemma_run_is_monotonic(cell_after(cell, versions[0]), versions.drop_first());
        }
    }
}

/// A step whose conditional update finds another version than the one just before it
/// fails with a migration error, and leaves the cell as it was.
pub proof fn lemma_stale_step_fails(cell: int, version: int)
    requires
        cell != version - 1,
    ensures
        run(cell, seq![version]) == (
            cell,
            Err::<(), StorageError>(StorageError::Migration { version: version as i32 }),
        ),
{
}

/// Creates the version cell if the store has none, with version 0.
fn init_version_table(conn: &rusqlite::Connection) -> (r: Result<(), StorageError>)
    ensures
        r matches Err(e) ==> e is ConstraintViolation || e is Database,
{
    match execute(conn, &plain(CREATE_VERSION_TABLE)) {
        Ok(_) => {},
        Err(e) => {
            return Err(engine_error(&e));
        },
    }
    match execute(conn, &plain(SEED_VERSION)) {
        Ok(_) => Ok(()),
        Err(e) => Err(engine_error(&e)),
    }
}

/// Reads the version cell.
fn get_db_version(conn: &rusqlite::Connection) -> (r: Result<usize, StorageError>)
    ensures
        r matches Ok(v) ==> v <= i32::MAX,
        r matches Err(e) ==> !(e is Migration),
{
    match query(conn, &select_version()) {
        Ok(rows) => version_from_rows(&rows),
        Err(e) => Err(engine_error(&e)),
    }
}

/// Takes the store through one step, in a transaction of its own: the structural change,
/// then the conditional update of the version cell. Unless that update changes exactly one
/// row the step fails with a migration error for its version, and the transaction is
/// dropped, which rolls the change back.
fn evolve(conn: &mut rusqlite::Connection, step: &Migration) -> (r: Result<(), StorageError>)
    ensures
        r matches Err(StorageError::Migration { version }) ==> version == step.version,
{
    let tx = match begin(conn) {
        Ok(tx) => tx,
        Err(e) => {
            return Err(engine_error(&e));
        },
    };
    match execute(connection_of(&tx), &plain(step.sql)) {
        Ok(_) => {},
        Err(e) => {
            return Err(engine_error(&e));
        },
    }
    let affected = match execute(connection_of(&tx), &advance_version(step.version)) {
        Ok(n) => n,
        Err(e) => {
            return Err(engine_error(&e));
        },
    };
    check_advanced(affected, step.version)?;
    match commit_transaction(tx) {
        Ok(_) => Ok(()),
        Err(e) => Err(engine_error(&e)),
    }
}

/// Reads the store's version and takes the store through every pending step, in order,
/// stopping at the first that fails.
fn evolve_all_versions(conn: &mut rusqlite::Connection) -> (r: Result<(), StorageError>)
    ensures
        r matches Err(StorageError::Migration { version }) ==> 1 <= version <= LATEST_VERSION,
{
    let db_version = get_db_version(conn)?;
    let plan = pending_migrations(db_version);
    let mut k: usize = 0;
    while k < plan.len()
        invariant
            k <= plan.len(),
            plan.len() == pending_versions(db_version as int).len(),
            forall|j: int|
                0 <= j < plan.len() ==> (#[trigger] plan[j]).version == pending_versions(
                    db_version as int,
                )[j],
        decreases plan.len() - k,
    {
        match evolve(conn, &plan[k]) {
            Ok(_) => {},
            Err(e) => {
                assert(plan[k as int].version == pending_versions(db_version as int)[k as int]);
                return Err(e);
            },
        }
        k += 1;
    }
    Ok(())
}

/// Brings a store that was just opened to the latest schema version: creates the version
/// cell where there is none, applies every pending step, each in its own transaction, and
/// registers `rarray`. A failure leaves the store at the last version that was committed.
pub fn init(conn: &mut rusqlite::Connection) -> (r: Result<(), StorageError>)
    ensures
        r matches Err(StorageError::Migration { version }) ==> 1 <= version <= LATEST_VERSION,
{
    init_version_table(conn)?;
    evolve_all_versions(conn)?;
    match load_array_module(conn) {
        Ok(_) => Ok(()),
        Err(e) => Err(engine_error(&e)),
    }
}

} // verus!
