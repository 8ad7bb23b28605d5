//! Schema management and the integrity guard: baseline creation on first
//! open, version comparison, the migration plan, the consistency check on
//! reopen, and the backup primitive both paths share.

use vstd::prelude::*;
use vstd::string::*;
use crate::errors::MemoryDbError;
use crate::sql::{copy_file, exec_batch, exec_sql, now_ms, query_single_text, query_text_rows, SqlParam};
use crate::text::{
    lower_str,
    parse_i64,
    push_decimal,
    push_signed_decimal,
    spec_dec_digits,
    spec_lower,
    spec_parse_i64,
    spec_signed_dec,
};

verus! {

/// The schema version this code writes and expects.
pub const SCHEMA_VERSION: i64 = 1;

/// The baseline schema, applied inside one transaction on first open.
pub const SCHEMA_SQL: &'static str = "
CREATE TABLE IF NOT EXISTS memories (
  id TEXT PRIMARY KEY,
  template_id TEXT NOT NULL,
  table_id TEXT NOT NULL,
  contact_id TEXT,
  group_id TEXT,
  row_data TEXT NOT NULL,
  is_active INTEGER NOT NULL DEFAULT 1,
  is_pinned INTEGER NOT NULL DEFAULT 0,
  priority INTEGER NOT NULL DEFAULT 0,
  sort_order INTEGER NOT NULL DEFAULT 0,
  created_at INTEGER NOT NULL,
  updated_at INTEGER NOT NULL
);
CREATE INDEX IF NOT EXISTS idx_memories_contact ON memories(contact_id);
CREATE INDEX IF NOT EXISTS idx_memories_group ON memories(group_id);
CREATE INDEX IF NOT EXISTS idx_memories_template ON memories(template_id);
CREATE TABLE IF NOT EXISTS templates (
  id TEXT PRIMARY KEY,
  name TEXT NOT NULL,
  author TEXT,
  version TEXT,
  description TEXT,
  schema TEXT NOT NULL,
  injection TEXT,
  created_at INTEGER NOT NULL,
  updated_at INTEGER NOT NULL,
  is_default INTEGER NOT NULL DEFAULT 0,
  is_builtin INTEGER NOT NULL DEFAULT 0
);
CREATE INDEX IF NOT EXISTS idx_templates_default ON templates(is_default);
";

/// One step of the migration chain: applying `sql` carries a database
/// from schema version `from` to `to`.
pub struct Migration {
    pub from: i64,
    pub to: i64,
    pub sql: &'static str,
}

/// The migration chain.  There is one schema version so far, so the chain
/// is empty; it is the extension point for future versions.
pub fn migration_chain() -> (r: Vec<Migration>)
    ensures
        r@.len() == 0,
{
    Vec::new()
}

/// Whether the chain has a step carrying `from` to `to`.
pub open spec fn spec_chain_has_step(chain: Seq<Migration>, from: int, to: int) -> bool {
    exists|i: int| 0 <= i < chain.len() && chain[i].from == from && chain[i].to == to
}

/// How many steps of the chain carry `v` to its successor.
pub open spec fn spec_step_count(chain: Seq<Migration>, v: i64) -> int
    decreases chain.len(),
{
    if chain.len() == 0 {
        0
    } else {
        spec_step_count(chain.drop_last(), v) + (if chain.last().from == v && chain.last().to == v
            + 1 {
            1int
        } else {
            0int
        })
    }
}

/// A structurally valid chain has exactly one step out of every version
/// below the target.
pub open spec fn spec_chain_valid(chain: Seq<Migration>, target: i64) -> bool {
    forall|v: i64| 1 <= v < target ==> #[trigger] spec_step_count(chain, v) == 1
}

/// Checks that every version in `1 .. target` has exactly one outgoing
/// migration step to its successor.
pub fn validate_migration_chain(chain: &Vec<Migration>, target: i64) -> (r: bool)
    ensures
        r == spec_chain_valid(chain@, target),
{
    if target <= 1 {
        return true;
    }
    let mut v: i64 = 1;
    while v < target
        invariant
            1 <= v <= target,
            forall|w: i64| 1 <= w < v ==> #[trigger] spec_step_count(chain@, w) == 1,
        decreases target - v,
    {
        let n = chain.len();
        let mut count: usize = 0;
        let mut i: usize = 0;
        proof {
            assert(chain@.take(0) =~= Seq::<Migration>::empty());
        }
        while i < n
            invariant
                i <= n,
                n == chain@.len(),
                count == spec_step_count(chain@.take(i as int), v),
                count <= i,
                1 <= v < target,
            decreases n - i,
        {
            proof {
                assert(chain@.take(i + 1).drop_last() =~= chain@.take(i as int));
                assert(chain@.take(i + 1).last() == chain@[i as int]);
            }
            if chain[i].from == v && chain[i].to == v + 1 {
                count = count + 1;
            }
            i = i + 1;
        }
        proof {
            assert(chain@.take(n as int) =~= chain@);
        }
        if count != 1 {
            return false;
        }
        v = v + 1;
    }
    true
}

/// The position of the step carrying `from` to `to`, if the chain has one.
fn find_migration(chain: &Vec<Migration>, from: i64, to: i64) -> (r: Option<usize>)
    ensures
        (match r {
            Some(i) => i < chain@.len() && chain@[i as int].from == from && chain@[i as int].to
                == to,
            None => !spec_chain_has_step(chain@, from as int, to as int),
        }),
{
    let n = chain.len();
    let mut i: usize = 0;
    while i < n
        invariant
            i <= n,
            n == chain@.len(),
            forall|k: int|
                0 <= k < i ==> !(#[trigger] chain@[k].from == from && chain@[k].to == to),
        decreases n - i,
    {
        if chain[i].from == from && chain[i].to == to {
            return Some(i);
        }
        i = i + 1;
    }
    None
}

/// What the stored version marker means against this code's target.
#[derive(Debug, Clone, Copy, PartialEq, Eq, Structural)]
pub enum SchemaAction {
    /// No version on record: apply the baseline schema.
    InitFresh,
    /// The stored version matches the target.
    UpToDate,
    /// The stored version is older: walk the migration chain.
    Migrate,
    /// The stored version is newer than this code: fatal, never downgraded.
    Incompatible,
}

/// The decision the schema manager takes for a stored version: apply the
/// baseline when no version is on record, fail fast when the store is
/// newer than the code, migrate when it is older, do nothing when equal.
pub open spec fn spec_schema_action(stored: i64, target: i64) -> SchemaAction {
    if stored == 0 {
        SchemaAction::InitFresh
    } else if stored > target {
        SchemaAction::Incompatible
    } else if stored < target {
        SchemaAction::Migrate
    } else {
        SchemaAction::UpToDate
    }
}

pub fn schema_action(stored: i64, target: i64) -> (r: SchemaAction)
    ensures
        r == spec_schema_action(stored, target),
{
    if stored == 0 {
        SchemaAction::InitFresh
    } else if stored > target {
        SchemaAction::Incompatible
    } else if stored < target {
        SchemaAction::Migrate
    } else {
        SchemaAction::UpToDate
    }
}

/// The version a stored marker denotes: the integer it parses to, zero
/// when it is absent or unparsable.
pub open spec fn spec_stored_version(marker: Option<String>) -> i64 {
    match marker {
        Some(s) => match spec_parse_i64(s@) {
            Some(v) => v,
            None => 0,
        },
        None => 0,
    }
}

pub fn stored_version(marker: Option<String>) -> (r: i64)
    ensures
        r == spec_stored_version(marker),
{
    match marker {
        Some(s) => match parse_i64(s.as_str()) {
            Some(v) => v,
            None => 0,
        },
        None => 0,
    }
}

/// The decimal text of a version, as the marker row stores it.
fn version_text(v: i64) -> (r: String)
    ensures
        r@ == spec_signed_dec(v as int),
{
    let mut s = String::new();
    push_signed_decimal(&mut s, v);
    proof {
        assert(Seq::<char>::empty() + spec_signed_dec(v as int) =~= spec_signed_dec(v as int));
    }
    s
}

/// Copies the database file to a sibling snapshot named
/// `<file>.<label>.<timestamp>.bak`, leaving the original untouched.
pub fn backup_database(path: &str, label: &str) -> (r: Result<String, MemoryDbError>)
    ensures
        (r matches Ok(name) ==> exists|stamp: int|
            0 <= stamp && name@ == path@ + "."@ + label@ + "."@ + spec_dec_digits(stamp)
                + ".bak"@),
        (r matches Err(e) ==> e matches MemoryDbError::IOError(_)),
{
    let stamp = now_ms();
    let mut name = String::from_str(path);
    name.append(".");
    name.append(label);
    name.append(".");
    push_decimal(&mut name, stamp as u64);
    name.append(".bak");
    match copy_file(path, name.as_str()) {
        Ok(()) => {
            proof {
                assert(name@ == path@ + "."@ + label@ + "."@ + spec_dec_digits(stamp as int)
                    + ".bak"@);
            }
            Ok(name)
        },
        Err(m) => Err(MemoryDbError::IOError(m)),
    }
}

/// Whether a diagnostic line of the consistency check reports health.
pub open spec fn spec_row_ok(s: Seq<char>) -> bool {
    spec_lower(s) == "ok"@
}

fn row_ok(s: &String) -> (r: bool)
    ensures
        r == spec_row_ok(s@),
{
    let lowered = lower_str(s.as_str());
    lowered == String::from_str("ok")
}

/// Every diagnostic line of the consistency check reports health.
pub open spec fn spec_all_rows_ok(rows: Seq<String>) -> bool {
    forall|i: int| 0 <= i < rows.len() ==> spec_row_ok((#[trigger] rows[i])@)
}

/// The whole-check decision: `None` exactly when every diagnostic line is
/// `ok`; otherwise the first line that is not.
pub fn first_bad_row(rows: &Vec<String>) -> (r: Option<String>)
    ensures
        (r is None <==> spec_all_rows_ok(rows@)),
        (r matches Some(m) ==> exists|i: int|
            {
                &&& 0 <= i < rows@.len()
                &&& !spec_row_ok((#[trigger] rows@[i])@)
                &&& m@ == rows@[i]@
                &&& (forall|k: int| 0 <= k < i ==> spec_row_ok((#[trigger] rows@[k])@))
            }),
{
    let n = rows.len();
    let mut i: usize = 0;
    while i < n
        invariant
            i <= n,
            n == rows@.len(),
            forall|k: int| 0 <= k < i ==> spec_row_ok((#[trigger] rows@[k])@),
        decreases n - i,
    {
        if !row_ok(&rows[i]) {
            let m = rows[i].clone();
            proof {
                assert(!spec_row_ok(rows@[i as int]@));
            }
            return Some(m);
        }
        i = i + 1;
    }
    None
}

/// Runs the structural consistency check on a pre-existing database.  Any
/// diagnostic line other than `ok` means corruption: the file is copied to
/// a `corrupt`-labelled snapshot (the original untouched) and the failure
/// surfaces as `IntegrityFailure`.
pub fn ensure_db_health(conn: &rusqlite::Connection, path: &str) -> (r: Result<(), MemoryDbError>)
    ensures
        (r matches Err(e) ==> (e matches MemoryDbError::IntegrityFailure(_)) || (
        e matches MemoryDbError::IOError(_))),
{
    let rows = match query_text_rows(conn, "PRAGMA quick_check") {
        Ok(rows) => rows,
        Err(m) => {
            // severe corruption can fail the check's own query; that too
            // is an integrity failure, snapshotted like any other
            match backup_database(path, "corrupt") {
                Ok(_) => {},
                Err(e) => {
                    return Err(e);
                },
            }
            return Err(MemoryDbError::IntegrityFailure(m));
        },
    };
    match first_bad_row(&rows) {
        None => Ok(()),
        Some(msg) => {
            match backup_database(path, "corrupt") {
                Ok(_) => {},
                Err(e) => {
                    return Err(e);
                },
            }
            Err(MemoryDbError::IntegrityFailure(msg))
        },
    }
}

/// Applies migration steps until the stored version reaches the target.
/// Before the first step against a pre-existing database the file is
/// snapshotted with the `pre_migrate` label, whether or not the migration
/// later succeeds.  A version with no outgoing step is fatal; each step
/// and its version bump commit in one transaction.
pub fn run_migrations(
    conn: &rusqlite::Connection,
    chain: &Vec<Migration>,
    current: i64,
    target: i64,
    path: &str,
    existed: bool,
) -> (r: Result<(), MemoryDbError>)
    ensures
        (r matches Err(MemoryDbError::MigrationPathMissing(f, t)) ==> current <= f < target && t
            == f + 1 && !spec_chain_has_step(chain@, f as int, f as int + 1)),
        (r matches Err(e) ==> (e matches MemoryDbError::MigrationPathMissing(_, _)) || (
        e matches MemoryDbError::IOError(_))),
        (r is Ok ==> forall|v: i64|
            current <= v < target ==> #[trigger] spec_chain_has_step(
                chain@,
                v as int,
                v as int + 1,
            )),
        (current < target && !spec_chain_has_step(chain@, current as int, current as int + 1))
            ==> (r matches Err(MemoryDbError::MigrationPathMissing(f, t)) && f == current && t
            == current + 1),
{
    if current >= target {
        return Ok(());
    }
    let mut version: i64 = current;
    let mut backed_up = false;
    while version < target
        invariant
            current <= version <= target,
            current < target,
            forall|v: i64|
                current <= v < version ==> #[trigger] spec_chain_has_step(
                    chain@,
                    v as int,
                    v as int + 1,
                ),
        decreases target - version,
    {
        let step = match find_migration(chain, version, version + 1) {
            Some(i) => i,
            None => {
                proof {
                    if !spec_chain_has_step(chain@, current as int, current as int + 1) {
                        assert(version == current);
                    }
                }
                return Err(MemoryDbError::MigrationPathMissing(version, version + 1));
            },
        };
        proof {
            assert(0 <= step < chain@.len() && chain@[step as int].from == version
                && chain@[step as int].to == version + 1);
            assert(spec_chain_has_step(chain@, version as int, version as int + 1));
        }
        if existed && !backed_up {
            match backup_database(path, "pre_migrate") {
                Ok(_) => {},
                Err(e) => {
                    return Err(e);
                },
            }
            backed_up = true;
        }
        match apply_migration_step(conn, chain[step].sql, version + 1) {
            Ok(()) => {},
            Err(e) => {
                return Err(MemoryDbError::IOError(e));
            },
        }
        version = version + 1;
    }
    Ok(())
}

/// One migration step and its version bump, inside one transaction.
fn apply_migration_step(conn: &rusqlite::Connection, sql: &str, next_version: i64) -> Result<
    (),
    String,
> {
    match exec_batch(conn, "BEGIN") {
        Ok(()) => {},
        Err(m) => {
            return Err(m);
        },
    }
    match exec_batch(conn, sql) {
        Ok(()) => {},
        Err(m) => {
            let _ = exec_batch(conn, "ROLLBACK");
            return Err(m);
        },
    }
    match write_version_marker(conn, next_version) {
        Ok(()) => {},
        Err(m) => {
            let _ = exec_batch(conn, "ROLLBACK");
            return Err(m);
        },
    }
    exec_batch(conn, "COMMIT")
}

/// The two parameters of the version-marker upsert: the fixed key, then
/// the version's decimal text.
fn marker_params(version: i64) -> (p: Vec<SqlParam>)
    ensures
        p@.len() == 2,
        (p@[0] matches SqlParam::Text(k) && k@ == "schema_version"@),
        (p@[1] matches SqlParam::Text(v) && v@ == spec_signed_dec(version as int)),
{
    let text = version_text(version);
    let mut params: Vec<SqlParam> = Vec::new();
    params.push(SqlParam::Text(String::from_str("schema_version")));
    params.push(SqlParam::Text(text));
    params
}

/// The single parameter of the version-marker lookup: the fixed key.
fn marker_key_param() -> (p: Vec<SqlParam>)
    ensures
        p@.len() == 1,
        (p@[0] matches SqlParam::Text(k) && k@ == "schema_version"@),
{
    let mut params: Vec<SqlParam> = Vec::new();
    params.push(SqlParam::Text(String::from_str("schema_version")));
    params
}

/// Writes the stored schema version marker.
fn write_version_marker(conn: &rusqlite::Connection, version: i64) -> Result<(), String> {
    let params = marker_params(version);
    match exec_sql(conn, "INSERT OR REPLACE INTO schema_info (key, value) VALUES (?, ?)", params) {
        Ok(_) => Ok(()),
        Err(m) => Err(m),
    }
}

/// Brings a just-opened database to the target schema: creates the marker
/// table, reads the stored version, and acts on the comparison.  A stored
/// version newer than the code fails fast as `SchemaIncompatible` before
/// any write.  The consistency check runs only for files that already
/// existed on disk and had a version on record.
pub fn ensure_schema(conn: &rusqlite::Connection, path: &str, existed: bool) -> (r: Result<
    (),
    MemoryDbError,
>)
    ensures
        (r matches Err(MemoryDbError::SchemaIncompatible(s, t)) ==> s > t && t == SCHEMA_VERSION),
        (!existed ==> !(r matches Err(MemoryDbError::IntegrityFailure(_)))),
        !(r matches Err(MemoryDbError::NotFound)),
        !(r matches Err(MemoryDbError::InvalidInput(_))),
{
    match exec_batch(conn, "CREATE TABLE IF NOT EXISTS schema_info (key TEXT PRIMARY KEY, value TEXT);") {
        Ok(()) => {},
        Err(m) => {
            return Err(MemoryDbError::IOError(m));
        },
    }
    let marker = match query_single_text(
        conn,
        "SELECT value FROM schema_info WHERE key = ?",
        marker_key_param(),
    ) {
        Ok(m) => m,
        Err(m) => {
            return Err(MemoryDbError::IOError(m));
        },
    };
    let current = stored_version(marker);
    match schema_action(current, SCHEMA_VERSION) {
        SchemaAction::InitFresh => {
            match apply_migration_step(conn, SCHEMA_SQL, SCHEMA_VERSION) {
                Ok(()) => Ok(()),
                Err(m) => Err(MemoryDbError::IOError(m)),
            }
        },
        SchemaAction::Incompatible => Err(
            MemoryDbError::SchemaIncompatible(current, SCHEMA_VERSION),
        ),
        SchemaAction::Migrate => {
            let chain = migration_chain();
            match run_migrations(conn, &chain, current, SCHEMA_VERSION, path, existed) {
                Ok(()) => {
                    if existed {
                        ensure_db_health(conn, path)
                    } else {
                        Ok(())
                    }
                },
                Err(e) => Err(e),
            }
        },
        SchemaAction::UpToDate => {
            if existed {
                ensure_db_health(conn, path)
            } else {
                Ok(())
            }
        },
    }
}

} // verus!
