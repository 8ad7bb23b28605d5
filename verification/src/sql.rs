//! Trusted wrappers around the embedded database engine (rusqlite) and the
//! two filesystem primitives the lifecycle needs (fs_err).  Verus believes
//! each wrapper's contract; each body only makes the outside call and
//! converts its arguments and result.

use vstd::prelude::*;
use rusqlite::OptionalExtension;

verus! {

#[verifier::external_type_specification]
#[verifier::external_body]
pub struct ExConnection(rusqlite::Connection);

/// One positional SQL parameter, as the repository binds them.
#[derive(Debug, Clone)]
pub enum SqlParam {
    Null,
    Int(i64),
    Text(String),
}

/// One memory row as the database returns it, flags still as integers.
#[derive(Debug, Clone)]
pub struct MemoryRowRaw {
    pub id: String,
    pub template_id: String,
    pub table_id: String,
    pub contact_id: Option<String>,
    pub group_id: Option<String>,
    pub row_data: String,
    pub is_active: i64,
    pub is_pinned: i64,
    pub priority: i64,
    pub sort_order: i64,
    pub created_at: i64,
    pub updated_at: i64,
}

/// One template row as the database returns it, flags still as integers.
#[derive(Debug, Clone)]
pub struct TemplateRowRaw {
    pub id: String,
    pub name: String,
    pub author: Option<String>,
    pub version: Option<String>,
    pub description: Option<String>,
    pub schema: String,
    pub injection: Option<String>,
    pub created_at: i64,
    pub updated_at: i64,
    pub is_default: i64,
    pub is_builtin: i64,
}

/// Relies on `rusqlite::Connection::open_with_flags`: opens (creating if
/// absent) the database file at `path` for reading and writing.  What it
/// returns depends on the disk, so nothing is promised of the outcome.
#[verifier::external_body]
pub fn open_db_file(path: &str) -> Result<rusqlite::Connection, String> {
    rusqlite::Connection::open_with_flags(
        path,
        rusqlite::OpenFlags::SQLITE_OPEN_READ_WRITE | rusqlite::OpenFlags::SQLITE_OPEN_CREATE
            | rusqlite::OpenFlags::SQLITE_OPEN_FULL_MUTEX,
    ).map_err(|e| e.to_string())
}

/// Relies on `rusqlite::Connection::busy_timeout`: bounds how long a
/// blocked caller waits on a locked database.  The call converts the
/// timeout to a signed 32-bit millisecond count and aborts past that
/// range, so larger values are excluded here.
#[verifier::external_body]
pub fn set_busy_timeout(conn: &rusqlite::Connection, millis: u64) -> Result<(), String>
    requires
        millis <= 0x7fff_ffff,
{
    conn.busy_timeout(core::time::Duration::from_millis(millis)).map_err(|e| e.to_string())
}

/// Relies on `rusqlite::Connection::pragma_update`: sets one pragma.
#[verifier::external_body]
pub fn set_pragma(conn: &rusqlite::Connection, name: &str, value: &str) -> Result<(), String> {
    conn.pragma_update(None, name, value).map_err(|e| e.to_string())
}

/// Relies on `rusqlite::Connection::execute`: runs one parameterized
/// statement; `Ok` carries the number of rows changed, which depends on
/// the database's contents, so nothing is promised of it.
#[verifier::external_body]
pub fn exec_sql(conn: &rusqlite::Connection, sql: &str, params: Vec<SqlParam>) -> Result<
    usize,
    String,
> {
    let values: Vec<rusqlite::types::Value> = params.into_iter().map(
        |p|
            match p {
                SqlParam::Null => rusqlite::types::Value::Null,
                SqlParam::Int(i) => rusqlite::types::Value::Integer(i),
                SqlParam::Text(s) => rusqlite::types::Value::Text(s),
            },
    ).collect();
    conn.execute(sql, rusqlite::params_from_iter(values)).map_err(|e| e.to_string())
}

/// Relies on `rusqlite::Connection::execute_batch`: runs a script of
/// statements.
#[verifier::external_body]
pub fn exec_batch(conn: &rusqlite::Connection, sql: &str) -> Result<(), String> {
    conn.execute_batch(sql).map_err(|e| e.to_string())
}

/// Relies on `rusqlite::Connection::query_row` and
/// `rusqlite::OptionalExtension::optional`: runs a single-column text
/// query, `Ok(None)` when no row matched.
#[verifier::external_body]
pub fn query_single_text(conn: &rusqlite::Connection, sql: &str, params: Vec<SqlParam>) -> Result<
    Option<String>,
    String,
> {
    let values: Vec<rusqlite::types::Value> = params.into_iter().map(
        |p|
            match p {
                SqlParam::Null => rusqlite::types::Value::Null,
                SqlParam::Int(i) => rusqlite::types::Value::Integer(i),
                SqlParam::Text(s) => rusqlite::types::Value::Text(s),
            },
    ).collect();
    conn.query_row(sql, rusqlite::params_from_iter(values), |row| row.get(0)).optional().map_err(
        |e| e.to_string(),
    )
}

/// Relies on `rusqlite::Statement::query_map`: runs a query and returns
/// the first column of every row as text, in row order.
#[verifier::external_body]
pub fn query_text_rows(conn: &rusqlite::Connection, sql: &str) -> Result<Vec<String>, String> {
    let mut stmt = conn.prepare(sql).map_err(|e| e.to_string())?;
    let rows = stmt.query_map([], |row| row.get(0)).map_err(|e| e.to_string())?;
    rows.collect::<Result<Vec<String>, _>>().map_err(|e| e.to_string())
}

/// Builds a raw memory row from its twelve columns, in schema order.
fn memory_row_raw(
    id: String,
    template_id: String,
    table_id: String,
    contact_id: Option<String>,
    group_id: Option<String>,
    row_data: String,
    is_active: i64,
    is_pinned: i64,
    priority: i64,
    sort_order: i64,
    created_at: i64,
    updated_at: i64,
) -> MemoryRowRaw {
    MemoryRowRaw {
        id,
        template_id,
        table_id,
        contact_id,
        group_id,
        row_data,
        is_active,
        is_pinned,
        priority,
        sort_order,
        created_at,
        updated_at,
    }
}

/// Relies on `rusqlite::Statement::query_map`: reads every memory row.
/// The columns are, in order, the fields of [`MemoryRowRaw`].  What comes
/// back depends on the file on disk, so nothing is promised of the rows.
#[verifier::external_body]
pub fn fetch_memory_rows(conn: &rusqlite::Connection, sql: &str) -> Result<
    Vec<MemoryRowRaw>,
    String,
> {
    let mut stmt = conn.prepare(sql).map_err(|e| e.to_string())?;
    let rows = stmt.query_map(
        [],
        |r|
            Ok(memory_row_raw(
                r.get(0)?, r.get(1)?, r.get(2)?, r.get(3)?, r.get(4)?, r.get(5)?,
                r.get(6)?, r.get(7)?, r.get(8)?, r.get(9)?, r.get(10)?, r.get(11)?,
            )),
    ).map_err(|e| e.to_string())?;
    rows.collect::<Result<Vec<MemoryRowRaw>, _>>().map_err(|e| e.to_string())
}

/// Builds a raw template row from its eleven columns, in schema order.
fn template_row_raw(
    id: String,
    name: String,
    author: Option<String>,
    version: Option<String>,
    description: Option<String>,
    schema: String,
    injection: Option<String>,
    created_at: i64,
    updated_at: i64,
    is_default: i64,
    is_builtin: i64,
) -> TemplateRowRaw {
    TemplateRowRaw {
        id,
        name,
        author,
        version,
        description,
        schema,
        injection,
        created_at,
        updated_at,
        is_default,
        is_builtin,
    }
}

/// Relies on `rusqlite::Statement::query_map`: reads every template row.
/// The columns are, in order, the fields of [`TemplateRowRaw`].
#[verifier::external_body]
pub fn fetch_template_rows(conn: &rusqlite::Connection, sql: &str) -> Result<
    Vec<TemplateRowRaw>,
    String,
> {
    let mut stmt = conn.prepare(sql).map_err(|e| e.to_string())?;
    let rows = stmt.query_map(
        [],
        |r|
            Ok(template_row_raw(
                r.get(0)?, r.get(1)?, r.get(2)?, r.get(3)?, r.get(4)?, r.get(5)?,
                r.get(6)?, r.get(7)?, r.get(8)?, r.get(9)?, r.get(10)?,
            )),
    ).map_err(|e| e.to_string())?;
    rows.collect::<Result<Vec<TemplateRowRaw>, _>>().map_err(|e| e.to_string())
}

/// Relies on `fs_err::metadata`: whether a path exists on disk.  The
/// answer depends on the disk, so nothing is promised of it.
#[verifier::external_body]
pub fn file_exists(path: &str) -> bool {
    fs_err::metadata(path).is_ok()
}

/// Relies on `fs_err::create_dir_all`: creates a directory and its
/// parents; succeeds when they already exist.
#[verifier::external_body]
pub fn ensure_dir(path: &str) -> Result<(), String> {
    fs_err::create_dir_all(path).map_err(|e| e.to_string())
}

/// Relies on `fs_err::copy`: copies the file at `from` to `to`, leaving
/// `from` untouched.
#[verifier::external_body]
pub fn copy_file(from: &str, to: &str) -> Result<(), String> {
    fs_err::copy(from, to).map(|_| ()).map_err(|e| e.to_string())
}

/// Relies on `std::time::SystemTime::now`: milliseconds since the epoch,
/// zero if the clock reads before it.  The clock is not monotonic, so
/// only nonnegativity is promised.
#[verifier::external_body]
pub fn now_ms() -> (r: i64)
    ensures
        r >= 0,
{
    match std::time::SystemTime::now().duration_since(std::time::SystemTime::UNIX_EPOCH) {
        Ok(d) => {
            let ms = d.as_millis();
            if ms > i64::MAX as u128 {
                i64::MAX
            } else {
                ms as i64
            }
        },
        Err(_) => 0,
    }
}

} // verus!
