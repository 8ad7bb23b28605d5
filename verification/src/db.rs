//! The scoped database manager: one mirror-backed connection per scope
//! key, acquired lazily, schema-checked and integrity-checked on open, and
//! the repository operations the command layer calls.
//!
//! Two provider strategies share this code: the pooled one caches an open
//! entry per scope key, the ephemeral one discards every entry when the
//! call completes.  The choice is a resource-lifetime policy fixed at
//! construction, never a functional difference.

use vstd::prelude::*;
use vstd::string::*;
use crate::errors::MemoryDbError;
use crate::records::{
    spec_built_memory,
    spec_generated_id,
    spec_create_id_rule,
    spec_created_row,
    MemoryCreateInput,
    MemoryQuery,
    MemoryRecord,
    MemoryRecordView,
    MemoryUpdateInput,
    TemplateInput,
    TemplateQuery,
    TemplateRecord,
    TemplateRecordView,
};
use crate::schema::ensure_schema;
use crate::scope::{db_path_for, normalize_scope_id, spec_normalize_scope, spec_scope_view};
use crate::sql::{
    ensure_dir,
    exec_batch,
    exec_sql,
    fetch_memory_rows,
    fetch_template_rows,
    file_exists,
    now_ms,
    open_db_file,
    set_busy_timeout,
    set_pragma,
    MemoryRowRaw,
    SqlParam,
    TemplateRowRaw,
};
use crate::store::{
    dedup_memories,
    dedup_templates,
    find_memory_in,
    mem_views,
    spec_batch_delete,
    spec_delete_one,
    spec_mem_ids_unique,
    spec_tpl_ids_unique,
    tpl_views,
    ScopeState,
};

verus! {

/// How long a caller blocks on a locked database before failing, in
/// milliseconds.
pub const BUSY_TIMEOUT_MS: u64 = 5000;

/// One cached scope: its normalized key, the open connection, and the
/// in-memory mirror of its rows.
pub struct PoolEntry {
    pub key: String,
    pub conn: rusqlite::Connection,
    pub state: ScopeState,
}

/// Whether some entry carries this scope key.
pub open spec fn pool_has(p: Seq<PoolEntry>, k: Seq<char>) -> bool {
    exists|i: int| 0 <= i < p.len() && p[i].key@ == k
}

/// The position of the entry with this scope key.
pub open spec fn pool_index(p: Seq<PoolEntry>, k: Seq<char>) -> int {
    choose|i: int| 0 <= i < p.len() && p[i].key@ == k
}

/// The mirror of the scope with this key.
pub open spec fn pool_state(p: Seq<PoolEntry>, k: Seq<char>) -> ScopeState {
    p[pool_index(p, k)].state
}

/// Scope keys are distinct and every mirror is well formed.
pub open spec fn pool_wf(p: Seq<PoolEntry>) -> bool {
    &&& (forall|i: int, j: int| 0 <= i < j < p.len() ==> p[i].key@ != p[j].key@)
    &&& (forall|i: int| 0 <= i < p.len() ==> (#[trigger] p[i].state).wf())
}

/// The scoped database manager.
pub struct MemoryDb {
    pub base_dir: String,
    pub pooled: bool,
    pub id_counter: u64,
    pub pool: Vec<PoolEntry>,
}

impl MemoryDb {
    /// Whether this scope is open.
    pub open spec fn has_scope(self, k: Seq<char>) -> bool {
        pool_has(self.pool@, k)
    }

    /// The mirror of an open scope.
    pub open spec fn state_of(self, k: Seq<char>) -> ScopeState {
        pool_state(self.pool@, k)
    }

    pub open spec fn wf(self) -> bool {
        pool_wf(self.pool@)
    }

    /// Frame: the strategy and base directory never change.
    pub open spec fn same_config(self, other: MemoryDb) -> bool {
        self.pooled == other.pooled && self.base_dir@ == other.base_dir@
    }
}

/// Every scope other than `k` is exactly as it was: open scopes stay open
/// with unchanged mirrors, closed ones stay closed.  Together with the
/// injectivity of scope file names this is the isolation guarantee:
/// operations under one scope never touch another's records.
pub open spec fn spec_other_scopes_unchanged(pre: MemoryDb, post: MemoryDb, k: Seq<char>) -> bool {
    forall|k2: Seq<char>|
        k2 != k ==> ((#[trigger] post.has_scope(k2)) == pre.has_scope(k2) && (pre.has_scope(k2)
            ==> post.state_of(k2) == pre.state_of(k2)))
}

/// An entry of the pool was replaced by one with the same key, everything
/// else untouched: every other scope is preserved.
proof fn lemma_entry_update_preserves_others(
    pre: Seq<PoolEntry>,
    post: Seq<PoolEntry>,
    i: int,
    k: Seq<char>,
)
    requires
        pool_wf(pre),
        0 <= i < pre.len(),
        post.len() == pre.len(),
        pre[i].key@ == k,
        post[i].key@ == k,
        forall|j: int| 0 <= j < pre.len() && j != i ==> post[j] == pre[j],
    ensures
        forall|k2: Seq<char>|
            k2 != k ==> ((#[trigger] pool_has(post, k2)) == pool_has(pre, k2) && (pool_has(pre, k2)
                ==> pool_state(post, k2) == pool_state(pre, k2))),
{
    assert forall|k2: Seq<char>| k2 != k implies ((#[trigger] pool_has(post, k2)) == pool_has(
        pre,
        k2,
    ) && (pool_has(pre, k2) ==> pool_state(post, k2) == pool_state(pre, k2))) by {
        if pool_has(pre, k2) {
            let j = pool_index(pre, k2);
            assert(0 <= j < pre.len() && pre[j].key@ == k2);
            assert(j != i);
            assert(post[j].key@ == k2);
            assert(pool_has(post, k2));
            let j2 = pool_index(post, k2);
            assert(0 <= j2 < post.len() && post[j2].key@ == k2);
            if j2 != j {
                if j2 == i {
                    assert(post[j2].key@ == k);
                } else {
                    assert(pre[j2].key@ == k2);
                    assert(j != j2 && pre[j].key@ == pre[j2].key@);
                }
            }
            assert(pool_state(post, k2) == pool_state(pre, k2));
        }
        if pool_has(post, k2) {
            let j = pool_index(post, k2);
            assert(0 <= j < post.len() && post[j].key@ == k2);
            assert(j != i);
            assert(pre[j].key@ == k2);
            assert(pool_has(pre, k2));
        }
    }
}

/// A new entry with a fresh key was appended: every other scope is
/// preserved.
proof fn lemma_entry_push_preserves_others(pre: Seq<PoolEntry>, post: Seq<PoolEntry>, k: Seq<char>)
    requires
        pool_wf(pre),
        !pool_has(pre, k),
        post.len() == pre.len() + 1,
        post[pre.len() as int].key@ == k,
        forall|j: int| 0 <= j < pre.len() ==> post[j] == pre[j],
    ensures
        forall|k2: Seq<char>|
            k2 != k ==> ((#[trigger] pool_has(post, k2)) == pool_has(pre, k2) && (pool_has(pre, k2)
                ==> pool_state(post, k2) == pool_state(pre, k2))),
        pool_has(post, k),
        pool_state(post, k) == post[pre.len() as int].state,
        pool_wf(pre) && post[pre.len() as int].state.wf() ==> pool_wf(post),
{
    let n = pre.len() as int;
    assert forall|k2: Seq<char>| k2 != k implies ((#[trigger] pool_has(post, k2)) == pool_has(
        pre,
        k2,
    ) && (pool_has(pre, k2) ==> pool_state(post, k2) == pool_state(pre, k2))) by {
        if pool_has(pre, k2) {
            let j = pool_index(pre, k2);
            assert(post[j].key@ == k2);
            assert(pool_has(post, k2));
            let j2 = pool_index(post, k2);
            if j2 == n {
                assert(post[j2].key@ == k);
            } else {
                assert(pre[j2].key@ == k2);
                if j2 != j {
                    assert(pre[j].key@ == pre[j2].key@);
                }
            }
            assert(pool_state(post, k2) == pool_state(pre, k2));
        }
        if pool_has(post, k2) {
            let j = pool_index(post, k2);
            if j == n {
                assert(post[j].key@ == k);
            } else {
                assert(pre[j].key@ == k2);
                assert(pool_has(pre, k2));
            }
        }
    }
    assert(pool_has(post, k));
    let jk = pool_index(post, k);
    if jk != n {
        assert(pre[jk].key@ == k);
        assert(pool_has(pre, k));
    }
    if post[n].state.wf() {
        assert forall|i: int, j: int| 0 <= i < j < post.len() implies post[i].key@ != post[j].key@
        by {
            if j < n {
            } else {
                assert(j == n);
                if post[i].key@ == k {
                    assert(pre[i].key@ == k);
                    assert(pool_has(pre, k));
                }
            }
        }
        assert(forall|i: int| 0 <= i < post.len() ==> (#[trigger] post[i].state).wf());
    }
}

impl MemoryDb {
    /// A manager over a base directory.  `pooled` selects the provider
    /// strategy: cache one open entry per scope key, or discard every
    /// entry when a call completes.
    pub fn new(base_dir: String, pooled: bool) -> (db: MemoryDb)
        ensures
            db.wf(),
            db.base_dir@ == base_dir@,
            db.pooled == pooled,
            db.pool@.len() == 0,
            db.id_counter == 0,
    {
        MemoryDb { base_dir, pooled, id_counter: 0, pool: Vec::new() }
    }

    /// Releases every cached connection.  Required before bulk filesystem
    /// operations on the base directory, so no open handle is mid-write.
    pub fn close_all(&mut self)
        ensures
            final(self).wf(),
            old(self).same_config(*final(self)),
            final(self).id_counter == old(self).id_counter,
            final(self).pool@.len() == 0,
    {
        self.pool = Vec::new();
    }

    /// The position of the scope key in the pool, if it is open.
    fn find_pool(&self, key: &String) -> (r: Option<usize>)
        ensures
            (match r {
                Some(i) => i < self.pool@.len() && self.pool@[i as int].key@ == key@,
                None => !self.has_scope(key@),
            }),
    {
        let n = self.pool.len();
        let mut i: usize = 0;
        while i < n
            invariant
                i <= n,
                n == self.pool@.len(),
                forall|j: int| 0 <= j < i ==> (#[trigger] self.pool@[j].key@) != key@,
            decreases n - i,
        {
            if self.pool[i].key == *key {
                return Some(i);
            }
            i = i + 1;
        }
        None
    }

    /// Discards every entry under the ephemeral strategy; keeps the pool
    /// under the pooled one.
    fn release(&mut self)
        ensures
            final(self).id_counter == old(self).id_counter,
            old(self).same_config(*final(self)),
            final(self).pooled ==> *final(self) == *old(self),
            !final(self).pooled ==> final(self).pool@.len() == 0 && final(self).wf(),
    {
        if !self.pooled {
            self.pool = Vec::new();
        }
    }

    /// Yields a ready entry for the scope key: the cached one when the
    /// scope is open, otherwise the full open-and-initialize sequence
    /// (directories, file open, busy timeout, pragmas, schema, integrity
    /// check, mirror load) followed by insertion into the pool.
    fn acquire(&mut self, key: &String) -> (r: Result<usize, MemoryDbError>)
        requires
            old(self).wf(),
        ensures
            old(self).same_config(*final(self)),
            final(self).id_counter == old(self).id_counter,
            old(self).has_scope(key@) ==> r is Ok,
            (match r {
                Ok(i) => {
                    &&& final(self).wf()
                    &&& i < final(self).pool@.len()
                    &&& final(self).pool@[i as int].key@ == key@
                    &&& final(self).has_scope(key@)
                    &&& (if old(self).has_scope(key@) {
                        *final(self) == *old(self)
                    } else {
                        &&& final(self).pool@.len() == old(self).pool@.len() + 1
                        &&& i == old(self).pool@.len()
                        &&& (forall|j: int|
                            0 <= j < old(self).pool@.len() ==> final(self).pool@[j] == old(
                                self,
                            ).pool@[j])
                        &&& final(self).pool@[i as int].state.wf()
                    })
                    &&& spec_other_scopes_unchanged(*old(self), *final(self), key@)
                },
                Err(e) => {
                    &&& *final(self) == *old(self)
                    &&& !(e matches MemoryDbError::NotFound)
                    &&& !(e matches MemoryDbError::InvalidInput(_))
                },
            }),
    {
        match self.find_pool(key) {
            Some(i) => {
                proof {
                    let p = self.pool@;
                    assert(pool_has(p, key@));
                    assert(spec_other_scopes_unchanged(*self, *self, key@));
                }
                Ok(i)
            },
            None => {
                let path = db_path_for(self.base_dir.as_str(), key.as_str());
                match ensure_dir(self.base_dir.as_str()) {
                    Ok(()) => {},
                    Err(m) => {
                        return Err(MemoryDbError::IOError(m));
                    },
                }
                let existed = file_exists(path.as_str());
                let conn = match open_db_file(path.as_str()) {
                    Ok(c) => c,
                    Err(m) => {
                        return Err(MemoryDbError::IOError(m));
                    },
                };
                match set_busy_timeout(&conn, BUSY_TIMEOUT_MS) {
                    Ok(()) => {},
                    Err(m) => {
                        return Err(MemoryDbError::IOError(m));
                    },
                }
                match set_pragma(&conn, "journal_mode", "WAL") {
                    Ok(()) => {},
                    Err(m) => {
                        return Err(MemoryDbError::IOError(m));
                    },
                }
                match set_pragma(&conn, "synchronous", "NORMAL") {
                    Ok(()) => {},
                    Err(m) => {
                        return Err(MemoryDbError::IOError(m));
                    },
                }
                match set_pragma(&conn, "foreign_keys", "ON") {
                    Ok(()) => {},
                    Err(m) => {
                        return Err(MemoryDbError::IOError(m));
                    },
                }
                match ensure_schema(&conn, path.as_str(), existed) {
                    Ok(()) => {},
                    Err(e) => {
                        return Err(e);
                    },
                }
                let state = match load_scope_state(&conn) {
                    Ok(s) => s,
                    Err(e) => {
                        return Err(e);
                    },
                };
                let i = self.pool.len();
                let ghost pre = self.pool@;
                self.pool.push(PoolEntry { key: key.clone(), conn, state });
                proof {
                    lemma_entry_push_preserves_others(pre, self.pool@, key@);
                }
                Ok(i)
            },
        }
    }
}

/// With distinct keys, an entry's position is the position its key
/// resolves to.
proof fn lemma_pool_index_unique(p: Seq<PoolEntry>, i: int, k: Seq<char>)
    requires
        pool_wf(p),
        0 <= i < p.len(),
        p[i].key@ == k,
    ensures
        pool_has(p, k),
        pool_index(p, k) == i,
        pool_state(p, k) == p[i].state,
{
    assert(pool_has(p, k));
    let j = pool_index(p, k);
    if j != i {
        assert(p[i].key@ == p[j].key@);
    }
}

/// Scope preservation composes across two steps.
proof fn lemma_other_scopes_trans(a: MemoryDb, b: MemoryDb, c: MemoryDb, k: Seq<char>)
    requires
        spec_other_scopes_unchanged(a, b, k),
        spec_other_scopes_unchanged(b, c, k),
    ensures
        spec_other_scopes_unchanged(a, c, k),
{
    assert forall|k2: Seq<char>| k2 != k implies ((#[trigger] c.has_scope(k2)) == a.has_scope(k2)
        && (a.has_scope(k2) ==> c.state_of(k2) == a.state_of(k2))) by {
        assert(b.has_scope(k2) == a.has_scope(k2));
        assert(c.has_scope(k2) == b.has_scope(k2));
    }
}

/// What the mirror holds for a fetched memory row: the fields verbatim,
/// the integer flags decoded to booleans.
pub open spec fn spec_memory_from_raw(raw: MemoryRowRaw) -> MemoryRecordView {
    MemoryRecordView {
        id: raw.id@,
        template_id: raw.template_id@,
        table_id: raw.table_id@,
        contact_id: crate::records::view_opt_str(raw.contact_id),
        group_id: crate::records::view_opt_str(raw.group_id),
        row_data: raw.row_data@,
        is_active: raw.is_active != 0,
        is_pinned: raw.is_pinned != 0,
        priority: raw.priority,
        sort_order: raw.sort_order,
        created_at: raw.created_at,
        updated_at: raw.updated_at,
    }
}

/// What the mirror holds for a fetched template row.
pub open spec fn spec_template_from_raw(raw: TemplateRowRaw) -> TemplateRecordView {
    TemplateRecordView {
        id: raw.id@,
        name: raw.name@,
        author: crate::records::view_opt_str(raw.author),
        version: crate::records::view_opt_str(raw.version),
        description: crate::records::view_opt_str(raw.description),
        schema: raw.schema@,
        injection: crate::records::view_opt_str(raw.injection),
        created_at: raw.created_at,
        updated_at: raw.updated_at,
        is_default: raw.is_default != 0,
        is_builtin: raw.is_builtin != 0,
    }
}

/// The mirror views of a sequence of fetched memory rows.
pub open spec fn mem_views_of_raw(s: Seq<MemoryRowRaw>) -> Seq<MemoryRecordView> {
    s.map_values(|r: MemoryRowRaw| spec_memory_from_raw(r))
}

/// The mirror views of a sequence of fetched template rows.
pub open spec fn tpl_views_of_raw(s: Seq<TemplateRowRaw>) -> Seq<TemplateRecordView> {
    s.map_values(|t: TemplateRowRaw| spec_template_from_raw(t))
}

/// Converts a fetched memory row into the record the mirror holds.
fn memory_from_raw(raw: MemoryRowRaw) -> (r: MemoryRecord)
    ensures
        r@ == spec_memory_from_raw(raw),
{
    MemoryRecord {
        id: raw.id,
        template_id: raw.template_id,
        table_id: raw.table_id,
        contact_id: raw.contact_id,
        group_id: raw.group_id,
        row_data: raw.row_data,
        is_active: raw.is_active != 0,
        is_pinned: raw.is_pinned != 0,
        priority: raw.priority,
        sort_order: raw.sort_order,
        created_at: raw.created_at,
        updated_at: raw.updated_at,
    }
}

/// Converts a fetched template row into the record the mirror holds.
fn template_from_raw(raw: TemplateRowRaw) -> (r: TemplateRecord)
    ensures
        r@ == spec_template_from_raw(raw),
{
    TemplateRecord {
        id: raw.id,
        name: raw.name,
        author: raw.author,
        version: raw.version,
        description: raw.description,
        schema: raw.schema,
        injection: raw.injection,
        created_at: raw.created_at,
        updated_at: raw.updated_at,
        is_default: raw.is_default != 0,
        is_builtin: raw.is_builtin != 0,
    }
}

/// Builds the mirror from the fetched rows: each row converted in order,
/// then (defensively) reduced to the first row per id.  A healthy
/// database has unique primary keys, and then the mirror holds exactly
/// the fetched rows, converted.
fn build_state(raw_mems: Vec<MemoryRowRaw>, raw_tpls: Vec<TemplateRowRaw>) -> (s: ScopeState)
    ensures
        s.wf(),
        spec_mem_ids_unique(mem_views_of_raw(raw_mems@)) ==> s.mems() == mem_views_of_raw(
            raw_mems@,
        ),
        spec_tpl_ids_unique(tpl_views_of_raw(raw_tpls@)) ==> s.tpls() == tpl_views_of_raw(
            raw_tpls@,
        ),
{
    let ghost orig_m = raw_mems@;
    let mut raw_mems = raw_mems;
    let mut memories: Vec<MemoryRecord> = Vec::new();
    proof {
        assert(mem_views(memories@) =~= mem_views_of_raw(orig_m.take(0)));
    }
    while raw_mems.len() > 0
        invariant
            memories@.len() + raw_mems@.len() == orig_m.len(),
            raw_mems@ == orig_m.skip(memories@.len() as int),
            mem_views(memories@) == mem_views_of_raw(orig_m.take(memories@.len() as int)),
        decreases raw_mems@.len(),
    {
        let ghost c = memories@.len() as int;
        let raw = raw_mems.remove(0);
        proof {
            assert(raw == orig_m[c]);
            assert(orig_m.skip(c).drop_first() =~= orig_m.skip(c + 1));
        }
        memories.push(memory_from_raw(raw));
        proof {
            assert(mem_views(memories@) =~= mem_views_of_raw(orig_m.take(c)).push(
                spec_memory_from_raw(orig_m[c]),
            ));
            assert(mem_views_of_raw(orig_m.take(c + 1)) =~= mem_views_of_raw(orig_m.take(c)).push(
                spec_memory_from_raw(orig_m[c]),
            ));
        }
    }
    proof {
        assert(orig_m.take(orig_m.len() as int) =~= orig_m);
    }
    let ghost orig_t = raw_tpls@;
    let mut raw_tpls = raw_tpls;
    let mut templates: Vec<TemplateRecord> = Vec::new();
    proof {
        assert(tpl_views(templates@) =~= tpl_views_of_raw(orig_t.take(0)));
    }
    while raw_tpls.len() > 0
        invariant
            templates@.len() + raw_tpls@.len() == orig_t.len(),
            raw_tpls@ == orig_t.skip(templates@.len() as int),
            tpl_views(templates@) == tpl_views_of_raw(orig_t.take(templates@.len() as int)),
        decreases raw_tpls@.len(),
    {
        let ghost c = templates@.len() as int;
        let raw = raw_tpls.remove(0);
        proof {
            assert(raw == orig_t[c]);
            assert(orig_t.skip(c).drop_first() =~= orig_t.skip(c + 1));
        }
        templates.push(template_from_raw(raw));
        proof {
            assert(tpl_views(templates@) =~= tpl_views_of_raw(orig_t.take(c)).push(
                spec_template_from_raw(orig_t[c]),
            ));
            assert(tpl_views_of_raw(orig_t.take(c + 1)) =~= tpl_views_of_raw(orig_t.take(c)).push(
                spec_template_from_raw(orig_t[c]),
            ));
        }
    }
    proof {
        assert(orig_t.take(orig_t.len() as int) =~= orig_t);
    }
    let ghost conv_m = memories@;
    let ghost conv_t = templates@;
    let state = ScopeState {
        memories: dedup_memories(memories),
        templates: dedup_templates(templates),
    };
    proof {
        if spec_mem_ids_unique(mem_views_of_raw(orig_m)) {
            assert(spec_mem_ids_unique(mem_views(conv_m)));
            assert(state.memories@ == conv_m);
        }
        if spec_tpl_ids_unique(tpl_views_of_raw(orig_t)) {
            assert(spec_tpl_ids_unique(tpl_views(conv_t)));
            assert(state.templates@ == conv_t);
        }
    }
    state
}

/// Reads every row of a freshly opened database into a well-formed
/// mirror, via [`build_state`]: each row converted, duplicates (which a
/// healthy database never yields) reduced to their first occurrence.
fn load_scope_state(conn: &rusqlite::Connection) -> (r: Result<ScopeState, MemoryDbError>)
    ensures
        (r matches Ok(s) ==> s.wf()),
        (r matches Err(e) ==> e matches MemoryDbError::IOError(_)),
{
    let raw_mems = match fetch_memory_rows(
        conn,
        "SELECT id, template_id, table_id, contact_id, group_id, row_data, is_active, is_pinned, priority, sort_order, created_at, updated_at FROM memories",
    ) {
        Ok(rows) => rows,
        Err(m) => {
            return Err(MemoryDbError::IOError(m));
        },
    };
    let raw_tpls = match fetch_template_rows(
        conn,
        "SELECT id, name, author, version, description, schema, injection, created_at, updated_at, is_default, is_builtin FROM templates",
    ) {
        Ok(rows) => rows,
        Err(m) => {
            return Err(MemoryDbError::IOError(m));
        },
    };
    Ok(build_state(raw_mems, raw_tpls))
}

/// What an optional text column binds: its text, or null.
pub open spec fn spec_opt_text_param(o: Option<String>) -> SqlParam {
    match o {
        Some(s) => SqlParam::Text(s),
        None => SqlParam::Null,
    }
}

/// The parameter the optional text columns bind.
fn opt_text_param(o: &Option<String>) -> (p: SqlParam)
    ensures
        p == spec_opt_text_param(*o),
{
    match o {
        Some(s) => SqlParam::Text(s.clone()),
        None => SqlParam::Null,
    }
}

/// The single text parameter of the id-keyed statements.
fn text_param(s: &String) -> (p: Vec<SqlParam>)
    ensures
        p@ == seq![SqlParam::Text(*s)],
{
    let mut p: Vec<SqlParam> = Vec::new();
    p.push(SqlParam::Text(s.clone()));
    proof {
        assert(p@ =~= seq![SqlParam::Text(*s)]);
    }
    p
}

/// The twelve positional parameters of a memory row insert, in the
/// column order of the insert statement.
pub open spec fn spec_memory_insert_params(rec: MemoryRecord) -> Seq<SqlParam> {
    seq![
        SqlParam::Text(rec.id),
        SqlParam::Text(rec.template_id),
        SqlParam::Text(rec.table_id),
        spec_opt_text_param(rec.contact_id),
        spec_opt_text_param(rec.group_id),
        SqlParam::Text(rec.row_data),
        SqlParam::Int(crate::records::spec_bool_int(rec.is_active)),
        SqlParam::Int(crate::records::spec_bool_int(rec.is_pinned)),
        SqlParam::Int(rec.priority),
        SqlParam::Int(rec.sort_order),
        SqlParam::Int(rec.created_at),
        SqlParam::Int(rec.updated_at),
    ]
}

fn memory_insert_params(rec: &MemoryRecord) -> (p: Vec<SqlParam>)
    ensures
        p@ == spec_memory_insert_params(*rec),
{
    let mut p: Vec<SqlParam> = Vec::new();
    p.push(SqlParam::Text(rec.id.clone()));
    p.push(SqlParam::Text(rec.template_id.clone()));
    p.push(SqlParam::Text(rec.table_id.clone()));
    p.push(opt_text_param(&rec.contact_id));
    p.push(opt_text_param(&rec.group_id));
    p.push(SqlParam::Text(rec.row_data.clone()));
    p.push(SqlParam::Int(crate::records::bool_to_int(rec.is_active)));
    p.push(SqlParam::Int(crate::records::bool_to_int(rec.is_pinned)));
    p.push(SqlParam::Int(rec.priority));
    p.push(SqlParam::Int(rec.sort_order));
    p.push(SqlParam::Int(rec.created_at));
    p.push(SqlParam::Int(rec.updated_at));
    proof {
        assert(p@ =~= spec_memory_insert_params(*rec));
    }
    p
}

/// The insert statement both create paths run.
pub const INSERT_MEMORY_SQL: &'static str =
    "INSERT INTO memories (id, template_id, table_id, contact_id, group_id, row_data, is_active, is_pinned, priority, sort_order, created_at, updated_at) VALUES (?, ?, ?, ?, ?, ?, ?, ?, ?, ?, ?, ?)";

impl MemoryDb {
    /// The next value of the in-process id counter.
    fn bump_counter(&mut self)
        ensures
            old(self).same_config(*final(self)),
            final(self).pool == old(self).pool,
            final(self).id_counter == (if old(self).id_counter == u64::MAX {
                0u64
            } else {
                (old(self).id_counter + 1) as u64
            }),
    {
        if self.id_counter == u64::MAX {
            self.id_counter = 0;
        } else {
            self.id_counter = self.id_counter + 1;
        }
    }

    /// Creates one memory row under the scope: the id is the trimmed
    /// caller-supplied one or a generated one, defaults fill the omitted
    /// fields, and both timestamps are the creation instant.  The scope's
    /// mirror (and its database) gain exactly that row; no other scope is
    /// touched.
    #[verifier::rlimit(30)]
    pub fn create_memory(&mut self, scope_id: Option<String>, input: MemoryCreateInput) -> (r:
        Result<String, MemoryDbError>)
        requires
            old(self).wf(),
        ensures
            final(self).wf(),
            old(self).same_config(*final(self)),
            (old(self).pooled ==> spec_other_scopes_unchanged(
                *old(self),
                *final(self),
                spec_normalize_scope(spec_scope_view(scope_id)),
            )),
            (!old(self).pooled ==> final(self).pool@.len() == 0),
            (match r {
                Ok(id) => {
                    let k = spec_normalize_scope(spec_scope_view(scope_id));
                    &&& spec_create_id_rule(input, id@, old(self).id_counter)
                    &&& (old(self).pooled ==> final(self).has_scope(k) && (exists|
                        s0: ScopeState,
                        rv: MemoryRecordView,
                    |
                        #![trigger s0.mems().push(rv)]
                        {
                            &&& s0.wf()
                            &&& (old(self).has_scope(k) ==> s0 == old(self).state_of(k))
                            &&& !s0.has_memory(id@)
                            &&& spec_created_row(input, rv)
                            &&& rv.id == id@
                            &&& final(self).state_of(k).mems() == s0.mems().push(rv)
                            &&& final(self).state_of(k).tpls() == s0.tpls()
                        }))
                },
                Err(e) => {
                    let k = spec_normalize_scope(spec_scope_view(scope_id));
                    &&& !(e matches MemoryDbError::NotFound)
                    &&& !(e matches MemoryDbError::InvalidInput(_))
                    &&& (old(self).pooled && old(self).has_scope(k) ==> final(self).has_scope(k)
                        && final(self).state_of(k) == old(self).state_of(k))
                },
            }),
    {
        let key = normalize_scope_id(scope_id);
        let idx = match self.acquire(&key) {
            Ok(i) => i,
            Err(e) => {
                self.release();
                return Err(e);
            },
        };
        let ghost mid = *self;
        let now = now_ms();
        let (id, auto) = match crate::records::effective_id(&input.id) {
            Some(t) => (t, false),
            None => (crate::records::generate_id(now, self.id_counter), true),
        };
        if auto {
            self.bump_counter();
        }
        let mut entry = self.pool.remove(idx);
        let ghost s0 = entry.state;
        proof {
            lemma_pool_index_unique(mid.pool@, idx as int, key@);
        }
        match entry.state.find_memory(&id) {
            Some(_) => {
                self.pool.insert(idx, entry);
                proof {
                    assert(self.pool@ =~= mid.pool@);
                }
                self.release();
                return Err(
                    MemoryDbError::IOError(String::from_str("memory id already exists")),
                );
            },
            None => {},
        }
        let rec = crate::records::build_memory_row(input, id.clone(), now);
        let params = memory_insert_params(&rec);
        match exec_sql(&entry.conn, INSERT_MEMORY_SQL, params) {
            Ok(_) => {},
            Err(m) => {
                self.pool.insert(idx, entry);
                proof {
                    assert(self.pool@ =~= mid.pool@);
                }
                self.release();
                return Err(MemoryDbError::IOError(m));
            },
        }
        entry.state.add_memory(rec);
        self.pool.insert(idx, entry);
        proof {
            assert(self.pool@ =~= mid.pool@.update(idx as int, self.pool@[idx as int]));
            lemma_entry_update_preserves_others(mid.pool@, self.pool@, idx as int, key@);
            lemma_pool_index_unique(self.pool@, idx as int, key@);
            assert(spec_other_scopes_unchanged(mid, *self, key@)) by {
                assert forall|k2: Seq<char>| k2 != key@ implies ((#[trigger] self.has_scope(k2))
                    == mid.has_scope(k2) && (mid.has_scope(k2) ==> self.state_of(k2)
                    == mid.state_of(k2))) by {
                    assert(pool_has(self.pool@, k2) == pool_has(mid.pool@, k2));
                    if pool_has(mid.pool@, k2) {
                        assert(pool_state(self.pool@, k2) == pool_state(mid.pool@, k2));
                    }
                }
            }
            assert(spec_other_scopes_unchanged(*old(self), mid, key@));
            lemma_other_scopes_trans(*old(self), mid, *self, key@);
        }
        self.release();
        Ok(id)
    }

    /// Deletes the memory row with this id.  `NotFound` exactly when the
    /// scope holds no such row; on success the mirror (and the database)
    /// lose exactly that row.
    #[verifier::rlimit(30)]
    pub fn delete_memory(&mut self, scope_id: Option<String>, id: String) -> (r: Result<
        (),
        MemoryDbError,
    >)
        requires
            old(self).wf(),
        ensures
            final(self).wf(),
            old(self).same_config(*final(self)),
            (old(self).pooled ==> spec_other_scopes_unchanged(
                *old(self),
                *final(self),
                spec_normalize_scope(spec_scope_view(scope_id)),
            )),
            (!old(self).pooled ==> final(self).pool@.len() == 0),
            (r matches Err(e) ==> !(e matches MemoryDbError::InvalidInput(_))),
            (old(self).pooled ==> (match r {
                Ok(()) => {
                    let k = spec_normalize_scope(spec_scope_view(scope_id));
                    final(self).has_scope(k) && (exists|s0: ScopeState, i: int|
                        #![trigger s0.mems().remove(i)]
                        {
                            &&& s0.wf()
                            &&& (old(self).has_scope(k) ==> s0 == old(self).state_of(k))
                            &&& 0 <= i < s0.mems().len()
                            &&& s0.mems()[i].id == id@
                            &&& final(self).state_of(k).mems() == s0.mems().remove(i)
                            &&& final(self).state_of(k).tpls() == s0.tpls()
                        })
                },
                Err(_) => true,
            })),
            (old(self).pooled && old(self).has_scope(spec_normalize_scope(spec_scope_view(scope_id)))
                ==> {
                let k = spec_normalize_scope(spec_scope_view(scope_id));
                let s0 = old(self).state_of(k);
                &&& ((r matches Err(MemoryDbError::NotFound)) <==> !s0.has_memory(id@))
                &&& (r is Err ==> final(self).has_scope(k) && final(self).state_of(k) == s0)
            }),
    {
        let key = normalize_scope_id(scope_id);
        let idx = match self.acquire(&key) {
            Ok(i) => i,
            Err(e) => {
                self.release();
                return Err(e);
            },
        };
        let ghost mid = *self;
        let mut entry = self.pool.remove(idx);
        proof {
            lemma_pool_index_unique(mid.pool@, idx as int, key@);
        }
        let i = match entry.state.find_memory(&id) {
            Some(i) => i,
            None => {
                self.pool.insert(idx, entry);
                proof {
                    assert(self.pool@ =~= mid.pool@);
                }
                self.release();
                return Err(MemoryDbError::NotFound);
            },
        };
        let params = text_param(&id);
        match exec_sql(&entry.conn, "DELETE FROM memories WHERE id = ?", params) {
            Ok(_) => {},
            Err(m) => {
                self.pool.insert(idx, entry);
                proof {
                    assert(self.pool@ =~= mid.pool@);
                }
                self.release();
                return Err(MemoryDbError::IOError(m));
            },
        }
        entry.state.remove_memory(i);
        self.pool.insert(idx, entry);
        proof {
            assert(self.pool@ =~= mid.pool@.update(idx as int, self.pool@[idx as int]));
            lemma_entry_update_preserves_others(mid.pool@, self.pool@, idx as int, key@);
            lemma_pool_index_unique(self.pool@, idx as int, key@);
            assert(spec_other_scopes_unchanged(mid, *self, key@)) by {
                assert forall|k2: Seq<char>| k2 != key@ implies ((#[trigger] self.has_scope(k2))
                    == mid.has_scope(k2) && (mid.has_scope(k2) ==> self.state_of(k2)
                    == mid.state_of(k2))) by {
                    assert(pool_has(self.pool@, k2) == pool_has(mid.pool@, k2));
                    if pool_has(mid.pool@, k2) {
                        assert(pool_state(self.pool@, k2) == pool_state(mid.pool@, k2));
                    }
                }
            }
            assert(spec_other_scopes_unchanged(*old(self), mid, key@));
            lemma_other_scopes_trans(*old(self), mid, *self, key@);
        }
        self.release();
        Ok(())
    }

    /// Applies a partial update to the memory row with this id: exactly
    /// the supplied fields change and `updated_at` is refreshed.
    /// `InvalidInput` when no mutable field was supplied; `NotFound` when
    /// the scope holds no such row.
    #[verifier::rlimit(30)]
    pub fn update_memory(&mut self, scope_id: Option<String>, input: MemoryUpdateInput) -> (r:
        Result<(), MemoryDbError>)
        requires
            old(self).wf(),
        ensures
            final(self).wf(),
            old(self).same_config(*final(self)),
            (old(self).pooled ==> spec_other_scopes_unchanged(
                *old(self),
                *final(self),
                spec_normalize_scope(spec_scope_view(scope_id)),
            )),
            (!old(self).pooled ==> final(self).pool@.len() == 0),
            (r matches Err(MemoryDbError::InvalidInput(_)) ==> !crate::records::spec_update_has_fields(
                input,
            )),
            (r is Ok ==> crate::records::spec_update_has_fields(input)),
            (old(self).pooled ==> (match r {
                Ok(()) => {
                    let k = spec_normalize_scope(spec_scope_view(scope_id));
                    final(self).has_scope(k) && (exists|
                        s0: ScopeState,
                        i: int,
                        now: i64,
                        rv: MemoryRecordView,
                    |
                        #![trigger s0.mems().update(i, rv), spec_instant(now)]
                        {
                            &&& s0.wf()
                            &&& (old(self).has_scope(k) ==> s0 == old(self).state_of(k))
                            &&& 0 <= i < s0.mems().len()
                            &&& s0.mems()[i].id == input.id@
                            &&& 0 <= now
                            &&& crate::records::spec_update_applied(s0.mems()[i], input, now, rv)
                            &&& final(self).state_of(k).mems() == s0.mems().update(i, rv)
                            &&& final(self).state_of(k).tpls() == s0.tpls()
                        })
                },
                Err(_) => true,
            })),
            (old(self).pooled && old(self).has_scope(spec_normalize_scope(spec_scope_view(scope_id)))
                ==> {
                let k = spec_normalize_scope(spec_scope_view(scope_id));
                let s0 = old(self).state_of(k);
                &&& ((r matches Err(MemoryDbError::NotFound)) <==> crate::records::spec_update_has_fields(
                    input,
                ) && !s0.has_memory(input.id@))
                &&& (r matches Err(MemoryDbError::InvalidInput(_)) <==> !crate::records::spec_update_has_fields(
                    input,
                ))
                &&& (r is Err ==> final(self).has_scope(k) && final(self).state_of(k) == s0)
            }),
    {
        let key = normalize_scope_id(scope_id);
        let idx = match self.acquire(&key) {
            Ok(i) => i,
            Err(e) => {
                self.release();
                return Err(e);
            },
        };
        let ghost mid = *self;
        if !crate::records::update_has_fields(&input) {
            proof {
                lemma_pool_index_unique(mid.pool@, idx as int, key@);
            }
            self.release();
            return Err(MemoryDbError::InvalidInput(String::from_str("no fields to update")));
        }
        let mut entry = self.pool.remove(idx);
        proof {
            lemma_pool_index_unique(mid.pool@, idx as int, key@);
        }
        let i = match entry.state.find_memory(&input.id) {
            Some(i) => i,
            None => {
                self.pool.insert(idx, entry);
                proof {
                    assert(self.pool@ =~= mid.pool@);
                }
                self.release();
                return Err(MemoryDbError::NotFound);
            },
        };
        let now = now_ms();
        let mut rec = entry.state.memories[i].duplicate();
        crate::records::apply_memory_update(&mut rec, &input, now);
        let (sql, params) = memory_update_statement(&input, now);
        match exec_sql(&entry.conn, sql.as_str(), params) {
            Ok(_) => {},
            Err(m) => {
                self.pool.insert(idx, entry);
                proof {
                    assert(self.pool@ =~= mid.pool@);
                }
                self.release();
                return Err(MemoryDbError::IOError(m));
            },
        }
        proof {
            assert(entry.state.mems()[i as int] == entry.state.memories@[i as int]@);
        }
        entry.state.set_memory(i, rec);
        self.pool.insert(idx, entry);
        proof {
            assert(self.pool@ =~= mid.pool@.update(idx as int, self.pool@[idx as int]));
            lemma_entry_update_preserves_others(mid.pool@, self.pool@, idx as int, key@);
            lemma_pool_index_unique(self.pool@, idx as int, key@);
            assert(spec_other_scopes_unchanged(mid, *self, key@)) by {
                assert forall|k2: Seq<char>| k2 != key@ implies ((#[trigger] self.has_scope(k2))
                    == mid.has_scope(k2) && (mid.has_scope(k2) ==> self.state_of(k2)
                    == mid.state_of(k2))) by {
                    assert(pool_has(self.pool@, k2) == pool_has(mid.pool@, k2));
                    if pool_has(mid.pool@, k2) {
                        assert(pool_state(self.pool@, k2) == pool_state(mid.pool@, k2));
                    }
                }
            }
            assert(spec_other_scopes_unchanged(*old(self), mid, key@));
            lemma_other_scopes_trans(*old(self), mid, *self, key@);
            assert(spec_instant(now) == now);
        }
        self.release();
        Ok(())
    }

    /// The memory rows matching the query, most relevant first: pinned
    /// rows, then descending priority, then most recently updated.  The
    /// named modes `contact` and `group` are rejected with `InvalidInput`
    /// when their filter value is missing, never answered with a list.
    pub fn get_memories(&mut self, scope_id: Option<String>, query: MemoryQuery) -> (r: Result<
        Vec<MemoryRecord>,
        MemoryDbError,
    >)
        requires
            old(self).wf(),
        ensures
            final(self).wf(),
            old(self).same_config(*final(self)),
            (old(self).pooled ==> spec_other_scopes_unchanged(
                *old(self),
                *final(self),
                spec_normalize_scope(spec_scope_view(scope_id)),
            )),
            (!old(self).pooled ==> final(self).pool@.len() == 0),
            (r matches Err(MemoryDbError::InvalidInput(_)) ==> crate::records::spec_memory_query_invalid(
                query,
            )),
            (r is Ok ==> !crate::records::spec_memory_query_invalid(query)),
            (r matches Ok(out) ==> crate::store::spec_memories_ordered(mem_views(out@))),
            (old(self).pooled ==> (match r {
                Ok(out) => {
                    let k = spec_normalize_scope(spec_scope_view(scope_id));
                    final(self).has_scope(k) && (exists|s0: ScopeState|
                        #![trigger s0.mems()]
                        {
                            &&& s0.wf()
                            &&& (old(self).has_scope(k) ==> s0 == old(self).state_of(k))
                            &&& final(self).state_of(k) == s0
                            &&& mem_views(out@).to_multiset() == s0.mems().filter(
                                |m: MemoryRecordView|
                                    crate::records::spec_memory_matches(m, query),
                            ).to_multiset()
                        })
                },
                Err(_) => true,
            })),
            (old(self).pooled && old(self).has_scope(spec_normalize_scope(spec_scope_view(scope_id)))
                ==> {
                let k = spec_normalize_scope(spec_scope_view(scope_id));
                let s0 = old(self).state_of(k);
                &&& (r matches Err(MemoryDbError::InvalidInput(_)) <==> crate::records::spec_memory_query_invalid(
                    query,
                ))
                &&& (!crate::records::spec_memory_query_invalid(query) ==> r is Ok)
                &&& final(self).has_scope(k) && final(self).state_of(k) == s0
            }),
    {
        let key = normalize_scope_id(scope_id);
        let idx = match self.acquire(&key) {
            Ok(i) => i,
            Err(e) => {
                self.release();
                return Err(e);
            },
        };
        let ghost mid = *self;
        let entry = self.pool.remove(idx);
        proof {
            lemma_pool_index_unique(mid.pool@, idx as int, key@);
        }
        let res = entry.state.query_memories(&query);
        self.pool.insert(idx, entry);
        proof {
            assert(self.pool@ =~= mid.pool@);
        }
        self.release();
        res
    }

    /// Creates every input's row inside one transaction: either all of
    /// them commit and the count equals the number of inputs, or none
    /// does and the scope is untouched.
    #[verifier::rlimit(50)]
    #[verifier::loop_isolation(false)]
    pub fn batch_create_memories(
        &mut self,
        scope_id: Option<String>,
        memories: Vec<MemoryCreateInput>,
    ) -> (r: Result<usize, MemoryDbError>)
        requires
            old(self).wf(),
        ensures
            final(self).wf(),
            old(self).same_config(*final(self)),
            (old(self).pooled ==> spec_other_scopes_unchanged(
                *old(self),
                *final(self),
                spec_normalize_scope(spec_scope_view(scope_id)),
            )),
            (!old(self).pooled ==> final(self).pool@.len() == 0),
            (r matches Err(e) ==> !(e matches MemoryDbError::NotFound) && !(
            e matches MemoryDbError::InvalidInput(_))),
            (r matches Ok(n) ==> n == memories@.len()),
            (old(self).pooled ==> (match r {
                Ok(_) => {
                    let k = spec_normalize_scope(spec_scope_view(scope_id));
                    final(self).has_scope(k) && (exists|s0: ScopeState, rows: Seq<MemoryRecordView>|
                        #![trigger s0.mems() + rows]
                        {
                            &&& s0.wf()
                            &&& (old(self).has_scope(k) ==> s0 == old(self).state_of(k))
                            &&& rows.len() == memories@.len()
                            &&& (forall|j: int|
                                0 <= j < rows.len() ==> crate::records::spec_batch_created_row(
                                    memories@[j],
                                    #[trigger] rows[j],
                                ))
                            &&& final(self).state_of(k).mems() == s0.mems() + rows
                            &&& final(self).state_of(k).tpls() == s0.tpls()
                        })
                },
                Err(_) => true,
            })),
            (old(self).pooled && old(self).has_scope(spec_normalize_scope(spec_scope_view(scope_id)))
                && r is Err ==> {
                let k = spec_normalize_scope(spec_scope_view(scope_id));
                final(self).has_scope(k) && final(self).state_of(k) == old(self).state_of(k)
            }),
    {
        let key = normalize_scope_id(scope_id);
        let idx = match self.acquire(&key) {
            Ok(i) => i,
            Err(e) => {
                self.release();
                return Err(e);
            },
        };
        let ghost mid = *self;
        let mut entry = self.pool.remove(idx);
        proof {
            lemma_pool_index_unique(mid.pool@, idx as int, key@);
        }
        let ghost s0 = entry.state;
        let mut work = copy_memories(&entry.state.memories);
        match exec_batch(&entry.conn, "BEGIN") {
            Ok(()) => {},
            Err(m) => {
                self.pool.insert(idx, entry);
                proof {
                    assert(self.pool@ =~= mid.pool@);
                }
                self.release();
                return Err(MemoryDbError::IOError(m));
            },
        }
        let ghost inputs0 = memories@;
        let mut inputs = memories;
        let total = inputs.len();
        let mut count: usize = 0;
        let ghost mut rows: Seq<MemoryRecordView> = Seq::empty();
        proof {
            assert(s0.mems() + rows =~= mem_views(work@));
        }
        while inputs.len() > 0
            invariant
                self.pool@ == mid.pool@.remove(idx as int),
                self.pooled == mid.pooled,
                self.base_dir@ == mid.base_dir@,
                count + inputs@.len() == inputs0.len(),
                total == inputs0.len(),
                inputs0.skip(count as int) =~= inputs@,
                rows.len() == count,
                forall|j: int|
                    0 <= j < count ==> crate::records::spec_batch_created_row(
                        inputs0[j],
                        #[trigger] rows[j],
                    ),
                mem_views(work@) == s0.mems() + rows,
                spec_mem_ids_unique(mem_views(work@)),
            decreases inputs@.len(),
        {
            let input = inputs.remove(0);
            proof {
                assert(inputs0[count as int] == input);
                assert(inputs0.skip(count as int).drop_first() =~= inputs0.skip(count + 1));
            }
            let now = now_ms();
            let ghost cnt = self.id_counter;
            let id = match crate::records::effective_id(&input.id) {
                Some(t) => t,
                None => {
                    let g = crate::records::generate_id(now, self.id_counter);
                    self.bump_counter();
                    g
                },
            };
            match find_memory_in(&work, &id) {
                Some(_) => {
                    let _ = exec_batch(&entry.conn, "ROLLBACK");
                    self.pool.insert(idx, entry);
                    proof {
                        assert(self.pool@ =~= mid.pool@);
                    }
                    self.release();
                    return Err(
                        MemoryDbError::IOError(String::from_str("memory id already exists")),
                    );
                },
                None => {},
            }
            let rec = crate::records::build_memory_row(input, id, now);
            let params = memory_insert_params(&rec);
            match exec_sql(&entry.conn, INSERT_MEMORY_SQL, params) {
                Ok(_) => {},
                Err(m) => {
                    let _ = exec_batch(&entry.conn, "ROLLBACK");
                    self.pool.insert(idx, entry);
                    proof {
                        assert(self.pool@ =~= mid.pool@);
                    }
                    self.release();
                    return Err(MemoryDbError::IOError(m));
                },
            }
            let ghost prevw = work@;
            work.push(rec);
            proof {
                let prevrows = rows;
                rows = rows.push(rec@);
                assert(mem_views(work@) =~= mem_views(prevw).push(rec@));
                assert(s0.mems() + rows =~= (s0.mems() + prevrows).push(rec@));
                assert(spec_built_memory(inputs0[count as int], rec@.id, now, rec@));
                assert(spec_created_row(inputs0[count as int], rec@));
                if crate::records::spec_effective_id(inputs0[count as int].id) is None {
                    assert(rec@.id == spec_generated_id(now as int, (cnt % 1000) as int));
                    assert((cnt % 1000) < 1000);
                }
                assert(crate::records::spec_batch_created_row(inputs0[count as int], rec@));
                assert(count < total);
                assert forall|a: int, b: int|
                    0 <= a < b < mem_views(work@).len() implies mem_views(work@)[a].id != mem_views(
                    work@,
                )[b].id by {
                    if b == mem_views(prevw).len() {
                        assert(mem_views(prevw)[a].id != rec@.id);
                    }
                }
            }
            count = count + 1;
        }
        match exec_batch(&entry.conn, "COMMIT") {
            Ok(()) => {},
            Err(m) => {
                self.pool.insert(idx, entry);
                proof {
                    assert(self.pool@ =~= mid.pool@);
                }
                self.release();
                return Err(MemoryDbError::IOError(m));
            },
        }
        entry.state.memories = work;
        self.pool.insert(idx, entry);
        proof {
            assert(self.pool@ =~= mid.pool@.update(idx as int, self.pool@[idx as int]));
            lemma_entry_update_preserves_others(mid.pool@, self.pool@, idx as int, key@);
            lemma_pool_index_unique(self.pool@, idx as int, key@);
            assert(spec_other_scopes_unchanged(mid, *self, key@)) by {
                assert forall|k2: Seq<char>| k2 != key@ implies ((#[trigger] self.has_scope(k2))
                    == mid.has_scope(k2) && (mid.has_scope(k2) ==> self.state_of(k2)
                    == mid.state_of(k2))) by {
                    assert(pool_has(self.pool@, k2) == pool_has(mid.pool@, k2));
                    if pool_has(mid.pool@, k2) {
                        assert(pool_state(self.pool@, k2) == pool_state(mid.pool@, k2));
                    }
                }
            }
            assert(spec_other_scopes_unchanged(*old(self), mid, key@));
            lemma_other_scopes_trans(*old(self), mid, *self, key@);
        }
        self.release();
        Ok(count)
    }

    /// Deletes the rows with the given ids inside one transaction: either
    /// all the deletions commit, with the count of rows that were
    /// actually there, or none does and the scope is untouched.
    #[verifier::rlimit(50)]
    #[verifier::loop_isolation(false)]
    pub fn batch_delete_memories(&mut self, scope_id: Option<String>, ids: Vec<String>) -> (r:
        Result<usize, MemoryDbError>)
        requires
            old(self).wf(),
        ensures
            final(self).wf(),
            old(self).same_config(*final(self)),
            (old(self).pooled ==> spec_other_scopes_unchanged(
                *old(self),
                *final(self),
                spec_normalize_scope(spec_scope_view(scope_id)),
            )),
            (!old(self).pooled ==> final(self).pool@.len() == 0),
            (r matches Err(e) ==> !(e matches MemoryDbError::NotFound) && !(
            e matches MemoryDbError::InvalidInput(_))),
            (old(self).pooled ==> (match r {
                Ok(count) => {
                    let k = spec_normalize_scope(spec_scope_view(scope_id));
                    final(self).has_scope(k) && (exists|s0: ScopeState|
                        #![trigger s0.mems()]
                        {
                            &&& s0.wf()
                            &&& (old(self).has_scope(k) ==> s0 == old(self).state_of(k))
                            &&& final(self).state_of(k).mems() == spec_batch_delete(
                                s0.mems(),
                                ids@.map_values(|s: String| s@),
                            ).0
                            &&& count as int == spec_batch_delete(
                                s0.mems(),
                                ids@.map_values(|s: String| s@),
                            ).1
                            &&& final(self).state_of(k).tpls() == s0.tpls()
                        })
                },
                Err(_) => true,
            })),
            (old(self).pooled && old(self).has_scope(spec_normalize_scope(spec_scope_view(scope_id)))
                && r is Err ==> {
                let k = spec_normalize_scope(spec_scope_view(scope_id));
                final(self).has_scope(k) && final(self).state_of(k) == old(self).state_of(k)
            }),
    {
        let key = normalize_scope_id(scope_id);
        let idx = match self.acquire(&key) {
            Ok(i) => i,
            Err(e) => {
                self.release();
                return Err(e);
            },
        };
        let ghost mid = *self;
        let mut entry = self.pool.remove(idx);
        proof {
            lemma_pool_index_unique(mid.pool@, idx as int, key@);
        }
        let ghost s0 = entry.state;
        let mut work = copy_memories(&entry.state.memories);
        match exec_batch(&entry.conn, "BEGIN") {
            Ok(()) => {},
            Err(m) => {
                self.pool.insert(idx, entry);
                proof {
                    assert(self.pool@ =~= mid.pool@);
                }
                self.release();
                return Err(MemoryDbError::IOError(m));
            },
        }
        let ghost idsv = ids@.map_values(|s: String| s@);
        let n = ids.len();
        let mut count: usize = 0;
        let mut j: usize = 0;
        proof {
            assert(idsv.take(0) =~= Seq::<Seq<char>>::empty());
        }
        while j < n
            invariant
                self.pool@ == mid.pool@.remove(idx as int),
                self.pooled == mid.pooled,
                self.base_dir@ == mid.base_dir@,
                j <= n,
                n == ids@.len(),
                idsv == ids@.map_values(|s: String| s@),
                count <= j,
                mem_views(work@) == spec_batch_delete(s0.mems(), idsv.take(j as int)).0,
                count as int == spec_batch_delete(s0.mems(), idsv.take(j as int)).1,
                spec_mem_ids_unique(mem_views(work@)),
            decreases n - j,
        {
            proof {
                assert(idsv.take(j + 1).drop_last() =~= idsv.take(j as int));
                assert(idsv.take(j + 1).last() == idsv[j as int]);
            }
            match find_memory_in(&work, &ids[j]) {
                Some(i) => {
                    let params = text_param(&ids[j]);
                    match exec_sql(&entry.conn, "DELETE FROM memories WHERE id = ?", params) {
                        Ok(_) => {},
                        Err(m) => {
                            let _ = exec_batch(&entry.conn, "ROLLBACK");
                            self.pool.insert(idx, entry);
                            proof {
                                assert(self.pool@ =~= mid.pool@);
                            }
                            self.release();
                            return Err(MemoryDbError::IOError(m));
                        },
                    }
                    let ghost prev = work@;
                    work.remove(i);
                    proof {
                        assert(mem_views(work@) =~= mem_views(prev).remove(i as int));
                        let i2 = choose|t: int|
                            0 <= t < mem_views(prev).len() && mem_views(prev)[t].id == idsv[j as int];
                        assert(mem_views(prev)[i as int].id == idsv[j as int]);
                        if i2 != i as int {
                            assert(mem_views(prev)[i2].id == mem_views(prev)[i as int].id);
                        }
                        assert(spec_delete_one(mem_views(prev), idsv[j as int]) == (
                            mem_views(prev).remove(i as int),
                            1int,
                        ));
                    }
                    count = count + 1;
                },
                None => {
                    proof {
                        let target = idsv[j as int];
                        assert(!(exists|t: int|
                            0 <= t < mem_views(work@).len() && mem_views(work@)[t].id == target));
                    }
                },
            }
            j = j + 1;
        }
        proof {
            assert(idsv.take(n as int) =~= idsv);
        }
        match exec_batch(&entry.conn, "COMMIT") {
            Ok(()) => {},
            Err(m) => {
                self.pool.insert(idx, entry);
                proof {
                    assert(self.pool@ =~= mid.pool@);
                }
                self.release();
                return Err(MemoryDbError::IOError(m));
            },
        }
        entry.state.memories = work;
        self.pool.insert(idx, entry);
        proof {
            assert(self.pool@ =~= mid.pool@.update(idx as int, self.pool@[idx as int]));
            lemma_entry_update_preserves_others(mid.pool@, self.pool@, idx as int, key@);
            lemma_pool_index_unique(self.pool@, idx as int, key@);
            assert(spec_other_scopes_unchanged(mid, *self, key@)) by {
                assert forall|k2: Seq<char>| k2 != key@ implies ((#[trigger] self.has_scope(k2))
                    == mid.has_scope(k2) && (mid.has_scope(k2) ==> self.state_of(k2)
                    == mid.state_of(k2))) by {
                    assert(pool_has(self.pool@, k2) == pool_has(mid.pool@, k2));
                    if pool_has(mid.pool@, k2) {
                        assert(pool_state(self.pool@, k2) == pool_state(mid.pool@, k2));
                    }
                }
            }
            assert(spec_other_scopes_unchanged(*old(self), mid, key@));
            lemma_other_scopes_trans(*old(self), mid, *self, key@);
        }
        self.release();
        Ok(count)
    }
}

impl MemoryDb {
    /// Opens (creating and initializing if needed) the scope's database
    /// without performing any repository operation.
    pub fn init_database(&mut self, scope_id: Option<String>) -> (r: Result<(), MemoryDbError>)
        requires
            old(self).wf(),
        ensures
            final(self).wf(),
            old(self).same_config(*final(self)),
            (old(self).pooled ==> spec_other_scopes_unchanged(
                *old(self),
                *final(self),
                spec_normalize_scope(spec_scope_view(scope_id)),
            )),
            (!old(self).pooled ==> final(self).pool@.len() == 0),
            (r matches Err(e) ==> !(e matches MemoryDbError::NotFound) && !(
            e matches MemoryDbError::InvalidInput(_))),
            (old(self).pooled && r is Ok ==> final(self).has_scope(
                spec_normalize_scope(spec_scope_view(scope_id)),
            )),
            (old(self).pooled && old(self).has_scope(spec_normalize_scope(spec_scope_view(scope_id)))
                ==> {
                let k = spec_normalize_scope(spec_scope_view(scope_id));
                r is Ok && final(self).has_scope(k) && final(self).state_of(k) == old(self).state_of(
                    k,
                )
            }),
    {
        let key = normalize_scope_id(scope_id);
        let r = match self.acquire(&key) {
            Ok(_) => Ok(()),
            Err(e) => Err(e),
        };
        self.release();
        r
    }

    /// Saves a template: inserts it when the id is new, otherwise
    /// overwrites every non-key field of the existing one, keeping its
    /// `created_at` and refreshing `updated_at`.  The default and builtin
    /// flags fall back to false.
    #[verifier::rlimit(80)]
    pub fn save_template(&mut self, scope_id: Option<String>, input: TemplateInput) -> (r: Result<
        (),
        MemoryDbError,
    >)
        requires
            old(self).wf(),
        ensures
            final(self).wf(),
            old(self).same_config(*final(self)),
            (old(self).pooled ==> spec_other_scopes_unchanged(
                *old(self),
                *final(self),
                spec_normalize_scope(spec_scope_view(scope_id)),
            )),
            (!old(self).pooled ==> final(self).pool@.len() == 0),
            (r matches Err(e) ==> !(e matches MemoryDbError::NotFound) && !(
            e matches MemoryDbError::InvalidInput(_))),
            (old(self).pooled ==> (match r {
                Ok(()) => {
                    let k = spec_normalize_scope(spec_scope_view(scope_id));
                    final(self).has_scope(k) && (exists|
                        s0: ScopeState,
                        now: i64,
                        tv: TemplateRecordView,
                    |
                        #![trigger s0.tpls(), spec_instant(now), spec_tpl_witness(tv)]
                        {
                            &&& s0.wf()
                            &&& (old(self).has_scope(k) ==> s0 == old(self).state_of(k))
                            &&& 0 <= now
                            &&& (if s0.has_template(input.id@) {
                                exists|i: int|
                                    {
                                        &&& 0 <= i < s0.tpls().len()
                                        &&& s0.tpls()[i].id == input.id@
                                        &&& crate::records::spec_template_saved(
                                            Some(s0.tpls()[i]),
                                            input,
                                            now,
                                            tv,
                                        )
                                        &&& final(self).state_of(k).tpls() == #[trigger] s0.tpls().update(
                                            i,
                                            tv,
                                        )
                                    }
                            } else {
                                &&& crate::records::spec_template_saved(None, input, now, tv)
                                &&& final(self).state_of(k).tpls() == s0.tpls().push(tv)
                            })
                            &&& final(self).state_of(k).mems() == s0.mems()
                        })
                },
                Err(_) => true,
            })),
            (old(self).pooled && old(self).has_scope(spec_normalize_scope(spec_scope_view(scope_id)))
                && r is Err ==> {
                let k = spec_normalize_scope(spec_scope_view(scope_id));
                final(self).has_scope(k) && final(self).state_of(k) == old(self).state_of(k)
            }),
    {
        let key = normalize_scope_id(scope_id);
        let idx = match self.acquire(&key) {
            Ok(i) => i,
            Err(e) => {
                self.release();
                return Err(e);
            },
        };
        let ghost mid = *self;
        let mut entry = self.pool.remove(idx);
        proof {
            lemma_pool_index_unique(mid.pool@, idx as int, key@);
        }
        let ghost s0v = entry.state;
        let now = now_ms();
        let found = entry.state.find_template(&input.id);
        let previous_created_at = match found {
            Some(i) => {
                proof {
                    assert(s0v.tpls()[i as int] == s0v.templates@[i as int]@);
                }
                Some(entry.state.templates[i].created_at)
            },
            None => None,
        };
        let tpl = crate::records::build_template_row(input, previous_created_at, now);
        let ghost tvw = tpl@;
        let params = template_upsert_params(&tpl);
        match exec_sql(&entry.conn, UPSERT_TEMPLATE_SQL, params) {
            Ok(_) => {},
            Err(m) => {
                self.pool.insert(idx, entry);
                proof {
                    assert(self.pool@ =~= mid.pool@);
                }
                self.release();
                return Err(MemoryDbError::IOError(m));
            },
        }
        match found {
            Some(i) => {
                proof {
                    assert(entry.state.tpls()[i as int] == entry.state.templates@[i as int]@);
                }
                entry.state.set_template(i, tpl);
            },
            None => {
                entry.state.add_template(tpl);
            },
        }
        self.pool.insert(idx, entry);
        proof {
            assert(self.pool@ =~= mid.pool@.update(idx as int, self.pool@[idx as int]));
            lemma_entry_update_preserves_others(mid.pool@, self.pool@, idx as int, key@);
            lemma_pool_index_unique(self.pool@, idx as int, key@);
            assert(spec_other_scopes_unchanged(mid, *self, key@)) by {
                assert forall|k2: Seq<char>| k2 != key@ implies ((#[trigger] self.has_scope(k2))
                    == mid.has_scope(k2) && (mid.has_scope(k2) ==> self.state_of(k2)
                    == mid.state_of(k2))) by {
                    assert(pool_has(self.pool@, k2) == pool_has(mid.pool@, k2));
                    if pool_has(mid.pool@, k2) {
                        assert(pool_state(self.pool@, k2) == pool_state(mid.pool@, k2));
                    }
                }
            }
            assert(spec_other_scopes_unchanged(*old(self), mid, key@));
            lemma_other_scopes_trans(*old(self), mid, *self, key@);
            assert(spec_instant(now) == now);
            assert(spec_tpl_witness(tvw) == tvw);
        }
        self.release();
        Ok(())
    }

    /// The templates matching the query, most recently updated first.
    pub fn get_templates(&mut self, scope_id: Option<String>, query: TemplateQuery) -> (r: Result<
        Vec<TemplateRecord>,
        MemoryDbError,
    >)
        requires
            old(self).wf(),
        ensures
            final(self).wf(),
            old(self).same_config(*final(self)),
            (old(self).pooled ==> spec_other_scopes_unchanged(
                *old(self),
                *final(self),
                spec_normalize_scope(spec_scope_view(scope_id)),
            )),
            (!old(self).pooled ==> final(self).pool@.len() == 0),
            (r matches Err(e) ==> !(e matches MemoryDbError::NotFound) && !(
            e matches MemoryDbError::InvalidInput(_))),
            (old(self).pooled && old(self).has_scope(spec_normalize_scope(spec_scope_view(scope_id)))
                ==> r is Ok),
            (r matches Ok(out) ==> crate::store::spec_templates_ordered(tpl_views(out@))),
            (old(self).pooled ==> (match r {
                Ok(out) => {
                    let k = spec_normalize_scope(spec_scope_view(scope_id));
                    final(self).has_scope(k) && (exists|s0: ScopeState|
                        #![trigger s0.tpls()]
                        {
                            &&& s0.wf()
                            &&& (old(self).has_scope(k) ==> s0 == old(self).state_of(k))
                            &&& final(self).state_of(k) == s0
                            &&& tpl_views(out@).to_multiset() == s0.tpls().filter(
                                |t: TemplateRecordView|
                                    crate::records::spec_template_matches(t, query),
                            ).to_multiset()
                        })
                },
                Err(_) => true,
            })),
    {
        let key = normalize_scope_id(scope_id);
        let idx = match self.acquire(&key) {
            Ok(i) => i,
            Err(e) => {
                self.release();
                return Err(e);
            },
        };
        let ghost mid = *self;
        let entry = self.pool.remove(idx);
        proof {
            lemma_pool_index_unique(mid.pool@, idx as int, key@);
        }
        let out = entry.state.query_templates(&query);
        self.pool.insert(idx, entry);
        proof {
            assert(self.pool@ =~= mid.pool@);
        }
        self.release();
        Ok(out)
    }

    /// Deletes the template with this id.  `NotFound` exactly when the
    /// scope holds no such template.  Memory rows referring to it are
    /// never cascaded.
    #[verifier::rlimit(30)]
    pub fn delete_template(&mut self, scope_id: Option<String>, id: String) -> (r: Result<
        (),
        MemoryDbError,
    >)
        requires
            old(self).wf(),
        ensures
            final(self).wf(),
            old(self).same_config(*final(self)),
            (old(self).pooled ==> spec_other_scopes_unchanged(
                *old(self),
                *final(self),
                spec_normalize_scope(spec_scope_view(scope_id)),
            )),
            (!old(self).pooled ==> final(self).pool@.len() == 0),
            (r matches Err(e) ==> !(e matches MemoryDbError::InvalidInput(_))),
            (old(self).pooled ==> (match r {
                Ok(()) => {
                    let k = spec_normalize_scope(spec_scope_view(scope_id));
                    final(self).has_scope(k) && (exists|s0: ScopeState, i: int|
                        #![trigger s0.tpls().remove(i)]
                        {
                            &&& s0.wf()
                            &&& (old(self).has_scope(k) ==> s0 == old(self).state_of(k))
                            &&& 0 <= i < s0.tpls().len()
                            &&& s0.tpls()[i].id == id@
                            &&& final(self).state_of(k).tpls() == s0.tpls().remove(i)
                            &&& final(self).state_of(k).mems() == s0.mems()
                        })
                },
                Err(_) => true,
            })),
            (old(self).pooled && old(self).has_scope(spec_normalize_scope(spec_scope_view(scope_id)))
                ==> {
                let k = spec_normalize_scope(spec_scope_view(scope_id));
                let s0 = old(self).state_of(k);
                &&& ((r matches Err(MemoryDbError::NotFound)) <==> !s0.has_template(id@))
                &&& (r is Err ==> final(self).has_scope(k) && final(self).state_of(k) == s0)
            }),
    {
        let key = normalize_scope_id(scope_id);
        let idx = match self.acquire(&key) {
            Ok(i) => i,
            Err(e) => {
                self.release();
                return Err(e);
            },
        };
        let ghost mid = *self;
        let mut entry = self.pool.remove(idx);
        proof {
            lemma_pool_index_unique(mid.pool@, idx as int, key@);
        }
        let i = match entry.state.find_template(&id) {
            Some(i) => i,
            None => {
                self.pool.insert(idx, entry);
                proof {
                    assert(self.pool@ =~= mid.pool@);
                }
                self.release();
                return Err(MemoryDbError::NotFound);
            },
        };
        let params = text_param(&id);
        match exec_sql(&entry.conn, "DELETE FROM templates WHERE id = ?", params) {
            Ok(_) => {},
            Err(m) => {
                self.pool.insert(idx, entry);
                proof {
                    assert(self.pool@ =~= mid.pool@);
                }
                self.release();
                return Err(MemoryDbError::IOError(m));
            },
        }
        entry.state.remove_template(i);
        self.pool.insert(idx, entry);
        proof {
            assert(self.pool@ =~= mid.pool@.update(idx as int, self.pool@[idx as int]));
            lemma_entry_update_preserves_others(mid.pool@, self.pool@, idx as int, key@);
            lemma_pool_index_unique(self.pool@, idx as int, key@);
            assert(spec_other_scopes_unchanged(mid, *self, key@)) by {
                assert forall|k2: Seq<char>| k2 != key@ implies ((#[trigger] self.has_scope(k2))
                    == mid.has_scope(k2) && (mid.has_scope(k2) ==> self.state_of(k2)
                    == mid.state_of(k2))) by {
                    assert(pool_has(self.pool@, k2) == pool_has(mid.pool@, k2));
                    if pool_has(mid.pool@, k2) {
                        assert(pool_state(self.pool@, k2) == pool_state(mid.pool@, k2));
                    }
                }
            }
            assert(spec_other_scopes_unchanged(*old(self), mid, key@));
            lemma_other_scopes_trans(*old(self), mid, *self, key@);
        }
        self.release();
        Ok(())
    }
}

/// A named template row; gives quantifiers over rows a matching term.
pub open spec fn spec_tpl_witness(t: TemplateRecordView) -> TemplateRecordView {
    t
}

/// The upsert statement `save_template` runs: insert, or on an id
/// conflict overwrite every non-key field except `created_at`.
pub const UPSERT_TEMPLATE_SQL: &'static str =
    "INSERT INTO templates (id, name, author, version, description, schema, injection, created_at, updated_at, is_default, is_builtin) VALUES (?, ?, ?, ?, ?, ?, ?, ?, ?, ?, ?) ON CONFLICT(id) DO UPDATE SET name = excluded.name, author = excluded.author, version = excluded.version, description = excluded.description, schema = excluded.schema, injection = excluded.injection, updated_at = excluded.updated_at, is_default = excluded.is_default, is_builtin = excluded.is_builtin";

/// The eleven positional parameters of a template upsert, in the column
/// order of the upsert statement.
pub open spec fn spec_template_upsert_params(t: TemplateRecord) -> Seq<SqlParam> {
    seq![
        SqlParam::Text(t.id),
        SqlParam::Text(t.name),
        spec_opt_text_param(t.author),
        spec_opt_text_param(t.version),
        spec_opt_text_param(t.description),
        SqlParam::Text(t.schema),
        spec_opt_text_param(t.injection),
        SqlParam::Int(t.created_at),
        SqlParam::Int(t.updated_at),
        SqlParam::Int(crate::records::spec_bool_int(t.is_default)),
        SqlParam::Int(crate::records::spec_bool_int(t.is_builtin)),
    ]
}

fn template_upsert_params(t: &TemplateRecord) -> (p: Vec<SqlParam>)
    ensures
        p@ == spec_template_upsert_params(*t),
{
    let mut p: Vec<SqlParam> = Vec::new();
    p.push(SqlParam::Text(t.id.clone()));
    p.push(SqlParam::Text(t.name.clone()));
    p.push(opt_text_param(&t.author));
    p.push(opt_text_param(&t.version));
    p.push(opt_text_param(&t.description));
    p.push(SqlParam::Text(t.schema.clone()));
    p.push(opt_text_param(&t.injection));
    p.push(SqlParam::Int(t.created_at));
    p.push(SqlParam::Int(t.updated_at));
    p.push(SqlParam::Int(crate::records::bool_to_int(t.is_default)));
    p.push(SqlParam::Int(crate::records::bool_to_int(t.is_builtin)));
    proof {
        assert(p@ =~= spec_template_upsert_params(*t));
    }
    p
}

/// An equal copy of a row vector, as batch operations stage their work.
fn copy_memories(rows: &Vec<MemoryRecord>) -> (out: Vec<MemoryRecord>)
    ensures
        out@ == rows@,
{
    let n = rows.len();
    let mut out: Vec<MemoryRecord> = Vec::new();
    let mut i: usize = 0;
    while i < n
        invariant
            i <= n,
            n == rows@.len(),
            out@ =~= rows@.take(i as int),
        decreases n - i,
    {
        out.push(rows[i].duplicate());
        proof {
            assert(rows@.take(i + 1) =~= rows@.take(i as int).push(rows@[i as int]));
        }
        i = i + 1;
    }
    proof {
        assert(rows@.take(n as int) =~= rows@);
    }
    out
}

/// A named instant; gives quantifiers over instants a matching term.
pub open spec fn spec_instant(v: i64) -> i64 {
    v
}

/// The SET clause of a partial update: one assignment per supplied
/// field, then the refreshed `updated_at`.
pub open spec fn spec_update_set_text(u: MemoryUpdateInput) -> Seq<char> {
    (if u.row_data is Some {
        "row_data = ?, "@
    } else {
        Seq::<char>::empty()
    }) + (if u.is_active is Some {
        "is_active = ?, "@
    } else {
        Seq::<char>::empty()
    }) + (if u.is_pinned is Some {
        "is_pinned = ?, "@
    } else {
        Seq::<char>::empty()
    }) + (if u.priority is Some {
        "priority = ?, "@
    } else {
        Seq::<char>::empty()
    }) + (if u.sort_order is Some {
        "sort_order = ?, "@
    } else {
        Seq::<char>::empty()
    }) + "updated_at = ?"@
}

/// The whole update statement's text.
pub open spec fn spec_update_sql(u: MemoryUpdateInput) -> Seq<char> {
    "UPDATE memories SET "@ + spec_update_set_text(u) + " WHERE id = ?"@
}

/// The update statement's parameters: the supplied fields' values in SET
/// order, then the new `updated_at`, then the row id.
pub open spec fn spec_update_params(u: MemoryUpdateInput, now: i64) -> Seq<SqlParam> {
    (match u.row_data {
        Some(d) => seq![SqlParam::Text(d)],
        None => Seq::<SqlParam>::empty(),
    }) + (match u.is_active {
        Some(b) => seq![SqlParam::Int(crate::records::spec_bool_int(b))],
        None => Seq::<SqlParam>::empty(),
    }) + (match u.is_pinned {
        Some(b) => seq![SqlParam::Int(crate::records::spec_bool_int(b))],
        None => Seq::<SqlParam>::empty(),
    }) + (match u.priority {
        Some(v) => seq![SqlParam::Int(v)],
        None => Seq::<SqlParam>::empty(),
    }) + (match u.sort_order {
        Some(v) => seq![SqlParam::Int(v)],
        None => Seq::<SqlParam>::empty(),
    }) + seq![SqlParam::Int(now), SqlParam::Text(u.id)]
}

/// The dynamic `UPDATE memories SET ...` statement for the supplied
/// fields: one assignment per supplied field, then the refreshed
/// `updated_at`, with the row id as the final parameter.
#[verifier::rlimit(30)]
fn memory_update_statement(input: &MemoryUpdateInput, now: i64) -> (r: (String, Vec<SqlParam>))
    ensures
        r.0@ == spec_update_sql(*input),
        r.1@ == spec_update_params(*input, now),
{
    let mut sets = String::new();
    let mut params: Vec<SqlParam> = Vec::new();
    match &input.row_data {
        Some(d) => {
            sets.append("row_data = ?, ");
            params.push(SqlParam::Text(d.clone()));
        },
        None => {},
    }
    match input.is_active {
        Some(b) => {
            sets.append("is_active = ?, ");
            params.push(SqlParam::Int(crate::records::bool_to_int(b)));
        },
        None => {},
    }
    match input.is_pinned {
        Some(b) => {
            sets.append("is_pinned = ?, ");
            params.push(SqlParam::Int(crate::records::bool_to_int(b)));
        },
        None => {},
    }
    match input.priority {
        Some(v) => {
            sets.append("priority = ?, ");
            params.push(SqlParam::Int(v));
        },
        None => {},
    }
    match input.sort_order {
        Some(v) => {
            sets.append("sort_order = ?, ");
            params.push(SqlParam::Int(v));
        },
        None => {},
    }
    sets.append("updated_at = ?");
    params.push(SqlParam::Int(now));
    let mut sql = String::from_str("UPDATE memories SET ");
    sql.append(sets.as_str());
    sql.append(" WHERE id = ?");
    params.push(SqlParam::Text(input.id.clone()));
    proof {
        assert(sql@ =~= spec_update_sql(*input));
        assert(params@ =~= spec_update_params(*input, now));
    }
    (sql, params)
}

} // verus!
