//! The two record kinds the repository stores, their inputs and queries,
//! and the pure rules that build and mutate them.
//!
//! Every type carries a mathematical view over sequences of characters and
//! plain integers; the repository contracts are stated over those views.
//! JSON payloads travel through this crate verbatim, as their serialized
//! text.

use vstd::prelude::*;
use vstd::string::*;
use crate::text::{
    is_space_char,
    strip_ends,
    push_decimal,
    spec_dec_digits,
    spec_lower,
    spec_trim,
    trim_lower,
    trim_str,
};

verus! {

/// Input for creating one memory row.  An absent or blank `id` asks the
/// repository to generate one.
#[derive(Debug, Clone)]
pub struct MemoryCreateInput {
    pub id: Option<String>,
    pub template_id: String,
    pub table_id: String,
    pub contact_id: Option<String>,
    pub group_id: Option<String>,
    pub row_data: String,
    pub is_active: Option<bool>,
    pub is_pinned: Option<bool>,
    pub priority: Option<i64>,
    pub sort_order: Option<i64>,
}

/// One stored memory row.
#[derive(Debug, Clone, PartialEq, Eq)]
pub struct MemoryRecord {
    pub id: String,
    pub template_id: String,
    pub table_id: String,
    pub contact_id: Option<String>,
    pub group_id: Option<String>,
    pub row_data: String,
    pub is_active: bool,
    pub is_pinned: bool,
    pub priority: i64,
    pub sort_order: i64,
    pub created_at: i64,
    pub updated_at: i64,
}

/// Partial update of one memory row: only the supplied fields change.
#[derive(Debug, Clone)]
pub struct MemoryUpdateInput {
    pub id: String,
    pub row_data: Option<String>,
    pub is_active: Option<bool>,
    pub is_pinned: Option<bool>,
    pub priority: Option<i64>,
    pub sort_order: Option<i64>,
}

/// Filters for querying memory rows.  `scope` selects one of the named
/// modes `global`, `contact` or `group`; anything else falls back to the
/// unscoped mode where each supplied filter applies conjunctively.
#[derive(Debug, Clone)]
pub struct MemoryQuery {
    pub contact_id: Option<String>,
    pub group_id: Option<String>,
    pub template_id: Option<String>,
    pub scope: Option<String>,
}

/// Input for saving (upserting) one template.
#[derive(Debug, Clone)]
pub struct TemplateInput {
    pub id: String,
    pub name: String,
    pub author: Option<String>,
    pub version: Option<String>,
    pub description: Option<String>,
    pub schema: String,
    pub injection: Option<String>,
    pub is_default: Option<bool>,
    pub is_builtin: Option<bool>,
}

/// Exact-match filters for querying templates.
#[derive(Debug, Clone)]
pub struct TemplateQuery {
    pub id: Option<String>,
    pub is_default: Option<bool>,
    pub is_builtin: Option<bool>,
}

/// One stored template.
#[derive(Debug, Clone, PartialEq, Eq)]
pub struct TemplateRecord {
    pub id: String,
    pub name: String,
    pub author: Option<String>,
    pub version: Option<String>,
    pub description: Option<String>,
    pub schema: String,
    pub injection: Option<String>,
    pub created_at: i64,
    pub updated_at: i64,
    pub is_default: bool,
    pub is_builtin: bool,
}

/// The view of an optional string.
pub open spec fn view_opt_str(o: Option<String>) -> Option<Seq<char>> {
    match o {
        Some(s) => Some(s@),
        None => None,
    }
}

/// Mathematical view of a memory row.
#[verifier::ext_equal]
pub struct MemoryRecordView {
    pub id: Seq<char>,
    pub template_id: Seq<char>,
    pub table_id: Seq<char>,
    pub contact_id: Option<Seq<char>>,
    pub group_id: Option<Seq<char>>,
    pub row_data: Seq<char>,
    pub is_active: bool,
    pub is_pinned: bool,
    pub priority: i64,
    pub sort_order: i64,
    pub created_at: i64,
    pub updated_at: i64,
}

impl View for MemoryRecord {
    type V = MemoryRecordView;

    open spec fn view(&self) -> MemoryRecordView {
        MemoryRecordView {
            id: self.id@,
            template_id: self.template_id@,
            table_id: self.table_id@,
            contact_id: view_opt_str(self.contact_id),
            group_id: view_opt_str(self.group_id),
            row_data: self.row_data@,
            is_active: self.is_active,
            is_pinned: self.is_pinned,
            priority: self.priority,
            sort_order: self.sort_order,
            created_at: self.created_at,
            updated_at: self.updated_at,
        }
    }
}

/// Mathematical view of a template.
#[verifier::ext_equal]
pub struct TemplateRecordView {
    pub id: Seq<char>,
    pub name: Seq<char>,
    pub author: Option<Seq<char>>,
    pub version: Option<Seq<char>>,
    pub description: Option<Seq<char>>,
    pub schema: Seq<char>,
    pub injection: Option<Seq<char>>,
    pub created_at: i64,
    pub updated_at: i64,
    pub is_default: bool,
    pub is_builtin: bool,
}

impl View for TemplateRecord {
    type V = TemplateRecordView;

    open spec fn view(&self) -> TemplateRecordView {
        TemplateRecordView {
            id: self.id@,
            name: self.name@,
            author: view_opt_str(self.author),
            version: view_opt_str(self.version),
            description: view_opt_str(self.description),
            schema: self.schema@,
            injection: view_opt_str(self.injection),
            created_at: self.created_at,
            updated_at: self.updated_at,
            is_default: self.is_default,
            is_builtin: self.is_builtin,
        }
    }
}

/// A boolean stored as an integer column: nonzero means true.
pub open spec fn spec_bool_int(value: bool) -> i64 {
    if value {
        1
    } else {
        0
    }
}

/// Encodes a flag the way the database stores it.
pub fn bool_to_int(value: bool) -> (r: i64)
    ensures
        r == spec_bool_int(value),
{
    if value {
        1
    } else {
        0
    }
}

/// Decodes a stored flag column.
pub fn int_to_bool(value: i64) -> (r: bool)
    ensures
        r == (value != 0),
{
    value != 0
}

pub open spec fn spec_unwrap_bool(o: Option<bool>, default: bool) -> bool {
    match o {
        Some(b) => b,
        None => default,
    }
}

pub open spec fn spec_unwrap_i64(o: Option<i64>, default: i64) -> i64 {
    match o {
        Some(v) => v,
        None => default,
    }
}

/// The caller-supplied id, trimmed; `None` when absent or blank, in which
/// case the repository generates one.
pub open spec fn spec_effective_id(id: Option<String>) -> Option<Seq<char>> {
    match id {
        Some(s) => {
            let t = strip_ends(s@, |c: char| is_space_char(c));
            if t.len() == 0 {
                None
            } else {
                Some(t)
            }
        },
        None => None,
    }
}

/// The shape of a generated memory id: a timestamp-derived prefix and a
/// bounded in-process counter value.
pub open spec fn spec_generated_id(now: int, seq_no: int) -> Seq<char> {
    "mem_"@ + spec_dec_digits(now) + "_"@ + spec_dec_digits(seq_no)
}

/// Builds a fresh memory id from the current clock and the in-process
/// counter; the counter is used modulo 1000.
pub fn generate_id(now_ms: i64, counter: u64) -> (r: String)
    requires
        now_ms >= 0,
    ensures
        r@ == spec_generated_id(now_ms as int, (counter % 1000) as int),
{
    let mut s = String::from_str("mem_");
    push_decimal(&mut s, now_ms as u64);
    s.append("_");
    push_decimal(&mut s, counter % 1000);
    proof {
        assert(s@ =~= spec_generated_id(now_ms as int, (counter % 1000) as int));
    }
    s
}

/// The caller-supplied id, trimmed, or `None` when absent or blank.
pub fn effective_id(id: &Option<String>) -> (r: Option<String>)
    ensures
        view_opt_str(r) == spec_effective_id(*id),
{
    match id {
        Some(s) => {
            let t = trim_str(s.as_str());
            if t.unicode_len() == 0 {
                None
            } else {
                Some(t)
            }
        },
        None => None,
    }
}

/// A row as `create` stores it: built from the input at some nonnegative
/// instant, with the row's own id.
pub open spec fn spec_created_row(inp: MemoryCreateInput, rv: MemoryRecordView) -> bool {
    exists|now: i64| 0 <= now && #[trigger] spec_built_memory(inp, rv.id, now, rv)
}

/// Which id a create call uses: the trimmed caller-supplied one when
/// nonblank, otherwise one generated from the clock and the counter.
pub open spec fn spec_create_id_rule(inp: MemoryCreateInput, id: Seq<char>, counter: u64) -> bool {
    match spec_effective_id(inp.id) {
        Some(t) => id == t,
        None => exists|ts: int|
            0 <= ts && id == #[trigger] spec_generated_id(ts, (counter % 1000) as int),
    }
}

/// Which id a batch-created row carries: the trimmed caller-supplied one
/// when nonblank, otherwise one of the generated shape (some instant and
/// some counter value below 1000).  Batching is only a transaction
/// boundary: each row obeys the same id rule as a single create.
pub open spec fn spec_batch_created_row(inp: MemoryCreateInput, rv: MemoryRecordView) -> bool {
    &&& spec_created_row(inp, rv)
    &&& (match spec_effective_id(inp.id) {
        Some(t) => rv.id == t,
        None => exists|ts: int, c: int|
            0 <= ts && 0 <= c < 1000 && rv.id == #[trigger] spec_generated_id(ts, c),
    })
}

/// Every field of a freshly created row, pinned exactly: identifiers and
/// payload come from the input, flags and numbers fall back to their
/// defaults, and both timestamps are the creation instant.
pub open spec fn spec_built_memory(
    input: MemoryCreateInput,
    id: Seq<char>,
    now: i64,
    r: MemoryRecordView,
) -> bool {
    &&& r.id == id
    &&& r.template_id == input.template_id@
    &&& r.table_id == input.table_id@
    &&& r.contact_id == view_opt_str(input.contact_id)
    &&& r.group_id == view_opt_str(input.group_id)
    &&& r.row_data == input.row_data@
    &&& r.is_active == spec_unwrap_bool(input.is_active, true)
    &&& r.is_pinned == spec_unwrap_bool(input.is_pinned, false)
    &&& r.priority == spec_unwrap_i64(input.priority, 0)
    &&& r.sort_order == spec_unwrap_i64(input.sort_order, 0)
    &&& r.created_at == now
    &&& r.updated_at == now
}

/// A created row, with defaults active=true, pinned=false, priority=0,
/// sort_order=0 and created_at = updated_at = now.
pub fn build_memory_row(input: MemoryCreateInput, id: String, now: i64) -> (r: MemoryRecord)
    ensures
        spec_built_memory(input, id@, now, r@),
{
    let is_active = match input.is_active {
        Some(b) => b,
        None => true,
    };
    let is_pinned = match input.is_pinned {
        Some(b) => b,
        None => false,
    };
    let priority = match input.priority {
        Some(v) => v,
        None => 0,
    };
    let sort_order = match input.sort_order {
        Some(v) => v,
        None => 0,
    };
    MemoryRecord {
        id,
        template_id: input.template_id,
        table_id: input.table_id,
        contact_id: input.contact_id,
        group_id: input.group_id,
        row_data: input.row_data,
        is_active,
        is_pinned,
        priority,
        sort_order,
        created_at: now,
        updated_at: now,
    }
}

/// True when the update supplies at least one mutable field.
pub open spec fn spec_update_has_fields(u: MemoryUpdateInput) -> bool {
    u.row_data is Some || u.is_active is Some || u.is_pinned is Some || u.priority is Some
        || u.sort_order is Some
}

pub fn update_has_fields(u: &MemoryUpdateInput) -> (r: bool)
    ensures
        r == spec_update_has_fields(*u),
{
    u.row_data.is_some() || u.is_active.is_some() || u.is_pinned.is_some() || u.priority.is_some()
        || u.sort_order.is_some()
}

/// The row after a partial update: exactly the supplied fields change,
/// identity fields and `created_at` stay, and `updated_at` is refreshed.
pub open spec fn spec_update_applied(
    r0: MemoryRecordView,
    u: MemoryUpdateInput,
    now: i64,
    r1: MemoryRecordView,
) -> bool {
    &&& r1.id == r0.id
    &&& r1.template_id == r0.template_id
    &&& r1.table_id == r0.table_id
    &&& r1.contact_id == r0.contact_id
    &&& r1.group_id == r0.group_id
    &&& r1.row_data == (match u.row_data {
        Some(d) => d@,
        None => r0.row_data,
    })
    &&& r1.is_active == spec_unwrap_bool(u.is_active, r0.is_active)
    &&& r1.is_pinned == spec_unwrap_bool(u.is_pinned, r0.is_pinned)
    &&& r1.priority == spec_unwrap_i64(u.priority, r0.priority)
    &&& r1.sort_order == spec_unwrap_i64(u.sort_order, r0.sort_order)
    &&& r1.created_at == r0.created_at
    &&& r1.updated_at == now
}

/// Applies a partial update to a row in place.
pub fn apply_memory_update(rec: &mut MemoryRecord, u: &MemoryUpdateInput, now: i64)
    ensures
        spec_update_applied(old(rec)@, *u, now, final(rec)@),
{
    match &u.row_data {
        Some(d) => {
            rec.row_data = d.clone();
        },
        None => {},
    }
    match u.is_active {
        Some(b) => {
            rec.is_active = b;
        },
        None => {},
    }
    match u.is_pinned {
        Some(b) => {
            rec.is_pinned = b;
        },
        None => {},
    }
    match u.priority {
        Some(v) => {
            rec.priority = v;
        },
        None => {},
    }
    match u.sort_order {
        Some(v) => {
            rec.sort_order = v;
        },
        None => {},
    }
    rec.updated_at = now;
}

/// The three named query modes, plus the fallback where each supplied
/// filter applies on its own.
#[derive(Debug, Clone, Copy, PartialEq, Eq, Structural)]
pub enum ScopeMode {
    Global,
    Contact,
    Group,
    Unscoped,
}

/// The query's scope discriminator: its text trimmed and lowercased, then
/// matched against the three named modes.
pub open spec fn spec_scope_mode_of(scope: Option<String>) -> ScopeMode {
    let s = spec_lower(
        spec_trim(
            match scope {
                Some(x) => x@,
                None => Seq::empty(),
            },
        ),
    );
    if s == "global"@ {
        ScopeMode::Global
    } else if s == "contact"@ {
        ScopeMode::Contact
    } else if s == "group"@ {
        ScopeMode::Group
    } else {
        ScopeMode::Unscoped
    }
}

pub fn scope_mode_of(scope: &Option<String>) -> (m: ScopeMode)
    ensures
        m == spec_scope_mode_of(*scope),
{
    let s = match scope {
        Some(x) => trim_lower(x.as_str()),
        None => String::new(),
    };
    proof {
        if scope is None {
            assert(spec_trim(Seq::<char>::empty()) =~= Seq::<char>::empty());
            assert(spec_lower(Seq::<char>::empty()) =~= Seq::<char>::empty());
        }
    }
    if s == String::from_str("global") {
        ScopeMode::Global
    } else if s == String::from_str("contact") {
        ScopeMode::Contact
    } else if s == String::from_str("group") {
        ScopeMode::Group
    } else {
        ScopeMode::Unscoped
    }
}

/// `contact` mode without a contact filter, or `group` mode without a
/// group filter: the query is rejected with `InvalidInput`.
pub open spec fn spec_memory_query_invalid(q: MemoryQuery) -> bool {
    ||| spec_scope_mode_of(q.scope) == ScopeMode::Contact && q.contact_id is None
    ||| spec_scope_mode_of(q.scope) == ScopeMode::Group && q.group_id is None
}

/// Whether a row satisfies the query's filters: the scope mode's own
/// condition, conjoined with the template filter when supplied.
pub open spec fn spec_memory_matches(m: MemoryRecordView, q: MemoryQuery) -> bool {
    let scope_ok = match spec_scope_mode_of(q.scope) {
        ScopeMode::Global => m.contact_id is None && m.group_id is None,
        ScopeMode::Contact => match q.contact_id {
            Some(c) => m.contact_id == Some(c@),
            None => false,
        },
        ScopeMode::Group => match q.group_id {
            Some(g) => m.group_id == Some(g@),
            None => false,
        },
        ScopeMode::Unscoped => (match q.contact_id {
            Some(c) => m.contact_id == Some(c@),
            None => true,
        }) && (match q.group_id {
            Some(g) => m.group_id == Some(g@),
            None => true,
        }),
    };
    scope_ok && (match q.template_id {
        Some(t) => m.template_id == t@,
        None => true,
    })
}

fn opt_str_matches(field: &Option<String>, want: &String) -> (r: bool)
    ensures
        r == (view_opt_str(*field) == Some(want@)),
{
    match field {
        Some(x) => *x == *want,
        None => false,
    }
}

pub fn memory_matches(m: &MemoryRecord, q: &MemoryQuery, mode: ScopeMode) -> (r: bool)
    requires
        mode == spec_scope_mode_of(q.scope),
    ensures
        r == spec_memory_matches(m@, *q),
{
    let scope_ok = match mode {
        ScopeMode::Global => m.contact_id.is_none() && m.group_id.is_none(),
        ScopeMode::Contact => match &q.contact_id {
            Some(c) => opt_str_matches(&m.contact_id, c),
            None => false,
        },
        ScopeMode::Group => match &q.group_id {
            Some(g) => opt_str_matches(&m.group_id, g),
            None => false,
        },
        ScopeMode::Unscoped => (match &q.contact_id {
            Some(c) => opt_str_matches(&m.contact_id, c),
            None => true,
        }) && (match &q.group_id {
            Some(g) => opt_str_matches(&m.group_id, g),
            None => true,
        }),
    };
    scope_ok && (match &q.template_id {
        Some(t) => m.template_id == *t,
        None => true,
    })
}

/// Whether a template satisfies the query's exact-match filters.
pub open spec fn spec_template_matches(t: TemplateRecordView, q: TemplateQuery) -> bool {
    &&& (match q.id {
        Some(id) => t.id == id@,
        None => true,
    })
    &&& (match q.is_default {
        Some(d) => t.is_default == d,
        None => true,
    })
    &&& (match q.is_builtin {
        Some(b) => t.is_builtin == b,
        None => true,
    })
}

pub fn template_matches(t: &TemplateRecord, q: &TemplateQuery) -> (r: bool)
    ensures
        r == spec_template_matches(t@, *q),
{
    (match &q.id {
        Some(id) => t.id == *id,
        None => true,
    }) && (match q.is_default {
        Some(d) => t.is_default == d,
        None => true,
    }) && (match q.is_builtin {
        Some(b) => t.is_builtin == b,
        None => true,
    })
}

/// Query order for memory rows: pinned rows first, then higher priority,
/// then the most recently updated.  `a` may stand at or before `b`.
pub open spec fn spec_memory_leq(a: MemoryRecordView, b: MemoryRecordView) -> bool {
    if a.is_pinned != b.is_pinned {
        a.is_pinned
    } else if a.priority != b.priority {
        a.priority > b.priority
    } else {
        a.updated_at >= b.updated_at
    }
}

pub fn memory_leq(a: &MemoryRecord, b: &MemoryRecord) -> (r: bool)
    ensures
        r == spec_memory_leq(a@, b@),
{
    if a.is_pinned != b.is_pinned {
        a.is_pinned
    } else if a.priority != b.priority {
        a.priority > b.priority
    } else {
        a.updated_at >= b.updated_at
    }
}

/// Query order for templates: the most recently updated first.
pub open spec fn spec_template_leq(a: TemplateRecordView, b: TemplateRecordView) -> bool {
    a.updated_at >= b.updated_at
}

pub fn template_leq(a: &TemplateRecord, b: &TemplateRecord) -> (r: bool)
    ensures
        r == spec_template_leq(a@, b@),
{
    a.updated_at >= b.updated_at
}

/// The memory query order is total: any two rows are comparable.
pub proof fn lemma_memory_leq_total(a: MemoryRecordView, b: MemoryRecordView)
    ensures
        spec_memory_leq(a, b) || spec_memory_leq(b, a),
{
}

/// The memory query order is transitive.
pub proof fn lemma_memory_leq_trans(a: MemoryRecordView, b: MemoryRecordView, c: MemoryRecordView)
    requires
        spec_memory_leq(a, b),
        spec_memory_leq(b, c),
    ensures
        spec_memory_leq(a, c),
{
}

/// The template query order is total and transitive.
pub proof fn lemma_template_leq_total(a: TemplateRecordView, b: TemplateRecordView)
    ensures
        spec_template_leq(a, b) || spec_template_leq(b, a),
{
}

/// The saved template: identified by the input's id, every non-key field
/// overwritten from the input, `created_at` kept from a previous version
/// when one existed, `updated_at` refreshed.
pub open spec fn spec_template_saved(
    previous: Option<TemplateRecordView>,
    input: TemplateInput,
    now: i64,
    t: TemplateRecordView,
) -> bool {
    &&& t.id == input.id@
    &&& t.name == input.name@
    &&& t.author == view_opt_str(input.author)
    &&& t.version == view_opt_str(input.version)
    &&& t.description == view_opt_str(input.description)
    &&& t.schema == input.schema@
    &&& t.injection == view_opt_str(input.injection)
    &&& t.is_default == spec_unwrap_bool(input.is_default, false)
    &&& t.is_builtin == spec_unwrap_bool(input.is_builtin, false)
    &&& t.created_at == (match previous {
        Some(p) => p.created_at,
        None => now,
    })
    &&& t.updated_at == now
}

/// Builds the template row a save call stores, given the `created_at` of
/// the version it replaces, if any.
pub fn build_template_row(input: TemplateInput, previous_created_at: Option<i64>, now: i64) -> (t:
    TemplateRecord)
    ensures
        t@ == (TemplateRecordView {
            id: input.id@,
            name: input.name@,
            author: view_opt_str(input.author),
            version: view_opt_str(input.version),
            description: view_opt_str(input.description),
            schema: input.schema@,
            injection: view_opt_str(input.injection),
            created_at: (match previous_created_at {
                Some(c) => c,
                None => now,
            }),
            updated_at: now,
            is_default: spec_unwrap_bool(input.is_default, false),
            is_builtin: spec_unwrap_bool(input.is_builtin, false),
        }),
{
    let is_default = match input.is_default {
        Some(b) => b,
        None => false,
    };
    let is_builtin = match input.is_builtin {
        Some(b) => b,
        None => false,
    };
    let created_at = match previous_created_at {
        Some(c) => c,
        None => now,
    };
    let t = TemplateRecord {
        id: input.id,
        name: input.name,
        author: input.author,
        version: input.version,
        description: input.description,
        schema: input.schema,
        injection: input.injection,
        created_at,
        updated_at: now,
        is_default,
        is_builtin,
    };
    proof {
        assert(t@ =~= (TemplateRecordView {
            id: t.id@,
            name: t.name@,
            author: view_opt_str(t.author),
            version: view_opt_str(t.version),
            description: view_opt_str(t.description),
            schema: t.schema@,
            injection: view_opt_str(t.injection),
            created_at: t.created_at,
            updated_at: t.updated_at,
            is_default: t.is_default,
            is_builtin: t.is_builtin,
        }));
    }
    t
}

impl MemoryRecord {
    /// An equal copy of the row.
    pub fn duplicate(&self) -> (r: MemoryRecord)
        ensures
            r == *self,
    {
        MemoryRecord {
            id: self.id.clone(),
            template_id: self.template_id.clone(),
            table_id: self.table_id.clone(),
            contact_id: clone_opt_string(&self.contact_id),
            group_id: clone_opt_string(&self.group_id),
            row_data: self.row_data.clone(),
            is_active: self.is_active,
            is_pinned: self.is_pinned,
            priority: self.priority,
            sort_order: self.sort_order,
            created_at: self.created_at,
            updated_at: self.updated_at,
        }
    }
}

impl TemplateRecord {
    /// An equal copy of the template.
    pub fn duplicate(&self) -> (r: TemplateRecord)
        ensures
            r == *self,
    {
        TemplateRecord {
            id: self.id.clone(),
            name: self.name.clone(),
            author: clone_opt_string(&self.author),
            version: clone_opt_string(&self.version),
            description: clone_opt_string(&self.description),
            schema: self.schema.clone(),
            injection: clone_opt_string(&self.injection),
            created_at: self.created_at,
            updated_at: self.updated_at,
            is_default: self.is_default,
            is_builtin: self.is_builtin,
        }
    }
}

/// An update that supplies only a new priority leaves the payload, the
/// active and pinned flags and the sort order unchanged, sets that
/// priority, and refreshes `updated_at` to the update instant — which is
/// at least the prior value whenever the clock did not step back.
pub proof fn lemma_priority_only_update(
    r0: MemoryRecordView,
    u: MemoryUpdateInput,
    now: i64,
    r1: MemoryRecordView,
)
    requires
        spec_update_applied(r0, u, now, r1),
        u.row_data is None,
        u.is_active is None,
        u.is_pinned is None,
        u.sort_order is None,
    ensures
        r1.row_data == r0.row_data,
        r1.is_active == r0.is_active,
        r1.is_pinned == r0.is_pinned,
        r1.sort_order == r0.sort_order,
        (u.priority matches Some(p) ==> r1.priority == p),
        r1.updated_at == now,
        now >= r0.updated_at ==> r1.updated_at >= r0.updated_at,
{
}

fn clone_opt_string(o: &Option<String>) -> (r: Option<String>)
    ensures
        r == *o,
{
    match o {
        Some(s) => Some(s.clone()),
        None => None,
    }
}

} // verus!
