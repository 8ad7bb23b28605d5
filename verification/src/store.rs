//! The in-memory mirror of one scope's database: its memory rows and
//! templates, the well-formedness invariant (unique ids), and the exact
//! transitions the repository operations perform on it.

use vstd::prelude::*;
use vstd::assert_multisets_equal;
use crate::errors::MemoryDbError;
use crate::records::{
    memory_leq,
    memory_matches,
    scope_mode_of,
    spec_memory_leq,
    spec_memory_matches,
    spec_memory_query_invalid,
    spec_scope_mode_of,
    spec_template_leq,
    spec_template_matches,
    template_leq,
    template_matches,
    MemoryQuery,
    MemoryRecord,
    MemoryRecordView,
    ScopeMode,
    TemplateQuery,
    TemplateRecord,
    TemplateRecordView,
};

verus! {

/// The views of a sequence of memory rows.
pub open spec fn mem_views(s: Seq<MemoryRecord>) -> Seq<MemoryRecordView> {
    s.map_values(|r: MemoryRecord| r@)
}

/// The views of a sequence of templates.
pub open spec fn tpl_views(s: Seq<TemplateRecord>) -> Seq<TemplateRecordView> {
    s.map_values(|t: TemplateRecord| t@)
}

/// No two rows carry the same id.
pub open spec fn spec_mem_ids_unique(s: Seq<MemoryRecordView>) -> bool {
    forall|i: int, j: int| 0 <= i < j < s.len() ==> s[i].id != s[j].id
}

/// No two templates carry the same id.
pub open spec fn spec_tpl_ids_unique(s: Seq<TemplateRecordView>) -> bool {
    forall|i: int, j: int| 0 <= i < j < s.len() ==> s[i].id != s[j].id
}

/// The position of the row with this id, if any.
pub fn find_memory_in(rows: &Vec<MemoryRecord>, id: &String) -> (r: Option<usize>)
    ensures
        (match r {
            Some(i) => i < rows@.len() && mem_views(rows@)[i as int].id == id@,
            None => forall|t: int|
                0 <= t < rows@.len() ==> (#[trigger] mem_views(rows@)[t].id) != id@,
        }),
{
    let n = rows.len();
    let mut i: usize = 0;
    while i < n
        invariant
            i <= n,
            n == rows@.len(),
            forall|k: int| 0 <= k < i ==> (#[trigger] mem_views(rows@)[k].id) != id@,
        decreases n - i,
    {
        if rows[i].id == *id {
            return Some(i);
        }
        i = i + 1;
    }
    None
}

/// The position of the template with this id, if any.
pub fn find_template_in(rows: &Vec<TemplateRecord>, id: &String) -> (r: Option<usize>)
    ensures
        (match r {
            Some(i) => i < rows@.len() && tpl_views(rows@)[i as int].id == id@,
            None => forall|t: int|
                0 <= t < rows@.len() ==> (#[trigger] tpl_views(rows@)[t].id) != id@,
        }),
{
    let n = rows.len();
    let mut i: usize = 0;
    while i < n
        invariant
            i <= n,
            n == rows@.len(),
            forall|k: int| 0 <= k < i ==> (#[trigger] tpl_views(rows@)[k].id) != id@,
        decreases n - i,
    {
        if rows[i].id == *id {
            return Some(i);
        }
        i = i + 1;
    }
    None
}

/// One step of a batch delete: the row with this id leaves, if one is
/// there; the count says whether one did.
pub open spec fn spec_delete_one(s: Seq<MemoryRecordView>, id: Seq<char>) -> (
    Seq<MemoryRecordView>,
    int,
) {
    if exists|i: int| 0 <= i < s.len() && s[i].id == id {
        let i = choose|i: int| 0 <= i < s.len() && s[i].id == id;
        (s.remove(i), 1)
    } else {
        (s, 0)
    }
}

/// A batch delete: the ids leave one after the other, and the count is
/// the number of rows that actually left.
pub open spec fn spec_batch_delete(s: Seq<MemoryRecordView>, ids: Seq<Seq<char>>) -> (
    Seq<MemoryRecordView>,
    int,
)
    decreases ids.len(),
{
    if ids.len() == 0 {
        (s, 0)
    } else {
        let prev = spec_batch_delete(s, ids.drop_last());
        let step = spec_delete_one(prev.0, ids.last());
        (step.0, prev.1 + step.1)
    }
}

/// Keeps the first row with each id.  A well-formed database never has
/// duplicate primary keys, and then the rows come back unchanged.
pub fn dedup_memories(rows: Vec<MemoryRecord>) -> (out: Vec<MemoryRecord>)
    ensures
        spec_mem_ids_unique(mem_views(out@)),
        spec_mem_ids_unique(mem_views(rows@)) ==> out@ == rows@,
{
    let n = rows.len();
    let mut out: Vec<MemoryRecord> = Vec::new();
    let mut i: usize = 0;
    proof {
        assert(rows@.take(0) =~= Seq::<MemoryRecord>::empty());
    }
    while i < n
        invariant
            i <= n,
            n == rows@.len(),
            spec_mem_ids_unique(mem_views(out@)),
            forall|k: int|
                0 <= k < mem_views(out@).len() ==> exists|t: int|
                    0 <= t < i && #[trigger] mem_views(out@)[k] == mem_views(rows@)[t],
            spec_mem_ids_unique(mem_views(rows@.take(i as int))) ==> out@ == rows@.take(i as int),
        decreases n - i,
    {
        let ghost pre = out@;
        let mut seen = false;
        let m = out.len();
        let mut k: usize = 0;
        while k < m
            invariant
                k <= m,
                m == out@.len(),
                out@ == pre,
                !seen ==> (forall|t: int|
                    0 <= t < k ==> #[trigger] mem_views(out@)[t].id != mem_views(
                        rows@,
                    )[i as int].id),
                seen ==> (exists|t: int|
                    0 <= t < mem_views(out@).len() && #[trigger] mem_views(out@)[t].id == mem_views(
                        rows@,
                    )[i as int].id),
                i < n == rows@.len(),
            decreases m - k,
        {
            proof {
                assert(mem_views(out@)[k as int] == out@[k as int]@);
                assert(mem_views(rows@)[i as int] == rows@[i as int]@);
            }
            if out[k].id == rows[i].id {
                seen = true;
                proof {
                    assert(mem_views(out@)[k as int].id == mem_views(rows@)[i as int].id);
                }
            }
            k = k + 1;
        }
        if !seen {
            out.push(rows[i].duplicate());
            proof {
                assert(mem_views(out@) =~= mem_views(pre).push(mem_views(rows@)[i as int]));
            }
        }
        proof {
            if spec_mem_ids_unique(mem_views(rows@.take(i + 1))) {
                assert(spec_mem_ids_unique(mem_views(rows@.take(i as int)))) by {
                    assert(forall|k: int|
                        0 <= k < i ==> mem_views(rows@.take(i as int))[k] == mem_views(
                            rows@.take(i + 1),
                        )[k]);
                }
                assert(pre == rows@.take(i as int));
                // no earlier row shares this id, so it was not seen
                assert(!seen) by {
                    if seen {
                        let t = choose|t: int|
                            0 <= t < pre.len() && #[trigger] mem_views(pre)[t].id == mem_views(
                                rows@,
                            )[i as int].id;
                        assert(mem_views(rows@.take(i + 1))[t].id == mem_views(rows@.take(i + 1))[
                            i as int].id);
                    }
                }
                assert(out@ =~= rows@.take(i + 1));
            }
        }
        i = i + 1;
    }
    proof {
        assert(rows@.take(n as int) =~= rows@);
    }
    out
}

/// Keeps the first template with each id.
pub fn dedup_templates(rows: Vec<TemplateRecord>) -> (out: Vec<TemplateRecord>)
    ensures
        spec_tpl_ids_unique(tpl_views(out@)),
        spec_tpl_ids_unique(tpl_views(rows@)) ==> out@ == rows@,
{
    let n = rows.len();
    let mut out: Vec<TemplateRecord> = Vec::new();
    let mut i: usize = 0;
    proof {
        assert(rows@.take(0) =~= Seq::<TemplateRecord>::empty());
    }
    while i < n
        invariant
            i <= n,
            n == rows@.len(),
            spec_tpl_ids_unique(tpl_views(out@)),
            forall|k: int|
                0 <= k < tpl_views(out@).len() ==> exists|t: int|
                    0 <= t < i && #[trigger] tpl_views(out@)[k] == tpl_views(rows@)[t],
            spec_tpl_ids_unique(tpl_views(rows@.take(i as int))) ==> out@ == rows@.take(i as int),
        decreases n - i,
    {
        let ghost pre = out@;
        let mut seen = false;
        let m = out.len();
        let mut k: usize = 0;
        while k < m
            invariant
                k <= m,
                m == out@.len(),
                out@ == pre,
                !seen ==> (forall|t: int|
                    0 <= t < k ==> #[trigger] tpl_views(out@)[t].id != tpl_views(
                        rows@,
                    )[i as int].id),
                seen ==> (exists|t: int|
                    0 <= t < tpl_views(out@).len() && #[trigger] tpl_views(out@)[t].id == tpl_views(
                        rows@,
                    )[i as int].id),
                i < n == rows@.len(),
            decreases m - k,
        {
            proof {
                assert(tpl_views(out@)[k as int] == out@[k as int]@);
                assert(tpl_views(rows@)[i as int] == rows@[i as int]@);
            }
            if out[k].id == rows[i].id {
                seen = true;
                proof {
                    assert(tpl_views(out@)[k as int].id == tpl_views(rows@)[i as int].id);
                }
            }
            k = k + 1;
        }
        if !seen {
            out.push(rows[i].duplicate());
            proof {
                assert(tpl_views(out@) =~= tpl_views(pre).push(tpl_views(rows@)[i as int]));
            }
        }
        proof {
            if spec_tpl_ids_unique(tpl_views(rows@.take(i + 1))) {
                assert(spec_tpl_ids_unique(tpl_views(rows@.take(i as int)))) by {
                    assert(forall|k: int|
                        0 <= k < i ==> tpl_views(rows@.take(i as int))[k] == tpl_views(
                            rows@.take(i + 1),
                        )[k]);
                }
                assert(pre == rows@.take(i as int));
                assert(!seen) by {
                    if seen {
                        let t = choose|t: int|
                            0 <= t < pre.len() && #[trigger] tpl_views(pre)[t].id == tpl_views(
                                rows@,
                            )[i as int].id;
                        assert(tpl_views(rows@.take(i + 1))[t].id == tpl_views(rows@.take(i + 1))[
                            i as int].id);
                    }
                }
                assert(out@ =~= rows@.take(i + 1));
            }
        }
        i = i + 1;
    }
    proof {
        assert(rows@.take(n as int) =~= rows@);
    }
    out
}

/// Round trip: a row created with a contact id matches an immediately
/// following query filtered by that contact, so it stands among the
/// query's results, and its payload equals the created input's payload
/// verbatim.
pub proof fn lemma_create_then_query_roundtrip(
    s: Seq<MemoryRecordView>,
    inp: crate::records::MemoryCreateInput,
    rv: MemoryRecordView,
    q: MemoryQuery,
    cv: Seq<char>,
)
    requires
        crate::records::spec_created_row(inp, rv),
        crate::records::view_opt_str(inp.contact_id) == Some(cv),
        q.scope is None,
        crate::records::view_opt_str(q.contact_id) == Some(cv),
        q.group_id is None,
        q.template_id is None,
    ensures
        spec_memory_matches(rv, q),
        rv.row_data == inp.row_data@,
        s.push(rv).filter(|m: MemoryRecordView| spec_memory_matches(m, q)).contains(rv),
        s.push(rv).filter(|m: MemoryRecordView| spec_memory_matches(m, q)).to_multiset().count(rv)
            > 0,
{
    broadcast use Seq::lemma_filter_push;
    broadcast use vstd::seq_lib::group_to_multiset_ensures;

    let now = choose|now: i64|
        0 <= now && crate::records::spec_built_memory(inp, rv.id, now, rv);
    reveal_strlit("global");
    reveal_strlit("contact");
    reveal_strlit("group");
    assert(crate::text::spec_trim(Seq::<char>::empty()) =~= Seq::<char>::empty());
    assert(crate::text::spec_lower(Seq::<char>::empty()) =~= Seq::<char>::empty());
    assert(spec_scope_mode_of(q.scope) == ScopeMode::Unscoped);
    assert(spec_memory_matches(rv, q));
    let pred = |m: MemoryRecordView| spec_memory_matches(m, q);
    assert(s.push(rv).filter(pred) == s.filter(pred).push(rv));
    let f = s.filter(pred);
    assert(f.push(rv)[f.len() as int] == rv);
    assert(f.push(rv).contains(rv));
}

/// With no filters supplied and no named mode, every row matches: an
/// unfiltered query sees the whole scope.  Together with the batch-create
/// contract, a batch of N inputs adds exactly N rows to what such a query
/// returns.
pub proof fn lemma_unfiltered_query_matches_all(m: MemoryRecordView, q: MemoryQuery)
    requires
        q.scope is None,
        q.contact_id is None,
        q.group_id is None,
        q.template_id is None,
    ensures
        spec_memory_matches(m, q),
{
    reveal_strlit("global");
    reveal_strlit("contact");
    reveal_strlit("group");
    assert(crate::text::spec_trim(Seq::<char>::empty()) =~= Seq::<char>::empty());
    assert(crate::text::spec_lower(Seq::<char>::empty()) =~= Seq::<char>::empty());
    assert(spec_scope_mode_of(q.scope) == ScopeMode::Unscoped);
}

/// Filtering with a predicate that holds of every element keeps the
/// sequence whole.
pub proof fn lemma_filter_keeps_all(
    s: Seq<MemoryRecordView>,
    pred: spec_fn(MemoryRecordView) -> bool,
)
    requires
        forall|i: int| 0 <= i < s.len() ==> pred(#[trigger] s[i]),
    ensures
        s.filter(pred) == s,
    decreases s.len(),
{
    reveal(Seq::filter);
    if s.len() > 0 {
        assert(forall|i: int| 0 <= i < s.drop_last().len() ==> s.drop_last()[i] == s[i]);
        lemma_filter_keeps_all(s.drop_last(), pred);
        assert(s.filter(pred) =~= s);
    }
}

/// One scope's rows, mirrored from its database file at open and kept in
/// step with it by every write.
pub struct ScopeState {
    pub memories: Vec<MemoryRecord>,
    pub templates: Vec<TemplateRecord>,
}

impl ScopeState {
    /// The mathematical contents: memory rows in storage order.
    pub open spec fn mems(self) -> Seq<MemoryRecordView> {
        mem_views(self.memories@)
    }

    /// The mathematical contents: templates in storage order.
    pub open spec fn tpls(self) -> Seq<TemplateRecordView> {
        tpl_views(self.templates@)
    }

    /// Ids are unique within each table, as the schema's primary keys
    /// enforce on disk.
    pub open spec fn wf(self) -> bool {
        &&& (forall|i: int, j: int|
            0 <= i < j < self.mems().len() ==> self.mems()[i].id != self.mems()[j].id)
        &&& (forall|i: int, j: int|
            0 <= i < j < self.tpls().len() ==> self.tpls()[i].id != self.tpls()[j].id)
    }

    /// Whether some memory row carries this id.
    pub open spec fn has_memory(self, id: Seq<char>) -> bool {
        exists|i: int| 0 <= i < self.mems().len() && self.mems()[i].id == id
    }

    /// Whether some template carries this id.
    pub open spec fn has_template(self, id: Seq<char>) -> bool {
        exists|i: int| 0 <= i < self.tpls().len() && self.tpls()[i].id == id
    }

    /// An empty mirror, as a freshly created database has.
    pub fn new() -> (s: ScopeState)
        ensures
            s.mems() =~= Seq::<MemoryRecordView>::empty(),
            s.tpls() =~= Seq::<TemplateRecordView>::empty(),
            s.wf(),
    {
        ScopeState { memories: Vec::new(), templates: Vec::new() }
    }

    /// The position of the memory row with this id, if any.
    pub fn find_memory(&self, id: &String) -> (r: Option<usize>)
        ensures
            (match r {
                Some(i) => i < self.mems().len() && self.mems()[i as int].id == id@,
                None => !self.has_memory(id@),
            }),
    {
        let n = self.memories.len();
        let mut i: usize = 0;
        while i < n
            invariant
                i <= n,
                n == self.memories@.len(),
                forall|k: int| 0 <= k < i ==> #[trigger] mem_views(self.memories@)[k].id != id@,
            decreases n - i,
        {
            if self.memories[i].id == *id {
                return Some(i);
            }
            i = i + 1;
        }
        None
    }

    /// The position of the template with this id, if any.
    pub fn find_template(&self, id: &String) -> (r: Option<usize>)
        ensures
            (match r {
                Some(i) => i < self.tpls().len() && self.tpls()[i as int].id == id@,
                None => !self.has_template(id@),
            }),
    {
        let n = self.templates.len();
        let mut i: usize = 0;
        while i < n
            invariant
                i <= n,
                n == self.templates@.len(),
                forall|k: int| 0 <= k < i ==> #[trigger] tpl_views(self.templates@)[k].id != id@,
            decreases n - i,
        {
            if self.templates[i].id == *id {
                return Some(i);
            }
            i = i + 1;
        }
        None
    }

    /// Appends a memory row whose id is not yet taken.
    pub fn add_memory(&mut self, rec: MemoryRecord)
        requires
            old(self).wf(),
            !old(self).has_memory(rec@.id),
        ensures
            final(self).wf(),
            final(self).mems() =~= old(self).mems().push(rec@),
            final(self).tpls() == old(self).tpls(),
    {
        self.memories.push(rec);
        proof {
            assert(final(self).mems() =~= old(self).mems().push(rec@));
        }
    }

    /// Removes the memory row at a position.
    pub fn remove_memory(&mut self, i: usize)
        requires
            old(self).wf(),
            i < old(self).mems().len(),
        ensures
            final(self).wf(),
            final(self).mems() =~= old(self).mems().remove(i as int),
            final(self).tpls() == old(self).tpls(),
    {
        self.memories.remove(i);
        proof {
            assert(final(self).mems() =~= old(self).mems().remove(i as int));
        }
    }

    /// Replaces the memory row at a position with one carrying the same id.
    pub fn set_memory(&mut self, i: usize, rec: MemoryRecord)
        requires
            old(self).wf(),
            i < old(self).mems().len(),
            rec@.id == old(self).mems()[i as int].id,
        ensures
            final(self).wf(),
            final(self).mems() =~= old(self).mems().update(i as int, rec@),
            final(self).tpls() == old(self).tpls(),
    {
        self.memories.set(i, rec);
        proof {
            assert(final(self).mems() =~= old(self).mems().update(i as int, rec@));
        }
    }

    /// Appends a template whose id is not yet taken.
    pub fn add_template(&mut self, t: TemplateRecord)
        requires
            old(self).wf(),
            !old(self).has_template(t@.id),
        ensures
            final(self).wf(),
            final(self).tpls() =~= old(self).tpls().push(t@),
            final(self).mems() == old(self).mems(),
    {
        self.templates.push(t);
        proof {
            assert(final(self).tpls() =~= old(self).tpls().push(t@));
        }
    }

    /// Removes the template at a position.
    pub fn remove_template(&mut self, i: usize)
        requires
            old(self).wf(),
            i < old(self).tpls().len(),
        ensures
            final(self).wf(),
            final(self).tpls() =~= old(self).tpls().remove(i as int),
            final(self).mems() == old(self).mems(),
    {
        self.templates.remove(i);
        proof {
            assert(final(self).tpls() =~= old(self).tpls().remove(i as int));
        }
    }

    /// Replaces the template at a position with one carrying the same id.
    pub fn set_template(&mut self, i: usize, t: TemplateRecord)
        requires
            old(self).wf(),
            i < old(self).tpls().len(),
            t@.id == old(self).tpls()[i as int].id,
        ensures
            final(self).wf(),
            final(self).tpls() =~= old(self).tpls().update(i as int, t@),
            final(self).mems() == old(self).mems(),
    {
        self.templates.set(i, t);
        proof {
            assert(final(self).tpls() =~= old(self).tpls().update(i as int, t@));
        }
    }
}

/// The query order for memory rows holds between every earlier and later
/// element: pinned first, then descending priority, then most recently
/// updated first.
pub open spec fn spec_memories_ordered(s: Seq<MemoryRecordView>) -> bool {
    forall|i: int, j: int| 0 <= i < j < s.len() ==> spec_memory_leq(s[i], s[j])
}

/// The query order for templates: most recently updated first.
pub open spec fn spec_templates_ordered(s: Seq<TemplateRecordView>) -> bool {
    forall|i: int, j: int| 0 <= i < j < s.len() ==> spec_template_leq(s[i], s[j])
}

/// Keeps exactly the rows matching the query, in storage order.
fn filter_memories(rows: &Vec<MemoryRecord>, q: &MemoryQuery, mode: ScopeMode) -> (out: Vec<
    MemoryRecord,
>)
    requires
        mode == spec_scope_mode_of(q.scope),
    ensures
        out@ == rows@.filter(|r: MemoryRecord| spec_memory_matches(r@, *q)),
        mem_views(out@) == mem_views(rows@).filter(
            |m: MemoryRecordView| spec_memory_matches(m, *q),
        ),
{
    let ghost pred = |r: MemoryRecord| spec_memory_matches(r@, *q);
    let n = rows.len();
    let mut out: Vec<MemoryRecord> = Vec::new();
    proof {
        assert(rows@.take(0).filter(pred) =~= Seq::<MemoryRecord>::empty());
    }
    let mut i: usize = 0;
    while i < n
        invariant
            i <= n,
            n == rows@.len(),
            mode == spec_scope_mode_of(q.scope),
            out@ == rows@.take(i as int).filter(pred),
            pred == (|r: MemoryRecord| spec_memory_matches(r@, *q)),
        decreases n - i,
    {
        proof {
            broadcast use Seq::lemma_filter_push;

            assert(rows@.take(i + 1) =~= rows@.take(i as int).push(rows@[i as int]));
        }
        if memory_matches(&rows[i], q, mode) {
            out.push(rows[i].duplicate());
        }
        i = i + 1;
    }
    proof {
        assert(rows@.take(n as int) =~= rows@);
        vstd::seq_lib::lemma_filter_view_commute(
            rows@,
            pred,
            |m: MemoryRecordView| spec_memory_matches(m, *q),
        );
    }
    out
}

/// Keeps exactly the templates matching the query, in storage order.
fn filter_templates(rows: &Vec<TemplateRecord>, q: &TemplateQuery) -> (out: Vec<TemplateRecord>)
    ensures
        out@ == rows@.filter(|t: TemplateRecord| spec_template_matches(t@, *q)),
        tpl_views(out@) == tpl_views(rows@).filter(
            |t: TemplateRecordView| spec_template_matches(t, *q),
        ),
{
    let ghost pred = |t: TemplateRecord| spec_template_matches(t@, *q);
    let n = rows.len();
    let mut out: Vec<TemplateRecord> = Vec::new();
    proof {
        assert(rows@.take(0).filter(pred) =~= Seq::<TemplateRecord>::empty());
    }
    let mut i: usize = 0;
    while i < n
        invariant
            i <= n,
            n == rows@.len(),
            out@ == rows@.take(i as int).filter(pred),
            pred == (|t: TemplateRecord| spec_template_matches(t@, *q)),
        decreases n - i,
    {
        proof {
            broadcast use Seq::lemma_filter_push;

            assert(rows@.take(i + 1) =~= rows@.take(i as int).push(rows@[i as int]));
        }
        if template_matches(&rows[i], q) {
            out.push(rows[i].duplicate());
        }
        i = i + 1;
    }
    proof {
        assert(rows@.take(n as int) =~= rows@);
        vstd::seq_lib::lemma_filter_view_commute(
            rows@,
            pred,
            |t: TemplateRecordView| spec_template_matches(t, *q),
        );
    }
    out
}

/// Sorts memory rows into query order by repeatedly extracting a row that
/// precedes every remaining one.
fn sort_memories(v: &mut Vec<MemoryRecord>)
    ensures
        mem_views(final(v)@).to_multiset() == mem_views(old(v)@).to_multiset(),
        spec_memories_ordered(mem_views(final(v)@)),
{
    broadcast use vstd::seq_lib::group_to_multiset_ensures;

    let ghost orig = mem_views(old(v)@).to_multiset();
    let mut out: Vec<MemoryRecord> = Vec::new();
    proof {
        assert_multisets_equal!(
            mem_views(out@).to_multiset().add(mem_views(v@).to_multiset()),
            orig
        );
    }
    while v.len() > 0
        invariant
            spec_memories_ordered(mem_views(out@)),
            forall|a: int, b: int|
                0 <= a < mem_views(out@).len() && 0 <= b < mem_views(v@).len()
                    ==> spec_memory_leq(#[trigger] mem_views(out@)[a], #[trigger] mem_views(v@)[b]),
            mem_views(out@).to_multiset().add(mem_views(v@).to_multiset()) == orig,
        decreases v@.len(),
    {
        let n = v.len();
        let mut m: usize = 0;
        let mut k: usize = 1;
        while k < n
            invariant
                m < k <= n || (k <= n && m == 0),
                m < n,
                n == v@.len(),
                forall|t: int|
                    0 <= t < k ==> spec_memory_leq(
                        mem_views(v@)[m as int],
                        #[trigger] mem_views(v@)[t],
                    ),
            decreases n - k,
        {
            if !memory_leq(&v[m], &v[k]) {
                m = k;
            }
            k = k + 1;
        }
        let ghost prev = v@;
        let ghost preo = out@;
        let rec = v.remove(m);
        out.push(rec);
        proof {
            broadcast use vstd::seq_lib::group_to_multiset_ensures;

            assert(mem_views(v@) =~= mem_views(prev).remove(m as int));
            assert(mem_views(out@) =~= mem_views(preo).push(rec@));
            assert(mem_views(prev)[m as int] == rec@);
            assert(mem_views(prev).contains(rec@));
            assert forall|i: int, j: int|
                0 <= i < j < mem_views(out@).len() implies spec_memory_leq(
                mem_views(out@)[i],
                mem_views(out@)[j],
            ) by {
                if j < mem_views(preo).len() {
                    assert(spec_memory_leq(mem_views(preo)[i], mem_views(preo)[j]));
                } else {
                    assert(spec_memory_leq(mem_views(preo)[i], mem_views(prev)[m as int]));
                }
            }
            assert forall|a: int, b: int|
                0 <= a < mem_views(out@).len() && 0 <= b < mem_views(v@).len()
                implies spec_memory_leq(mem_views(out@)[a], mem_views(v@)[b]) by {
                let vb = if b < m {
                    mem_views(prev)[b]
                } else {
                    mem_views(prev)[b + 1]
                };
                assert(mem_views(v@)[b] == vb);
                if a < mem_views(preo).len() {
                    assert(spec_memory_leq(mem_views(preo)[a], vb));
                } else {
                    assert(spec_memory_leq(mem_views(prev)[m as int], vb));
                }
            }
            assert_multisets_equal!(
                mem_views(out@).to_multiset().add(mem_views(v@).to_multiset()),
                orig
            );
        }
    }
    proof {
        assert_multisets_equal!(
            mem_views(out@).to_multiset(),
            orig
        );
    }
    *v = out;
}

/// Sorts templates into query order by repeatedly extracting one that
/// precedes every remaining one.
fn sort_templates(v: &mut Vec<TemplateRecord>)
    ensures
        tpl_views(final(v)@).to_multiset() == tpl_views(old(v)@).to_multiset(),
        spec_templates_ordered(tpl_views(final(v)@)),
{
    broadcast use vstd::seq_lib::group_to_multiset_ensures;

    let ghost orig = tpl_views(old(v)@).to_multiset();
    let mut out: Vec<TemplateRecord> = Vec::new();
    proof {
        assert_multisets_equal!(
            tpl_views(out@).to_multiset().add(tpl_views(v@).to_multiset()),
            orig
        );
    }
    while v.len() > 0
        invariant
            spec_templates_ordered(tpl_views(out@)),
            forall|a: int, b: int|
                0 <= a < tpl_views(out@).len() && 0 <= b < tpl_views(v@).len()
                    ==> spec_template_leq(
                    #[trigger] tpl_views(out@)[a],
                    #[trigger] tpl_views(v@)[b],
                ),
            tpl_views(out@).to_multiset().add(tpl_views(v@).to_multiset()) == orig,
        decreases v@.len(),
    {
        let n = v.len();
        let mut m: usize = 0;
        let mut k: usize = 1;
        while k < n
            invariant
                m < k <= n || (k <= n && m == 0),
                m < n,
                n == v@.len(),
                forall|t: int|
                    0 <= t < k ==> spec_template_leq(
                        tpl_views(v@)[m as int],
                        #[trigger] tpl_views(v@)[t],
                    ),
            decreases n - k,
        {
            if !template_leq(&v[m], &v[k]) {
                m = k;
            }
            k = k + 1;
        }
        let ghost prev = v@;
        let ghost preo = out@;
        let rec = v.remove(m);
        out.push(rec);
        proof {
            broadcast use vstd::seq_lib::group_to_multiset_ensures;

            assert(tpl_views(v@) =~= tpl_views(prev).remove(m as int));
            assert(tpl_views(out@) =~= tpl_views(preo).push(rec@));
            assert(tpl_views(prev)[m as int] == rec@);
            assert(tpl_views(prev).contains(rec@));
            assert forall|i: int, j: int|
                0 <= i < j < tpl_views(out@).len() implies spec_template_leq(
                tpl_views(out@)[i],
                tpl_views(out@)[j],
            ) by {
                if j < tpl_views(preo).len() {
                    assert(spec_template_leq(tpl_views(preo)[i], tpl_views(preo)[j]));
                } else {
                    assert(spec_template_leq(tpl_views(preo)[i], tpl_views(prev)[m as int]));
                }
            }
            assert forall|a: int, b: int|
                0 <= a < tpl_views(out@).len() && 0 <= b < tpl_views(v@).len()
                implies spec_template_leq(tpl_views(out@)[a], tpl_views(v@)[b]) by {
                let vb = if b < m {
                    tpl_views(prev)[b]
                } else {
                    tpl_views(prev)[b + 1]
                };
                assert(tpl_views(v@)[b] == vb);
                if a < tpl_views(preo).len() {
                    assert(spec_template_leq(tpl_views(preo)[a], vb));
                } else {
                    assert(spec_template_leq(tpl_views(prev)[m as int], vb));
                }
            }
            assert_multisets_equal!(
                tpl_views(out@).to_multiset().add(tpl_views(v@).to_multiset()),
                orig
            );
        }
    }
    proof {
        assert_multisets_equal!(
            tpl_views(out@).to_multiset(),
            orig
        );
    }
    *v = out;
}

impl ScopeState {
    /// The memory rows matching the query, most relevant first: pinned
    /// rows, then descending priority, then most recently updated.  The
    /// named modes `contact` and `group` are rejected with `InvalidInput`
    /// when their filter value is missing, never answered with a list.
    pub fn query_memories(&self, q: &MemoryQuery) -> (r: Result<Vec<MemoryRecord>, MemoryDbError>)
        ensures
            (match r {
                Ok(out) => {
                    &&& !spec_memory_query_invalid(*q)
                    &&& mem_views(out@).to_multiset() == self.mems().filter(
                        |m: MemoryRecordView| spec_memory_matches(m, *q),
                    ).to_multiset()
                    &&& spec_memories_ordered(mem_views(out@))
                },
                Err(e) => spec_memory_query_invalid(*q) && (e matches MemoryDbError::InvalidInput(
                    _,
                )),
            }),
    {
        let mode = scope_mode_of(&q.scope);
        match mode {
            ScopeMode::Contact => {
                if q.contact_id.is_none() {
                    return Err(
                        MemoryDbError::InvalidInput(
                            String::from_str("contact scope requires contact_id"),
                        ),
                    );
                }
            },
            ScopeMode::Group => {
                if q.group_id.is_none() {
                    return Err(
                        MemoryDbError::InvalidInput(
                            String::from_str("group scope requires group_id"),
                        ),
                    );
                }
            },
            _ => {},
        }
        let mut out = filter_memories(&self.memories, q, mode);
        sort_memories(&mut out);
        Ok(out)
    }

    /// The templates matching the query, most recently updated first.
    pub fn query_templates(&self, q: &TemplateQuery) -> (out: Vec<TemplateRecord>)
        ensures
            tpl_views(out@).to_multiset() == self.tpls().filter(
                |t: TemplateRecordView| spec_template_matches(t, *q),
            ).to_multiset(),
            spec_templates_ordered(tpl_views(out@)),
    {
        let mut out = filter_templates(&self.templates, q);
        sort_templates(&mut out);
        out
    }
}

} // verus!
