//! Scope resolution: maps an optional caller-supplied scope identifier to a
//! sanitized key and a deterministic database file name.
//!
//! The normalized key contains only alphanumerics, `-`, `_` and `.`, is at
//! most 80 characters long, and carries no leading or trailing underscore.
//! Distinct normalized keys always map to distinct database files.

use vstd::prelude::*;
use vstd::string::*;
use crate::text::{is_space_char, strip_ends, lemma_drop_while_front_is_skip,
    lemma_drop_while_back_is_take, is_space, push_char};

verus! {

/// Characters that survive normalization unchanged.
pub open spec fn is_scope_char(c: char) -> bool {
    ('a' <= c && c <= 'z') || ('A' <= c && c <= 'Z') || ('0' <= c && c <= '9') || c == '-' || c
        == '_' || c == '.'
}

/// What normalization does to a single character of the trimmed identifier.
pub open spec fn scope_char_of(c: char) -> char {
    if is_scope_char(c) {
        c
    } else {
        '_'
    }
}

/// The raw identifier: an absent scope means the default (empty) scope.
pub open spec fn spec_scope_view(scope_id: Option<String>) -> Seq<char> {
    match scope_id {
        Some(s) => s@,
        None => Seq::empty(),
    }
}

/// The longest length a normalized scope key may have.
pub const MAX_SCOPE_KEY_LEN: usize = 80;

/// Normalization policy: trim whitespace; if nothing remains the key is the
/// default (empty) one; otherwise replace every character outside the allowed
/// set with `_`, truncate to `MAX_SCOPE_KEY_LEN` characters, and strip
/// leading and trailing underscores.
pub open spec fn spec_normalize_scope(s: Seq<char>) -> Seq<char> {
    let t = strip_ends(s, |c: char| is_space_char(c));
    if t.len() == 0 {
        Seq::empty()
    } else {
        let mapped = t.map_values(|c: char| scope_char_of(c));
        let cut = if mapped.len() > MAX_SCOPE_KEY_LEN {
            mapped.take(MAX_SCOPE_KEY_LEN as int)
        } else {
            mapped
        };
        strip_ends(cut, |c: char| c == '_')
    }
}

fn is_allowed(c: char) -> (r: bool)
    ensures
        r == is_scope_char(c),
{
    ('a' <= c && c <= 'z') || ('A' <= c && c <= 'Z') || ('0' <= c && c <= '9') || c == '-' || c
        == '_' || c == '.'
}

fn maps_to_underscore(c: char) -> (r: bool)
    ensures
        r == (scope_char_of(c) == '_'),
{
    !is_allowed(c) || c == '_'
}

/// Maps an optional raw scope identifier to its sanitized key.  The empty
/// result names the default scope.  Two raw identifiers that normalize
/// identically are, by policy, the same scope.
pub fn normalize_scope_id(scope_id: Option<String>) -> (r: String)
    ensures
        r@ == spec_normalize_scope(spec_scope_view(scope_id)),
{
    let raw: &str = match &scope_id {
        Some(s) => s.as_str(),
        None => "",
    };
    let ghost rv: Seq<char> = spec_scope_view(scope_id);
    proof {
        reveal_strlit("");
        assert(raw@ =~= rv);
    }
    let n = raw.unicode_len();
    let mut start: usize = 0;
    while start < n && is_space(raw.get_char(start))
        invariant
            start <= n,
            n == raw@.len(),
            forall|k: int| 0 <= k < start ==> is_space_char(#[trigger] raw@[k]),
        decreases n - start,
    {
        start = start + 1;
    }
    let mut end: usize = n;
    while end > start && is_space(raw.get_char(end - 1))
        invariant
            start <= end <= n,
            n == raw@.len(),
            forall|k: int| 0 <= k < start ==> is_space_char(#[trigger] raw@[k]),
            forall|k: int| end <= k < n ==> is_space_char(#[trigger] raw@[k]),
        decreases end,
    {
        end = end - 1;
    }
    let ghost trimmed: Seq<char> = strip_ends(rv, |c: char| is_space_char(c));
    proof {
        lemma_drop_while_front_is_skip(rv, |c: char| is_space_char(c), start as int);
        lemma_drop_while_back_is_take(
            rv.skip(start as int),
            |c: char| is_space_char(c),
            end - start,
        );
        assert(trimmed =~= rv.subrange(start as int, end as int));
    }
    if end == start {
        let r = String::new();
        return r;
    }
    // Map the trimmed characters, stopping at the length cap.
    let stop: usize = if end - start > MAX_SCOPE_KEY_LEN {
        start + MAX_SCOPE_KEY_LEN
    } else {
        end
    };
    let ghost mapped: Seq<char> = trimmed.map_values(|c: char| scope_char_of(c));
    let ghost cut: Seq<char> = if mapped.len() > MAX_SCOPE_KEY_LEN {
        mapped.take(MAX_SCOPE_KEY_LEN as int)
    } else {
        mapped
    };
    proof {
        assert(cut =~= rv.subrange(start as int, stop as int).map_values(
            |c: char| scope_char_of(c),
        ));
    }
    // Strip underscores from the ends of the capped mapped region.
    let mut lo: usize = start;
    while lo < stop && maps_to_underscore(raw.get_char(lo))
        invariant
            start <= lo <= stop <= n,
            n == raw@.len(),
            forall|k: int| start <= k < lo ==> scope_char_of(#[trigger] raw@[k]) == '_',
        decreases stop - lo,
    {
        lo = lo + 1;
    }
    let mut hi: usize = stop;
    while hi > lo && maps_to_underscore(raw.get_char(hi - 1))
        invariant
            lo <= hi <= stop <= n,
            n == raw@.len(),
            forall|k: int| hi <= k < stop ==> scope_char_of(#[trigger] raw@[k]) == '_',
        decreases hi,
    {
        hi = hi - 1;
    }
    proof {
        lemma_drop_while_front_is_skip(cut, |c: char| c == '_', lo - start);
        lemma_drop_while_back_is_take(
            cut.skip(lo - start),
            |c: char| c == '_',
            hi as int - lo as int,
        );
    }
    let mut out = String::new();
    let mut i: usize = lo;
    while i < hi
        invariant
            lo <= i <= hi <= stop <= n,
            n == raw@.len(),
            raw@ == rv,
            out@ == rv.subrange(lo as int, i as int).map_values(|c: char| scope_char_of(c)),
        decreases hi - i,
    {
        let c = raw.get_char(i);
        let m = if is_allowed(c) {
            c
        } else {
            '_'
        };
        push_char(&mut out, m);
        proof {
            assert(rv.subrange(lo as int, i + 1) =~= rv.subrange(lo as int, i as int).push(
                rv[i as int],
            ));
            assert(rv.subrange(lo as int, i + 1).map_values(|c: char| scope_char_of(c)) =~= rv
                .subrange(lo as int, i as int).map_values(|c: char| scope_char_of(c)).push(
                scope_char_of(rv[i as int]),
            ));
        }
        i = i + 1;
    }
    proof {
        assert(cut.skip(lo - start).take(hi as int - lo as int) =~= rv.subrange(
            lo as int,
            hi as int,
        ).map_values(|c: char| scope_char_of(c)));
        assert(out@ =~= spec_normalize_scope(rv));
    }
    out
}

/// The database file name for a normalized scope key: `memories.db` for the
/// default scope, `memories__<key>.db` otherwise.
pub open spec fn spec_db_file_name(key: Seq<char>) -> Seq<char> {
    if key.len() == 0 {
        "memories.db"@
    } else {
        "memories__"@ + key + ".db"@
    }
}

/// The full path of a scope's database file under a base directory.
pub open spec fn spec_db_path(base: Seq<char>, key: Seq<char>) -> Seq<char> {
    base + "/"@ + spec_db_file_name(key)
}

pub fn db_file_name(scope_key: &str) -> (r: String)
    ensures
        r@ == spec_db_file_name(scope_key@),
{
    if scope_key.unicode_len() == 0 {
        let r = String::from_str("memories.db");
        proof {
            assert(scope_key@ =~= Seq::<char>::empty());
        }
        r
    } else {
        let mut r = String::from_str("memories__");
        r.append(scope_key);
        r.append(".db");
        r
    }
}

pub fn db_path_for(base_dir: &str, scope_key: &str) -> (r: String)
    ensures
        r@ == spec_db_path(base_dir@, scope_key@),
{
    let mut r = String::from_str(base_dir);
    r.append("/");
    let name = db_file_name(scope_key);
    r.append(name.as_str());
    r
}

/// Distinct normalized scope keys never collide on the same database file:
/// the file name map is injective on keys.
pub proof fn lemma_db_file_names_injective(a: Seq<char>, b: Seq<char>)
    requires
        a != b,
    ensures
        spec_db_file_name(a) != spec_db_file_name(b),
{
    reveal_strlit("memories.db");
    reveal_strlit("memories__");
    reveal_strlit(".db");
    assert("memories__"@.len() == 10);
    assert(".db"@.len() == 3);
    assert("memories.db"@.len() == 11);
    if a.len() == 0 && b.len() == 0 {
        assert(a =~= b);
    } else if a.len() == 0 || b.len() == 0 {
        // one name is 11 characters long, the other at least 14
    } else {
        if spec_db_file_name(a) == spec_db_file_name(b) {
            assert(spec_db_file_name(a).len() == 13 + a.len());
            assert(spec_db_file_name(b).len() == 13 + b.len());
            assert(a.len() == b.len());
            assert forall|k: int| 0 <= k < a.len() implies a[k] == b[k] by {
                assert(spec_db_file_name(a)[10 + k] == a[k]);
                assert(spec_db_file_name(b)[10 + k] == b[k]);
            }
            assert(a =~= b);
        }
    }
}

} // verus!
