//! Character and string helpers shared across the crate: ASCII trimming
//! and lowercasing, end-stripping, and decimal rendering of counters and
//! timestamps.

use vstd::prelude::*;
use vstd::string::*;

verus! {

/// ASCII whitespace.
pub open spec fn is_space_char(c: char) -> bool {
    c == ' ' || c == '\t' || c == '\n' || c == '\r' || c == '\u{c}'
}

/// Drops the longest prefix whose characters all satisfy `p`.
pub open spec fn drop_while_front(s: Seq<char>, p: spec_fn(char) -> bool) -> Seq<char>
    decreases s.len(),
{
    if s.len() > 0 && p(s.first()) {
        drop_while_front(s.drop_first(), p)
    } else {
        s
    }
}

/// Drops the longest suffix whose characters all satisfy `p`.
pub open spec fn drop_while_back(s: Seq<char>, p: spec_fn(char) -> bool) -> Seq<char>
    decreases s.len(),
{
    if s.len() > 0 && p(s.last()) {
        drop_while_back(s.drop_last(), p)
    } else {
        s
    }
}

/// Both ends stripped of characters satisfying `p`.
pub open spec fn strip_ends(s: Seq<char>, p: spec_fn(char) -> bool) -> Seq<char> {
    drop_while_back(drop_while_front(s, p), p)
}

/// Whitespace trimmed from both ends.
pub open spec fn spec_trim(s: Seq<char>) -> Seq<char> {
    strip_ends(s, |c: char| is_space_char(c))
}

/// If everything before `i` satisfies `p` and position `i` (when it exists)
/// does not, then dropping the `p`-prefix is the same as skipping to `i`.
pub proof fn lemma_drop_while_front_is_skip(s: Seq<char>, p: spec_fn(char) -> bool, i: int)
    requires
        0 <= i <= s.len(),
        forall|k: int| 0 <= k < i ==> p(#[trigger] s[k]),
        i == s.len() || !p(s[i]),
    ensures
        drop_while_front(s, p) == s.skip(i),
    decreases i,
{
    if i == 0 {
        assert(s.skip(0) =~= s);
    } else {
        lemma_drop_while_front_is_skip(s.drop_first(), p, i - 1);
        assert(s.drop_first().skip(i - 1) =~= s.skip(i));
    }
}

/// If everything from `j` on satisfies `p` and position `j - 1` (when it
/// exists) does not, then dropping the `p`-suffix is the same as taking `j`.
pub proof fn lemma_drop_while_back_is_take(s: Seq<char>, p: spec_fn(char) -> bool, j: int)
    requires
        0 <= j <= s.len(),
        forall|k: int| j <= k < s.len() ==> p(#[trigger] s[k]),
        j == 0 || !p(s[j - 1]),
    ensures
        drop_while_back(s, p) == s.take(j),
    decreases s.len() - j,
{
    if j == s.len() {
        assert(s.take(j) =~= s);
    } else {
        lemma_drop_while_back_is_take(s.drop_last(), p, j);
        assert(s.drop_last().take(j) =~= s.take(j));
    }
}

pub fn is_space(c: char) -> (r: bool)
    ensures
        r == is_space_char(c),
{
    c == ' ' || c == '\t' || c == '\n' || c == '\r' || c == '\u{c}'
}

/// Relies on `String::push`: appends exactly one character.
#[verifier::external_body]
pub fn push_char(s: &mut String, c: char)
    ensures
        final(s)@ == old(s)@.push(c),
{
    s.push(c);
}

/// An upper-case ASCII letter mapped to lower case; anything else kept.
pub open spec fn spec_lower_char(c: char) -> char {
    if 'A' <= c && c <= 'Z' {
        ((c as u8) + 32) as char
    } else {
        c
    }
}

/// The whole sequence lowercased, ASCII-wise.
pub open spec fn spec_lower(s: Seq<char>) -> Seq<char> {
    s.map_values(|c: char| spec_lower_char(c))
}

pub fn lower_char(c: char) -> (r: char)
    ensures
        r == spec_lower_char(c),
{
    if 'A' <= c && c <= 'Z' {
        ((c as u8) + 32) as char
    } else {
        c
    }
}

/// Trims ASCII whitespace from both ends and lowercases the rest.
pub fn trim_lower(s: &str) -> (r: String)
    ensures
        r@ == spec_lower(spec_trim(s@)),
{
    let n = s.unicode_len();
    let mut start: usize = 0;
    while start < n && is_space(s.get_char(start))
        invariant
            start <= n,
            n == s@.len(),
            forall|k: int| 0 <= k < start ==> is_space_char(#[trigger] s@[k]),
        decreases n - start,
    {
        start = start + 1;
    }
    let mut end: usize = n;
    while end > start && is_space(s.get_char(end - 1))
        invariant
            start <= end <= n,
            n == s@.len(),
            forall|k: int| 0 <= k < start ==> is_space_char(#[trigger] s@[k]),
            forall|k: int| end <= k < n ==> is_space_char(#[trigger] s@[k]),
        decreases end,
    {
        end = end - 1;
    }
    proof {
        lemma_drop_while_front_is_skip(s@, |c: char| is_space_char(c), start as int);
        lemma_drop_while_back_is_take(
            s@.skip(start as int),
            |c: char| is_space_char(c),
            end - start,
        );
        assert(spec_trim(s@) =~= s@.subrange(start as int, end as int));
    }
    let mut out = String::new();
    let mut i: usize = start;
    while i < end
        invariant
            start <= i <= end <= n,
            n == s@.len(),
            out@ == s@.subrange(start as int, i as int).map_values(|c: char| spec_lower_char(c)),
        decreases end - i,
    {
        let c = lower_char(s.get_char(i));
        push_char(&mut out, c);
        proof {
            assert(s@.subrange(start as int, i + 1).map_values(|c: char| spec_lower_char(c)) =~= s@
                .subrange(start as int, i as int).map_values(|c: char| spec_lower_char(c)).push(
                spec_lower_char(s@[i as int]),
            ));
        }
        i = i + 1;
    }
    proof {
        assert(out@ =~= spec_lower(spec_trim(s@)));
    }
    out
}

/// Trims ASCII whitespace from both ends.
pub fn trim_str(s: &str) -> (r: String)
    ensures
        r@ == spec_trim(s@),
{
    let n = s.unicode_len();
    let mut start: usize = 0;
    while start < n && is_space(s.get_char(start))
        invariant
            start <= n,
            n == s@.len(),
            forall|k: int| 0 <= k < start ==> is_space_char(#[trigger] s@[k]),
        decreases n - start,
    {
        start = start + 1;
    }
    let mut end: usize = n;
    while end > start && is_space(s.get_char(end - 1))
        invariant
            start <= end <= n,
            n == s@.len(),
            forall|k: int| 0 <= k < start ==> is_space_char(#[trigger] s@[k]),
            forall|k: int| end <= k < n ==> is_space_char(#[trigger] s@[k]),
        decreases end,
    {
        end = end - 1;
    }
    proof {
        lemma_drop_while_front_is_skip(s@, |c: char| is_space_char(c), start as int);
        lemma_drop_while_back_is_take(
            s@.skip(start as int),
            |c: char| is_space_char(c),
            end - start,
        );
        assert(spec_trim(s@) =~= s@.subrange(start as int, end as int));
    }
    let mut out = String::new();
    let mut i: usize = start;
    while i < end
        invariant
            start <= i <= end <= n,
            n == s@.len(),
            out@ == s@.subrange(start as int, i as int),
        decreases end - i,
    {
        push_char(&mut out, s.get_char(i));
        proof {
            assert(s@.subrange(start as int, i + 1) =~= s@.subrange(start as int, i as int).push(
                s@[i as int],
            ));
        }
        i = i + 1;
    }
    proof {
        assert(out@ =~= spec_trim(s@));
    }
    out
}

/// The decimal digits of a nonnegative number, most significant first.
pub open spec fn spec_dec_digits(n: int) -> Seq<char>
    decreases n,
{
    if n < 10 {
        seq![spec_digit_char(if n < 0 { 0 } else { n % 10 })]
    } else {
        spec_dec_digits(n / 10).push(spec_digit_char(n % 10))
    }
}

pub open spec fn spec_digit_char(d: int) -> char {
    if d == 0 {
        '0'
    } else if d == 1 {
        '1'
    } else if d == 2 {
        '2'
    } else if d == 3 {
        '3'
    } else if d == 4 {
        '4'
    } else if d == 5 {
        '5'
    } else if d == 6 {
        '6'
    } else if d == 7 {
        '7'
    } else if d == 8 {
        '8'
    } else {
        '9'
    }
}

fn digit_char(d: u64) -> (r: char)
    requires
        d < 10,
    ensures
        r == spec_digit_char(d as int),
{
    if d == 0 {
        '0'
    } else if d == 1 {
        '1'
    } else if d == 2 {
        '2'
    } else if d == 3 {
        '3'
    } else if d == 4 {
        '4'
    } else if d == 5 {
        '5'
    } else if d == 6 {
        '6'
    } else if d == 7 {
        '7'
    } else if d == 8 {
        '8'
    } else {
        '9'
    }
}

/// Appends the decimal rendering of `n`.
pub fn push_decimal(s: &mut String, n: u64)
    ensures
        final(s)@ == old(s)@ + spec_dec_digits(n as int),
    decreases n,
{
    if n >= 10 {
        push_decimal(s, n / 10);
    }
    push_char(s, digit_char(n % 10));
    proof {
        if n < 10 {
            assert(old(s)@ + spec_dec_digits(n as int) =~= old(s)@.push(
                spec_digit_char(n as int % 10),
            ));
        } else {
            assert(old(s)@ + spec_dec_digits(n as int) =~= (old(s)@ + spec_dec_digits(
                n as int / 10,
            )).push(spec_digit_char(n as int % 10)));
        }
    }
}

/// Lowercases the whole string, ASCII-wise.
pub fn lower_str(s: &str) -> (r: String)
    ensures
        r@ == spec_lower(s@),
{
    let n = s.unicode_len();
    let mut out = String::new();
    let mut i: usize = 0;
    while i < n
        invariant
            i <= n,
            n == s@.len(),
            out@ == s@.take(i as int).map_values(|c: char| spec_lower_char(c)),
        decreases n - i,
    {
        let c = lower_char(s.get_char(i));
        push_char(&mut out, c);
        proof {
            assert(s@.take(i + 1).map_values(|c: char| spec_lower_char(c)) =~= s@.take(
                i as int,
            ).map_values(|c: char| spec_lower_char(c)).push(spec_lower_char(s@[i as int])));
        }
        i = i + 1;
    }
    proof {
        assert(s@.take(n as int) =~= s@);
    }
    out
}

/// The decimal rendering of a signed number: a minus sign for negatives,
/// then the digits of its magnitude.
pub open spec fn spec_signed_dec(n: int) -> Seq<char> {
    if n < 0 {
        seq!['-'] + spec_dec_digits(-n)
    } else {
        spec_dec_digits(n)
    }
}

/// Appends the decimal rendering of a signed number.
pub fn push_signed_decimal(s: &mut String, n: i64)
    ensures
        final(s)@ == old(s)@ + spec_signed_dec(n as int),
{
    if n < 0 {
        push_char(s, '-');
        if n == i64::MIN {
            push_decimal(s, 9223372036854775808u64);
        } else {
            push_decimal(s, (-n) as u64);
        }
        proof {
            assert(old(s)@ + spec_signed_dec(n as int) =~= old(s)@.push('-') + spec_dec_digits(
                -(n as int),
            ));
        }
    } else {
        push_decimal(s, n as u64);
    }
}

pub open spec fn spec_is_digit(c: char) -> bool {
    '0' <= c && c <= '9'
}

pub open spec fn spec_digit_val(c: char) -> int {
    c as int - 48
}

/// The value of a digit string, most significant digit first.
pub open spec fn spec_digits_value(s: Seq<char>) -> int
    decreases s.len(),
{
    if s.len() == 0 {
        0
    } else {
        spec_digits_value(s.drop_last()) * 10 + spec_digit_val(s.last())
    }
}

pub open spec fn spec_all_digits(s: Seq<char>) -> bool {
    forall|i: int| 0 <= i < s.len() ==> spec_is_digit(#[trigger] s[i])
}

/// What `str::parse::<i64>` accepts: an optional sign, then one or more
/// digits, valuing inside the signed 64-bit range.
pub open spec fn spec_parse_i64(s: Seq<char>) -> Option<i64> {
    let neg = s.len() > 0 && s[0] == '-';
    let ds = if s.len() > 0 && (s[0] == '-' || s[0] == '+') {
        s.drop_first()
    } else {
        s
    };
    if ds.len() == 0 || !spec_all_digits(ds) {
        None
    } else {
        let v = if neg {
            -spec_digits_value(ds)
        } else {
            spec_digits_value(ds)
        };
        if i64::MIN <= v <= i64::MAX {
            Some(v as i64)
        } else {
            None
        }
    }
}

proof fn lemma_digits_value_nonneg(s: Seq<char>)
    requires
        spec_all_digits(s),
    ensures
        spec_digits_value(s) >= 0,
    decreases s.len(),
{
    if s.len() > 0 {
        assert(spec_all_digits(s.drop_last()));
        lemma_digits_value_nonneg(s.drop_last());
    }
}

/// A digit string values at least as much as any of its prefixes.
proof fn lemma_digits_prefix_le(s: Seq<char>, i: int)
    requires
        spec_all_digits(s),
        0 <= i <= s.len(),
    ensures
        spec_digits_value(s.take(i)) <= spec_digits_value(s),
    decreases s.len() - i,
{
    if i == s.len() {
        assert(s.take(i) =~= s);
    } else {
        lemma_digits_prefix_le(s, i + 1);
        assert(s.take(i + 1).drop_last() =~= s.take(i));
        assert(spec_all_digits(s.take(i)));
        lemma_digits_value_nonneg(s.take(i));
        assert(spec_digits_value(s.take(i + 1)) == spec_digits_value(s.take(i)) * 10
            + spec_digit_val(s[i]));
        assert(spec_digit_val(s[i]) >= 0);
        assert(spec_digits_value(s.take(i)) * 10 >= spec_digits_value(s.take(i))) by (
        nonlinear_arith)
            requires
                spec_digits_value(s.take(i)) >= 0,
        ;
    }
}

fn digit_of(c: char) -> (r: Option<u64>)
    ensures
        (match r {
            Some(d) => spec_is_digit(c) && d == spec_digit_val(c) && d < 10,
            None => !spec_is_digit(c),
        }),
{
    if '0' <= c && c <= '9' {
        Some((c as u32 as u64) - 48)
    } else {
        None
    }
}

/// Parses a signed 64-bit integer exactly as the standard library does:
/// an optional sign, then one or more digits; anything else, or a value
/// outside the representable range, is rejected.
pub fn parse_i64(s: &str) -> (r: Option<i64>)
    ensures
        r == spec_parse_i64(s@),
{
    let n = s.unicode_len();
    if n == 0 {
        return None;
    }
    let first = s.get_char(0);
    let neg = first == '-';
    let signed = first == '-' || first == '+';
    let start: usize = if signed {
        1
    } else {
        0
    };
    let ghost ds: Seq<char> = if signed {
        s@.drop_first()
    } else {
        s@
    };
    proof {
        assert(ds =~= s@.subrange(start as int, n as int));
    }
    if n == start {
        return None;
    }
    // The largest magnitude the result may have.
    let limit: u64 = if neg {
        9223372036854775808
    } else {
        9223372036854775807
    };
    let mut mag: u64 = 0;
    let mut i: usize = start;
    while i < n
        invariant
            start <= i <= n,
            n == s@.len(),
            start < n,
            s@.len() > 0,
            neg == (s@[0] == '-'),
            ds == (if s@[0] == '-' || s@[0] == '+' {
                s@.drop_first()
            } else {
                s@
            }),
            ds == s@.subrange(start as int, n as int),
            spec_all_digits(ds.take(i - start)),
            mag == spec_digits_value(ds.take(i - start)),
            mag <= limit,
            limit == (if neg {
                9223372036854775808u64
            } else {
                9223372036854775807u64
            }),
        decreases n - i,
    {
        let c = s.get_char(i);
        let d = match digit_of(c) {
            Some(d) => d,
            None => {
                proof {
                    assert(ds[i - start] == s@[i as int]);
                    assert(!spec_all_digits(ds));
                }
                return None;
            },
        };
        proof {
            assert(ds.take(i + 1 - start).drop_last() =~= ds.take(i - start));
            assert(ds.take(i + 1 - start).last() == ds[i - start]);
            assert(ds[i - start] == s@[i as int]);
            assert(spec_all_digits(ds.take(i + 1 - start)));
        }
        if mag > (limit - d) / 10 {
            // The digits read so far already value past the limit, and
            // further digits only grow the value.
            proof {
                assert(mag * 10 + d > limit) by (nonlinear_arith)
                    requires
                        mag > (limit - d) / 10,
                        d < 10,
                        limit >= d,
                ;
                if spec_all_digits(ds) {
                    lemma_digits_prefix_le(ds, i + 1 - start);
                    assert(spec_digits_value(ds) > limit);
                }
            }
            return None;
        }
        proof {
            assert(mag * 10 + d <= limit) by (nonlinear_arith)
                requires
                    mag <= (limit - d) / 10,
                    d < 10,
                    limit >= d,
            ;
        }
        mag = mag * 10 + d;
        i = i + 1;
    }
    proof {
        assert(ds.take(n - start) =~= ds);
    }
    if neg {
        if mag == 9223372036854775808 {
            Some(i64::MIN)
        } else {
            Some(-(mag as i64))
        }
    } else {
        Some(mag as i64)
    }
}

} // verus!
