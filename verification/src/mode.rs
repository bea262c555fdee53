//! Structured-output mode selection.
//!
//! A caller that requests a JSON output shape gets one of two modes: the
//! strict schema-constrained mode, or a looser "any JSON object" mode. The
//! capability predicate is an extension point: today it answers true for
//! every model, so the strict mode is always chosen. The date comparison
//! below exists to support a future cutoff-date-based capability check; it
//! is not wired into the decision yet.

use vstd::prelude::*;

use vstd::string::StrSliceExecFns;

verus! {

/// The two structured-output modes: `json_schema` (strict, with a schema)
/// and `json_object` (free-form JSON).
#[derive(Debug, Clone, Copy, PartialEq, Eq, Structural)]
pub enum OpenAIStructuredOutputMode {
    JsonSchema,
    JsonObject,
}

/// Capability policy: does the model support the strict `json_schema` mode?
/// Current policy: every model does.
pub open spec fn json_schema_supported(model: Seq<char>) -> bool {
    true
}

/// Executable capability predicate; the extension point a per-model
/// capability table would replace.
pub fn is_openai_json_schema_supported(model: &str) -> (r: bool)
    ensures
        r == json_schema_supported(model@),
{
    let _ = model;
    true
}

/// Pick the structured-output mode for a model: strict when the model
/// supports it, free-form otherwise.
pub fn select_openai_structured_output_mode(model: &str) -> (r: OpenAIStructuredOutputMode)
    ensures
        r == (if json_schema_supported(model@) {
            OpenAIStructuredOutputMode::JsonSchema
        } else {
            OpenAIStructuredOutputMode::JsonObject
        }),
{
    if is_openai_json_schema_supported(model) {
        OpenAIStructuredOutputMode::JsonSchema
    } else {
        OpenAIStructuredOutputMode::JsonObject
    }
}

// ---------------------------------------------------------------------------
// Date comparison (`YYYY-MM-DD`-style triples)
// ---------------------------------------------------------------------------
/// A decimal digit.
pub open spec fn is_digit(c: char) -> bool {
    48 <= c as u32 <= 57
}

/// The numeric value of a decimal digit.
pub open spec fn digit_val(c: char) -> int {
    c as u32 - 48
}

pub open spec fn all_digits(s: Seq<char>) -> bool {
    forall|i: int| 0 <= i < s.len() ==> is_digit(#[trigger] s[i])
}

/// The value of a string of decimal digits.
pub open spec fn dec_val(s: Seq<char>) -> int
    decreases s.len(),
{
    if s.len() == 0 {
        0
    } else {
        dec_val(s.drop_last()) * 10 + digit_val(s.last())
    }
}

/// A date field parses when it is a nonempty run of digits whose value fits
/// the machine integer the comparison uses.
pub open spec fn field_parses(s: Seq<char>) -> bool {
    s.len() > 0 && all_digits(s) && dec_val(s) <= i32::MAX
}

/// The first `'-'` at or after `from`; the length when there is none.
pub open spec fn dash_from(s: Seq<char>, from: int) -> int
    decreases s.len() - from,
{
    if from < 0 || from >= s.len() {
        s.len() as int
    } else if s[from] == '-' {
        from
    } else {
        dash_from(s, from + 1)
    }
}

/// The year/month/day values of a date string: defined when the string has
/// exactly two dashes and all three fields parse.
pub open spec fn date_triple(s: Seq<char>) -> Option<(int, int, int)> {
    let i = dash_from(s, 0);
    let j = dash_from(s, i + 1);
    let k = dash_from(s, j + 1);
    if i < s.len() && j < s.len() && k == s.len() {
        let f1 = s.take(i);
        let f2 = s.subrange(i + 1, j);
        let f3 = s.subrange(j + 1, s.len() as int);
        if field_parses(f1) && field_parses(f2) && field_parses(f3) {
            Some((dec_val(f1), dec_val(f2), dec_val(f3)))
        } else {
            None
        }
    } else {
        None
    }
}

/// Is the first date at or after the second, as year/month/day triples?
/// Malformed input on either side gives `false`.
pub open spec fn date_gte(d: Seq<char>, m: Seq<char>) -> bool {
    match (date_triple(d), date_triple(m)) {
        (Some(a), Some(b)) => a.0 > b.0 || (a.0 == b.0 && (a.1 > b.1 || (a.1 == b.1 && a.2
            >= b.2))),
        _ => false,
    }
}

proof fn lemma_dec_val_nonneg(s: Seq<char>)
    requires
        all_digits(s),
    ensures
        dec_val(s) >= 0,
    decreases s.len(),
{
    if s.len() > 0 {
        lemma_dec_val_nonneg(s.drop_last());
    }
}

/// The value of a digit string dominates the value of any of its prefixes.
proof fn lemma_dec_val_prefix(s: Seq<char>, k: int)
    requires
        all_digits(s),
        0 <= k <= s.len(),
    ensures
        dec_val(s.take(k)) <= dec_val(s),
    decreases s.len() - k,
{
    if k < s.len() {
        lemma_dec_val_prefix(s, k + 1);
        let t = s.take(k + 1);
        assert(t.drop_last() =~= s.take(k));
        assert(t.last() == s[k]);
        lemma_dec_val_nonneg(s.take(k));
    } else {
        assert(s.take(k) =~= s);
    }
}

/// The first dash at or after `from`, scanning executably.
fn find_dash(s: &str, from: usize, n: usize) -> (r: usize)
    requires
        from <= s@.len(),
        n == s@.len(),
    ensures
        r as int == dash_from(s@, from as int),
        from <= r <= n,
{
    let mut k: usize = from;
    while k < n
        invariant
            from <= k <= n,
            n == s@.len(),
            dash_from(s@, from as int) == dash_from(s@, k as int),
        decreases n - k,
    {
        let c = s.get_char(k);
        if c == '-' {
            return k;
        }
        k = k + 1;
    }
    n
}

/// Parse a nonempty all-digit field, rejecting values over `i32::MAX`.
fn parse_dec_field(s: &str) -> (r: Option<i32>)
    ensures
        match r {
            Some(v) => field_parses(s@) && v as int == dec_val(s@),
            None => !field_parses(s@),
        },
{
    let n = s.unicode_len();
    if n == 0 {
        return None;
    }
    let mut acc: i64 = 0;
    let mut k: usize = 0;
    while k < n
        invariant
            k <= n,
            n == s@.len(),
            all_digits(s@.take(k as int)),
            0 <= acc <= i32::MAX,
            acc as int == dec_val(s@.take(k as int)),
        decreases n - k,
    {
        let c = s.get_char(k);
        let cu = c as u32;
        if cu < 48 || cu > 57 {
            // A non-digit: the field does not parse.
            proof {
                assert(!is_digit(s@[k as int]));
            }
            return None;
        }
        let d: i64 = (cu - 48) as i64;
        let acc2: i64 = acc * 10 + d;
        proof {
            let t = s@.take(k as int + 1);
            assert(t.drop_last() =~= s@.take(k as int));
            assert(t.last() == s@[k as int]);
        }
        if acc2 > 2147483647i64 {
            // The digits so far already exceed the bound, and more digits
            // can only increase the value.
            proof {
                if all_digits(s@) {
                    lemma_dec_val_prefix(s@, k as int + 1);
                }
            }
            return None;
        }
        acc = acc2;
        k = k + 1;
    }
    proof {
        assert(s@.take(n as int) =~= s@);
    }
    Some(acc as i32)
}

/// Parse a `YYYY-MM-DD`-style date into its three numeric fields.
fn parse_date(s: &str) -> (r: Option<(i32, i32, i32)>)
    ensures
        match r {
            Some(t) => date_triple(s@) == Some((t.0 as int, t.1 as int, t.2 as int)),
            None => date_triple(s@) is None,
        },
{
    let n = s.unicode_len();
    let i = find_dash(s, 0, n);
    if i == n {
        return None;
    }
    let j = find_dash(s, i + 1, n);
    if j == n {
        return None;
    }
    let k = find_dash(s, j + 1, n);
    if k < n {
        return None;
    }
    let f1 = s.substring_char(0, i);
    let f2 = s.substring_char(i + 1, j);
    let f3 = s.substring_char(j + 1, n);
    let v1 = parse_dec_field(f1);
    let v2 = parse_dec_field(f2);
    let v3 = parse_dec_field(f3);
    match (v1, v2, v3) {
        (Some(a), Some(b), Some(c)) => Some((a, b, c)),
        _ => None,
    }
}

/// Is `date` at or after `min`, comparing `YYYY-MM-DD` tuples? Malformed
/// input on either side answers `false`.
pub fn is_date_gte(date: &str, min: &str) -> (r: bool)
    ensures
        r == date_gte(date@, min@),
{
    let a = parse_date(date);
    let b = parse_date(min);
    match (a, b) {
        (Some(x), Some(y)) => x.0 > y.0 || (x.0 == y.0 && (x.1 > y.1 || (x.1 == y.1 && x.2
            >= y.2))),
        _ => false,
    }
}

} // verus!
