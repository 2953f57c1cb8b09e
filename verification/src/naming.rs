//! Names that are safe to use as DuckDB table and column identifiers.
use vstd::prelude::*;
use crate::chars::{is_alphanumeric_spec, is_numeric_spec};

verus! {

/// A character kept as it is when alphanumeric or `_`, and replaced by `_`
/// otherwise.
pub open spec fn safe_char(c: char) -> char {
    if is_alphanumeric_spec(c) || c == '_' {
        c
    } else {
        '_'
    }
}

/// Every character made safe.
pub open spec fn safe_chars(s: Seq<char>) -> Seq<char> {
    Seq::new(s.len(), |i: int| safe_char(s[i]))
}

/// The `col_` prefix.
pub open spec fn col_prefix() -> Seq<char> {
    seq!['c', 'o', 'l', '_']
}

/// The name given to an empty identifier.
pub open spec fn unnamed() -> Seq<char> {
    seq!['c', 'o', 'l', '_', 'u', 'n', 'n', 'a', 'm', 'e', 'd']
}

/// The safe identifier for `name`: its characters made safe, with `col_`
/// in front when that starts with a number, or `col_unnamed` when empty.
pub open spec fn sanitize_spec(name: Seq<char>) -> Seq<char> {
    let s = safe_chars(name);
    if s.len() > 0 && is_numeric_spec(s[0]) {
        col_prefix() + s
    } else if s.len() == 0 {
        unnamed()
    } else {
        s
    }
}

/// Whether an identifier has only alphanumeric characters and `_`, is not
/// empty, and does not start with a number.
pub open spec fn is_safe_identifier(s: Seq<char>) -> bool {
    &&& s.len() > 0
    &&& !is_numeric_spec(s[0])
    &&& forall|i: int| 0 <= i < s.len() ==> is_alphanumeric_spec(#[trigger] s[i]) || s[i] == '_'
}

/// A safe identifier is left as it is.
pub proof fn lemma_sanitize_fixes_safe(s: Seq<char>)
    requires
        is_safe_identifier(s),
    ensures
        sanitize_spec(s) == s,
{
    assert(safe_chars(s) =~= s);
}

/// Every result of sanitizing is a safe identifier.
pub proof fn law_sanitize_is_safe(name: Seq<char>)
    ensures
        is_safe_identifier(sanitize_spec(name)),
{
    let s = safe_chars(name);
    let r = sanitize_spec(name);
    if s.len() > 0 && is_numeric_spec(s[0]) {
        assert forall|i: int| 0 <= i < r.len() implies is_alphanumeric_spec(#[trigger] r[i]) || r[i] == '_' by {
            if i >= 4 {
                assert(r[i] == s[i - 4]);
            }
        }
    }
}

/// Sanitizing twice gives what sanitizing once gives.
pub proof fn law_sanitize_idempotent(name: Seq<char>)
    ensures
        sanitize_spec(sanitize_spec(name)) == sanitize_spec(name),
{
    law_sanitize_is_safe(name);
    lemma_sanitize_fixes_safe(sanitize_spec(name));
}

} // verus!
