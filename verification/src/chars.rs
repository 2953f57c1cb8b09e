//! Character classes of `char`, as the standard library decides them.
use vstd::prelude::*;

verus! {

/// Whether a non-ASCII character is alphabetic or numeric in Unicode.
pub uninterp spec fn unicode_alphanumeric(c: char) -> bool;

/// Whether a non-ASCII character is numeric in Unicode.
pub uninterp spec fn unicode_numeric(c: char) -> bool;

/// Whether a character is an ASCII letter or digit.
pub open spec fn ascii_alphanumeric(c: char) -> bool {
    ('a' <= c <= 'z') || ('A' <= c <= 'Z') || ('0' <= c <= '9')
}

/// `char::is_alphanumeric`: for ASCII, a letter or a digit; otherwise the
/// Unicode Alphabetic or Numeric property.
pub open spec fn is_alphanumeric_spec(c: char) -> bool {
    if (c as u32) < 128 {
        ascii_alphanumeric(c)
    } else {
        unicode_alphanumeric(c)
    }
}

/// `char::is_numeric`: for ASCII, a decimal digit; otherwise a Unicode
/// number category.
pub open spec fn is_numeric_spec(c: char) -> bool {
    if (c as u32) < 128 {
        '0' <= c <= '9'
    } else {
        unicode_numeric(c)
    }
}

/// `char::is_alphanumeric`. Its documentation: true when the character is
/// alphabetic or numeric; among ASCII characters these are exactly the
/// letters and the digits. Other characters go by the named Unicode class.
#[verifier::external_body]
pub(crate) fn is_alphanumeric(c: char) -> (r: bool)
    ensures
        (c as u32) < 128 ==> r == ascii_alphanumeric(c),
        (c as u32) >= 128 ==> r == unicode_alphanumeric(c),
{
    c.is_alphanumeric()
}

/// `char::is_numeric`. Its documentation: true for the Unicode number
/// categories; among ASCII characters these are exactly the digits. Other
/// characters go by the named Unicode class.
#[verifier::external_body]
pub(crate) fn is_numeric(c: char) -> (r: bool)
    ensures
        (c as u32) < 128 ==> r == ('0' <= c <= '9'),
        (c as u32) >= 128 ==> r == unicode_numeric(c),
{
    c.is_numeric()
}

/// Result of `str::trim`: the text without leading and trailing Unicode
/// white space.
pub uninterp spec fn trimmed(s: Seq<char>) -> Seq<char>;

/// Result of `str::to_uppercase`: the Unicode upper-case mapping of the
/// text.
pub uninterp spec fn uppercased(s: Seq<char>) -> Seq<char>;

/// Result of `str::to_lowercase`: the Unicode lower-case mapping of the
/// text.
pub uninterp spec fn lowercased(s: Seq<char>) -> Seq<char>;

/// `str::trim`, as named.
#[verifier::external_body]
pub(crate) fn trim(s: &str) -> (r: &str)
    ensures
        r@ == trimmed(s@),
{
    s.trim()
}

/// `str::to_uppercase`, as named.
#[verifier::external_body]
pub(crate) fn to_uppercase(s: &str) -> (r: String)
    ensures
        r@ == uppercased(s@),
{
    s.to_uppercase()
}

/// `str::to_lowercase`, as named.
#[verifier::external_body]
pub(crate) fn to_lowercase(s: &str) -> (r: String)
    ensures
        r@ == lowercased(s@),
{
    s.to_lowercase()
}

} // verus!
