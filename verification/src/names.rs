//! Naming and type mapping: identifier casing transforms, the naive table
//! pluralization heuristic, and the field-type to storage-type table.
//!
//! The casing transforms delegate to outside code; each result is named by an
//! uninterpreted spec function of the input characters, so contracts of
//! callers stay exact.
use crate::strutil::str_eq;
use vstd::prelude::*;

verus! {

/// What convert_case returns for the PascalCase rendering of `s`; a function
/// of the characters alone.
pub uninterp spec fn pascal_of(s: Seq<char>) -> Seq<char>;

/// What convert_case returns for the snake_case rendering of `s`; a function
/// of the characters alone.
pub uninterp spec fn snake_of(s: Seq<char>) -> Seq<char>;

/// What `str::to_lowercase` returns for `s`; a function of the characters
/// alone.
pub uninterp spec fn lower_of(s: Seq<char>) -> Seq<char>;

/// Relies on convert_case's `Casing::to_case` with `Case::Pascal`: a pure,
/// deterministic transform of the input string.
#[verifier::external_body]
pub(crate) fn to_pascal_case(s: &str) -> (r: String)
    ensures
        r@ == pascal_of(s@),
{
    convert_case::Casing::to_case(&s, convert_case::Case::Pascal)
}

/// Relies on convert_case's `Casing::to_case` with `Case::Snake`: a pure,
/// deterministic transform of the input string.
#[verifier::external_body]
pub(crate) fn to_snake_case(s: &str) -> (r: String)
    ensures
        r@ == snake_of(s@),
{
    convert_case::Casing::to_case(&s, convert_case::Case::Snake)
}

/// Relies on `str::to_lowercase`: the Unicode lowercase equivalent of the
/// input, a function of its characters alone.
#[verifier::external_body]
pub(crate) fn to_lower(s: &str) -> (r: String)
    ensures
        r@ == lower_of(s@),
{
    s.to_lowercase()
}

/// The naive plural of a table name: kept as-is when it already ends in `s`,
/// otherwise with `s` appended.
pub open spec fn spec_pluralize(s: Seq<char>) -> Seq<char> {
    if s.len() > 0 && s.last() == 's' {
        s
    } else {
        s.push('s')
    }
}

/// Appends `s` to a table name unless it already ends in `s`.
pub fn pluralize(s: &str) -> (r: String)
    ensures
        r@ == spec_pluralize(s@),
{
    let len = s.unicode_len();
    if len > 0 && s.get_char(len - 1) == 's' {
        String::from_str(s)
    } else {
        let mut r = String::from_str(s);
        proof {
            reveal_strlit("s");
        }
        r.append("s");
        proof {
            assert(r@ =~= s@.push('s'));
        }
        r
    }
}

/// `s` with every trailing `c` removed, as `str::trim_end_matches` with a
/// single-character pattern returns it.
pub open spec fn spec_trim_end_char(s: Seq<char>, c: char) -> Seq<char>
    decreases s.len(),
{
    if s.len() > 0 && s.last() == c {
        spec_trim_end_char(s.drop_last(), c)
    } else {
        s
    }
}

/// Removes every trailing occurrence of `c`.
pub fn trim_end_char(s: &str, c: char) -> (r: String)
    ensures
        r@ == spec_trim_end_char(s@, c),
{
    let len = s.unicode_len();
    let mut end: usize = len;
    proof {
        assert(s@.subrange(0, len as int) =~= s@);
    }
    while end > 0 && s.get_char(end - 1) == c
        invariant
            end <= len,
            len == s@.len(),
            spec_trim_end_char(s@, c) == spec_trim_end_char(s@.subrange(0, end as int), c),
        decreases end,
    {
        proof {
            let cur = s@.subrange(0, end as int);
            assert(cur.last() == s@[end - 1]);
            assert(cur.drop_last() =~= s@.subrange(0, end - 1));
        }
        end -= 1;
    }
    proof {
        let cur = s@.subrange(0, end as int);
        if end > 0 {
            assert(cur.last() == s@[end - 1]);
        }
        assert(spec_trim_end_char(cur, c) == cur);
    }
    let piece = s.substring_char(0, end);
    String::from_str(piece)
}

/// The storage type a declared field type maps to in schema statements;
/// unrecognized types fall back to `string`.
pub open spec fn spec_storage_type(t: Seq<char>) -> Seq<char> {
    if t == "String"@ || t == "Email"@ || t == "Phone"@ {
        "string"@
    } else if t == "i32"@ || t == "i64"@ {
        "int"@
    } else if t == "f32"@ || t == "f64"@ {
        "float"@
    } else if t == "bool"@ {
        "bool"@
    } else if t == "DateTime"@ {
        "datetime"@
    } else {
        "string"@
    }
}

/// Maps a declared field type to its storage type.
pub fn storage_type(t: &str) -> (r: &'static str)
    ensures
        r@ == spec_storage_type(t@),
{
    if str_eq(t, "String") || str_eq(t, "Email") || str_eq(t, "Phone") {
        "string"
    } else if str_eq(t, "i32") || str_eq(t, "i64") {
        "int"
    } else if str_eq(t, "f32") || str_eq(t, "f64") {
        "float"
    } else if str_eq(t, "bool") {
        "bool"
    } else if str_eq(t, "DateTime") {
        "datetime"
    } else {
        "string"
    }
}

} // verus!
