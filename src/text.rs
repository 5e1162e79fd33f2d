//! Small verified string helpers and the text primitives taken from std.

use vstd::prelude::*;

verus! {

/// What `str::to_lowercase` makes of a string.
pub uninterp spec fn lower_of(s: Seq<char>) -> Seq<char>;

/// Relies on `str::to_lowercase`: the result depends on the characters alone.
#[verifier::external_body]
pub fn to_lower(s: &str) -> (r: String)
    ensures
        r@ == lower_of(s@),
{
    s.to_lowercase()
}

/// Equality of two strings, compared byte by byte.
pub fn str_eq(a: &str, b: &str) -> (r: bool)
    ensures
        r == (a@ == b@),
{
    let x = a.as_bytes();
    let y = b.as_bytes();
    proof {
        vstd::utf8::encode_utf8_decode_utf8(a@);
        vstd::utf8::encode_utf8_decode_utf8(b@);
    }
    if x.len() != y.len() {
        return false;
    }
    let n = x.len();
    let mut i: usize = 0;
    while i < n
        invariant
            n == x@.len(),
            n == y@.len(),
            i <= n,
            forall|j: int| 0 <= j < i ==> x@[j] == y@[j],
            x@ == vstd::utf8::encode_utf8(a@),
            y@ == vstd::utf8::encode_utf8(b@),
        decreases n - i,
    {
        if x[i] != y[i] {
            return false;
        }
        i = i + 1;
    }
    assert(x@ =~= y@);
    true
}

/// What `str::trim` makes of a string.
pub uninterp spec fn trim_of(s: Seq<char>) -> Seq<char>;

/// Relies on `str::trim`: leading and trailing white space removed; the
/// result depends on the characters alone.
#[verifier::external_body]
pub fn trim_str(s: &str) -> (r: &str)
    ensures
        r@ == trim_of(s@),
{
    s.trim()
}

/// What `str::parse::<usize>` makes of a string.
pub uninterp spec fn usize_parse_of(s: Seq<char>) -> Option<usize>;

/// Relies on `str::parse::<usize>`: `Some` of the decimal value, or `None`
/// when the string is not one; the result depends on the characters alone.
#[verifier::external_body]
pub fn parse_usize_text(s: &str) -> (r: Option<usize>)
    ensures
        r == usize_parse_of(s@),
{
    s.parse::<usize>().ok()
}

/// What `str::parse::<u64>` makes of a string.
pub uninterp spec fn u64_parse_of(s: Seq<char>) -> Option<u64>;

/// Relies on `str::parse::<u64>`: `Some` of the decimal value, or `None` when
/// the string is not one; the result depends on the characters alone.
#[verifier::external_body]
pub fn parse_u64_text(s: &str) -> (r: Option<u64>)
    ensures
        r == u64_parse_of(s@),
{
    s.parse::<u64>().ok()
}

/// What `str::replace` makes of `s` when every `from` is replaced by `to`.
pub uninterp spec fn replaced_of(s: Seq<char>, from: Seq<char>, to: Seq<char>) -> Seq<char>;

/// Relies on `str::replace`: the result depends on the three strings alone.
#[verifier::external_body]
pub fn replace_text(s: &str, from: &str, to: &str) -> (r: String)
    ensures
        r@ == replaced_of(s@, from@, to@),
{
    s.replace(from, to)
}

/// What `Path::extension` gives for a path: the text after the final `.` of
/// the file name, or nothing.
pub uninterp spec fn extension_of(p: Seq<char>) -> Seq<char>;

/// Relies on `std::path::Path::extension`; an absent extension gives the
/// empty string. The result depends on the path's characters alone.
#[verifier::external_body]
pub fn path_extension(p: &str) -> (r: String)
    ensures
        r@ == extension_of(p@),
{
    match std::path::Path::new(p).extension() {
        Some(e) => e.to_string_lossy().into_owned(),
        None => String::new(),
    }
}

} // verus!
