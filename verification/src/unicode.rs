//! The Unicode operations the library borrows: NFKD normalisation from
//! the `unicode-normalization` crate and std's lower-casing and
//! alphanumeric test.
use vstd::prelude::*;
use vstd::string::*;
use unicode_normalization::UnicodeNormalization;
use crate::text::ascii_lower;

verus! {

/// The text of `s` in Unicode Normalization Form KD, as the
/// `unicode-normalization` crate computes it.
pub uninterp spec fn nfkd_of(s: Seq<char>) -> Seq<char>;

/// `str::to_lowercase` of `s`.
pub uninterp spec fn lowercase_of(s: Seq<char>) -> Seq<char>;

/// `char::is_alphanumeric`.
pub uninterp spec fn alnum(c: char) -> bool;

pub open spec fn is_ascii_text(s: Seq<char>) -> bool {
    forall|i: int| 0 <= i < s.len() ==> (#[trigger] s[i] as u32) < 128
}

/// `UnicodeNormalization::nfkd` collected into a `String`. 7-bit ASCII
/// never decomposes, so ASCII text comes back unchanged.
#[verifier::external_body]
pub(crate) fn nfkd(s: &str) -> (r: String)
    ensures
        r@ == nfkd_of(s@),
        is_ascii_text(s@) ==> r@ == s@,
{
    s.nfkd().collect()
}

/// `str::to_lowercase`. On ASCII text it lower-cases the ASCII letters
/// and keeps everything else.
#[verifier::external_body]
pub(crate) fn to_lowercase(s: &str) -> (r: String)
    ensures
        r@ == lowercase_of(s@),
        is_ascii_text(s@) ==> r@ == ascii_lower(s@),
{
    s.to_lowercase()
}

/// `char::is_alphanumeric`: the char is alphabetic or numeric; among
/// ASCII characters exactly the letters and digits are.
#[verifier::external_body]
pub(crate) fn is_alphanumeric(c: char) -> (r: bool)
    ensures
        r == alnum(c),
        (c as u32) < 128 ==> (r <==> (('a' <= c && c <= 'z') || ('A' <= c && c <= 'Z') || (
        '0' <= c && c <= '9'))),
{
    c.is_alphanumeric()
}

} // verus!
