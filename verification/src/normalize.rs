//! Matching keys for album and artist names.
use unicode_normalization::UnicodeNormalization;
use vstd::prelude::*;

use crate::text::{ascii_lower, char_ascii_lower, char_is_ascii_alnum, is_ascii_alnum, is_ascii_upper, string_of};

verus! {

/// What `unicode_normalization`'s NFKD decomposition yields for a string.
pub uninterp spec fn spec_nfkd(s: Seq<char>) -> Seq<char>;

/// Calls `UnicodeNormalization::nfkd` from `unicode_normalization` and collects the
/// decomposed characters; the result is named as a function of the input characters.
#[verifier::external_body]
pub(crate) fn nfkd_chars(s: &str) -> (r: Vec<char>)
    ensures
        r@ == spec_nfkd(s@),
{
    s.nfkd().collect()
}

/// The ASCII letters and digits of `s`, lower-cased, in order.
pub open spec fn alnum_lower(s: Seq<char>) -> Seq<char>
    decreases s.len(),
{
    if s.len() == 0 {
        seq![]
    } else {
        let rest = alnum_lower(s.drop_last());
        if is_ascii_alnum(s.last()) {
            rest.push(ascii_lower(s.last()))
        } else {
            rest
        }
    }
}

/// The matching key of a name: its NFKD decomposition, keeping ASCII letters and
/// digits only, lower-cased. Accents and punctuation therefore do not matter.
pub open spec fn spec_normalize(s: Seq<char>) -> Seq<char> {
    alnum_lower(spec_nfkd(s))
}

/// The ASCII letters and digits of `s`, lower-cased.
pub fn alnum_lower_exec(s: &Vec<char>) -> (r: Vec<char>)
    ensures
        r@ == alnum_lower(s@),
{
    let mut out: Vec<char> = Vec::new();
    let mut i: usize = 0;
    while i < s.len()
        invariant
            i <= s.len(),
            out@ == alnum_lower(s@.take(i as int)),
        decreases s.len() - i,
    {
        let c = s[i];
        assert(s@.take(i + 1).drop_last() =~= s@.take(i as int));
        assert(s@.take(i + 1).last() == c);
        if char_is_ascii_alnum(c) {
            out.push(char_ascii_lower(c));
        }
        i += 1;
    }
    assert(s@.take(s.len() as int) =~= s@);
    out
}

/// The matching key of a name, as characters.
pub fn normalize_chars(value: &str) -> (r: Vec<char>)
    ensures
        r@ == spec_normalize(value@),
{
    let decomposed = nfkd_chars(value);
    alnum_lower_exec(&decomposed)
}

/// The matching key of a name: NFKD-decomposed, ASCII letters and digits only, lower case.
pub fn normalize(value: &str) -> (r: String)
    ensures
        r@ == spec_normalize(value@),
{
    let v = normalize_chars(value);
    string_of(&v)
}

/// The matching key of a character vector.
pub fn normalize_vec(value: &Vec<char>) -> (r: Vec<char>)
    ensures
        r@ == spec_normalize(value@),
{
    let s = string_of(value);
    normalize_chars(s.as_str())
}

} // verus!
