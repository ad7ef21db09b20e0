//! Character-level text utilities shared by the catalog logic.
//!
//! Text is handled as sequences of Unicode scalar values (`Seq<char>`), which
//! is also the view Verus gives to `str` and `String`.
use vstd::prelude::*;

verus! {

// ---------------------------------------------------------------------------
// Character classes
// ---------------------------------------------------------------------------

/// ASCII decimal digit.
pub open spec fn is_ascii_digit(c: char) -> bool {
    '0' <= c && c <= '9'
}

/// ASCII letter or digit.
pub open spec fn is_ascii_alnum(c: char) -> bool {
    ||| ('0' <= c && c <= '9')
    ||| ('a' <= c && c <= 'z')
    ||| ('A' <= c && c <= 'Z')
}

/// ASCII upper-case letter.
pub open spec fn is_ascii_upper(c: char) -> bool {
    'A' <= c && c <= 'Z'
}

/// The ASCII lower-case form of a character; other characters are unchanged.
pub open spec fn ascii_lower(c: char) -> char {
    if is_ascii_upper(c) {
        ((c as u32) + 32) as char
    } else {
        c
    }
}

/// The Unicode `White_Space` property, which `char::is_whitespace` documents.
pub open spec fn is_ws(c: char) -> bool {
    let u = c as u32;
    ||| (0x9 <= u && u <= 0xD)
    ||| u == 0x20
    ||| u == 0x85
    ||| u == 0xA0
    ||| u == 0x1680
    ||| (0x2000 <= u && u <= 0x200A)
    ||| u == 0x2028
    ||| u == 0x2029
    ||| u == 0x202F
    ||| u == 0x205F
    ||| u == 0x3000
}

/// Whether a character is an ASCII digit.
pub fn char_is_ascii_digit(c: char) -> (r: bool)
    ensures
        r == is_ascii_digit(c),
{
    '0' <= c && c <= '9'
}

/// Whether a character is an ASCII letter or digit.
pub fn char_is_ascii_alnum(c: char) -> (r: bool)
    ensures
        r == is_ascii_alnum(c),
{
    ('0' <= c && c <= '9') || ('a' <= c && c <= 'z') || ('A' <= c && c <= 'Z')
}

/// A character with ASCII upper-case letters made lower-case.
pub fn char_ascii_lower(c: char) -> (r: char)
    ensures
        r == ascii_lower(c),
{
    if 'A' <= c && c <= 'Z' {
        let b: u8 = c as u8;
        assert(b as u32 == c as u32);
        ((b + 32) as char)
    } else {
        c
    }
}

/// Whether a character is Unicode white space (`char::is_whitespace`).
pub fn char_is_ws(c: char) -> (r: bool)
    ensures
        r == is_ws(c),
{
    let u: u32 = c as u32;
    (0x9 <= u && u <= 0xD) || u == 0x20 || u == 0x85 || u == 0xA0 || u == 0x1680 || (0x2000 <= u
        && u <= 0x200A) || u == 0x2028 || u == 0x2029 || u == 0x202F || u == 0x205F || u == 0x3000
}

// ---------------------------------------------------------------------------
// Std functions whose behaviour is Unicode data: named results
// ---------------------------------------------------------------------------

/// What `char::is_alphanumeric` returns for a character.
pub uninterp spec fn spec_is_alphanumeric(c: char) -> bool;

/// What `char::to_lowercase` yields for a character.
pub uninterp spec fn spec_char_lowercase(c: char) -> Seq<char>;

/// What `char::to_uppercase` yields for a character.
pub uninterp spec fn spec_char_uppercase(c: char) -> Seq<char>;

/// What `str::to_lowercase` returns for a string.
pub uninterp spec fn spec_str_lowercase(s: Seq<char>) -> Seq<char>;

/// Calls `char::is_alphanumeric`; its result is the named Unicode property of `c`.
#[verifier::external_body]
pub(crate) fn char_is_alphanumeric(c: char) -> (r: bool)
    ensures
        r == spec_is_alphanumeric(c),
{
    c.is_alphanumeric()
}

/// Calls `char::to_lowercase` and collects what it yields; the result is named per character.
#[verifier::external_body]
pub(crate) fn char_to_lowercase(c: char) -> (r: Vec<char>)
    ensures
        r@ == spec_char_lowercase(c),
{
    c.to_lowercase().collect()
}

/// Calls `char::to_uppercase` and collects what it yields; the result is named per character.
#[verifier::external_body]
pub(crate) fn char_to_uppercase(c: char) -> (r: Vec<char>)
    ensures
        r@ == spec_char_uppercase(c),
{
    c.to_uppercase().collect()
}

/// Calls `str::to_lowercase`; the result is named as a function of the input characters.
#[verifier::external_body]
pub(crate) fn str_to_lowercase(s: &str) -> (r: String)
    ensures
        r@ == spec_str_lowercase(s@),
{
    s.to_lowercase()
}

/// Builds a `String` from characters (`FromIterator<char>` for `String`); it holds
/// exactly those characters in order.
#[verifier::external_body]
pub(crate) fn chars_to_string(v: &Vec<char>) -> (r: String)
    ensures
        r@ == v@,
{
    v.iter().collect()
}

// ---------------------------------------------------------------------------
// Conversions
// ---------------------------------------------------------------------------

/// The characters of a string slice.
pub fn str_chars(s: &str) -> (r: Vec<char>)
    ensures
        r@ == s@,
{
    let mut out: Vec<char> = Vec::new();
    for c in it: s.chars()
        invariant
            out@ == it.seq().take(it.index() as int),
    {
        out.push(c);
    }
    out
}

/// A string made of the given characters.
pub fn string_of(s: &Vec<char>) -> (r: String)
    ensures
        r@ == s@,
{
    chars_to_string(s)
}

/// A copy of a character vector.
pub fn copy_chars(s: &Vec<char>) -> (r: Vec<char>)
    ensures
        r@ == s@,
{
    let mut out: Vec<char> = Vec::new();
    let mut i: usize = 0;
    while i < s.len()
        invariant
            i <= s.len(),
            out@ == s@.take(i as int),
        decreases s.len() - i,
    {
        out.push(s[i]);
        i += 1;
        assert(out@ =~= s@.take(i as int));
    }
    assert(s@.take(s.len() as int) =~= s@);
    out
}

/// A character vector from a literal-like slice of characters.
pub fn chars_of_str(s: &str) -> (r: Vec<char>)
    ensures
        r@ == s@,
{
    str_chars(s)
}

// ---------------------------------------------------------------------------
// UTF-8 length (what `str::len` reports)
// ---------------------------------------------------------------------------

/// Number of bytes in the UTF-8 encoding of one character.
pub open spec fn char_utf8_len(c: char) -> nat {
    let u = c as u32;
    if u < 0x80 {
        1
    } else if u < 0x800 {
        2
    } else if u < 0x10000 {
        3
    } else {
        4
    }
}

/// Number of bytes in the UTF-8 encoding of a character sequence.
pub open spec fn utf8_len(s: Seq<char>) -> nat
    decreases s.len(),
{
    if s.len() == 0 {
        0
    } else {
        char_utf8_len(s[0]) + utf8_len(s.drop_first())
    }
}

/// The UTF-8 length of a text grows by that of each added character.
pub proof fn lemma_utf8_len_push(s: Seq<char>, c: char)
    ensures
        utf8_len(s.push(c)) == utf8_len(s) + char_utf8_len(c),
    decreases s.len(),
{
    if s.len() == 0 {
        assert(s.push(c).drop_first() =~= Seq::<char>::empty());
        assert(utf8_len(Seq::<char>::empty()) == 0);
        assert(s.push(c)[0] == c);
    } else {
        assert(s.push(c).drop_first() =~= s.drop_first().push(c));
        assert(s.push(c)[0] == s[0]);
        lemma_utf8_len_push(s.drop_first(), c);
    }
}

/// Byte length of the UTF-8 encoding, saturating at `usize::MAX`.
pub fn utf8_length(s: &Vec<char>) -> (r: usize)
    ensures
        r == (if utf8_len(s@) <= usize::MAX { utf8_len(s@) } else { usize::MAX as nat }),
{
    let mut total: usize = 0;
    let mut i: usize = 0;
    let mut saturated = false;
    while i < s.len()
        invariant
            i <= s.len(),
            !saturated ==> total == utf8_len(s@.take(i as int)),
            saturated ==> utf8_len(s@.take(i as int)) > usize::MAX && total == usize::MAX,
        decreases s.len() - i,
    {
        let c = s[i];
        let u: u32 = c as u32;
        let w: usize = if u < 0x80 {
            1
        } else if u < 0x800 {
            2
        } else if u < 0x10000 {
            3
        } else {
            4
        };
        proof {
            assert(s@.take(i + 1) =~= s@.take(i as int).push(c));
            lemma_utf8_len_push(s@.take(i as int), c);
        }
        if !saturated {
            if total > usize::MAX - w {
                saturated = true;
                total = usize::MAX;
            } else {
                total = total + w;
            }
        }
        i += 1;
    }
    assert(s@.take(s.len() as int) =~= s@);
    total
}

// ---------------------------------------------------------------------------
// Searching
// ---------------------------------------------------------------------------

/// `p` occurs in `s` at position `i`.
pub open spec fn occurs_at(s: Seq<char>, p: Seq<char>, i: int) -> bool {
    0 <= i && i + p.len() <= s.len() && s.subrange(i, i + p.len()) == p
}

/// The first position at or after `from` where `p` occurs in `s`.
pub open spec fn find_from(s: Seq<char>, p: Seq<char>, from: int) -> Option<int>
    decreases s.len() + 1 - from,
{
    if from < 0 || from + p.len() > s.len() {
        None
    } else if occurs_at(s, p, from) {
        Some(from)
    } else {
        find_from(s, p, from + 1)
    }
}

/// The first position where `p` occurs in `s` (what `str::find` locates).
pub open spec fn find(s: Seq<char>, p: Seq<char>) -> Option<int> {
    find_from(s, p, 0)
}

/// `p` is a substring of `s`.
pub open spec fn contains(s: Seq<char>, p: Seq<char>) -> bool {
    find(s, p) is Some
}

/// `p` is a prefix of `s`.
pub open spec fn starts_with(s: Seq<char>, p: Seq<char>) -> bool {
    p.len() <= s.len() && s.take(p.len() as int) == p
}

/// `p` is a suffix of `s`.
pub open spec fn ends_with(s: Seq<char>, p: Seq<char>) -> bool {
    p.len() <= s.len() && s.skip(s.len() - p.len()) == p
}

/// What a search finds: an occurrence at or after the start, with none before it.
pub proof fn lemma_find_from_facts(s: Seq<char>, p: Seq<char>, from: int)
    requires
        0 <= from,
    ensures
        find_from(s, p, from) matches Some(j) ==> from <= j && occurs_at(s, p, j) && forall|k: int|
            from <= k < j ==> !occurs_at(s, p, k),
        find_from(s, p, from) is None ==> forall|k: int| from <= k ==> !occurs_at(s, p, k),
    decreases s.len() + 1 - from,
{
    if from + p.len() > s.len() {
    } else if occurs_at(s, p, from) {
    } else {
        lemma_find_from_facts(s, p, from + 1);
    }
}

/// Whether `p` occurs in `s` at position `i` (requires the occurrence to fit).
pub fn occurs_at_exec(s: &Vec<char>, p: &Vec<char>, i: usize) -> (r: bool)
    requires
        i + p.len() <= s.len(),
    ensures
        r == occurs_at(s@, p@, i as int),
{
    let mut k: usize = 0;
    while k < p.len()
        invariant
            k <= p.len(),
            i + p.len() <= s.len(),
            forall|m: int| 0 <= m < k ==> s@[i + m] == p@[m],
        decreases p.len() - k,
    {
        if s[i + k] != p[k] {
            assert(s@.subrange(i as int, i + p.len())[k as int] != p@[k as int]);
            return false;
        }
        k += 1;
    }
    assert(s@.subrange(i as int, i + p.len()) =~= p@);
    true
}

/// The first position at or after `from` where `p` occurs in `s`.
pub fn find_from_exec(s: &Vec<char>, p: &Vec<char>, from: usize) -> (r: Option<usize>)
    ensures
        r matches Some(j) ==> find_from(s@, p@, from as int) == Some(j as int),
        r is None ==> find_from(s@, p@, from as int) is None,
{
    proof {
        lemma_find_from_facts(s@, p@, from as int);
    }
    if p.len() > s.len() || from > s.len() - p.len() {
        return None;
    }
    let limit = s.len() - p.len();
    let mut i: usize = from;
    while i <= limit
        invariant
            from <= i,
            p.len() <= s.len(),
            limit == s.len() - p.len(),
            find_from(s@, p@, from as int) == find_from(s@, p@, i as int),
        decreases limit + 1 - i,
    {
        if occurs_at_exec(s, p, i) {
            return Some(i);
        }
        if i == limit {
            return None;
        }
        i += 1;
    }
    None
}

/// The first position where `p` occurs in `s`.
pub fn find_exec(s: &Vec<char>, p: &Vec<char>) -> (r: Option<usize>)
    ensures
        r matches Some(j) ==> find(s@, p@) == Some(j as int),
        r is None ==> find(s@, p@) is None,
{
    find_from_exec(s, p, 0)
}

/// Whether `p` is a substring of `s`.
pub fn contains_exec(s: &Vec<char>, p: &Vec<char>) -> (r: bool)
    ensures
        r == contains(s@, p@),
{
    find_exec(s, p).is_some()
}

/// Whether `p` is a prefix of `s`.
pub fn starts_with_exec(s: &Vec<char>, p: &Vec<char>) -> (r: bool)
    ensures
        r == starts_with(s@, p@),
{
    if p.len() > s.len() {
        return false;
    }
    let r = occurs_at_exec(s, p, 0);
    assert(s@.subrange(0, p.len() as int) =~= s@.take(p.len() as int));
    r
}

/// Whether `p` is a suffix of `s`.
pub fn ends_with_exec(s: &Vec<char>, p: &Vec<char>) -> (r: bool)
    ensures
        r == ends_with(s@, p@),
{
    if p.len() > s.len() {
        return false;
    }
    let r = occurs_at_exec(s, p, s.len() - p.len());
    assert(s@.subrange(s.len() - p.len(), s.len() as int) =~= s@.skip(s.len() - p.len()));
    r
}

/// Whether two character sequences are equal.
pub fn chars_eq(a: &Vec<char>, b: &Vec<char>) -> (r: bool)
    ensures
        r == (a@ == b@),
{
    if a.len() != b.len() {
        return false;
    }
    let r = starts_with_exec(a, b);
    assert(a@.take(b.len() as int) =~= a@);
    r
}

/// Searching the text after its first `i` characters finds the same occurrences, shifted by `i`.
pub proof fn lemma_find_shift(s: Seq<char>, p: Seq<char>, i: int, m: int)
    requires
        0 <= i <= s.len(),
        0 <= m,
    ensures
        find_from(s.skip(i), p, m) == (match find_from(s, p, i + m) {
            Some(j) => Some(j - i),
            None => None,
        }),
    decreases s.len() + 1 - (i + m),
{
    let t = s.skip(i);
    if m + p.len() > t.len() {
    } else {
        assert(t.subrange(m, m + p.len()) =~= s.subrange(i + m, i + m + p.len()));
        if occurs_at(t, p, m) {
        } else {
            lemma_find_shift(s, p, i, m + 1);
        }
    }
}

// ---------------------------------------------------------------------------
// Character classes used to trim and split
// ---------------------------------------------------------------------------

/// A class of characters that text is trimmed or split on.
pub enum CharClass {
    /// Unicode white space.
    Whitespace,
    /// Characters that are not alphanumeric (`!char::is_alphanumeric`).
    NotAlphanumeric,
    /// One given character.
    Exactly(char),
}

/// Whether a character belongs to a class.
pub open spec fn in_class(k: CharClass, c: char) -> bool {
    match k {
        CharClass::Whitespace => is_ws(c),
        CharClass::NotAlphanumeric => !spec_is_alphanumeric(c),
        CharClass::Exactly(x) => c == x,
    }
}

/// Whether a character belongs to a class.
pub fn in_class_exec(k: &CharClass, c: char) -> (r: bool)
    ensures
        r == in_class(*k, c),
{
    match k {
        CharClass::Whitespace => char_is_ws(c),
        CharClass::NotAlphanumeric => !char_is_alphanumeric(c),
        CharClass::Exactly(x) => c == *x,
    }
}

/// Number of leading characters whose membership in `k` is `want`.
pub open spec fn span(s: Seq<char>, k: CharClass, want: bool) -> nat
    decreases s.len(),
{
    if s.len() > 0 && in_class(k, s[0]) == want {
        1 + span(s.drop_first(), k, want)
    } else {
        0
    }
}

/// Number of trailing characters that belong to `k`.
pub open spec fn trail(s: Seq<char>, k: CharClass) -> nat
    decreases s.len(),
{
    if s.len() > 0 && in_class(k, s.last()) {
        1 + trail(s.drop_last(), k)
    } else {
        0
    }
}

/// `s` without its leading characters of class `k`.
pub open spec fn trim_start(s: Seq<char>, k: CharClass) -> Seq<char> {
    s.skip(span(s, k, true) as int)
}

/// `s` without its trailing characters of class `k`.
pub open spec fn trim_end(s: Seq<char>, k: CharClass) -> Seq<char> {
    s.take(s.len() - trail(s, k))
}

/// `s` without leading and trailing characters of class `k` (`str::trim_matches`).
pub open spec fn trim(s: Seq<char>, k: CharClass) -> Seq<char> {
    trim_end(trim_start(s, k), k)
}

/// `s` without surrounding white space (`str::trim`).
pub open spec fn trim_ws(s: Seq<char>) -> Seq<char> {
    trim(s, CharClass::Whitespace)
}

/// A leading run lies within the text and ends at the first character outside it.
pub proof fn lemma_span_bound(s: Seq<char>, k: CharClass, want: bool)
    ensures
        span(s, k, want) <= s.len(),
        forall|j: int| 0 <= j < span(s, k, want) ==> in_class(k, s[j]) == want,
        span(s, k, want) < s.len() ==> in_class(k, s[span(s, k, want) as int]) != want,
    decreases s.len(),
{
    if s.len() > 0 && in_class(k, s[0]) == want {
        lemma_span_bound(s.drop_first(), k, want);
        assert forall|j: int| 0 <= j < span(s, k, want) implies in_class(k, s[j]) == want by {
            if j > 0 {
                assert(s[j] == s.drop_first()[j - 1]);
            }
        }
    }
}

/// A trailing run lies within the text and starts after the last character outside it.
pub proof fn lemma_trail_bound(s: Seq<char>, k: CharClass)
    ensures
        trail(s, k) <= s.len(),
        forall|j: int| s.len() - trail(s, k) <= j < s.len() ==> in_class(k, s[j]),
        trail(s, k) < s.len() ==> !in_class(k, s[s.len() - trail(s, k) - 1]),
    decreases s.len(),
{
    if s.len() > 0 && in_class(k, s.last()) {
        lemma_trail_bound(s.drop_last(), k);
        assert forall|j: int| s.len() - trail(s, k) <= j < s.len() implies in_class(k, s[j]) by {
            if j < s.len() - 1 {
                assert(s[j] == s.drop_last()[j]);
            }
        }
    }
}

/// Index just past the run of characters, starting at `i`, whose membership in `k` is `want`.
pub fn span_exec(s: &Vec<char>, i: usize, k: &CharClass, want: bool) -> (r: usize)
    requires
        i <= s.len(),
    ensures
        r == i + span(s@.skip(i as int), *k, want),
        r <= s.len(),
{
    let mut j: usize = i;
    while j < s.len() && in_class_exec(k, s[j]) == want
        invariant
            i <= j <= s.len(),
            span(s@.skip(i as int), *k, want) == (j - i) + span(s@.skip(j as int), *k, want),
        decreases s.len() - j,
    {
        assert(s@.skip(j as int).drop_first() =~= s@.skip(j + 1));
        assert(s@.skip(j as int)[0] == s@[j as int]);
        j += 1;
    }
    if j < s.len() {
        assert(s@.skip(j as int)[0] == s@[j as int]);
    }
    j
}

/// Number of trailing characters of `s.take(end)` that belong to `k`, as the start of that run.
pub fn trail_start_exec(s: &Vec<char>, end: usize, k: &CharClass) -> (r: usize)
    requires
        end <= s.len(),
    ensures
        r == end - trail(s@.take(end as int), *k),
{
    let mut j: usize = end;
    while j > 0 && in_class_exec(k, s[j - 1])
        invariant
            j <= end <= s.len(),
            trail(s@.take(end as int), *k) == (end - j) + trail(s@.take(j as int), *k),
        decreases j,
    {
        assert(s@.take(j as int).drop_last() =~= s@.take(j - 1));
        assert(s@.take(j as int).last() == s@[j - 1]);
        j -= 1;
    }
    if j > 0 {
        assert(s@.take(j as int).last() == s@[j - 1]);
    }
    j
}

/// The characters `s[from..to]`.
pub fn slice_chars(s: &Vec<char>, from: usize, to: usize) -> (r: Vec<char>)
    requires
        from <= to <= s.len(),
    ensures
        r@ == s@.subrange(from as int, to as int),
{
    let mut out: Vec<char> = Vec::new();
    let mut i: usize = from;
    while i < to
        invariant
            from <= i <= to <= s.len(),
            out@ == s@.subrange(from as int, i as int),
        decreases to - i,
    {
        out.push(s[i]);
        i += 1;
        assert(out@ =~= s@.subrange(from as int, i as int));
    }
    out
}

/// `s` without leading and trailing characters of class `k`.
pub fn trim_exec(s: &Vec<char>, k: &CharClass) -> (r: Vec<char>)
    ensures
        r@ == trim(s@, *k),
{
    let a = span_exec(s, 0, k, true);
    assert(s@.skip(0) =~= s@);
    let b = trim_start_exec_bound(s, a, k);
    let r = slice_chars(s, a, b);
    proof {
        let t = trim_start(s@, *k);
        assert(t =~= s@.skip(a as int));
        assert(t.take(b - a) =~= s@.subrange(a as int, b as int));
    }
    r
}

/// End of `trim_end(s.skip(a))`, as an index into `s`.
fn trim_start_exec_bound(s: &Vec<char>, a: usize, k: &CharClass) -> (r: usize)
    requires
        a <= s.len(),
    ensures
        a <= r <= s.len(),
        r - a == s.len() - a - trail(s@.skip(a as int), *k),
{
    let r = trail_start_exec(s, s.len(), k);
    proof {
        assert(s@.take(s.len() as int) =~= s@);
        lemma_trail_skip(s@, a as int, *k);
        lemma_trail_bound(s@, *k);
    }
    if r < a {
        proof {
            lemma_trail_bound(s@.skip(a as int), *k);
        }
        a
    } else {
        r
    }
}

/// Trailing class members of a suffix: either the whole suffix, or the same run as in `s`.
pub proof fn lemma_trail_skip(s: Seq<char>, a: int, k: CharClass)
    requires
        0 <= a <= s.len(),
    ensures
        trail(s.skip(a), k) == if trail(s, k) >= s.len() - a { (s.len() - a) as nat } else {
            trail(s, k)
        },
    decreases s.len(),
{
    if s.len() == a {
        assert(s.skip(a).len() == 0);
    } else if in_class(k, s.last()) {
        assert(s.skip(a).last() == s.last());
        assert(s.skip(a).drop_last() =~= s.drop_last().skip(a));
        lemma_trail_skip(s.drop_last(), a, k);
    } else {
        assert(s.skip(a).last() == s.last());
    }
}

/// `s` with surrounding white space removed.
pub fn trim_ws_exec(s: &Vec<char>) -> (r: Vec<char>)
    ensures
        r@ == trim_ws(s@),
{
    trim_exec(s, &CharClass::Whitespace)
}

/// A string slice with surrounding white space removed, as characters.
pub fn trim_str(s: &str) -> (r: Vec<char>)
    ensures
        r@ == trim_ws(s@),
{
    let v = str_chars(s);
    trim_ws_exec(&v)
}

// ---------------------------------------------------------------------------
// Splitting and joining
// ---------------------------------------------------------------------------

/// The non-empty runs of characters outside class `k`, in order
/// (`str::split_whitespace` for white space; `str::split` with the empty pieces dropped).
pub open spec fn split_by(s: Seq<char>, k: CharClass) -> Seq<Seq<char>>
    decreases s.len(),
{
    let t = s.skip(span(s, k, true) as int);
    if t.len() == 0 {
        seq![]
    } else {
        let n = span(t, k, false);
        proof {
            lemma_span_bound(s, k, true);
            lemma_span_bound(t, k, false);
            assert(t[0] == s[span(s, k, true) as int]);
        }
        seq![t.take(n as int)] + split_by(t.skip(n as int), k)
    }
}

/// The white-space separated words of `s` (`str::split_whitespace`).
pub open spec fn words(s: Seq<char>) -> Seq<Seq<char>> {
    split_by(s, CharClass::Whitespace)
}

/// The character views of a vector of character vectors.
pub open spec fn views(v: Seq<Vec<char>>) -> Seq<Seq<char>> {
    v.map_values(|x: Vec<char>| x@)
}

/// The pieces of `s` between runs of characters of class `k`.
pub fn split_exec(s: &Vec<char>, k: &CharClass) -> (r: Vec<Vec<char>>)
    ensures
        views(r@) == split_by(s@, *k),
{
    let mut out: Vec<Vec<char>> = Vec::new();
    let mut i: usize = 0;
    assert(s@.skip(0) =~= s@);
    assert(views(out@) =~= Seq::<Seq<char>>::empty());
    loop
        invariant
            i <= s.len(),
            views(out@) + split_by(s@.skip(i as int), *k) == split_by(s@, *k),
        decreases s.len() - i,
    {
        let i1 = span_exec(s, i, k, true);
        assert(s@.skip(i as int).skip(span(s@.skip(i as int), *k, true) as int) =~= s@.skip(
            i1 as int,
        ));
        if i1 == s.len() {
            assert(split_by(s@.skip(i as int), *k) =~= Seq::<Seq<char>>::empty());
            assert(views(out@) + Seq::<Seq<char>>::empty() =~= views(out@));
            return out;
        }
        let i2 = span_exec(s, i1, k, false);
        proof {
            lemma_span_bound(s@.skip(i as int), *k, true);
            lemma_span_bound(s@.skip(i1 as int), *k, false);
            assert(s@.skip(i1 as int)[0] == s@[i1 as int]);
        }
        let piece = slice_chars(s, i1, i2);
        proof {
            let t = s@.skip(i1 as int);
            assert(t.take((i2 - i1) as int) =~= s@.subrange(i1 as int, i2 as int));
            assert(t.skip((i2 - i1) as int) =~= s@.skip(i2 as int));
            assert(split_by(s@.skip(i as int), *k) == seq![piece@] + split_by(
                s@.skip(i2 as int),
                *k,
            ));
        }
        let ghost before = views(out@);
        out.push(piece);
        assert(views(out@) =~= before.push(piece@));
        assert(views(out@) + split_by(s@.skip(i2 as int), *k) =~= before + (seq![piece@]
            + split_by(s@.skip(i2 as int), *k)));
        i = i2;
    }
}

/// The white-space separated words of `s`.
pub fn words_exec(s: &Vec<char>) -> (r: Vec<Vec<char>>)
    ensures
        views(r@) == words(s@),
{
    split_exec(s, &CharClass::Whitespace)
}

/// The pieces joined with `sep` between consecutive pieces (`[T]::join`).
pub open spec fn join(parts: Seq<Seq<char>>, sep: Seq<char>) -> Seq<char>
    decreases parts.len(),
{
    if parts.len() == 0 {
        seq![]
    } else if parts.len() == 1 {
        parts[0]
    } else {
        join(parts.drop_last(), sep) + sep + parts.last()
    }
}

/// Appends all characters of `b` to `a`.
pub fn append_chars(a: &mut Vec<char>, b: &Vec<char>)
    ensures
        final(a)@ == old(a)@ + b@,
{
    let mut i: usize = 0;
    let ghost a0 = a@;
    while i < b.len()
        invariant
            i <= b.len(),
            a@ == a0 + b@.take(i as int),
        decreases b.len() - i,
    {
        a.push(b[i]);
        i += 1;
        assert(a@ =~= a0 + b@.take(i as int));
    }
    assert(b@.take(b.len() as int) =~= b@);
}

/// The pieces joined with `sep`.
pub fn join_exec(parts: &Vec<Vec<char>>, sep: &Vec<char>) -> (r: Vec<char>)
    ensures
        r@ == join(views(parts@), sep@),
{
    let mut out: Vec<char> = Vec::new();
    let mut i: usize = 0;
    while i < parts.len()
        invariant
            i <= parts.len(),
            out@ == join(views(parts@).take(i as int), sep@),
        decreases parts.len() - i,
    {
        let ghost pv = views(parts@);
        assert(pv.take(i + 1).drop_last() =~= pv.take(i as int));
        assert(pv.take(i + 1).last() == parts[i as int]@);
        if i > 0 {
            append_chars(&mut out, sep);
        } else {
            assert(pv.take(1) =~= seq![parts[0]@]);
        }
        append_chars(&mut out, &parts[i]);
        i += 1;
    }
    assert(views(parts@).take(parts.len() as int) =~= views(parts@));
    out
}

// ---------------------------------------------------------------------------
// Replacing
// ---------------------------------------------------------------------------

/// `s` with every non-overlapping occurrence of `p`, scanned from the left, replaced by `rep`
/// (`str::replace` for a non-empty pattern).
pub open spec fn replace(s: Seq<char>, p: Seq<char>, rep: Seq<char>) -> Seq<char>
    decreases s.len(),
{
    if p.len() == 0 {
        s
    } else {
        match find(s, p) {
            None => s,
            Some(j) => {
                proof {
                    lemma_find_from_facts(s, p, 0);
                }
                s.take(j) + rep + replace(s.skip(j + p.len()), p, rep)
            },
        }
    }
}

/// `s` with every occurrence of `p` replaced by `rep`.
pub fn replace_exec(s: &Vec<char>, p: &Vec<char>, rep: &Vec<char>) -> (r: Vec<char>)
    ensures
        r@ == replace(s@, p@, rep@),
{
    if p.len() == 0 {
        return copy_chars(s);
    }
    let mut out: Vec<char> = Vec::new();
    let mut i: usize = 0;
    assert(s@.skip(0) =~= s@);
    loop
        invariant
            i <= s.len(),
            p.len() > 0,
            out@ + replace(s@.skip(i as int), p@, rep@) == replace(s@, p@, rep@),
        decreases s.len() - i,
    {
        let found = find_from_exec(s, p, i);
        proof {
            lemma_find_shift(s@, p@, i as int, 0);
            lemma_find_from_facts(s@, p@, i as int);
        }
        match found {
            None => {
                let rest = slice_chars(s, i, s.len());
                assert(rest@ =~= s@.skip(i as int));
                append_chars(&mut out, &rest);
                return out;
            },
            Some(j) => {
                let piece = slice_chars(s, i, j);
                let ghost t = s@.skip(i as int);
                assert(t.take(j - i) =~= piece@);
                assert(t.skip((j - i) + p.len()) =~= s@.skip(j + p.len()));
                let ghost before = out@;
                append_chars(&mut out, &piece);
                append_chars(&mut out, rep);
                assert(out@ + replace(s@.skip(j + p.len()), p@, rep@) =~= before + (t.take(j - i)
                    + rep@ + replace(t.skip((j - i) + p.len()), p@, rep@)));
                i = j + p.len();
            },
        }
    }
}

// ---------------------------------------------------------------------------
// Building strings
// ---------------------------------------------------------------------------

/// `a` followed by `b`.
pub fn concat2(a: &str, b: &str) -> (r: String)
    ensures
        r@ == a@ + b@,
{
    let mut v = str_chars(a);
    let w = str_chars(b);
    append_chars(&mut v, &w);
    string_of(&v)
}

/// `a`, `b` and `c` in order.
pub fn concat3(a: &str, b: &str, c: &str) -> (r: String)
    ensures
        r@ == a@ + b@ + c@,
{
    let mut v = str_chars(a);
    let w = str_chars(b);
    let x = str_chars(c);
    append_chars(&mut v, &w);
    append_chars(&mut v, &x);
    string_of(&v)
}

/// A copy of a string slice as an owned string.
pub fn owned(s: &str) -> (r: String)
    ensures
        r@ == s@,
{
    let v = str_chars(s);
    string_of(&v)
}

/// A copy of an owned string.
pub fn copy_string(s: &String) -> (r: String)
    ensures
        r@ == s@,
{
    s.clone()
}

/// A copy of an optional owned string.
pub fn copy_opt_string(s: &Option<String>) -> (r: Option<String>)
    ensures
        r == *s,
{
    match s {
        Some(v) => Some(v.clone()),
        None => None,
    }
}

/// Whether two string slices hold the same characters.
pub fn str_eq(a: &str, b: &str) -> (r: bool)
    ensures
        r == (a@ == b@),
{
    let x = str_chars(a);
    let y = str_chars(b);
    chars_eq(&x, &y)
}

// ---------------------------------------------------------------------------
// Decimal numbers
// ---------------------------------------------------------------------------

/// Value of a non-empty run of ASCII digits.
pub open spec fn digits_value(s: Seq<char>) -> nat
    decreases s.len(),
{
    if s.len() == 0 {
        0
    } else {
        digits_value(s.drop_last()) * 10 + ((s.last() as u32) - ('0' as u32)) as nat
    }
}

/// All characters are ASCII digits.
pub open spec fn all_digits(s: Seq<char>) -> bool {
    forall|i: int| 0 <= i < s.len() ==> is_ascii_digit(#[trigger] s[i])
}

/// The digits of a decimal number text: what follows an optional leading `+`.
pub open spec fn unsigned_digits(s: Seq<char>) -> Seq<char> {
    if s.len() > 0 && s[0] == '+' {
        s.drop_first()
    } else {
        s
    }
}

/// What `from_str` of an unsigned integer type whose largest value is `max` accepts: an
/// optional `+`, then one or more ASCII digits whose value is at most `max`.
pub open spec fn parse_unsigned_spec(s: Seq<char>, max: nat) -> Option<nat> {
    let d = unsigned_digits(s);
    if d.len() > 0 && all_digits(d) && digits_value(d) <= max {
        Some(digits_value(d))
    } else {
        None
    }
}

/// What `u16::from_str` accepts.
pub open spec fn parse_u16_spec(s: Seq<char>) -> Option<u16> {
    match parse_unsigned_spec(s, u16::MAX as nat) {
        Some(n) => Some(n as u16),
        None => None,
    }
}

/// What `u64::from_str` accepts.
pub open spec fn parse_u64_spec(s: Seq<char>) -> Option<u64> {
    match parse_unsigned_spec(s, u64::MAX as nat) {
        Some(n) => Some(n as u64),
        None => None,
    }
}

/// Parses a decimal number no larger than `max`, as `from_str` of an unsigned type does.
pub fn parse_unsigned(s: &str, max: u64) -> (r: Option<u64>)
    ensures
        match (r, parse_unsigned_spec(s@, max as nat)) {
            (Some(x), Some(y)) => x == y,
            (None, None) => true,
            _ => false,
        },
{
    let v = str_chars(s);
    let start: usize = if v.len() > 0 && v[0] == '+' {
        1
    } else {
        0
    };
    let ghost d = unsigned_digits(s@);
    assert(d =~= v@.skip(start as int));
    if start >= v.len() {
        return None;
    }
    let mut value: u128 = 0;
    let mut i: usize = start;
    while i < v.len()
        invariant
            start <= i <= v.len(),
            v@ == s@,
            d == unsigned_digits(s@),
            d =~= v@.skip(start as int),
            all_digits(v@.subrange(start as int, i as int)),
            value == digits_value(v@.subrange(start as int, i as int)),
            value <= max,
        decreases v.len() - i,
    {
        let c = v[i];
        assert(v@.subrange(start as int, i + 1).drop_last() =~= v@.subrange(start as int, i as int));
        assert(v@.subrange(start as int, i + 1).last() == c);
        if !char_is_ascii_digit(c) {
            assert(!all_digits(d)) by {
                assert(d[i - start] == c);
            }
            return None;
        }
        let digit: u128 = ((c as u32) - ('0' as u32)) as u128;
        let next: u128 = value * 10 + digit;
        if next > max as u128 {
            proof {
                let full = v@.subrange(start as int, i + 1);
                assert forall|j: int| 0 <= j < full.len() implies is_ascii_digit(#[trigger] full[j]) by {
                    if j < full.len() - 1 {
                        assert(full[j] == v@.subrange(start as int, i as int)[j]);
                    }
                }
                assert(d.take(i + 1 - start) =~= full);
                assert(digits_value(full) == next);
                lemma_digits_prefix_bound(d, (i + 1 - start) as int);
            }
            return None;
        }
        value = next;
        i += 1;
        assert forall|j: int| 0 <= j < v@.subrange(start as int, i as int).len() implies is_ascii_digit(
            #[trigger] v@.subrange(start as int, i as int)[j],
        ) by {
            if j < i - 1 - start {
                assert(v@.subrange(start as int, i as int)[j] == v@.subrange(start as int, i - 1)[j]);
            }
        }
    }
    assert(v@.subrange(start as int, v.len() as int) =~= d);
    Some(value as u64)
}

/// Parses a decimal `u16` the way `u16::from_str` does.
pub fn parse_u16(s: &str) -> (r: Option<u16>)
    ensures
        r == parse_u16_spec(s@),
{
    match parse_unsigned(s, 65535) {
        Some(x) => Some(x as u16),
        None => None,
    }
}

/// Parses a decimal `u64` the way `u64::from_str` does.
pub fn parse_u64(s: &str) -> (r: Option<u64>)
    ensures
        r == parse_u64_spec(s@),
{
    parse_unsigned(s, 0xffff_ffff_ffff_ffff)
}

/// The value of a digit string is at least the value of any of its prefixes.
pub proof fn lemma_digits_prefix_bound(d: Seq<char>, n: int)
    requires
        0 <= n <= d.len(),
        all_digits(d.take(n)),
        all_digits(d) || n == d.len() || true,
    ensures
        all_digits(d) ==> digits_value(d) >= digits_value(d.take(n)),
    decreases d.len(),
{
    if all_digits(d) && n < d.len() {
        assert(d.drop_last().take(n) =~= d.take(n));
        assert forall|j: int| 0 <= j < d.drop_last().len() implies is_ascii_digit(
            #[trigger] d.drop_last()[j],
        ) by {
            assert(d.drop_last()[j] == d[j]);
        }
        lemma_digits_prefix_bound(d.drop_last(), n);
    } else if n == d.len() {
        assert(d.take(n) =~= d);
    }
}


// ---------------------------------------------------------------------------
// Decimal formatting
// ---------------------------------------------------------------------------

/// The ASCII digit for `d` (below ten).
pub open spec fn digit_char(d: int) -> char {
    (('0' as int) + d) as char
}

/// The decimal digits of `n`, as `Display` writes them.
pub open spec fn decimal(n: nat) -> Seq<char>
    decreases n,
{
    if n < 10 {
        seq![digit_char(n as int)]
    } else {
        decimal(n / 10).push(digit_char((n % 10) as int))
    }
}

/// A signed integer as `Display` writes it: a `-` before the digits of a negative one.
pub open spec fn signed_decimal(n: int) -> Seq<char> {
    if n < 0 {
        seq!['-'] + decimal((-n) as nat)
    } else {
        decimal(n as nat)
    }
}

fn decimal_chars(n: u64) -> (r: Vec<char>)
    ensures
        r@ == decimal(n as nat),
    decreases n,
{
    let d: u8 = (n % 10) as u8;
    let c: char = (d + 48) as char;
    if n < 10 {
        let mut v: Vec<char> = Vec::new();
        v.push(c);
        assert(v@ =~= seq![digit_char(n as int)]);
        v
    } else {
        let mut v = decimal_chars(n / 10);
        v.push(c);
        v
    }
}

/// An unsigned integer in decimal.
pub fn u64_to_decimal(n: u64) -> (r: String)
    ensures
        r@ == decimal(n as nat),
{
    let v = decimal_chars(n);
    string_of(&v)
}

/// A signed integer in decimal.
pub fn i64_to_decimal(n: i64) -> (r: String)
    ensures
        r@ == signed_decimal(n as int),
{
    if n < 0 {
        let m: u64 = ((-(n + 1)) as u64) + 1;
        let mut v: Vec<char> = Vec::new();
        v.push('-');
        let w = decimal_chars(m);
        append_chars(&mut v, &w);
        string_of(&v)
    } else {
        let v = decimal_chars(n as u64);
        string_of(&v)
    }
}

} // verus!
