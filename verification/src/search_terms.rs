//! Search terms for album lookups: splitting "Artist - Title" strings, cleaning up
//! recognised terms, and collecting terms without duplicates.
use vstd::prelude::*;

use crate::normalize::{normalize_chars, spec_normalize};
use crate::text::{
    all_digits, append_chars, char_is_ascii_digit, chars_eq, find, find_exec, is_ascii_digit,
    join, join_exec, lemma_find_from_facts, replace, replace_exec, slice_chars, str_chars,
    string_of, trim, trim_exec, trim_ws, trim_ws_exec, utf8_len, utf8_length, words, words_exec,
    CharClass,
};

verus! {

/// The characters of each string.
pub open spec fn strs(v: Seq<String>) -> Seq<Seq<char>> {
    v.map_values(|s: String| s@)
}

/// The text before and after the first occurrence of `sep` (`str::split_once`).
pub open spec fn split_once(s: Seq<char>, sep: Seq<char>) -> Option<(Seq<char>, Seq<char>)> {
    match find(s, sep) {
        Some(j) => Some((s.take(j), s.skip(j + sep.len()))),
        None => None,
    }
}

/// Both sides of the first `sep`, trimmed, when each has at least two bytes.
pub open spec fn split_on(s: Seq<char>, sep: Seq<char>) -> Option<(Seq<char>, Seq<char>)> {
    match split_once(s, sep) {
        Some((l, r)) => if utf8_len(trim_ws(l)) >= 2 && utf8_len(trim_ws(r)) >= 2 {
            Some((trim_ws(l), trim_ws(r)))
        } else {
            None
        },
        None => None,
    }
}

/// The artist and title that a term names: "Artist - Title" with a hyphen, en dash or em
/// dash, or "Title by Artist".
pub open spec fn artist_title_of(s: Seq<char>) -> Option<(Seq<char>, Seq<char>)> {
    if split_on(s, " - "@) is Some {
        split_on(s, " - "@)
    } else if split_on(s, " – "@) is Some {
        split_on(s, " – "@)
    } else if split_on(s, " — "@) is Some {
        split_on(s, " — "@)
    } else {
        match split_on(s, " by "@) {
            Some((title, artist)) => Some((artist, title)),
            None => None,
        }
    }
}

/// Both sides of the first `sep`, trimmed, when each has at least two bytes.
fn split_on_exec(s: &Vec<char>, sep: &str) -> (r: Option<(Vec<char>, Vec<char>)>)
    ensures
        match (r, split_on(s@, sep@)) {
            (Some((a, b)), Some((x, y))) => a@ == x && b@ == y,
            (None, None) => true,
            _ => false,
        },
{
    let sep_chars = str_chars(sep);
    let j = match find_exec(s, &sep_chars) {
        Some(j) => j,
        None => return None,
    };
    proof {
        lemma_find_from_facts(s@, sep_chars@, 0);
        assert(crate::text::occurs_at(s@, sep_chars@, j as int));
        assert(j + sep_chars@.len() <= s@.len());
    }
    let n: usize = s.len();
    let after: usize = j + sep_chars.len();
    let left = slice_chars(s, 0, j);
    let right = slice_chars(s, after, s.len());
    assert(left@ =~= s@.take(j as int));
    assert(right@ =~= s@.skip(j + sep_chars@.len()));
    let l = trim_ws_exec(&left);
    let r = trim_ws_exec(&right);
    if utf8_length(&l) >= 2 && utf8_length(&r) >= 2 {
        Some((l, r))
    } else {
        None
    }
}

/// The artist and title that a term names, as characters.
pub fn artist_title_chars(s: &Vec<char>) -> (r: Option<(Vec<char>, Vec<char>)>)
    ensures
        match (r, artist_title_of(s@)) {
            (Some((a, b)), Some((x, y))) => a@ == x && b@ == y,
            (None, None) => true,
            _ => false,
        },
{
    if let Some(p) = split_on_exec(s, " - ") {
        return Some(p);
    }
    if let Some(p) = split_on_exec(s, " – ") {
        return Some(p);
    }
    if let Some(p) = split_on_exec(s, " — ") {
        return Some(p);
    }
    match split_on_exec(s, " by ") {
        Some((title, artist)) => Some((artist, title)),
        None => None,
    }
}

/// Splits "Artist - Title" (hyphen, en dash or em dash) or "Title by Artist" into the trimmed
/// artist and title, each at least two bytes long.
pub fn split_artist_title(value: &str) -> (r: Option<(String, String)>)
    ensures
        match (r, artist_title_of(value@)) {
            (Some((a, b)), Some((x, y))) => a@ == x && b@ == y,
            (None, None) => true,
            _ => false,
        },
{
    let v = str_chars(value);
    match artist_title_chars(&v) {
        Some((a, t)) => Some((string_of(&a), string_of(&t))),
        None => None,
    }
}

/// A term is worth searching for: at least three bytes once trimmed, not only digits, and
/// at least three characters in its matching key.
pub open spec fn acceptable_term(t: Seq<char>) -> bool {
    utf8_len(t) >= 3 && !all_digits(t) && utf8_len(spec_normalize(t)) >= 3
}

/// `existing` already stands for `term`: same matching key, unless `term` names an artist and
/// title while `existing` does not (then `term` is more precise and is kept too).
pub open spec fn duplicates(existing: Seq<char>, term: Seq<char>) -> bool {
    spec_normalize(existing) == spec_normalize(term) && !(artist_title_of(term) is Some
        && artist_title_of(existing) is None)
}

/// The terms after offering `term`: its trimmed form is appended when acceptable and not a
/// duplicate of a term already collected.
pub open spec fn pushed_terms(terms: Seq<Seq<char>>, term: Seq<char>) -> Seq<Seq<char>> {
    let t = trim_ws(term);
    if acceptable_term(t) && !(exists|i: int| 0 <= i < terms.len() && duplicates(#[trigger] terms[i], t)) {
        terms.push(t)
    } else {
        terms
    }
}

/// Whether all characters are ASCII digits.
pub fn all_digits_exec(s: &Vec<char>) -> (r: bool)
    ensures
        r == all_digits(s@),
{
    let mut i: usize = 0;
    while i < s.len()
        invariant
            i <= s.len(),
            forall|k: int| 0 <= k < i ==> is_ascii_digit(#[trigger] s@[k]),
        decreases s.len() - i,
    {
        if !char_is_ascii_digit(s[i]) {
            return false;
        }
        i += 1;
    }
    true
}

/// Offers a term to a list of search terms: it is trimmed and appended unless it is too
/// short, only digits, or a duplicate of a collected term.
pub fn push_search_term(terms: &mut Vec<String>, term: String)
    ensures
        strs(final(terms)@) == pushed_terms(strs(old(terms)@), term@),
{
    let raw = str_chars(term.as_str());
    let t = trim_ws_exec(&raw);
    if utf8_length(&t) < 3 || all_digits_exec(&t) {
        return;
    }
    let t_string = string_of(&t);
    let normalized = normalize_chars(t_string.as_str());
    let has_separator = artist_title_chars(&t).is_some();
    let mut i: usize = 0;
    let ghost old_strs = strs(terms@);
    while i < terms.len()
        invariant
            i <= terms.len(),
            old_strs == strs(terms@),
            normalized@ == spec_normalize(t@),
            has_separator == artist_title_of(t@) is Some,
            forall|k: int| 0 <= k < i ==> !duplicates(#[trigger] old_strs[k], t@),
            t@ == trim_ws(term@),
        decreases terms.len() - i,
    {
        assert(old_strs[i as int] == terms@[i as int]@);
        let existing_key = normalize_chars(terms[i].as_str());
        if chars_eq(&existing_key, &normalized) {
            let existing_chars = str_chars(terms[i].as_str());
            let existing_has_separator = artist_title_chars(&existing_chars).is_some();
            if !(has_separator && !existing_has_separator) {
                assert(duplicates(old_strs[i as int], t@));
                assert(t@ == trim_ws(term@));
                assert(exists|k: int| 0 <= k < old_strs.len() && duplicates(#[trigger] old_strs[k], trim_ws(term@)));
                assert(strs(terms@) == old_strs);
                return;
            }
        }
        i += 1;
    }
    if utf8_length(&normalized) < 3 {
        return;
    }
    terms.push(t_string);
    assert(strs(terms@) =~= old_strs.push(t@));
}

/// The terms after offering each of `items` in order.
pub open spec fn push_all(terms: Seq<Seq<char>>, items: Seq<Seq<char>>) -> Seq<Seq<char>>
    decreases items.len(),
{
    if items.len() == 0 {
        terms
    } else {
        pushed_terms(push_all(terms, items.drop_last()), items.last())
    }
}

/// Collected search terms never repeat one another: every term is acceptable, and no term
/// is a duplicate of one collected before it, however the terms were offered.
pub proof fn collected_terms_are_distinct(items: Seq<Seq<char>>)
    ensures
        forall|i: int| 0 <= i < push_all(seq![], items).len() ==> acceptable_term(
            #[trigger] push_all(seq![], items)[i],
        ),
        forall|i: int, j: int|
            0 <= i < j < push_all(seq![], items).len() ==> !duplicates(
                #[trigger] push_all(seq![], items)[i],
                #[trigger] push_all(seq![], items)[j],
            ),
    decreases items.len(),
{
    if items.len() > 0 {
        collected_terms_are_distinct(items.drop_last());
        let prev = push_all(seq![], items.drop_last());
        let cur = push_all(seq![], items);
        let t = trim_ws(items.last());
        if cur != prev {
            assert(cur == prev.push(t));
            assert forall|i: int| 0 <= i < cur.len() implies acceptable_term(#[trigger] cur[i]) by {
                if i < prev.len() {
                    assert(cur[i] == prev[i]);
                }
            }
            assert forall|i: int, j: int| 0 <= i < j < cur.len() implies !duplicates(
                #[trigger] cur[i],
                #[trigger] cur[j],
            ) by {
                assert(cur[i] == prev[i]);
                if j < prev.len() {
                    assert(cur[j] == prev[j]);
                } else {
                    assert(cur[j] == t);
                    if duplicates(prev[i], t) {
                        assert(exists|k: int| 0 <= k < prev.len() && duplicates(#[trigger] prev[k], t));
                    }
                }
            }
        }
    }
}

/// The terms after offering each of `items` in order, stopping once `limit` terms are held.
pub open spec fn push_all_until(terms: Seq<Seq<char>>, items: Seq<Seq<char>>, limit: nat) -> Seq<
    Seq<char>,
>
    decreases items.len(),
{
    if items.len() == 0 {
        terms
    } else {
        let prev = push_all_until(terms, items.drop_last(), limit);
        if prev.len() >= limit {
            prev
        } else {
            pushed_terms(prev, items.last())
        }
    }
}

/// At most the first `n` items.
pub open spec fn first_n<T>(s: Seq<T>, n: nat) -> Seq<T> {
    if s.len() <= n {
        s
    } else {
        s.take(n as int)
    }
}

/// A copy of a list of strings.
pub fn copy_strings(v: &Vec<String>) -> (r: Vec<String>)
    ensures
        strs(r@) == strs(v@),
{
    let mut out: Vec<String> = Vec::new();
    let mut i: usize = 0;
    while i < v.len()
        invariant
            i <= v.len(),
            strs(out@) == strs(v@).take(i as int),
        decreases v.len() - i,
    {
        let ghost before = strs(out@);
        out.push(v[i].clone());
        assert(strs(out@) =~= before.push(v@[i as int]@));
        i += 1;
        assert(strs(v@).take(i as int) =~= strs(v@).take(i - 1).push(v@[i - 1]@));
    }
    assert(strs(v@).take(v.len() as int) =~= strs(v@));
    out
}

/// Keeps at most the first `n` strings.
pub fn truncate_strings(v: &mut Vec<String>, n: usize)
    ensures
        strs(final(v)@) == first_n(strs(old(v)@), n as nat),
{
    if v.len() > n {
        v.truncate(n);
        assert(strs(v@) =~= strs(old(v)@).take(n as int));
    }
}

/// Offers each of `items`, in order, to the terms.
pub fn push_all_exec(terms: &mut Vec<String>, items: &Vec<String>)
    ensures
        strs(final(terms)@) == push_all(strs(old(terms)@), strs(items@)),
{
    let ghost start = strs(terms@);
    let mut i: usize = 0;
    while i < items.len()
        invariant
            i <= items.len(),
            strs(terms@) == push_all(start, strs(items@).take(i as int)),
        decreases items.len() - i,
    {
        assert(strs(items@).take(i + 1).drop_last() =~= strs(items@).take(i as int));
        assert(strs(items@).take(i + 1).last() == items@[i as int]@);
        push_search_term(terms, items[i].clone());
        i += 1;
    }
    assert(strs(items@).take(items.len() as int) =~= strs(items@));
}

/// Offers each of `items`, in order, to the terms, stopping once `limit` terms are held.
pub fn push_all_until_exec(terms: &mut Vec<String>, items: &Vec<String>, limit: usize)
    ensures
        strs(final(terms)@) == push_all_until(strs(old(terms)@), strs(items@), limit as nat),
{
    let ghost start = strs(terms@);
    let mut i: usize = 0;
    while i < items.len()
        invariant
            i <= items.len(),
            strs(terms@) == push_all_until(start, strs(items@).take(i as int), limit as nat),
        decreases items.len() - i,
    {
        assert(strs(items@).take(i + 1).drop_last() =~= strs(items@).take(i as int));
        assert(strs(items@).take(i + 1).last() == items@[i as int]@);
        if terms.len() < limit {
            push_search_term(terms, items[i].clone());
        }
        i += 1;
    }
    assert(strs(items@).take(items.len() as int) =~= strs(items@));
}

/// `s` without HTML tags: characters from a `<` up to the next `>` are dropped.
pub open spec fn strip_tags(s: Seq<char>) -> Seq<char>
    decreases s.len(),
{
    if s.len() == 0 {
        seq![]
    } else {
        let rest = strip_tags(s.drop_last());
        let c = s.last();
        if c == '<' || c == '>' || in_tag_after(s.drop_last()) {
            rest
        } else {
            rest.push(c)
        }
    }
}

/// Whether a tag is open after reading `s`.
pub open spec fn in_tag_after(s: Seq<char>) -> bool
    decreases s.len(),
{
    if s.len() == 0 {
        false
    } else if s.last() == '<' {
        true
    } else if s.last() == '>' {
        false
    } else {
        in_tag_after(s.drop_last())
    }
}

/// The characters of `s` outside HTML tags.
pub fn strip_tags_exec(s: &Vec<char>) -> (r: Vec<char>)
    ensures
        r@ == strip_tags(s@),
{
    let mut out: Vec<char> = Vec::new();
    let mut in_tag = false;
    let mut i: usize = 0;
    while i < s.len()
        invariant
            i <= s.len(),
            out@ == strip_tags(s@.take(i as int)),
            in_tag == in_tag_after(s@.take(i as int)),
        decreases s.len() - i,
    {
        let c = s[i];
        assert(s@.take(i + 1).drop_last() =~= s@.take(i as int));
        assert(s@.take(i + 1).last() == c);
        if c == '<' {
            in_tag = true;
        } else if c == '>' {
            in_tag = false;
        } else if !in_tag {
            out.push(c);
        }
        i += 1;
    }
    assert(s@.take(s.len() as int) =~= s@);
    out
}

/// Removes HTML tags from a string.
pub fn strip_html_tags(value: &str) -> (r: String)
    ensures
        r@ == strip_tags(value@),
{
    let v = str_chars(value);
    string_of(&strip_tags_exec(&v))
}

/// `s` with every occurrence of the literal `p` replaced by `rep`.
fn replace_lit(s: &Vec<char>, p: &str, rep: &str) -> (r: Vec<char>)
    ensures
        r@ == replace(s@, p@, rep@),
{
    let pv = str_chars(p);
    let rv = str_chars(rep);
    replace_exec(s, &pv, &rv)
}

/// A recognised term without the page-title suffixes that image search engines add.
pub open spec fn without_page_suffixes(s: Seq<char>) -> Seq<char> {
    let a = replace(s, " - Wikipedia"@, ""@);
    let b = replace(a, " | Discogs"@, ""@);
    let c = replace(b, " | MusicBrainz"@, ""@);
    let d = replace(c, " album cover"@, ""@);
    let e = replace(d, " Album Cover"@, ""@);
    let f = replace(e, " cover art"@, ""@);
    replace(f, " Cover Art"@, ""@)
}

/// A recognised term cleaned for searching: tags and page-title suffixes removed, white
/// space collapsed to single spaces, and non-alphanumeric characters trimmed from both ends.
pub open spec fn cleaned_reverse_image_term(term: Seq<char>) -> Seq<char> {
    trim(
        join(words(without_page_suffixes(strip_tags(term))), " "@),
        CharClass::NotAlphanumeric,
    )
}

/// Cleans a recognised album term for searching.
pub fn cleanup_reverse_image_term(term: &str) -> (r: String)
    ensures
        r@ == cleaned_reverse_image_term(term@),
{
    let v = str_chars(term);
    let s0 = strip_tags_exec(&v);
    let s1 = replace_lit(&s0, " - Wikipedia", "");
    let s2 = replace_lit(&s1, " | Discogs", "");
    let s3 = replace_lit(&s2, " | MusicBrainz", "");
    let s4 = replace_lit(&s3, " album cover", "");
    let s5 = replace_lit(&s4, " Album Cover", "");
    let s6 = replace_lit(&s5, " cover art", "");
    let s7 = replace_lit(&s6, " Cover Art", "");
    let ws = words_exec(&s7);
    let space = str_chars(" ");
    let joined = join_exec(&ws, &space);
    let trimmed = trim_exec(&joined, &CharClass::NotAlphanumeric);
    string_of(&trimmed)
}

/// The cleaned form of each recognised term.
pub open spec fn cleaned_terms(raw: Seq<Seq<char>>) -> Seq<Seq<char>>
    decreases raw.len(),
{
    if raw.len() == 0 {
        seq![]
    } else {
        cleaned_terms(raw.drop_last()).push(cleaned_reverse_image_term(raw.last()))
    }
}

/// The cleaned forms of the recognised terms, each offered in order, at most twelve kept.
pub open spec fn reverse_image_terms_of(raw: Seq<Seq<char>>) -> Seq<Seq<char>> {
    first_n(push_all(seq![], cleaned_terms(raw)), 12)
}

/// Cleans and de-duplicates the terms that image recognition produced, keeping at most twelve.
pub fn reverse_image_search_terms(raw_terms: Vec<String>) -> (r: Vec<String>)
    ensures
        strs(r@) == reverse_image_terms_of(strs(raw_terms@)),
{
    let mut cleaned: Vec<String> = Vec::new();
    let mut i: usize = 0;
    while i < raw_terms.len()
        invariant
            i <= raw_terms.len(),
            strs(cleaned@) == cleaned_terms(strs(raw_terms@).take(i as int)),
        decreases raw_terms.len() - i,
    {
        let ghost before = strs(cleaned@);
        cleaned.push(cleanup_reverse_image_term(raw_terms[i].as_str()));
        assert(strs(raw_terms@).take(i + 1).drop_last() =~= strs(raw_terms@).take(i as int));
        assert(strs(raw_terms@).take(i + 1).last() == raw_terms@[i as int]@);
        assert(strs(cleaned@) =~= before.push(cleaned_reverse_image_term(raw_terms@[i as int]@)));
        i += 1;
    }
    assert(strs(raw_terms@).take(raw_terms.len() as int) =~= strs(raw_terms@));
    let mut terms: Vec<String> = Vec::new();
    assert(strs(terms@) =~= Seq::<Seq<char>>::empty());
    push_all_exec(&mut terms, &cleaned);
    truncate_strings(&mut terms, 12);
    terms
}

/// A phrase escaped for a Lucene query: backslashes doubled, then quotes escaped.
pub open spec fn escaped_phrase(value: Seq<char>) -> Seq<char> {
    replace(replace(value, "\\"@, "\\\\"@), "\""@, "\\\""@)
}

/// Escapes a phrase for a quoted Lucene query term.
pub fn escape_lucene_phrase(value: &str) -> (r: String)
    ensures
        r@ == escaped_phrase(value@),
{
    let v = str_chars(value);
    let a = replace_lit(&v, "\\", "\\\\");
    let b = replace_lit(&a, "\"", "\\\"");
    string_of(&b)
}

/// The MusicBrainz query for a release group `title` by `artist`.
pub open spec fn release_group_query(title: Seq<char>, artist: Seq<char>) -> Seq<char> {
    "releasegroup:\""@ + escaped_phrase(title) + "\" AND artist:\""@ + escaped_phrase(artist)
        + "\""@
}

/// Builds the MusicBrainz query for a release group `title` by `artist`.
pub fn release_group_query_exec(title: &str, artist: &str) -> (r: String)
    ensures
        r@ == release_group_query(title@, artist@),
{
    let mut v = str_chars("releasegroup:\"");
    append_chars(&mut v, &str_chars(escape_lucene_phrase(title).as_str()));
    append_chars(&mut v, &str_chars("\" AND artist:\""));
    append_chars(&mut v, &str_chars(escape_lucene_phrase(artist).as_str()));
    append_chars(&mut v, &str_chars("\""));
    string_of(&v)
}

/// The release-group queries for a term that names an artist and title: both readings.
pub open spec fn artist_title_queries(term: Seq<char>) -> Seq<Seq<char>> {
    match artist_title_of(term) {
        Some((artist, title)) => seq![
            release_group_query(title, artist),
            release_group_query(artist, title),
        ],
        None => seq![],
    }
}

/// The artist/title queries of each term, in order.
pub open spec fn all_artist_title_queries(terms: Seq<Seq<char>>) -> Seq<Seq<char>>
    decreases terms.len(),
{
    if terms.len() == 0 {
        seq![]
    } else {
        all_artist_title_queries(terms.drop_last()) + artist_title_queries(terms.last())
    }
}

/// The MusicBrainz queries for recognised terms: the first eight terms themselves, then both
/// artist/title readings of the first six, de-duplicated, at most twelve.
pub open spec fn reverse_image_queries_of(terms: Seq<Seq<char>>) -> Seq<Seq<char>> {
    let plain = push_all(seq![], first_n(terms, 8));
    push_all_until(seq![], plain + all_artist_title_queries(first_n(terms, 6)), 12)
}

/// Appends the artist/title queries of each of the first `n` terms.
fn push_artist_title_queries(queries: &mut Vec<String>, terms: &Vec<String>, n: usize)
    ensures
        strs(final(queries)@) == strs(old(queries)@) + all_artist_title_queries(
            first_n(strs(terms@), n as nat),
        ),
{
    let limit = if terms.len() < n {
        terms.len()
    } else {
        n
    };
    assert(first_n(strs(terms@), n as nat) =~= strs(terms@).take(limit as int));
    let ghost start = strs(queries@);
    let mut i: usize = 0;
    while i < limit
        invariant
            i <= limit <= terms.len(),
            strs(queries@) == start + all_artist_title_queries(strs(terms@).take(i as int)),
        decreases limit - i,
    {
        assert(strs(terms@).take(i + 1).drop_last() =~= strs(terms@).take(i as int));
        assert(strs(terms@).take(i + 1).last() == terms@[i as int]@);
        let ghost before = strs(queries@);
        let t = str_chars(terms[i].as_str());
        match artist_title_chars(&t) {
            Some((artist, title)) => {
                let a = string_of(&artist);
                let b = string_of(&title);
                queries.push(release_group_query_exec(b.as_str(), a.as_str()));
                queries.push(release_group_query_exec(a.as_str(), b.as_str()));
                assert(strs(queries@) =~= before + artist_title_queries(terms@[i as int]@));
            },
            None => {
                assert(artist_title_queries(terms@[i as int]@) =~= Seq::<Seq<char>>::empty());
                assert(strs(queries@) =~= before + artist_title_queries(terms@[i as int]@));
            },
        }
        i += 1;
        assert(strs(queries@) =~= start + all_artist_title_queries(strs(terms@).take(i as int)));
    }
}

/// Keeps the first `n` strings of a list (all of them when there are fewer).
fn first_strings(v: &Vec<String>, n: usize) -> (r: Vec<String>)
    ensures
        strs(r@) == first_n(strs(v@), n as nat),
{
    let mut c = copy_strings(v);
    truncate_strings(&mut c, n);
    c
}

/// The MusicBrainz queries to try for terms recognised on a cover.
pub fn reverse_image_musicbrainz_queries(terms: &Vec<String>) -> (r: Vec<String>)
    ensures
        strs(r@) == reverse_image_queries_of(strs(terms@)),
{
    let mut queries: Vec<String> = Vec::new();
    assert(strs(queries@) =~= Seq::<Seq<char>>::empty());
    let first8 = first_strings(terms, 8);
    push_all_exec(&mut queries, &first8);
    push_artist_title_queries(&mut queries, terms, 6);
    let mut deduped: Vec<String> = Vec::new();
    assert(strs(deduped@) =~= Seq::<Seq<char>>::empty());
    push_all_until_exec(&mut deduped, &queries, 12);
    deduped
}

/// `"`, `“` or `”`.
pub open spec fn is_quote(c: char) -> bool {
    c == '"' || c == '“' || c == '”'
}

/// After reading `s`: the quoted terms collected so far, the text of the quote being read,
/// and whether a quote is open. A closing quote offers the quoted text as a term.
pub open spec fn quote_scan(s: Seq<char>) -> (Seq<Seq<char>>, Seq<char>, bool)
    decreases s.len(),
{
    if s.len() == 0 {
        (seq![], seq![], false)
    } else {
        let (q, cur, open) = quote_scan(s.drop_last());
        let c = s.last();
        if is_quote(c) {
            if open {
                (pushed_terms(q, cur), seq![], false)
            } else {
                (q, cur, true)
            }
        } else if open {
            (q, cur.push(c), open)
        } else {
            (q, cur, open)
        }
    }
}

/// Search terms from free text: the quoted phrases, preceded (when there are at least two)
/// by the first four joined with spaces.
pub open spec fn quoted_terms_of(s: Seq<char>) -> Seq<Seq<char>> {
    let quoted = quote_scan(s).0;
    let first = if quoted.len() >= 2 {
        pushed_terms(seq![], join(first_n(quoted, 4), " "@))
    } else {
        seq![]
    };
    push_all(first, quoted)
}

/// The views of the strings in a list, as character vectors.
pub fn strings_to_chars(v: &Vec<String>) -> (r: Vec<Vec<char>>)
    ensures
        crate::text::views(r@) == strs(v@),
{
    let mut out: Vec<Vec<char>> = Vec::new();
    let mut i: usize = 0;
    while i < v.len()
        invariant
            i <= v.len(),
            crate::text::views(out@) == strs(v@).take(i as int),
        decreases v.len() - i,
    {
        let ghost before = crate::text::views(out@);
        out.push(str_chars(v[i].as_str()));
        assert(crate::text::views(out@) =~= before.push(v@[i as int]@));
        i += 1;
        assert(strs(v@).take(i as int) =~= strs(v@).take(i - 1).push(v@[i - 1]@));
    }
    assert(strs(v@).take(v.len() as int) =~= strs(v@));
    out
}

/// Search terms from text that is not JSON: the quoted phrases, preceded by their combination.
pub fn quoted_terms_from_text(value: &str) -> (r: Vec<String>)
    ensures
        strs(r@) == quoted_terms_of(value@),
{
    let v = str_chars(value);
    let mut quoted: Vec<String> = Vec::new();
    let mut current: Vec<char> = Vec::new();
    let mut in_quote = false;
    let mut i: usize = 0;
    assert(strs(quoted@) =~= Seq::<Seq<char>>::empty());
    while i < v.len()
        invariant
            i <= v.len(),
            v@ == value@,
            quote_scan(v@.take(i as int)) == (strs(quoted@), current@, in_quote),
        decreases v.len() - i,
    {
        let c = v[i];
        assert(v@.take(i + 1).drop_last() =~= v@.take(i as int));
        assert(v@.take(i + 1).last() == c);
        if c == '"' || c == '“' || c == '”' {
            if in_quote {
                push_search_term(&mut quoted, string_of(&current));
                current = Vec::new();
                assert(current@ =~= Seq::<char>::empty());
                in_quote = false;
            } else {
                in_quote = true;
            }
        } else if in_quote {
            current.push(c);
        }
        i += 1;
    }
    assert(v@.take(v.len() as int) =~= v@);
    let mut terms: Vec<String> = Vec::new();
    assert(strs(terms@) =~= Seq::<Seq<char>>::empty());
    if quoted.len() >= 2 {
        let first4 = first_strings(&quoted, 4);
        let parts = strings_to_chars(&first4);
        let space = str_chars(" ");
        let joined = join_exec(&parts, &space);
        push_search_term(&mut terms, string_of(&joined));
    }
    push_all_exec(&mut terms, &quoted);
    terms
}

/// The matching keys of the pieces, keeping those of at least four bytes.
pub open spec fn keys_of_len4(pieces: Seq<Seq<char>>) -> Seq<Seq<char>>
    decreases pieces.len(),
{
    if pieces.len() == 0 {
        seq![]
    } else {
        let rest = keys_of_len4(pieces.drop_last());
        let k = spec_normalize(pieces.last());
        if utf8_len(k) >= 4 {
            rest.push(k)
        } else {
            rest
        }
    }
}

/// The meaningful tokens of a text: the matching keys of its alphanumeric runs that have at
/// least four characters.
pub open spec fn meaningful_tokens_of(value: Seq<char>) -> Seq<Seq<char>> {
    keys_of_len4(crate::text::split_by(value, CharClass::NotAlphanumeric))
}

/// The meaningful tokens of a text.
pub fn meaningful_tokens(value: &str) -> (r: Vec<String>)
    ensures
        strs(r@) == meaningful_tokens_of(value@),
{
    let v = str_chars(value);
    let pieces = crate::text::split_exec(&v, &CharClass::NotAlphanumeric);
    let mut out: Vec<String> = Vec::new();
    let mut i: usize = 0;
    let ghost pv = crate::text::views(pieces@);
    assert(strs(out@) =~= Seq::<Seq<char>>::empty());
    while i < pieces.len()
        invariant
            i <= pieces.len(),
            pv == crate::text::views(pieces@),
            strs(out@) == keys_of_len4(pv.take(i as int)),
        decreases pieces.len() - i,
    {
        assert(pv.take(i + 1).drop_last() =~= pv.take(i as int));
        assert(pv.take(i + 1).last() == pieces@[i as int]@);
        let key = crate::normalize::normalize_vec(&pieces[i]);
        if utf8_length(&key) >= 4 {
            let ghost before = strs(out@);
            out.push(string_of(&key));
            assert(strs(out@) =~= before.push(key@));
        }
        i += 1;
    }
    assert(pv.take(pieces.len() as int) =~= pv);
    out
}

/// The fragments of recognised terms: each term, and the artist and title it names.
pub open spec fn fragments_of(terms: Seq<Seq<char>>) -> Seq<Seq<char>>
    decreases terms.len(),
{
    if terms.len() == 0 {
        seq![]
    } else {
        let f = pushed_terms(fragments_of(terms.drop_last()), terms.last());
        match artist_title_of(terms.last()) {
            Some((l, r)) => pushed_terms(pushed_terms(f, l), r),
            None => f,
        }
    }
}

/// The fragments of recognised terms.
pub fn cover_term_fragments(terms: &Vec<String>) -> (r: Vec<String>)
    ensures
        strs(r@) == fragments_of(strs(terms@)),
{
    let mut fragments: Vec<String> = Vec::new();
    let mut i: usize = 0;
    assert(strs(fragments@) =~= Seq::<Seq<char>>::empty());
    while i < terms.len()
        invariant
            i <= terms.len(),
            strs(fragments@) == fragments_of(strs(terms@).take(i as int)),
        decreases terms.len() - i,
    {
        assert(strs(terms@).take(i + 1).drop_last() =~= strs(terms@).take(i as int));
        assert(strs(terms@).take(i + 1).last() == terms@[i as int]@);
        push_search_term(&mut fragments, terms[i].clone());
        let t = str_chars(terms[i].as_str());
        if let Some((left, right)) = artist_title_chars(&t) {
            push_search_term(&mut fragments, string_of(&left));
            push_search_term(&mut fragments, string_of(&right));
        }
        i += 1;
    }
    assert(strs(terms@).take(terms.len() as int) =~= strs(terms@));
    fragments
}

/// Fragments number at most three per term.
pub proof fn lemma_fragments_len(terms: Seq<Seq<char>>)
    ensures
        fragments_of(terms).len() <= 3 * terms.len(),
    decreases terms.len(),
{
    if terms.len() > 0 {
        lemma_fragments_len(terms.drop_last());
    }
}

} // verus!
