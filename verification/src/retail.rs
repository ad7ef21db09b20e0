//! Album hints from French music retailers' search pages: the search URLs, the text that is
//! read out of a result page, which of it names the album, and the MusicBrainz queries built
//! from it.
use vstd::prelude::*;
use vstd::string::StringSliceAdditionalSpecFns;
use vstd::utf8::encode_utf8;

use crate::album_metadata::{count_in, count_in_exec};
use crate::cover::{ascii_lowercase, ascii_lowercase_exec, hex_upper};
use crate::normalize::{normalize_chars, normalize_vec, spec_normalize};
use crate::search_terms::{
    artist_title_of, escaped_phrase, first_n, meaningful_tokens, meaningful_tokens_of,
    push_all, push_all_until, push_search_term, pushed_terms, release_group_query,
    release_group_query_exec, split_artist_title, strip_html_tags, strip_tags, strs,
    escape_lucene_phrase, };
use crate::text::{
    append_chars, char_is_ascii_alnum, char_is_ws, contains, contains_exec, find_from,
    find_from_exec, is_ascii_alnum, is_ws, join, join_exec, lemma_find_from_facts, replace,
    replace_exec, slice_chars, str_chars, string_of, trim, trim_exec, utf8_len, utf8_length,
    views, words, words_exec, CharClass,
};

verus! {

// ---------------------------------------------------------------------------
// Search URLs
// ---------------------------------------------------------------------------

/// A byte that a query keeps as it is: ASCII letters and digits and `-`, `_`, `.`, `~`.
pub open spec fn is_unreserved_byte(b: u8) -> bool {
    (0x41 <= b <= 0x5a) || (0x61 <= b <= 0x7a) || (0x30 <= b <= 0x39) || b == 0x2d || b == 0x5f
        || b == 0x2e || b == 0x7e
}

/// How one byte is written in a query: unreserved bytes as themselves, a space as `%20`,
/// any other byte as `%` and two upper-case hexadecimal digits.
pub open spec fn encoded_byte(b: u8) -> Seq<char> {
    if is_unreserved_byte(b) {
        seq![b as char]
    } else if b == 0x20 {
        "%20"@
    } else {
        seq!['%', hex_upper((b / 16) as int), hex_upper((b % 16) as int)]
    }
}

/// A byte string percent-encoded for a query.
pub open spec fn percent_encoded(bytes: Seq<u8>) -> Seq<char>
    decreases bytes.len(),
{
    if bytes.len() == 0 {
        seq![]
    } else {
        percent_encoded(bytes.drop_last()) + encoded_byte(bytes.last())
    }
}

fn hex_upper_digit(d: u8) -> (r: char)
    requires
        d < 16,
    ensures
        r == hex_upper(d as int),
{
    if d < 10 {
        (d + 48) as char
    } else {
        (d + 55) as char
    }
}

/// Percent-encodes a search text's UTF-8 bytes for a retailer's query string.
pub fn percent_encode_query(value: &str) -> (r: String)
    ensures
        r@ == percent_encoded(encode_utf8(value@)),
{
    let bytes = value.as_bytes();
    let mut out: Vec<char> = Vec::new();
    let mut i: usize = 0;
    proof {
        reveal_strlit("%20");
    }
    while i < bytes.len()
        invariant
            i <= bytes.len(),
            bytes@ == value.spec_bytes(),
            out@ == percent_encoded(bytes@.take(i as int)),
        decreases bytes.len() - i,
    {
        let b = bytes[i];
        assert(bytes@.take(i + 1).drop_last() =~= bytes@.take(i as int));
        assert(bytes@.take(i + 1).last() == b);
        let ghost before = out@;
        if (0x41 <= b && b <= 0x5a) || (0x61 <= b && b <= 0x7a) || (0x30 <= b && b <= 0x39)
            || b == 0x2d || b == 0x5f || b == 0x2e || b == 0x7e {
            out.push(b as char);
            assert(out@ =~= before + seq![b as char]);
        } else if b == 0x20 {
            out.push('%');
            out.push('2');
            out.push('0');
            proof {
                reveal_strlit("%20");
            }
            assert(out@ =~= before + "%20"@);
        } else {
            out.push('%');
            out.push(hex_upper_digit(b / 16));
            out.push(hex_upper_digit(b % 16));
            assert(out@ =~= before + seq!['%', hex_upper((b / 16) as int), hex_upper((b % 16) as int)]);
        }
        i += 1;
    }
    assert(bytes@.take(bytes.len() as int) =~= bytes@);
    string_of(&out)
}

/// A character that can stand in an encoded query: an unreserved one, `%`, or an upper-case
/// hexadecimal digit.
pub open spec fn is_query_char(c: char) -> bool {
    is_ascii_alnum(c) || c == '-' || c == '_' || c == '.' || c == '~' || c == '%'
}

/// An encoded query holds only letters, digits, `-`, `_`, `.`, `~` and `%`: no space, quote,
/// `&`, `#` or non-ASCII character is left to break the URL.
pub proof fn percent_encoding_is_url_safe(bytes: Seq<u8>)
    ensures
        forall|i: int|
            0 <= i < percent_encoded(bytes).len() ==> is_query_char(#[trigger] percent_encoded(bytes)[i]),
    decreases bytes.len(),
{
    reveal_strlit("%20");
    if bytes.len() > 0 {
        percent_encoding_is_url_safe(bytes.drop_last());
        let prev = percent_encoded(bytes.drop_last());
        let e = encoded_byte(bytes.last());
        assert forall|i: int| 0 <= i < percent_encoded(bytes).len() implies is_query_char(
            #[trigger] percent_encoded(bytes)[i],
        ) by {
            if i < prev.len() {
                assert(percent_encoded(bytes)[i] == prev[i]);
            } else {
                assert(percent_encoded(bytes)[i] == e[i - prev.len()]);
            }
        }
    }
}

/// The retailers searched for album hints: a name, and the search URL that the encoded
/// query is appended to.
pub open spec fn french_retail_sources_of() -> Seq<(Seq<char>, Seq<char>)> {
    seq![
        ("fnac"@, "https://www.fnac.com/SearchResult/ResultList.aspx?Search="@),
        ("cultura"@, "https://www.cultura.com/search/results?search_query="@),
    ]
}

/// The retailers searched for album hints, each with its search URL.
pub fn french_retail_sources() -> (r: Vec<(String, String)>)
    ensures
        r@.len() == french_retail_sources_of().len(),
        forall|i: int|
            0 <= i < r@.len() ==> (#[trigger] r@[i]).0@ == french_retail_sources_of()[i].0
                && r@[i].1@ == french_retail_sources_of()[i].1,
{
    let mut v: Vec<(String, String)> = Vec::new();
    v.push(
        (
            crate::text::owned("fnac"),
            crate::text::owned("https://www.fnac.com/SearchResult/ResultList.aspx?Search="),
        ),
    );
    v.push(
        (
            crate::text::owned("cultura"),
            crate::text::owned("https://www.cultura.com/search/results?search_query="),
        ),
    );
    v
}

/// The search URL for an album at a retailer: the search base and the encoded
/// `{artist} {title} vinyle`.
pub fn french_retail_search_url(base_url: &str, artist: &str, title: &str) -> (r: String)
    ensures
        r@ == base_url@ + percent_encoded(encode_utf8(artist@ + " "@ + title@ + " vinyle"@)),
{
    let mut q = str_chars(artist);
    append_chars(&mut q, &str_chars(" "));
    append_chars(&mut q, &str_chars(title));
    append_chars(&mut q, &str_chars(" vinyle"));
    let query = string_of(&q);
    let encoded = percent_encode_query(query.as_str());
    crate::text::concat2(base_url, encoded.as_str())
}

// ---------------------------------------------------------------------------
// Entities
// ---------------------------------------------------------------------------

/// The few HTML entities retail pages use, decoded in turn.
pub open spec fn decoded_entities(value: Seq<char>) -> Seq<char> {
    let a = replace(value, "&amp;"@, "&"@);
    let b = replace(a, "&quot;"@, "\""@);
    let c = replace(b, "&#39;"@, "'"@);
    let d = replace(c, "&apos;"@, "'"@);
    let e = replace(d, "&nbsp;"@, " "@);
    let f = replace(e, "&ndash;"@, "–"@);
    replace(f, "&mdash;"@, "—"@)
}

fn replace_str(s: &Vec<char>, p: &str, rep: &str) -> (r: Vec<char>)
    ensures
        r@ == replace(s@, p@, rep@),
{
    replace_exec(s, &str_chars(p), &str_chars(rep))
}

fn decode_entities_chars(v: &Vec<char>) -> (r: Vec<char>)
    ensures
        r@ == decoded_entities(v@),
{
    let a = replace_str(v, "&amp;", "&");
    let b = replace_str(&a, "&quot;", "\"");
    let c = replace_str(&b, "&#39;", "'");
    let d = replace_str(&c, "&apos;", "'");
    let e = replace_str(&d, "&nbsp;", " ");
    let f = replace_str(&e, "&ndash;", "–");
    replace_str(&f, "&mdash;", "—")
}

/// Decodes the basic HTML entities of a text.
pub fn decode_basic_html_entities(value: &str) -> (r: String)
    ensures
        r@ == decoded_entities(value@),
{
    let v = str_chars(value);
    string_of(&decode_entities_chars(&v))
}

// ---------------------------------------------------------------------------
// Reading a result page
// ---------------------------------------------------------------------------

/// The first position at or after `from` that holds `c`.
pub open spec fn find_char_from(s: Seq<char>, c: char, from: int) -> Option<int>
    decreases s.len() - from,
{
    if from < 0 || from >= s.len() {
        None
    } else if s[from] == c {
        Some(from)
    } else {
        find_char_from(s, c, from + 1)
    }
}

/// The first position at or after `from` that holds no white space.
pub open spec fn non_ws_from(s: Seq<char>, from: int) -> Option<int>
    decreases s.len() - from,
{
    if from < 0 || from >= s.len() {
        None
    } else if !is_ws(s[from]) {
        Some(from)
    } else {
        non_ws_from(s, from + 1)
    }
}

/// A found position lies in range and holds the character.
pub proof fn lemma_find_char_from(s: Seq<char>, c: char, from: int)
    ensures
        find_char_from(s, c, from) matches Some(j) ==> 0 <= from <= j < s.len() && s[j] == c,
    decreases s.len() - from,
{
    if 0 <= from < s.len() && s[from] != c {
        lemma_find_char_from(s, c, from + 1);
    }
}

/// A found position lies in range.
pub proof fn lemma_non_ws_from(s: Seq<char>, from: int)
    ensures
        non_ws_from(s, from) matches Some(j) ==> 0 <= from <= j < s.len(),
    decreases s.len() - from,
{
    if 0 <= from < s.len() && is_ws(s[from]) {
        lemma_non_ws_from(s, from + 1);
    }
}

fn find_char_from_exec(s: &Vec<char>, c: char, from: usize) -> (r: Option<usize>)
    ensures
        match r {
            Some(j) => find_char_from(s@, c, from as int) == Some(j as int),
            None => find_char_from(s@, c, from as int) is None,
        },
{
    let mut i: usize = from;
    while i < s.len()
        invariant
            from <= i,
            find_char_from(s@, c, from as int) == find_char_from(s@, c, i as int),
        decreases s.len() - i,
    {
        if s[i] == c {
            return Some(i);
        }
        i += 1;
    }
    None
}

fn non_ws_from_exec(s: &Vec<char>, from: usize) -> (r: Option<usize>)
    ensures
        match r {
            Some(j) => non_ws_from(s@, from as int) == Some(j as int),
            None => non_ws_from(s@, from as int) is None,
        },
{
    let mut i: usize = from;
    while i < s.len()
        invariant
            from <= i,
            non_ws_from(s@, from as int) == non_ws_from(s@, i as int),
        decreases s.len() - i,
    {
        if !char_is_ws(s[i]) {
            return Some(i);
        }
        i += 1;
    }
    None
}

/// A character that may continue an attribute name.
pub open spec fn is_attr_name_char(c: char) -> bool {
    is_ascii_alnum(c) || c == '-'
}

/// The quoted values of attribute `attr` in `html`, scanning from `offset`. `lower` is the
/// page in ASCII lower case, where the name is looked for. A match inside a longer name is
/// skipped; so is one whose `=` is more than eight bytes of non-blank text away, or whose
/// value is not quoted. The scan ends when no name, `=`, value or closing quote is left.
pub open spec fn attr_values_from(lower: Seq<char>, html: Seq<char>, attr: Seq<char>, offset: int) -> Seq<
    Seq<char>,
>
    decreases html.len() - offset,
{
    if attr.len() == 0 || lower.len() != html.len() || offset < 0 || offset > html.len() {
        seq![]
    } else {
        match find_from(lower, attr, offset) {
            None => seq![],
            Some(name_start) => {
                proof {
                    lemma_find_from_facts(lower, attr, offset);
                }
                let name_end = name_start + attr.len();
                if (name_start > 0 && is_attr_name_char(lower[name_start - 1])) || (name_end
                    < lower.len() && is_attr_name_char(lower[name_end])) {
                    attr_values_from(lower, html, attr, name_end)
                } else {
                    match find_char_from(lower, '=', name_end) {
                        None => seq![],
                        Some(eq) => {
                            proof {
                                lemma_find_char_from(lower, '=', name_end);
                            }
                            if utf8_len(trim(lower.subrange(name_end, eq), CharClass::Whitespace)) > 8 {
                                attr_values_from(lower, html, attr, name_end)
                            } else {
                                match non_ws_from(html, eq + 1) {
                                    None => seq![],
                                    Some(vs) => {
                                        proof {
                                            lemma_non_ws_from(html, eq + 1);
                                        }
                                        let q = html[vs];
                                        if q != '"' && q != '\'' {
                                            attr_values_from(lower, html, attr, vs + 1)
                                        } else {
                                            match find_char_from(html, q, vs + 1) {
                                                None => seq![],
                                                Some(ce) => {
                                                    proof {
                                                        lemma_find_char_from(html, q, vs + 1);
                                                    }
                                                    seq![html.subrange(vs + 1, ce)]
                                                        + attr_values_from(lower, html, attr, ce + 1)
                                                },
                                            }
                                        }
                                    },
                                }
                            }
                        },
                    }
                }
            },
        }
    }
}

/// The quoted values of an attribute on a page.
pub open spec fn html_attribute_values_of(html: Seq<char>, attr: Seq<char>) -> Seq<Seq<char>> {
    attr_values_from(ascii_lowercase(html), html, attr, 0)
}

/// Reads the quoted values of an attribute (named in lower case) out of a page.
pub fn html_attribute_values(html: &str, attribute: &str) -> (r: Vec<String>)
    requires
        attribute@.len() > 0,
    ensures
        strs(r@) == html_attribute_values_of(html@, attribute@),
{
    let h = str_chars(html);
    let lower = ascii_lowercase_exec(&h);
    let attr = str_chars(attribute);
    let ghost total = html_attribute_values_of(html@, attribute@);
    let mut values: Vec<String> = Vec::new();
    let mut offset: usize = 0;
    while offset <= h.len()
        invariant
            lower@ == ascii_lowercase(h@),
            lower@.len() == h@.len(),
            h@ == html@,
            attr@ == attribute@,
            attr@.len() > 0,
            offset <= h.len() + 1,
            offset <= h.len() ==> total == strs(values@) + attr_values_from(lower@, h@, attr@, offset as int),
            offset > h.len() ==> total == strs(values@),
        ensures
            total == strs(values@),
        decreases h.len() + 1 - offset,
    {
        let ghost rest = attr_values_from(lower@, h@, attr@, offset as int);
        proof {
            lemma_find_from_facts(lower@, attr@, offset as int);
        }
        let name_start = match find_from_exec(&lower, &attr, offset) {
            None => {
                assert(strs(values@) + rest =~= strs(values@));
                break;
            },
            Some(i) => i,
        };
        let name_end = name_start + attr.len();
        if (name_start > 0 && (char_is_ascii_alnum(lower[name_start - 1]) || lower[name_start - 1]
            == '-')) || (name_end < lower.len() && (char_is_ascii_alnum(lower[name_end])
            || lower[name_end] == '-')) {
            offset = name_end;
            continue;
        }
        proof {
            lemma_find_char_from(lower@, '=', name_end as int);
        }
        let eq = match find_char_from_exec(&lower, '=', name_end) {
            None => {
                assert(strs(values@) + rest =~= strs(values@));
                break;
            },
            Some(e) => e,
        };
        let between = slice_chars(&lower, name_end, eq);
        let trimmed = trim_exec(&between, &CharClass::Whitespace);
        if utf8_length(&trimmed) > 8 {
            offset = name_end;
            continue;
        }
        proof {
            lemma_non_ws_from(h@, eq + 1);
        }
        let vs = match non_ws_from_exec(&h, eq + 1) {
            None => {
                assert(strs(values@) + rest =~= strs(values@));
                break;
            },
            Some(v) => v,
        };
        let q = h[vs];
        if q != '"' && q != '\'' {
            offset = vs + 1;
            continue;
        }
        proof {
            lemma_find_char_from(h@, q, vs + 1);
        }
        let ce = match find_char_from_exec(&h, q, vs + 1) {
            None => {
                assert(strs(values@) + rest =~= strs(values@));
                break;
            },
            Some(c) => c,
        };
        let ghost before = strs(values@);
        values.push(string_of(&slice_chars(&h, vs + 1, ce)));
        assert(strs(values@) =~= before.push(h@.subrange(vs + 1, ce as int)));
        assert(strs(values@) + attr_values_from(lower@, h@, attr@, ce + 1) =~= before + rest);
        offset = ce + 1;
    }
    values
}

/// The texts between `<tag ...>` and `</tag>` on a page, scanning from `offset`. `lower` is
/// the page in ASCII lower case, where the tags are looked for. An opening tag without a
/// closing one is skipped past its `>`; the scan ends when no opening tag is left.
pub open spec fn tag_texts_from(lower: Seq<char>, html: Seq<char>, open: Seq<char>, close: Seq<char>, offset: int) -> Seq<
    Seq<char>,
>
    decreases html.len() - offset,
{
    if open.len() == 0 || close.len() == 0 || lower.len() != html.len() || offset < 0 || offset
        > html.len() {
        seq![]
    } else {
        match find_from(lower, open, offset) {
            None => seq![],
            Some(o) => {
                proof {
                    lemma_find_from_facts(lower, open, offset);
                }
                match find_char_from(lower, '>', o) {
                    None => seq![],
                    Some(oe) => {
                        proof {
                            lemma_find_char_from(lower, '>', o);
                        }
                        let cs = oe + 1;
                        match find_from(lower, close, cs) {
                            None => tag_texts_from(lower, html, open, close, cs),
                            Some(c) => {
                                proof {
                                    lemma_find_from_facts(lower, close, cs);
                                }
                                seq![html.subrange(cs, c)] + tag_texts_from(
                                    lower,
                                    html,
                                    open,
                                    close,
                                    c + close.len(),
                                )
                            },
                        }
                    },
                }
            },
        }
    }
}

/// The texts inside a tag (named in lower case) on a page.
pub open spec fn html_tag_texts_of(html: Seq<char>, tag: Seq<char>) -> Seq<Seq<char>> {
    tag_texts_from(ascii_lowercase(html), html, "<"@ + tag, "</"@ + tag + ">"@, 0)
}

/// Reads the texts inside a tag out of a page.
pub fn html_tag_texts(html: &str, tag: &str) -> (r: Vec<String>)
    ensures
        strs(r@) == html_tag_texts_of(html@, tag@),
{
    let h = str_chars(html);
    let lower = ascii_lowercase_exec(&h);
    let mut open = str_chars("<");
    append_chars(&mut open, &str_chars(tag));
    let mut close = str_chars("</");
    append_chars(&mut close, &str_chars(tag));
    append_chars(&mut close, &str_chars(">"));
    proof {
        reveal_strlit("<");
        reveal_strlit("</");
        reveal_strlit(">");
    }
    let ghost total = html_tag_texts_of(html@, tag@);
    let mut values: Vec<String> = Vec::new();
    let mut offset: usize = 0;
    while offset <= h.len()
        invariant
            lower@ == ascii_lowercase(h@),
            lower@.len() == h@.len(),
            h@ == html@,
            open@ == "<"@ + tag@,
            close@ == "</"@ + tag@ + ">"@,
            open@.len() > 0,
            close@.len() > 0,
            offset <= h.len() + 1,
            offset <= h.len() ==> total == strs(values@) + tag_texts_from(lower@, h@, open@, close@, offset as int),
            offset > h.len() ==> total == strs(values@),
        ensures
            total == strs(values@),
        decreases h.len() + 1 - offset,
    {
        let ghost rest = tag_texts_from(lower@, h@, open@, close@, offset as int);
        proof {
            lemma_find_from_facts(lower@, open@, offset as int);
        }
        let o = match find_from_exec(&lower, &open, offset) {
            None => {
                assert(strs(values@) + rest =~= strs(values@));
                break;
            },
            Some(i) => i,
        };
        proof {
            lemma_find_char_from(lower@, '>', o as int);
        }
        let oe = match find_char_from_exec(&lower, '>', o) {
            None => {
                assert(strs(values@) + rest =~= strs(values@));
                break;
            },
            Some(i) => i,
        };
        let cs = oe + 1;
        proof {
            lemma_find_from_facts(lower@, close@, cs as int);
        }
        match find_from_exec(&lower, &close, cs) {
            None => {
                offset = cs;
            },
            Some(c) => {
                let ghost before = strs(values@);
                values.push(string_of(&slice_chars(&h, cs, c)));
                assert(strs(values@) =~= before.push(h@.subrange(cs as int, c as int)));
                assert(strs(values@) + tag_texts_from(lower@, h@, open@, close@, c + close@.len())
                    =~= before + rest);
                offset = c + close.len();
            },
        }
    }
    values
}

// ---------------------------------------------------------------------------
// Which text names the album
// ---------------------------------------------------------------------------

/// Words that retail pages put around an album's name.
pub open spec fn retail_noise_words() -> Seq<Seq<char>> {
    seq![
        "achat"@,
        "acheter"@,
        "album"@,
        "albums"@,
        "audio"@,
        "cultura"@,
        "disponible"@,
        "disque"@,
        "edition"@,
        "fnac"@,
        "livraison"@,
        "musique"@,
        "pas"@,
        "prix"@,
        "recherche"@,
        "resultat"@,
        "resultats"@,
        "tours"@,
        "vente"@,
        "vinyl"@,
        "vinyle"@,
    ]
}

fn is_noise_word(key: &Vec<char>) -> (r: bool)
    ensures
        r == retail_noise_words().contains(key@),
{
    let words: [&str; 21] = [
        "achat",
        "acheter",
        "album",
        "albums",
        "audio",
        "cultura",
        "disponible",
        "disque",
        "edition",
        "fnac",
        "livraison",
        "musique",
        "pas",
        "prix",
        "recherche",
        "resultat",
        "resultats",
        "tours",
        "vente",
        "vinyl",
        "vinyle",
    ];
    let ghost noise = retail_noise_words();
    assert(words@.len() == noise.len());
    assert(forall|i: int| 0 <= i < 21 ==> (#[trigger] words@[i])@ == noise[i]);
    let mut i: usize = 0;
    while i < 21
        invariant
            i <= 21,
            words@.len() == 21,
            noise == retail_noise_words(),
            forall|k: int| 0 <= k < 21 ==> (#[trigger] words@[k])@ == noise[k],
            forall|k: int| 0 <= k < i ==> noise[k] != key@,
        decreases 21 - i,
    {
        let w = str_chars(words[i]);
        if crate::text::chars_eq(&w, key) {
            assert(noise[i as int] == key@);
            return true;
        }
        i += 1;
    }
    false
}

/// White space characters that retail pages break lines with, made into spaces.
pub open spec fn spaced_char(c: char) -> char {
    if c == '\n' || c == '\r' || c == '\t' {
        ' '
    } else {
        c
    }
}

/// The text with line breaks and tabs made into spaces.
pub open spec fn spaced(s: Seq<char>) -> Seq<char> {
    Seq::new(s.len(), |i: int| spaced_char(s[i]))
}

/// A word that stays in a retail term: its matching key is not empty, not the retailer's own
/// name, and not a retail noise word.
pub open spec fn keeps_word(word: Seq<char>, source_key: Seq<char>) -> bool {
    let k = spec_normalize(word);
    k.len() > 0 && k != source_key && !retail_noise_words().contains(k)
}

/// The words that stay in a retail term, in order.
pub open spec fn kept_words(ws: Seq<Seq<char>>, source_key: Seq<char>) -> Seq<Seq<char>>
    decreases ws.len(),
{
    if ws.len() == 0 {
        seq![]
    } else {
        let rest = kept_words(ws.drop_last(), source_key);
        if keeps_word(ws.last(), source_key) {
            rest.push(ws.last())
        } else {
            rest
        }
    }
}

/// A page text cleaned into a candidate album term: tags stripped, entities decoded, noise
/// words and the retailer's name dropped, and non-alphanumeric characters trimmed off the
/// ends.
pub open spec fn cleaned_retail_term(value: Seq<char>, source: Seq<char>) -> Seq<char> {
    let decoded = decoded_entities(strip_tags(value));
    let ws = words(spaced(decoded));
    trim(join(kept_words(ws, spec_normalize(source)), " "@), CharClass::NotAlphanumeric)
}

/// Cleans a text read from a retail page into a candidate album term.
pub fn cleanup_french_retail_album_term(value: &str, source: &str) -> (r: String)
    ensures
        r@ == cleaned_retail_term(value@, source@),
{
    let stripped = strip_html_tags(value);
    let decoded = decode_entities_chars(&str_chars(stripped.as_str()));
    let source_key = normalize_chars(source);
    let mut sp: Vec<char> = Vec::new();
    let mut i: usize = 0;
    while i < decoded.len()
        invariant
            i <= decoded.len(),
            sp@ =~= spaced(decoded@).take(i as int),
        decreases decoded.len() - i,
    {
        let c = decoded[i];
        if c == '\n' || c == '\r' || c == '\t' {
            sp.push(' ');
        } else {
            sp.push(c);
        }
        i += 1;
    }
    assert(spaced(decoded@).take(decoded.len() as int) =~= spaced(decoded@));
    let ws = words_exec(&sp);
    let mut kept: Vec<Vec<char>> = Vec::new();
    let mut j: usize = 0;
    while j < ws.len()
        invariant
            j <= ws.len(),
            views(kept@) == kept_words(views(ws@).take(j as int), source_key@),
        decreases ws.len() - j,
    {
        assert(views(ws@).take(j + 1).drop_last() =~= views(ws@).take(j as int));
        assert(views(ws@).take(j + 1).last() == ws@[j as int]@);
        let key = normalize_vec(&ws[j]);
        if key.len() > 0 && !crate::text::chars_eq(&key, &source_key) && !is_noise_word(&key) {
            let ghost before = views(kept@);
            kept.push(crate::text::copy_chars(&ws[j]));
            assert(views(kept@) =~= before.push(ws@[j as int]@));
        }
        j += 1;
    }
    assert(views(ws@).take(ws.len() as int) =~= views(ws@));
    let joined = join_exec(&kept, &str_chars(" "));
    let t = trim_exec(&joined, &CharClass::NotAlphanumeric);
    string_of(&t)
}

/// Whether a retail term names the album: its key holds the title's key (and the artist's,
/// when there is one), or it shares enough meaningful tokens with `{artist} {title}` (all of
/// them when there is one, else at least two). Terms under three bytes never do.
pub open spec fn retail_term_matches(term: Seq<char>, artist: Seq<char>, title: Seq<char>) -> bool {
    let nt = spec_normalize(term);
    let na = spec_normalize(artist);
    let ni = spec_normalize(title);
    if utf8_len(term) < 3 || nt.len() == 0 || ni.len() == 0 {
        false
    } else if contains(nt, ni) && (na.len() == 0 || contains(nt, na)) {
        true
    } else {
        let album_tokens = meaningful_tokens_of(artist + " "@ + title);
        let term_tokens = meaningful_tokens_of(term);
        album_tokens.len() > 0 && count_in(album_tokens, term_tokens) >= (if album_tokens.len()
            < 2 {
            album_tokens.len()
        } else {
            2
        })
    }
}

/// Tokens counted in a pool are found in it: one counted token is in the pool, and two
/// counted tokens are two different positions of the list, both in the pool.
proof fn lemma_counted_tokens_occur(tokens: Seq<Seq<char>>, pool: Seq<Seq<char>>)
    ensures
        count_in(tokens, pool) >= 1 ==> exists|i: int|
            0 <= i < tokens.len() && pool.contains(#[trigger] tokens[i]),
        count_in(tokens, pool) >= 2 ==> exists|i: int, j: int|
            0 <= i < j < tokens.len() && pool.contains(#[trigger] tokens[i]) && pool.contains(
                #[trigger] tokens[j],
            ),
    decreases tokens.len(),
{
    if tokens.len() > 0 {
        let d = tokens.drop_last();
        lemma_counted_tokens_occur(d, pool);
        let n = tokens.len() - 1;
        assert(tokens[n] == tokens.last());
        if count_in(d, pool) >= 1 {
            let i = choose|i: int| 0 <= i < d.len() && pool.contains(#[trigger] d[i]);
            assert(tokens[i] == d[i]);
        }
        if count_in(d, pool) >= 2 {
            let (i, j) = choose|i: int, j: int|
                0 <= i < j < d.len() && pool.contains(#[trigger] d[i]) && pool.contains(#[trigger] d[j]);
            assert(tokens[i] == d[i] && tokens[j] == d[j]);
        }
    }
}

/// A retail term names the album only when it is at least three bytes long and either its
/// key holds the title's key (and the artist's, when there is one), or it shares enough of
/// the meaningful tokens of `{artist} {title}`: the single one when there is one, else two
/// different ones. A term that shares only one token with a longer album (just the artist's
/// name, say) is refused; a term whose key holds both keys is accepted.
pub proof fn retail_match_needs_title_or_two_tokens(term: Seq<char>, artist: Seq<char>, title: Seq<char>)
    ensures
        retail_term_matches(term, artist, title) ==> utf8_len(term) >= 3,
        ({
            let nt = spec_normalize(term);
            let na = spec_normalize(artist);
            let ni = spec_normalize(title);
            let album = meaningful_tokens_of(artist + " "@ + title);
            let words = meaningful_tokens_of(term);
            &&& retail_term_matches(term, artist, title) && !(contains(nt, ni) && (na.len() == 0
                || contains(nt, na))) ==> (album.len() == 1 && words.contains(album[0])) || (exists|
                i: int,
                j: int,
            | 0 <= i < j < album.len() && words.contains(#[trigger] album[i]) && words.contains(
                #[trigger] album[j],
            ))
            &&& utf8_len(term) >= 3 && ni.len() > 0 && contains(nt, ni) && (na.len() == 0 || contains(
                nt,
                na,
            )) ==> retail_term_matches(term, artist, title)
        }),
{
    let album = meaningful_tokens_of(artist + " "@ + title);
    let words = meaningful_tokens_of(term);
    lemma_counted_tokens_occur(album, words);
    if album.len() == 1 && count_in(album, words) >= 1 {
        let i = choose|i: int| 0 <= i < album.len() && words.contains(#[trigger] album[i]);
        assert(i == 0);
    }
}

/// Whether a retail term names the album being looked up.
pub fn french_retail_term_matches_album(term: &str, artist: &str, title: &str) -> (r: bool)
    ensures
        r == retail_term_matches(term@, artist@, title@),
{
    let tv = str_chars(term);
    if utf8_length(&tv) < 3 {
        return false;
    }
    let nt = normalize_chars(term);
    let na = normalize_chars(artist);
    let ni = normalize_chars(title);
    if nt.len() == 0 || ni.len() == 0 {
        return false;
    }
    if contains_exec(&nt, &ni) && (na.len() == 0 || contains_exec(&nt, &na)) {
        return true;
    }
    let album = crate::text::concat3(artist, " ", title);
    let album_tokens = meaningful_tokens(album.as_str());
    if album_tokens.len() == 0 {
        return false;
    }
    let term_tokens = meaningful_tokens(term);
    let overlap = count_in_exec(&album_tokens, &term_tokens);
    let needed: u64 = if album_tokens.len() < 2 {
        album_tokens.len() as u64
    } else {
        2
    };
    overlap >= needed
}

/// The texts of a page that may name an album: the values of `content`, `alt`, `title` and
/// `aria-label` attributes, then the texts of `h1`, `h2`, `h3` and `a` elements.
pub open spec fn retail_chunks_of(html: Seq<char>) -> Seq<Seq<char>> {
    html_attribute_values_of(html, "content"@) + html_attribute_values_of(html, "alt"@)
        + html_attribute_values_of(html, "title"@) + html_attribute_values_of(html, "aria-label"@)
        + html_tag_texts_of(html, "h1"@) + html_tag_texts_of(html, "h2"@) + html_tag_texts_of(
        html,
        "h3"@,
    ) + html_tag_texts_of(html, "a"@)
}

/// The cleaned chunks that name the album, in order.
pub open spec fn matching_retail_terms(chunks: Seq<Seq<char>>, artist: Seq<char>, title: Seq<char>, source: Seq<char>) -> Seq<
    Seq<char>,
>
    decreases chunks.len(),
{
    if chunks.len() == 0 {
        seq![]
    } else {
        let rest = matching_retail_terms(chunks.drop_last(), artist, title, source);
        let t = cleaned_retail_term(chunks.last(), source);
        if retail_term_matches(t, artist, title) {
            rest.push(t)
        } else {
            rest
        }
    }
}

/// The album terms a retail page yields: the matching cleaned chunks, de-duplicated as
/// search terms, at most eight.
pub open spec fn retail_terms_of(html: Seq<char>, artist: Seq<char>, title: Seq<char>, source: Seq<char>) -> Seq<
    Seq<char>,
> {
    first_n(push_all(seq![], matching_retail_terms(retail_chunks_of(html), artist, title, source)), 8)
}

fn append_strings(out: &mut Vec<String>, more: Vec<String>)
    ensures
        strs(final(out)@) == strs(old(out)@) + strs(more@),
{
    let ghost o = strs(out@);
    let ghost m = strs(more@);
    let mut i: usize = 0;
    while i < more.len()
        invariant
            i <= more.len(),
            m == strs(more@),
            strs(out@) == o + m.take(i as int),
        decreases more.len() - i,
    {
        let ghost before = strs(out@);
        let x = crate::text::copy_string(&more[i]);
        assert(x@ == m[i as int]);
        out.push(x);
        assert(strs(out@) =~= before.push(m[i as int]));
        assert(m.take(i + 1) =~= m.take(i as int).push(m[i as int]));
        i += 1;
        assert(strs(out@) =~= o + m.take(i as int));
    }
    assert(m.take(more.len() as int) =~= m);
}

/// Reads the album terms that a retailer's result page offers.
pub fn french_retail_album_terms_from_html(html: &str, artist: &str, title: &str, source: &str) -> (r: Vec<
    String,
>)
    ensures
        strs(r@) == retail_terms_of(html@, artist@, title@, source@),
{
    proof {
        reveal_strlit("content");
        reveal_strlit("alt");
        reveal_strlit("title");
        reveal_strlit("aria-label");
    }
    let mut chunks: Vec<String> = Vec::new();
    append_strings(&mut chunks, html_attribute_values(html, "content"));
    append_strings(&mut chunks, html_attribute_values(html, "alt"));
    append_strings(&mut chunks, html_attribute_values(html, "title"));
    append_strings(&mut chunks, html_attribute_values(html, "aria-label"));
    append_strings(&mut chunks, html_tag_texts(html, "h1"));
    append_strings(&mut chunks, html_tag_texts(html, "h2"));
    append_strings(&mut chunks, html_tag_texts(html, "h3"));
    append_strings(&mut chunks, html_tag_texts(html, "a"));
    let ghost all = strs(chunks@);
    assert(all == retail_chunks_of(html@));
    let mut matching: Vec<String> = Vec::new();
    let mut i: usize = 0;
    while i < chunks.len()
        invariant
            i <= chunks.len(),
            all == strs(chunks@),
            strs(matching@) == matching_retail_terms(all.take(i as int), artist@, title@, source@),
        decreases chunks.len() - i,
    {
        assert(all.take(i + 1).drop_last() =~= all.take(i as int));
        assert(all.take(i + 1).last() == chunks@[i as int]@);
        let term = cleanup_french_retail_album_term(chunks[i].as_str(), source);
        if french_retail_term_matches_album(term.as_str(), artist, title) {
            let ghost before = strs(matching@);
            matching.push(term);
            assert(strs(matching@) =~= before.push(matching@.last()@));
        }
        i += 1;
    }
    assert(all.take(chunks.len() as int) =~= all);
    let mut terms: Vec<String> = Vec::new();
    assert(strs(terms@) =~= seq![]);
    crate::search_terms::push_all_exec(&mut terms, &matching);
    crate::search_terms::truncate_strings(&mut terms, 8);
    terms
}

// ---------------------------------------------------------------------------
// Queries from retail hints
// ---------------------------------------------------------------------------

/// The query a retail hint gives: a release-group query when the hint names an artist and
/// title, else the hint with the looked-up artist and title quoted.
pub open spec fn retail_hint_query(term: Seq<char>, artist: Seq<char>, title: Seq<char>) -> Seq<char> {
    match artist_title_of(term) {
        Some((a, t)) => release_group_query(t, a),
        None => term + " \""@ + escaped_phrase(artist) + "\" \""@ + escaped_phrase(title) + "\""@,
    }
}

/// The raw query list: for each hint, the hint offered as a search term, then its query.
pub open spec fn raw_retail_queries(hints: Seq<Seq<char>>, artist: Seq<char>, title: Seq<char>) -> Seq<
    Seq<char>,
>
    decreases hints.len(),
{
    if hints.len() == 0 {
        seq![]
    } else {
        let prev = raw_retail_queries(hints.drop_last(), artist, title);
        pushed_terms(prev, hints.last()).push(retail_hint_query(hints.last(), artist, title))
    }
}

/// The MusicBrainz queries built from retail hints: the raw list de-duplicated as search
/// terms, at most eight.
pub open spec fn retail_queries_of(hints: Seq<Seq<char>>, artist: Seq<char>, title: Seq<char>) -> Seq<
    Seq<char>,
> {
    push_all_until(seq![], raw_retail_queries(first_n(hints, 6), artist, title), 8)
}

/// Builds the MusicBrainz queries for the album hints found at retailers.
pub fn french_retail_musicbrainz_queries(terms: &Vec<String>, artist: &str, title: &str) -> (r: Vec<
    String,
>)
    ensures
        strs(r@) == retail_queries_of(strs(terms@), artist@, title@),
{
    let n: usize = if terms.len() < 6 {
        terms.len()
    } else {
        6
    };
    let ghost hints = first_n(strs(terms@), 6);
    assert(hints =~= strs(terms@).take(n as int));
    let mut queries: Vec<String> = Vec::new();
    let mut i: usize = 0;
    while i < n
        invariant
            i <= n <= terms.len(),
            hints == strs(terms@).take(n as int),
            strs(queries@) == raw_retail_queries(hints.take(i as int), artist@, title@),
        decreases n - i,
    {
        assert(hints.take(i + 1).drop_last() =~= hints.take(i as int));
        assert(hints.take(i + 1).last() == terms@[i as int]@);
        let term = &terms[i];
        push_search_term(&mut queries, crate::text::copy_string(term));
        let q = match split_artist_title(term.as_str()) {
            Some((hint_artist, hint_title)) => release_group_query_exec(
                hint_title.as_str(),
                hint_artist.as_str(),
            ),
            None => {
                let mut v = str_chars(term.as_str());
                append_chars(&mut v, &str_chars(" \""));
                append_chars(&mut v, &str_chars(escape_lucene_phrase(artist).as_str()));
                append_chars(&mut v, &str_chars("\" \""));
                append_chars(&mut v, &str_chars(escape_lucene_phrase(title).as_str()));
                append_chars(&mut v, &str_chars("\""));
                string_of(&v)
            },
        };
        let ghost before = strs(queries@);
        queries.push(q);
        assert(strs(queries@) =~= before.push(queries@.last()@));
        i += 1;
    }
    assert(hints.take(n as int) =~= hints);
    let mut deduped: Vec<String> = Vec::new();
    assert(strs(deduped@) =~= seq![]);
    crate::search_terms::push_all_until_exec(&mut deduped, &queries, 8);
    deduped
}

} // verus!
