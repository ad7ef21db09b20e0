//! What is read out of MusicBrainz answers: genres, artist credits, release-group candidates,
//! and the track list of the release that best represents a release group.
use vstd::prelude::*;

use crate::album_metadata::{AlbumCandidate, CandidateView};
use crate::config::opt_view;
use crate::normalize::{normalize_chars, spec_normalize};
use crate::search_terms::{escaped_phrase, escape_lucene_phrase, strs};
use crate::sort::{
    insert_pos, lemma_stable_sort_len, opt_str_lt, opt_str_lt_exec, reverse_vec, sort_by_key, stable_sort,
    str_lt, str_lt_exec, SortKey,
};
use crate::text::{
    append_chars, char_to_lowercase, char_to_uppercase, copy_opt_string, copy_string, join,
    join_exec, owned, spec_char_lowercase, spec_char_uppercase, str_chars, string_of, trim_str,
    trim_ws, trim_ws_exec, views, words, words_exec,
};
use crate::cover::{ascii_lowercase, ascii_lowercase_exec};

verus! {

// ---------------------------------------------------------------------------
// What MusicBrainz answers
// ---------------------------------------------------------------------------

/// A genre or tag with its vote count.
#[derive(Clone, Debug)]
pub struct MusicBrainzTag {
    pub name: String,
    pub count: Option<i32>,
}

/// One credited artist.
#[derive(Clone, Debug)]
pub struct MusicBrainzArtistCredit {
    pub name: String,
}

/// A release group found by a search.
#[derive(Clone, Debug)]
pub struct MusicBrainzReleaseGroup {
    pub id: String,
    pub title: String,
    pub score: Option<i32>,
    pub first_release_date: Option<String>,
    pub artist_credit: Vec<MusicBrainzArtistCredit>,
    pub disambiguation: Option<String>,
    pub genres: Vec<MusicBrainzTag>,
    pub tags: Vec<MusicBrainzTag>,
}

/// A release of a release group.
#[derive(Clone, Debug)]
pub struct MusicBrainzRelease {
    pub id: String,
    pub title: String,
    pub date: Option<String>,
    pub country: Option<String>,
    pub status: Option<String>,
    pub media: Vec<MusicBrainzMedium>,
}

/// A disc or side of a release.
#[derive(Clone, Debug)]
pub struct MusicBrainzMedium {
    pub position: Option<i32>,
    pub format: Option<String>,
    pub tracks: Vec<MusicBrainzTrack>,
}

/// A track on a medium.
#[derive(Clone, Debug)]
pub struct MusicBrainzTrack {
    pub number: Option<String>,
    pub title: Option<String>,
    pub length: Option<i32>,
    pub artist_credit: Vec<MusicBrainzArtistCredit>,
    pub recording: Option<MusicBrainzRecording>,
}

/// The recording a track plays.
#[derive(Clone, Debug)]
pub struct MusicBrainzRecording {
    pub title: Option<String>,
}

// ---------------------------------------------------------------------------
// Genres
// ---------------------------------------------------------------------------

/// The display name of a well-known genre, by its matching key.
pub open spec fn known_genre(key: Seq<char>) -> Option<Seq<char>> {
    if key == "hiphop"@ || key == "rap"@ {
        Some("Rap"@)
    } else if key == "rnb"@ || key == "rhythmandblues"@ {
        Some("R&B"@)
    } else if key == "rock"@ {
        Some("Rock"@)
    } else if key == "pop"@ {
        Some("Pop"@)
    } else if key == "jazz"@ {
        Some("Jazz"@)
    } else if key == "soul"@ {
        Some("Soul"@)
    } else if key == "funk"@ {
        Some("Funk"@)
    } else if key == "reggae"@ {
        Some("Reggae"@)
    } else if key == "electronic"@ || key == "electronica"@ {
        Some("Electronic"@)
    } else {
        None
    }
}

/// Each character in lower case (`char::to_lowercase`, which may give several characters).
pub open spec fn lowered(s: Seq<char>) -> Seq<char>
    decreases s.len(),
{
    if s.len() == 0 {
        seq![]
    } else {
        lowered(s.drop_last()) + spec_char_lowercase(s.last())
    }
}

/// A word with its first character in upper case and the others in lower case.
pub open spec fn capitalized(w: Seq<char>) -> Seq<char> {
    if w.len() == 0 {
        seq![]
    } else {
        spec_char_uppercase(w[0]) + lowered(w.drop_first())
    }
}

/// Each word capitalised.
pub open spec fn capitalized_words(ws: Seq<Seq<char>>) -> Seq<Seq<char>>
    decreases ws.len(),
{
    if ws.len() == 0 {
        seq![]
    } else {
        capitalized_words(ws.drop_last()).push(capitalized(ws.last()))
    }
}

/// The display name of a genre: the canonical name of a well-known genre, else its words
/// capitalised and joined by single spaces.
pub open spec fn canonical_genre_of(name: Seq<char>) -> Seq<char> {
    match known_genre(spec_normalize(name)) {
        Some(g) => g,
        None => join(capitalized_words(words(name)), " "@),
    }
}

fn lowered_exec(s: &Vec<char>, from: usize) -> (r: Vec<char>)
    requires
        from <= s.len(),
    ensures
        r@ == lowered(s@.skip(from as int)),
{
    let mut out: Vec<char> = Vec::new();
    let mut i: usize = from;
    let ghost t = s@.skip(from as int);
    assert(t.take(0) =~= seq![]);
    while i < s.len()
        invariant
            from <= i <= s.len(),
            t == s@.skip(from as int),
            out@ == lowered(t.take(i - from)),
        decreases s.len() - i,
    {
        assert(t.take(i + 1 - from).drop_last() =~= t.take(i - from));
        assert(t.take(i + 1 - from).last() == s@[i as int]);
        let low = char_to_lowercase(s[i]);
        append_chars(&mut out, &low);
        i += 1;
    }
    assert(t.take(s.len() - from) =~= t);
    out
}

fn capitalized_exec(w: &Vec<char>) -> (r: Vec<char>)
    ensures
        r@ == capitalized(w@),
{
    if w.len() == 0 {
        return Vec::new();
    }
    let mut out = char_to_uppercase(w[0]);
    let rest = lowered_exec(w, 1);
    assert(w@.skip(1) =~= w@.drop_first());
    append_chars(&mut out, &rest);
    out
}

fn genre_literal(key: &Vec<char>, name: &str) -> (r: bool)
    ensures
        r == (key@ == name@),
{
    crate::text::chars_eq(key, &str_chars(name))
}

/// The display name of a MusicBrainz genre or tag.
pub fn canonical_genre_name(name: &str) -> (r: String)
    ensures
        r@ == canonical_genre_of(name@),
{
    let key = normalize_chars(name);
    if genre_literal(&key, "hiphop") || genre_literal(&key, "rap") {
        return owned("Rap");
    }
    if genre_literal(&key, "rnb") || genre_literal(&key, "rhythmandblues") {
        return owned("R&B");
    }
    if genre_literal(&key, "rock") {
        return owned("Rock");
    }
    if genre_literal(&key, "pop") {
        return owned("Pop");
    }
    if genre_literal(&key, "jazz") {
        return owned("Jazz");
    }
    if genre_literal(&key, "soul") {
        return owned("Soul");
    }
    if genre_literal(&key, "funk") {
        return owned("Funk");
    }
    if genre_literal(&key, "reggae") {
        return owned("Reggae");
    }
    if genre_literal(&key, "electronic") || genre_literal(&key, "electronica") {
        return owned("Electronic");
    }
    let ws = words_exec(&str_chars(name));
    let mut caps: Vec<Vec<char>> = Vec::new();
    let mut i: usize = 0;
    while i < ws.len()
        invariant
            i <= ws.len(),
            views(caps@) == capitalized_words(views(ws@).take(i as int)),
        decreases ws.len() - i,
    {
        assert(views(ws@).take(i + 1).drop_last() =~= views(ws@).take(i as int));
        assert(views(ws@).take(i + 1).last() == ws@[i as int]@);
        let ghost before = views(caps@);
        caps.push(capitalized_exec(&ws[i]));
        assert(views(caps@) =~= before.push(capitalized(ws@[i as int]@)));
        i += 1;
    }
    assert(views(ws@).take(ws.len() as int) =~= views(ws@));
    let joined = join_exec(&caps, &str_chars(" "));
    string_of(&joined)
}

/// A vote count, absent counting as zero.
pub open spec fn count_of(t: MusicBrainzTag) -> int {
    match t.count {
        Some(c) => c as int,
        None => 0,
    }
}

impl SortKey for MusicBrainzTag {
    /// More votes come first.
    open spec fn key_lt(&self, other: &Self) -> bool {
        count_of(*self) > count_of(*other)
    }

    proof fn lemma_key_lt_asymmetric(a: Self, b: Self) {
    }

    proof fn lemma_key_lt_negatively_transitive(a: Self, b: Self, c: Self) {
    }

    fn lt(&self, other: &Self) -> (r: bool) {
        let a: i64 = match self.count {
            Some(c) => c as i64,
            None => 0,
        };
        let b: i64 = match other.count {
            Some(c) => c as i64,
            None => 0,
        };
        a > b
    }
}

impl MusicBrainzTag {
    /// A copy of this tag.
    pub fn duplicate(&self) -> (r: MusicBrainzTag)
        ensures
            r.name@ == self.name@,
            r.count == self.count,
    {
        MusicBrainzTag { name: copy_string(&self.name), count: self.count }
    }
}

/// The display name of the first tag whose display name is not blank.
pub open spec fn first_genre(tags: Seq<MusicBrainzTag>) -> Option<Seq<char>>
    decreases tags.len(),
{
    if tags.len() == 0 {
        None
    } else if trim_ws(canonical_genre_of(tags[0].name@)).len() > 0 {
        Some(canonical_genre_of(tags[0].name@))
    } else {
        first_genre(tags.drop_first())
    }
}

/// A release group's genre: genres and tags together, most voted first (ties keep their
/// order, genres before tags), the first with a non-blank display name.
pub open spec fn primary_genre_of(genres: Seq<MusicBrainzTag>, tags: Seq<MusicBrainzTag>) -> Option<
    Seq<char>,
> {
    first_genre(stable_sort(genres + tags))
}

/// A tag whose display name is not blank.
pub open spec fn names_genre(t: MusicBrainzTag) -> bool {
    trim_ws(canonical_genre_of(t.name@)).len() > 0
}

/// The first genre is the display name of the first tag that names one; there is none
/// exactly when no tag does.
proof fn lemma_first_genre(tags: Seq<MusicBrainzTag>)
    ensures
        first_genre(tags) is None <==> forall|k: int| 0 <= k < tags.len() ==> !names_genre(#[trigger] tags[k]),
        first_genre(tags) matches Some(g) ==> exists|c: int|
            0 <= c < tags.len() && names_genre(#[trigger] tags[c]) && g == canonical_genre_of(tags[c].name@)
                && forall|k: int| 0 <= k < c ==> !names_genre(#[trigger] tags[k]),
    decreases tags.len(),
{
    if tags.len() > 0 {
        let d = tags.drop_first();
        lemma_first_genre(d);
        assert forall|k: int| 0 <= k < d.len() implies #[trigger] d[k] == tags[k + 1] by {}
        if names_genre(tags[0]) {
        } else {
            if first_genre(d) is None {
                assert forall|k: int| 0 <= k < tags.len() implies !names_genre(#[trigger] tags[k]) by {
                    if k > 0 {
                        assert(tags[k] == d[k - 1]);
                    }
                }
            } else {
                let c = choose|c: int|
                    0 <= c < d.len() && names_genre(#[trigger] d[c]) && first_genre(d)->0
                        == canonical_genre_of(d[c].name@) && forall|k: int|
                        0 <= k < c ==> !names_genre(#[trigger] d[k]);
                assert(tags[c + 1] == d[c]);
                assert forall|k: int| 0 <= k < c + 1 implies !names_genre(#[trigger] tags[k]) by {
                    if k > 0 {
                        assert(tags[k] == d[k - 1]);
                    }
                }
            }
            if exists|k: int| 0 <= k < tags.len() && names_genre(#[trigger] tags[k]) {
                let k = choose|k: int| 0 <= k < tags.len() && names_genre(#[trigger] tags[k]);
                assert(d[k - 1] == tags[k]);
            }
        }
    }
}

/// A release group's genre is the display name of one of its genres or tags, and no genre
/// or tag that names a genre has more votes; there is none exactly when none names one.
pub proof fn primary_genre_is_most_voted(genres: Seq<MusicBrainzTag>, tags: Seq<MusicBrainzTag>)
    ensures
        primary_genre_of(genres, tags) is None <==> forall|k: int|
            0 <= k < (genres + tags).len() ==> !names_genre(#[trigger] (genres + tags)[k]),
        primary_genre_of(genres, tags) matches Some(g) ==> exists|c: int|
            0 <= c < (genres + tags).len() && names_genre(#[trigger] (genres + tags)[c]) && g
                == canonical_genre_of((genres + tags)[c].name@) && forall|k: int|
                0 <= k < (genres + tags).len() && names_genre(#[trigger] (genres + tags)[k]) ==> count_of(
                    (genres + tags)[k],
                ) <= count_of((genres + tags)[c]),
{
    broadcast use vstd::seq_lib::group_to_multiset_ensures;

    let all = genres + tags;
    let sorted = stable_sort(all);
    lemma_stable_sort_len(all);
    crate::sort::stable_sort_is_sorted_permutation(all);
    lemma_first_genre(sorted);
    if first_genre(sorted) is None {
        assert forall|k: int| 0 <= k < all.len() implies !names_genre(#[trigger] all[k]) by {
            let x = all[k];
            assert(all.contains(x));
            assert(sorted.to_multiset().count(x) > 0);
            assert(sorted.contains(x));
            let m = choose|m: int| 0 <= m < sorted.len() && sorted[m] == x;
            assert(!names_genre(sorted[m]));
        }
    } else {
        let g = first_genre(sorted)->0;
        let c = choose|c: int|
            0 <= c < sorted.len() && names_genre(#[trigger] sorted[c]) && g == canonical_genre_of(
                sorted[c].name@,
            ) && forall|k: int| 0 <= k < c ==> !names_genre(#[trigger] sorted[k]);
        let top = sorted[c];
        assert(sorted.contains(top));
        assert(all.to_multiset().count(top) > 0);
        assert(all.contains(top));
        let ci = choose|ci: int| 0 <= ci < all.len() && all[ci] == top;
        assert forall|k: int| 0 <= k < all.len() && names_genre(#[trigger] all[k]) implies count_of(
            all[k],
        ) <= count_of(all[ci]) by {
            let x = all[k];
            assert(all.contains(x));
            assert(sorted.to_multiset().count(x) > 0);
            assert(sorted.contains(x));
            let m = choose|m: int| 0 <= m < sorted.len() && sorted[m] == x;
            if m < c {
                assert(!names_genre(sorted[m]));
            } else if m > c {
                assert(!sorted[m].key_lt(&sorted[c]));
            }
        }
        assert(names_genre(all[ci]));
    }
}

/// Picks the genre of a release group from its genres and tags.
pub fn primary_genre(genres: Vec<MusicBrainzTag>, tags: Vec<MusicBrainzTag>) -> (r: Option<String>)
    ensures
        opt_view(r) == primary_genre_of(genres@, tags@),
{
    let mut all = genres;
    let mut more = tags;
    let ghost g = all@;
    let ghost t = more@;
    all.append(&mut more);
    assert(all@ =~= g + t);
    let ghost unsorted = all@;
    let sorted = sort_by_key(all);
    proof {
        lemma_stable_sort_len(unsorted);
    }
    let ghost ss = sorted@;
    let mut i: usize = 0;
    assert(ss.skip(0) =~= ss);
    while i < sorted.len()
        invariant
            i <= sorted.len(),
            ss == sorted@,
            ss == stable_sort(genres@ + tags@),
            first_genre(ss) == first_genre(ss.skip(i as int)),
        decreases sorted.len() - i,
    {
        assert(ss.skip(i as int)[0] == ss[i as int]);
        assert(ss.skip(i as int).drop_first() =~= ss.skip(i + 1));
        let name = canonical_genre_name(sorted[i].name.as_str());
        let trimmed = trim_str(name.as_str());
        if trimmed.len() > 0 {
            assert(ss.skip(i as int).len() > 0);
            assert(first_genre(ss.skip(i as int)) == Some(canonical_genre_of(ss[i as int].name@)));
            return Some(name);
        }
        i += 1;
    }
    None
}

// ---------------------------------------------------------------------------
// Artist credits
// ---------------------------------------------------------------------------

/// The credited names one after the other.
pub open spec fn credit_names(credits: Seq<MusicBrainzArtistCredit>) -> Seq<char>
    decreases credits.len(),
{
    if credits.len() == 0 {
        seq![]
    } else {
        credit_names(credits.drop_last()) + credits.last().name@
    }
}

/// The artist of a credit list: the names joined and trimmed, when not blank.
pub open spec fn artist_credit_of(credits: Seq<MusicBrainzArtistCredit>) -> Option<Seq<char>> {
    let a = trim_ws(credit_names(credits));
    if a.len() == 0 {
        None
    } else {
        Some(a)
    }
}

/// The artist named by a credit list.
pub fn artist_credit_name(credits: &Vec<MusicBrainzArtistCredit>) -> (r: Option<String>)
    ensures
        opt_view(r) == artist_credit_of(credits@),
{
    let mut all: Vec<char> = Vec::new();
    let mut i: usize = 0;
    while i < credits.len()
        invariant
            i <= credits.len(),
            all@ == credit_names(credits@.take(i as int)),
        decreases credits.len() - i,
    {
        assert(credits@.take(i + 1).drop_last() =~= credits@.take(i as int));
        append_chars(&mut all, &str_chars(credits[i].name.as_str()));
        i += 1;
    }
    assert(credits@.take(credits.len() as int) =~= credits@);
    let t = trim_ws_exec(&all);
    if t.len() == 0 {
        None
    } else {
        Some(string_of(&t))
    }
}

// ---------------------------------------------------------------------------
// Release-group candidates
// ---------------------------------------------------------------------------

/// The prefix of `s` whose UTF-8 encoding is exactly `n` bytes, if there is one (what
/// `str::get(0..n)` gives).
pub open spec fn byte_prefix(s: Seq<char>, n: nat) -> Option<Seq<char>>
    decreases s.len(),
{
    if n == 0 {
        Some(seq![])
    } else if s.len() == 0 {
        None
    } else {
        let c = crate::text::char_utf8_len(s[0]);
        if c > n {
            None
        } else {
            match byte_prefix(s.drop_first(), (n - c) as nat) {
                Some(p) => Some(seq![s[0]] + p),
                None => None,
            }
        }
    }
}

fn byte_prefix_exec(s: &Vec<char>, n: usize) -> (r: Option<Vec<char>>)
    ensures
        match (r, byte_prefix(s@, n as nat)) {
            (Some(x), Some(y)) => x@ == y,
            (None, None) => true,
            _ => false,
        },
{
    let mut i: usize = 0;
    let mut left: usize = n;
    assert(s@.skip(0) =~= s@);
    assert(s@.take(0) =~= seq![]);
    while left > 0
        invariant
            i <= s.len(),
            left <= n,
            byte_prefix(s@, n as nat) == match byte_prefix(s@.skip(i as int), left as nat) {
                Some(p) => Some(s@.take(i as int) + p),
                None => None,
            },
        decreases left,
    {
        if i >= s.len() {
            return None;
        }
        let c = s[i];
        let w: usize = if (c as u32) < 0x80 {
            1
        } else if (c as u32) < 0x800 {
            2
        } else if (c as u32) < 0x10000 {
            3
        } else {
            4
        };
        assert(w == crate::text::char_utf8_len(c));
        assert(s@.skip(i as int)[0] == c);
        assert(s@.skip(i as int).drop_first() =~= s@.skip(i + 1));
        if w > left {
            return None;
        }
        assert(s@.take(i + 1) =~= s@.take(i as int) + seq![c]);
        proof {
            let rest = byte_prefix(s@.skip(i + 1), (left - w) as nat);
            if let Some(p) = rest {
                assert(s@.take(i as int) + (seq![c] + p) =~= s@.take(i + 1) + p);
            }
        }
        left = left - w;
        i += 1;
    }
    Some(slice_prefix(s, i))
}

fn slice_prefix(s: &Vec<char>, n: usize) -> (r: Vec<char>)
    requires
        n <= s.len(),
    ensures
        r@ == s@.take(n as int),
{
    let r = crate::text::slice_chars(s, 0, n);
    assert(s@.subrange(0, n as int) =~= s@.take(n as int));
    r
}

/// What `i32::from_str` accepts: an optional `+` or `-`, then one or more ASCII digits whose
/// value fits.
pub open spec fn parse_i32_spec(s: Seq<char>) -> Option<i32> {
    if s.len() > 0 && s[0] == '-' {
        let d = s.drop_first();
        if d.len() > 0 && crate::text::all_digits(d) && crate::text::digits_value(d) <= 0x8000_0000 {
            Some((-crate::text::digits_value(d)) as i32)
        } else {
            None
        }
    } else {
        match crate::text::parse_unsigned_spec(s, 0x7fff_ffff) {
            Some(n) => Some(n as i32),
            None => None,
        }
    }
}

/// Parses a decimal `i32` the way `i32::from_str` does.
pub fn parse_i32(s: &str) -> (r: Option<i32>)
    ensures
        r == parse_i32_spec(s@),
{
    let v = str_chars(s);
    if v.len() > 0 && v[0] == '-' {
        let rest = crate::text::slice_chars(&v, 1, v.len());
        assert(rest@ =~= s@.drop_first());
        let digits = string_of(&rest);
        if rest.len() > 0 && rest[0] == '+' {
            assert(!crate::text::all_digits(rest@) ) by {
                assert(!crate::text::is_ascii_digit(rest@[0]));
            }
            return None;
        }
        match crate::text::parse_unsigned(digits.as_str(), 0x8000_0000) {
            Some(n) => {
                let m: i64 = -(n as i64);
                Some(m as i32)
            },
            None => None,
        }
    } else {
        match crate::text::parse_unsigned(s, 0x7fff_ffff) {
            Some(n) => Some(n as i32),
            None => None,
        }
    }
}

/// The year of a release date: its first four bytes read as an `i32`.
pub open spec fn release_year_of(date: Option<Seq<char>>) -> Option<i32> {
    match date {
        Some(d) => match byte_prefix(d, 4) {
            Some(y) => parse_i32_spec(y),
            None => None,
        },
        None => None,
    }
}

/// The year of a release date.
pub fn release_year(date: &Option<String>) -> (r: Option<i32>)
    ensures
        r == release_year_of(opt_view(*date)),
{
    match date {
        Some(d) => {
            let v = str_chars(d.as_str());
            match byte_prefix_exec(&v, 4) {
                Some(y) => parse_i32(string_of(&y).as_str()),
                None => None,
            }
        },
        None => None,
    }
}

/// The MusicBrainz page of a release group.
pub open spec fn release_group_url_of(id: Seq<char>) -> Seq<char> {
    "https://musicbrainz.org/release-group/"@ + id
}

/// The MusicBrainz page of a release group.
pub fn release_group_url(id: &str) -> (r: String)
    ensures
        r@ == release_group_url_of(id@),
{
    crate::text::concat2("https://musicbrainz.org/release-group/", id)
}

/// A disambiguation comment, when it is not blank.
pub open spec fn kept_disambiguation(d: Option<Seq<char>>) -> Option<Seq<char>> {
    match d {
        Some(x) => if trim_ws(x).len() > 0 {
            Some(x)
        } else {
            None
        },
        None => None,
    }
}

/// The candidate a release group gives, apart from its genre (`genre` is the group's
/// primary genre).
pub open spec fn candidate_of(g: MusicBrainzReleaseGroup, genre: Option<Seq<char>>) -> CandidateView {
    CandidateView {
        source: "musicbrainz"@,
        id: g.id@,
        title: g.title@,
        artist: trim_ws(credit_names(g.artist_credit@)),
        release_year: release_year_of(opt_view(g.first_release_date)),
        genre,
        cover_image_url: None,
        disambiguation: kept_disambiguation(opt_view(g.disambiguation)),
        source_url: release_group_url_of(g.id@),
        score: g.score,
    }
}

impl AlbumCandidate {
    /// The candidate a MusicBrainz release group gives.
    pub fn from_release_group(group: MusicBrainzReleaseGroup) -> (r: AlbumCandidate)
        ensures
            r@ == candidate_of(group, primary_genre_of(group.genres@, group.tags@)),
    {
        let MusicBrainzReleaseGroup {
            id,
            title,
            score,
            first_release_date,
            artist_credit,
            disambiguation,
            genres,
            tags,
        } = group;
        let mut names: Vec<char> = Vec::new();
        let mut i: usize = 0;
        while i < artist_credit.len()
            invariant
                i <= artist_credit.len(),
                names@ == credit_names(artist_credit@.take(i as int)),
            decreases artist_credit.len() - i,
        {
            assert(artist_credit@.take(i + 1).drop_last() =~= artist_credit@.take(i as int));
            append_chars(&mut names, &str_chars(artist_credit[i].name.as_str()));
            i += 1;
        }
        assert(artist_credit@.take(artist_credit.len() as int) =~= artist_credit@);
        let artist = string_of(&trim_ws_exec(&names));
        let genre = primary_genre(genres, tags);
        let year = release_year(&first_release_date);
        let source_url = release_group_url(id.as_str());
        let disambiguation = match disambiguation {
            Some(d) => if trim_str(d.as_str()).len() > 0 {
                Some(d)
            } else {
                None
            },
            None => None,
        };
        AlbumCandidate {
            source: owned("musicbrainz"),
            id,
            title,
            artist,
            release_year: year,
            genre,
            cover_image_url: None,
            disambiguation,
            source_url,
            score,
        }
    }
}

/// The MusicBrainz query for the albums of an artist: the trimmed name as an exact phrase.
/// A blank name is refused.
pub open spec fn artist_query_of(artist: Seq<char>) -> Result<Seq<char>, Seq<char>> {
    let a = trim_ws(artist);
    if a.len() == 0 {
        Err("Artist name is required"@)
    } else {
        Ok("artist:\""@ + escaped_phrase(a) + "\""@)
    }
}

/// Builds the MusicBrainz query for the albums of an artist.
pub fn artist_search_query(artist: &str) -> (r: Result<String, String>)
    ensures
        match (r, artist_query_of(artist@)) {
            (Ok(q), Ok(p)) => q@ == p,
            (Err(e), Err(m)) => e@ == m,
            _ => false,
        },
{
    let t = trim_str(artist);
    if t.len() == 0 {
        return Err(owned("Artist name is required"));
    }
    let a = string_of(&t);
    let escaped = escape_lucene_phrase(a.as_str());
    Ok(crate::text::concat3("artist:\"", escaped.as_str(), "\""))
}

/// The release-group search endpoint under a MusicBrainz base URL.
pub fn release_group_search_url(base_url: &str) -> (r: String)
    ensures
        r@ == base_url@ + "/ws/2/release-group"@,
{
    crate::text::concat2(base_url, "/ws/2/release-group")
}

/// The release browse endpoint under a MusicBrainz base URL.
pub fn release_browse_url(base_url: &str) -> (r: String)
    ensures
        r@ == base_url@ + "/ws/2/release"@,
{
    crate::text::concat2(base_url, "/ws/2/release")
}

/// The Cover Art Archive listing of a release group.
pub fn cover_art_archive_url(base_url: &str, release_group_id: &str) -> (r: String)
    ensures
        r@ == base_url@ + "/release-group/"@ + release_group_id@,
{
    crate::text::concat3(base_url, "/release-group/", release_group_id)
}

// ---------------------------------------------------------------------------
// Track lists
// ---------------------------------------------------------------------------

/// The number of tracks on all media of a release.
pub open spec fn media_track_count(media: Seq<MusicBrainzMedium>) -> nat
    decreases media.len(),
{
    if media.len() == 0 {
        0
    } else {
        media_track_count(media.drop_last()) + media.last().tracks@.len()
    }
}

/// The number of tracks of a release.
pub open spec fn track_count_of(r: MusicBrainzRelease) -> nat {
    media_track_count(r.media@)
}

/// Releases this large cannot be scored in 32 bits.
pub open spec fn track_count_fits(r: MusicBrainzRelease) -> bool {
    track_count_of(r) <= 0x7fff_ffff - 1150
}

/// Whether a release's track count is small enough to be scored.
pub fn release_track_count_fits(release: &MusicBrainzRelease) -> (r: bool)
    ensures
        r == track_count_fits(*release),
{
    let bound: usize = 0x7fff_ffff - 1150;
    let mut total: usize = 0;
    let mut i: usize = 0;
    let ghost media = release.media@;
    proof {
        lemma_media_count_prefix(media, media.len() as int);
        assert(media.take(media.len() as int) =~= media);
    }
    while i < release.media.len()
        invariant
            i <= release.media.len(),
            media == release.media@,
            total == media_track_count(media.take(i as int)),
            total <= bound,
            bound == 0x7fff_ffff - 1150,
            forall|k: int| 0 <= k <= media.len() ==> media_track_count(#[trigger] media.take(k)) <= media_track_count(media),
        decreases release.media.len() - i,
    {
        assert(media.take(i + 1).drop_last() =~= media.take(i as int));
        assert(media.take(i + 1).last() == media[i as int]);
        let n = release.media[i].tracks.len();
        if n > bound - total {
            return false;
        }
        total = total + n;
        i += 1;
    }
    assert(media.take(media.len() as int) =~= media);
    true
}

/// Counts the tracks of a release.
pub fn release_track_count(release: &MusicBrainzRelease) -> (r: usize)
    requires
        track_count_fits(*release),
    ensures
        r == track_count_of(*release),
{
    let mut total: usize = 0;
    let mut i: usize = 0;
    let ghost media = release.media@;
    proof {
        lemma_media_count_prefix(media, media.len() as int);
        assert(media.take(media.len() as int) =~= media);
    }
    while i < release.media.len()
        invariant
            i <= release.media.len(),
            media == release.media@,
            total == media_track_count(media.take(i as int)),
            media_track_count(media) <= 0x7fff_ffff - 1150,
            forall|k: int| 0 <= k <= media.len() ==> media_track_count(#[trigger] media.take(k)) <= media_track_count(media),
        decreases release.media.len() - i,
    {
        assert(media.take(i + 1).drop_last() =~= media.take(i as int));
        assert(media.take(i + 1).last() == media[i as int]);
        assert(media_track_count(media.take(i + 1)) <= media_track_count(media));
        total = total + release.media[i].tracks.len();
        i += 1;
    }
    assert(media.take(media.len() as int) =~= media);
    total
}

/// Track counts of prefixes never exceed the whole.
pub proof fn lemma_media_count_prefix(media: Seq<MusicBrainzMedium>, n: int)
    requires
        0 <= n <= media.len(),
    ensures
        forall|k: int| 0 <= k <= n ==> media_track_count(#[trigger] media.take(k)) <= media_track_count(media.take(n)),
    decreases n,
{
    assert(media.take(n).take(n) =~= media.take(n));
    if n > 0 {
        lemma_media_count_prefix(media, n - 1);
        assert(media.take(n).drop_last() =~= media.take(n - 1));
    }
    assert(media.take(media.len() as int) =~= media);
}

/// How well a release represents its group: its track count, 1000 more when it has tracks,
/// 100 more when official, and 50 more when its year is the preferred one.
pub open spec fn release_score_of(r: MusicBrainzRelease, preferred_year: Option<i32>) -> int {
    let n = track_count_of(r) as int;
    let official = match r.status {
        Some(s) => ascii_lowercase(s@) == "official"@,
        None => false,
    };
    let year_match = match preferred_year {
        Some(y) => r.date is Some && release_year_of(opt_view(r.date)) == Some(y),
        None => false,
    };
    n + (if n > 0 {
        1000int
    } else {
        0
    }) + (if official {
        100int
    } else {
        0
    }) + (if year_match {
        50int
    } else {
        0
    })
}

/// Scores a release as the source of a track list.
pub fn release_tracklist_score(release: &MusicBrainzRelease, preferred_year: Option<i32>) -> (r: i32)
    requires
        track_count_fits(*release),
    ensures
        r == release_score_of(*release, preferred_year),
{
    let n = release_track_count(release);
    let mut score: i32 = n as i32;
    if score > 0 {
        score = score + 1000;
    }
    let official = match &release.status {
        Some(s) => {
            let low = ascii_lowercase_exec(&str_chars(s.as_str()));
            crate::text::chars_eq(&low, &str_chars("official"))
        },
        None => false,
    };
    if official {
        score = score + 100;
    }
    let year_match = match preferred_year {
        Some(y) => match &release.date {
            Some(_) => match release_year(&release.date) {
                Some(x) => x == y,
                None => false,
            },
            None => false,
        },
        None => false,
    };
    if year_match {
        score = score + 50;
    }
    score
}

/// A release with its score, ordered for choosing the track list: higher score first, then
/// earlier date (an unknown date first), then title.
pub struct RankedRelease {
    pub score: i32,
    pub release: MusicBrainzRelease,
}

impl SortKey for RankedRelease {
    open spec fn key_lt(&self, other: &Self) -> bool {
        ||| self.score > other.score
        ||| self.score == other.score && opt_str_lt(opt_view(self.release.date), opt_view(other.release.date))
        ||| self.score == other.score && opt_view(self.release.date) == opt_view(other.release.date)
            && str_lt(self.release.title@, other.release.title@)
    }

    proof fn lemma_key_lt_asymmetric(a: Self, b: Self) {
        crate::sort::lemma_str_lt_order(a.release.title@, b.release.title@, a.release.title@);
        crate::sort::lemma_opt_str_lt_order(
            opt_view(a.release.date),
            opt_view(b.release.date),
            opt_view(a.release.date),
        );
    }

    proof fn lemma_key_lt_negatively_transitive(a: Self, b: Self, c: Self) {
        crate::sort::lemma_str_lt_order(a.release.title@, b.release.title@, c.release.title@);
        crate::sort::lemma_opt_str_lt_order(
            opt_view(a.release.date),
            opt_view(b.release.date),
            opt_view(c.release.date),
        );
    }

    fn lt(&self, other: &Self) -> (r: bool) {
        if self.score != other.score {
            return self.score > other.score;
        }
        if opt_str_lt_exec(&self.release.date, &other.release.date) {
            return true;
        }
        let same_date = match (&self.release.date, &other.release.date) {
            (None, None) => true,
            (Some(a), Some(b)) => crate::text::str_eq(a.as_str(), b.as_str()),
            _ => false,
        };
        same_date && str_lt_exec(self.release.title.as_str(), other.release.title.as_str())
    }
}

impl SortKey for MusicBrainzMedium {
    /// Media in position order, an unknown position last.
    open spec fn key_lt(&self, other: &Self) -> bool {
        medium_position_key(*self) < medium_position_key(*other)
    }

    proof fn lemma_key_lt_asymmetric(a: Self, b: Self) {
    }

    proof fn lemma_key_lt_negatively_transitive(a: Self, b: Self, c: Self) {
    }

    fn lt(&self, other: &Self) -> (r: bool) {
        let a: i32 = match self.position {
            Some(p) => p,
            None => 0x7fff_ffff,
        };
        let b: i32 = match other.position {
            Some(p) => p,
            None => 0x7fff_ffff,
        };
        a < b
    }
}

/// Where a medium sorts: its position, an unknown one as `i32::MAX`.
pub open spec fn medium_position_key(m: MusicBrainzMedium) -> int {
    match m.position {
        Some(p) => p as int,
        None => 0x7fff_ffff,
    }
}

/// A track of an album's track list.
#[derive(Clone, Debug)]
pub struct AlbumTrack {
    pub disc_number: Option<i32>,
    pub number: Option<String>,
    pub title: String,
    pub artist: Option<String>,
    pub length_ms: Option<i32>,
}

/// The characters of a track's fields.
pub struct AlbumTrackView {
    pub disc_number: Option<i32>,
    pub number: Option<Seq<char>>,
    pub title: Seq<char>,
    pub artist: Option<Seq<char>>,
    pub length_ms: Option<i32>,
}

impl View for AlbumTrack {
    type V = AlbumTrackView;

    open spec fn view(&self) -> AlbumTrackView {
        AlbumTrackView {
            disc_number: self.disc_number,
            number: opt_view(self.number),
            title: self.title@,
            artist: opt_view(self.artist),
            length_ms: self.length_ms,
        }
    }
}

/// The views of a list of tracks.
pub open spec fn track_views(v: Seq<AlbumTrack>) -> Seq<AlbumTrackView> {
    v.map_values(|t: AlbumTrack| t@)
}

/// A track's title: its own when not blank, else its recording's, else `Untitled track`.
pub open spec fn track_title_of(t: MusicBrainzTrack) -> Seq<char> {
    let own = match t.title {
        Some(x) => if trim_ws(x@).len() > 0 {
            Some(x@)
        } else {
            None
        },
        None => None,
    };
    match own {
        Some(x) => x,
        None => match t.recording {
            Some(rec) => match rec.title {
                Some(y) => y@,
                None => "Untitled track"@,
            },
            None => "Untitled track"@,
        },
    }
}

/// The album track a MusicBrainz track gives on disc `disc`.
pub open spec fn album_track_of(disc: Option<i32>, t: MusicBrainzTrack) -> AlbumTrackView {
    AlbumTrackView {
        disc_number: disc,
        number: opt_view(t.number),
        title: track_title_of(t),
        artist: artist_credit_of(t.artist_credit@),
        length_ms: t.length,
    }
}

/// The album tracks of a medium's tracks.
pub open spec fn medium_tracks(disc: Option<i32>, tracks: Seq<MusicBrainzTrack>) -> Seq<AlbumTrackView>
    decreases tracks.len(),
{
    if tracks.len() == 0 {
        seq![]
    } else {
        medium_tracks(disc, tracks.drop_last()).push(album_track_of(disc, tracks.last()))
    }
}

/// The album tracks of all media, in order.
pub open spec fn all_tracks(media: Seq<MusicBrainzMedium>) -> Seq<AlbumTrackView>
    decreases media.len(),
{
    if media.len() == 0 {
        seq![]
    } else {
        all_tracks(media.drop_last()) + medium_tracks(media.last().position, media.last().tracks@)
    }
}

/// A medium's album tracks are its tracks, one for one and in the same order.
proof fn lemma_medium_tracks_in_order(disc: Option<i32>, tracks: Seq<MusicBrainzTrack>)
    ensures
        medium_tracks(disc, tracks).len() == tracks.len(),
        forall|k: int|
            0 <= k < tracks.len() ==> #[trigger] medium_tracks(disc, tracks)[k] == album_track_of(
                disc,
                tracks[k],
            ),
    decreases tracks.len(),
{
    if tracks.len() > 0 {
        let d = tracks.drop_last();
        lemma_medium_tracks_in_order(disc, d);
        assert forall|k: int| 0 <= k < tracks.len() implies #[trigger] medium_tracks(disc, tracks)[k]
            == album_track_of(disc, tracks[k]) by {
            if k < tracks.len() - 1 {
                assert(medium_tracks(disc, tracks)[k] == medium_tracks(disc, d)[k]);
                assert(d[k] == tracks[k]);
            }
        }
    }
}

/// The album tracks of a list of media are as many as their tracks.
proof fn lemma_all_tracks_len(media: Seq<MusicBrainzMedium>)
    ensures
        all_tracks(media).len() == media_track_count(media),
    decreases media.len(),
{
    if media.len() > 0 {
        lemma_all_tracks_len(media.drop_last());
        lemma_medium_tracks_in_order(media.last().position, media.last().tracks@);
    }
}

/// A track list reads the media one after another and each medium's tracks in their given
/// order: track `k` of medium `m` is the album track at position `k` after the tracks of the
/// media before `m`, numbered with medium `m`'s position.
pub proof fn tracks_keep_medium_order(media: Seq<MusicBrainzMedium>, m: int, k: int)
    requires
        0 <= m < media.len(),
        0 <= k < media[m].tracks@.len(),
    ensures
        all_tracks(media).len() == media_track_count(media),
        media_track_count(media.take(m)) + k < all_tracks(media).len(),
        all_tracks(media)[media_track_count(media.take(m)) + k] == album_track_of(
            media[m].position,
            media[m].tracks@[k],
        ),
    decreases media.len(),
{
    let d = media.drop_last();
    lemma_all_tracks_len(media);
    lemma_all_tracks_len(d);
    let last = media.last();
    lemma_medium_tracks_in_order(last.position, last.tracks@);
    if m == media.len() - 1 {
        assert(media.take(m) =~= d);
        assert(last == media[m]);
    } else {
        tracks_keep_medium_order(d, m, k);
        assert(d.take(m) =~= media.take(m));
        assert(d[m] == media[m]);
        lemma_media_count_take(d, m);
    }
}

/// The tracks of the first media are no more than the tracks of all of them.
proof fn lemma_media_count_take(media: Seq<MusicBrainzMedium>, m: int)
    requires
        0 <= m <= media.len(),
    ensures
        media_track_count(media.take(m)) <= media_track_count(media),
    decreases media.len(),
{
    if m < media.len() {
        lemma_media_count_take(media.drop_last(), m);
        assert(media.drop_last().take(m) =~= media.take(m));
    } else {
        assert(media.take(m) =~= media);
    }
}

/// The distinct non-blank formats of the media, in order of first appearance.
pub open spec fn media_formats(media: Seq<MusicBrainzMedium>) -> Seq<Seq<char>>
    decreases media.len(),
{
    if media.len() == 0 {
        seq![]
    } else {
        let prev = media_formats(media.drop_last());
        match media.last().format {
            Some(f) => if trim_ws(f@).len() > 0 && !prev.contains(f@) {
                prev.push(f@)
            } else {
                prev
            },
            None => prev,
        }
    }
}

/// The track list of a release.
#[derive(Clone, Debug)]
pub struct AlbumReleaseTracklist {
    pub source_url: String,
    pub title: String,
    pub date: Option<String>,
    pub country: Option<String>,
    pub format: Option<String>,
    pub tracks: Vec<AlbumTrack>,
}

/// The characters of a track list's fields.
pub struct TracklistView {
    pub source_url: Seq<char>,
    pub title: Seq<char>,
    pub date: Option<Seq<char>>,
    pub country: Option<Seq<char>>,
    pub format: Option<Seq<char>>,
    pub tracks: Seq<AlbumTrackView>,
}

impl View for AlbumReleaseTracklist {
    type V = TracklistView;

    open spec fn view(&self) -> TracklistView {
        TracklistView {
            source_url: self.source_url@,
            title: self.title@,
            date: opt_view(self.date),
            country: opt_view(self.country),
            format: opt_view(self.format),
            tracks: track_views(self.tracks@),
        }
    }
}

/// The track list of a chosen release: its page, title, date and country, its formats joined
/// by commas (none when no medium names one), and the tracks of its media in position order.
pub open spec fn tracklist_of_release(r: MusicBrainzRelease) -> TracklistView {
    let media = stable_sort(r.media@);
    let formats = media_formats(media);
    TracklistView {
        source_url: "https://musicbrainz.org/release/"@ + r.id@,
        title: r.title@,
        date: opt_view(r.date),
        country: opt_view(r.country),
        format: if formats.len() == 0 {
            None
        } else {
            Some(join(formats, ", "@))
        },
        tracks: all_tracks(media),
    }
}

/// The track list of a release with a single medium is that medium's tracks, one for one and
/// in the order the release gives them.
pub proof fn single_medium_tracklist_in_order(r: MusicBrainzRelease)
    requires
        r.media@.len() == 1,
    ensures
        tracklist_of_release(r).tracks.len() == r.media@[0].tracks@.len(),
        forall|k: int|
            0 <= k < r.media@[0].tracks@.len() ==> #[trigger] tracklist_of_release(r).tracks[k]
                == album_track_of(r.media@[0].position, r.media@[0].tracks@[k]),
{
    let media = r.media@;
    assert(media.drop_last() =~= Seq::<MusicBrainzMedium>::empty());
    assert(stable_sort(media) =~= media) by {
        assert(stable_sort(media.drop_last()) =~= Seq::<MusicBrainzMedium>::empty());
        assert(insert_pos(Seq::<MusicBrainzMedium>::empty(), media.last()) == 0);
        assert(media.last() == media[0]);
    }
    assert forall|k: int| 0 <= k < media[0].tracks@.len() implies #[trigger] tracklist_of_release(r).tracks[k]
        == album_track_of(media[0].position, media[0].tracks@[k]) by {
        tracks_keep_medium_order(media, 0, k);
        assert(media.take(0) =~= Seq::<MusicBrainzMedium>::empty());
    }
    lemma_all_tracks_len(media);
    assert(media.drop_last() =~= Seq::<MusicBrainzMedium>::empty());
}

/// The releases that have tracks, each with its score.
pub open spec fn ranked_releases(rs: Seq<MusicBrainzRelease>, preferred_year: Option<i32>) -> Seq<
    RankedRelease,
>
    decreases rs.len(),
{
    if rs.len() == 0 {
        seq![]
    } else {
        let prev = ranked_releases(rs.drop_last(), preferred_year);
        let r = rs.last();
        if track_count_of(r) > 0 {
            prev.push(RankedRelease { score: release_score_of(r, preferred_year) as i32, release: r })
        } else {
            prev
        }
    }
}

/// The track list of a release group: that of the first release in ranking order among those
/// with tracks, or none when no release has tracks.
pub open spec fn release_group_tracklist(rs: Seq<MusicBrainzRelease>, preferred_year: Option<i32>) -> Option<
    TracklistView,
> {
    let ranked = stable_sort(ranked_releases(rs, preferred_year));
    if ranked.len() == 0 {
        None
    } else {
        Some(tracklist_of_release(ranked[0].release))
    }
}

/// A release's score lies between 0 and its track count plus 1150.
proof fn lemma_release_score_bounds(r: MusicBrainzRelease, preferred_year: Option<i32>)
    ensures
        0 <= release_score_of(r, preferred_year) <= track_count_of(r) + 1150,
{
}

/// A release that fits is scored within `i32`, so its ranked score is its score.
proof fn lemma_ranked_score(r: MusicBrainzRelease, preferred_year: Option<i32>)
    requires
        track_count_fits(r),
    ensures
        (release_score_of(r, preferred_year) as i32) as int == release_score_of(r, preferred_year),
{
    lemma_release_score_bounds(r, preferred_year);
}

/// Every ranked release is a release with tracks, ranked with its own score.
proof fn lemma_ranked_from_releases(rs: Seq<MusicBrainzRelease>, preferred_year: Option<i32>)
    requires
        forall|i: int| 0 <= i < rs.len() ==> track_count_fits(#[trigger] rs[i]),
    ensures
        forall|k: int|
            #![trigger ranked_releases(rs, preferred_year)[k]]
            0 <= k < ranked_releases(rs, preferred_year).len() ==> exists|i: int|
                0 <= i < rs.len() && #[trigger] rs[i] == ranked_releases(rs, preferred_year)[k].release
                    && track_count_of(rs[i]) > 0 && ranked_releases(rs, preferred_year)[k].score
                    == release_score_of(rs[i], preferred_year),
    decreases rs.len(),
{
    if rs.len() > 0 {
        let d = rs.drop_last();
        assert forall|i: int| 0 <= i < d.len() implies track_count_fits(#[trigger] d[i]) by {
            assert(d[i] == rs[i]);
        }
        lemma_ranked_from_releases(d, preferred_year);
        let prev = ranked_releases(d, preferred_year);
        let cur = ranked_releases(rs, preferred_year);
        let n = rs.len() - 1;
        assert(rs.last() == rs[n]);
        lemma_ranked_score(rs[n], preferred_year);
        assert forall|k: int| #![trigger cur[k]] 0 <= k < cur.len() implies exists|i: int|
            0 <= i < rs.len() && #[trigger] rs[i] == cur[k].release && track_count_of(rs[i]) > 0
                && cur[k].score == release_score_of(rs[i], preferred_year) by {
            if k < prev.len() {
                assert(cur[k] == prev[k]);
                let i = choose|i: int|
                    0 <= i < d.len() && #[trigger] d[i] == prev[k].release && track_count_of(d[i]) > 0
                        && prev[k].score == release_score_of(d[i], preferred_year);
                assert(rs[i] == d[i]);
            } else {
                assert(cur[k].release == rs[n]);
            }
        }
    }
}

/// Every release with tracks is ranked with its own score.
proof fn lemma_releases_ranked(rs: Seq<MusicBrainzRelease>, preferred_year: Option<i32>, i: int)
    requires
        0 <= i < rs.len(),
        track_count_of(rs[i]) > 0,
    ensures
        exists|k: int|
            0 <= k < ranked_releases(rs, preferred_year).len() && #[trigger] ranked_releases(
                rs,
                preferred_year,
            )[k].release == rs[i] && ranked_releases(rs, preferred_year)[k].score == (release_score_of(
                rs[i],
                preferred_year,
            ) as i32),
    decreases rs.len(),
{
    let d = rs.drop_last();
    let prev = ranked_releases(d, preferred_year);
    let cur = ranked_releases(rs, preferred_year);
    if i < rs.len() - 1 {
        assert(d[i] == rs[i]);
        lemma_releases_ranked(d, preferred_year, i);
        let k = choose|k: int|
            0 <= k < prev.len() && #[trigger] prev[k].release == d[i] && prev[k].score == (release_score_of(
                d[i],
                preferred_year,
            ) as i32);
        assert(cur[k] == prev[k]);
    } else {
        assert(rs.last() == rs[i]);
        assert(cur[prev.len() as int].release == rs[i]);
    }
}

/// The track list of a release group comes from its best release: there is none exactly when
/// no release has tracks, and otherwise it is the track list of a release with tracks whose
/// score no other release with tracks beats.
pub proof fn tracklist_comes_from_best_release(rs: Seq<MusicBrainzRelease>, preferred_year: Option<i32>)
    requires
        forall|i: int| 0 <= i < rs.len() ==> track_count_fits(#[trigger] rs[i]),
    ensures
        release_group_tracklist(rs, preferred_year) is None <==> forall|i: int|
            0 <= i < rs.len() ==> track_count_of(#[trigger] rs[i]) == 0,
        release_group_tracklist(rs, preferred_year) matches Some(t) ==> exists|i: int|
            0 <= i < rs.len() && track_count_of(#[trigger] rs[i]) > 0 && t == tracklist_of_release(rs[i])
                && forall|j: int|
                0 <= j < rs.len() && track_count_of(#[trigger] rs[j]) > 0 ==> release_score_of(
                    rs[j],
                    preferred_year,
                ) <= release_score_of(rs[i], preferred_year),
{
    broadcast use vstd::seq_lib::group_to_multiset_ensures;

    let ranked = ranked_releases(rs, preferred_year);
    let sorted = stable_sort(ranked);
    lemma_ranked_from_releases(rs, preferred_year);
    lemma_stable_sort_len(ranked);
    crate::sort::stable_sort_is_sorted_permutation(ranked);
    if sorted.len() == 0 {
        assert forall|i: int| 0 <= i < rs.len() implies track_count_of(#[trigger] rs[i]) == 0 by {
            if track_count_of(rs[i]) > 0 {
                lemma_releases_ranked(rs, preferred_year, i);
            }
        }
    } else {
        let top = sorted[0];
        assert(sorted.contains(top));
        assert(ranked.to_multiset().count(top) > 0);
        assert(ranked.contains(top));
        let k0 = choose|k: int| 0 <= k < ranked.len() && ranked[k] == top;
        let i = choose|i: int|
            0 <= i < rs.len() && #[trigger] rs[i] == ranked[k0].release && track_count_of(rs[i]) > 0
                && ranked[k0].score == release_score_of(rs[i], preferred_year);
        assert forall|j: int|
            0 <= j < rs.len() && track_count_of(#[trigger] rs[j]) > 0 implies release_score_of(
                rs[j],
                preferred_year,
            ) <= release_score_of(rs[i], preferred_year) by {
            lemma_releases_ranked(rs, preferred_year, j);
            lemma_ranked_score(rs[j], preferred_year);
            let k = choose|k: int|
                0 <= k < ranked.len() && #[trigger] ranked[k].release == rs[j] && ranked[k].score == (
                release_score_of(rs[j], preferred_year) as i32);
            let x = ranked[k];
            assert(ranked.contains(x));
            assert(sorted.to_multiset().count(x) > 0);
            assert(sorted.contains(x));
            let m = choose|m: int| 0 <= m < sorted.len() && sorted[m] == x;
            if m > 0 {
                assert(!sorted[m].key_lt(&sorted[0]));
            }
        }
        assert(rs[i] == top.release);
    }
}

fn copy_opt(s: &Option<String>) -> (r: Option<String>)
    ensures
        opt_view(r) == opt_view(*s),
{
    copy_opt_string(s)
}

fn album_track(disc: Option<i32>, t: &MusicBrainzTrack) -> (r: AlbumTrack)
    ensures
        r@ == album_track_of(disc, *t),
{
    let own = match &t.title {
        Some(x) => if trim_str(x.as_str()).len() > 0 {
            Some(copy_string(x))
        } else {
            None
        },
        None => None,
    };
    let title = match own {
        Some(x) => x,
        None => match &t.recording {
            Some(rec) => match &rec.title {
                Some(y) => copy_string(y),
                None => owned("Untitled track"),
            },
            None => owned("Untitled track"),
        },
    };
    AlbumTrack {
        disc_number: disc,
        number: copy_opt(&t.number),
        title,
        artist: artist_credit_name(&t.artist_credit),
        length_ms: t.length,
    }
}

fn formats_contain(formats: &Vec<String>, f: &String) -> (r: bool)
    ensures
        r == strs(formats@).contains(f@),
{
    let mut i: usize = 0;
    while i < formats.len()
        invariant
            i <= formats.len(),
            forall|k: int| 0 <= k < i ==> formats@[k]@ != f@,
        decreases formats.len() - i,
    {
        if crate::text::str_eq(formats[i].as_str(), f.as_str()) {
            assert(strs(formats@)[i as int] == f@);
            return true;
        }
        i += 1;
    }
    assert forall|k: int| 0 <= k < strs(formats@).len() implies strs(formats@)[k] != f@ by {
        assert(strs(formats@)[k] == formats@[k]@);
    }
    false
}

/// The track list of a chosen release.
pub fn release_tracklist(release: MusicBrainzRelease) -> (r: AlbumReleaseTracklist)
    ensures
        r@ == tracklist_of_release(release),
{
    let ghost orig_media = release.media@;
    let MusicBrainzRelease { id, title, date, country, status: _, media } = release;
    let media = sort_by_key(media);
    proof {
        lemma_stable_sort_len(orig_media);
    }
    let ghost sm = media@;
    let mut formats: Vec<String> = Vec::new();
    let mut tracks: Vec<AlbumTrack> = Vec::new();
    let mut i: usize = 0;
    while i < media.len()
        invariant
            i <= media.len(),
            sm == media@,
            strs(formats@) == media_formats(sm.take(i as int)),
            track_views(tracks@) == all_tracks(sm.take(i as int)),
        decreases media.len() - i,
    {
        assert(sm.take(i + 1).drop_last() =~= sm.take(i as int));
        assert(sm.take(i + 1).last() == sm[i as int]);
        let medium = &media[i];
        match &medium.format {
            Some(f) => {
                if trim_str(f.as_str()).len() > 0 && !formats_contain(&formats, f) {
                    let ghost before = strs(formats@);
                    formats.push(copy_string(f));
                    assert(strs(formats@) =~= before.push(f@));
                }
            },
            None => {},
        }
        let ghost start = track_views(tracks@);
        let mut j: usize = 0;
        while j < medium.tracks.len()
            invariant
                j <= medium.tracks.len(),
                track_views(tracks@) == start + medium_tracks(
                    medium.position,
                    medium.tracks@.take(j as int),
                ),
            decreases medium.tracks.len() - j,
        {
            assert(medium.tracks@.take(j + 1).drop_last() =~= medium.tracks@.take(j as int));
            assert(medium.tracks@.take(j + 1).last() == medium.tracks@[j as int]);
            let ghost before = track_views(tracks@);
            tracks.push(album_track(medium.position, &medium.tracks[j]));
            assert(track_views(tracks@) =~= before.push(tracks@.last()@));
            j += 1;
        }
        assert(medium.tracks@.take(medium.tracks.len() as int) =~= medium.tracks@);
        i += 1;
    }
    assert(sm.take(media.len() as int) =~= sm);
    let format = if formats.len() == 0 {
        None
    } else {
        let parts = crate::search_terms::strings_to_chars(&formats);
        Some(string_of(&join_exec(&parts, &str_chars(", "))))
    };
    let source_url = crate::text::concat2("https://musicbrainz.org/release/", id.as_str());
    AlbumReleaseTracklist { source_url, title, date, country, format, tracks }
}

/// Chooses the release that best represents a release group and reads its track list.
pub fn select_release_tracklist(releases: Vec<MusicBrainzRelease>, preferred_year: Option<i32>) -> (r: Option<
    AlbumReleaseTracklist,
>)
    requires
        forall|i: int| 0 <= i < releases@.len() ==> track_count_fits(#[trigger] releases@[i]),
    ensures
        match (r, release_group_tracklist(releases@, preferred_year)) {
            (Some(t), Some(v)) => t@ == v,
            (None, None) => true,
            _ => false,
        },
{
    let ghost orig = releases@;
    let n: usize = releases.len();
    let mut rev = reverse_vec(releases);
    let mut ranked: Vec<RankedRelease> = Vec::new();
    let mut i: usize = 0;
    while rev.len() > 0
        invariant
            i + rev@.len() == orig.len(),
            orig.len() == n,
            forall|k: int| 0 <= k < rev@.len() ==> #[trigger] rev@[k] == orig[orig.len() - 1 - k],
            forall|k: int| 0 <= k < orig.len() ==> track_count_fits(#[trigger] orig[k]),
            ranked@ == ranked_releases(orig.take(i as int), preferred_year),
        decreases rev.len(),
    {
        let r = rev.pop().unwrap();
        assert(r == orig[i as int]);
        assert(orig.take(i + 1).drop_last() =~= orig.take(i as int));
        assert(orig.take(i + 1).last() == r);
        if release_track_count(&r) > 0 {
            let score = release_tracklist_score(&r, preferred_year);
            ranked.push(RankedRelease { score, release: r });
        }
        i += 1;
    }
    assert(orig.take(orig.len() as int) =~= orig);
    let ghost unsorted = ranked@;
    let sorted = sort_by_key(ranked);
    proof {
        lemma_stable_sort_len(unsorted);
    }
    if sorted.len() == 0 {
        return None;
    }
    let mut sorted = sorted;
    let best = sorted.swap_remove(0);
    Some(release_tracklist(best.release))
}

} // verus!
