//! Album metadata: MusicBrainz candidates, how they are ranked against recognised cover
//! terms, and how lookups are decided.
use vstd::prelude::*;

use crate::config::opt_view;
use crate::normalize::{normalize_chars, spec_normalize};
use crate::search_terms::{
    cover_term_fragments, fragments_of, lemma_fragments_len, meaningful_tokens,
    meaningful_tokens_of, strs,
};
use crate::sort::{opt_i32_lt, reverse_vec, sort_by_key, stable_sort, str_lt, str_lt_exec, SortKey};
use crate::text::{
    chars_eq, contains, contains_exec, copy_opt_string, copy_string, owned, str_chars, utf8_len,
    utf8_length,
};

verus! {

/// Candidate album shown to admins when MusicBrainz returns plausible matches.
#[derive(Clone, Debug)]
pub struct AlbumCandidate {
    pub source: String,
    pub id: String,
    pub title: String,
    pub artist: String,
    pub release_year: Option<i32>,
    pub genre: Option<String>,
    pub cover_image_url: Option<String>,
    pub disambiguation: Option<String>,
    pub source_url: String,
    pub score: Option<i32>,
}

/// The characters of a candidate's fields.
pub struct CandidateView {
    pub source: Seq<char>,
    pub id: Seq<char>,
    pub title: Seq<char>,
    pub artist: Seq<char>,
    pub release_year: Option<i32>,
    pub genre: Option<Seq<char>>,
    pub cover_image_url: Option<Seq<char>>,
    pub disambiguation: Option<Seq<char>>,
    pub source_url: Seq<char>,
    pub score: Option<i32>,
}

impl View for AlbumCandidate {
    type V = CandidateView;

    open spec fn view(&self) -> CandidateView {
        CandidateView {
            source: self.source@,
            id: self.id@,
            title: self.title@,
            artist: self.artist@,
            release_year: self.release_year,
            genre: opt_view(self.genre),
            cover_image_url: opt_view(self.cover_image_url),
            disambiguation: opt_view(self.disambiguation),
            source_url: self.source_url@,
            score: self.score,
        }
    }
}

/// The views of a list of candidates.
pub open spec fn cands(v: Seq<AlbumCandidate>) -> Seq<CandidateView> {
    v.map_values(|c: AlbumCandidate| c@)
}

impl AlbumCandidate {
    /// A copy of this candidate.
    pub fn duplicate(&self) -> (r: AlbumCandidate)
        ensures
            r@ == self@,
    {
        AlbumCandidate {
            source: copy_string(&self.source),
            id: copy_string(&self.id),
            title: copy_string(&self.title),
            artist: copy_string(&self.artist),
            release_year: self.release_year,
            genre: copy_opt_string(&self.genre),
            cover_image_url: copy_opt_string(&self.cover_image_url),
            disambiguation: copy_opt_string(&self.disambiguation),
            source_url: copy_string(&self.source_url),
            score: self.score,
        }
    }
}

/// A MusicBrainz search score, absent counting as zero.
pub open spec fn score_of(c: CandidateView) -> int {
    match c.score {
        Some(s) => s as int,
        None => 0,
    }
}

/// Score of one fragment key against a candidate key: exact match, candidate key (of at
/// least six bytes) inside the fragment, or fragment (of at least six bytes) inside the key.
pub open spec fn key_score(f: Seq<char>, key: Seq<char>, exact: int, longer: int, shorter: int) -> int {
    if key.len() > 0 && f == key {
        exact
    } else if utf8_len(key) >= 6 && contains(f, key) {
        longer
    } else if utf8_len(f) >= 6 && contains(key, f) {
        shorter
    } else {
        0
    }
}

/// Points that fragments earn against a candidate's title and artist keys.
pub open spec fn fragments_score(frags: Seq<Seq<char>>, title: Seq<char>, artist: Seq<char>) -> int
    decreases frags.len(),
{
    if frags.len() == 0 {
        0
    } else {
        let f = spec_normalize(frags.last());
        fragments_score(frags.drop_last(), title, artist) + if f.len() == 0 {
            0
        } else {
            key_score(f, title, 220, 160, 90) + key_score(f, artist, 180, 120, 70)
        }
    }
}

/// How many of `tokens` occur in `pool`.
pub open spec fn count_in(tokens: Seq<Seq<char>>, pool: Seq<Seq<char>>) -> nat
    decreases tokens.len(),
{
    if tokens.len() == 0 {
        0
    } else {
        count_in(tokens.drop_last(), pool) + if pool.contains(tokens.last()) {
            1nat
        } else {
            0nat
        }
    }
}

/// Points for shared meaningful tokens: per term, 25 per title token (at most 80) and 20 per
/// artist token (at most 60), each only when at least two tokens are shared.
pub open spec fn overlap_score(title_tokens: Seq<Seq<char>>, artist_tokens: Seq<Seq<char>>, terms: Seq<Seq<char>>) -> int
    decreases terms.len(),
{
    if terms.len() == 0 {
        0
    } else {
        let pool = meaningful_tokens_of(terms.last());
        let t = count_in(title_tokens, pool) as int;
        let a = count_in(artist_tokens, pool) as int;
        overlap_score(title_tokens, artist_tokens, terms.drop_last()) + (if t >= 2 {
            if t * 25 <= 80 {
                t * 25
            } else {
                80
            }
        } else {
            0
        }) + (if a >= 2 {
            if a * 20 <= 60 {
                a * 20
            } else {
                60
            }
        } else {
            0
        })
    }
}

/// How well a candidate matches the terms recognised on a cover.
pub open spec fn relevance(title: Seq<char>, artist: Seq<char>, terms: Seq<Seq<char>>) -> int {
    fragments_score(fragments_of(terms), spec_normalize(title), spec_normalize(artist))
        + overlap_score(meaningful_tokens_of(title), meaningful_tokens_of(artist), terms)
}

/// Points of one fragment key against a candidate key are never negative.
proof fn lemma_key_score_nonneg(f: Seq<char>, key: Seq<char>, exact: int, longer: int, shorter: int)
    requires
        exact >= 0,
        longer >= 0,
        shorter >= 0,
    ensures
        key_score(f, key, exact, longer, shorter) >= 0,
{
}

/// Each fragment earns at least its own title and artist points.
proof fn lemma_fragment_points(frags: Seq<Seq<char>>, title: Seq<char>, artist: Seq<char>, i: int)
    requires
        0 <= i < frags.len(),
        spec_normalize(frags[i]).len() > 0,
    ensures
        fragments_score(frags, title, artist) >= key_score(spec_normalize(frags[i]), title, 220, 160, 90)
            + key_score(spec_normalize(frags[i]), artist, 180, 120, 70),
    decreases frags.len(),
{
    let d = frags.drop_last();
    lemma_fragments_score_bounds(d, title, artist);
    let f = spec_normalize(frags.last());
    lemma_key_score_nonneg(f, title, 220, 160, 90);
    lemma_key_score_nonneg(f, artist, 180, 120, 70);
    if i < frags.len() - 1 {
        assert(d[i] == frags[i]);
        lemma_fragment_points(d, title, artist, i);
    } else {
        assert(frags.last() == frags[i]);
    }
}

/// Every recognised fragment counts for the candidate on both sides, independently: a
/// fragment whose key equals the candidate's artist key earns 180 points (120 when it holds
/// an artist key of at least six bytes, 70 when the artist key holds the fragment of at
/// least six bytes), and likewise 220, 160 or 90 against the title key, so the relevance is
/// at least the sum. In particular a fragment naming the artist gives at least 180 points,
/// whatever the title.
pub proof fn relevance_counts_title_and_artist(
    title: Seq<char>,
    artist: Seq<char>,
    terms: Seq<Seq<char>>,
    i: int,
)
    requires
        0 <= i < fragments_of(terms).len(),
        spec_normalize(fragments_of(terms)[i]).len() > 0,
    ensures
        ({
            let f = spec_normalize(fragments_of(terms)[i]);
            let t = spec_normalize(title);
            let a = spec_normalize(artist);
            let title_points = if t.len() > 0 && f == t {
                220
            } else if utf8_len(t) >= 6 && contains(f, t) {
                160
            } else if utf8_len(f) >= 6 && contains(t, f) {
                90
            } else {
                0int
            };
            let artist_points = if a.len() > 0 && f == a {
                180
            } else if utf8_len(a) >= 6 && contains(f, a) {
                120
            } else if utf8_len(f) >= 6 && contains(a, f) {
                70
            } else {
                0int
            };
            relevance(title, artist, terms) >= title_points + artist_points
        }),
        spec_normalize(fragments_of(terms)[i]) == spec_normalize(artist) ==> relevance(
            title,
            artist,
            terms,
        ) >= 180,
{
    lemma_fragment_points(fragments_of(terms), spec_normalize(title), spec_normalize(artist), i);
    lemma_overlap_score_bounds(meaningful_tokens_of(title), meaningful_tokens_of(artist), terms);
    lemma_key_score_nonneg(
        spec_normalize(fragments_of(terms)[i]),
        spec_normalize(title),
        220,
        160,
        90,
    );
}

/// Whether a list of strings holds `t`.
fn strings_contain(pool: &Vec<String>, t: &String) -> (r: bool)
    ensures
        r == strs(pool@).contains(t@),
{
    let mut i: usize = 0;
    while i < pool.len()
        invariant
            i <= pool.len(),
            forall|k: int| 0 <= k < i ==> strs(pool@)[k] != t@,
        decreases pool.len() - i,
    {
        let a = crate::text::str_chars(pool[i].as_str());
        let b = crate::text::str_chars(t.as_str());
        if chars_eq(&a, &b) {
            assert(strs(pool@)[i as int] == t@);
            return true;
        }
        i += 1;
    }
    false
}

/// How many of `tokens` occur in `pool`.
pub fn count_in_exec(tokens: &Vec<String>, pool: &Vec<String>) -> (r: u64)
    ensures
        r == count_in(strs(tokens@), strs(pool@)),
        r <= tokens.len(),
{
    let mut n: u64 = 0;
    let mut i: usize = 0;
    while i < tokens.len()
        invariant
            i <= tokens.len(),
            n == count_in(strs(tokens@).take(i as int), strs(pool@)),
            n <= i,
        decreases tokens.len() - i,
    {
        assert(strs(tokens@).take(i + 1).drop_last() =~= strs(tokens@).take(i as int));
        assert(strs(tokens@).take(i + 1).last() == tokens@[i as int]@);
        if strings_contain(pool, &tokens[i]) {
            n += 1;
        }
        i += 1;
    }
    assert(strs(tokens@).take(tokens.len() as int) =~= strs(tokens@));
    n
}

/// Score of one fragment key against a candidate key.
fn key_score_exec(f: &Vec<char>, key: &Vec<char>, exact: i64, longer: i64, shorter: i64) -> (r: i64)
    ensures
        r == key_score(f@, key@, exact as int, longer as int, shorter as int),
{
    if key.len() > 0 && chars_eq(f, key) {
        exact
    } else if utf8_length(key) >= 6 && contains_exec(f, key) {
        longer
    } else if utf8_length(f) >= 6 && contains_exec(key, f) {
        shorter
    } else {
        0
    }
}

/// Bounds of the fragment points, which keep the relevance within `i32`.
pub proof fn lemma_fragments_score_bounds(frags: Seq<Seq<char>>, title: Seq<char>, artist: Seq<char>)
    ensures
        0 <= fragments_score(frags, title, artist) <= 400 * frags.len(),
    decreases frags.len(),
{
    if frags.len() > 0 {
        lemma_fragments_score_bounds(frags.drop_last(), title, artist);
    }
}

/// Bounds of the shared-token points, which keep the relevance within `i32`.
pub proof fn lemma_overlap_score_bounds(tt: Seq<Seq<char>>, at: Seq<Seq<char>>, terms: Seq<Seq<char>>)
    ensures
        0 <= overlap_score(tt, at, terms) <= 140 * terms.len(),
    decreases terms.len(),
{
    if terms.len() > 0 {
        lemma_overlap_score_bounds(tt, at, terms.drop_last());
    }
}

/// How well a candidate matches the terms recognised on a cover. Exact title and artist
/// matches count most; shared words count too. The score is at most 1340 points a term, so
/// `i128` holds it for any number of terms.
pub fn cover_candidate_relevance(candidate: &AlbumCandidate, terms: &Vec<String>) -> (r: i128)
    ensures
        r == relevance(candidate.title@, candidate.artist@, strs(terms@)),
        0 <= r <= 1340 * terms.len(),
{
    let title = normalize_chars(candidate.title.as_str());
    let artist = normalize_chars(candidate.artist.as_str());
    let fragments = cover_term_fragments(terms);
    proof {
        lemma_fragments_len(strs(terms@));
        lemma_fragments_score_bounds(strs(fragments@), title@, artist@);
        lemma_overlap_score_bounds(
            meaningful_tokens_of(candidate.title@),
            meaningful_tokens_of(candidate.artist@),
            strs(terms@),
        );
    }
    let mut total: i128 = 0;
    let mut i: usize = 0;
    while i < fragments.len()
        invariant
            i <= fragments.len() <= 3 * terms.len(),
            title@ == spec_normalize(candidate.title@),
            artist@ == spec_normalize(candidate.artist@),
            total == fragments_score(strs(fragments@).take(i as int), title@, artist@),
        decreases fragments.len() - i,
    {
        assert(strs(fragments@).take(i + 1).drop_last() =~= strs(fragments@).take(i as int));
        assert(strs(fragments@).take(i + 1).last() == fragments@[i as int]@);
        proof {
            lemma_fragments_score_bounds(strs(fragments@).take(i as int), title@, artist@);
        }
        let f = normalize_chars(fragments[i].as_str());
        if f.len() > 0 {
            let a = key_score_exec(&f, &title, 220, 160, 90);
            let b = key_score_exec(&f, &artist, 180, 120, 70);
            total = total + (a as i128) + (b as i128);
        }
        i += 1;
    }
    assert(strs(fragments@).take(fragments.len() as int) =~= strs(fragments@));
    let title_tokens = meaningful_tokens(candidate.title.as_str());
    let artist_tokens = meaningful_tokens(candidate.artist.as_str());
    let mut overlap: i128 = 0;
    let mut j: usize = 0;
    while j < terms.len()
        invariant
            j <= terms.len(),
            strs(title_tokens@) == meaningful_tokens_of(candidate.title@),
            strs(artist_tokens@) == meaningful_tokens_of(candidate.artist@),
            overlap == overlap_score(
                strs(title_tokens@),
                strs(artist_tokens@),
                strs(terms@).take(j as int),
            ),
        decreases terms.len() - j,
    {
        assert(strs(terms@).take(j + 1).drop_last() =~= strs(terms@).take(j as int));
        assert(strs(terms@).take(j + 1).last() == terms@[j as int]@);
        proof {
            lemma_overlap_score_bounds(strs(title_tokens@), strs(artist_tokens@), strs(terms@).take(j as int));
        }
        let pool = meaningful_tokens(terms[j].as_str());
        let t = count_in_exec(&title_tokens, &pool);
        let a = count_in_exec(&artist_tokens, &pool);
        let mut add: i128 = 0;
        if t >= 2 {
            add = if t <= 3 {
                (t as i128) * 25
            } else {
                80
            };
        }
        if a >= 2 {
            add = add + if a <= 3 {
                (a as i128) * 20
            } else {
                60
            };
        }
        overlap = overlap + add;
        j += 1;
    }
    assert(strs(terms@).take(terms.len() as int) =~= strs(terms@));
    total + overlap
}

/// `a` comes after `b` in the lexicographic order of pairs.
pub open spec fn pair_gt(a: (int, int), b: (int, int)) -> bool {
    a.0 > b.0 || (a.0 == b.0 && a.1 > b.1)
}

/// The largest and second largest pairs (lexicographic order), if there are that many.
pub open spec fn top_two(ps: Seq<(int, int)>) -> (Option<(int, int)>, Option<(int, int)>)
    decreases ps.len(),
{
    if ps.len() == 0 {
        (None, None)
    } else {
        let (a, b) = top_two(ps.drop_last());
        let x = ps.last();
        match a {
            None => (Some(x), None),
            Some(av) => if pair_gt(x, av) {
                (Some(x), Some(av))
            } else {
                match b {
                    None => (Some(av), Some(x)),
                    Some(bv) => if pair_gt(x, bv) {
                        (Some(av), Some(x))
                    } else {
                        (Some(av), Some(bv))
                    },
                }
            },
        }
    }
}

/// `a - b` saturated to the range of `i32` (`i32::saturating_sub`).
pub open spec fn sat_sub_i32(a: int, b: int) -> int {
    if a - b > i32::MAX {
        i32::MAX as int
    } else if a - b < i32::MIN {
        i32::MIN as int
    } else {
        a - b
    }
}

/// Each candidate's relevance to the terms, with its MusicBrainz score.
pub open spec fn relevance_pairs(cs: Seq<CandidateView>, terms: Seq<Seq<char>>) -> Seq<(int, int)>
    decreases cs.len(),
{
    if cs.len() == 0 {
        seq![]
    } else {
        relevance_pairs(cs.drop_last(), terms).push(
            (relevance(cs.last().title, cs.last().artist, terms), score_of(cs.last())),
        )
    }
}

/// A clear winner: the best candidate is relevant enough (180) and ahead of the runner-up by
/// 80 relevance points, or ahead in relevance and by 15 MusicBrainz score points.
pub open spec fn has_clear_winner(cs: Seq<CandidateView>, terms: Seq<Seq<char>>) -> bool {
    match top_two(relevance_pairs(cs, terms)) {
        (None, _) => false,
        (Some(top), second) => {
            let run = match second {
                Some(p) => p,
                None => (0, 0),
            };
            top.0 >= 180 && (sat_sub_i32(top.0, run.0) >= 80 || (top.0 > run.0 && sat_sub_i32(
                top.1,
                run.1,
            ) >= 15))
        },
    }
}

/// An upper bound of any relevance: 1340 points for each of at most `usize::MAX` terms.
pub open spec fn relevance_cap() -> int {
    1340 * usize::MAX
}

/// `a - b` saturated to `i32`.
fn sat_sub_exec(a: i128, b: i128) -> (r: i128)
    requires
        i32::MIN <= a <= relevance_cap(),
        i32::MIN <= b <= relevance_cap(),
    ensures
        r == sat_sub_i32(a as int, b as int),
{
    let d = a - b;
    if d > 2147483647 {
        2147483647
    } else if d < -2147483648 {
        -2147483648
    } else {
        d
    }
}

/// The largest pair comes from the list and no pair is larger; with two or more pairs the
/// second comes from another position and no other pair is larger than it.
proof fn lemma_top_two(ps: Seq<(int, int)>)
    ensures
        ps.len() == 0 ==> top_two(ps) == (None::<(int, int)>, None::<(int, int)>),
        ps.len() >= 1 ==> exists|ia: int|
            #![trigger ps[ia]]
            0 <= ia < ps.len() && top_two(ps).0 == Some(ps[ia]) && (forall|j: int|
                0 <= j < ps.len() ==> !pair_gt(#[trigger] ps[j], ps[ia])) && (ps.len() == 1
                ==> top_two(ps).1 is None) && (ps.len() >= 2 ==> exists|ib: int|
                #![trigger ps[ib]]
                0 <= ib < ps.len() && ib != ia && top_two(ps).1 == Some(ps[ib]) && forall|k: int|
                    0 <= k < ps.len() && k != ia ==> !pair_gt(#[trigger] ps[k], ps[ib])),
    decreases ps.len(),
{
    if ps.len() > 0 {
        let d = ps.drop_last();
        let n = ps.len() - 1;
        let x = ps[n];
        assert(ps.last() == x);
        lemma_top_two(d);
        assert forall|j: int| 0 <= j < d.len() implies #[trigger] d[j] == ps[j] by {}
        if d.len() == 0 {
            assert(!pair_gt(ps[0], ps[0]));
        } else {
            let ia = choose|ia: int|
                #![trigger d[ia]]
                0 <= ia < d.len() && top_two(d).0 == Some(d[ia]) && (forall|j: int|
                    0 <= j < d.len() ==> !pair_gt(#[trigger] d[j], d[ia])) && (d.len() == 1
                    ==> top_two(d).1 is None) && (d.len() >= 2 ==> exists|ib: int|
                    #![trigger d[ib]]
                    0 <= ib < d.len() && ib != ia && top_two(d).1 == Some(d[ib]) && forall|k: int|
                        0 <= k < d.len() && k != ia ==> !pair_gt(#[trigger] d[k], d[ib]));
            let av = d[ia];
            if pair_gt(x, av) {
                assert forall|j: int| 0 <= j < ps.len() implies !pair_gt(#[trigger] ps[j], ps[n]) by {
                    if j < n {
                        assert(!pair_gt(d[j], av));
                    }
                }
                assert forall|k: int| 0 <= k < ps.len() && k != n implies !pair_gt(#[trigger] ps[k], ps[ia]) by {
                    assert(!pair_gt(d[k], av));
                }
            } else {
                assert forall|j: int| 0 <= j < ps.len() implies !pair_gt(#[trigger] ps[j], ps[ia]) by {
                    if j < n {
                        assert(!pair_gt(d[j], av));
                    }
                }
                if d.len() == 1 {
                    assert(ia == 0);
                    assert forall|k: int| 0 <= k < ps.len() && k != ia implies !pair_gt(#[trigger] ps[k], ps[n]) by {
                        assert(k == n);
                    }
                } else {
                    let ib = choose|ib: int|
                        #![trigger d[ib]]
                        0 <= ib < d.len() && ib != ia && top_two(d).1 == Some(d[ib]) && forall|k: int|
                            0 <= k < d.len() && k != ia ==> !pair_gt(#[trigger] d[k], d[ib]);
                    let bv = d[ib];
                    if pair_gt(x, bv) {
                        assert forall|k: int| 0 <= k < ps.len() && k != ia implies !pair_gt(
                            #[trigger] ps[k],
                            ps[n],
                        ) by {
                            if k < n {
                                assert(!pair_gt(d[k], bv));
                            }
                        }
                    } else {
                        assert forall|k: int| 0 <= k < ps.len() && k != ia implies !pair_gt(
                            #[trigger] ps[k],
                            ps[ib],
                        ) by {
                            if k < n {
                                assert(!pair_gt(d[k], bv));
                            }
                        }
                    }
                }
            }
        }
    }
}

/// The pairs are each candidate's relevance and score, position by position.
proof fn lemma_relevance_pairs(cs: Seq<CandidateView>, terms: Seq<Seq<char>>)
    ensures
        relevance_pairs(cs, terms).len() == cs.len(),
        forall|k: int|
            0 <= k < cs.len() ==> #[trigger] relevance_pairs(cs, terms)[k] == (
                relevance(cs[k].title, cs[k].artist, terms),
                score_of(cs[k]),
            ),
    decreases cs.len(),
{
    if cs.len() > 0 {
        let d = cs.drop_last();
        lemma_relevance_pairs(d, terms);
        assert forall|k: int| 0 <= k < cs.len() implies #[trigger] relevance_pairs(cs, terms)[k] == (
            relevance(cs[k].title, cs[k].artist, terms),
            score_of(cs[k]),
        ) by {
            if k < cs.len() - 1 {
                assert(relevance_pairs(cs, terms)[k] == relevance_pairs(d, terms)[k]);
                assert(d[k] == cs[k]);
            }
        }
    }
}

/// A cover has a clear winner only when one candidate has relevance at least 180 and every
/// other candidate is strictly less relevant; and it has one whenever a candidate with
/// relevance at least 180 is ahead of every other by 80 points or more.
pub proof fn clear_winner_is_most_relevant(cs: Seq<CandidateView>, terms: Seq<Seq<char>>)
    ensures
        has_clear_winner(cs, terms) ==> exists|i: int|
            0 <= i < cs.len() && relevance(#[trigger] cs[i].title, cs[i].artist, terms) >= 180
                && forall|j: int|
                0 <= j < cs.len() && j != i ==> relevance(#[trigger] cs[j].title, cs[j].artist, terms)
                    < relevance(cs[i].title, cs[i].artist, terms),
        forall|i: int|
            0 <= i < cs.len() && relevance(#[trigger] cs[i].title, cs[i].artist, terms) >= 180 && (
            forall|j: int|
                0 <= j < cs.len() && j != i ==> relevance(#[trigger] cs[j].title, cs[j].artist, terms)
                    + 80 <= relevance(cs[i].title, cs[i].artist, terms)) ==> has_clear_winner(cs, terms),
{
    let ps = relevance_pairs(cs, terms);
    lemma_relevance_pairs(cs, terms);
    lemma_top_two(ps);
    if cs.len() > 0 {
        let ia = choose|ia: int|
            #![trigger ps[ia]]
            0 <= ia < ps.len() && top_two(ps).0 == Some(ps[ia]) && (forall|j: int|
                0 <= j < ps.len() ==> !pair_gt(#[trigger] ps[j], ps[ia])) && (ps.len() == 1
                ==> top_two(ps).1 is None) && (ps.len() >= 2 ==> exists|ib: int|
                #![trigger ps[ib]]
                0 <= ib < ps.len() && ib != ia && top_two(ps).1 == Some(ps[ib]) && forall|k: int|
                    0 <= k < ps.len() && k != ia ==> !pair_gt(#[trigger] ps[k], ps[ib]));
        assert(ps[ia] == (relevance(cs[ia].title, cs[ia].artist, terms), score_of(cs[ia])));
        if has_clear_winner(cs, terms) {
            if ps.len() >= 2 {
                let ib = choose|ib: int|
                    #![trigger ps[ib]]
                    0 <= ib < ps.len() && ib != ia && top_two(ps).1 == Some(ps[ib]) && forall|k: int|
                        0 <= k < ps.len() && k != ia ==> !pair_gt(#[trigger] ps[k], ps[ib]);
                assert forall|j: int| 0 <= j < cs.len() && j != ia implies relevance(
                    #[trigger] cs[j].title,
                    cs[j].artist,
                    terms,
                ) < relevance(cs[ia].title, cs[ia].artist, terms) by {
                    assert(!pair_gt(ps[j], ps[ib]));
                    assert(ps[j] == (relevance(cs[j].title, cs[j].artist, terms), score_of(cs[j])));
                }
            } else {
                assert forall|j: int| 0 <= j < cs.len() && j != ia implies relevance(
                    #[trigger] cs[j].title,
                    cs[j].artist,
                    terms,
                ) < relevance(cs[ia].title, cs[ia].artist, terms) by {}
            }
        }
        assert forall|i: int|
            0 <= i < cs.len() && relevance(#[trigger] cs[i].title, cs[i].artist, terms) >= 180 && (
            forall|j: int|
                0 <= j < cs.len() && j != i ==> relevance(#[trigger] cs[j].title, cs[j].artist, terms)
                    + 80 <= relevance(cs[i].title, cs[i].artist, terms)) implies has_clear_winner(
            cs,
            terms,
        ) by {
            assert(ps[i] == (relevance(cs[i].title, cs[i].artist, terms), score_of(cs[i])));
            if ia != i {
                assert(!pair_gt(ps[i], ps[ia]));
                assert(relevance(cs[ia].title, cs[ia].artist, terms) + 80 <= relevance(
                    cs[i].title,
                    cs[i].artist,
                    terms,
                ));
            }
            if ps.len() >= 2 {
                let ib = choose|ib: int|
                    #![trigger ps[ib]]
                    0 <= ib < ps.len() && ib != ia && top_two(ps).1 == Some(ps[ib]) && forall|k: int|
                        0 <= k < ps.len() && k != ia ==> !pair_gt(#[trigger] ps[k], ps[ib]);
                assert(ps[ib] == (relevance(cs[ib].title, cs[ib].artist, terms), score_of(cs[ib])));
                assert(relevance(cs[ib].title, cs[ib].artist, terms) + 80 <= relevance(
                    cs[i].title,
                    cs[i].artist,
                    terms,
                ));
            } else {
                lemma_relevance_bounds(cs[i].title, cs[i].artist, terms);
            }
        }
    }
}

/// Whether term-based ranking singles out one candidate clearly enough to select it.
pub fn cover_candidates_have_clear_winner_for_terms(candidates: &Vec<AlbumCandidate>, terms: &Vec<String>) -> (r: bool)
    ensures
        r == has_clear_winner(cands(candidates@), strs(terms@)),
{
    if candidates.len() == 0 {
        assert(cands(candidates@) =~= Seq::<CandidateView>::empty());
        return false;
    }
    let mut top: Option<(i128, i128)> = None;
    let mut second: Option<(i128, i128)> = None;
    let mut i: usize = 0;
    while i < candidates.len()
        invariant
            i <= candidates.len(),
            ({
                let (a, b) = top_two(relevance_pairs(cands(candidates@).take(i as int), strs(terms@)));
                &&& match (top, a) {
                    (Some(x), Some(y)) => x.0 == y.0 && x.1 == y.1,
                    (None, None) => true,
                    _ => false,
                }
                &&& match (second, b) {
                    (Some(x), Some(y)) => x.0 == y.0 && x.1 == y.1,
                    (None, None) => true,
                    _ => false,
                }
            }),
            top matches Some(x) ==> 0 <= x.0 <= relevance_cap() && i32::MIN <= x.1 <= i32::MAX,
            second matches Some(x) ==> 0 <= x.0 <= relevance_cap() && i32::MIN <= x.1 <= i32::MAX,
        decreases candidates.len() - i,
    {
        assert(cands(candidates@).take(i + 1).drop_last() =~= cands(candidates@).take(i as int));
        assert(cands(candidates@).take(i + 1).last() == candidates@[i as int]@);
        let c = &candidates[i];
        let rel = cover_candidate_relevance(c, terms);
        let sc: i128 = match c.score {
            Some(s) => s as i128,
            None => 0,
        };
        let x = (rel, sc);
        proof {
            let ps = relevance_pairs(cands(candidates@).take(i as int), strs(terms@));
            assert(relevance_pairs(cands(candidates@).take(i + 1), strs(terms@)) == ps.push(
                (rel as int, sc as int),
            ));
            assert(ps.push((rel as int, sc as int)).drop_last() =~= ps);
            assert(ps.push((rel as int, sc as int)).last() == (rel as int, sc as int));
        }
        match top {
            None => {
                top = Some(x);
            },
            Some(a) => {
                if x.0 > a.0 || (x.0 == a.0 && x.1 > a.1) {
                    second = Some(a);
                    top = Some(x);
                } else {
                    match second {
                        None => {
                            second = Some(x);
                        },
                        Some(b) => {
                            if x.0 > b.0 || (x.0 == b.0 && x.1 > b.1) {
                                second = Some(x);
                            }
                        },
                    }
                }
            },
        }
        i += 1;
    }
    assert(cands(candidates@).take(candidates.len() as int) =~= cands(candidates@));
    let t = match top {
        Some(t) => t,
        None => return false,
    };
    let run = match second {
        Some(p) => p,
        None => (0, 0),
    };
    t.0 >= 180 && (sat_sub_exec(t.0, run.0) >= 80 || (t.0 > run.0 && sat_sub_exec(t.1, run.1)
        >= 15))
}

// ---------------------------------------------------------------------------
// Candidate lists
// ---------------------------------------------------------------------------

/// Candidates ordered by MusicBrainz score, highest first.
pub struct ByScore(pub AlbumCandidate);

impl SortKey for ByScore {
    open spec fn key_lt(&self, other: &Self) -> bool {
        score_of(self.0@) > score_of(other.0@)
    }

    proof fn lemma_key_lt_asymmetric(a: Self, b: Self) {
    }

    proof fn lemma_key_lt_negatively_transitive(a: Self, b: Self, c: Self) {
    }

    fn lt(&self, other: &Self) -> (r: bool) {
        let a: i64 = match self.0.score {
            Some(s) => s as i64,
            None => 0,
        };
        let b: i64 = match other.0.score {
            Some(s) => s as i64,
            None => 0,
        };
        a > b
    }
}

/// The candidates wrapped for ordering by score.
pub open spec fn wrap_by_score(v: Seq<AlbumCandidate>) -> Seq<ByScore>
    decreases v.len(),
{
    if v.len() == 0 {
        seq![]
    } else {
        wrap_by_score(v.drop_last()).push(ByScore(v.last()))
    }
}

/// The candidates inside wrappers.
pub open spec fn unwrap_by_score(v: Seq<ByScore>) -> Seq<AlbumCandidate>
    decreases v.len(),
{
    if v.len() == 0 {
        seq![]
    } else {
        unwrap_by_score(v.drop_last()).push(v.last().0)
    }
}

/// The candidates sorted by score, highest first, stably.
pub open spec fn sorted_by_score(v: Seq<AlbumCandidate>) -> Seq<AlbumCandidate> {
    unwrap_by_score(stable_sort(wrap_by_score(v)))
}

/// Sorts candidates by score, highest first; equal scores keep their order.
pub fn sort_by_score(v: Vec<AlbumCandidate>) -> (r: Vec<AlbumCandidate>)
    ensures
        r@ == sorted_by_score(v@),
{
    let mut input = v;
    let ghost orig = input@;
    let mut wrapped: Vec<ByScore> = Vec::new();
    let mut rev: Vec<AlbumCandidate> = Vec::new();
    let n: usize = input.len();
    while input.len() > 0
        invariant
            rev@.len() + input@.len() == orig.len(),
            orig.len() == n,
            input@ == orig.take(input@.len() as int),
            forall|k: int| 0 <= k < rev@.len() ==> rev@[k] == orig[orig.len() - 1 - k],
        decreases input.len(),
    {
        let x = input.pop().unwrap();
        rev.push(x);
        assert(input@ =~= orig.take(input@.len() as int));
    }
    let mut i: usize = 0;
    while rev.len() > 0
        invariant
            i + rev@.len() == orig.len(),
            orig.len() == n,
            forall|k: int| 0 <= k < rev@.len() ==> rev@[k] == orig[orig.len() - 1 - k],
            wrapped@ == wrap_by_score(orig.take(i as int)),
        decreases rev.len(),
    {
        let x = rev.pop().unwrap();
        assert(orig.take(i + 1).drop_last() =~= orig.take(i as int));
        wrapped.push(ByScore(x));
        i += 1;
    }
    assert(orig.take(orig.len() as int) =~= orig);
    let sorted = sort_by_key(wrapped);
    let ghost sv = sorted@;
    let mut out: Vec<AlbumCandidate> = Vec::new();
    let mut srev: Vec<ByScore> = Vec::new();
    let mut s2 = sorted;
    let m: usize = s2.len();
    while s2.len() > 0
        invariant
            srev@.len() + s2@.len() == sv.len(),
            sv.len() == m,
            s2@ == sv.take(s2@.len() as int),
            forall|k: int| 0 <= k < srev@.len() ==> srev@[k] == sv[sv.len() - 1 - k],
        decreases s2.len(),
    {
        let x = s2.pop().unwrap();
        srev.push(x);
        assert(s2@ =~= sv.take(s2@.len() as int));
    }
    let mut j: usize = 0;
    while srev.len() > 0
        invariant
            j + srev@.len() == sv.len(),
            sv.len() == m,
            forall|k: int| 0 <= k < srev@.len() ==> srev@[k] == sv[sv.len() - 1 - k],
            out@ == unwrap_by_score(sv.take(j as int)),
        decreases srev.len(),
    {
        let x = srev.pop().unwrap();
        assert(sv.take(j + 1).drop_last() =~= sv.take(j as int));
        out.push(x.0);
        j += 1;
    }
    assert(sv.take(sv.len() as int) =~= sv);
    out
}

/// The identifiers of candidates.
pub open spec fn ids(v: Seq<CandidateView>) -> Seq<Seq<char>> {
    v.map_values(|c: CandidateView| c.id)
}

/// The first candidate of each identifier, in order.
pub open spec fn first_of_each_id(v: Seq<CandidateView>) -> Seq<CandidateView>
    decreases v.len(),
{
    if v.len() == 0 {
        seq![]
    } else {
        let kept = first_of_each_id(v.drop_last());
        if ids(kept).contains(v.last().id) {
            kept
        } else {
            kept.push(v.last())
        }
    }
}

/// Whether a candidate list holds a candidate with identifier `id`.
pub fn has_id(v: &Vec<AlbumCandidate>, id: &String) -> (r: bool)
    ensures
        r == ids(cands(v@)).contains(id@),
{
    let mut i: usize = 0;
    while i < v.len()
        invariant
            i <= v.len(),
            forall|k: int| 0 <= k < i ==> ids(cands(v@))[k] != id@,
        decreases v.len() - i,
    {
        let a = str_chars(v[i].id.as_str());
        let b = str_chars(id.as_str());
        if chars_eq(&a, &b) {
            assert(ids(cands(v@))[i as int] == id@);
            return true;
        }
        i += 1;
    }
    false
}

/// Removes later candidates whose identifier already occurred.
pub fn keep_first_of_each_id(v: Vec<AlbumCandidate>) -> (r: Vec<AlbumCandidate>)
    ensures
        cands(r@) == first_of_each_id(cands(v@)),
{
    let mut input = v;
    let ghost orig = input@;
    let n: usize = input.len();
    let mut rev: Vec<AlbumCandidate> = Vec::new();
    while input.len() > 0
        invariant
            rev@.len() + input@.len() == orig.len(),
            orig.len() == n,
            input@ == orig.take(input@.len() as int),
            forall|k: int| 0 <= k < rev@.len() ==> rev@[k] == orig[orig.len() - 1 - k],
        decreases input.len(),
    {
        let x = input.pop().unwrap();
        rev.push(x);
        assert(input@ =~= orig.take(input@.len() as int));
    }
    let mut out: Vec<AlbumCandidate> = Vec::new();
    let mut i: usize = 0;
    assert(cands(out@) =~= Seq::<CandidateView>::empty());
    while rev.len() > 0
        invariant
            i + rev@.len() == orig.len(),
            orig.len() == n,
            forall|k: int| 0 <= k < rev@.len() ==> rev@[k] == orig[orig.len() - 1 - k],
            cands(out@) == first_of_each_id(cands(orig.take(i as int))),
        decreases rev.len(),
    {
        let x = rev.pop().unwrap();
        assert(cands(orig.take(i + 1)).drop_last() =~= cands(orig.take(i as int)));
        assert(cands(orig.take(i + 1)).last() == x@);
        if !has_id(&out, &x.id) {
            let ghost before = cands(out@);
            out.push(x);
            assert(cands(out@) =~= before.push(x@));
        }
        i += 1;
    }
    assert(orig.take(orig.len() as int) =~= orig);
    out
}

/// The candidates sorted by score (highest first, stably), keeping the first of each id.
pub open spec fn deduped_by_id(v: Seq<AlbumCandidate>) -> Seq<CandidateView> {
    first_of_each_id(cands(sorted_by_score(v)))
}

/// Sorts candidates by score and removes repeated identifiers, keeping the highest scored.
pub fn dedupe_candidates_by_id(candidates: &mut Vec<AlbumCandidate>)
    ensures
        cands(final(candidates)@) == deduped_by_id(old(candidates)@),
{
    let mut taken: Vec<AlbumCandidate> = Vec::new();
    core::mem::swap(&mut taken, candidates);
    let sorted = sort_by_score(taken);
    *candidates = keep_first_of_each_id(sorted);
}

/// After a dedupe, every identifier occurs once.
pub proof fn first_of_each_id_unique(v: Seq<CandidateView>)
    ensures
        forall|i: int, j: int|
            0 <= i < j < first_of_each_id(v).len() ==> first_of_each_id(v)[i].id
                != first_of_each_id(v)[j].id,
    decreases v.len(),
{
    if v.len() > 0 {
        first_of_each_id_unique(v.drop_last());
        let kept = first_of_each_id(v.drop_last());
        if !ids(kept).contains(v.last().id) {
            assert forall|i: int, j: int|
                0 <= i < j < first_of_each_id(v).len() implies first_of_each_id(v)[i].id
                != first_of_each_id(v)[j].id by {
                if j == kept.len() {
                    assert(ids(kept)[i] == kept[i].id);
                }
            }
        }
    }
}

// ---------------------------------------------------------------------------
// Lookup decisions
// ---------------------------------------------------------------------------

/// What a lookup found for a vinyl.
#[derive(Clone, Debug)]
pub enum LookupOutcome {
    /// One candidate is the album.
    Selected(AlbumCandidate),
    /// Several plausible candidates; an admin must choose.
    NeedsChoice(Vec<AlbumCandidate>),
    /// No plausible candidate.
    NotFound,
}

/// The views of a lookup outcome.
pub enum OutcomeView {
    Selected(CandidateView),
    NeedsChoice(Seq<CandidateView>),
    NotFound,
}

/// The view of a lookup outcome.
pub open spec fn outcome_view(o: LookupOutcome) -> OutcomeView {
    match o {
        LookupOutcome::Selected(c) => OutcomeView::Selected(c@),
        LookupOutcome::NeedsChoice(v) => OutcomeView::NeedsChoice(cands(v@)),
        LookupOutcome::NotFound => OutcomeView::NotFound,
    }
}

/// Candidates with a MusicBrainz score of at least `min`.
pub open spec fn scored_at_least(v: Seq<CandidateView>, min: int) -> Seq<CandidateView>
    decreases v.len(),
{
    if v.len() == 0 {
        seq![]
    } else {
        let rest = scored_at_least(v.drop_last(), min);
        if score_of(v.last()) >= min {
            rest.push(v.last())
        } else {
            rest
        }
    }
}

/// The candidate is exactly the requested album: same title key, and the requested artist
/// key inside the candidate's artist key.
pub open spec fn is_exact(c: CandidateView, artist: Seq<char>, title: Seq<char>) -> bool {
    spec_normalize(c.title) == spec_normalize(title) && contains(
        spec_normalize(c.artist),
        spec_normalize(artist),
    )
}

/// The candidates that are exactly the requested album.
pub open spec fn exact_matches(v: Seq<CandidateView>, artist: Seq<char>, title: Seq<char>) -> Seq<CandidateView>
    decreases v.len(),
{
    if v.len() == 0 {
        seq![]
    } else {
        let rest = exact_matches(v.drop_last(), artist, title);
        if is_exact(v.last(), artist, title) {
            rest.push(v.last())
        } else {
            rest
        }
    }
}

/// How a lookup decides among candidates: only scores of at least 90 are plausible; a single
/// exact match is selected, several exact matches need a choice; otherwise a single plausible
/// candidate is selected and several need a choice.
pub open spec fn lookup_outcome_of(v: Seq<CandidateView>, artist: Seq<char>, title: Seq<char>) -> OutcomeView {
    let plausible = scored_at_least(v, 90);
    let exact = exact_matches(plausible, artist, title);
    if plausible.len() == 0 {
        OutcomeView::NotFound
    } else if exact.len() == 1 {
        OutcomeView::Selected(exact[0])
    } else if exact.len() > 1 {
        OutcomeView::NeedsChoice(exact)
    } else if plausible.len() == 1 {
        OutcomeView::Selected(plausible[0])
    } else {
        OutcomeView::NeedsChoice(plausible)
    }
}

/// The candidates kept by a score threshold reach it and come from the list.
pub proof fn lemma_scored_at_least(v: Seq<CandidateView>, min: int)
    ensures
        scored_at_least(v, min).len() <= v.len(),
        forall|i: int|
            0 <= i < scored_at_least(v, min).len() ==> score_of(#[trigger] scored_at_least(v, min)[i])
                >= min && v.contains(scored_at_least(v, min)[i]),
    decreases v.len(),
{
    if v.len() > 0 {
        lemma_scored_at_least(v.drop_last(), min);
        let rest = scored_at_least(v.drop_last(), min);
        assert forall|i: int| 0 <= i < scored_at_least(v, min).len() implies score_of(
            #[trigger] scored_at_least(v, min)[i],
        ) >= min && v.contains(scored_at_least(v, min)[i]) by {
            if i < rest.len() {
                assert(scored_at_least(v, min)[i] == rest[i]);
                let j = choose|j: int| 0 <= j < v.drop_last().len() && v.drop_last()[j] == rest[i];
                assert(v[j] == rest[i]);
            } else {
                assert(scored_at_least(v, min)[i] == v.last());
                assert(v[v.len() - 1] == v.last());
            }
        }
    }
}

/// The exact matches come from the list.
pub proof fn lemma_exact_matches(v: Seq<CandidateView>, artist: Seq<char>, title: Seq<char>)
    ensures
        exact_matches(v, artist, title).len() <= v.len(),
        forall|i: int|
            0 <= i < exact_matches(v, artist, title).len() ==> v.contains(
                #[trigger] exact_matches(v, artist, title)[i],
            ),
    decreases v.len(),
{
    if v.len() > 0 {
        lemma_exact_matches(v.drop_last(), artist, title);
        let rest = exact_matches(v.drop_last(), artist, title);
        assert forall|i: int| 0 <= i < exact_matches(v, artist, title).len() implies v.contains(
            #[trigger] exact_matches(v, artist, title)[i],
        ) by {
            if i < rest.len() {
                assert(exact_matches(v, artist, title)[i] == rest[i]);
                let j = choose|j: int| 0 <= j < v.drop_last().len() && v.drop_last()[j] == rest[i];
                assert(v[j] == rest[i]);
            } else {
                assert(v[v.len() - 1] == v.last());
            }
        }
    }
}

/// A lookup never guesses: it selects only a plausible candidate (score at least 90) that
/// was found, it asks for a choice only among two or more plausible candidates, and it finds
/// nothing exactly when no candidate is plausible.
pub proof fn lookup_never_guesses(v: Seq<CandidateView>, artist: Seq<char>, title: Seq<char>)
    ensures
        lookup_outcome_of(v, artist, title) matches OutcomeView::Selected(c) ==> score_of(c) >= 90
            && v.contains(c),
        lookup_outcome_of(v, artist, title) matches OutcomeView::NeedsChoice(cs) ==> cs.len() >= 2
            && forall|i: int| 0 <= i < cs.len() ==> score_of(#[trigger] cs[i]) >= 90 && v.contains(cs[i]),
        lookup_outcome_of(v, artist, title) is NotFound <==> scored_at_least(v, 90).len() == 0,
{
    let plausible = scored_at_least(v, 90);
    lemma_scored_at_least(v, 90);
    lemma_exact_matches(plausible, artist, title);
    let exact = exact_matches(plausible, artist, title);
    assert forall|i: int| 0 <= i < exact.len() implies score_of(#[trigger] exact[i]) >= 90 && v.contains(exact[i]) by {
        assert(plausible.contains(exact[i]));
        let j = choose|j: int| 0 <= j < plausible.len() && plausible[j] == exact[i];
        assert(score_of(plausible[j]) >= 90 && v.contains(plausible[j]));
    }
    if plausible.len() > 0 {
        assert(score_of(plausible[0]) >= 90 && v.contains(plausible[0]));
    }
}

/// The candidate is plausible (score at least 90) and exactly the requested album.
pub open spec fn plausible_exact(c: CandidateView, artist: Seq<char>, title: Seq<char>) -> bool {
    score_of(c) >= 90 && spec_normalize(c.title) == spec_normalize(title) && contains(
        spec_normalize(c.artist),
        spec_normalize(artist),
    )
}

/// One step of the exact plausible candidates: the last candidate joins them exactly when it
/// is plausible and exact.
proof fn lemma_exact_plausible_step(v: Seq<CandidateView>, artist: Seq<char>, title: Seq<char>)
    requires
        v.len() > 0,
    ensures
        exact_matches(scored_at_least(v, 90), artist, title) == if plausible_exact(
            v.last(),
            artist,
            title,
        ) {
            exact_matches(scored_at_least(v.drop_last(), 90), artist, title).push(v.last())
        } else {
            exact_matches(scored_at_least(v.drop_last(), 90), artist, title)
        },
{
    let p = scored_at_least(v.drop_last(), 90);
    if score_of(v.last()) >= 90 {
        assert(scored_at_least(v, 90).drop_last() =~= p);
        assert(scored_at_least(v, 90).last() == v.last());
    }
}

/// The exact plausible candidates are plausible and exact, there is one whenever some
/// candidate is plausible and exact, and when only the candidate at `i` is, it is the only
/// one.
proof fn lemma_exact_plausible(v: Seq<CandidateView>, artist: Seq<char>, title: Seq<char>, i: int)
    ensures
        forall|k: int|
            0 <= k < exact_matches(scored_at_least(v, 90), artist, title).len() ==> plausible_exact(
                #[trigger] exact_matches(scored_at_least(v, 90), artist, title)[k],
                artist,
                title,
            ),
        (exists|j: int| 0 <= j < v.len() && plausible_exact(#[trigger] v[j], artist, title))
            ==> exact_matches(scored_at_least(v, 90), artist, title).len() >= 1,
        (0 <= i < v.len() && plausible_exact(v[i], artist, title) && forall|j: int|
            0 <= j < v.len() && j != i ==> !plausible_exact(#[trigger] v[j], artist, title))
            ==> exact_matches(scored_at_least(v, 90), artist, title) == seq![v[i]],
    decreases v.len(),
{
    if v.len() > 0 {
        let d = v.drop_last();
        lemma_exact_plausible_step(v, artist, title);
        lemma_exact_plausible(d, artist, title, i);
        let e = exact_matches(scored_at_least(v, 90), artist, title);
        let ed = exact_matches(scored_at_least(d, 90), artist, title);
        if plausible_exact(v.last(), artist, title) {
            assert forall|k: int| 0 <= k < e.len() implies plausible_exact(#[trigger] e[k], artist, title) by {
                if k < ed.len() {
                    assert(e[k] == ed[k]);
                }
            }
        }
        if exists|j: int| 0 <= j < v.len() && plausible_exact(#[trigger] v[j], artist, title) {
            let j = choose|j: int| 0 <= j < v.len() && plausible_exact(#[trigger] v[j], artist, title);
            if j < v.len() - 1 {
                assert(d[j] == v[j]);
            } else {
                assert(v.last() == v[j]);
            }
        }
        if 0 <= i < v.len() && plausible_exact(v[i], artist, title) && forall|j: int|
            0 <= j < v.len() && j != i ==> !plausible_exact(#[trigger] v[j], artist, title) {
            if i == v.len() - 1 {
                assert(v.last() == v[i]);
                assert forall|j: int| 0 <= j < d.len() implies !plausible_exact(#[trigger] d[j], artist, title) by {
                    assert(d[j] == v[j]);
                }
                assert(ed.len() == 0) by {
                    if ed.len() > 0 {
                        lemma_exact_plausible_members(d, artist, title);
                        let x = ed[0];
                        let jj = choose|jj: int|
                            0 <= jj < d.len() && #[trigger] d[jj] == x && plausible_exact(
                                d[jj],
                                artist,
                                title,
                            );
                        assert(!plausible_exact(d[jj], artist, title));
                    }
                }
                assert(e =~= seq![v[i]]);
            } else {
                assert(d[i] == v[i]);
                assert forall|j: int| 0 <= j < d.len() && j != i implies !plausible_exact(
                    #[trigger] d[j],
                    artist,
                    title,
                ) by {
                    assert(d[j] == v[j]);
                }
                assert(!plausible_exact(v[v.len() - 1], artist, title));
            }
        }
    }
}

/// Every exact plausible candidate is one of the list's plausible exact candidates.
proof fn lemma_exact_plausible_members(v: Seq<CandidateView>, artist: Seq<char>, title: Seq<char>)
    ensures
        forall|k: int|
            #![trigger exact_matches(scored_at_least(v, 90), artist, title)[k]]
            0 <= k < exact_matches(scored_at_least(v, 90), artist, title).len() ==> exists|j: int|
                0 <= j < v.len() && #[trigger] v[j] == exact_matches(
                    scored_at_least(v, 90),
                    artist,
                    title,
                )[k] && plausible_exact(v[j], artist, title),
    decreases v.len(),
{
    if v.len() > 0 {
        let d = v.drop_last();
        lemma_exact_plausible_step(v, artist, title);
        lemma_exact_plausible_members(d, artist, title);
        let e = exact_matches(scored_at_least(v, 90), artist, title);
        let ed = exact_matches(scored_at_least(d, 90), artist, title);
        assert forall|k: int| #![trigger e[k]] 0 <= k < e.len() implies exists|j: int|
            0 <= j < v.len() && #[trigger] v[j] == e[k] && plausible_exact(v[j], artist, title) by {
            if k < ed.len() {
                assert(e[k] == ed[k]);
                let j = choose|j: int|
                    0 <= j < d.len() && #[trigger] d[j] == ed[k] && plausible_exact(d[j], artist, title);
                assert(v[j] == d[j]);
            } else {
                assert(e[k] == v.last());
                assert(v[v.len() - 1] == v.last());
            }
        }
    }
}

/// A lookup prefers the requested album. When exactly one candidate is plausible (score at
/// least 90) with the requested title key and a key holding the requested artist's, that
/// candidate is selected, whatever other plausible candidates there are. Whenever some
/// plausible candidate matches exactly, the lookup only selects or offers exact matches.
pub proof fn lookup_prefers_exact_match(
    v: Seq<CandidateView>,
    artist: Seq<char>,
    title: Seq<char>,
    i: int,
)
    ensures
        (0 <= i < v.len() && score_of(v[i]) >= 90 && spec_normalize(v[i].title) == spec_normalize(
            title,
        ) && contains(spec_normalize(v[i].artist), spec_normalize(artist)) && forall|j: int|
            0 <= j < v.len() && j != i && score_of(#[trigger] v[j]) >= 90 && spec_normalize(
                v[j].title,
            ) == spec_normalize(title) ==> !contains(spec_normalize(v[j].artist), spec_normalize(artist)))
            ==> lookup_outcome_of(v, artist, title) == OutcomeView::Selected(v[i]),
        (exists|j: int| 0 <= j < v.len() && plausible_exact(#[trigger] v[j], artist, title)) ==> {
            &&& lookup_outcome_of(v, artist, title) matches OutcomeView::Selected(c) ==> score_of(c)
                >= 90 && spec_normalize(c.title) == spec_normalize(title) && contains(
                spec_normalize(c.artist),
                spec_normalize(artist),
            )
            &&& lookup_outcome_of(v, artist, title) matches OutcomeView::NeedsChoice(cs) ==> forall|
                k: int,
            |
                0 <= k < cs.len() ==> score_of(#[trigger] cs[k]) >= 90 && spec_normalize(cs[k].title)
                    == spec_normalize(title) && contains(
                    spec_normalize(cs[k].artist),
                    spec_normalize(artist),
                )
        },
{
    lemma_exact_plausible(v, artist, title, i);
    let e = exact_matches(scored_at_least(v, 90), artist, title);
    if exists|j: int| 0 <= j < v.len() && plausible_exact(#[trigger] v[j], artist, title) {
        let j = choose|j: int| 0 <= j < v.len() && plausible_exact(#[trigger] v[j], artist, title);
        lemma_scored_at_least(v, 90);
        assert(scored_at_least(v, 90).len() > 0) by {
            lemma_exact_matches(scored_at_least(v, 90), artist, title);
        }
        assert(plausible_exact(e[0], artist, title));
    }
}

/// A candidate's score, absent counting as zero.
fn score_exec(c: &AlbumCandidate) -> (r: i64)
    ensures
        r == score_of(c@),
{
    match c.score {
        Some(s) => s as i64,
        None => 0,
    }
}

/// Whether a candidate is exactly the requested album.
fn is_exact_exec(c: &AlbumCandidate, artist_key: &Vec<char>, title_key: &Vec<char>) -> (r: bool)
    ensures
        r == (spec_normalize(c@.title) == title_key@ && contains(
            spec_normalize(c@.artist),
            artist_key@,
        )),
{
    let t = normalize_chars(c.title.as_str());
    let a = normalize_chars(c.artist.as_str());
    chars_eq(&t, title_key) && contains_exec(&a, artist_key)
}

/// Copies of the candidates scored at least `min`.
pub fn keep_scored_at_least(v: &Vec<AlbumCandidate>, min: i64) -> (r: Vec<AlbumCandidate>)
    ensures
        cands(r@) == scored_at_least(cands(v@), min as int),
{
    let mut out: Vec<AlbumCandidate> = Vec::new();
    let mut i: usize = 0;
    assert(cands(out@) =~= Seq::<CandidateView>::empty());
    while i < v.len()
        invariant
            i <= v.len(),
            cands(out@) == scored_at_least(cands(v@).take(i as int), min as int),
        decreases v.len() - i,
    {
        assert(cands(v@).take(i + 1).drop_last() =~= cands(v@).take(i as int));
        assert(cands(v@).take(i + 1).last() == v@[i as int]@);
        if score_exec(&v[i]) >= min {
            let ghost before = cands(out@);
            out.push(v[i].duplicate());
            assert(cands(out@) =~= before.push(v@[i as int]@));
        }
        i += 1;
    }
    assert(cands(v@).take(v.len() as int) =~= cands(v@));
    out
}

/// Whether the MusicBrainz search alone found nothing convincing, so that French retail
/// hints are worth a try: no candidates, or none scored at least 90.
pub fn needs_retail_hints(candidates: &Vec<AlbumCandidate>) -> (r: bool)
    ensures
        r == (scored_at_least(cands(candidates@), 90).len() == 0),
{
    keep_scored_at_least(candidates, 90).len() == 0
}

/// Decides a lookup from the de-duplicated candidates for an artist and title.
pub fn lookup_outcome(candidates: &Vec<AlbumCandidate>, artist: &str, title: &str) -> (r: LookupOutcome)
    ensures
        outcome_view(r) == lookup_outcome_of(cands(candidates@), artist@, title@),
{
    let plausible = keep_scored_at_least(candidates, 90);
    if plausible.len() == 0 {
        return LookupOutcome::NotFound;
    }
    let artist_key = normalize_chars(artist);
    let title_key = normalize_chars(title);
    let mut exact: Vec<AlbumCandidate> = Vec::new();
    let mut i: usize = 0;
    assert(cands(exact@) =~= Seq::<CandidateView>::empty());
    while i < plausible.len()
        invariant
            i <= plausible.len(),
            artist_key@ == spec_normalize(artist@),
            title_key@ == spec_normalize(title@),
            cands(exact@) == exact_matches(cands(plausible@).take(i as int), artist@, title@),
        decreases plausible.len() - i,
    {
        assert(cands(plausible@).take(i + 1).drop_last() =~= cands(plausible@).take(i as int));
        assert(cands(plausible@).take(i + 1).last() == plausible@[i as int]@);
        if is_exact_exec(&plausible[i], &artist_key, &title_key) {
            let ghost before = cands(exact@);
            exact.push(plausible[i].duplicate());
            assert(cands(exact@) =~= before.push(plausible@[i as int]@));
        }
        i += 1;
    }
    assert(cands(plausible@).take(plausible.len() as int) =~= cands(plausible@));
    if exact.len() == 1 {
        LookupOutcome::Selected(exact[0].duplicate())
    } else if exact.len() > 1 {
        LookupOutcome::NeedsChoice(exact)
    } else if plausible.len() == 1 {
        LookupOutcome::Selected(plausible[0].duplicate())
    } else {
        LookupOutcome::NeedsChoice(plausible)
    }
}

/// Adds the matches of one recognised-term query: those scored at least 70 whose identifier
/// is not already held, in order.
pub open spec fn merged_matches(held: Seq<CandidateView>, matches: Seq<CandidateView>) -> Seq<CandidateView>
    decreases matches.len(),
{
    if matches.len() == 0 {
        held
    } else {
        let acc = merged_matches(held, matches.drop_last());
        let m = matches.last();
        if score_of(m) >= 70 && !ids(acc).contains(m.id) {
            acc.push(m)
        } else {
            acc
        }
    }
}

/// Adds the matches of one recognised-term query to the candidates found so far.
pub fn merge_reverse_image_matches(candidates: &mut Vec<AlbumCandidate>, matches: Vec<AlbumCandidate>)
    ensures
        cands(final(candidates)@) == merged_matches(cands(old(candidates)@), cands(matches@)),
{
    let ghost orig = matches@;
    let ghost start = cands(candidates@);
    let n: usize = matches.len();
    let mut rev = reverse_vec(matches);
    let mut i: usize = 0;
    while rev.len() > 0
        invariant
            i + rev@.len() == orig.len(),
            orig.len() == n,
            forall|k: int| 0 <= k < rev@.len() ==> rev@[k] == orig[orig.len() - 1 - k],
            cands(candidates@) == merged_matches(start, cands(orig.take(i as int))),
        decreases rev.len(),
    {
        let x = rev.pop().unwrap();
        assert(cands(orig.take(i + 1)).drop_last() =~= cands(orig.take(i as int)));
        assert(cands(orig.take(i + 1)).last() == x@);
        if score_exec(&x) >= 70 && !has_id(candidates, &x.id) {
            let ghost before = cands(candidates@);
            candidates.push(x);
            assert(cands(candidates@) =~= before.push(x@));
        }
        i += 1;
    }
    assert(orig.take(orig.len() as int) =~= orig);
}

/// Candidates ranked for a cover import: by relevance, then having a cover, then score
/// (each highest first), then title.
pub struct CoverRanked {
    pub relevance: i128,
    pub candidate: AlbumCandidate,
}

impl SortKey for CoverRanked {
    open spec fn key_lt(&self, other: &Self) -> bool {
        ||| self.relevance > other.relevance
        ||| self.relevance == other.relevance && self.candidate.cover_image_url is Some
            && other.candidate.cover_image_url is None
        ||| self.relevance == other.relevance && (self.candidate.cover_image_url is Some
            == other.candidate.cover_image_url is Some) && score_of(self.candidate@) > score_of(
            other.candidate@,
        )
        ||| self.relevance == other.relevance && (self.candidate.cover_image_url is Some
            == other.candidate.cover_image_url is Some) && score_of(self.candidate@) == score_of(
            other.candidate@,
        ) && str_lt(self.candidate.title@, other.candidate.title@)
    }

    proof fn lemma_key_lt_asymmetric(a: Self, b: Self) {
        crate::sort::lemma_str_lt_order(a.candidate.title@, b.candidate.title@, a.candidate.title@);
    }

    proof fn lemma_key_lt_negatively_transitive(a: Self, b: Self, c: Self) {
        crate::sort::lemma_str_lt_order(a.candidate.title@, b.candidate.title@, c.candidate.title@);
    }

    fn lt(&self, other: &Self) -> (r: bool) {
        let a = self.candidate.cover_image_url.is_some();
        let b = other.candidate.cover_image_url.is_some();
        let sa = score_exec(&self.candidate);
        let sb = score_exec(&other.candidate);
        if self.relevance != other.relevance {
            self.relevance > other.relevance
        } else if a != b {
            a
        } else if sa != sb {
            sa > sb
        } else {
            str_lt_exec(self.candidate.title.as_str(), other.candidate.title.as_str())
        }
    }
}

/// The relevant candidates (relevance at least 40) with their relevance, in order.
pub open spec fn relevant_ranked(v: Seq<AlbumCandidate>, terms: Seq<Seq<char>>) -> Seq<CoverRanked>
    decreases v.len(),
{
    if v.len() == 0 {
        seq![]
    } else {
        let rest = relevant_ranked(v.drop_last(), terms);
        let c = v.last();
        let rel = relevance(c@.title, c@.artist, terms);
        if rel >= 40 {
            rest.push(CoverRanked { relevance: rel as i128, candidate: c })
        } else {
            rest
        }
    }
}

/// The candidates inside ranked entries.
pub open spec fn unrank(v: Seq<CoverRanked>) -> Seq<CandidateView>
    decreases v.len(),
{
    if v.len() == 0 {
        seq![]
    } else {
        unrank(v.drop_last()).push(v.last().candidate@)
    }
}

/// The candidates offered after a cover import: the relevant ones, best ranked first, at
/// most five.
pub open spec fn cover_import_ranking(v: Seq<AlbumCandidate>, terms: Seq<Seq<char>>) -> Seq<CandidateView> {
    let ranked = unrank(stable_sort(relevant_ranked(v, terms)));
    if ranked.len() <= 5 {
        ranked
    } else {
        ranked.take(5)
    }
}

/// A relevance lies between 0 and 1340 points a term.
proof fn lemma_relevance_bounds(title: Seq<char>, artist: Seq<char>, terms: Seq<Seq<char>>)
    ensures
        0 <= relevance(title, artist, terms) <= 1340 * terms.len(),
{
    lemma_fragments_len(terms);
    lemma_fragments_score_bounds(fragments_of(terms), spec_normalize(title), spec_normalize(artist));
    lemma_overlap_score_bounds(meaningful_tokens_of(title), meaningful_tokens_of(artist), terms);
}

/// Every relevant entry is an input candidate of relevance at least 40, ranked with it.
proof fn lemma_relevant_ranked(v: Seq<AlbumCandidate>, terms: Seq<Seq<char>>)
    requires
        terms.len() <= usize::MAX,
    ensures
        forall|k: int|
            #![trigger relevant_ranked(v, terms)[k]]
            0 <= k < relevant_ranked(v, terms).len() ==> exists|i: int|
                0 <= i < v.len() && #[trigger] v[i] == relevant_ranked(v, terms)[k].candidate
                    && relevant_ranked(v, terms)[k].relevance == relevance(
                    v[i]@.title,
                    v[i]@.artist,
                    terms,
                ) && relevance(v[i]@.title, v[i]@.artist, terms) >= 40,
    decreases v.len(),
{
    if v.len() > 0 {
        let d = v.drop_last();
        lemma_relevant_ranked(d, terms);
        let prev = relevant_ranked(d, terms);
        let cur = relevant_ranked(v, terms);
        let n = v.len() - 1;
        assert(v.last() == v[n]);
        lemma_relevance_bounds(v[n]@.title, v[n]@.artist, terms);
        assert forall|k: int| #![trigger cur[k]] 0 <= k < cur.len() implies exists|i: int|
            0 <= i < v.len() && #[trigger] v[i] == cur[k].candidate && cur[k].relevance == relevance(
                v[i]@.title,
                v[i]@.artist,
                terms,
            ) && relevance(v[i]@.title, v[i]@.artist, terms) >= 40 by {
            if k < prev.len() {
                assert(cur[k] == prev[k]);
                let i = choose|i: int|
                    0 <= i < d.len() && #[trigger] d[i] == prev[k].candidate && prev[k].relevance
                        == relevance(d[i]@.title, d[i]@.artist, terms) && relevance(
                        d[i]@.title,
                        d[i]@.artist,
                        terms,
                    ) >= 40;
                assert(v[i] == d[i]);
            } else {
                assert(cur[k].candidate == v[n]);
            }
        }
    }
}

/// The candidates of ranked entries, one for one.
proof fn lemma_unrank(s: Seq<CoverRanked>)
    ensures
        unrank(s).len() == s.len(),
        forall|k: int| 0 <= k < s.len() ==> #[trigger] unrank(s)[k] == s[k].candidate@,
    decreases s.len(),
{
    if s.len() > 0 {
        lemma_unrank(s.drop_last());
        assert forall|k: int| 0 <= k < s.len() implies #[trigger] unrank(s)[k] == s[k].candidate@ by {
            if k < s.len() - 1 {
                assert(unrank(s)[k] == unrank(s.drop_last())[k]);
                assert(s.drop_last()[k] == s[k]);
            }
        }
    }
}

/// The candidates offered after a cover import are at most five input candidates, each with
/// relevance at least 40 to the recognised terms, the most relevant first.
pub proof fn cover_ranking_keeps_relevant_best_first(v: Seq<AlbumCandidate>, terms: Seq<Seq<char>>)
    requires
        terms.len() <= usize::MAX,
    ensures
        cover_import_ranking(v, terms).len() <= 5,
        forall|k: int|
            0 <= k < cover_import_ranking(v, terms).len() ==> relevance(
                #[trigger] cover_import_ranking(v, terms)[k].title,
                cover_import_ranking(v, terms)[k].artist,
                terms,
            ) >= 40 && exists|i: int| 0 <= i < v.len() && v[i]@ == cover_import_ranking(v, terms)[k],
        forall|k: int, l: int|
            0 <= k < l < cover_import_ranking(v, terms).len() ==> relevance(
                #[trigger] cover_import_ranking(v, terms)[k].title,
                cover_import_ranking(v, terms)[k].artist,
                terms,
            ) >= relevance(
                #[trigger] cover_import_ranking(v, terms)[l].title,
                cover_import_ranking(v, terms)[l].artist,
                terms,
            ),
{
    broadcast use vstd::seq_lib::group_to_multiset_ensures;

    let ranked = relevant_ranked(v, terms);
    let sorted = stable_sort(ranked);
    lemma_relevant_ranked(v, terms);
    crate::sort::lemma_stable_sort_len(ranked);
    crate::sort::stable_sort_is_sorted_permutation(ranked);
    lemma_unrank(sorted);
    let out = cover_import_ranking(v, terms);
    assert forall|k: int| 0 <= k < out.len() implies out[k] == sorted[k].candidate@ && exists|i: int|
        0 <= i < v.len() && #[trigger] v[i] == sorted[k].candidate && sorted[k].relevance == relevance(
            v[i]@.title,
            v[i]@.artist,
            terms,
        ) && relevance(v[i]@.title, v[i]@.artist, terms) >= 40 by {
        let x = sorted[k];
        assert(sorted.contains(x));
        assert(sorted.to_multiset().count(x) > 0);
        assert(ranked.contains(x));
        let m = choose|m: int| 0 <= m < ranked.len() && ranked[m] == x;
        assert(ranked[m] == x);
    }
    assert forall|k: int| 0 <= k < out.len() implies relevance(
        #[trigger] out[k].title,
        out[k].artist,
        terms,
    ) >= 40 && exists|i: int| 0 <= i < v.len() && v[i]@ == out[k] by {
        let i = choose|i: int|
            0 <= i < v.len() && #[trigger] v[i] == sorted[k].candidate && sorted[k].relevance
                == relevance(v[i]@.title, v[i]@.artist, terms) && relevance(v[i]@.title, v[i]@.artist, terms)
                >= 40;
        assert(v[i]@ == out[k]);
    }
    assert forall|k: int, l: int| 0 <= k < l < out.len() implies relevance(
        #[trigger] out[k].title,
        out[k].artist,
        terms,
    ) >= relevance(#[trigger] out[l].title, out[l].artist, terms) by {
        let i = choose|i: int|
            0 <= i < v.len() && #[trigger] v[i] == sorted[k].candidate && sorted[k].relevance
                == relevance(v[i]@.title, v[i]@.artist, terms) && relevance(v[i]@.title, v[i]@.artist, terms)
                >= 40;
        let j = choose|j: int|
            0 <= j < v.len() && #[trigger] v[j] == sorted[l].candidate && sorted[l].relevance
                == relevance(v[j]@.title, v[j]@.artist, terms) && relevance(v[j]@.title, v[j]@.artist, terms)
                >= 40;
        assert(!sorted[l].key_lt(&sorted[k]));
    }
}

/// Ranks the candidates found for a cover: drops those with relevance below 40, orders the
/// rest, and keeps at most five.
pub fn rank_cover_candidates(candidates: Vec<AlbumCandidate>, terms: &Vec<String>) -> (r: Vec<AlbumCandidate>)
    ensures
        cands(r@) == cover_import_ranking(candidates@, strs(terms@)),
{
    let ghost orig = candidates@;
    let n: usize = candidates.len();
    let mut rev = reverse_vec(candidates);
    let mut ranked: Vec<CoverRanked> = Vec::new();
    let mut i: usize = 0;
    while rev.len() > 0
        invariant
            i + rev@.len() == orig.len(),
            orig.len() == n,
            forall|k: int| 0 <= k < rev@.len() ==> rev@[k] == orig[orig.len() - 1 - k],
            ranked@ == relevant_ranked(orig.take(i as int), strs(terms@)),
        decreases rev.len(),
    {
        let x = rev.pop().unwrap();
        assert(orig.take(i + 1).drop_last() =~= orig.take(i as int));
        assert(orig.take(i + 1).last() == x);
        let rel = cover_candidate_relevance(&x, terms);
        if rel >= 40 {
            ranked.push(CoverRanked { relevance: rel, candidate: x });
        }
        i += 1;
    }
    assert(orig.take(orig.len() as int) =~= orig);
    let sorted = sort_by_key(ranked);
    let ghost sv = sorted@;
    let m: usize = sorted.len();
    let mut srev = reverse_vec(sorted);
    let mut out: Vec<AlbumCandidate> = Vec::new();
    let mut j: usize = 0;
    assert(cands(out@) =~= Seq::<CandidateView>::empty());
    while srev.len() > 0
        invariant
            j + srev@.len() == sv.len(),
            sv.len() == m,
            forall|k: int| 0 <= k < srev@.len() ==> srev@[k] == sv[sv.len() - 1 - k],
            cands(out@) == unrank(sv.take(j as int)),
        decreases srev.len(),
    {
        let x = srev.pop().unwrap();
        assert(sv.take(j + 1).drop_last() =~= sv.take(j as int));
        assert(sv.take(j + 1).last() == x);
        let ghost before = cands(out@);
        out.push(x.candidate);
        assert(cands(out@) =~= before.push(x.candidate@));
        j += 1;
    }
    assert(sv.take(sv.len() as int) =~= sv);
    if out.len() > 5 {
        out.truncate(5);
        assert(cands(out@) =~= unrank(sv).take(5));
    }
    out
}

/// The status of a cover import: nothing found, one clear winner, or a choice to make.
pub open spec fn cover_analysis_status_of(v: Seq<CandidateView>, terms: Seq<Seq<char>>) -> Seq<char> {
    if v.len() == 0 {
        "not_found"@
    } else if has_clear_winner(v, terms) {
        "complete"@
    } else {
        "needs_choice"@
    }
}

/// The status of a cover import given the ranked candidates and recognised terms.
pub fn cover_analysis_status(candidates: &Vec<AlbumCandidate>, terms: &Vec<String>) -> (r: String)
    ensures
        r@ == cover_analysis_status_of(cands(candidates@), strs(terms@)),
{
    if candidates.len() == 0 {
        owned("not_found")
    } else if cover_candidates_have_clear_winner_for_terms(candidates, terms) {
        owned("complete")
    } else {
        owned("needs_choice")
    }
}

/// Candidates ordered for an artist's album list: score (highest first), then release year
/// (unknown first), then title.
pub struct ArtistAlbumOrder(pub AlbumCandidate);

impl SortKey for ArtistAlbumOrder {
    open spec fn key_lt(&self, other: &Self) -> bool {
        ||| score_of(self.0@) > score_of(other.0@)
        ||| score_of(self.0@) == score_of(other.0@) && opt_i32_lt(self.0.release_year, other.0.release_year)
        ||| score_of(self.0@) == score_of(other.0@) && self.0.release_year == other.0.release_year
            && str_lt(self.0.title@, other.0.title@)
    }

    proof fn lemma_key_lt_asymmetric(a: Self, b: Self) {
        crate::sort::lemma_str_lt_order(a.0.title@, b.0.title@, a.0.title@);
    }

    proof fn lemma_key_lt_negatively_transitive(a: Self, b: Self, c: Self) {
        crate::sort::lemma_str_lt_order(a.0.title@, b.0.title@, c.0.title@);
    }

    fn lt(&self, other: &Self) -> (r: bool) {
        let sa = score_exec(&self.0);
        let sb = score_exec(&other.0);
        if sa != sb {
            return sa > sb;
        }
        match (self.0.release_year, other.0.release_year) {
            (None, Some(_)) => true,
            (Some(_), None) => false,
            (Some(x), Some(y)) => if x != y {
                x < y
            } else {
                str_lt_exec(self.0.title.as_str(), other.0.title.as_str())
            },
            (None, None) => str_lt_exec(self.0.title.as_str(), other.0.title.as_str()),
        }
    }
}

/// The candidates by the searched artist (score at least 70, artist key containing the
/// searched key), wrapped for ordering.
pub open spec fn by_artist(v: Seq<AlbumCandidate>, artist: Seq<char>) -> Seq<ArtistAlbumOrder>
    decreases v.len(),
{
    if v.len() == 0 {
        seq![]
    } else {
        let rest = by_artist(v.drop_last(), artist);
        let c = v.last();
        if score_of(c@) >= 70 && contains(spec_normalize(c@.artist), spec_normalize(artist)) {
            rest.push(ArtistAlbumOrder(c))
        } else {
            rest
        }
    }
}

/// The candidates inside ordered entries.
pub open spec fn unwrap_albums(v: Seq<ArtistAlbumOrder>) -> Seq<CandidateView>
    decreases v.len(),
{
    if v.len() == 0 {
        seq![]
    } else {
        unwrap_albums(v.drop_last()).push(v.last().0@)
    }
}

/// The albums listed for an artist search: the matching candidates in order, at most thirty.
pub open spec fn artist_albums_ranking(v: Seq<AlbumCandidate>, artist: Seq<char>) -> Seq<CandidateView> {
    let ranked = unwrap_albums(stable_sort(by_artist(v, artist)));
    if ranked.len() <= 30 {
        ranked
    } else {
        ranked.take(30)
    }
}

/// Keeps the candidates by the searched artist, orders them, and keeps at most thirty.
pub fn rank_artist_albums(candidates: Vec<AlbumCandidate>, artist: &str) -> (r: Vec<AlbumCandidate>)
    ensures
        cands(r@) == artist_albums_ranking(candidates@, artist@),
{
    let key = normalize_chars(artist);
    let ghost orig = candidates@;
    let n: usize = candidates.len();
    let mut rev = reverse_vec(candidates);
    let mut kept: Vec<ArtistAlbumOrder> = Vec::new();
    let mut i: usize = 0;
    while rev.len() > 0
        invariant
            i + rev@.len() == orig.len(),
            orig.len() == n,
            key@ == spec_normalize(artist@),
            forall|k: int| 0 <= k < rev@.len() ==> rev@[k] == orig[orig.len() - 1 - k],
            kept@ == by_artist(orig.take(i as int), artist@),
        decreases rev.len(),
    {
        let x = rev.pop().unwrap();
        assert(orig.take(i + 1).drop_last() =~= orig.take(i as int));
        assert(orig.take(i + 1).last() == x);
        let a = normalize_chars(x.artist.as_str());
        if score_exec(&x) >= 70 && contains_exec(&a, &key) {
            kept.push(ArtistAlbumOrder(x));
        }
        i += 1;
    }
    assert(orig.take(orig.len() as int) =~= orig);
    let sorted = sort_by_key(kept);
    let ghost sv = sorted@;
    let m: usize = sorted.len();
    let mut srev = reverse_vec(sorted);
    let mut out: Vec<AlbumCandidate> = Vec::new();
    let mut j: usize = 0;
    assert(cands(out@) =~= Seq::<CandidateView>::empty());
    while srev.len() > 0
        invariant
            j + srev@.len() == sv.len(),
            sv.len() == m,
            forall|k: int| 0 <= k < srev@.len() ==> srev@[k] == sv[sv.len() - 1 - k],
            cands(out@) == unwrap_albums(sv.take(j as int)),
        decreases srev.len(),
    {
        let x = srev.pop().unwrap();
        assert(sv.take(j + 1).drop_last() =~= sv.take(j as int));
        assert(sv.take(j + 1).last() == x);
        let ghost before = cands(out@);
        out.push(x.0);
        assert(cands(out@) =~= before.push(x.0@));
        j += 1;
    }
    assert(sv.take(sv.len() as int) =~= sv);
    if out.len() > 30 {
        out.truncate(30);
        assert(cands(out@) =~= unwrap_albums(sv).take(30));
    }
    out
}

} // verus!
