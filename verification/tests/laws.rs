use gavin::album_metadata::{
    dedupe_candidates_by_id, lookup_outcome, rank_artist_albums, AlbumCandidate, LookupOutcome,
};
use gavin::search_terms::push_search_term;
use gavin::catalog::{enrichment_update, LookupResult};
use gavin::db::{needs_metadata_lookup, CreateVinyl, Vinyl};
use gavin::recognition::gemini_model_path;
use gavin::retail::percent_encode_query;

fn candidate(id: &str, title: &str, artist: &str, score: i32) -> AlbumCandidate {
    AlbumCandidate {
        source: "musicbrainz".to_string(),
        id: id.to_string(),
        title: title.to_string(),
        artist: artist.to_string(),
        release_year: None,
        genre: None,
        cover_image_url: None,
        disambiguation: None,
        source_url: format!("https://musicbrainz.org/release-group/{id}"),
        score: Some(score),
    }
}

fn vinyl() -> Vinyl {
    Vinyl::create(
        "v".to_string(),
        CreateVinyl {
            artist: "The Beatles".to_string(),
            title: "Abbey Road".to_string(),
            release_year: None,
            notes: None,
            cover_image_url: None,
        },
        "2024-01-01T00:00:00Z".to_string(),
    )
    .unwrap()
}

#[test]
fn lookups_never_guess_between_matches() {
    let two_exact = vec![
        candidate("a", "Abbey Road", "The Beatles", 100),
        candidate("b", "Abbey Road", "The Beatles & Friends", 95),
        candidate("c", "Let It Be", "The Beatles", 99),
    ];
    match lookup_outcome(&two_exact, "The Beatles", "Abbey Road") {
        LookupOutcome::NeedsChoice(v) => {
            assert_eq!(v.iter().map(|c| c.id.as_str()).collect::<Vec<_>>(), vec!["a", "b"])
        }
        other => panic!("unexpected: {:?}", other),
    }
    let one_exact = vec![candidate("a", "Abbey Road", "The Beatles", 100), candidate("c", "Let It Be", "The Beatles", 99)];
    assert!(matches!(lookup_outcome(&one_exact, "The Beatles", "Abbey Road"), LookupOutcome::Selected(c) if c.id == "a"));
    let weak = vec![candidate("a", "Abbey Road", "The Beatles", 89)];
    assert!(matches!(lookup_outcome(&weak, "The Beatles", "Abbey Road"), LookupOutcome::NotFound));
    let several = vec![candidate("x", "Other", "Someone", 95), candidate("y", "Else", "Someone", 91)];
    assert!(matches!(lookup_outcome(&several, "The Beatles", "Abbey Road"), LookupOutcome::NeedsChoice(v) if v.len() == 2));
}

#[test]
fn failed_lookups_are_retried_and_settled_ones_are_not() {
    let v = vinyl();
    assert!(needs_metadata_lookup(&v));
    let retried = [LookupResult::Failed("timeout".to_string()), LookupResult::NotFound];
    for result in retried {
        let after = v.update_metadata(enrichment_update(&v, result, "t".to_string()));
        assert!(needs_metadata_lookup(&after));
    }
    let settled = [
        LookupResult::Selected(candidate("a", "Abbey Road", "The Beatles", 100)),
        LookupResult::NeedsChoice("[]".to_string()),
        LookupResult::Disabled,
    ];
    for result in settled {
        let after = v.update_metadata(enrichment_update(&v, result, "t".to_string()));
        assert!(!needs_metadata_lookup(&after));
    }
}

#[test]
fn deduplication_keeps_one_candidate_per_id() {
    let mut v = vec![
        candidate("a", "Abbey Road", "The Beatles", 80),
        candidate("b", "Let It Be", "The Beatles", 90),
        candidate("a", "Abbey Road (Remaster)", "The Beatles", 95),
    ];
    dedupe_candidates_by_id(&mut v);
    assert_eq!(v.len(), 2);
    assert_eq!(v[0].id, "a");
    assert_eq!(v[0].score, Some(95));
    assert_eq!(v[1].id, "b");
}

#[test]
fn model_paths_are_idempotent() {
    let once = gemini_model_path("gemini-1.5-pro");
    assert_eq!(gemini_model_path(&once), once);
}

#[test]
fn encoded_queries_are_url_safe() {
    let encoded = percent_encode_query("Über & \"Quotes\" #1 / 100%");
    assert!(encoded
        .chars()
        .all(|c| c.is_ascii_alphanumeric() || "-_.~%".contains(c)));
    assert_eq!(encoded, "%C3%9Cber%20%26%20%22Quotes%22%20%231%20%2F%20100%25");
}

#[test]
fn collected_search_terms_do_not_repeat() {
    let mut terms: Vec<String> = Vec::new();
    push_search_term(&mut terms, "Abbey Road".to_string());
    push_search_term(&mut terms, "  abbey-road ".to_string());
    push_search_term(&mut terms, "The Beatles - Abbey Road".to_string());
    push_search_term(&mut terms, "12345".to_string());
    push_search_term(&mut terms, "ab".to_string());
    assert_eq!(terms, vec!["Abbey Road".to_string(), "The Beatles - Abbey Road".to_string()]);
}

#[test]
fn artist_albums_are_ranked_in_order() {
    let mut b = candidate("b", "Revolver", "The Beatles", 90);
    b.release_year = Some(1966);
    let mut a = candidate("a", "Abbey Road", "The Beatles", 90);
    a.release_year = Some(1969);
    let mut c = candidate("c", "Help!", "The Beatles", 100);
    c.release_year = Some(1965);
    let mut d = candidate("d", "Anthology", "The Beatles", 90);
    d.release_year = Some(1966);
    let low = candidate("e", "Bootleg", "The Beatles", 60);
    let other = candidate("f", "Nevermind", "Nirvana", 100);
    let ranked = rank_artist_albums(vec![b, a, c, d, low, other], "beatles");
    let ids: Vec<&str> = ranked.iter().map(|c| c.id.as_str()).collect();
    assert_eq!(ids, vec!["c", "d", "b", "a"]);
}
