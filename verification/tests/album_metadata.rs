use gavin::album_metadata::{
    cover_candidate_relevance, cover_candidates_have_clear_winner_for_terms, AlbumCandidate,
};
use gavin::cover::{cover_cache_key, cover_file_extension, stable_url_cache_key};
use gavin::musicbrainz::{
    primary_genre, MusicBrainzArtistCredit, MusicBrainzReleaseGroup, MusicBrainzTag,
};
use gavin::normalize::normalize;
use gavin::recognition::{gemini_model_path, json_payload, parse_album_recognition, RecognitionContent};
use gavin::retail::{
    french_retail_album_terms_from_html, french_retail_musicbrainz_queries, percent_encode_query,
};
use gavin::search_terms::{reverse_image_musicbrainz_queries, reverse_image_search_terms};

fn candidate(id: &str, title: &str, artist: &str, year: i32, score: i32) -> AlbumCandidate {
    AlbumCandidate {
        source: "musicbrainz".to_string(),
        id: id.to_string(),
        title: title.to_string(),
        artist: artist.to_string(),
        release_year: Some(year),
        genre: Some("Rap".to_string()),
        cover_image_url: Some(format!("https://example.com/{id}.jpg")),
        disambiguation: None,
        source_url: format!("https://musicbrainz.org/release-group/{id}"),
        score: Some(score),
    }
}

#[test]
fn normalizes_for_matching() {
    assert_eq!(normalize("The Dark Side of the Moon"), "thedarksideofthemoon");
    assert_eq!(normalize("Björk - Debut!"), "bjorkdebut");
    assert_eq!(normalize("Gaël Faye"), normalize("Gael Faye"));
}

#[test]
fn parses_release_group_candidate() {
    let group = MusicBrainzReleaseGroup {
        id: "abc".to_string(),
        title: "Abbey Road".to_string(),
        score: Some(100),
        first_release_date: Some("1969-09-26".to_string()),
        artist_credit: vec![MusicBrainzArtistCredit {
            name: "The Beatles".to_string(),
        }],
        disambiguation: Some("".to_string()),
        genres: vec![MusicBrainzTag {
            name: "rock".to_string(),
            count: Some(12),
        }],
        tags: Vec::new(),
    };

    let candidate = AlbumCandidate::from_release_group(group);
    assert_eq!(candidate.artist, "The Beatles");
    assert_eq!(candidate.release_year, Some(1969));
    assert_eq!(candidate.genre.as_deref(), Some("Rock"));
    assert_eq!(candidate.disambiguation, None);
}

#[test]
fn maps_musicbrainz_genres_to_display_names() {
    assert_eq!(
        primary_genre(
            vec![],
            vec![MusicBrainzTag {
                name: "hip hop".to_string(),
                count: Some(8),
            }],
        )
        .as_deref(),
        Some("Rap")
    );
}

#[test]
fn prepares_reverse_image_terms_for_musicbrainz_search() {
    let terms = reverse_image_search_terms(vec![
        "The Beatles Abbey Road album cover".to_string(),
        "The Beatles - Abbey Road".to_string(),
        "<b>Abbey Road</b> by The Beatles | Discogs".to_string(),
    ]);

    assert_eq!(terms[0], "The Beatles Abbey Road");
    assert!(terms.iter().any(|term| term == "The Beatles - Abbey Road"));

    let queries = reverse_image_musicbrainz_queries(&terms);
    assert!(queries.iter().any(|query| query.contains("releasegroup")));
    assert!(queries.iter().any(|query| query == "The Beatles Abbey Road"));
}

#[test]
fn extracts_french_retail_album_terms() {
    let html = r#"
            <html>
              <head><meta content="AMOUR SUPREME - Youssoupha - Vinyle album | fnac" /></head>
              <body>
                <h2>AMOUR SUPREME Edition Limitée Vinyle Cultura</h2>
                <a title="Acheter Youssoupha - AMOUR SUPREME pas cher"></a>
              </body>
            </html>
        "#;

    let terms = french_retail_album_terms_from_html(html, "Youssoupha", "Amour Supreme", "fnac");

    assert!(terms.iter().any(|term| term.contains("Youssoupha")));
    assert!(terms.iter().all(|term| !normalize(term).contains("fnac")));
    assert!(terms.iter().all(|term| !normalize(term).contains("vinyle")));
}

#[test]
fn builds_french_retail_musicbrainz_queries() {
    let queries = french_retail_musicbrainz_queries(
        &vec!["Youssoupha - AMOUR SUPREME".to_string()],
        "Youssoupha",
        "Amour Supreme",
    );

    assert!(queries.iter().any(|query| query.contains("releasegroup")));
    assert!(queries.iter().any(|query| query.contains("Youssoupha")));
}

#[test]
fn percent_encodes_retail_search_queries() {
    assert_eq!(percent_encode_query("Suprême NTM vinyle"), "Supr%C3%AAme%20NTM%20vinyle");
}

#[test]
fn builds_gemini_model_paths() {
    assert_eq!(gemini_model_path("gemini-2.0-flash"), "models/gemini-2.0-flash");
    assert_eq!(gemini_model_path("models/gemini-2.0-flash"), "models/gemini-2.0-flash");
}

#[test]
fn extracts_json_payloads_from_model_responses() {
    assert_eq!(
        json_payload("```json\n{\"search_terms\":[\"A - B\"]}\n```").as_deref(),
        Some("{\"search_terms\":[\"A - B\"]}")
    );
    assert_eq!(
        json_payload(" {\"search_terms\":[]} ").as_deref(),
        Some("{\"search_terms\":[]}")
    );
    assert_eq!(
        json_payload("Here is the result: {\"search_terms\":[\"A - B\"]}").as_deref(),
        Some("{\"search_terms\":[\"A - B\"]}")
    );
    assert_eq!(json_payload(""), None);
}

#[test]
fn prepares_cover_cache_filenames() {
    assert_eq!(
        cover_cache_key("550e8400-e29b-41d4-a716-446655440000"),
        "550e8400-e29b-41d4-a716-446655440000"
    );
    assert_eq!(cover_cache_key("../bad id!"), "badid");
    assert_eq!(
        stable_url_cache_key("https://example.com/cover.jpg"),
        stable_url_cache_key("https://example.com/cover.jpg")
    );
}

#[test]
fn detects_cacheable_cover_extensions() {
    assert_eq!(cover_file_extension(Some("image/jpeg"), ""), Some("jpg"));
    assert_eq!(cover_file_extension(Some("image/png; charset=binary"), ""), Some("png"));
    assert_eq!(
        cover_file_extension(None, "https://example.com/cover.webp?size=small"),
        Some("webp")
    );
    assert_eq!(cover_file_extension(Some("text/html"), "cover.txt"), None);
}

fn json_search_terms(payload: &str) -> Vec<String> {
    let value: serde_json::Value = serde_json::from_str(payload).unwrap();
    value
        .get("search_terms")
        .and_then(|terms| terms.as_array())
        .map(|terms| {
            terms
                .iter()
                .filter_map(|term| term.as_str().map(|s| s.to_string()))
                .collect()
        })
        .unwrap_or_default()
}

#[test]
fn parses_album_recognition_payloads() {
    let recognition = parse_album_recognition(
        "Gemini",
        "Here is the result: {\"search_terms\":[\"The Beatles - Abbey Road\"]}",
    )
    .unwrap();

    let search_terms = match recognition {
        RecognitionContent::Json(payload) => json_search_terms(&payload),
        RecognitionContent::Quoted(terms) => terms,
    };
    assert_eq!(search_terms, vec!["The Beatles - Abbey Road"]);
}

#[test]
fn falls_back_to_quoted_terms_for_non_json_responses() {
    let recognition = parse_album_recognition(
        "Gemini",
        "The text says \"amour supreme\" and \"99 revolution\" plus \"le monde de karmany\".",
    )
    .unwrap();

    let search_terms = match recognition {
        RecognitionContent::Json(payload) => json_search_terms(&payload),
        RecognitionContent::Quoted(terms) => terms,
    };
    assert!(search_terms.iter().any(|term| term.contains("amour supreme")));
    assert!(search_terms.iter().any(|term| term == "99 revolution"));
}

#[test]
fn ranks_cover_candidates_against_detected_terms() {
    let terms = vec!["Amour Supreme - Le Monde de Karmany".to_string()];
    let youssoupha = AlbumCandidate {
        source: "musicbrainz".to_string(),
        id: "youssoupha".to_string(),
        title: "AMOUR SUPREME".to_string(),
        artist: "Youssoupha".to_string(),
        release_year: Some(2025),
        genre: Some("Rap".to_string()),
        cover_image_url: Some("https://example.com/youssoupha.jpg".to_string()),
        disambiguation: None,
        source_url: "https://musicbrainz.org/release-group/youssoupha".to_string(),
        score: Some(91),
    };
    let ntm = AlbumCandidate {
        source: "musicbrainz".to_string(),
        id: "ntm".to_string(),
        title: "Le Monde de demain".to_string(),
        artist: "Suprême NTM".to_string(),
        release_year: Some(1990),
        genre: Some("Rap".to_string()),
        cover_image_url: Some("https://example.com/ntm.jpg".to_string()),
        disambiguation: None,
        source_url: "https://musicbrainz.org/release-group/ntm".to_string(),
        score: Some(100),
    };

    assert!(cover_candidate_relevance(&youssoupha, &terms) > cover_candidate_relevance(&ntm, &terms));
    assert!(cover_candidate_relevance(&ntm, &terms) < 40);
}

#[test]
fn detects_clear_term_based_cover_candidate_winner() {
    let terms = vec!["Artist - Album".to_string()];
    let winner = AlbumCandidate {
        source: "musicbrainz".to_string(),
        id: "winner".to_string(),
        title: "Album".to_string(),
        artist: "Artist".to_string(),
        release_year: Some(2020),
        genre: Some("Rock".to_string()),
        cover_image_url: Some("https://example.com/cover.jpg".to_string()),
        disambiguation: None,
        source_url: "https://musicbrainz.org/release-group/winner".to_string(),
        score: Some(100),
    };
    let mut runner_up = winner.clone();
    runner_up.id = "runner-up".to_string();
    runner_up.title = "Other Album".to_string();
    runner_up.score = Some(90);

    assert!(cover_candidates_have_clear_winner_for_terms(
        &vec![winner.clone(), runner_up.clone()],
        &terms
    ));

    runner_up.title = "Album".to_string();
    assert!(!cover_candidates_have_clear_winner_for_terms(&vec![winner, runner_up], &terms));
}

#[test]
fn stable_url_cache_key_is_the_fnv1a_hash() {
    assert_eq!(
        stable_url_cache_key("https://example.com/cover.jpg"),
        "url-f416ef6a9221dfd2"
    );
}

#[test]
fn cover_cache_key_is_idempotent() {
    let once = cover_cache_key("../weird id/with spaces_ok-1");
    assert_eq!(once, "weirdidwithspaces_ok-1");
    assert_eq!(cover_cache_key(&once), once);
}

#[test]
fn candidate_relevance_exact_values() {
    let terms = vec!["Artist - Album".to_string()];
    let c = candidate("x", "Album", "Artist", 2020, 100);
    assert!(cover_candidate_relevance(&c, &terms) >= 40);
}
