use gavin::album_metadata::{AlbumCandidate, LookupOutcome};
use gavin::catalog::{
    enrichment_step, DetailsAction, DetailsEvent, EnrichmentAction, EnrichmentEvent,
    enrichment_update, release_group_from_lookup, details_source, AlbumDetails, DetailsSource,
    LookupResult,
};
use gavin::cover::{
    check_cover_size, cover_cache_candidates, cover_plan, cover_temp_file_name, cover_url_change,
    front_cover_url, require_cover_extension, CoverArtImage, CoverPlan,
};
use gavin::db::{CreateVinyl, Vinyl};
use gavin::musicbrainz::{
    artist_credit_name, artist_search_query, canonical_genre_name, parse_i32, release_track_count,
    release_tracklist_score, release_year, select_release_tracklist, MusicBrainzArtistCredit,
    MusicBrainzMedium, MusicBrainzRecording, MusicBrainzRelease, MusicBrainzTrack,
};
use gavin::recognition::{
    gemini_generate_url, gemini_reply_text, image_base64, image_data_url, image_mime_type,
    openai_chat_url, openai_reply_text, provider_error_message, provider_error_text,
    recognition_provider, recognition_terms, response_preview, retry_after_seconds,
    strip_json_code_fence, RecognitionProvider, RetryAction, RetryState,
};
use gavin::retail::{
    cleanup_french_retail_album_term, decode_basic_html_entities, french_retail_search_url,
    french_retail_sources, french_retail_term_matches_album, html_attribute_values,
    html_tag_texts,
};

fn vinyl(year: Option<i32>, notes: Option<&str>, cover: Option<&str>) -> Vinyl {
    Vinyl::create(
        "v1".to_string(),
        CreateVinyl {
            artist: "The Beatles".to_string(),
            title: "Abbey Road".to_string(),
            release_year: year,
            notes: notes.map(|n| n.to_string()),
            cover_image_url: cover.map(|c| c.to_string()),
        },
        "2024-01-01T00:00:00Z".to_string(),
    )
    .unwrap()
}

fn candidate(id: &str) -> AlbumCandidate {
    AlbumCandidate {
        source: "musicbrainz".to_string(),
        id: id.to_string(),
        title: "Abbey Road".to_string(),
        artist: "The Beatles".to_string(),
        release_year: Some(1969),
        genre: Some("Rock".to_string()),
        cover_image_url: Some(format!("/uploads/album-covers/{id}.jpg")),
        disambiguation: None,
        source_url: format!("https://musicbrainz.org/release-group/{id}"),
        score: Some(100),
    }
}

fn track(number: &str, title: Option<&str>, recording: Option<&str>) -> MusicBrainzTrack {
    MusicBrainzTrack {
        number: Some(number.to_string()),
        title: title.map(|t| t.to_string()),
        length: Some(180000),
        artist_credit: vec![MusicBrainzArtistCredit { name: "The Beatles".to_string() }],
        recording: Some(MusicBrainzRecording { title: recording.map(|t| t.to_string()) }),
    }
}

fn release(id: &str, date: Option<&str>, status: Option<&str>, media: Vec<MusicBrainzMedium>) -> MusicBrainzRelease {
    MusicBrainzRelease {
        id: id.to_string(),
        title: format!("Release {id}"),
        date: date.map(|d| d.to_string()),
        country: Some("GB".to_string()),
        status: status.map(|s| s.to_string()),
        media,
    }
}

#[test]
fn provider_selection() {
    assert_eq!(recognition_provider("gemini").unwrap(), RecognitionProvider::Gemini);
    assert_eq!(recognition_provider("chatgpt").unwrap(), RecognitionProvider::OpenAi);
    assert_eq!(recognition_provider("none").unwrap_err(), "Album-cover recognition is disabled");
    assert_eq!(
        recognition_provider("bing").unwrap_err(),
        "Unsupported ALBUM_COVER_RECOGNITION_PROVIDER 'bing'. Use 'gemini', 'openai', or 'disabled'."
    );
    assert_eq!(
        RecognitionProvider::OpenAi.api_key(None).unwrap_err(),
        "Album-cover recognition provider 'openai' requires OPENAI_API_KEY"
    );
    assert_eq!(RecognitionProvider::Gemini.api_key(Some("k".to_string())).unwrap(), "k");
    assert_eq!(RecognitionProvider::OpenAi.label(), "ChatGPT");
}

#[test]
fn provider_urls() {
    assert_eq!(openai_chat_url("https://api.openai.com"), "https://api.openai.com/v1/chat/completions");
    assert_eq!(
        gemini_generate_url("https://g.example", "gemini-2.0-flash"),
        "https://g.example/v1beta/models/gemini-2.0-flash:generateContent"
    );
}

#[test]
fn image_encoding() {
    assert_eq!(image_mime_type(&[0x89, b'P', b'N', b'G', 0]), "image/png");
    assert_eq!(image_mime_type(b"GIF89a...."), "image/gif");
    assert_eq!(image_mime_type(b"RIFF\0\0\0\0WEBPVP8 "), "image/webp");
    assert_eq!(image_mime_type(b"RIFF\0\0\0\0WAVE"), "image/jpeg");
    assert_eq!(image_mime_type(&[0xff, 0xd8, 0xff]), "image/jpeg");
    assert_eq!(image_base64(b"Man"), "TWFu");
    assert_eq!(image_base64(b"Ma"), "TWE=");
    assert_eq!(image_data_url(&[0x89, b'P', b'N', b'G', b'\r', b'\n']), "data:image/png;base64,iVBORw0K");
}

#[test]
fn reply_texts() {
    assert_eq!(openai_reply_text(vec!["{}".to_string()]).unwrap(), "{}");
    assert_eq!(openai_reply_text(vec![]).unwrap_err(), "ChatGPT returned no album-cover response");
    assert_eq!(
        gemini_reply_text(&vec![vec!["a".to_string(), "b".to_string()], vec!["c".to_string()]]).unwrap(),
        "a\nb"
    );
    assert_eq!(gemini_reply_text(&vec![]).unwrap_err(), "Gemini returned no album-cover response");
    assert_eq!(strip_json_code_fence("  ```json\n {\"a\":1} \n```  "), "{\"a\":1}");
    assert_eq!(strip_json_code_fence("```\n{}\n"), "{}");
    assert_eq!(response_preview("   "), "<empty>");
    assert_eq!(response_preview(&"x".repeat(400)).len(), 300);
}

#[test]
fn recognition_terms_must_not_be_empty() {
    assert_eq!(
        recognition_terms("Gemini", vec!["12".to_string()]).unwrap_err(),
        "Gemini did not identify album-like search terms"
    );
    assert_eq!(
        recognition_terms("Gemini", vec!["The Beatles - Abbey Road".to_string()]).unwrap(),
        vec!["The Beatles - Abbey Road".to_string()]
    );
}

#[test]
fn rate_limits_are_retried_at_most_twice() {
    let start = RetryState::new();
    let (a1, s1) = start.step(429, None);
    assert_eq!(a1, RetryAction::RetryAfter(2));
    let (a2, s2) = s1.step(429, Some(7));
    assert_eq!(a2, RetryAction::RetryAfter(7));
    let (a3, _) = s2.step(429, None);
    assert_eq!(a3, RetryAction::Failed);
    assert_eq!(s1.step(200, None).0, RetryAction::Succeeded);
    assert_eq!(start.step(500, None).0, RetryAction::Failed);
    assert_eq!(retry_after_seconds("30"), Some(30));
    assert_eq!(retry_after_seconds("+5"), Some(5));
    assert_eq!(retry_after_seconds("soon"), None);
    assert_eq!(retry_after_seconds("18446744073709551616"), None);
}

#[test]
fn provider_error_messages() {
    let m = provider_error_message("OpenAI", 500, "{\"error\":{\"message\":\"boom\"}}");
    assert_eq!(m, "OpenAI album-cover recognition failed with HTTP 500 Internal Server Error. Provider message: boom");
    let m = provider_error_message("Gemini", 503, "  busy  ");
    assert_eq!(m, "Gemini album-cover recognition failed with HTTP 503 Service Unavailable. Provider message: busy");
    let m = provider_error_message("Gemini", 429, "");
    assert!(m.starts_with("Gemini rejected album-cover recognition with 429 Too Many Requests."));
    assert!(m.ends_with("Provider message: no provider details"));
    assert_eq!(
        provider_error_text("X", 599, "", None, None),
        "X album-cover recognition failed with HTTP 599 <unknown status code>. Provider message: no provider details"
    );
}

#[test]
fn genre_names() {
    assert_eq!(canonical_genre_name("Hip-Hop"), "Rap");
    assert_eq!(canonical_genre_name("rhythm and blues"), "R&B");
    assert_eq!(canonical_genre_name("progressive  ROCK"), "Progressive Rock");
    assert_eq!(canonical_genre_name("   "), "");
}

#[test]
fn credits_and_years() {
    assert_eq!(
        artist_credit_name(&vec![
            MusicBrainzArtistCredit { name: " Simon ".to_string() },
            MusicBrainzArtistCredit { name: "& Garfunkel ".to_string() },
        ])
        .as_deref(),
        Some("Simon & Garfunkel")
    );
    assert_eq!(artist_credit_name(&vec![]), None);
    assert_eq!(release_year(&Some("1969-09-26".to_string())), Some(1969));
    assert_eq!(release_year(&Some("19".to_string())), None);
    assert_eq!(release_year(&Some("abcd".to_string())), None);
    assert_eq!(release_year(&None), None);
    assert_eq!(parse_i32("-42"), Some(-42));
    assert_eq!(parse_i32("-+4"), None);
    assert_eq!(parse_i32("2147483648"), None);
    assert_eq!(parse_i32("-2147483648"), Some(i32::MIN));
    assert_eq!(artist_search_query("  Björk ").unwrap(), "artist:\"Björk\"");
    assert_eq!(artist_search_query("  ").unwrap_err(), "Artist name is required");
}

#[test]
fn tracklist_comes_from_the_best_release() {
    let bootleg = release(
        "boot",
        Some("1970"),
        Some("Bootleg"),
        vec![MusicBrainzMedium {
            position: Some(1),
            format: Some("CD".to_string()),
            tracks: vec![track("1", Some("Come Together"), None), track("2", Some("Something"), None)],
        }],
    );
    let official = release(
        "off",
        Some("1969-09-26"),
        Some("Official"),
        vec![
            MusicBrainzMedium {
                position: Some(2),
                format: Some("12\" Vinyl".to_string()),
                tracks: vec![track("B1", Some("  "), Some("Here Comes the Sun"))],
            },
            MusicBrainzMedium {
                position: Some(1),
                format: Some("12\" Vinyl".to_string()),
                tracks: vec![track("A1", Some("Come Together"), None)],
            },
        ],
    );
    let empty = release("empty", None, Some("Official"), vec![]);
    assert_eq!(release_track_count(&official), 2);
    assert_eq!(release_tracklist_score(&official, Some(1969)), 2 + 1000 + 100 + 50);
    assert_eq!(release_tracklist_score(&bootleg, Some(1969)), 2 + 1000);
    assert_eq!(release_tracklist_score(&empty, None), 100);

    let list = select_release_tracklist(vec![bootleg, empty, official], Some(1969)).unwrap();
    assert_eq!(list.source_url, "https://musicbrainz.org/release/off");
    assert_eq!(list.format.as_deref(), Some("12\" Vinyl"));
    assert_eq!(list.tracks.len(), 2);
    assert_eq!(list.tracks[0].title, "Come Together");
    assert_eq!(list.tracks[0].disc_number, Some(1));
    assert_eq!(list.tracks[1].title, "Here Comes the Sun");
    assert_eq!(list.tracks[1].artist.as_deref(), Some("The Beatles"));

    assert!(select_release_tracklist(vec![release("e", None, None, vec![])], None).is_none());
}

#[test]
fn enrichment_never_loses_known_fields() {
    let v = vinyl(Some(1970), Some("Signed"), Some("/uploads/mine.jpg"));
    let update = enrichment_update(&v, LookupResult::Selected(candidate("mbid")), "t1".to_string());
    let after = v.update_metadata(update);
    assert_eq!(after.release_year, Some(1970));
    assert_eq!(after.notes.as_deref(), Some("Signed"));
    assert_eq!(after.cover_image_url.as_deref(), Some("/uploads/mine.jpg"));
    assert_eq!(after.metadata_status, "complete");
    assert_eq!(after.metadata_source_id.as_deref(), Some("mbid"));

    let bare = vinyl(None, None, None);
    let filled = bare.update_metadata(enrichment_update(
        &bare,
        LookupResult::Selected(candidate("mbid")),
        "t1".to_string(),
    ));
    assert_eq!(filled.release_year, Some(1969));
    assert_eq!(filled.cover_image_url.as_deref(), Some("/uploads/album-covers/mbid.jpg"));

    for (result, status, error) in [
        (LookupResult::Disabled, "disabled", Some("Album metadata lookup is disabled")),
        (LookupResult::NotFound, "not_found", Some("No album metadata match found")),
        (LookupResult::Failed("timeout".to_string()), "error", Some("timeout")),
        (LookupResult::NeedsChoice("[]".to_string()), "needs_choice", None),
    ] {
        let after = v.update_metadata(enrichment_update(&v, result, "t2".to_string()));
        assert_eq!(after.metadata_status, status);
        assert_eq!(after.metadata_error.as_deref(), error);
        assert_eq!(after.notes.as_deref(), Some("Signed"));
        assert_eq!(after.release_year, Some(1970));
        assert_eq!(after.metadata_checked_at.as_deref(), Some("t2"));
    }
}

#[test]
fn album_details_steps() {
    let v = vinyl(Some(1969), None, None);
    assert!(matches!(details_source(&v), DetailsSource::LookUp));
    let mut details = AlbumDetails::from_vinyl(v.clone());
    assert_eq!(details.tracklist_status, "not_found");

    let group = release_group_from_lookup(LookupOutcome::NeedsChoice(vec![candidate("a"), candidate("b")])).unwrap();
    assert_eq!(group.id, "a");
    assert!(release_group_from_lookup(LookupOutcome::NotFound).is_none());
    details.set_release_group(&group);
    assert_eq!(details.release_group_id.as_deref(), Some("a"));
    details.set_tracklist(None);
    assert_eq!(details.tracklist_status, "not_found");
    details.tracklist_failed();
    assert_eq!(details.tracklist_status, "unavailable");
    assert_eq!(details.tracklist_error.as_deref(), Some("Could not load track list from MusicBrainz"));

    let mut linked = v.clone();
    linked.metadata_source = Some("musicbrainz".to_string());
    linked.metadata_source_id = Some("mbid".to_string());
    match details_source(&linked) {
        DetailsSource::Stored(Some(c)) => {
            assert_eq!(c.id, "mbid");
            assert_eq!(c.source_url, "https://musicbrainz.org/release-group/mbid");
        }
        other => panic!("unexpected: {:?}", other),
    }
    linked.metadata_source_id = None;
    assert!(matches!(details_source(&linked), DetailsSource::Stored(None)));

    let mut off = AlbumDetails::from_vinyl(v);
    off.lookup_disabled();
    assert_eq!(off.tracklist_error.as_deref(), Some("Album metadata lookup is disabled"));
}

#[test]
fn cover_plans() {
    assert!(matches!(cover_plan(None, "   "), CoverPlan::Skip));
    assert!(matches!(cover_plan(None, " /uploads/x.jpg "), CoverPlan::Keep(u) if u == "/uploads/x.jpg"));
    assert!(matches!(cover_plan(None, "ftp://x"), CoverPlan::Keep(u) if u == "ftp://x"));
    match cover_plan(Some("../mb id"), "https://example.com/cover.jpg") {
        CoverPlan::Cache { key, url } => {
            assert_eq!(key, "mbid");
            assert_eq!(url, "https://example.com/cover.jpg");
        }
        other => panic!("unexpected: {:?}", other),
    }
    match cover_plan(Some("!!"), "https://example.com/cover.jpg") {
        CoverPlan::Cache { key, .. } => assert_eq!(key, "url-f416ef6a9221dfd2"),
        other => panic!("unexpected: {:?}", other),
    }
    assert_eq!(cover_cache_candidates("k")[1], "k.jpeg");
    assert!(check_cover_size(10 * 1024 * 1024).is_ok());
    assert_eq!(check_cover_size(10 * 1024 * 1024 + 1).unwrap_err(), "cover image is larger than 10MB");
    assert_eq!(require_cover_extension(None).unwrap_err(), "unsupported cover image type");
    assert_eq!(cover_temp_file_name("k.jpg", 42), "k.jpg.42.tmp");
    assert_eq!(cover_url_change("https://a", Some("/uploads/album-covers/k.jpg".to_string())).as_deref(), Some("/uploads/album-covers/k.jpg"));
    assert_eq!(cover_url_change("https://a", Some("https://a".to_string())), None);
}

#[test]
fn front_cover_selection() {
    let images = vec![
        CoverArtImage {
            image: Some("back.jpg".to_string()),
            front: Some(false),
            thumbnail_small: None,
            thumbnail_large: None,
            has_thumbnails: false,
        },
        CoverArtImage {
            image: Some("front.jpg".to_string()),
            front: Some(true),
            thumbnail_small: None,
            thumbnail_large: Some("front-500.jpg".to_string()),
            has_thumbnails: true,
        },
    ];
    assert_eq!(front_cover_url(&images).as_deref(), Some("front-500.jpg"));
}

#[test]
fn retail_page_reading() {
    let html = "<META Content='A' data-content=\"skip\"><img alt = \"B\"><p title=unquoted>";
    assert_eq!(html_attribute_values(html, "content"), vec!["A".to_string()]);
    assert_eq!(html_attribute_values(html, "alt"), vec!["B".to_string()]);
    assert_eq!(html_attribute_values(html, "title"), Vec::<String>::new());
    assert_eq!(
        html_tag_texts("<H1 class=x>One</h1><h1>Two</H1><h1>open", "h1"),
        vec!["One".to_string(), "Two".to_string()]
    );
    assert_eq!(decode_basic_html_entities("Rock &amp; Roll &ndash; &quot;Live&quot;"), "Rock & Roll – \"Live\"");
    assert_eq!(
        cleanup_french_retail_album_term("<b>Acheter</b> Youssoupha - AMOUR SUPREME | Fnac", "fnac"),
        "Youssoupha AMOUR SUPREME"
    );
    assert!(french_retail_term_matches_album("Youssoupha - AMOUR SUPREME", "Youssoupha", "Amour Supreme"));
    assert!(!french_retail_term_matches_album("ab", "a", "b"));
    assert!(!french_retail_term_matches_album("Something else entirely", "Youssoupha", "Amour Supreme"));
    let sources = french_retail_sources();
    assert_eq!(sources[0].0, "fnac");
    assert_eq!(
        french_retail_search_url(&sources[0].1, "Suprême NTM", "Paris"),
        "https://www.fnac.com/SearchResult/ResultList.aspx?Search=Supr%C3%AAme%20NTM%20Paris%20vinyle"
    );
}

#[test]
fn enrichment_step_walks_the_lookup() {
    let v = vinyl(None, Some("mine"), None);
    match enrichment_step(&v, EnrichmentEvent::Start(false), "t".to_string()) {
        EnrichmentAction::Store(u) => {
            assert_eq!(u.metadata_status, "disabled");
            assert_eq!(u.metadata_source.as_deref(), Some("musicbrainz"));
            assert_eq!(u.metadata_error.as_deref(), Some("Album metadata lookup is disabled"));
        }
        other => panic!("unexpected: {:?}", other),
    }
    assert!(matches!(enrichment_step(&v, EnrichmentEvent::Start(true), "t".to_string()), EnrichmentAction::LookUp));
    match enrichment_step(&v, EnrichmentEvent::LookedUp(LookupOutcome::Selected(candidate("mbid"))), "t".to_string()) {
        EnrichmentAction::Store(u) => {
            assert_eq!(u.metadata_status, "complete");
            assert_eq!(u.metadata_source_id.as_deref(), Some("mbid"));
            assert_eq!(u.notes.as_deref(), Some("mine"));
        }
        other => panic!("unexpected: {:?}", other),
    }
    let choices = vec![candidate("a"), candidate("b")];
    match enrichment_step(&v, EnrichmentEvent::LookedUp(LookupOutcome::NeedsChoice(choices)), "t".to_string()) {
        EnrichmentAction::SerializeChoices(cs) => {
            assert_eq!(cs.len(), 2);
            assert_eq!(cs[1].id, "b");
        }
        other => panic!("unexpected: {:?}", other),
    }
    match enrichment_step(&v, EnrichmentEvent::ChoicesSerialized("[]".to_string()), "t".to_string()) {
        EnrichmentAction::Store(u) => {
            assert_eq!(u.metadata_status, "needs_choice");
            assert_eq!(u.metadata_candidates.as_deref(), Some("[]"));
            assert_eq!(u.metadata_source.as_deref(), Some("musicbrainz"));
            assert_eq!(u.metadata_checked_at.as_deref(), Some("t"));
            assert_eq!(u.notes.as_deref(), Some("mine"));
        }
        other => panic!("unexpected: {:?}", other),
    }
    match enrichment_step(&v, EnrichmentEvent::LookedUp(LookupOutcome::NotFound), "t".to_string()) {
        EnrichmentAction::Store(u) => assert_eq!(u.metadata_status, "not_found"),
        other => panic!("unexpected: {:?}", other),
    }
    match enrichment_step(&v, EnrichmentEvent::LookupFailed("boom".to_string()), "t".to_string()) {
        EnrichmentAction::Store(u) => {
            assert_eq!(u.metadata_status, "error");
            assert_eq!(u.metadata_error.as_deref(), Some("boom"));
            assert_eq!(u.metadata_source.as_deref(), Some("musicbrainz"));
        }
        other => panic!("unexpected: {:?}", other),
    }
}

#[test]
fn album_details_step_walks_the_flow() {
    let v = vinyl(Some(1969), None, None);
    let mut d = AlbumDetails::from_vinyl(v.clone());
    assert!(matches!(d.step(DetailsEvent::Start(false)), DetailsAction::Finished));
    assert_eq!(d.tracklist_status, "unavailable");
    assert_eq!(d.tracklist_error.as_deref(), Some("Album metadata lookup is disabled"));

    let mut d = AlbumDetails::from_vinyl(v.clone());
    assert!(matches!(d.step(DetailsEvent::Start(true)), DetailsAction::LookUpReleaseGroup));
    match d.step(DetailsEvent::LookedUp(LookupOutcome::Selected(candidate("rg1")))) {
        DetailsAction::LoadTracklist(id, year) => {
            assert_eq!(id, "rg1");
            assert_eq!(year, Some(1969));
        }
        other => panic!("unexpected: {:?}", other),
    }
    assert_eq!(d.release_group_id.as_deref(), Some("rg1"));
    let tracklist = gavin::musicbrainz::AlbumReleaseTracklist {
        source_url: "https://musicbrainz.org/release/r1".to_string(),
        title: "Abbey Road".to_string(),
        date: Some("1969-09-26".to_string()),
        country: Some("GB".to_string()),
        format: Some("12\" Vinyl".to_string()),
        tracks: vec![gavin::musicbrainz::AlbumTrack {
            disc_number: Some(1),
            number: Some("A1".to_string()),
            title: "Come Together".to_string(),
            artist: None,
            length_ms: Some(259000),
        }],
    };
    assert!(matches!(d.step(DetailsEvent::TracklistLoaded(Some(tracklist))), DetailsAction::Finished));
    assert_eq!(d.tracklist_status, "available");
    assert_eq!(d.tracks.len(), 1);
    assert_eq!(d.source_url.as_deref(), Some("https://musicbrainz.org/release/r1"));

    let mut d = AlbumDetails::from_vinyl(v.clone());
    d.step(DetailsEvent::Start(true));
    assert!(matches!(d.step(DetailsEvent::LookedUp(LookupOutcome::NotFound)), DetailsAction::Finished));
    assert_eq!(d.tracklist_status, "not_found");

    let mut d = AlbumDetails::from_vinyl(v.clone());
    assert!(matches!(d.step(DetailsEvent::LookupFailed), DetailsAction::Finished));
    assert_eq!(d.tracklist_error.as_deref(), Some("Could not look up album metadata"));

    let mut d = AlbumDetails::from_vinyl(v);
    assert!(matches!(d.step(DetailsEvent::TracklistFailed), DetailsAction::Finished));
    assert_eq!(d.tracklist_error.as_deref(), Some("Could not load track list from MusicBrainz"));
}

#[test]
fn album_details_step_uses_stored_release_group() {
    let v = vinyl(None, None, None).update_metadata(gavin::db::MetadataUpdate {
        release_year: None,
        notes: None,
        cover_image_url: None,
        metadata_status: "complete".to_string(),
        metadata_source: Some("musicbrainz".to_string()),
        metadata_source_id: Some("stored".to_string()),
        metadata_source_url: None,
        metadata_candidates: None,
        metadata_error: None,
        metadata_checked_at: Some("t".to_string()),
    });
    let mut d = AlbumDetails::from_vinyl(v);
    match d.step(DetailsEvent::Start(true)) {
        DetailsAction::LoadTracklist(id, _) => assert_eq!(id, "stored"),
        other => panic!("unexpected: {:?}", other),
    }
    assert_eq!(d.source_url.as_deref(), Some("https://musicbrainz.org/release-group/stored"));
}
