use gavin::admin::{
    candidate_create_input, candidate_metadata_update, candidate_notes_update,
    candidate_update_input, is_cleanup_candidate_image, is_generated_metadata_note, is_referenced,
    metadata_note, referenced_upload_paths, safe_upload_name, sanitize_filename, upload_file_name,
    upload_relative_path, upload_url, validate_candidate_identity, validate_image_field,
    validate_image_size, CoverImportResponse, OrphanedImageCleanupResponse,
};
use gavin::album_metadata::AlbumCandidate;
use gavin::catalog::CoverImageAnalysis;
use gavin::db::{CreateVinyl, Vinyl};
use gavin::error::AppError;

fn candidate() -> AlbumCandidate {
    AlbumCandidate {
        source: "musicbrainz".to_string(),
        id: "mbid".to_string(),
        title: "Abbey Road".to_string(),
        artist: "The Beatles".to_string(),
        release_year: Some(1969),
        genre: Some("Rock".to_string()),
        cover_image_url: None,
        disambiguation: None,
        source_url: "https://musicbrainz.org/release-group/mbid".to_string(),
        score: Some(100),
    }
}

fn vinyl(notes: Option<&str>) -> Vinyl {
    Vinyl::create(
        "v1".to_string(),
        CreateVinyl {
            artist: "Beatles".to_string(),
            title: "Abbey".to_string(),
            release_year: None,
            notes: notes.map(|n| n.to_string()),
            cover_image_url: None,
        },
        "2024-01-01T00:00:00Z".to_string(),
    )
    .unwrap()
}

#[test]
fn test_sanitize_filename() {
    assert_eq!(sanitize_filename("test.jpg"), "test.jpg");
    assert_eq!(sanitize_filename("my-file_123.png"), "my-file_123.png");
    assert_eq!(sanitize_filename("../../../etc/passwd"), "etcpasswd");
    assert_eq!(sanitize_filename("file name.txt"), "filename.txt");
    assert_eq!(sanitize_filename("malicious<>:\"|?*.exe"), "malicious.exe");
}

#[test]
fn sanitized_names_are_safe() {
    for name in ["..", "...hidden...", "a/b/../c.png", "Écran été.jpg", "/etc/passwd"] {
        let safe = sanitize_filename(name);
        assert!(!safe.contains('/'));
        assert!(!safe.starts_with('.') && !safe.ends_with('.'));
    }
    assert_eq!(sanitize_filename("Écran été.jpg"), "Écranété.jpg");
}

#[test]
fn upload_names() {
    assert!(matches!(safe_upload_name("../.."), Err(AppError::InvalidInput(m)) if m == "Invalid filename"));
    assert_eq!(safe_upload_name("cover.png").unwrap(), "cover.png");
    assert_eq!(upload_file_name(1700000000, "cover.png"), "1700000000_cover.png");
    assert_eq!(upload_file_name(-5, "x.png"), "-5_x.png");
    assert_eq!(upload_url("1700000000_cover.png"), "/uploads/1700000000_cover.png");
}

#[test]
fn image_checks() {
    assert!(validate_image_size(10 * 1024 * 1024).is_ok());
    assert!(matches!(
        validate_image_size(10 * 1024 * 1024 + 1),
        Err(AppError::InvalidInput(m)) if m == "Image file size must be less than 10MB"
    ));
    assert!(validate_image_field(Some("image/png")).is_ok());
    assert!(validate_image_field(None).is_ok());
    assert!(matches!(
        validate_image_field(Some("text/plain")),
        Err(AppError::InvalidInput(m)) if m == "Please upload an image file"
    ));
}

#[test]
fn candidate_identity_is_required() {
    assert!(validate_candidate_identity(&candidate()).is_ok());
    let mut blank = candidate();
    blank.title = "  ".to_string();
    assert!(matches!(
        validate_candidate_identity(&blank),
        Err(AppError::InvalidInput(m)) if m == "candidate artist and title are required"
    ));
}

#[test]
fn generated_notes_are_recognised() {
    assert!(is_generated_metadata_note("  Metadata: https://musicbrainz.org/x"));
    assert!(is_generated_metadata_note("METADATA:"));
    assert!(!is_generated_metadata_note("Bought in Paris"));
}

#[test]
fn applying_a_candidate_keeps_written_notes() {
    let c = candidate();
    let note = metadata_note(&c);
    assert_eq!(note, "Metadata: https://musicbrainz.org/release-group/mbid");

    for (existing, expected) in [
        (Some("Bought in Paris"), "Bought in Paris"),
        (Some("Metadata: https://old"), "Metadata: https://musicbrainz.org/release-group/mbid"),
        (Some("   "), "Metadata: https://musicbrainz.org/release-group/mbid"),
        (None, "Metadata: https://musicbrainz.org/release-group/mbid"),
    ] {
        let v = vinyl(existing);
        let notes = candidate_notes_update(&v.notes, &note);
        let update = candidate_update_input(&c, notes.clone(), Some("/uploads/album-covers/mbid.jpg".to_string()));
        let metadata = candidate_metadata_update(
            &c,
            notes,
            Some("/uploads/album-covers/mbid.jpg".to_string()),
            "2024-02-02T00:00:00Z".to_string(),
        );
        let result = v.update(update).update_metadata(metadata);
        assert_eq!(result.artist, "The Beatles");
        assert_eq!(result.title, "Abbey Road");
        assert_eq!(result.metadata_status, "complete");
        assert_eq!(result.metadata_source_id.as_deref(), Some("mbid"));
        assert_eq!(result.notes.as_deref(), Some(expected));
    }
}

#[test]
fn importing_a_candidate_creates_a_complete_vinyl() {
    let c = candidate();
    let input = candidate_create_input(&c, None);
    assert_eq!(input.notes.as_deref(), Some("Metadata: https://musicbrainz.org/release-group/mbid"));
    let created = Vinyl::create("v2".to_string(), input, "2024-01-01T00:00:00Z".to_string()).unwrap();
    let notes = Some(metadata_note(&c));
    let done = created.update_metadata(candidate_metadata_update(
        &c,
        notes,
        None,
        "2024-01-01T00:00:01Z".to_string(),
    ));
    assert_eq!(done.metadata_status, "complete");
    assert_eq!(done.release_year, Some(1969));
    assert_eq!(done.metadata_source_url.as_deref(), Some("https://musicbrainz.org/release-group/mbid"));
}

#[test]
fn cover_import_always_asks_for_a_choice() {
    let analysis = CoverImageAnalysis::new(vec!["The Beatles - Abbey Road".to_string()], vec![candidate()]);
    let response = CoverImportResponse::from_analysis(analysis);
    assert_eq!(response.status, "needs_choice");
    assert_eq!(response.candidates.len(), 1);

    let none = CoverImportResponse::from_analysis(CoverImageAnalysis::new(vec!["x y z".to_string()], vec![]));
    assert_eq!(none.status, "not_found");

    let failed = CoverImportResponse::failed("Album metadata lookup is disabled".to_string());
    assert_eq!(failed.status, "error");
    assert_eq!(failed.error.as_deref(), Some("Album metadata lookup is disabled"));
}

#[test]
fn referenced_paths_are_deduplicated_and_filtered() {
    let urls = vec![
        " /uploads/123_cover.jpg ".to_string(),
        "/uploads//album-covers/mbid.jpg".to_string(),
        "/uploads/123_cover.jpg".to_string(),
        "/uploads/../secret.jpg".to_string(),
        "/uploads/".to_string(),
        "https://example.com/cover.jpg".to_string(),
    ];
    let paths = referenced_upload_paths(&urls);
    assert_eq!(paths, vec!["123_cover.jpg".to_string(), "album-covers/mbid.jpg".to_string()]);
    assert!(is_referenced(&paths, &upload_relative_path("album-covers\\mbid.jpg")));
    assert!(!is_referenced(&paths, &"orphan.png".to_string()));
}

#[test]
fn cleanup_considers_images_only() {
    assert!(is_cleanup_candidate_image("data/uploads/cover.JPG"));
    assert!(is_cleanup_candidate_image("album-covers/x.webp"));
    assert!(!is_cleanup_candidate_image("notes.txt"));
    assert!(!is_cleanup_candidate_image(".png"));
    assert!(!is_cleanup_candidate_image("noext"));
}

#[test]
fn cleanup_counts() {
    let mut report = OrphanedImageCleanupResponse::new();
    report.record_kept();
    report.record_deleted();
    report.record_deleted();
    report.record_error("a.png", "permission denied");
    assert_eq!(report.kept, 1);
    assert_eq!(report.deleted, 2);
    assert_eq!(report.errors, vec!["a.png: permission denied".to_string()]);
}

#[test]
fn sanitizing_twice_changes_nothing_and_only_drops() {
    for name in ["../../../etc/passwd", "..a b..", "malicious<>:\"|?*.exe", "ü-x_.png."] {
        let once = sanitize_filename(name);
        assert_eq!(sanitize_filename(&once), once);
        let mut rest = name.chars();
        for c in once.chars() {
            assert!(rest.any(|d| d == c));
        }
    }
}
