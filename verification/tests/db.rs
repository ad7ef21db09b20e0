use gavin::db::{
    require_row_affected, search_patterns, CreateVinyl, MetadataUpdate, UpdateVinyl, Vinyl,
};
use gavin::error::AppError;

fn create(artist: &str, title: &str, year: Option<i32>) -> Vinyl {
    Vinyl::create(
        "id-1".to_string(),
        CreateVinyl {
            artist: artist.to_string(),
            title: title.to_string(),
            release_year: year,
            notes: None,
            cover_image_url: None,
        },
        "2024-01-01T00:00:00Z".to_string(),
    )
    .unwrap()
}

#[test]
fn test_create_and_get_vinyl() {
    let vinyl = create("Pink Floyd", "The Dark Side of the Moon", Some(1973));
    assert_eq!(vinyl.artist, "Pink Floyd");
    assert_eq!(vinyl.title, "The Dark Side of the Moon");
    assert_eq!(vinyl.metadata_status, "pending");
    assert_eq!(vinyl.release_year, Some(1973));
    assert_eq!(vinyl.id, "id-1");
    assert_eq!(vinyl.created_at, "2024-01-01T00:00:00Z");
}

#[test]
fn create_trims_and_requires_artist_and_title() {
    let vinyl = create("  Pink Floyd ", " Animals  ", None);
    assert_eq!(vinyl.artist, "Pink Floyd");
    assert_eq!(vinyl.title, "Animals");

    let refused = Vinyl::create(
        "id-2".to_string(),
        CreateVinyl {
            artist: "   ".to_string(),
            title: "Animals".to_string(),
            release_year: None,
            notes: None,
            cover_image_url: None,
        },
        "2024-01-01T00:00:00Z".to_string(),
    );
    match refused {
        Err(AppError::InvalidInput(m)) => assert_eq!(m, "artist and title are required"),
        other => panic!("unexpected: {:?}", other),
    }
}

#[test]
fn test_search_case_insensitive() {
    assert_eq!(
        search_patterns(Some("beatles".to_string())),
        Some(("%beatles%".to_string(), "%beatles%".to_string()))
    );
    assert_eq!(
        search_patterns(Some("PINK".to_string())),
        Some(("%pink%".to_string(), "%pink%".to_string()))
    );
    assert_eq!(
        search_patterns(Some("  floyd  ".to_string())),
        Some(("%floyd%".to_string(), "%floyd%".to_string()))
    );
    assert_eq!(
        search_patterns(Some("The Wall".to_string())),
        Some(("%the wall%".to_string(), "%thewall%".to_string()))
    );
    assert_eq!(search_patterns(Some("   ".to_string())), None);
    assert_eq!(search_patterns(None), None);
}

#[test]
fn test_update_vinyl() {
    let vinyl = create("Test", "Album", None);
    let updated = vinyl.update(UpdateVinyl {
        artist: Some("Updated Artist".to_string()),
        title: None,
        release_year: Some(2020),
        notes: None,
        cover_image_url: None,
    });
    assert_eq!(updated.artist, "Updated Artist");
    assert_eq!(updated.title, "Album");
    assert_eq!(updated.release_year, Some(2020));
    assert_eq!(updated.metadata_status, "pending");
}

#[test]
fn update_without_identity_change_keeps_metadata() {
    let vinyl = create("Test", "Album", None).update_metadata(MetadataUpdate {
        release_year: Some(1970),
        notes: None,
        cover_image_url: None,
        metadata_status: "complete".to_string(),
        metadata_source: Some("musicbrainz".to_string()),
        metadata_source_id: Some("mbid".to_string()),
        metadata_source_url: None,
        metadata_candidates: None,
        metadata_error: None,
        metadata_checked_at: Some("2024-01-02T00:00:00Z".to_string()),
    });
    let updated = vinyl.update(UpdateVinyl {
        artist: None,
        title: None,
        release_year: None,
        notes: Some("Signed copy".to_string()),
        cover_image_url: None,
    });
    assert_eq!(updated.metadata_status, "complete");
    assert_eq!(updated.notes.as_deref(), Some("Signed copy"));
    assert_eq!(updated.release_year, Some(1970));
}

#[test]
fn test_update_metadata() {
    let vinyl = create("Test", "Album", None);
    let updated = vinyl.update_metadata(MetadataUpdate {
        release_year: Some(1970),
        notes: Some("Metadata: https://example.com".to_string()),
        cover_image_url: Some("https://example.com/cover.jpg".to_string()),
        metadata_status: "complete".to_string(),
        metadata_source: Some("musicbrainz".to_string()),
        metadata_source_id: Some("mbid".to_string()),
        metadata_source_url: Some("https://musicbrainz.org/release-group/mbid".to_string()),
        metadata_candidates: None,
        metadata_error: None,
        metadata_checked_at: Some("2024-01-02T00:00:00Z".to_string()),
    });
    assert_eq!(updated.release_year, Some(1970));
    assert_eq!(updated.metadata_status, "complete");
    assert_eq!(updated.metadata_source_id.as_deref(), Some("mbid"));
}

#[test]
fn metadata_error_update() {
    let update = MetadataUpdate::error(
        "not_found".to_string(),
        "No album metadata match found".to_string(),
        "2024-01-02T00:00:00Z".to_string(),
    );
    assert_eq!(update.metadata_checked_at.as_deref(), Some("2024-01-02T00:00:00Z"));
    assert_eq!(update.metadata_status, "not_found");
    assert_eq!(update.metadata_source.as_deref(), Some("musicbrainz"));
    assert_eq!(update.metadata_error.as_deref(), Some("No album metadata match found"));
    let vinyl = create("Test", "Album", Some(1999)).update_metadata(update);
    assert_eq!(vinyl.release_year, Some(1999));
    assert_eq!(vinyl.metadata_status, "not_found");
}

#[test]
fn test_delete_vinyl() {
    assert!(require_row_affected(1).is_ok());
    let result = require_row_affected(0);
    assert!(matches!(result, Err(AppError::NotFound)));
}

