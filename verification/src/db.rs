//! Vinyl records and the rules that create and change them.
//!
//! Storage reads and writes whole records; what a record becomes is decided here.
use vstd::prelude::*;

use crate::config::opt_view;
use crate::error::AppError;
use crate::text::{
    copy_opt_string, copy_string, owned, spec_str_lowercase, str_chars, str_to_lowercase,
    string_of, trim_str, trim_ws, char_is_ws, is_ws, concat3,
};

verus! {

/// Vinyl record model. Timestamps are RFC 3339 texts.
#[derive(Clone, Debug)]
pub struct Vinyl {
    pub id: String,
    pub artist: String,
    pub title: String,
    pub release_year: Option<i32>,
    pub notes: Option<String>,
    pub cover_image_url: Option<String>,
    pub created_at: String,
    pub metadata_status: String,
    pub metadata_source: Option<String>,
    pub metadata_source_id: Option<String>,
    pub metadata_source_url: Option<String>,
    pub metadata_candidates: Option<String>,
    pub metadata_error: Option<String>,
    pub metadata_checked_at: Option<String>,
}

/// The characters of a vinyl record's fields.
pub struct VinylView {
    pub id: Seq<char>,
    pub artist: Seq<char>,
    pub title: Seq<char>,
    pub release_year: Option<i32>,
    pub notes: Option<Seq<char>>,
    pub cover_image_url: Option<Seq<char>>,
    pub created_at: Seq<char>,
    pub metadata_status: Seq<char>,
    pub metadata_source: Option<Seq<char>>,
    pub metadata_source_id: Option<Seq<char>>,
    pub metadata_source_url: Option<Seq<char>>,
    pub metadata_candidates: Option<Seq<char>>,
    pub metadata_error: Option<Seq<char>>,
    pub metadata_checked_at: Option<Seq<char>>,
}

impl View for Vinyl {
    type V = VinylView;

    open spec fn view(&self) -> VinylView {
        VinylView {
            id: self.id@,
            artist: self.artist@,
            title: self.title@,
            release_year: self.release_year,
            notes: opt_view(self.notes),
            cover_image_url: opt_view(self.cover_image_url),
            created_at: self.created_at@,
            metadata_status: self.metadata_status@,
            metadata_source: opt_view(self.metadata_source),
            metadata_source_id: opt_view(self.metadata_source_id),
            metadata_source_url: opt_view(self.metadata_source_url),
            metadata_candidates: opt_view(self.metadata_candidates),
            metadata_error: opt_view(self.metadata_error),
            metadata_checked_at: opt_view(self.metadata_checked_at),
        }
    }
}

/// Input for creating a new vinyl.
#[derive(Clone, Debug)]
pub struct CreateVinyl {
    pub artist: String,
    pub title: String,
    pub release_year: Option<i32>,
    pub notes: Option<String>,
    pub cover_image_url: Option<String>,
}

/// Input for updating a vinyl: each given field replaces the stored one.
#[derive(Clone, Debug)]
pub struct UpdateVinyl {
    pub artist: Option<String>,
    pub title: Option<String>,
    pub release_year: Option<i32>,
    pub notes: Option<String>,
    pub cover_image_url: Option<String>,
}

/// Metadata fields set by album metadata enrichment.
#[derive(Clone, Debug)]
pub struct MetadataUpdate {
    pub release_year: Option<i32>,
    pub notes: Option<String>,
    pub cover_image_url: Option<String>,
    pub metadata_status: String,
    pub metadata_source: Option<String>,
    pub metadata_source_id: Option<String>,
    pub metadata_source_url: Option<String>,
    pub metadata_candidates: Option<String>,
    pub metadata_error: Option<String>,
    pub metadata_checked_at: Option<String>,
}

/// Bulk create request.
#[derive(Clone, Debug)]
pub struct BulkCreateRequest {
    pub items: Vec<CreateVinyl>,
}

/// The first value that is present (SQL `COALESCE`).
pub open spec fn coalesce<T>(a: Option<T>, b: Option<T>) -> Option<T> {
    match a {
        Some(x) => Some(x),
        None => b,
    }
}

/// The record that creating a vinyl stores, given its identifier and creation time.
pub open spec fn created_view(id: Seq<char>, input: CreateVinyl, created_at: Seq<char>) -> VinylView {
    VinylView {
        id,
        artist: trim_ws(input.artist@),
        title: trim_ws(input.title@),
        release_year: input.release_year,
        notes: opt_view(input.notes),
        cover_image_url: opt_view(input.cover_image_url),
        created_at,
        metadata_status: "pending"@,
        metadata_source: None,
        metadata_source_id: None,
        metadata_source_url: None,
        metadata_candidates: None,
        metadata_error: None,
        metadata_checked_at: None,
    }
}

/// The record after an update: given fields replace stored ones, and a new artist or title
/// sends the record back to a pending metadata lookup.
pub open spec fn updated_view(v: VinylView, input: UpdateVinyl) -> VinylView {
    let identity_changed = input.artist is Some || input.title is Some;
    VinylView {
        artist: match input.artist {
            Some(a) => a@,
            None => v.artist,
        },
        title: match input.title {
            Some(t) => t@,
            None => v.title,
        },
        release_year: coalesce(input.release_year, v.release_year),
        notes: coalesce(opt_view(input.notes), v.notes),
        cover_image_url: coalesce(opt_view(input.cover_image_url), v.cover_image_url),
        metadata_status: if identity_changed {
            "pending"@
        } else {
            v.metadata_status
        },
        metadata_checked_at: if identity_changed {
            None
        } else {
            v.metadata_checked_at
        },
        ..v
    }
}

/// The record after a metadata update: year, notes and cover keep their stored values when
/// the update has none; every metadata field takes the update's value.
pub open spec fn metadata_updated_view(v: VinylView, input: MetadataUpdate) -> VinylView {
    VinylView {
        release_year: coalesce(input.release_year, v.release_year),
        notes: coalesce(opt_view(input.notes), v.notes),
        cover_image_url: coalesce(opt_view(input.cover_image_url), v.cover_image_url),
        metadata_status: input.metadata_status@,
        metadata_source: opt_view(input.metadata_source),
        metadata_source_id: opt_view(input.metadata_source_id),
        metadata_source_url: opt_view(input.metadata_source_url),
        metadata_candidates: opt_view(input.metadata_candidates),
        metadata_error: opt_view(input.metadata_error),
        metadata_checked_at: opt_view(input.metadata_checked_at),
        ..v
    }
}

/// The first present optional string, copied.
fn coalesce_string(a: Option<String>, b: &Option<String>) -> (r: Option<String>)
    ensures
        opt_view(r) == coalesce(opt_view(a), opt_view(*b)),
{
    match a {
        Some(x) => Some(x),
        None => copy_opt_string(b),
    }
}

impl MetadataUpdate {
    /// A metadata update recording a failed or skipped lookup checked at `checked_at`.
    pub fn error(status: String, error: String, checked_at: String) -> (r: MetadataUpdate)
        ensures
            r.release_year is None,
            r.notes is None,
            r.cover_image_url is None,
            r.metadata_status@ == status@,
            opt_view(r.metadata_source) == Some("musicbrainz"@),
            r.metadata_source_id is None,
            r.metadata_source_url is None,
            r.metadata_candidates is None,
            opt_view(r.metadata_error) == Some(error@),
            opt_view(r.metadata_checked_at) == Some(checked_at@),
    {
        MetadataUpdate {
            release_year: None,
            notes: None,
            cover_image_url: None,
            metadata_status: status,
            metadata_source: Some(owned("musicbrainz")),
            metadata_source_id: None,
            metadata_source_url: None,
            metadata_candidates: None,
            metadata_error: Some(error),
            metadata_checked_at: Some(checked_at),
        }
    }
}

impl Vinyl {
    /// A copy of this record.
    pub fn duplicate(&self) -> (r: Vinyl)
        ensures
            r@ == self@,
    {
        Vinyl {
            id: copy_string(&self.id),
            artist: copy_string(&self.artist),
            title: copy_string(&self.title),
            release_year: self.release_year,
            notes: copy_opt_string(&self.notes),
            cover_image_url: copy_opt_string(&self.cover_image_url),
            created_at: copy_string(&self.created_at),
            metadata_status: copy_string(&self.metadata_status),
            metadata_source: copy_opt_string(&self.metadata_source),
            metadata_source_id: copy_opt_string(&self.metadata_source_id),
            metadata_source_url: copy_opt_string(&self.metadata_source_url),
            metadata_candidates: copy_opt_string(&self.metadata_candidates),
            metadata_error: copy_opt_string(&self.metadata_error),
            metadata_checked_at: copy_opt_string(&self.metadata_checked_at),
        }
    }

    /// The record for a new vinyl with the given identifier and creation time: artist and
    /// title are trimmed and must not be empty, and the metadata lookup is pending.
    pub fn create(id: String, input: CreateVinyl, created_at: String) -> (r: Result<
        Vinyl,
        AppError,
    >)
        ensures
            r is Ok <==> trim_ws(input.artist@).len() > 0 && trim_ws(input.title@).len() > 0,
            r matches Ok(v) ==> v@ == created_view(id@, input, created_at@),
            r matches Err(e) ==> e matches AppError::InvalidInput(m) && m@
                == "artist and title are required"@,
    {
        let artist_chars = trim_str(input.artist.as_str());
        let title_chars = trim_str(input.title.as_str());
        if artist_chars.len() == 0 || title_chars.len() == 0 {
            return Err(AppError::InvalidInput(owned("artist and title are required")));
        }
        Ok(Vinyl {
            id,
            artist: string_of(&artist_chars),
            title: string_of(&title_chars),
            release_year: input.release_year,
            notes: input.notes,
            cover_image_url: input.cover_image_url,
            created_at,
            metadata_status: owned("pending"),
            metadata_source: None,
            metadata_source_id: None,
            metadata_source_url: None,
            metadata_candidates: None,
            metadata_error: None,
            metadata_checked_at: None,
        })
    }

    /// This record after applying an update.
    pub fn update(&self, input: UpdateVinyl) -> (r: Vinyl)
        ensures
            r@ == updated_view(self@, input),
    {
        let identity_changed = input.artist.is_some() || input.title.is_some();
        let artist = match input.artist {
            Some(a) => a,
            None => copy_string(&self.artist),
        };
        let title = match input.title {
            Some(t) => t,
            None => copy_string(&self.title),
        };
        let release_year = match input.release_year {
            Some(y) => Some(y),
            None => self.release_year,
        };
        let metadata_status = if identity_changed {
            owned("pending")
        } else {
            copy_string(&self.metadata_status)
        };
        let metadata_checked_at = if identity_changed {
            None
        } else {
            copy_opt_string(&self.metadata_checked_at)
        };
        Vinyl {
            id: copy_string(&self.id),
            artist,
            title,
            release_year,
            notes: coalesce_string(input.notes, &self.notes),
            cover_image_url: coalesce_string(input.cover_image_url, &self.cover_image_url),
            created_at: copy_string(&self.created_at),
            metadata_status,
            metadata_source: copy_opt_string(&self.metadata_source),
            metadata_source_id: copy_opt_string(&self.metadata_source_id),
            metadata_source_url: copy_opt_string(&self.metadata_source_url),
            metadata_candidates: copy_opt_string(&self.metadata_candidates),
            metadata_error: copy_opt_string(&self.metadata_error),
            metadata_checked_at,
        }
    }

    /// This record after applying a metadata update.
    pub fn update_metadata(&self, input: MetadataUpdate) -> (r: Vinyl)
        ensures
            r@ == metadata_updated_view(self@, input),
    {
        let release_year = match input.release_year {
            Some(y) => Some(y),
            None => self.release_year,
        };
        Vinyl {
            id: copy_string(&self.id),
            artist: copy_string(&self.artist),
            title: copy_string(&self.title),
            release_year,
            notes: coalesce_string(input.notes, &self.notes),
            cover_image_url: coalesce_string(input.cover_image_url, &self.cover_image_url),
            created_at: copy_string(&self.created_at),
            metadata_status: input.metadata_status,
            metadata_source: input.metadata_source,
            metadata_source_id: input.metadata_source_id,
            metadata_source_url: input.metadata_source_url,
            metadata_candidates: input.metadata_candidates,
            metadata_error: input.metadata_error,
            metadata_checked_at: input.metadata_checked_at,
        }
    }
}

/// `s` without its white-space characters.
pub open spec fn remove_ws(s: Seq<char>) -> Seq<char>
    decreases s.len(),
{
    if s.len() == 0 {
        seq![]
    } else if is_ws(s.last()) {
        remove_ws(s.drop_last())
    } else {
        remove_ws(s.drop_last()).push(s.last())
    }
}

/// The `LIKE` patterns that a catalog search uses: the trimmed, lower-cased search text, and
/// the same without white space, each wrapped in `%`. No patterns (list everything) when
/// there is no search or it is blank.
pub open spec fn search_patterns_of(search: Option<Seq<char>>) -> Option<(Seq<char>, Seq<char>)> {
    match search {
        None => None,
        Some(s) => {
            let t = spec_str_lowercase(trim_ws(s));
            if t.len() == 0 {
                None
            } else {
                Some(("%"@ + t + "%"@, "%"@ + remove_ws(t) + "%"@))
            }
        },
    }
}

/// The search patterns for listing vinyls, or `None` to list all.
pub fn search_patterns(search: Option<String>) -> (r: Option<(String, String)>)
    ensures
        match (r, search_patterns_of(opt_view(search))) {
            (Some((a, b)), Some((x, y))) => a@ == x && b@ == y,
            (None, None) => true,
            _ => false,
        },
{
    let s = match search {
        Some(s) => s,
        None => return None,
    };
    let trimmed = string_of(&trim_str(s.as_str()));
    let lower = str_to_lowercase(trimmed.as_str());
    let chars = str_chars(lower.as_str());
    if chars.len() == 0 {
        return None;
    }
    let mut compact: Vec<char> = Vec::new();
    let mut i: usize = 0;
    while i < chars.len()
        invariant
            i <= chars.len(),
            compact@ == remove_ws(chars@.take(i as int)),
        decreases chars.len() - i,
    {
        let c = chars[i];
        assert(chars@.take(i + 1).drop_last() =~= chars@.take(i as int));
        assert(chars@.take(i + 1).last() == c);
        if !char_is_ws(c) {
            compact.push(c);
        }
        i += 1;
    }
    assert(chars@.take(chars.len() as int) =~= chars@);
    let compact_string = string_of(&compact);
    Some((
        concat3("%", lower.as_str(), "%"),
        concat3("%", compact_string.as_str(), "%"),
    ))
}

/// The outcome of a write addressed to one record: `NotFound` when no row was affected.
pub fn require_row_affected(rows_affected: u64) -> (r: Result<(), AppError>)
    ensures
        rows_affected == 0 <==> r matches Err(AppError::NotFound),
        rows_affected > 0 <==> r is Ok,
{
    if rows_affected == 0 {
        Err(AppError::NotFound)
    } else {
        Ok(())
    }
}

/// An update sets every field it gives and keeps every field it leaves out: a given artist,
/// title, year, notes or cover replaces the stored one, whatever was stored before.
pub proof fn update_sets_given_fields(v: VinylView, input: UpdateVinyl)
    ensures
        input.artist matches Some(a) ==> updated_view(v, input).artist == a@,
        input.artist is None ==> updated_view(v, input).artist == v.artist,
        input.title matches Some(t) ==> updated_view(v, input).title == t@,
        input.title is None ==> updated_view(v, input).title == v.title,
        input.release_year matches Some(y) ==> updated_view(v, input).release_year == Some(y),
        input.release_year is None ==> updated_view(v, input).release_year == v.release_year,
        input.notes matches Some(n) ==> updated_view(v, input).notes == Some(n@),
        input.notes is None ==> updated_view(v, input).notes == v.notes,
        input.cover_image_url matches Some(c) ==> updated_view(v, input).cover_image_url == Some(c@),
        input.cover_image_url is None ==> updated_view(v, input).cover_image_url == v.cover_image_url,
{
}

/// A metadata update sets the year, notes and cover it gives and keeps those it leaves out,
/// and sets every metadata field to the update's value.
pub proof fn metadata_update_sets_given_fields(v: VinylView, input: MetadataUpdate)
    ensures
        input.release_year matches Some(y) ==> metadata_updated_view(v, input).release_year == Some(y),
        input.release_year is None ==> metadata_updated_view(v, input).release_year == v.release_year,
        input.notes matches Some(n) ==> metadata_updated_view(v, input).notes == Some(n@),
        input.notes is None ==> metadata_updated_view(v, input).notes == v.notes,
        input.cover_image_url matches Some(c) ==> metadata_updated_view(v, input).cover_image_url
            == Some(c@),
        input.cover_image_url is None ==> metadata_updated_view(v, input).cover_image_url
            == v.cover_image_url,
        metadata_updated_view(v, input).metadata_status == input.metadata_status@,
        metadata_updated_view(v, input).metadata_source == opt_view(input.metadata_source),
        metadata_updated_view(v, input).metadata_source_id == opt_view(input.metadata_source_id),
        metadata_updated_view(v, input).metadata_source_url == opt_view(input.metadata_source_url),
        metadata_updated_view(v, input).metadata_candidates == opt_view(input.metadata_candidates),
        metadata_updated_view(v, input).metadata_error == opt_view(input.metadata_error),
        metadata_updated_view(v, input).metadata_checked_at == opt_view(input.metadata_checked_at),
{
}

/// An update that gives no field leaves the record unchanged.
pub proof fn empty_update_keeps_record(v: VinylView, input: UpdateVinyl)
    requires
        input.artist is None,
        input.title is None,
        input.release_year is None,
        input.notes is None,
        input.cover_image_url is None,
    ensures
        updated_view(v, input) == v,
{
}

/// Updates never change a record's identity or creation time, and a new artist or title
/// always sends it back to a pending lookup that has not been checked.
pub proof fn update_resets_metadata_on_identity_change(v: VinylView, input: UpdateVinyl)
    ensures
        updated_view(v, input).id == v.id,
        updated_view(v, input).created_at == v.created_at,
        (input.artist is Some || input.title is Some) ==> updated_view(v, input).metadata_status
            == "pending"@ && updated_view(v, input).metadata_checked_at is None,
{
}

/// Metadata updates never change a record's identity, artist, title or creation time, and
/// never erase a stored year, note or cover.
pub proof fn metadata_update_keeps_identity(v: VinylView, input: MetadataUpdate)
    ensures
        metadata_updated_view(v, input).id == v.id,
        metadata_updated_view(v, input).artist == v.artist,
        metadata_updated_view(v, input).title == v.title,
        metadata_updated_view(v, input).created_at == v.created_at,
        v.release_year is Some ==> metadata_updated_view(v, input).release_year is Some,
        v.notes is Some ==> metadata_updated_view(v, input).notes is Some,
        v.cover_image_url is Some ==> metadata_updated_view(v, input).cover_image_url is Some,
{
}

/// A created record has a non-empty trimmed artist and title and a pending lookup.
pub proof fn created_record_is_pending(id: Seq<char>, input: CreateVinyl, created_at: Seq<char>)
    ensures
        created_view(id, input, created_at).metadata_status == "pending"@,
        created_view(id, input, created_at).metadata_checked_at is None,
        created_view(id, input, created_at).artist == trim_ws(input.artist@),
{
}


/// The query of a catalog listing: an optional search text.
#[derive(Clone, Debug)]
pub struct SearchQuery {
    pub search: Option<String>,
}

/// The file path of a SQLite database URL (`sqlite://path` or `sqlite:path`), unless the
/// database is in memory or the path is empty.
pub open spec fn sqlite_path_of(url: Seq<char>) -> Option<Seq<char>> {
    let path = if crate::text::starts_with(url, "sqlite://"@) {
        Some(url.skip(9))
    } else if crate::text::starts_with(url, "sqlite:"@) {
        Some(url.skip(7))
    } else {
        None
    };
    match path {
        Some(p) => if p == ":memory:"@ || p.len() == 0 {
            None
        } else {
            Some(p)
        },
        None => None,
    }
}

/// The file that a SQLite database URL names, if any.
pub fn sqlite_database_path(database_url: &str) -> (r: Option<String>)
    ensures
        opt_view(r) == sqlite_path_of(database_url@),
{
    let v = str_chars(database_url);
    proof {
        reveal_strlit("sqlite://");
        reveal_strlit("sqlite:");
    }
    let p = if crate::text::starts_with_exec(&v, &str_chars("sqlite://")) {
        crate::text::slice_chars(&v, 9, v.len())
    } else if crate::text::starts_with_exec(&v, &str_chars("sqlite:")) {
        crate::text::slice_chars(&v, 7, v.len())
    } else {
        return None;
    };
    assert(p@ =~= (if crate::text::starts_with(v@, "sqlite://"@) {
        v@.skip(9)
    } else {
        v@.skip(7)
    }));
    if p.len() == 0 || crate::text::chars_eq(&p, &str_chars(":memory:")) {
        None
    } else {
        Some(string_of(&p))
    }
}


/// A vinyl whose metadata is still to be looked up: never checked, or pending, failed or
/// not found.
pub open spec fn needs_metadata_lookup_of(v: VinylView) -> bool {
    v.metadata_checked_at is None || v.metadata_status == "pending"@ || v.metadata_status
        == "error"@ || v.metadata_status == "not_found"@
}

/// Whether a vinyl's metadata is still to be looked up.
pub fn needs_metadata_lookup(vinyl: &Vinyl) -> (r: bool)
    ensures
        r == needs_metadata_lookup_of(vinyl@),
{
    let s = vinyl.metadata_status.as_str();
    vinyl.metadata_checked_at.is_none() || crate::text::str_eq(s, "pending")
        || crate::text::str_eq(s, "error") || crate::text::str_eq(s, "not_found")
}

/// A newly created vinyl is always due for a metadata lookup.
pub proof fn created_record_needs_lookup(id: Seq<char>, input: CreateVinyl, created_at: Seq<char>)
    ensures
        needs_metadata_lookup_of(created_view(id, input, created_at)),
{
}

} // verus!
