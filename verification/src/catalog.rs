//! How metadata lookups change the catalog: the update that enrichment stores, the album
//! details shown to visitors, and the settings the metadata client runs with.
use vstd::prelude::*;

use crate::album_metadata::{cands, cover_analysis_status, AlbumCandidate, CandidateView, LookupOutcome};
use crate::config::{opt_view, Config};
use crate::db::{coalesce, metadata_updated_view, MetadataUpdate, Vinyl, VinylView};
use crate::musicbrainz::{
    release_group_url, release_group_url_of, track_views, AlbumReleaseTracklist, AlbumTrack,
    AlbumTrackView,
};
use crate::search_terms::strs;
use crate::text::{
    append_chars, copy_opt_string, copy_string, owned, str_chars, string_of, trim_end,
    CharClass,
};

verus! {

// ---------------------------------------------------------------------------
// Enrichment
// ---------------------------------------------------------------------------

/// Why nothing is looked up while album metadata lookups are switched off.
pub fn lookup_disabled_message() -> (r: &'static str)
    ensures
        r@ == "Album metadata lookup is disabled"@,
{
    "Album metadata lookup is disabled"
}

/// What a metadata lookup for a vinyl came to.
#[derive(Clone, Debug)]
pub enum LookupResult {
    /// Lookups are switched off.
    Disabled,
    /// One candidate was chosen.
    Selected(AlbumCandidate),
    /// Several candidates need an admin's choice; they are given serialised as JSON.
    NeedsChoice(String),
    /// Nothing matched.
    NotFound,
    /// The lookup failed with this message.
    Failed(String),
}

/// The metadata update that records a lookup on vinyl `v` at time `checked_at`. A chosen
/// candidate fills only the year and cover the vinyl lacks; notes are never replaced.
pub open spec fn enrichment_update_of(v: VinylView, result: LookupResult, checked_at: Seq<char>) -> (
    Option<i32>,
    Option<Seq<char>>,
    Option<Seq<char>>,
    Seq<char>,
    Option<Seq<char>>,
    Option<Seq<char>>,
    Option<Seq<char>>,
    Option<Seq<char>>,
    Option<Seq<char>>,
) {
    match result {
        LookupResult::Disabled => (
            None,
            None,
            None,
            "disabled"@,
            None,
            None,
            None,
            Some("Album metadata lookup is disabled"@),
            Some(checked_at),
        ),
        LookupResult::Selected(c) => (
            coalesce(v.release_year, c.release_year),
            v.notes,
            coalesce(v.cover_image_url, opt_view(c.cover_image_url)),
            "complete"@,
            Some(c.id@),
            Some(c.source_url@),
            None,
            None,
            Some(checked_at),
        ),
        LookupResult::NeedsChoice(json) => (
            v.release_year,
            v.notes,
            v.cover_image_url,
            "needs_choice"@,
            None,
            None,
            Some(json@),
            None,
            Some(checked_at),
        ),
        LookupResult::NotFound => (
            None,
            None,
            None,
            "not_found"@,
            None,
            None,
            None,
            Some("No album metadata match found"@),
            Some(checked_at),
        ),
        LookupResult::Failed(msg) => (
            None,
            None,
            None,
            "error"@,
            None,
            None,
            None,
            Some(msg@),
            Some(checked_at),
        ),
    }
}

/// The fields of a metadata update, in the order of `enrichment_update_of` (the source is
/// always MusicBrainz and not listed).
pub open spec fn update_fields(u: MetadataUpdate) -> (
    Option<i32>,
    Option<Seq<char>>,
    Option<Seq<char>>,
    Seq<char>,
    Option<Seq<char>>,
    Option<Seq<char>>,
    Option<Seq<char>>,
    Option<Seq<char>>,
    Option<Seq<char>>,
) {
    (
        u.release_year,
        opt_view(u.notes),
        opt_view(u.cover_image_url),
        u.metadata_status@,
        opt_view(u.metadata_source_id),
        opt_view(u.metadata_source_url),
        opt_view(u.metadata_candidates),
        opt_view(u.metadata_error),
        opt_view(u.metadata_checked_at),
    )
}

/// The metadata update that records a lookup for a vinyl, checked at `checked_at`.
pub fn enrichment_update(vinyl: &Vinyl, result: LookupResult, checked_at: String) -> (r: MetadataUpdate)
    ensures
        update_fields(r) == enrichment_update_of(vinyl@, result, checked_at@),
        opt_view(r.metadata_source) == Some("musicbrainz"@),
{
    match result {
        LookupResult::Disabled => MetadataUpdate::error(
            owned("disabled"),
            owned("Album metadata lookup is disabled"),
            checked_at,
        ),
        LookupResult::Selected(c) => MetadataUpdate {
            release_year: match vinyl.release_year {
                Some(y) => Some(y),
                None => c.release_year,
            },
            notes: copy_opt_string(&vinyl.notes),
            cover_image_url: match &vinyl.cover_image_url {
                Some(u) => Some(copy_string(u)),
                None => c.cover_image_url,
            },
            metadata_status: owned("complete"),
            metadata_source: Some(owned("musicbrainz")),
            metadata_source_id: Some(c.id),
            metadata_source_url: Some(c.source_url),
            metadata_candidates: None,
            metadata_error: None,
            metadata_checked_at: Some(checked_at),
        },
        LookupResult::NeedsChoice(json) => MetadataUpdate {
            release_year: vinyl.release_year,
            notes: copy_opt_string(&vinyl.notes),
            cover_image_url: copy_opt_string(&vinyl.cover_image_url),
            metadata_status: owned("needs_choice"),
            metadata_source: Some(owned("musicbrainz")),
            metadata_source_id: None,
            metadata_source_url: None,
            metadata_candidates: Some(json),
            metadata_error: None,
            metadata_checked_at: Some(checked_at),
        },
        LookupResult::NotFound => MetadataUpdate::error(
            owned("not_found"),
            owned("No album metadata match found"),
            checked_at,
        ),
        LookupResult::Failed(msg) => MetadataUpdate::error(owned("error"), msg, checked_at),
    }
}

/// Enrichment never loses what the vinyl already holds: whatever the lookup came to, the
/// stored record keeps its notes, and keeps its year and cover when it had them.
pub proof fn enrichment_keeps_known_fields(v: VinylView, result: LookupResult, checked_at: Seq<char>, u: MetadataUpdate)
    requires
        update_fields(u) == enrichment_update_of(v, result, checked_at),
    ensures
        metadata_updated_view(v, u).notes == v.notes,
        v.release_year is Some ==> metadata_updated_view(v, u).release_year == v.release_year,
        v.cover_image_url is Some ==> metadata_updated_view(v, u).cover_image_url == v.cover_image_url,
        metadata_updated_view(v, u).metadata_checked_at == Some(checked_at),
{
}

/// A chosen candidate completes the record: it is marked complete and linked to the
/// candidate's release group, and its missing year and cover come from the candidate.
pub proof fn selected_candidate_completes_record(v: VinylView, c: AlbumCandidate, checked_at: Seq<char>, u: MetadataUpdate)
    requires
        update_fields(u) == enrichment_update_of(v, LookupResult::Selected(c), checked_at),
        opt_view(u.metadata_source) == Some("musicbrainz"@),
    ensures
        metadata_updated_view(v, u).metadata_status == "complete"@,
        metadata_updated_view(v, u).metadata_source == Some("musicbrainz"@),
        metadata_updated_view(v, u).metadata_source_id == Some(c.id@),
        metadata_updated_view(v, u).metadata_source_url == Some(c.source_url@),
        metadata_updated_view(v, u).metadata_error is None,
        metadata_updated_view(v, u).release_year == coalesce(v.release_year, c.release_year),
        metadata_updated_view(v, u).cover_image_url == coalesce(
            v.cover_image_url,
            opt_view(c.cover_image_url),
        ),
{
}

/// The maintenance job retries exactly the lookups that failed or found nothing: after
/// enrichment a vinyl still needs a lookup when the lookup failed or found no match, and no
/// longer does once it was chosen, needs an admin's choice, or lookups were switched off.
pub proof fn failed_lookups_are_retried(v: VinylView, result: LookupResult, checked_at: Seq<char>, u: MetadataUpdate)
    requires
        update_fields(u) == enrichment_update_of(v, result, checked_at),
    ensures
        crate::db::needs_metadata_lookup_of(metadata_updated_view(v, u)) <==> (result is Failed
            || result is NotFound),
{
    reveal_strlit("pending");
    reveal_strlit("error");
    reveal_strlit("not_found");
    reveal_strlit("complete");
    reveal_strlit("needs_choice");
    reveal_strlit("disabled");
    let s = metadata_updated_view(v, u).metadata_status;
    match result {
        LookupResult::Selected(_) => {
            assert(s != "pending"@ && s != "error"@ && s != "not_found"@) by {
                assert(s[0] == 'c');
                assert("pending"@[0] == 'p' && "error"@[0] == 'e' && "not_found"@[0] == 'n');
            }
        },
        LookupResult::NeedsChoice(_) => {
            assert(s != "pending"@ && s != "error"@ && s != "not_found"@) by {
                assert(s[0] == 'n' && s[1] == 'e');
                assert("pending"@[0] == 'p' && "error"@[0] == 'e' && "not_found"@[1] == 'o');
            }
        },
        LookupResult::Disabled => {
            assert(s != "pending"@ && s != "error"@ && s != "not_found"@) by {
                assert(s[0] == 'd');
                assert("pending"@[0] == 'p' && "error"@[0] == 'e' && "not_found"@[0] == 'n');
            }
        },
        _ => {},
    }
}

/// What enriching a vinyl asks for next.
#[derive(Debug)]
pub enum EnrichmentAction {
    /// Look the vinyl up by its artist and title.
    LookUp,
    /// Serialise these candidates as JSON, so that they can be stored for an admin's choice.
    SerializeChoices(Vec<AlbumCandidate>),
    /// Store this update; enrichment is then done.
    Store(MetadataUpdate),
}

/// What the last outside step of an enrichment came to.
#[derive(Debug)]
pub enum EnrichmentEvent {
    /// Enrichment starts, with lookups switched on or off.
    Start(bool),
    /// The lookup decided.
    LookedUp(LookupOutcome),
    /// The lookup failed with this message.
    LookupFailed(String),
    /// The candidates to choose from, serialised as JSON.
    ChoicesSerialized(String),
}

/// `a` stores the update that records `result` for vinyl `v`, checked at `checked_at`, with
/// MusicBrainz as its source.
pub open spec fn stores_result(
    a: EnrichmentAction,
    v: VinylView,
    result: LookupResult,
    checked_at: Seq<char>,
) -> bool {
    a matches EnrichmentAction::Store(u) && update_fields(u) == enrichment_update_of(
        v,
        result,
        checked_at,
    ) && opt_view(u.metadata_source) == Some("musicbrainz"@)
}

/// One step of enriching `vinyl`: from what the last outside step came to, what to do next.
/// Switched off, the disabled state is stored at once; otherwise the vinyl is looked up, and
/// what the lookup decided (after serialising the candidates of a choice) is stored, as
/// checked at `checked_at`.
pub fn enrichment_step(vinyl: &Vinyl, event: EnrichmentEvent, checked_at: String) -> (a: EnrichmentAction)
    ensures
        match event {
            EnrichmentEvent::Start(enabled) => if enabled {
                a is LookUp
            } else {
                stores_result(a, vinyl@, LookupResult::Disabled, checked_at@)
            },
            EnrichmentEvent::LookedUp(LookupOutcome::Selected(c)) => stores_result(
                a,
                vinyl@,
                LookupResult::Selected(c),
                checked_at@,
            ),
            EnrichmentEvent::LookedUp(LookupOutcome::NeedsChoice(cs)) => a matches EnrichmentAction::SerializeChoices(
                v,
            ) && v@ == cs@,
            EnrichmentEvent::LookedUp(LookupOutcome::NotFound) => stores_result(
                a,
                vinyl@,
                LookupResult::NotFound,
                checked_at@,
            ),
            EnrichmentEvent::LookupFailed(m) => stores_result(a, vinyl@, LookupResult::Failed(m), checked_at@),
            EnrichmentEvent::ChoicesSerialized(json) => stores_result(
                a,
                vinyl@,
                LookupResult::NeedsChoice(json),
                checked_at@,
            ),
        },
{
    match event {
        EnrichmentEvent::Start(enabled) => {
            if enabled {
                EnrichmentAction::LookUp
            } else {
                EnrichmentAction::Store(enrichment_update(vinyl, LookupResult::Disabled, checked_at))
            }
        },
        EnrichmentEvent::LookedUp(outcome) => match outcome {
            LookupOutcome::Selected(c) => EnrichmentAction::Store(
                enrichment_update(vinyl, LookupResult::Selected(c), checked_at),
            ),
            LookupOutcome::NeedsChoice(cs) => EnrichmentAction::SerializeChoices(cs),
            LookupOutcome::NotFound => EnrichmentAction::Store(
                enrichment_update(vinyl, LookupResult::NotFound, checked_at),
            ),
        },
        EnrichmentEvent::LookupFailed(m) => EnrichmentAction::Store(
            enrichment_update(vinyl, LookupResult::Failed(m), checked_at),
        ),
        EnrichmentEvent::ChoicesSerialized(json) => EnrichmentAction::Store(
            enrichment_update(vinyl, LookupResult::NeedsChoice(json), checked_at),
        ),
    }
}

// ---------------------------------------------------------------------------
// Album details
// ---------------------------------------------------------------------------

/// Public album details shown when a visitor opens an album.
#[derive(Clone, Debug)]
pub struct AlbumDetails {
    pub vinyl: Vinyl,
    pub release_group_id: Option<String>,
    pub release_title: Option<String>,
    pub release_date: Option<String>,
    pub release_country: Option<String>,
    pub release_format: Option<String>,
    pub source_url: Option<String>,
    pub tracklist_status: String,
    pub tracklist_error: Option<String>,
    pub tracks: Vec<AlbumTrack>,
}

/// The characters of album details' fields.
pub struct AlbumDetailsView {
    pub vinyl: VinylView,
    pub release_group_id: Option<Seq<char>>,
    pub release_title: Option<Seq<char>>,
    pub release_date: Option<Seq<char>>,
    pub release_country: Option<Seq<char>>,
    pub release_format: Option<Seq<char>>,
    pub source_url: Option<Seq<char>>,
    pub tracklist_status: Seq<char>,
    pub tracklist_error: Option<Seq<char>>,
    pub tracks: Seq<AlbumTrackView>,
}

impl View for AlbumDetails {
    type V = AlbumDetailsView;

    open spec fn view(&self) -> AlbumDetailsView {
        AlbumDetailsView {
            vinyl: self.vinyl@,
            release_group_id: opt_view(self.release_group_id),
            release_title: opt_view(self.release_title),
            release_date: opt_view(self.release_date),
            release_country: opt_view(self.release_country),
            release_format: opt_view(self.release_format),
            source_url: opt_view(self.source_url),
            tracklist_status: self.tracklist_status@,
            tracklist_error: opt_view(self.tracklist_error),
            tracks: track_views(self.tracks@),
        }
    }
}

/// The details of a vinyl before anything is looked up: its stored source page, and no
/// track list.
pub open spec fn initial_details(v: VinylView) -> AlbumDetailsView {
    AlbumDetailsView {
        vinyl: v,
        release_group_id: None,
        release_title: None,
        release_date: None,
        release_country: None,
        release_format: None,
        source_url: v.metadata_source_url,
        tracklist_status: "not_found"@,
        tracklist_error: None,
        tracks: seq![],
    }
}

/// Where the release group of a vinyl's details comes from.
#[derive(Clone, Debug)]
pub enum DetailsSource {
    /// The vinyl is linked to MusicBrainz; this is the linked release group, if an
    /// identifier is stored.
    Stored(Option<AlbumCandidate>),
    /// The vinyl is not linked; the release group is looked up.
    LookUp,
}

/// The release group a linked vinyl names: its stored identifier, title, artist, year and
/// cover, and its stored page (or the group's MusicBrainz page).
pub open spec fn stored_group_of(v: VinylView) -> Option<CandidateView> {
    match v.metadata_source_id {
        Some(id) => Some(
            CandidateView {
                source: "musicbrainz"@,
                id,
                title: v.title,
                artist: v.artist,
                release_year: v.release_year,
                genre: None,
                cover_image_url: v.cover_image_url,
                disambiguation: None,
                source_url: match v.metadata_source_url {
                    Some(u) => u,
                    None => release_group_url_of(id),
                },
                score: None,
            },
        ),
        None => None,
    }
}

/// Decides where the release group of a vinyl's details comes from.
pub fn details_source(vinyl: &Vinyl) -> (r: DetailsSource)
    ensures
        vinyl@.metadata_source == Some("musicbrainz"@) ==> (r matches DetailsSource::Stored(g)
            && match (g, stored_group_of(vinyl@)) {
            (Some(c), Some(w)) => c@ == w,
            (None, None) => true,
            _ => false,
        }),
        vinyl@.metadata_source != Some("musicbrainz"@) ==> r is LookUp,
{
    let linked = match &vinyl.metadata_source {
        Some(s) => crate::text::str_eq(s.as_str(), "musicbrainz"),
        None => false,
    };
    if !linked {
        return DetailsSource::LookUp;
    }
    match &vinyl.metadata_source_id {
        Some(id) => {
            let source_url = match &vinyl.metadata_source_url {
                Some(u) => copy_string(u),
                None => release_group_url(id.as_str()),
            };
            DetailsSource::Stored(
                Some(
                    AlbumCandidate {
                        source: owned("musicbrainz"),
                        id: copy_string(id),
                        title: copy_string(&vinyl.title),
                        artist: copy_string(&vinyl.artist),
                        release_year: vinyl.release_year,
                        genre: None,
                        cover_image_url: copy_opt_string(&vinyl.cover_image_url),
                        disambiguation: None,
                        source_url,
                        score: None,
                    },
                ),
            )
        },
        None => DetailsSource::Stored(None),
    }
}

/// The release group a lookup gives for album details: the chosen candidate, else the first
/// of those needing a choice.
pub open spec fn looked_up_group(o: LookupOutcome) -> Option<CandidateView> {
    match o {
        LookupOutcome::Selected(c) => Some(c@),
        LookupOutcome::NeedsChoice(v) => if v@.len() > 0 {
            Some(v@[0]@)
        } else {
            None
        },
        LookupOutcome::NotFound => None,
    }
}

/// Picks the release group of album details from a lookup.
pub fn release_group_from_lookup(outcome: LookupOutcome) -> (r: Option<AlbumCandidate>)
    ensures
        match (r, looked_up_group(outcome)) {
            (Some(c), Some(w)) => c@ == w,
            (None, None) => true,
            _ => false,
        },
{
    match outcome {
        LookupOutcome::Selected(c) => Some(c),
        LookupOutcome::NeedsChoice(v) => {
            let mut v = v;
            if v.len() > 0 {
                Some(v.swap_remove(0))
            } else {
                None
            }
        },
        LookupOutcome::NotFound => None,
    }
}

/// The states a track list can be in.
pub open spec fn is_tracklist_status(s: Seq<char>) -> bool {
    s == "available"@ || s == "not_found"@ || s == "unavailable"@
}

impl AlbumDetails {
    /// The details of a vinyl before anything is looked up.
    pub fn from_vinyl(vinyl: Vinyl) -> (r: AlbumDetails)
        ensures
            r@ == initial_details(vinyl@),
    {
        let source_url = copy_opt_string(&vinyl.metadata_source_url);
        let tracks: Vec<AlbumTrack> = Vec::new();
        assert(track_views(tracks@) =~= seq![]);
        AlbumDetails {
            vinyl,
            release_group_id: None,
            release_title: None,
            release_date: None,
            release_country: None,
            release_format: None,
            source_url,
            tracklist_status: owned("not_found"),
            tracklist_error: None,
            tracks,
        }
    }

    /// The track list is unavailable, for the reason given.
    pub fn unavailable(&mut self, reason: &str)
        ensures
            final(self)@ == (AlbumDetailsView {
                tracklist_status: "unavailable"@,
                tracklist_error: Some(reason@),
                ..old(self)@
            }),
    {
        self.tracklist_status = owned("unavailable");
        self.tracklist_error = Some(owned(reason));
    }

    /// Lookups are switched off.
    pub fn lookup_disabled(&mut self)
        ensures
            final(self)@ == (AlbumDetailsView {
                tracklist_status: "unavailable"@,
                tracklist_error: Some("Album metadata lookup is disabled"@),
                ..old(self)@
            }),
    {
        self.unavailable("Album metadata lookup is disabled");
    }

    /// The release group could not be looked up.
    pub fn lookup_failed(&mut self)
        ensures
            final(self)@ == (AlbumDetailsView {
                tracklist_status: "unavailable"@,
                tracklist_error: Some("Could not look up album metadata"@),
                ..old(self)@
            }),
    {
        self.unavailable("Could not look up album metadata");
    }

    /// No release group was found.
    pub fn no_release_group(&mut self)
        ensures
            final(self)@ == (AlbumDetailsView { tracklist_status: "not_found"@, ..old(self)@ }),
    {
        self.tracklist_status = owned("not_found");
    }

    /// Records the identified release group: its identifier, page and title.
    pub fn set_release_group(&mut self, group: &AlbumCandidate)
        ensures
            final(self)@ == (AlbumDetailsView {
                release_group_id: Some(group.id@),
                source_url: Some(group.source_url@),
                release_title: Some(group.title@),
                ..old(self)@
            }),
    {
        self.release_group_id = Some(copy_string(&group.id));
        self.source_url = Some(copy_string(&group.source_url));
        self.release_title = Some(copy_string(&group.title));
    }

    /// Records the loaded track list (none when no release has tracks): the release's title,
    /// date, country, formats, page and tracks; available exactly when there are tracks.
    pub fn set_tracklist(&mut self, tracklist: Option<AlbumReleaseTracklist>)
        ensures
            match tracklist {
                Some(t) => final(self)@ == (AlbumDetailsView {
                    release_title: Some(t@.title),
                    release_date: t@.date,
                    release_country: t@.country,
                    release_format: t@.format,
                    source_url: Some(t@.source_url),
                    tracks: t@.tracks,
                    tracklist_status: if t@.tracks.len() > 0 {
                        "available"@
                    } else {
                        "not_found"@
                    },
                    ..old(self)@
                }),
                None => final(self)@ == (AlbumDetailsView { tracklist_status: "not_found"@, ..old(self)@ }),
            },
    {
        match tracklist {
            Some(t) => {
                let AlbumReleaseTracklist { source_url, title, date, country, format, tracks } = t;
                self.release_title = Some(title);
                self.release_date = date;
                self.release_country = country;
                self.release_format = format;
                self.source_url = Some(source_url);
                let has_tracks = tracks.len() > 0;
                self.tracks = tracks;
                self.tracklist_status = if has_tracks {
                    owned("available")
                } else {
                    owned("not_found")
                };
            },
            None => {
                self.tracklist_status = owned("not_found");
            },
        }
    }

    /// The track list could not be loaded.
    pub fn tracklist_failed(&mut self)
        ensures
            final(self)@ == (AlbumDetailsView {
                tracklist_status: "unavailable"@,
                tracklist_error: Some("Could not load track list from MusicBrainz"@),
                ..old(self)@
            }),
    {
        self.unavailable("Could not load track list from MusicBrainz");
    }
}

/// What building album details asks for next.
#[derive(Debug)]
pub enum DetailsAction {
    /// Look the vinyl's release group up by its artist and title.
    LookUpReleaseGroup,
    /// Load the track list of the release group with this identifier, preferring releases
    /// of this year.
    LoadTracklist(String, Option<i32>),
    /// The details are final.
    Finished,
}

/// What the last outside step of building album details came to.
#[derive(Debug)]
pub enum DetailsEvent {
    /// Building starts, with lookups switched on or off.
    Start(bool),
    /// The release-group lookup decided.
    LookedUp(LookupOutcome),
    /// The release-group lookup failed.
    LookupFailed,
    /// The track list was loaded (none when no release has tracks).
    TracklistLoaded(Option<AlbumReleaseTracklist>),
    /// The track list could not be loaded.
    TracklistFailed,
}

/// `d` with its track list unavailable for `reason`.
pub open spec fn unavailable_details(d: AlbumDetailsView, reason: Seq<char>) -> AlbumDetailsView {
    AlbumDetailsView { tracklist_status: "unavailable"@, tracklist_error: Some(reason), ..d }
}

/// `d` with a loaded track list recorded (see `AlbumDetails::set_tracklist`).
pub open spec fn tracklist_details(d: AlbumDetailsView, t: Option<AlbumReleaseTracklist>) -> AlbumDetailsView {
    match t {
        Some(t) => AlbumDetailsView {
            release_title: Some(t@.title),
            release_date: t@.date,
            release_country: t@.country,
            release_format: t@.format,
            source_url: Some(t@.source_url),
            tracks: t@.tracks,
            tracklist_status: if t@.tracks.len() > 0 {
                "available"@
            } else {
                "not_found"@
            },
            ..d
        },
        None => AlbumDetailsView { tracklist_status: "not_found"@, ..d },
    }
}

/// Once the release group `g` is known, details `d` become `d2` and `a` is asked for: with
/// no group the details are final; with one, it is recorded and its track list loaded.
pub open spec fn release_group_step(
    d: AlbumDetailsView,
    g: Option<CandidateView>,
    d2: AlbumDetailsView,
    a: DetailsAction,
) -> bool {
    match g {
        None => d2 == (AlbumDetailsView { tracklist_status: "not_found"@, ..d }) && a is Finished,
        Some(c) => {
            &&& d2 == (AlbumDetailsView {
                release_group_id: Some(c.id),
                source_url: Some(c.source_url),
                release_title: Some(c.title),
                ..d
            })
            &&& a matches DetailsAction::LoadTracklist(id, y) && id@ == c.id && y
                == d.vinyl.release_year
        },
    }
}

impl AlbumDetails {
    /// Records the release group the details are about, if there is one, and says what
    /// comes next.
    fn apply_release_group(&mut self, group: Option<AlbumCandidate>) -> (a: DetailsAction)
        ensures
            release_group_step(
                old(self)@,
                match group {
                    Some(c) => Some(c@),
                    None => None,
                },
                final(self)@,
                a,
            ),
    {
        match group {
            Some(c) => {
                self.set_release_group(&c);
                DetailsAction::LoadTracklist(c.id, self.vinyl.release_year)
            },
            None => {
                self.no_release_group();
                DetailsAction::Finished
            },
        }
    }

    /// One step of building album details: from what the last outside step came to, update
    /// the details and say what to do next. Switched off, the track list is unavailable at
    /// once. A vinyl linked to MusicBrainz uses its stored release group; another is looked
    /// up. A found group's track list is then loaded; every failure makes the track list
    /// unavailable with its reason.
    pub fn step(&mut self, event: DetailsEvent) -> (a: DetailsAction)
        ensures
            match event {
                DetailsEvent::Start(enabled) => if !enabled {
                    final(self)@ == unavailable_details(
                        old(self)@,
                        "Album metadata lookup is disabled"@,
                    ) && a is Finished
                } else if old(self)@.vinyl.metadata_source == Some("musicbrainz"@) {
                    release_group_step(
                        old(self)@,
                        stored_group_of(old(self)@.vinyl),
                        final(self)@,
                        a,
                    )
                } else {
                    final(self)@ == old(self)@ && a is LookUpReleaseGroup
                },
                DetailsEvent::LookedUp(o) => release_group_step(
                    old(self)@,
                    looked_up_group(o),
                    final(self)@,
                    a,
                ),
                DetailsEvent::LookupFailed => final(self)@ == unavailable_details(
                    old(self)@,
                    "Could not look up album metadata"@,
                ) && a is Finished,
                DetailsEvent::TracklistLoaded(t) => final(self)@ == tracklist_details(old(self)@, t)
                    && a is Finished,
                DetailsEvent::TracklistFailed => final(self)@ == unavailable_details(
                    old(self)@,
                    "Could not load track list from MusicBrainz"@,
                ) && a is Finished,
            },
    {
        match event {
            DetailsEvent::Start(enabled) => {
                if !enabled {
                    self.lookup_disabled();
                    return DetailsAction::Finished;
                }
                match details_source(&self.vinyl) {
                    DetailsSource::Stored(group) => {
                        let ghost g = group;
                        let a = self.apply_release_group(group);
                        proof {
                            assert(match g {
                                Some(c) => Some(c@),
                                None => None,
                            } == stored_group_of(old(self)@.vinyl));
                        }
                        a
                    },
                    DetailsSource::LookUp => DetailsAction::LookUpReleaseGroup,
                }
            },
            DetailsEvent::LookedUp(o) => {
                let ghost og = looked_up_group(o);
                let group = release_group_from_lookup(o);
                proof {
                    assert(match group {
                        Some(c) => Some(c@),
                        None => None,
                    } == og);
                }
                self.apply_release_group(group)
            },
            DetailsEvent::LookupFailed => {
                self.lookup_failed();
                DetailsAction::Finished
            },
            DetailsEvent::TracklistLoaded(t) => {
                self.set_tracklist(t);
                DetailsAction::Finished
            },
            DetailsEvent::TracklistFailed => {
                self.tracklist_failed();
                DetailsAction::Finished
            },
        }
    }
}

/// Album details always say whether their track list is available, missing or unavailable,
/// and call it available exactly when they list tracks: every step keeps this.
pub proof fn details_status_is_consistent(v: VinylView, t: crate::musicbrainz::TracklistView)
    ensures
        is_tracklist_status(initial_details(v).tracklist_status),
        initial_details(v).tracklist_status == "available"@ <==> initial_details(v).tracks.len() > 0,
        is_tracklist_status(if t.tracks.len() > 0 {
            "available"@
        } else {
            "not_found"@
        }),
        (if t.tracks.len() > 0 {
            "available"@
        } else {
            "not_found"@
        }) == "available"@ <==> t.tracks.len() > 0,
{
    reveal_strlit("available");
    reveal_strlit("not_found");
    assert("available"@ != "not_found"@) by {
        assert("available"@[0] != "not_found"@[0]);
    }
}

// ---------------------------------------------------------------------------
// Cover image analysis
// ---------------------------------------------------------------------------

/// The result of analysing an uploaded album-cover photo.
#[derive(Clone, Debug)]
pub struct CoverImageAnalysis {
    pub status: String,
    pub detected_terms: Vec<String>,
    pub candidates: Vec<AlbumCandidate>,
}

impl CoverImageAnalysis {
    /// The analysis of a photo from the terms recognised on it and the candidates they led
    /// to, with the status those give.
    pub fn new(detected_terms: Vec<String>, candidates: Vec<AlbumCandidate>) -> (r: CoverImageAnalysis)
        ensures
            r.status@ == crate::album_metadata::cover_analysis_status_of(
                cands(candidates@),
                strs(detected_terms@),
            ),
            strs(r.detected_terms@) == strs(detected_terms@),
            cands(r.candidates@) == cands(candidates@),
    {
        let status = cover_analysis_status(&candidates, &detected_terms);
        CoverImageAnalysis { status, detected_terms, candidates }
    }
}

// ---------------------------------------------------------------------------
// Settings of the metadata client
// ---------------------------------------------------------------------------

/// What the metadata client runs with.
#[derive(Clone, Debug)]
pub struct MetadataSettings {
    pub enabled: bool,
    pub user_agent: String,
    pub musicbrainz_base_url: String,
    pub cover_art_archive_base_url: String,
    pub cover_cache_dir: String,
    pub album_cover_recognition_provider: String,
    pub openai_api_key: Option<String>,
    pub openai_base_url: String,
    pub openai_model: String,
    pub gemini_api_key: Option<String>,
    pub gemini_base_url: String,
    pub gemini_model: String,
}

/// A base URL without trailing slashes.
pub open spec fn base_url_of(url: Seq<char>) -> Seq<char> {
    trim_end(url, CharClass::Exactly('/'))
}

/// `dir` joined with the relative path `child` the way `Path::join` does: a `/` is put
/// between them unless `dir` is empty or already ends with one.
pub open spec fn joined_path(dir: Seq<char>, child: Seq<char>) -> Seq<char> {
    if dir.len() == 0 || dir.last() == '/' {
        dir + child
    } else {
        dir + "/"@ + child
    }
}

/// The default user agent sent to MusicBrainz: the program's name and version and the
/// public site.
pub open spec fn default_user_agent(version: Seq<char>, public_domain: Seq<char>) -> Seq<char> {
    "gavin/"@ + version + " (https://"@ + public_domain + ")"@
}

fn base_url(url: &str) -> (r: String)
    ensures
        r@ == base_url_of(url@),
{
    let v = str_chars(url);
    let end = crate::text::trail_start_exec(&v, v.len(), &CharClass::Exactly('/'));
    let r = crate::text::slice_chars(&v, 0, end);
    proof {
        assert(v@.take(v.len() as int) =~= v@);
        assert(v@.subrange(0, end as int) =~= v@.take(end as int));
    }
    string_of(&r)
}

/// The directory where album covers are cached: `album-covers` under the upload directory.
pub fn cover_cache_dir(upload_dir: &str) -> (r: String)
    ensures
        r@ == joined_path(upload_dir@, "album-covers"@),
{
    let mut v = str_chars(upload_dir);
    if v.len() > 0 && v[v.len() - 1] != '/' {
        v.push('/');
        assert(v@ =~= upload_dir@ + "/"@) by {
            reveal_strlit("/");
        }
    }
    append_chars(&mut v, &str_chars("album-covers"));
    string_of(&v)
}

impl MetadataSettings {
    /// The metadata client's settings from the configuration; `version` is the program's
    /// version, used in the default user agent.
    pub fn from_config(config: &Config, version: &str) -> (r: MetadataSettings)
        ensures
            r.enabled == config.album_metadata_enabled,
            r.user_agent@ == match config.album_metadata_user_agent {
                Some(a) => a@,
                None => default_user_agent(version@, config.public_domain@),
            },
            r.musicbrainz_base_url@ == base_url_of(config.musicbrainz_base_url@),
            r.cover_art_archive_base_url@ == base_url_of(config.cover_art_archive_base_url@),
            r.cover_cache_dir@ == joined_path(config.upload_dir@, "album-covers"@),
            r.album_cover_recognition_provider@ == config.album_cover_recognition_provider@,
            opt_view(r.openai_api_key) == opt_view(config.openai_api_key),
            r.openai_base_url@ == base_url_of(config.openai_base_url@),
            r.openai_model@ == config.openai_model@,
            opt_view(r.gemini_api_key) == opt_view(config.gemini_api_key),
            r.gemini_base_url@ == base_url_of(config.gemini_base_url@),
            r.gemini_model@ == config.gemini_model@,
    {
        let user_agent = match &config.album_metadata_user_agent {
            Some(a) => copy_string(a),
            None => {
                let mut v = str_chars("gavin/");
                append_chars(&mut v, &str_chars(version));
                append_chars(&mut v, &str_chars(" (https://"));
                append_chars(&mut v, &str_chars(config.public_domain.as_str()));
                append_chars(&mut v, &str_chars(")"));
                string_of(&v)
            },
        };
        MetadataSettings {
            enabled: config.album_metadata_enabled,
            user_agent,
            musicbrainz_base_url: base_url(config.musicbrainz_base_url.as_str()),
            cover_art_archive_base_url: base_url(config.cover_art_archive_base_url.as_str()),
            cover_cache_dir: cover_cache_dir(config.upload_dir.as_str()),
            album_cover_recognition_provider: copy_string(&config.album_cover_recognition_provider),
            openai_api_key: copy_opt_string(&config.openai_api_key),
            openai_base_url: base_url(config.openai_base_url.as_str()),
            openai_model: copy_string(&config.openai_model),
            gemini_api_key: copy_opt_string(&config.gemini_api_key),
            gemini_base_url: base_url(config.gemini_base_url.as_str()),
            gemini_model: copy_string(&config.gemini_model),
        }
    }
}

} // verus!
