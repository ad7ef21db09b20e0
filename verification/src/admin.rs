//! Rules of the admin API: uploads, candidates chosen by an admin, and the cleanup of images
//! no vinyl refers to.
use vstd::prelude::*;

use crate::album_metadata::{AlbumCandidate, CandidateView};
use crate::catalog::CoverImageAnalysis;
use crate::config::opt_view;
use crate::cover::{ascii_lowercase, ascii_lowercase_exec, extension_of, path_extension};
use crate::db::{
    created_view, metadata_updated_view, updated_view, CreateVinyl, MetadataUpdate,
    UpdateVinyl, Vinyl, VinylView,
};
use crate::error::AppError;
use crate::search_terms::strs;
use crate::text::{
    append_chars, char_is_alphanumeric, contains, contains_exec, copy_string,
    owned, signed_decimal, spec_is_alphanumeric, spec_str_lowercase, starts_with,
    starts_with_exec, str_chars, str_to_lowercase, string_of, trim, trim_exec, trim_start,
    trim_str, trim_ws, CharClass,
};

verus! {

// ---------------------------------------------------------------------------
// Uploads
// ---------------------------------------------------------------------------

/// A character that may stay in an uploaded file's name.
pub open spec fn is_filename_char(c: char) -> bool {
    spec_is_alphanumeric(c) || c == '.' || c == '-' || c == '_'
}

/// The characters of a name that may stay in a file name, in order.
pub open spec fn filename_chars(s: Seq<char>) -> Seq<char>
    decreases s.len(),
{
    if s.len() == 0 {
        seq![]
    } else if is_filename_char(s.last()) && s.last() != '/' {
        filename_chars(s.drop_last()).push(s.last())
    } else {
        filename_chars(s.drop_last())
    }
}

/// A safe file name: the allowed characters, without leading or trailing dots.
pub open spec fn sanitized_filename(s: Seq<char>) -> Seq<char> {
    trim(filename_chars(s), CharClass::Exactly('.'))
}

/// Makes an uploaded file's name safe to store: only letters, digits, `.`, `-` and `_` stay,
/// and dots are trimmed off both ends.
pub fn sanitize_filename(filename: &str) -> (r: String)
    ensures
        r@ == sanitized_filename(filename@),
{
    let v = str_chars(filename);
    let mut kept: Vec<char> = Vec::new();
    let mut i: usize = 0;
    while i < v.len()
        invariant
            i <= v.len(),
            kept@ == filename_chars(v@.take(i as int)),
        decreases v.len() - i,
    {
        assert(v@.take(i + 1).drop_last() =~= v@.take(i as int));
        assert(v@.take(i + 1).last() == v@[i as int]);
        let c = v[i];
        if (char_is_alphanumeric(c) || c == '.' || c == '-' || c == '_') && c != '/' {
            kept.push(c);
        }
        i += 1;
    }
    assert(v@.take(v.len() as int) =~= v@);
    let t = trim_exec(&kept, &CharClass::Exactly('.'));
    string_of(&t)
}

/// Every kept character is allowed in a file name and is not `/`.
pub proof fn lemma_filename_chars_allowed(s: Seq<char>)
    ensures
        forall|i: int|
            0 <= i < filename_chars(s).len() ==> is_filename_char(#[trigger] filename_chars(s)[i])
                && filename_chars(s)[i] != '/',
    decreases s.len(),
{
    if s.len() > 0 {
        lemma_filename_chars_allowed(s.drop_last());
        let prev = filename_chars(s.drop_last());
        assert forall|i: int| 0 <= i < filename_chars(s).len() implies is_filename_char(
            #[trigger] filename_chars(s)[i],
        ) && filename_chars(s)[i] != '/' by {
            if i < prev.len() {
                assert(filename_chars(s)[i] == prev[i]);
            }
        }
    }
}

/// A sanitised name cannot leave the upload directory: it holds no `/`, every character is
/// a letter, digit, `.`, `-` or `_`, and it neither starts nor ends with a dot (so it is
/// never `.` or `..`).
pub proof fn sanitized_filename_is_safe(s: Seq<char>)
    ensures
        forall|i: int|
            0 <= i < sanitized_filename(s).len() ==> is_filename_char(
                #[trigger] sanitized_filename(s)[i],
            ) && sanitized_filename(s)[i] != '/',
        sanitized_filename(s).len() > 0 ==> sanitized_filename(s)[0] != '.'
            && sanitized_filename(s).last() != '.',
{
    let f = filename_chars(s);
    lemma_filename_chars_allowed(s);
    let k = CharClass::Exactly('.');
    crate::text::lemma_span_bound(f, k, true);
    let a = crate::text::span(f, k, true);
    let t = f.skip(a as int);
    crate::text::lemma_trail_bound(t, k);
    let r = sanitized_filename(s);
    assert(r =~= t.take(t.len() - crate::text::trail(t, k)));
    assert forall|i: int| 0 <= i < r.len() implies is_filename_char(#[trigger] r[i]) && r[i] != '/' by {
        assert(r[i] == f[a + i]);
    }
    if r.len() > 0 {
        assert(r[0] == f[a as int]);
        assert(r.last() == t[t.len() - crate::text::trail(t, k) - 1]);
    }
}

/// `idx` places each character of `a` at a position of `b`, in increasing order.
pub open spec fn subsequence_witness(a: Seq<char>, b: Seq<char>, idx: Seq<int>) -> bool {
    &&& idx.len() == a.len()
    &&& forall|i: int| 0 <= i < a.len() ==> 0 <= #[trigger] idx[i] < b.len() && a[i] == b[idx[i]]
    &&& forall|i: int, j: int| 0 <= i < j < a.len() ==> #[trigger] idx[i] < #[trigger] idx[j]
}

/// `a` is a subsequence of `b`: its characters occur in `b` in the same order.
pub open spec fn is_subsequence(a: Seq<char>, b: Seq<char>) -> bool {
    exists|idx: Seq<int>| subsequence_witness(a, b, idx)
}

/// The positions in `s` of the characters that `filename_chars` keeps.
proof fn lemma_filename_chars_positions(s: Seq<char>) -> (idx: Seq<int>)
    ensures
        subsequence_witness(filename_chars(s), s, idx),
    decreases s.len(),
{
    if s.len() == 0 {
        seq![]
    } else {
        let prev = lemma_filename_chars_positions(s.drop_last());
        let f = filename_chars(s);
        let pf = filename_chars(s.drop_last());
        if is_filename_char(s.last()) && s.last() != '/' {
            let idx = prev.push(s.len() - 1);
            assert forall|i: int| 0 <= i < f.len() implies 0 <= #[trigger] idx[i] < s.len() && f[i]
                == s[idx[i]] by {
                if i < pf.len() {
                    assert(idx[i] == prev[i]);
                    assert(f[i] == pf[i]);
                    assert(s[prev[i]] == s.drop_last()[prev[i]]);
                }
            }
            assert forall|i: int, j: int| 0 <= i < j < f.len() implies #[trigger] idx[i]
                < #[trigger] idx[j] by {
                assert(idx[i] == prev[i]);
                if j < pf.len() {
                    assert(idx[j] == prev[j]);
                }
            }
            idx
        } else {
            assert forall|i: int| 0 <= i < f.len() implies 0 <= #[trigger] prev[i] < s.len() && f[i]
                == s[prev[i]] by {
                assert(s[prev[i]] == s.drop_last()[prev[i]]);
            }
            prev
        }
    }
}

/// A name made only of kept characters passes through `filename_chars` unchanged.
proof fn lemma_filename_chars_of_kept(s: Seq<char>)
    requires
        forall|i: int| 0 <= i < s.len() ==> is_filename_char(#[trigger] s[i]) && s[i] != '/',
    ensures
        filename_chars(s) == s,
    decreases s.len(),
{
    if s.len() > 0 {
        let d = s.drop_last();
        assert forall|i: int| 0 <= i < d.len() implies is_filename_char(#[trigger] d[i]) && d[i]
            != '/' by {
            assert(d[i] == s[i]);
        }
        lemma_filename_chars_of_kept(d);
        assert(s.last() == s[s.len() - 1]);
        assert(d.push(s.last()) =~= s);
    }
}

/// Sanitising keeps a subsequence of the name (it only drops characters, never adds or
/// reorders them), and sanitising a sanitised name changes nothing.
pub proof fn sanitizing_drops_only_and_is_idempotent(s: Seq<char>)
    ensures
        is_subsequence(sanitized_filename(s), s),
        sanitized_filename(sanitized_filename(s)) == sanitized_filename(s),
{
    let f = filename_chars(s);
    let fidx = lemma_filename_chars_positions(s);
    let k = CharClass::Exactly('.');
    crate::text::lemma_span_bound(f, k, true);
    let a = crate::text::span(f, k, true);
    let t = f.skip(a as int);
    crate::text::lemma_trail_bound(t, k);
    let n = t.len() - crate::text::trail(t, k);
    let r = sanitized_filename(s);
    assert(r =~= t.take(n));
    let idx = fidx.subrange(a as int, a + n);
    assert forall|i: int| 0 <= i < r.len() implies 0 <= #[trigger] idx[i] < s.len() && r[i]
        == s[idx[i]] by {
        assert(r[i] == f[a + i]);
        assert(idx[i] == fidx[a + i]);
    }
    assert forall|i: int, j: int| 0 <= i < j < r.len() implies #[trigger] idx[i]
        < #[trigger] idx[j] by {
        assert(idx[i] == fidx[a + i]);
        assert(idx[j] == fidx[a + j]);
    }
    assert(subsequence_witness(r, s, idx));
    sanitized_filename_is_safe(s);
    lemma_filename_chars_of_kept(r);
    if r.len() > 0 {
        assert(r[0] != '.');
        assert(crate::text::span(r, k, true) == 0);
        assert(r.last() != '.');
        assert(crate::text::trail(r, k) == 0);
    } else {
        assert(crate::text::span(r, k, true) == 0);
        assert(crate::text::trail(r.skip(0), k) == 0);
    }
    assert(r.skip(0) =~= r);
    assert(r.take(r.len() as int) =~= r);
}

/// An uploaded file needs a name that stays non-empty once sanitised.
pub fn safe_upload_name(filename: &str) -> (r: Result<String, AppError>)
    ensures
        match r {
            Ok(n) => n@ == sanitized_filename(filename@) && n@.len() > 0,
            Err(e) => sanitized_filename(filename@).len() == 0 && (e matches AppError::InvalidInput(m)
                && m@ == "Invalid filename"@),
        },
{
    let safe = sanitize_filename(filename);
    if str_chars(safe.as_str()).len() == 0 {
        return Err(AppError::InvalidInput(owned("Invalid filename")));
    }
    Ok(safe)
}

/// The stored name of an upload made at `timestamp` seconds: the time, `_`, and the safe
/// name.
pub fn upload_file_name(timestamp: i64, safe_name: &str) -> (r: String)
    ensures
        r@ == signed_decimal(timestamp as int) + "_"@ + safe_name@,
{
    let mut v = str_chars(crate::text::i64_to_decimal(timestamp).as_str());
    append_chars(&mut v, &str_chars("_"));
    append_chars(&mut v, &str_chars(safe_name));
    string_of(&v)
}

/// Where an uploaded file is served.
pub fn upload_url(file_name: &str) -> (r: String)
    ensures
        r@ == "/uploads/"@ + file_name@,
{
    crate::text::concat2("/uploads/", file_name)
}

/// The answer to an upload: where the file is served.
#[derive(Clone, Debug)]
pub struct UploadResponse {
    pub url: String,
}

/// Largest uploaded image: 10 MiB.
pub open spec fn max_image_size() -> nat {
    10 * 1024 * 1024
}

/// Refuses an image larger than 10 MiB.
pub fn validate_image_size(size: usize) -> (r: Result<(), AppError>)
    ensures
        r is Ok <==> size <= max_image_size(),
        r matches Err(e) ==> (e matches AppError::InvalidInput(m) && m@
            == "Image file size must be less than 10MB"@),
{
    if size > 10 * 1024 * 1024 {
        return Err(AppError::InvalidInput(owned("Image file size must be less than 10MB")));
    }
    Ok(())
}

/// Refuses an upload whose declared type is not an image (an undeclared type passes).
pub fn validate_image_field(content_type: Option<&str>) -> (r: Result<(), AppError>)
    ensures
        r is Ok <==> match content_type {
            Some(t) => starts_with(t@, "image/"@),
            None => true,
        },
        r matches Err(e) ==> (e matches AppError::InvalidInput(m) && m@ == "Please upload an image file"@),
{
    match content_type {
        Some(t) => {
            if !starts_with_exec(&str_chars(t), &str_chars("image/")) {
                return Err(AppError::InvalidInput(owned("Please upload an image file")));
            }
            Ok(())
        },
        None => Ok(()),
    }
}

// ---------------------------------------------------------------------------
// Candidates chosen by an admin
// ---------------------------------------------------------------------------

/// A candidate chosen during a cover import or a metadata review.
#[derive(Clone, Debug)]
pub struct CandidateImportRequest {
    pub candidate: AlbumCandidate,
}

/// An artist whose albums an admin searches.
#[derive(Clone, Debug)]
pub struct ArtistAlbumSearchQuery {
    pub artist: String,
}

/// Refuses a candidate without an artist or a title.
pub fn validate_candidate_identity(candidate: &AlbumCandidate) -> (r: Result<(), AppError>)
    ensures
        r is Ok <==> trim_ws(candidate.artist@).len() > 0 && trim_ws(candidate.title@).len() > 0,
        r matches Err(e) ==> (e matches AppError::InvalidInput(m) && m@
            == "candidate artist and title are required"@),
{
    if trim_str(candidate.artist.as_str()).len() == 0 || trim_str(candidate.title.as_str()).len() == 0 {
        return Err(AppError::InvalidInput(owned("candidate artist and title are required")));
    }
    Ok(())
}

/// Notes that only point at a metadata source, as chosen candidates write them.
pub open spec fn is_generated_note(notes: Seq<char>) -> bool {
    starts_with(spec_str_lowercase(trim_ws(notes)), "metadata:"@)
}

/// Whether notes were written by a chosen candidate rather than by a person.
pub fn is_generated_metadata_note(notes: &str) -> (r: bool)
    ensures
        r == is_generated_note(notes@),
{
    let t = string_of(&trim_str(notes));
    let low = str_to_lowercase(t.as_str());
    starts_with_exec(&str_chars(low.as_str()), &str_chars("metadata:"))
}

/// The note a chosen candidate leaves: `Metadata: ` and its page.
pub open spec fn metadata_note_of(c: CandidateView) -> Seq<char> {
    "Metadata: "@ + c.source_url
}

/// The note a chosen candidate leaves.
pub fn metadata_note(candidate: &AlbumCandidate) -> (r: String)
    ensures
        r@ == metadata_note_of(candidate@),
{
    crate::text::concat2("Metadata: ", candidate.source_url.as_str())
}

/// The vinyl created from a chosen candidate: its artist, title, year, note and cover.
pub fn candidate_create_input(candidate: &AlbumCandidate, cover_image_url: Option<String>) -> (r: CreateVinyl)
    ensures
        r.artist@ == candidate.artist@,
        r.title@ == candidate.title@,
        r.release_year == candidate.release_year,
        opt_view(r.notes) == Some(metadata_note_of(candidate@)),
        opt_view(r.cover_image_url) == opt_view(cover_image_url),
{
    CreateVinyl {
        artist: copy_string(&candidate.artist),
        title: copy_string(&candidate.title),
        release_year: candidate.release_year,
        notes: Some(metadata_note(candidate)),
        cover_image_url,
    }
}

/// The metadata a chosen candidate records when checked at `checked_at`: complete, linked to
/// the candidate's source, identifier and page, with the given notes and cover.
pub fn candidate_metadata_update(
    candidate: &AlbumCandidate,
    notes: Option<String>,
    cover_image_url: Option<String>,
    checked_at: String,
) -> (r: MetadataUpdate)
    ensures
        r.release_year == candidate.release_year,
        opt_view(r.notes) == opt_view(notes),
        opt_view(r.cover_image_url) == opt_view(cover_image_url),
        r.metadata_status@ == "complete"@,
        opt_view(r.metadata_source) == Some(candidate.source@),
        opt_view(r.metadata_source_id) == Some(candidate.id@),
        opt_view(r.metadata_source_url) == Some(candidate.source_url@),
        r.metadata_candidates is None,
        r.metadata_error is None,
        opt_view(r.metadata_checked_at) == Some(checked_at@),
{
    MetadataUpdate {
        release_year: candidate.release_year,
        notes,
        cover_image_url,
        metadata_status: owned("complete"),
        metadata_source: Some(copy_string(&candidate.source)),
        metadata_source_id: Some(copy_string(&candidate.id)),
        metadata_source_url: Some(copy_string(&candidate.source_url)),
        metadata_candidates: None,
        metadata_error: None,
        metadata_checked_at: Some(checked_at),
    }
}

/// The notes a chosen candidate writes over an existing vinyl's: its note, unless the vinyl
/// has notes that a person wrote.
pub open spec fn notes_update_of(existing: Option<Seq<char>>, note: Seq<char>) -> Option<Seq<char>> {
    match existing {
        Some(n) => if trim_ws(n).len() == 0 || is_generated_note(n) {
            Some(note)
        } else {
            None
        },
        None => Some(note),
    }
}

/// Decides the notes a chosen candidate writes over an existing vinyl's.
pub fn candidate_notes_update(existing: &Option<String>, note: &str) -> (r: Option<String>)
    ensures
        opt_view(r) == notes_update_of(opt_view(*existing), note@),
{
    match existing {
        Some(n) => {
            if trim_str(n.as_str()).len() == 0 || is_generated_metadata_note(n.as_str()) {
                Some(owned(note))
            } else {
                None
            }
        },
        None => Some(owned(note)),
    }
}

/// The update a chosen candidate makes to an existing vinyl: its artist and title, and its
/// year, notes and cover where it has them.
pub fn candidate_update_input(
    candidate: &AlbumCandidate,
    notes: Option<String>,
    cover_image_url: Option<String>,
) -> (r: UpdateVinyl)
    ensures
        opt_view(r.artist) == Some(candidate.artist@),
        opt_view(r.title) == Some(candidate.title@),
        r.release_year == candidate.release_year,
        opt_view(r.notes) == opt_view(notes),
        opt_view(r.cover_image_url) == opt_view(cover_image_url),
{
    UpdateVinyl {
        artist: Some(copy_string(&candidate.artist)),
        title: Some(copy_string(&candidate.title)),
        release_year: candidate.release_year,
        notes,
        cover_image_url,
    }
}

/// Applying a chosen candidate to a vinyl makes it the candidate's album, complete and
/// linked to the candidate, and never overwrites notes that a person wrote: those stay,
/// while empty or generated notes become the candidate's note.
pub proof fn applied_candidate_keeps_written_notes(
    v: VinylView,
    c: AlbumCandidate,
    cover: Option<Seq<char>>,
    checked_at: Seq<char>,
    update: UpdateVinyl,
    metadata: MetadataUpdate,
)
    requires
        opt_view(update.artist) == Some(c.artist@),
        opt_view(update.title) == Some(c.title@),
        update.release_year == c.release_year,
        opt_view(update.notes) == notes_update_of(v.notes, metadata_note_of(c@)),
        opt_view(update.cover_image_url) == cover,
        metadata.release_year == c.release_year,
        opt_view(metadata.notes) == notes_update_of(v.notes, metadata_note_of(c@)),
        opt_view(metadata.cover_image_url) == cover,
        metadata.metadata_status@ == "complete"@,
        opt_view(metadata.metadata_source_id) == Some(c.id@),
        metadata.metadata_error is None,
    ensures
        ({
            let result = metadata_updated_view(updated_view(v, update), metadata);
            &&& result.artist == c.artist@
            &&& result.title == c.title@
            &&& result.metadata_status == "complete"@
            &&& result.metadata_source_id == Some(c.id@)
            &&& result.metadata_error is None
            &&& (match v.notes {
                Some(n) => if trim_ws(n).len() > 0 && !is_generated_note(n) {
                    result.notes == v.notes
                } else {
                    result.notes == Some(metadata_note_of(c@))
                },
                None => result.notes == Some(metadata_note_of(c@)),
            })
            &&& result.id == v.id
            &&& result.created_at == v.created_at
        }),
{
}

/// A vinyl created from a chosen candidate is the candidate's album, already complete and
/// linked to it, with the candidate's note.
pub proof fn candidate_import_is_complete(
    id: Seq<char>,
    c: AlbumCandidate,
    input: CreateVinyl,
    created_at: Seq<char>,
    metadata: MetadataUpdate,
)
    requires
        input.artist@ == c.artist@,
        input.title@ == c.title@,
        opt_view(input.notes) == Some(metadata_note_of(c@)),
        opt_view(metadata.notes) == Some(metadata_note_of(c@)),
        metadata.metadata_status@ == "complete"@,
        opt_view(metadata.metadata_source_id) == Some(c.id@),
        opt_view(metadata.metadata_source_url) == Some(c.source_url@),
    ensures
        ({
            let result = metadata_updated_view(created_view(id, input, created_at), metadata);
            &&& result.artist == trim_ws(c.artist@)
            &&& result.title == trim_ws(c.title@)
            &&& result.metadata_status == "complete"@
            &&& result.metadata_source_id == Some(c.id@)
            &&& result.metadata_source_url == Some(c.source_url@)
            &&& result.notes == Some(metadata_note_of(c@))
        }),
{
}

/// The answer to a cover import.
#[derive(Clone, Debug)]
pub struct CoverImportResponse {
    pub status: String,
    pub detected_terms: Vec<String>,
    pub candidates: Vec<AlbumCandidate>,
    pub vinyl: Option<Vinyl>,
    pub error: Option<String>,
}

impl CoverImportResponse {
    /// The answer to an analysed cover: an admin always confirms a candidate, so any
    /// candidate makes the answer `needs_choice`; without one the analysis status stands.
    pub fn from_analysis(analysis: CoverImageAnalysis) -> (r: CoverImportResponse)
        ensures
            r.status@ == (if analysis.candidates.len() == 0 {
                analysis.status@
            } else {
                "needs_choice"@
            }),
            strs(r.detected_terms@) == strs(analysis.detected_terms@),
            r.candidates@ == analysis.candidates@,
            r.vinyl is None,
            r.error is None,
    {
        let CoverImageAnalysis { status, detected_terms, candidates } = analysis;
        let status = if candidates.len() == 0 {
            status
        } else {
            owned("needs_choice")
        };
        CoverImportResponse { status, detected_terms, candidates, vinyl: None, error: None }
    }

    /// The answer to a cover that could not be analysed.
    pub fn failed(error: String) -> (r: CoverImportResponse)
        ensures
            r.status@ == "error"@,
            r.detected_terms@.len() == 0,
            r.candidates@.len() == 0,
            r.vinyl is None,
            opt_view(r.error) == Some(error@),
    {
        CoverImportResponse {
            status: owned("error"),
            detected_terms: Vec::new(),
            candidates: Vec::new(),
            vinyl: None,
            error: Some(error),
        }
    }
}

/// How many vinyls a metadata refresh checked.
#[derive(Clone, Debug)]
pub struct MetadataRefreshResponse {
    pub checked: usize,
}

// ---------------------------------------------------------------------------
// Orphaned images
// ---------------------------------------------------------------------------

/// The upload path a stored cover URL refers to: what follows `/uploads/` in the trimmed
/// URL, without leading slashes, when that is not empty and holds no `..`.
pub open spec fn upload_path_of(url: Seq<char>) -> Option<Seq<char>> {
    let t = trim_ws(url);
    if starts_with(t, "/uploads/"@) {
        let p = trim_start(t.skip(9), CharClass::Exactly('/'));
        if p.len() > 0 && !contains(p, ".."@) {
            Some(p)
        } else {
            None
        }
    } else {
        None
    }
}

/// The upload paths that stored cover URLs refer to, each once, in order of first reference.
pub open spec fn referenced_paths_of(urls: Seq<Seq<char>>) -> Seq<Seq<char>>
    decreases urls.len(),
{
    if urls.len() == 0 {
        seq![]
    } else {
        let prev = referenced_paths_of(urls.drop_last());
        match upload_path_of(urls.last()) {
            Some(p) => if prev.contains(p) {
                prev
            } else {
                prev.push(p)
            },
            None => prev,
        }
    }
}

fn upload_path(url: &str) -> (r: Option<String>)
    ensures
        opt_view(r) == upload_path_of(url@),
{
    let t = trim_str(url);
    proof {
        reveal_strlit("/uploads/");
    }
    if !starts_with_exec(&t, &str_chars("/uploads/")) {
        return None;
    }
    let rest = crate::text::slice_chars(&t, 9, t.len());
    assert(rest@ =~= t@.skip(9));
    let k = CharClass::Exactly('/');
    let start = crate::text::span_exec(&rest, 0, &k, true);
    assert(rest@.skip(0) =~= rest@);
    let p = crate::text::slice_chars(&rest, start, rest.len());
    assert(p@ =~= trim_start(rest@, k));
    if p.len() > 0 && !contains_exec(&p, &str_chars("..")) {
        Some(string_of(&p))
    } else {
        None
    }
}

fn strings_contain(v: &Vec<String>, s: &String) -> (r: bool)
    ensures
        r == strs(v@).contains(s@),
{
    let mut i: usize = 0;
    while i < v.len()
        invariant
            i <= v.len(),
            forall|k: int| 0 <= k < i ==> v@[k]@ != s@,
        decreases v.len() - i,
    {
        if crate::text::str_eq(v[i].as_str(), s.as_str()) {
            assert(strs(v@)[i as int] == s@);
            return true;
        }
        i += 1;
    }
    assert forall|k: int| 0 <= k < strs(v@).len() implies strs(v@)[k] != s@ by {
        assert(strs(v@)[k] == v@[k]@);
    }
    false
}

/// The upload paths that the stored cover URLs refer to.
pub fn referenced_upload_paths(urls: &Vec<String>) -> (r: Vec<String>)
    ensures
        strs(r@) == referenced_paths_of(strs(urls@)),
{
    let mut out: Vec<String> = Vec::new();
    let mut i: usize = 0;
    while i < urls.len()
        invariant
            i <= urls.len(),
            strs(out@) == referenced_paths_of(strs(urls@).take(i as int)),
        decreases urls.len() - i,
    {
        assert(strs(urls@).take(i + 1).drop_last() =~= strs(urls@).take(i as int));
        assert(strs(urls@).take(i + 1).last() == urls@[i as int]@);
        match upload_path(urls[i].as_str()) {
            Some(p) => {
                if !strings_contain(&out, &p) {
                    let ghost before = strs(out@);
                    out.push(p);
                    assert(strs(out@) =~= before.push(out@.last()@));
                }
            },
            None => {},
        }
        i += 1;
    }
    assert(strs(urls@).take(urls.len() as int) =~= strs(urls@));
    out
}

/// The referenced paths are exactly the upload paths that some stored URL refers to, and
/// none is listed twice.
pub proof fn referenced_paths_are_exact(urls: Seq<Seq<char>>)
    ensures
        referenced_paths_of(urls).no_duplicates(),
        forall|p: Seq<char>|
            referenced_paths_of(urls).contains(p) <==> exists|i: int|
                0 <= i < urls.len() && upload_path_of(#[trigger] urls[i]) == Some(p),
    decreases urls.len(),
{
    if urls.len() > 0 {
        let prev_urls = urls.drop_last();
        referenced_paths_are_exact(prev_urls);
        let prev = referenced_paths_of(prev_urls);
        let cur = referenced_paths_of(urls);
        let last = urls.last();
        assert(last == urls[urls.len() - 1]);
        assert forall|i: int| 0 <= i < prev_urls.len() implies prev_urls[i] == urls[i] by {}
        match upload_path_of(last) {
            Some(q) => {
                if !prev.contains(q) {
                    assert(cur == prev.push(q));
                    assert forall|i: int, j: int| 0 <= i < cur.len() && 0 <= j < cur.len() && i != j implies cur[i] != cur[j] by {
                        if i == prev.len() as int {
                            assert(cur[i] == q);
                            assert(cur[j] == prev[j]);
                        } else if j == prev.len() as int {
                            assert(cur[j] == q);
                            assert(cur[i] == prev[i]);
                        } else {
                            assert(cur[i] == prev[i]);
                            assert(cur[j] == prev[j]);
                        }
                    }
                    assert forall|p: Seq<char>| cur.contains(p) implies exists|i: int|
                        0 <= i < urls.len() && upload_path_of(#[trigger] urls[i]) == Some(p) by {
                        let j = choose|j: int| 0 <= j < cur.len() && cur[j] == p;
                        if j < prev.len() {
                            assert(prev[j] == p);
                            assert(prev.contains(p));
                            let i = choose|i: int|
                                0 <= i < prev_urls.len() && upload_path_of(#[trigger] prev_urls[i]) == Some(p);
                            assert(urls[i] == prev_urls[i]);
                        } else {
                            assert(p == q);
                            assert(upload_path_of(urls[urls.len() - 1]) == Some(p));
                        }
                    }
                    assert forall|p: Seq<char>| (exists|i: int|
                        0 <= i < urls.len() && upload_path_of(#[trigger] urls[i]) == Some(p)) implies cur.contains(p) by {
                        let i = choose|i: int| 0 <= i < urls.len() && upload_path_of(#[trigger] urls[i]) == Some(p);
                        if i < urls.len() - 1 {
                            assert(upload_path_of(prev_urls[i]) == Some(p));
                            assert(prev.contains(p));
                            let j = choose|j: int| 0 <= j < prev.len() && prev[j] == p;
                            assert(cur[j] == p);
                        } else {
                            assert(p == q);
                            assert(cur[prev.len() as int] == q);
                        }
                    }
                } else {
                    assert(cur == prev);
                    assert forall|p: Seq<char>| cur.contains(p) implies exists|i: int|
                        0 <= i < urls.len() && upload_path_of(#[trigger] urls[i]) == Some(p) by {
                        let i = choose|i: int|
                            0 <= i < prev_urls.len() && upload_path_of(#[trigger] prev_urls[i]) == Some(p);
                        assert(urls[i] == prev_urls[i]);
                    }
                    assert forall|p: Seq<char>| (exists|i: int|
                        0 <= i < urls.len() && upload_path_of(#[trigger] urls[i]) == Some(p)) implies cur.contains(p) by {
                        let i = choose|i: int| 0 <= i < urls.len() && upload_path_of(#[trigger] urls[i]) == Some(p);
                        if i < urls.len() - 1 {
                            assert(upload_path_of(prev_urls[i]) == Some(p));
                        } else {
                            assert(p == q);
                        }
                    }
                }
            },
            None => {
                assert(cur == prev);
                assert forall|p: Seq<char>| cur.contains(p) implies exists|i: int|
                    0 <= i < urls.len() && upload_path_of(#[trigger] urls[i]) == Some(p) by {
                    let i = choose|i: int|
                        0 <= i < prev_urls.len() && upload_path_of(#[trigger] prev_urls[i]) == Some(p);
                    assert(urls[i] == prev_urls[i]);
                }
                assert forall|p: Seq<char>| (exists|i: int|
                    0 <= i < urls.len() && upload_path_of(#[trigger] urls[i]) == Some(p)) implies cur.contains(p) by {
                    let i = choose|i: int| 0 <= i < urls.len() && upload_path_of(#[trigger] urls[i]) == Some(p);
                    if i < urls.len() - 1 {
                        assert(upload_path_of(prev_urls[i]) == Some(p));
                    }
                }
            },
        }
    }
}

/// Whether a file (by its path under the upload directory) is referenced.
pub fn is_referenced(referenced: &Vec<String>, relative: &String) -> (r: bool)
    ensures
        r == strs(referenced@).contains(relative@),
{
    strings_contain(referenced, relative)
}

/// A file's path under the upload directory with `/` as separator.
pub fn upload_relative_path(path: &str) -> (r: String)
    ensures
        r@ == crate::text::replace(path@, "\\"@, "/"@),
{
    let v = str_chars(path);
    string_of(&crate::text::replace_exec(&v, &str_chars("\\"), &str_chars("/")))
}

/// Whether a file in the upload directory is an image that cleanup considers: its extension
/// is `jpg`, `jpeg`, `png`, `webp` or `gif`, in any case.
pub open spec fn is_cleanup_image(path: Seq<char>) -> bool {
    match extension_of(path) {
        Some(e) => {
            let l = ascii_lowercase(e);
            l == "jpg"@ || l == "jpeg"@ || l == "png"@ || l == "webp"@ || l == "gif"@
        },
        None => false,
    }
}

/// Whether a file in the upload directory is an image that cleanup considers.
pub fn is_cleanup_candidate_image(path: &str) -> (r: bool)
    ensures
        r == is_cleanup_image(path@),
{
    match path_extension(&str_chars(path)) {
        Some(e) => {
            let l = ascii_lowercase_exec(&e);
            crate::text::chars_eq(&l, &str_chars("jpg")) || crate::text::chars_eq(
                &l,
                &str_chars("jpeg"),
            ) || crate::text::chars_eq(&l, &str_chars("png")) || crate::text::chars_eq(
                &l,
                &str_chars("webp"),
            ) || crate::text::chars_eq(&l, &str_chars("gif"))
        },
        None => false,
    }
}

/// What a cleanup of orphaned images did.
#[derive(Clone, Debug)]
pub struct OrphanedImageCleanupResponse {
    pub deleted: usize,
    pub kept: usize,
    pub errors: Vec<String>,
}

impl OrphanedImageCleanupResponse {
    /// Nothing done yet.
    pub fn new() -> (r: OrphanedImageCleanupResponse)
        ensures
            r.deleted == 0,
            r.kept == 0,
            r.errors@.len() == 0,
    {
        OrphanedImageCleanupResponse { deleted: 0, kept: 0, errors: Vec::new() }
    }

    /// One more referenced image kept.
    pub fn record_kept(&mut self)
        requires
            old(self).kept < usize::MAX,
        ensures
            final(self).kept == old(self).kept + 1,
            final(self).deleted == old(self).deleted,
            final(self).errors@ == old(self).errors@,
    {
        self.kept = self.kept + 1;
    }

    /// One more orphaned image deleted.
    pub fn record_deleted(&mut self)
        requires
            old(self).deleted < usize::MAX,
        ensures
            final(self).deleted == old(self).deleted + 1,
            final(self).kept == old(self).kept,
            final(self).errors@ == old(self).errors@,
    {
        self.deleted = self.deleted + 1;
    }

    /// One more file that could not be handled: `{path}: {error}`.
    pub fn record_error(&mut self, path: &str, error: &str)
        ensures
            final(self).deleted == old(self).deleted,
            final(self).kept == old(self).kept,
            strs(final(self).errors@) == strs(old(self).errors@).push(path@ + ": "@ + error@),
    {
        let ghost before = strs(self.errors@);
        self.errors.push(crate::text::concat3(path, ": ", error));
        assert(strs(self.errors@) =~= before.push(path@ + ": "@ + error@));
    }
}

} // verus!
