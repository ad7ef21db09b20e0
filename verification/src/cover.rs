//! Cover images: which URLs are served locally, how cached files are named, and which image
//! types are accepted.
use vstd::prelude::*;
use vstd::string::StringSliceAdditionalSpecFns;
use vstd::utf8::encode_utf8;

use crate::config::opt_view;
use crate::text::{
    append_chars, ascii_lower, char_ascii_lower, chars_eq, concat2, concat3, is_ascii_alnum,
    owned, slice_chars, split_by, split_exec, starts_with, starts_with_exec, str_chars, str_eq,
    string_of, trim_exec, trim_ws, views, CharClass,
};

verus! {

/// Where cached album covers are served from.
pub open spec fn cover_cache_prefix() -> Seq<char> {
    "/uploads/album-covers"@
}

/// A URL that Gavin serves itself: a cached cover or an upload.
pub open spec fn is_local_url(url: Seq<char>) -> bool {
    starts_with(url, cover_cache_prefix()) || starts_with(url, "/uploads/"@)
}

/// An absolute HTTP(S) URL.
pub open spec fn is_remote(url: Seq<char>) -> bool {
    starts_with(url, "https://"@) || starts_with(url, "http://"@)
}

/// Whether a URL is served by Gavin itself.
pub fn is_local_cover_url(url: &str) -> (r: bool)
    ensures
        r == is_local_url(url@),
{
    let u = str_chars(url);
    starts_with_exec(&u, &str_chars("/uploads/album-covers")) || starts_with_exec(
        &u,
        &str_chars("/uploads/"),
    )
}

/// Whether a URL is an absolute HTTP(S) URL.
pub fn is_remote_url(url: &str) -> (r: bool)
    ensures
        r == is_remote(url@),
{
    let u = str_chars(url);
    starts_with_exec(&u, &str_chars("https://")) || starts_with_exec(&u, &str_chars("http://"))
}

/// A character allowed in a cache file name: ASCII letter, digit, `-` or `_`.
pub open spec fn is_key_char(c: char) -> bool {
    is_ascii_alnum(c) || c == '-' || c == '_'
}

/// `s` with only its cache-name characters.
pub open spec fn cache_key_of(s: Seq<char>) -> Seq<char>
    decreases s.len(),
{
    if s.len() == 0 {
        seq![]
    } else if is_key_char(s.last()) {
        cache_key_of(s.drop_last()).push(s.last())
    } else {
        cache_key_of(s.drop_last())
    }
}

/// A cache file name stem from an identifier: only ASCII letters, digits, `-` and `_` kept.
pub fn cover_cache_key(value: &str) -> (r: String)
    ensures
        r@ == cache_key_of(value@),
{
    let v = str_chars(value);
    let mut out: Vec<char> = Vec::new();
    let mut i: usize = 0;
    while i < v.len()
        invariant
            i <= v.len(),
            v@ == value@,
            out@ == cache_key_of(v@.take(i as int)),
        decreases v.len() - i,
    {
        let c = v[i];
        assert(v@.take(i + 1).drop_last() =~= v@.take(i as int));
        assert(v@.take(i + 1).last() == c);
        if crate::text::char_is_ascii_alnum(c) || c == '-' || c == '_' {
            out.push(c);
        }
        i += 1;
    }
    assert(v@.take(v.len() as int) =~= v@);
    string_of(&out)
}

/// Cache keys hold only safe characters, and making a key of a key changes nothing.
pub proof fn cache_key_is_safe_and_idempotent(s: Seq<char>)
    ensures
        forall|i: int| 0 <= i < cache_key_of(s).len() ==> is_key_char(#[trigger] cache_key_of(s)[i]),
        cache_key_of(cache_key_of(s)) == cache_key_of(s),
    decreases s.len(),
{
    if s.len() > 0 {
        cache_key_is_safe_and_idempotent(s.drop_last());
        let k = cache_key_of(s.drop_last());
        if is_key_char(s.last()) {
            assert(k.push(s.last()).drop_last() =~= k);
            assert forall|i: int| 0 <= i < cache_key_of(s).len() implies is_key_char(
                #[trigger] cache_key_of(s)[i],
            ) by {
                if i < k.len() {
                    assert(cache_key_of(s)[i] == k[i]);
                }
            }
        }
    }
}

/// FNV-1a offset basis (64-bit).
pub open spec fn fnv_offset() -> u64 {
    0xcbf29ce484222325u64
}

/// FNV-1a prime (64-bit).
pub open spec fn fnv_prime() -> u64 {
    0x100000001b3u64
}

/// The 64-bit FNV-1a hash of a byte string.
pub open spec fn fnv1a(bytes: Seq<u8>) -> u64
    decreases bytes.len(),
{
    if bytes.len() == 0 {
        fnv_offset()
    } else {
        (fnv1a(bytes.drop_last()) ^ (bytes.last() as u64)).wrapping_mul(fnv_prime())
    }
}

/// The lower-case hexadecimal digit for `d` (below 16).
pub open spec fn hex_lower(d: int) -> char {
    if d < 10 {
        (('0' as int) + d) as char
    } else {
        (('a' as int) + d - 10) as char
    }
}

/// The upper-case hexadecimal digit for `d` (below 16).
pub open spec fn hex_upper(d: int) -> char {
    if d < 10 {
        (('0' as int) + d) as char
    } else {
        (('A' as int) + d - 10) as char
    }
}

/// The last `n` hexadecimal digits of `x`, most significant first, lower case.
pub open spec fn hex_digits(x: nat, n: nat) -> Seq<char>
    decreases n,
{
    if n == 0 {
        seq![]
    } else {
        hex_digits(x / 16, (n - 1) as nat).push(hex_lower((x % 16) as int))
    }
}

fn hex_digit_lower(d: u64) -> (r: char)
    requires
        d < 16,
    ensures
        r == hex_lower(d as int),
{
    if d < 10 {
        ((d as u8) + 48) as char
    } else {
        ((d as u8) + 87) as char
    }
}

fn hex_digit_upper(d: u8) -> (r: char)
    requires
        d < 16,
    ensures
        r == hex_upper(d as int),
{
    if d < 10 {
        (d + 48) as char
    } else {
        (d + 55) as char
    }
}

fn hex_digits_exec(x: u64, n: u32) -> (r: Vec<char>)
    ensures
        r@ == hex_digits(x as nat, n as nat),
    decreases n,
{
    if n == 0 {
        Vec::new()
    } else {
        let mut v = hex_digits_exec(x / 16, n - 1);
        v.push(hex_digit_lower(x % 16));
        v
    }
}

/// The stable cache name for a remote cover URL: `url-` and the 16 hexadecimal digits of the
/// FNV-1a hash of the URL's UTF-8 bytes.
pub open spec fn url_cache_key_of(url: Seq<char>) -> Seq<char> {
    "url-"@ + hex_digits(fnv1a(encode_utf8(url)) as nat, 16)
}

/// The stable cache name for a remote cover URL.
pub fn stable_url_cache_key(url: &str) -> (r: String)
    ensures
        r@ == url_cache_key_of(url@),
{
    let bytes = url.as_bytes();
    let mut hash: u64 = 0xcbf29ce484222325;
    let mut i: usize = 0;
    while i < bytes.len()
        invariant
            i <= bytes.len(),
            bytes@ == url.spec_bytes(),
            hash == fnv1a(bytes@.take(i as int)),
        decreases bytes.len() - i,
    {
        assert(bytes@.take(i + 1).drop_last() =~= bytes@.take(i as int));
        assert(bytes@.take(i + 1).last() == bytes@[i as int]);
        hash = (hash ^ (bytes[i] as u64)).wrapping_mul(0x100000001b3);
        i += 1;
    }
    assert(bytes@.take(bytes.len() as int) =~= bytes@);
    let mut out = str_chars("url-");
    let digits = hex_digits_exec(hash, 16);
    append_chars(&mut out, &digits);
    string_of(&out)
}

/// `s` before its first `c` (all of `s` when there is none): `str::split(c).next()`.
pub open spec fn before_first(s: Seq<char>, c: char) -> Seq<char>
    decreases s.len(),
{
    if s.len() == 0 {
        s
    } else if s[0] == c {
        seq![]
    } else {
        seq![s[0]] + before_first(s.drop_first(), c)
    }
}

/// `s` before its first `c`.
pub fn before_first_exec(s: &Vec<char>, c: char) -> (r: Vec<char>)
    ensures
        r@ == before_first(s@, c),
{
    let mut i: usize = 0;
    assert(s@.skip(0) =~= s@);
    while i < s.len() && s[i] != c
        invariant
            i <= s.len(),
            before_first(s@, c) == s@.take(i as int) + before_first(s@.skip(i as int), c),
        decreases s.len() - i,
    {
        assert(s@.skip(i as int)[0] == s@[i as int]);
        assert(s@.skip(i as int).drop_first() =~= s@.skip(i + 1));
        assert(s@.take(i + 1) =~= s@.take(i as int) + seq![s@[i as int]]);
        i += 1;
    }
    if i < s.len() {
        assert(s@.skip(i as int)[0] == s@[i as int]);
    } else {
        assert(s@.skip(i as int) =~= Seq::<char>::empty());
    }
    slice_chars(s, 0, i)
}

/// The ASCII lower-case form of `s`.
pub open spec fn ascii_lowercase(s: Seq<char>) -> Seq<char>
    decreases s.len(),
{
    if s.len() == 0 {
        seq![]
    } else {
        ascii_lowercase(s.drop_last()).push(ascii_lower(s.last()))
    }
}

/// The ASCII lower-case form of `s` (`str::to_ascii_lowercase`).
pub fn ascii_lowercase_exec(s: &Vec<char>) -> (r: Vec<char>)
    ensures
        r@ == ascii_lowercase(s@),
        r@.len() == s@.len(),
{
    let mut out: Vec<char> = Vec::new();
    let mut i: usize = 0;
    while i < s.len()
        invariant
            i <= s.len(),
            out@ == ascii_lowercase(s@.take(i as int)),
            out@.len() == i,
        decreases s.len() - i,
    {
        assert(s@.take(i + 1).drop_last() =~= s@.take(i as int));
        assert(s@.take(i + 1).last() == s@[i as int]);
        out.push(char_ascii_lower(s[i]));
        i += 1;
    }
    assert(s@.take(s.len() as int) =~= s@);
    out
}

/// The last position of `c` in `s`.
pub open spec fn last_index_of(s: Seq<char>, c: char) -> Option<int>
    decreases s.len(),
{
    if s.len() == 0 {
        None
    } else if s.last() == c {
        Some(s.len() - 1)
    } else {
        last_index_of(s.drop_last(), c)
    }
}

/// The last position of `c` in `s`.
pub fn last_index_of_exec(s: &Vec<char>, c: char) -> (r: Option<usize>)
    ensures
        match (r, last_index_of(s@, c)) {
            (Some(i), Some(j)) => i == j && i < s.len(),
            (None, None) => true,
            _ => false,
        },
{
    let mut j: usize = s.len();
    assert(s@.take(j as int) =~= s@);
    while j > 0
        invariant
            j <= s.len(),
            last_index_of(s@, c) == last_index_of(s@.take(j as int), c),
        decreases j,
    {
        assert(s@.take(j as int).last() == s@[j - 1]);
        assert(s@.take(j as int).drop_last() =~= s@.take(j - 1));
        if s[j - 1] == c {
            return Some(j - 1);
        }
        j -= 1;
    }
    None
}

/// The path components that name something: the pieces between `/` other than `.`.
pub open spec fn named_components(pieces: Seq<Seq<char>>) -> Seq<Seq<char>>
    decreases pieces.len(),
{
    if pieces.len() == 0 {
        seq![]
    } else if pieces.last() == "."@ {
        named_components(pieces.drop_last())
    } else {
        named_components(pieces.drop_last()).push(pieces.last())
    }
}

/// The file name of a path (`Path::file_name`): its last component, unless that is `..` or
/// there is none.
pub open spec fn file_name_of(path: Seq<char>) -> Option<Seq<char>> {
    let parts = named_components(split_by(path, CharClass::Exactly('/')));
    if parts.len() == 0 || parts.last() == ".."@ {
        None
    } else {
        Some(parts.last())
    }
}

/// The extension of a path (`Path::extension`): what follows the last `.` of the file name,
/// when that dot is not the name's first character.
pub open spec fn extension_of(path: Seq<char>) -> Option<Seq<char>> {
    match file_name_of(path) {
        None => None,
        Some(name) => match last_index_of(name, '.') {
            None => None,
            Some(k) => if k == 0 {
                None
            } else {
                Some(name.skip(k + 1))
            },
        },
    }
}

/// The extension of a path.
pub fn path_extension(path: &Vec<char>) -> (r: Option<Vec<char>>)
    ensures
        match (r, extension_of(path@)) {
            (Some(e), Some(x)) => e@ == x,
            (None, None) => true,
            _ => false,
        },
{
    let pieces = split_exec(path, &CharClass::Exactly('/'));
    let ghost pv = views(pieces@);
    let dot = str_chars(".");
    let mut named: Vec<Vec<char>> = Vec::new();
    let mut i: usize = 0;
    assert(views(named@) =~= Seq::<Seq<char>>::empty());
    while i < pieces.len()
        invariant
            i <= pieces.len(),
            pv == views(pieces@),
            dot@ == "."@,
            views(named@) == named_components(pv.take(i as int)),
        decreases pieces.len() - i,
    {
        assert(pv.take(i + 1).drop_last() =~= pv.take(i as int));
        assert(pv.take(i + 1).last() == pieces@[i as int]@);
        if !chars_eq(&pieces[i], &dot) {
            let ghost before = views(named@);
            named.push(slice_chars(&pieces[i], 0, pieces[i].len()));
            assert(pieces@[i as int]@.subrange(0, pieces@[i as int]@.len() as int) =~= pieces@[i as int]@);
            assert(views(named@) =~= before.push(pieces@[i as int]@));
        }
        i += 1;
    }
    assert(pv.take(pieces.len() as int) =~= pv);
    if named.len() == 0 {
        return None;
    }
    let last_index = named.len() - 1;
    assert(views(named@).last() == named@[last_index as int]@);
    let name = &named[last_index];
    if chars_eq(name, &str_chars("..")) {
        return None;
    }
    match last_index_of_exec(name, '.') {
        None => None,
        Some(k) => if k == 0 {
            None
        } else {
            let e = slice_chars(name, k + 1, name.len());
            assert(e@ =~= name@.skip(k + 1));
            Some(e)
        },
    }
}

/// The cache file extension named by a cover content type.
pub open spec fn extension_for_content_type(ct: Seq<char>) -> Option<Seq<char>> {
    if ct == "image/jpeg"@ || ct == "image/jpg"@ {
        Some("jpg"@)
    } else if ct == "image/png"@ {
        Some("png"@)
    } else if ct == "image/webp"@ {
        Some("webp"@)
    } else if ct == "image/gif"@ {
        Some("gif"@)
    } else {
        None
    }
}

/// The cache file extension for a URL's file extension.
pub open spec fn extension_for_file(ext: Seq<char>) -> Option<Seq<char>> {
    if ext == "jpg"@ || ext == "jpeg"@ {
        Some("jpg"@)
    } else if ext == "png"@ {
        Some("png"@)
    } else if ext == "webp"@ {
        Some("webp"@)
    } else if ext == "gif"@ {
        Some("gif"@)
    } else {
        None
    }
}

/// The cache file extension for a downloaded cover: from the content type (its media type,
/// trimmed, ASCII lower-cased), else from the URL path's extension (query removed).
pub open spec fn cover_extension_of(content_type: Option<Seq<char>>, url: Seq<char>) -> Option<Seq<char>> {
    let ct = match content_type {
        Some(v) => ascii_lowercase(trim_ws(before_first(v, ';'))),
        None => seq![],
    };
    match extension_for_content_type(ct) {
        Some(e) => Some(e),
        None => match extension_of(before_first(url, '?')) {
            Some(x) => extension_for_file(ascii_lowercase(x)),
            None => None,
        },
    }
}

/// Which of the literals `s` equals, for the cache extensions.
fn cache_extension(s: &Vec<char>, from_content_type: bool) -> (r: Option<&'static str>)
    ensures
        from_content_type ==> match (r, extension_for_content_type(s@)) {
            (Some(a), Some(b)) => a@ == b,
            (None, None) => true,
            _ => false,
        },
        !from_content_type ==> match (r, extension_for_file(s@)) {
            (Some(a), Some(b)) => a@ == b,
            (None, None) => true,
            _ => false,
        },
{
    let t = string_of(s);
    let t = t.as_str();
    if from_content_type {
        if str_eq(t, "image/jpeg") || str_eq(t, "image/jpg") {
            Some("jpg")
        } else if str_eq(t, "image/png") {
            Some("png")
        } else if str_eq(t, "image/webp") {
            Some("webp")
        } else if str_eq(t, "image/gif") {
            Some("gif")
        } else {
            None
        }
    } else {
        if str_eq(t, "jpg") || str_eq(t, "jpeg") {
            Some("jpg")
        } else if str_eq(t, "png") {
            Some("png")
        } else if str_eq(t, "webp") {
            Some("webp")
        } else if str_eq(t, "gif") {
            Some("gif")
        } else {
            None
        }
    }
}

/// The cache file extension (`jpg`, `png`, `webp` or `gif`) for a downloaded cover, from its
/// content type or else its URL; `None` for other types.
pub fn cover_file_extension(content_type: Option<&str>, url: &str) -> (r: Option<&'static str>)
    ensures
        match (r, cover_extension_of(
            match content_type {
                Some(c) => Some(c@),
                None => None,
            },
            url@,
        )) {
            (Some(a), Some(b)) => a@ == b,
            (None, None) => true,
            _ => false,
        },
{
    let ct: Vec<char> = match content_type {
        Some(v) => {
            let chars = str_chars(v);
            let first = before_first_exec(&chars, ';');
            let trimmed = trim_exec(&first, &CharClass::Whitespace);
            ascii_lowercase_exec(&trimmed)
        },
        None => Vec::new(),
    };
    if let Some(e) = cache_extension(&ct, true) {
        return Some(e);
    }
    let u = str_chars(url);
    let path = before_first_exec(&u, '?');
    match path_extension(&path) {
        Some(x) => {
            let lower = ascii_lowercase_exec(&x);
            cache_extension(&lower, false)
        },
        None => None,
    }
}

/// A cover cache extension is one of the four image types.
pub proof fn cover_extension_is_image_type(content_type: Option<Seq<char>>, url: Seq<char>)
    ensures
        cover_extension_of(content_type, url) matches Some(e) ==> (e == "jpg"@ || e == "png"@ || e
            == "webp"@ || e == "gif"@),
{
}

/// What to do with a cover URL given to a vinyl: nothing when blank, keep it when it is local
/// or not an HTTP(S) URL, or cache it under a key.
#[derive(Clone, Debug)]
pub enum CoverPlan {
    /// No cover.
    Skip,
    /// Use this URL as it is.
    Keep(String),
    /// Download the URL into the cache under this key.
    Cache { key: String, url: String },
}

/// The views of a cover plan.
pub enum CoverPlanView {
    Skip,
    Keep(Seq<char>),
    Cache { key: Seq<char>, url: Seq<char> },
}

/// The view of a cover plan.
pub open spec fn cover_plan_view(p: CoverPlan) -> CoverPlanView {
    match p {
        CoverPlan::Skip => CoverPlanView::Skip,
        CoverPlan::Keep(u) => CoverPlanView::Keep(u@),
        CoverPlan::Cache { key, url } => CoverPlanView::Cache { key: key@, url: url@ },
    }
}

/// How a cover URL is localised: trimmed; blank is skipped; local or non-HTTP URLs are kept;
/// remote ones are cached under the hint's key (when it has one) or the URL's stable key.
pub open spec fn cover_plan_of(key_hint: Option<Seq<char>>, trimmed: Seq<char>, url_key: Seq<char>) -> CoverPlanView {
    if trimmed.len() == 0 {
        CoverPlanView::Skip
    } else if is_local_url(trimmed) || !is_remote(trimmed) {
        CoverPlanView::Keep(trimmed)
    } else {
        let hinted = match key_hint {
            Some(h) => cache_key_of(h),
            None => seq![],
        };
        CoverPlanView::Cache {
            key: if hinted.len() > 0 {
                hinted
            } else {
                url_key
            },
            url: trimmed,
        }
    }
}

/// Decides how a cover URL is localised (the first step of `local_cover_url`).
pub fn cover_plan(key_hint: Option<&str>, cover_url: &str) -> (r: CoverPlan)
    ensures
        cover_plan_view(r) == cover_plan_of(
            match key_hint {
                Some(h) => Some(h@),
                None => None,
            },
            trim_ws(cover_url@),
            url_cache_key_of(trim_ws(cover_url@)),
        ),
{
    let t = crate::text::trim_str(cover_url);
    if t.len() == 0 {
        return CoverPlan::Skip;
    }
    let trimmed = string_of(&t);
    if is_local_cover_url(trimmed.as_str()) || !is_remote_url(trimmed.as_str()) {
        return CoverPlan::Keep(trimmed);
    }
    let hinted = match key_hint {
        Some(h) => cover_cache_key(h),
        None => String::new(),
    };
    assert(hinted@ == match key_hint {
        Some(h) => cache_key_of(h@),
        None => Seq::<char>::empty(),
    });
    let key = if str_chars(hinted.as_str()).len() > 0 {
        hinted
    } else {
        stable_url_cache_key(trimmed.as_str())
    };
    CoverPlan::Cache { key, url: trimmed }
}

/// The file name of a cached cover: the key, a dot, and the extension.
pub fn cover_cache_file_name(key: &str, extension: &str) -> (r: String)
    ensures
        r@ == key@ + "."@ + extension@,
{
    concat3(key, ".", extension)
}

/// The URL that serves a cached cover file.
pub fn cover_cache_url(file_name: &str) -> (r: String)
    ensures
        r@ == cover_cache_prefix() + "/"@ + file_name@,
{
    concat3("/uploads/album-covers", "/", file_name)
}

/// Largest cover image that is cached: 10 MiB.
pub open spec fn max_cached_cover_size() -> nat {
    10 * 1024 * 1024
}

/// Whether a downloaded cover is small enough to cache.
pub fn cover_size_allowed(size: u64) -> (r: bool)
    ensures
        r == (size <= max_cached_cover_size()),
{
    size <= 10 * 1024 * 1024
}

/// An image listed by the Cover Art Archive.
#[derive(Clone, Debug)]
pub struct CoverArtImage {
    pub image: Option<String>,
    pub front: Option<bool>,
    pub thumbnail_small: Option<String>,
    pub thumbnail_large: Option<String>,
    pub has_thumbnails: bool,
}

/// The URL chosen for a front image: small thumbnail, else large thumbnail, else the image.
pub open spec fn front_image_url(i: CoverArtImage) -> Option<Seq<char>> {
    if i.has_thumbnails && i.thumbnail_small is Some {
        opt_view(i.thumbnail_small)
    } else if i.has_thumbnails && i.thumbnail_large is Some {
        opt_view(i.thumbnail_large)
    } else {
        opt_view(i.image)
    }
}

/// The cover URL of the first front image that has one.
pub open spec fn front_cover_of(images: Seq<CoverArtImage>) -> Option<Seq<char>>
    decreases images.len(),
{
    if images.len() == 0 {
        None
    } else if images[0].front == Some(true) && front_image_url(images[0]) is Some {
        front_image_url(images[0])
    } else {
        front_cover_of(images.drop_first())
    }
}

/// Picks the cover URL from a Cover Art Archive listing.
pub fn front_cover_url(images: &Vec<CoverArtImage>) -> (r: Option<String>)
    ensures
        opt_view(r) == front_cover_of(images@),
{
    let mut i: usize = 0;
    assert(images@.skip(0) =~= images@);
    while i < images.len()
        invariant
            i <= images.len(),
            front_cover_of(images@) == front_cover_of(images@.skip(i as int)),
        decreases images.len() - i,
    {
        assert(images@.skip(i as int)[0] == images@[i as int]);
        assert(images@.skip(i as int).drop_first() =~= images@.skip(i + 1));
        let img = &images[i];
        if img.front == Some(true) {
            if img.has_thumbnails && img.thumbnail_small.is_some() {
                return crate::text::copy_opt_string(&img.thumbnail_small);
            }
            if img.has_thumbnails && img.thumbnail_large.is_some() {
                return crate::text::copy_opt_string(&img.thumbnail_large);
            }
            if img.image.is_some() {
                return crate::text::copy_opt_string(&img.image);
            }
        }
        i += 1;
    }
    None
}


/// The file names a cached cover may have under its key, in the order they are looked for.
pub open spec fn cache_file_candidates_of(key: Seq<char>) -> Seq<Seq<char>> {
    seq![key + ".jpg"@, key + ".jpeg"@, key + ".png"@, key + ".webp"@, key + ".gif"@]
}

/// The file names a cached cover may have under its key.
pub fn cover_cache_candidates(key: &str) -> (r: Vec<String>)
    ensures
        r@.len() == 5,
        forall|i: int| 0 <= i < 5 ==> (#[trigger] r@[i])@ == cache_file_candidates_of(key@)[i],
{
    let mut v: Vec<String> = Vec::new();
    v.push(concat2(key, ".jpg"));
    v.push(concat2(key, ".jpeg"));
    v.push(concat2(key, ".png"));
    v.push(concat2(key, ".webp"));
    v.push(concat2(key, ".gif"));
    v
}

/// Refuses a cover download larger than 10 MiB.
pub fn check_cover_size(size: u64) -> (r: Result<(), String>)
    ensures
        r is Ok <==> size <= max_cached_cover_size(),
        r matches Err(e) ==> e@ == "cover image is larger than 10MB"@,
{
    if cover_size_allowed(size) {
        Ok(())
    } else {
        Err(owned("cover image is larger than 10MB"))
    }
}

/// The extension to cache a cover under, which the download must have.
pub fn require_cover_extension(extension: Option<&'static str>) -> (r: Result<&'static str, String>)
    ensures
        match extension {
            Some(e) => r matches Ok(x) && x@ == e@,
            None => r matches Err(m) && m@ == "unsupported cover image type"@,
        },
{
    match extension {
        Some(e) => Ok(e),
        None => Err(owned("unsupported cover image type")),
    }
}

/// The temporary name a cover written at `nanos` nanoseconds takes before its final name.
pub fn cover_temp_file_name(file_name: &str, nanos: i64) -> (r: String)
    ensures
        r@ == file_name@ + "."@ + crate::text::signed_decimal(nanos as int) + ".tmp"@,
{
    let mut v = str_chars(file_name);
    append_chars(&mut v, &str_chars("."));
    append_chars(&mut v, &str_chars(crate::text::i64_to_decimal(nanos).as_str()));
    append_chars(&mut v, &str_chars(".tmp"));
    string_of(&v)
}

/// The new cover URL of a stored vinyl after localising its cover: the local URL when one
/// was found and it differs from the stored one.
pub open spec fn cover_change_of(stored: Seq<char>, local: Option<Seq<char>>) -> Option<Seq<char>> {
    match local {
        Some(l) => if l != stored {
            Some(l)
        } else {
            None
        },
        None => None,
    }
}

/// Decides whether localising a stored cover changed its URL.
pub fn cover_url_change(stored: &str, local: Option<String>) -> (r: Option<String>)
    ensures
        opt_view(r) == cover_change_of(stored@, opt_view(local)),
{
    match local {
        Some(l) => if str_eq(l.as_str(), stored) {
            None
        } else {
            Some(l)
        },
        None => None,
    }
}

} // verus!
