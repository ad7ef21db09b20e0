//! Album-cover recognition through a vision provider: which provider answers, what it is
//! asked, how its reply is read back into search terms, and how a refused request is retried
//! and reported.
use vstd::prelude::*;

use base64::Engine;

use crate::config::opt_view;
use crate::cover::{last_index_of, last_index_of_exec};
use crate::search_terms::{
    quoted_terms_from_text, quoted_terms_of, reverse_image_search_terms, reverse_image_terms_of,
    strs,
};
use crate::text::{
    append_chars, decimal, ends_with, ends_with_exec, join, join_exec, slice_chars, starts_with,
    starts_with_exec, str_chars, string_of, trim_start, trim_ws, trim_ws_exec,
    u64_to_decimal, CharClass,
};

verus! {

// ---------------------------------------------------------------------------
// What the provider is asked
// ---------------------------------------------------------------------------

/// The instruction sent with every album-cover photo.
pub fn album_cover_recognition_prompt() -> (r: &'static str)
    ensures
        r@ == "Identify this music album cover. Return only a JSON object, with no markdown and no explanatory text. The JSON schema is {\"search_terms\":[\"Artist - Album title\"]}. Include 1 to 6 strings. Prefer terms like 'Artist - Album title' when the artist is known. If only the album title is visible, return the album title alone rather than pairing it with unrelated label, subtitle, catalog, or marketing text. Do not invent details; include alternate guesses only if plausible."@,
{
    "Identify this music album cover. Return only a JSON object, with no markdown and no explanatory text. The JSON schema is {\"search_terms\":[\"Artist - Album title\"]}. Include 1 to 6 strings. Prefer terms like 'Artist - Album title' when the artist is known. If only the album title is visible, return the album title alone rather than pairing it with unrelated label, subtitle, catalog, or marketing text. Do not invent details; include alternate guesses only if plausible."
}

/// The system message of an OpenAI recognition request.
pub fn openai_system_message() -> (r: &'static str)
    ensures
        r@ == "You identify music album covers. Return JSON only. If uncertain, include several likely search terms."@,
{
    "You identify music album covers. Return JSON only. If uncertain, include several likely search terms."
}

/// The system instruction of a Gemini recognition request.
pub fn gemini_system_instruction() -> (r: &'static str)
    ensures
        r@ == "You identify music album covers. Output only valid JSON matching the requested schema. Do not explain your reasoning."@,
{
    "You identify music album covers. Output only valid JSON matching the requested schema. Do not explain your reasoning."
}

/// The most tokens a recognition reply may use.
pub fn recognition_max_tokens() -> (r: u32)
    ensures
        r == 220,
{
    220
}

/// A Gemini model's resource path: the name itself when it already starts with `models/`.
pub open spec fn gemini_model_path_of(model: Seq<char>) -> Seq<char> {
    if starts_with(model, "models/"@) {
        model
    } else {
        "models/"@ + model
    }
}

/// The resource path of a Gemini model.
pub fn gemini_model_path(model: &str) -> (r: String)
    ensures
        r@ == gemini_model_path_of(model@),
{
    let m = str_chars(model);
    let prefix = str_chars("models/");
    if starts_with_exec(&m, &prefix) {
        string_of(&m)
    } else {
        let mut out = prefix;
        append_chars(&mut out, &m);
        string_of(&out)
    }
}

/// A model path is already a model path.
pub proof fn gemini_model_path_is_idempotent(model: Seq<char>)
    ensures
        gemini_model_path_of(gemini_model_path_of(model)) == gemini_model_path_of(model),
{
    let p = "models/"@;
    if !starts_with(model, p) {
        assert((p + model).take(p.len() as int) =~= p);
    }
}

/// The OpenAI chat completions endpoint under a base URL.
pub fn openai_chat_url(base_url: &str) -> (r: String)
    ensures
        r@ == base_url@ + "/v1/chat/completions"@,
{
    crate::text::concat2(base_url, "/v1/chat/completions")
}

/// The Gemini content generation endpoint for a model under a base URL.
pub fn gemini_generate_url(base_url: &str, model: &str) -> (r: String)
    ensures
        r@ == base_url@ + "/v1beta/"@ + gemini_model_path_of(model@) + ":generateContent"@,
{
    let path = gemini_model_path(model);
    let mut out = str_chars(base_url);
    append_chars(&mut out, &str_chars("/v1beta/"));
    append_chars(&mut out, &str_chars(path.as_str()));
    append_chars(&mut out, &str_chars(":generateContent"));
    string_of(&out)
}

// ---------------------------------------------------------------------------
// The image
// ---------------------------------------------------------------------------

/// `data` begins with the bytes `p`.
pub open spec fn bytes_start_with(data: Seq<u8>, p: Seq<u8>) -> bool {
    p.len() <= data.len() && data.take(p.len() as int) == p
}

/// The bytes of an ASCII text.
pub open spec fn ascii_bytes(s: Seq<char>) -> Seq<u8> {
    Seq::new(s.len(), |i: int| s[i] as u8)
}

/// The image type told by an image's first bytes; JPEG when none is recognised.
pub open spec fn image_mime_type_of(data: Seq<u8>) -> Seq<char> {
    if bytes_start_with(data, seq![0x89u8, 0x50u8, 0x4eu8, 0x47u8]) {
        "image/png"@
    } else if bytes_start_with(data, ascii_bytes("GIF87a"@)) || bytes_start_with(
        data,
        ascii_bytes("GIF89a"@),
    ) {
        "image/gif"@
    } else if bytes_start_with(data, ascii_bytes("RIFF"@)) && data.len() >= 12
        && data.subrange(8, 12) == ascii_bytes("WEBP"@) {
        "image/webp"@
    } else {
        "image/jpeg"@
    }
}

fn bytes_start_with_exec(data: &[u8], p: &[u8]) -> (r: bool)
    ensures
        r == bytes_start_with(data@, p@),
{
    if p.len() > data.len() {
        return false;
    }
    let mut i: usize = 0;
    while i < p.len()
        invariant
            i <= p.len() <= data.len(),
            forall|k: int| 0 <= k < i ==> data@[k] == p@[k],
        decreases p.len() - i,
    {
        if data[i] != p[i] {
            assert(data@.take(p.len() as int)[i as int] != p@[i as int]);
            return false;
        }
        i += 1;
    }
    assert(data@.take(p.len() as int) =~= p@);
    true
}

fn bytes_at_eq(data: &[u8], from: usize, p: &[u8]) -> (r: bool)
    requires
        from + p.len() <= data.len(),
    ensures
        r == (data@.subrange(from as int, from + p.len()) == p@),
{
    let mut i: usize = 0;
    while i < p.len()
        invariant
            i <= p.len(),
            from + p.len() <= data.len(),
            forall|k: int| 0 <= k < i ==> data@[from + k] == p@[k],
        decreases p.len() - i,
    {
        if data[from + i] != p[i] {
            assert(data@.subrange(from as int, from + p.len())[i as int] != p@[i as int]);
            return false;
        }
        i += 1;
    }
    assert(data@.subrange(from as int, from + p.len()) =~= p@);
    true
}

/// The image type of an uploaded album-cover photo, told by its first bytes.
pub fn image_mime_type(image_data: &[u8]) -> (r: &'static str)
    ensures
        r@ == image_mime_type_of(image_data@),
{
    let png: [u8; 4] = [0x89, 0x50, 0x4e, 0x47];
    let gif87: [u8; 6] = [0x47, 0x49, 0x46, 0x38, 0x37, 0x61];
    let gif89: [u8; 6] = [0x47, 0x49, 0x46, 0x38, 0x39, 0x61];
    let riff: [u8; 4] = [0x52, 0x49, 0x46, 0x46];
    let webp: [u8; 4] = [0x57, 0x45, 0x42, 0x50];
    proof {
        reveal_strlit("GIF87a");
        reveal_strlit("GIF89a");
        reveal_strlit("RIFF");
        reveal_strlit("WEBP");
        assert(png@ =~= seq![0x89u8, 0x50u8, 0x4eu8, 0x47u8]);
        assert(gif87@ =~= ascii_bytes("GIF87a"@));
        assert(gif89@ =~= ascii_bytes("GIF89a"@));
        assert(riff@ =~= ascii_bytes("RIFF"@));
        assert(webp@ =~= ascii_bytes("WEBP"@));
    }
    if bytes_start_with_exec(image_data, png.as_slice()) {
        "image/png"
    } else if bytes_start_with_exec(image_data, gif87.as_slice()) || bytes_start_with_exec(
        image_data,
        gif89.as_slice(),
    ) {
        "image/gif"
    } else if bytes_start_with_exec(image_data, riff.as_slice()) && image_data.len() >= 12
        && bytes_at_eq(image_data, 8, webp.as_slice()) {
        "image/webp"
    } else {
        "image/jpeg"
    }
}

/// The base64 alphabet of RFC 4648: `A`–`Z`, `a`–`z`, `0`–`9`, `+`, `/`.
pub open spec fn base64_char(v: int) -> char {
    if v < 26 {
        (('A' as int) + v) as char
    } else if v < 52 {
        (('a' as int) + v - 26) as char
    } else if v < 62 {
        (('0' as int) + v - 52) as char
    } else if v == 62 {
        '+'
    } else {
        '/'
    }
}

/// Standard base64 with padding (RFC 4648, section 4): every three bytes become four
/// characters of six bits each; a last group of one or two bytes is padded with `=`.
pub open spec fn base64_of(data: Seq<u8>) -> Seq<char>
    decreases data.len(),
{
    if data.len() == 0 {
        seq![]
    } else if data.len() == 1 {
        let a = data[0] as int;
        seq![base64_char(a / 4), base64_char((a % 4) * 16), '=', '=']
    } else if data.len() == 2 {
        let a = data[0] as int;
        let b = data[1] as int;
        seq![base64_char(a / 4), base64_char((a % 4) * 16 + b / 16), base64_char((b % 16) * 4), '=']
    } else {
        let a = data[0] as int;
        let b = data[1] as int;
        let c = data[2] as int;
        seq![
            base64_char(a / 4),
            base64_char((a % 4) * 16 + b / 16),
            base64_char((b % 16) * 4 + c / 64),
            base64_char(c % 64),
        ] + base64_of(data.skip(3))
    }
}

/// `base64::engine::general_purpose::STANDARD.encode`: the standard alphabet with `=`
/// padding, as the crate documents it (RFC 4648, section 4).
#[verifier::external_body]
fn base64_encode(data: &[u8]) -> (r: String)
    ensures
        r@ == base64_of(data@),
{
    base64::engine::general_purpose::STANDARD.encode(data)
}

/// The photo in base64, as it is sent to a provider.
pub fn image_base64(image_data: &[u8]) -> (r: String)
    ensures
        r@ == base64_of(image_data@),
{
    base64_encode(image_data)
}

/// The photo as a `data:` URL.
pub fn image_data_url(image_data: &[u8]) -> (r: String)
    ensures
        r@ == "data:"@ + image_mime_type_of(image_data@) + ";base64,"@ + base64_of(image_data@),
{
    let mime = image_mime_type(image_data);
    let encoded = base64_encode(image_data);
    let mut out = str_chars("data:");
    append_chars(&mut out, &str_chars(mime));
    append_chars(&mut out, &str_chars(";base64,"));
    append_chars(&mut out, &str_chars(encoded.as_str()));
    string_of(&out)
}

// ---------------------------------------------------------------------------
// Which provider answers
// ---------------------------------------------------------------------------

/// A vision provider that recognises album covers.
#[derive(Clone, Copy, Debug, PartialEq, Eq, Structural)]
pub enum RecognitionProvider {
    Gemini,
    OpenAi,
}

/// Why a configured provider name gives no provider.
pub open spec fn unsupported_provider_message(name: Seq<char>) -> Seq<char> {
    "Unsupported ALBUM_COVER_RECOGNITION_PROVIDER '"@ + name
        + "'. Use 'gemini', 'openai', or 'disabled'."@
}

/// The provider named by the configuration, or why there is none.
pub open spec fn recognition_provider_of(name: Seq<char>) -> Result<RecognitionProvider, Seq<char>> {
    if name == "gemini"@ {
        Ok(RecognitionProvider::Gemini)
    } else if name == "openai"@ || name == "chatgpt"@ {
        Ok(RecognitionProvider::OpenAi)
    } else if name == "disabled"@ || name == "none"@ {
        Err("Album-cover recognition is disabled"@)
    } else {
        Err(unsupported_provider_message(name))
    }
}

/// Picks the recognition provider that the configuration names.
pub fn recognition_provider(name: &str) -> (r: Result<RecognitionProvider, String>)
    ensures
        match (r, recognition_provider_of(name@)) {
            (Ok(p), Ok(q)) => p == q,
            (Err(e), Err(m)) => e@ == m,
            _ => false,
        },
{
    if crate::text::str_eq(name, "gemini") {
        Ok(RecognitionProvider::Gemini)
    } else if crate::text::str_eq(name, "openai") || crate::text::str_eq(name, "chatgpt") {
        Ok(RecognitionProvider::OpenAi)
    } else if crate::text::str_eq(name, "disabled") || crate::text::str_eq(name, "none") {
        Err(crate::text::owned("Album-cover recognition is disabled"))
    } else {
        Err(crate::text::concat3(
            "Unsupported ALBUM_COVER_RECOGNITION_PROVIDER '",
            name,
            "'. Use 'gemini', 'openai', or 'disabled'.",
        ))
    }
}

/// The name a provider's replies are reported under.
pub open spec fn provider_label_of(p: RecognitionProvider) -> Seq<char> {
    match p {
        RecognitionProvider::Gemini => "Gemini"@,
        RecognitionProvider::OpenAi => "ChatGPT"@,
    }
}

/// Why a provider cannot be used without its API key.
pub open spec fn missing_key_message(p: RecognitionProvider) -> Seq<char> {
    match p {
        RecognitionProvider::Gemini => "Album-cover recognition provider 'gemini' requires GEMINI_API_KEY"@,
        RecognitionProvider::OpenAi => "Album-cover recognition provider 'openai' requires OPENAI_API_KEY"@,
    }
}

impl RecognitionProvider {
    /// The name the provider's replies are reported under.
    pub fn label(&self) -> (r: &'static str)
        ensures
            r@ == provider_label_of(*self),
    {
        match self {
            RecognitionProvider::Gemini => "Gemini",
            RecognitionProvider::OpenAi => "ChatGPT",
        }
    }

    /// The provider's API key, which must be configured.
    pub fn api_key(&self, key: Option<String>) -> (r: Result<String, String>)
        ensures
            match (key, r) {
                (Some(k), Ok(x)) => x@ == k@,
                (None, Err(e)) => e@ == missing_key_message(*self),
                _ => false,
            },
    {
        match key {
            Some(k) => Ok(k),
            None => match self {
                RecognitionProvider::Gemini => Err(crate::text::owned(
                    "Album-cover recognition provider 'gemini' requires GEMINI_API_KEY",
                )),
                RecognitionProvider::OpenAi => Err(crate::text::owned(
                    "Album-cover recognition provider 'openai' requires OPENAI_API_KEY",
                )),
            },
        }
    }
}

// ---------------------------------------------------------------------------
// Reading the reply
// ---------------------------------------------------------------------------

/// The text of an OpenAI reply: its first choice's message.
pub fn openai_reply_text(contents: Vec<String>) -> (r: Result<String, String>)
    ensures
        contents.len() > 0 ==> (r matches Ok(t) && t@ == contents@[0]@),
        contents.len() == 0 ==> (r matches Err(e) && e@ == "ChatGPT returned no album-cover response"@),
{
    let mut contents = contents;
    if contents.len() == 0 {
        Err(crate::text::owned("ChatGPT returned no album-cover response"))
    } else {
        Ok(contents.swap_remove(0))
    }
}

/// The text of a Gemini reply: the parts of its first candidate, one per line.
pub fn gemini_reply_text(candidates: &Vec<Vec<String>>) -> (r: Result<String, String>)
    ensures
        candidates.len() > 0 ==> (r matches Ok(t) && t@ == join(strs(candidates@[0]@), "\n"@)),
        candidates.len() == 0 ==> (r matches Err(e) && e@ == "Gemini returned no album-cover response"@),
{
    if candidates.len() == 0 {
        return Err(crate::text::owned("Gemini returned no album-cover response"));
    }
    let chars = crate::search_terms::strings_to_chars(&candidates[0]);
    let joined = join_exec(&chars, &str_chars("\n"));
    Ok(string_of(&joined))
}

/// A reply with its surrounding white space and any Markdown code fence (```, optionally
/// tagged `json`) taken off.
pub open spec fn strip_code_fence_of(value: Seq<char>) -> Seq<char> {
    let t = trim_ws(value);
    if starts_with(t, "```"@) {
        let a = t.skip(3);
        let b = if starts_with(a, "json"@) {
            a.skip(4)
        } else {
            a
        };
        let c = trim_start(b, CharClass::Whitespace);
        let d = if ends_with(c, "```"@) {
            c.take(c.len() - 3)
        } else {
            c
        };
        trim_ws(d)
    } else {
        t
    }
}

/// Takes a Markdown code fence off a reply.
pub fn strip_json_code_fence(value: &str) -> (r: String)
    ensures
        r@ == strip_code_fence_of(value@),
{
    let t = crate::text::trim_str(value);
    let fence = str_chars("```");
    proof {
        reveal_strlit("```");
        reveal_strlit("json");
    }
    if !starts_with_exec(&t, &fence) {
        return string_of(&t);
    }
    let a = slice_chars(&t, 3, t.len());
    let b = if starts_with_exec(&a, &str_chars("json")) {
        slice_chars(&a, 4, a.len())
    } else {
        a
    };
    let start = crate::text::span_exec(&b, 0, &CharClass::Whitespace, true);
    proof {
        assert(b@.skip(0) =~= b@);
        crate::text::lemma_span_bound(b@, CharClass::Whitespace, true);
    }
    let c = slice_chars(&b, start, b.len());
    assert(c@ =~= trim_start(b@, CharClass::Whitespace));
    let d = if ends_with_exec(&c, &fence) {
        slice_chars(&c, 0, c.len() - 3)
    } else {
        c
    };
    assert(c@.subrange(0, c@.len() - 3) =~= c@.take(c@.len() - 3));
    let e = trim_ws_exec(&d);
    string_of(&e)
}

/// The first position of `c` in `s`.
pub open spec fn first_index_of(s: Seq<char>, c: char) -> Option<int>
    decreases s.len(),
{
    if s.len() == 0 {
        None
    } else if s[0] == c {
        Some(0)
    } else {
        match first_index_of(s.drop_first(), c) {
            Some(i) => Some(i + 1),
            None => None,
        }
    }
}

fn first_index_of_exec(s: &Vec<char>, c: char) -> (r: Option<usize>)
    ensures
        match (r, first_index_of(s@, c)) {
            (Some(i), Some(j)) => i == j && i < s.len(),
            (None, None) => true,
            _ => false,
        },
{
    let mut i: usize = 0;
    assert(s@.skip(0) =~= s@);
    while i < s.len()
        invariant
            i <= s.len(),
            first_index_of(s@, c) == match first_index_of(s@.skip(i as int), c) {
                Some(k) => Some(k + i),
                None => None,
            },
        decreases s.len() - i,
    {
        assert(s@.skip(i as int)[0] == s@[i as int]);
        assert(s@.skip(i as int).drop_first() =~= s@.skip(i + 1));
        if s[i] == c {
            return Some(i);
        }
        i += 1;
    }
    None
}

/// The JSON object in a reply: the unfenced reply when it opens with `{`, else the text from
/// its first `{` to its last `}` when both are there in that order.
pub open spec fn json_payload_of(value: Seq<char>) -> Option<Seq<char>> {
    let s = trim_ws(strip_code_fence_of(value));
    if s.len() == 0 {
        None
    } else if s[0] == '{' {
        Some(s)
    } else {
        match (first_index_of(s, '{'), last_index_of(s, '}')) {
            (Some(a), Some(b)) => if a < b {
                Some(s.subrange(a, b + 1))
            } else {
                None
            },
            _ => None,
        }
    }
}

/// Finds the JSON object in a provider's reply.
pub fn json_payload(value: &str) -> (r: Option<String>)
    ensures
        opt_view(r) == json_payload_of(value@),
{
    let stripped = strip_json_code_fence(value);
    let s = crate::text::trim_str(stripped.as_str());
    if s.len() == 0 {
        return None;
    }
    if s[0] == '{' {
        return Some(string_of(&s));
    }
    let start = first_index_of_exec(&s, '{');
    let end = last_index_of_exec(&s, '}');
    match (start, end) {
        (Some(a), Some(b)) => {
            if a < b {
                Some(string_of(&slice_chars(&s, a, b + 1)))
            } else {
                None
            }
        },
        _ => None,
    }
}

/// The first 300 characters of a trimmed reply, or `<empty>`.
pub open spec fn response_preview_of(value: Seq<char>) -> Seq<char> {
    let t = trim_ws(value);
    let p = if t.len() <= 300 {
        t
    } else {
        t.take(300)
    };
    if p.len() == 0 {
        "<empty>"@
    } else {
        p
    }
}

/// A short preview of a reply for error messages.
pub fn response_preview(value: &str) -> (r: String)
    ensures
        r@ == response_preview_of(value@),
{
    let t = crate::text::trim_str(value);
    let p = if t.len() <= 300 {
        t
    } else {
        slice_chars(&t, 0, 300)
    };
    assert(t@.subrange(0, 300) =~= t@.take(300));
    if p.len() == 0 {
        crate::text::owned("<empty>")
    } else {
        string_of(&p)
    }
}

/// What a reply holds: a JSON object to read the search terms from, or the phrases quoted in
/// plain text.
#[derive(Clone, Debug)]
pub enum RecognitionContent {
    Json(String),
    Quoted(Vec<String>),
}

/// The view of what a reply holds.
pub enum RecognitionContentView {
    Json(Seq<char>),
    Quoted(Seq<Seq<char>>),
}

/// The view of what a reply holds.
pub open spec fn content_view(c: RecognitionContent) -> RecognitionContentView {
    match c {
        RecognitionContent::Json(s) => RecognitionContentView::Json(s@),
        RecognitionContent::Quoted(v) => RecognitionContentView::Quoted(strs(v@)),
    }
}

/// What a reply holds, or why it holds nothing usable.
pub open spec fn recognition_content_of(provider: Seq<char>, content: Seq<char>) -> Result<
    RecognitionContentView,
    Seq<char>,
> {
    match json_payload_of(content) {
        Some(p) => Ok(RecognitionContentView::Json(p)),
        None => if quoted_terms_of(content).len() > 0 {
            Ok(RecognitionContentView::Quoted(quoted_terms_of(content)))
        } else {
            Err(provider + " returned an empty or non-JSON album-cover response: "@
                + response_preview_of(content))
        },
    }
}

/// Reads a provider's reply: its JSON object, else its quoted phrases.
pub fn parse_album_recognition(provider: &str, content: &str) -> (r: Result<
    RecognitionContent,
    String,
>)
    ensures
        match (r, recognition_content_of(provider@, content@)) {
            (Ok(c), Ok(v)) => content_view(c) == v,
            (Err(e), Err(m)) => e@ == m,
            _ => false,
        },
{
    if let Some(payload) = json_payload(content) {
        return Ok(RecognitionContent::Json(payload));
    }
    let fallback = quoted_terms_from_text(content);
    if fallback.len() > 0 {
        return Ok(RecognitionContent::Quoted(fallback));
    }
    let preview = response_preview(content);
    Err(crate::text::concat3(
        provider,
        " returned an empty or non-JSON album-cover response: ",
        preview.as_str(),
    ))
}

/// Why a reply's JSON object could not be read.
pub fn recognition_json_error(provider: &str, error: &str, content: &str) -> (r: String)
    ensures
        r@ == "failed to parse "@ + provider@ + " album-cover response as JSON: "@ + error@
            + ". Response preview: "@ + response_preview_of(content@),
{
    let preview = response_preview(content);
    let mut out = str_chars("failed to parse ");
    append_chars(&mut out, &str_chars(provider));
    append_chars(&mut out, &str_chars(" album-cover response as JSON: "));
    append_chars(&mut out, &str_chars(error));
    append_chars(&mut out, &str_chars(". Response preview: "));
    append_chars(&mut out, &str_chars(preview.as_str()));
    string_of(&out)
}

/// The search terms a provider recognised, cleaned; there must be at least one.
pub fn recognition_terms(provider: &str, raw_terms: Vec<String>) -> (r: Result<Vec<String>, String>)
    ensures
        match r {
            Ok(t) => strs(t@) == reverse_image_terms_of(strs(raw_terms@)) && t.len() > 0,
            Err(e) => reverse_image_terms_of(strs(raw_terms@)).len() == 0 && e@ == provider@
                + " did not identify album-like search terms"@,
        },
{
    let terms = reverse_image_search_terms(raw_terms);
    if terms.len() == 0 {
        return Err(crate::text::concat2(provider, " did not identify album-like search terms"));
    }
    Ok(terms)
}

// ---------------------------------------------------------------------------
// Refused requests
// ---------------------------------------------------------------------------

/// How many attempts a recognition request gets.
pub open spec fn max_attempts() -> nat {
    3
}

/// Where a request stands: how many attempts were refused so far, and how long to wait
/// before the next one when the provider does not say.
#[derive(Clone, Copy, Debug, PartialEq, Eq, Structural)]
pub struct RetryState {
    pub attempt: u32,
    pub delay_secs: u64,
}

/// What to do after an attempt.
#[derive(Clone, Copy, Debug, PartialEq, Eq, Structural)]
pub enum RetryAction {
    /// The reply is read.
    Succeeded,
    /// Wait this many seconds, then try again.
    RetryAfter(u64),
    /// Give up and report the refusal.
    Failed,
}

/// A status in the success range.
pub open spec fn is_success_status(status: u16) -> bool {
    200 <= status < 300
}

/// The state before the first attempt: none refused, two seconds of default wait.
pub open spec fn initial_retry() -> RetryState {
    RetryState { attempt: 0, delay_secs: 2 }
}

/// A state reachable from the initial one: the default wait doubles with each refusal.
pub open spec fn retry_state_valid(s: RetryState) -> bool {
    &&& s.attempt < max_attempts()
    &&& s.delay_secs == (if s.attempt == 0 {
        2u64
    } else if s.attempt == 1 {
        4u64
    } else {
        8u64
    })
}

/// What follows an attempt that ended with `status`: a success is read; a rate limit (429)
/// before the last attempt waits (what `Retry-After` says, else the default) and doubles the
/// default; anything else fails.
pub open spec fn retry_step(s: RetryState, status: u16, retry_after: Option<u64>) -> (RetryAction, RetryState) {
    if is_success_status(status) {
        (RetryAction::Succeeded, s)
    } else if status == 429 && s.attempt + 1 < max_attempts() {
        (
            RetryAction::RetryAfter(
                match retry_after {
                    Some(d) => d,
                    None => s.delay_secs,
                },
            ),
            RetryState { attempt: (s.attempt + 1) as u32, delay_secs: (s.delay_secs * 2) as u64 },
        )
    } else {
        (RetryAction::Failed, s)
    }
}

impl RetryState {
    /// The state before the first attempt.
    pub fn new() -> (r: RetryState)
        ensures
            r == initial_retry(),
            retry_state_valid(r),
    {
        RetryState { attempt: 0, delay_secs: 2 }
    }

    /// Decides what follows an attempt that ended with `status`.
    pub fn step(&self, status: u16, retry_after: Option<u64>) -> (r: (RetryAction, RetryState))
        requires
            retry_state_valid(*self),
        ensures
            r == retry_step(*self, status, retry_after),
            retry_state_valid(r.1),
    {
        if 200 <= status && status < 300 {
            (RetryAction::Succeeded, RetryState { attempt: self.attempt, delay_secs: self.delay_secs })
        } else if status == 429 && self.attempt + 1 < 3 {
            let wait = match retry_after {
                Some(d) => d,
                None => self.delay_secs,
            };
            (
                RetryAction::RetryAfter(wait),
                RetryState { attempt: self.attempt + 1, delay_secs: self.delay_secs * 2 },
            )
        } else {
            (RetryAction::Failed, RetryState { attempt: self.attempt, delay_secs: self.delay_secs })
        }
    }
}

/// The waits of a run of attempts that ended with the given statuses, from state `s`, up to
/// the attempt that is read or fails.
pub open spec fn retries_of(s: RetryState, replies: Seq<(u16, Option<u64>)>) -> nat
    decreases replies.len(),
{
    if replies.len() == 0 {
        0
    } else {
        let (action, next) = retry_step(s, replies[0].0, replies[0].1);
        match action {
            RetryAction::RetryAfter(_) => 1 + retries_of(next, replies.drop_first()),
            _ => 0,
        }
    }
}

/// A recognition request is sent at most three times: whatever the provider answers, a run
/// of attempts waits and retries at most twice.
pub proof fn retries_are_bounded(s: RetryState, replies: Seq<(u16, Option<u64>)>)
    requires
        retry_state_valid(s),
    ensures
        s.attempt + retries_of(s, replies) < max_attempts(),
    decreases replies.len(),
{
    if replies.len() > 0 {
        let (action, next) = retry_step(s, replies[0].0, replies[0].1);
        if action is RetryAfter {
            retries_are_bounded(next, replies.drop_first());
        }
    }
}

/// The seconds a `Retry-After` header asks for, read as `u64::from_str` reads them.
pub fn retry_after_seconds(value: &str) -> (r: Option<u64>)
    ensures
        r == crate::text::parse_u64_spec(value@),
{
    crate::text::parse_u64(value)
}

/// The message of a provider's JSON error body (`error.message`), if the body is JSON and
/// has one.
pub uninterp spec fn spec_json_error_message(body: Seq<char>) -> Option<Seq<char>>;

/// The standard reason phrase of an HTTP status code, if it has one.
pub uninterp spec fn spec_status_reason(code: u16) -> Option<Seq<char>>;

/// `serde_json::from_str::<serde_json::Value>` on the body, then the string at
/// `error.message`. The contract names that result; it says nothing of what it is.
#[verifier::external_body]
fn json_error_message(body: &str) -> (r: Option<String>)
    ensures
        opt_view(r) == spec_json_error_message(body@),
{
    serde_json::from_str::<serde_json::Value>(body).ok().and_then(
        |value| value.get("error").and_then(|e| e.get("message")).and_then(|m| m.as_str()).map(
            |m| m.to_string(),
        ),
    )
}

/// `http::StatusCode::canonical_reason` of the code (which `StatusCode::from_u16` accepts for
/// every code from 100 to 999). The contract names that result.
#[verifier::external_body]
fn status_reason(code: u16) -> (r: Option<String>)
    requires
        100 <= code <= 999,
    ensures
        opt_view(r) == spec_status_reason(code),
{
    match reqwest::StatusCode::from_u16(code) {
        Ok(status) => status.canonical_reason().map(|reason| reason.to_string()),
        Err(_) => None,
    }
}

/// How `StatusCode` displays: the code, a space, and its reason phrase.
pub open spec fn status_display(code: u16, reason: Option<Seq<char>>) -> Seq<char> {
    decimal(code as nat) + " "@ + match reason {
        Some(r) => r,
        None => "<unknown status code>"@,
    }
}

/// What the provider said: the JSON error message, else the trimmed body, else a
/// placeholder.
pub open spec fn provider_message_of(body: Seq<char>, json_message: Option<Seq<char>>) -> Seq<char> {
    match json_message {
        Some(m) => m,
        None => if trim_ws(body).len() > 0 {
            trim_ws(body)
        } else {
            "no provider details"@
        },
    }
}

/// The report of a refused recognition request.
pub open spec fn provider_error_of(
    provider: Seq<char>,
    status: u16,
    body: Seq<char>,
    json_message: Option<Seq<char>>,
    reason: Option<Seq<char>>,
) -> Seq<char> {
    let m = provider_message_of(body, json_message);
    if status == 429 {
        provider
            + " rejected album-cover recognition with 429 Too Many Requests. This usually means the API key/project has no available quota or is rate-limited. Check provider billing/free-tier limits, wait for the limit to reset, or configure another API key/provider. Provider message: "@
            + m
    } else {
        provider + " album-cover recognition failed with HTTP "@ + status_display(status, reason)
            + ". Provider message: "@ + m
    }
}

/// Writes the report of a refused request from the error message found in its body and the
/// reason phrase of its status.
pub fn provider_error_text(
    provider: &str,
    status: u16,
    body: &str,
    json_message: Option<String>,
    reason: Option<String>,
) -> (r: String)
    ensures
        r@ == provider_error_of(provider@, status, body@, opt_view(json_message), opt_view(reason)),
{
    let message = match json_message {
        Some(m) => m,
        None => {
            let t = crate::text::trim_str(body);
            if t.len() > 0 {
                string_of(&t)
            } else {
                crate::text::owned("no provider details")
            }
        },
    };
    let mut out = str_chars(provider);
    if status == 429 {
        append_chars(
            &mut out,
            &str_chars(
                " rejected album-cover recognition with 429 Too Many Requests. This usually means the API key/project has no available quota or is rate-limited. Check provider billing/free-tier limits, wait for the limit to reset, or configure another API key/provider. Provider message: ",
            ),
        );
    } else {
        append_chars(&mut out, &str_chars(" album-cover recognition failed with HTTP "));
        append_chars(&mut out, &str_chars(u64_to_decimal(status as u64).as_str()));
        append_chars(&mut out, &str_chars(" "));
        match reason {
            Some(r) => append_chars(&mut out, &str_chars(r.as_str())),
            None => append_chars(&mut out, &str_chars("<unknown status code>")),
        }
        append_chars(&mut out, &str_chars(". Provider message: "));
    }
    append_chars(&mut out, &str_chars(message.as_str()));
    string_of(&out)
}

/// The report of a refused recognition request, as it is raised to the caller.
pub fn provider_error_message(provider: &str, status: u16, body: &str) -> (r: String)
    requires
        100 <= status <= 999,
    ensures
        r@ == provider_error_of(
            provider@,
            status,
            body@,
            spec_json_error_message(body@),
            spec_status_reason(status),
        ),
{
    let json_message = json_error_message(body);
    let reason = status_reason(status);
    provider_error_text(provider, status, body, json_message, reason)
}

} // verus!
