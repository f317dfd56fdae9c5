//! Request-side logic of the HTTP client: errors, query strings, the
//! authentication headers a request carries, and response classification.

use vstd::prelude::*;

use crate::domain::{AuthType, KeyValuePair, ResponseData};
use crate::encoding::{base64_encode_bytes, base64_encode_str, url_decode, url_decode_str, url_encode, url_encode_str};
use crate::text::{
    append_chars, append_str, chars_eq_str, chars_of, contains, contains_str, ends_with, ends_with_str,
    find_from, find_spec, join, join_chars, lowercase, lowercase_chars, push_str, slice_chars,
    split_char, split_chars, split_once_char, split_once_exec, starts_with, starts_with_str,
    str_to_lowercase, string_of, trim, trim_str, views_of,
};
use vstd::utf8::encode_utf8;

verus! {

/// Well-defined error type for HTTP requests
#[derive(Debug, Clone, PartialEq)]
pub struct HttpError {
    pub summary: String,
    pub details: String,
}

impl HttpError {
    pub fn new(summary: &str, details: &str) -> (e: HttpError)
        ensures
            e.summary@ == summary@,
            e.details@ == details@,
    {
        HttpError { summary: summary.to_string(), details: details.to_string() }
    }

    /// The text shown for the error: its details.
    pub fn message(&self) -> (s: String)
        ensures
            s@ == self.details@,
    {
        self.details.clone()
    }
}

/// What went wrong with a request, as the transport reports it.
#[derive(Debug, Clone, Copy, PartialEq, Eq, Structural)]
pub enum TransportErrorKind {
    Timeout,
    Connect,
    Request,
    Body,
    Decode,
    Other,
}

/// The summary shown for a transport failure.
pub open spec fn transport_summary(kind: TransportErrorKind) -> Seq<char> {
    match kind {
        TransportErrorKind::Timeout => "Request timed out"@,
        TransportErrorKind::Connect => "Request failed: couldn't connect"@,
        _ => "Request failed"@,
    }
}

/// The prefix put before the transport's own message.
pub open spec fn transport_prefix(kind: TransportErrorKind) -> Seq<char> {
    match kind {
        TransportErrorKind::Timeout => "Request timed out - "@,
        TransportErrorKind::Connect => "Connection failed - "@,
        TransportErrorKind::Request => "Request setup error - "@,
        TransportErrorKind::Body => "Request body error - "@,
        TransportErrorKind::Decode => "Response decode error - "@,
        TransportErrorKind::Other => Seq::empty(),
    }
}

impl HttpError {
    /// The error reported for a failed transport call, from its kind and its
    /// message text.
    pub fn from_transport(kind: TransportErrorKind, text: &str) -> (e: HttpError)
        ensures
            e.summary@ == transport_summary(kind),
            e.details@ == transport_prefix(kind) + text@,
    {
        let summary = match kind {
            TransportErrorKind::Timeout => "Request timed out",
            TransportErrorKind::Connect => "Request failed: couldn't connect",
            _ => "Request failed",
        };
        let mut details = match kind {
            TransportErrorKind::Timeout => "Request timed out - ".to_string(),
            TransportErrorKind::Connect => "Connection failed - ".to_string(),
            TransportErrorKind::Request => "Request setup error - ".to_string(),
            TransportErrorKind::Body => "Request body error - ".to_string(),
            TransportErrorKind::Decode => "Response decode error - ".to_string(),
            TransportErrorKind::Other => String::new(),
        };
        push_str(&mut details, text);
        HttpError { summary: summary.to_string(), details }
    }
}

// ---------------------------------------------------------------------------
// Query parameters
// ---------------------------------------------------------------------------

/// The parameters that are sent: enabled, with a non-empty name.
pub open spec fn sent_params(params: Seq<KeyValuePair>) -> Seq<KeyValuePair> {
    params.filter(|p: KeyValuePair| p.enabled && p.key@.len() > 0)
}

/// `name=value`, both percent-encoded.
pub open spec fn encoded_param(p: KeyValuePair) -> Seq<char> {
    url_encode(p.key@) + "="@ + url_encode(p.value@)
}

/// The position of the first `c` in `s`.
pub open spec fn char_pos(s: Seq<char>, c: char) -> Option<int> {
    match split_once_char(s, c) {
        Some((a, _)) => Some(a.len() as int),
        None => None,
    }
}

/// The URL that query parameters are appended to: when the URL has a `?`, it
/// is cut at a `#` that follows the `?`, or at the `?` when there is no `#`.
pub open spec fn query_base(url: Seq<char>) -> Seq<char> {
    match char_pos(url, '?') {
        None => url,
        Some(q) => match char_pos(url, '#') {
            Some(f) => if f > q {
                url.take(f)
            } else {
                url
            },
            None => url.take(q),
        },
    }
}

/// The URL with the sent parameters appended as a query string; unchanged
/// when no parameter is sent.
pub open spec fn url_with_query(url: Seq<char>, params: Seq<KeyValuePair>) -> Seq<char> {
    let sent = sent_params(params);
    if sent.len() == 0 {
        url
    } else {
        query_base(url) + "?"@ + join(sent.map_values(|p: KeyValuePair| encoded_param(p)), "&"@)
    }
}

/// The index of the first `c`.
fn char_pos_exec(s: &[char], c: char) -> (r: Option<usize>)
    ensures
        match r {
            Some(i) => char_pos(s@, c) == Some(i as int) && i < s.len(),
            None => char_pos(s@, c) is None,
        },
{
    match split_once_exec(s, c) {
        Some((a, b)) => {
            proof {
                crate::text::lemma_split_once_len(s@, c);
            }
            Some(a.len())
        },
        None => None,
    }
}

/// Every parameter that is sent (enabled, with a name) appears in the URL as
/// its percent-encoded name, `=` and its percent-encoded value; without such
/// a parameter the URL stays as it is.
pub proof fn lemma_query_carries_encoded_params(url: Seq<char>, params: Seq<KeyValuePair>)
    ensures
        forall|i: int|
            0 <= i < params.len() && params[i].enabled && params[i].key@.len() > 0 ==> contains(
                url_with_query(url, params),
                url_encode((#[trigger] params[i]).key@) + "="@ + url_encode(params[i].value@),
            ),
        (forall|i: int| 0 <= i < params.len() ==> !(#[trigger] params[i]).enabled || params[i].key@.len() == 0)
            ==> url_with_query(url, params) == url,
{
    let pred = |p: KeyValuePair| p.enabled && p.key@.len() > 0;
    let sent = sent_params(params);
    let pieces = sent.map_values(|p: KeyValuePair| encoded_param(p));
    assert forall|i: int|
        0 <= i < params.len() && params[i].enabled && params[i].key@.len() > 0 implies contains(
        url_with_query(url, params),
        url_encode((#[trigger] params[i]).key@) + "="@ + url_encode(params[i].value@),
    ) by {
        params.lemma_filter_contains(pred, i);
        assert(sent.contains(params[i]));
        let k = choose|k: int| 0 <= k < sent.len() && sent[k] == params[i];
        assert(pieces[k] == url_encode(params[i].key@) + "="@ + url_encode(params[i].value@));
        crate::text::lemma_join_contains_part(pieces, "&"@, k);
        let j = choose|j: int| crate::text::occurs_at(join(pieces, "&"@), pieces[k], j);
        crate::text::lemma_occurs_in_concat(query_base(url) + "?"@, join(pieces, "&"@), pieces[k], j);
    }
    if forall|i: int| 0 <= i < params.len() ==> !(#[trigger] params[i]).enabled || params[i].key@.len() == 0 {
        if sent.len() > 0 {
            params.lemma_filter_pred(pred, 0);
            assert(pred(sent[0]));
            params.lemma_filter_contains_rev(pred, sent[0]);
            assert(params.contains(sent[0]));
        }
    }
}

/// Apply query parameters to a URL, handling URL encoding
pub fn apply_query_parameters(url: &str, params: &[KeyValuePair]) -> (r: String)
    ensures
        r@ == url_with_query(url@, params@),
        forall|i: int|
            0 <= i < params@.len() && params@[i].enabled && params@[i].key@.len() > 0 ==> contains(
                r@,
                url_encode((#[trigger] params@[i]).key@) + "="@ + url_encode(params@[i].value@),
            ),
{
    proof {
        lemma_query_carries_encoded_params(url@, params@);
    }
    let mut encoded: Vec<Vec<char>> = Vec::new();
    let mut i: usize = 0;
    let ghost pred = |p: KeyValuePair| p.enabled && p.key@.len() > 0;
    while i < params.len()
        invariant
            i <= params.len(),
            pred == (|p: KeyValuePair| p.enabled && p.key@.len() > 0),
            views_of(encoded@) == params@.take(i as int).filter(pred).map_values(|p: KeyValuePair| encoded_param(p)),
        decreases params.len() - i,
    {
        assert(params@.take(i + 1).drop_last() =~= params@.take(i as int));
        reveal_with_fuel(Seq::<_>::filter, 1);
        let ghost before = views_of(encoded@);
        let ghost prev_f = params@.take(i as int).filter(pred);
        if params[i].enabled && !params[i].key.as_str().is_empty() {
            let mut e: Vec<char> = Vec::new();
            append_str(&mut e, url_encode_str(params[i].key.as_str()).as_str());
            append_str(&mut e, "=");
            append_str(&mut e, url_encode_str(params[i].value.as_str()).as_str());
            assert(e@ == encoded_param(params@[i as int]));
            encoded.push(e);
            assert(views_of(encoded@) =~= before.push(e@));
            assert(params@.take(i + 1).filter(pred) == prev_f.push(params@[i as int]));
            assert(views_of(encoded@) =~= prev_f.push(params@[i as int]).map_values(
                |p: KeyValuePair| encoded_param(p),
            ));
        } else {
            assert(params@.take(i + 1).filter(pred) == prev_f);
        }
        i = i + 1;
    }
    assert(params@.take(params@.len() as int) =~= params@);
    assert(sent_params(params@) == params@.filter(pred));
    let u = chars_of(url);
    if encoded.len() == 0 {
        return url.to_string();
    }
    let base: Vec<char> = match char_pos_exec(u.as_slice(), '?') {
        None => u,
        Some(q) => match char_pos_exec(u.as_slice(), '#') {
            Some(f) => if f > q {
                slice_chars(u.as_slice(), 0, f)
            } else {
                u
            },
            None => slice_chars(u.as_slice(), 0, q),
        },
    };
    assert(base@ =~= query_base(url@));
    let mut out = base;
    append_str(&mut out, "?");
    let joined = join_chars(&encoded, chars_of("&").as_slice());
    append_chars(&mut out, joined.as_slice());
    string_of(out.as_slice())
}

// ---------------------------------------------------------------------------
// Authentication headers
// ---------------------------------------------------------------------------

/// The headers a request's authentication adds, as (name, value). Digest
/// authentication answers a challenge later and adds none here; OAuth2 and
/// JWT add one only when a token is stored.
pub open spec fn auth_header_views(auth: AuthType) -> Seq<(Seq<char>, Seq<char>)> {
    match auth {
        AuthType::Basic(b) => seq![
            (
                "Authorization"@,
                "Basic "@ + base64_encode_bytes(encode_utf8(b.username@ + ":"@ + b.password@)),
            ),
        ],
        AuthType::Key(k) => seq![(k.header@, k.value@)],
        AuthType::OAuth2(o) => match o.access_token {
            Some(t) => seq![("Authorization"@, "Bearer "@ + t@)],
            None => Seq::empty(),
        },
        AuthType::Jwt(j) => match j.access_token {
            Some(t) => seq![
                (
                    "Authorization"@,
                    match j.token_type {
                        Some(tt) => tt@,
                        None => "Bearer"@,
                    } + " "@ + t@,
                ),
            ],
            None => Seq::empty(),
        },
        _ => Seq::empty(),
    }
}

/// A list of enabled headers with these names and values.
pub open spec fn headers_are(hs: Seq<KeyValuePair>, views: Seq<(Seq<char>, Seq<char>)>) -> bool {
    &&& hs.len() == views.len()
    &&& forall|i: int|
        0 <= i < hs.len() ==> (#[trigger] hs[i]).enabled && hs[i].key@ == views[i].0 && hs[i].value@
            == views[i].1
}

fn header(key: String, value: String) -> (h: KeyValuePair)
    ensures
        h.key == key,
        h.value == value,
        h.enabled,
{
    KeyValuePair { key, value, enabled: true }
}

/// The headers that authentication adds to a request (applied to the
/// request and recorded with its response).
pub fn auth_headers(auth: &AuthType) -> (hs: Vec<KeyValuePair>)
    ensures
        headers_are(hs@, auth_header_views(*auth)),
{
    let mut hs: Vec<KeyValuePair> = Vec::new();
    match auth {
        AuthType::Basic(basic) => {
            let mut creds = basic.username.clone();
            push_str(&mut creds, ":");
            push_str(&mut creds, basic.password.as_str());
            let mut v = "Basic ".to_string();
            push_str(&mut v, base64_encode_str(creds.as_str()).as_str());
            hs.push(header("Authorization".to_string(), v));
        },
        AuthType::Key(key) => {
            hs.push(header(key.header.clone(), key.value.clone()));
        },
        AuthType::OAuth2(oauth) => {
            if let Some(token) = &oauth.access_token {
                let mut v = "Bearer ".to_string();
                push_str(&mut v, token.as_str());
                hs.push(header("Authorization".to_string(), v));
            }
        },
        AuthType::Jwt(jwt) => {
            if let Some(token) = &jwt.access_token {
                let mut v = match &jwt.token_type {
                    Some(tt) => tt.clone(),
                    None => "Bearer".to_string(),
                };
                push_str(&mut v, " ");
                push_str(&mut v, token.as_str());
                hs.push(header("Authorization".to_string(), v));
            }
        },
        _ => {},
    }
    hs
}

/// The path a digest challenge is answered for: the URL after its host
/// (from the first `/` after `://`), or `/`.
pub open spec fn digest_uri_of(url: Seq<char>) -> Seq<char> {
    match find_spec(url, "://"@, 0) {
        Some(e) => {
            let rest = url.skip(e + 3);
            match char_pos(rest, '/') {
                Some(p) => rest.skip(p),
                None => "/"@,
            }
        },
        None => "/"@,
    }
}

/// The URI used in a digest authentication answer.
pub fn digest_uri(url: &str) -> (r: String)
    ensures
        r@ == digest_uri_of(url@),
{
    let u = chars_of(url);
    let sep = chars_of("://");
    proof {
        reveal_strlit("://");
    }
    let us = u.as_slice();
    let ss = sep.as_slice();
    match find_from(us, ss, 0) {
        Some(e) => {
            proof {
                assert(sep@.len() == 3);
                assert(crate::text::occurs_at(us@, ss@, e as int));
                assert(e + 3 <= u.len());
                let j = choose|j: int| crate::text::first_occurrence_from(u@, sep@, 0, j);
                crate::text::lemma_first_occurrence_unique(u@, sep@, 0, e as int, j);
                assert(find_spec(u@, "://"@, 0) == Some(e as int));
            }
            let rest = slice_chars(u.as_slice(), e + 3, u.len());
            assert(rest@ =~= u@.skip(e + 3));
            match char_pos_exec(rest.as_slice(), '/') {
                Some(p) => {
                    let r = slice_chars(rest.as_slice(), p, rest.len());
                    assert(r@ =~= rest@.skip(p as int));
                    string_of(r.as_slice())
                },
                None => "/".to_string(),
            }
        },
        None => "/".to_string(),
    }
}

// ---------------------------------------------------------------------------
// Form bodies with file uploads
// ---------------------------------------------------------------------------

/// One field of a multipart form.
#[derive(Debug, Clone, PartialEq)]
pub enum FormPart {
    /// A text field.
    Text { name: String, value: String },
    /// A file field: the file at `path` is sent.
    File { name: String, path: String },
}

/// Percent-decoding with failures read as empty text.
pub open spec fn decode_or_empty(s: Seq<char>) -> Seq<char> {
    match url_decode(s) {
        Some(d) => d,
        None => Seq::empty(),
    }
}

/// The form field a `name=value` piece describes; a decoded value that starts
/// with `@` names a file. Pieces without `=` describe no field.
pub open spec fn form_part_of(piece: Seq<char>) -> Option<(Seq<char>, Seq<char>, bool)> {
    match split_once_char(piece, '=') {
        None => None,
        Some((k, v)) => {
            let name = decode_or_empty(k);
            let value = decode_or_empty(v);
            if starts_with(value, "@"@) {
                Some((name, value.drop_first(), true))
            } else {
                Some((name, value, false))
            }
        },
    }
}

/// The fields of a form body, in order.
pub open spec fn form_parts_of(pieces: Seq<Seq<char>>) -> Seq<(Seq<char>, Seq<char>, bool)>
    decreases pieces.len(),
{
    if pieces.len() == 0 {
        Seq::empty()
    } else {
        let prev = form_parts_of(pieces.drop_last());
        match form_part_of(pieces.last()) {
            Some(p) => prev.push(p),
            None => prev,
        }
    }
}

/// A request is sent as a multipart upload when it declares the URL-encoded
/// form content type and its body mentions a file with `@`.
pub open spec fn is_upload(headers: Seq<KeyValuePair>, body: Seq<char>) -> bool {
    (exists|i: int|
        0 <= i < headers.len() && lowercase((#[trigger] headers[i]).key@) == "content-type"@
            && headers[i].value@ == "application/x-www-form-urlencoded"@) && contains(body, "@"@)
}

pub open spec fn part_view(p: FormPart) -> (Seq<char>, Seq<char>, bool) {
    match p {
        FormPart::Text { name, value } => (name@, value@, false),
        FormPart::File { name, path } => (name@, path@, true),
    }
}

/// The multipart fields of a request body, or `None` when the body is sent as
/// it is.
pub fn upload_parts(headers: &[KeyValuePair], body: &str) -> (r: Option<Vec<FormPart>>)
    ensures
        match r {
            Some(parts) => is_upload(headers@, body@) && parts@.map_values(|p: FormPart| part_view(p))
                == form_parts_of(split_char(body@, '&')),
            None => !is_upload(headers@, body@),
        },
{
    let mut found = false;
    let mut i: usize = 0;
    while i < headers.len() && !found
        invariant
            i <= headers.len(),
            found ==> exists|j: int|
                0 <= j < headers@.len() && lowercase((#[trigger] headers@[j]).key@) == "content-type"@
                    && headers@[j].value@ == "application/x-www-form-urlencoded"@,
            !found ==> forall|j: int|
                0 <= j < i ==> !(lowercase((#[trigger] headers@[j]).key@) == "content-type"@
                    && headers@[j].value@ == "application/x-www-form-urlencoded"@),
        decreases headers.len() - i,
    {
        let k = lowercase_chars(chars_of(headers[i].key.as_str()).as_slice());
        let v = chars_of(headers[i].value.as_str());
        if chars_eq_str(k.as_slice(), "content-type") && chars_eq_str(v.as_slice(), "application/x-www-form-urlencoded") {
            found = true;
        }
        i = i + 1;
    }
    let b = chars_of(body);
    if !found || !contains_str(b.as_slice(), "@") {
        return None;
    }
    let pieces = split_chars(b.as_slice(), '&');
    let ghost pv = views_of(pieces@);
    let mut parts: Vec<FormPart> = Vec::new();
    let mut j: usize = 0;
    while j < pieces.len()
        invariant
            j <= pieces.len(),
            pv == views_of(pieces@),
            parts@.map_values(|p: FormPart| part_view(p)) == form_parts_of(pv.take(j as int)),
        decreases pieces.len() - j,
    {
        assert(pv.take(j + 1).drop_last() =~= pv.take(j as int));
        assert(pv.take(j + 1).last() == pieces@[j as int]@);
        let ghost before = parts@.map_values(|p: FormPart| part_view(p));
        match split_once_exec(pieces[j].as_slice(), '=') {
            None => {},
            Some((k, v)) => {
                let name = match url_decode_str(string_of(k.as_slice()).as_str()) {
                    Some(d) => d,
                    None => String::new(),
                };
                let value = match url_decode_str(string_of(v.as_slice()).as_str()) {
                    Some(d) => d,
                    None => String::new(),
                };
                let vv = chars_of(value.as_str());
                let part = if starts_with_str(vv.as_slice(), "@") {
                    proof {
                        reveal_strlit("@");
                    }
                    let rest = slice_chars(vv.as_slice(), 1, vv.len());
                    assert(rest@ =~= vv@.drop_first());
                    FormPart::File { name, path: string_of(rest.as_slice()) }
                } else {
                    FormPart::Text { name, value }
                };
                parts.push(part);
                assert(parts@.map_values(|p: FormPart| part_view(p)) =~= before.push(part_view(part)));
            },
        }
        j = j + 1;
    }
    assert(pv.take(pieces@.len() as int) =~= pv);
    Some(parts)
}

// ---------------------------------------------------------------------------
// Responses
// ---------------------------------------------------------------------------

/// Content type detection for response formatting
#[derive(Debug, Clone, Copy, PartialEq, Eq, Structural)]
pub enum ResponseFormat {
    Json,
    Xml,
    Html,
    PlainText,
    Binary,
    Unknown,
}

/// The format announced by an already lower-cased content type.
pub open spec fn format_of_lowered(l: Seq<char>) -> ResponseFormat {
    if contains(l, "json"@) {
        ResponseFormat::Json
    } else if contains(l, "xml"@) {
        ResponseFormat::Xml
    } else if contains(l, "html"@) {
        ResponseFormat::Html
    } else if contains(l, "text"@) || contains(l, "plain"@) {
        ResponseFormat::PlainText
    } else if contains(l, "application/octet-stream"@) || contains(l, "image/"@) || contains(l, "video/"@)
        || contains(l, "audio/"@) {
        ResponseFormat::Binary
    } else {
        ResponseFormat::Unknown
    }
}

/// The value of the first header named `content-type` in any case.
pub open spec fn content_type_value(hs: Seq<KeyValuePair>) -> Option<Seq<char>>
    decreases hs.len(),
{
    if hs.len() == 0 {
        None
    } else if lowercase(hs[0].key@) == "content-type"@ {
        Some(hs[0].value@)
    } else {
        content_type_value(hs.drop_first())
    }
}

/// The format guessed from a body's trimmed text: bracketed or braced text is
/// JSON, text in angle brackets is XML, text opening with `<html` or
/// `<!doctype html` (in any case) is HTML.
pub open spec fn format_of_content(t: Seq<char>) -> ResponseFormat {
    if (starts_with(t, "{"@) && ends_with(t, "}"@)) || (starts_with(t, "["@) && ends_with(t, "]"@)) {
        ResponseFormat::Json
    } else if starts_with(t, "<"@) && ends_with(t, ">"@) {
        ResponseFormat::Xml
    } else if starts_with(lowercase(t), "<html"@) || starts_with(lowercase(t), "<!doctype html"@) {
        ResponseFormat::Html
    } else {
        ResponseFormat::Unknown
    }
}

pub open spec fn format_language(f: ResponseFormat) -> Seq<char> {
    match f {
        ResponseFormat::Json => "json"@,
        ResponseFormat::Xml => "xml"@,
        ResponseFormat::Html => "html"@,
        _ => "text"@,
    }
}

/// What `serde_json::from_str` followed by `serde_json::to_string_pretty`
/// gives for a text; `None` when the text is not JSON.
pub uninterp spec fn json_pretty(s: Seq<char>) -> Option<Seq<char>>;

/// What re-writing a text with `quick_xml` (text trimmed, two-space indent)
/// gives; `None` when the text cannot be read as XML.
pub uninterp spec fn xml_pretty(s: Seq<char>) -> Option<Seq<char>>;

/// Pretty-prints JSON text with `serde_json`. The result is named by
/// `json_pretty`; serde_json's formatting rules are not restated.
#[verifier::external_body]
pub fn pretty_json(content: &str) -> (r: Option<String>)
    ensures
        match r {
            Some(s) => json_pretty(content@) == Some(s@),
            None => json_pretty(content@) is None,
        },
{
    match serde_json::from_str::<serde_json::Value>(content) {
        Ok(value) => serde_json::to_string_pretty(&value).ok(),
        Err(_) => None,
    }
}

/// Re-indents XML text with `quick_xml`, event by event. The result is named
/// by `xml_pretty`; quick_xml's writing rules are not restated.
#[verifier::external_body]
pub fn pretty_xml(content: &str) -> (r: Option<String>)
    ensures
        match r {
            Some(s) => xml_pretty(content@) == Some(s@),
            None => xml_pretty(content@) is None,
        },
{
    let mut reader = quick_xml::Reader::from_str(content);
    reader.config_mut().trim_text(true);
    let mut writer = quick_xml::Writer::new_with_indent(std::io::Cursor::new(Vec::new()), b' ', 2);
    loop {
        match reader.read_event().ok()? {
            quick_xml::events::Event::Eof => break,
            e => writer.write_event(e).ok()?,
        }
    }
    String::from_utf8(writer.into_inner().into_inner()).ok()
}

impl ResponseFormat {
    /// Classifies an already lower-cased content type.
    pub fn from_lowered(l: &[char]) -> (f: ResponseFormat)
        ensures
            f == format_of_lowered(l@),
    {
        if contains_str(l, "json") {
            ResponseFormat::Json
        } else if contains_str(l, "xml") {
            ResponseFormat::Xml
        } else if contains_str(l, "html") {
            ResponseFormat::Html
        } else if contains_str(l, "text") || contains_str(l, "plain") {
            ResponseFormat::PlainText
        } else if contains_str(l, "application/octet-stream") || contains_str(l, "image/") || contains_str(
            l,
            "video/",
        ) || contains_str(l, "audio/") {
            ResponseFormat::Binary
        } else {
            ResponseFormat::Unknown
        }
    }

    pub fn from_content_type(content_type: &str) -> (f: ResponseFormat)
        ensures
            f == format_of_lowered(lowercase(content_type@)),
    {
        let l = str_to_lowercase(content_type);
        ResponseFormat::from_lowered(chars_of(l.as_str()).as_slice())
    }

    /// The format announced by a `content-type` header, or else guessed from
    /// the body.
    pub fn detect_from_content(content: &str, headers: &[KeyValuePair]) -> (f: ResponseFormat)
        ensures
            f == match content_type_value(headers@) {
                Some(v) => format_of_lowered(lowercase(v)),
                None => format_of_content(trim(content@)),
            },
    {
        let mut i: usize = 0;
        assert(headers@.skip(0) =~= headers@);
        while i < headers.len()
            invariant
                i <= headers.len(),
                content_type_value(headers@.skip(i as int)) == content_type_value(headers@),
            decreases headers.len() - i,
        {
            let ghost rest = headers@.skip(i as int);
            assert(rest[0] == headers@[i as int]);
            assert(rest.drop_first() =~= headers@.skip(i + 1));
            let k = lowercase_chars(chars_of(headers[i].key.as_str()).as_slice());
            if chars_eq_str(k.as_slice(), "content-type") {
                return ResponseFormat::from_content_type(headers[i].value.as_str());
            }
            i = i + 1;
        }
        assert(headers@.skip(i as int) =~= Seq::<KeyValuePair>::empty());
        let t = trim_str(content);
        let ts = t.as_slice();
        if (starts_with_str(ts, "{") && ends_with_str(ts, "}")) || (starts_with_str(ts, "[") && ends_with_str(ts, "]")) {
            return ResponseFormat::Json;
        }
        if starts_with_str(ts, "<") && ends_with_str(ts, ">") {
            return ResponseFormat::Xml;
        }
        let lt = lowercase_chars(ts);
        if starts_with_str(lt.as_slice(), "<html") || starts_with_str(lt.as_slice(), "<!doctype html") {
            return ResponseFormat::Html;
        }
        ResponseFormat::Unknown
    }

    pub fn language_string(&self) -> (s: &'static str)
        ensures
            s@ == format_language(*self),
    {
        match self {
            ResponseFormat::Json => "json",
            ResponseFormat::Xml => "xml",
            ResponseFormat::Html => "html",
            ResponseFormat::PlainText => "text",
            ResponseFormat::Binary => "text",
            ResponseFormat::Unknown => "text",
        }
    }

    /// Format content with pretty printing for JSON and XML; content that
    /// does not parse is returned as it is.
    pub fn format_content(&self, content: &str) -> (r: String)
        ensures
            r@ == match *self {
                ResponseFormat::Json => match json_pretty(content@) {
                    Some(p) => p,
                    None => content@,
                },
                ResponseFormat::Xml => match xml_pretty(content@) {
                    Some(p) => p,
                    None => content@,
                },
                _ => content@,
            },
    {
        match self {
            ResponseFormat::Json => match pretty_json(content) {
                Some(p) => p,
                None => content.to_string(),
            },
            ResponseFormat::Xml => match pretty_xml(content) {
                Some(p) => p,
                None => content.to_string(),
            },
            _ => content.to_string(),
        }
    }
}


/// The record of an answered request: status and reason, how long it took,
/// the headers received and sent, the body and its size in bytes, and the
/// URL that was requested.
pub fn response_data(
    status_code: u16,
    status_text: Option<String>,
    latency: std::time::Duration,
    headers: Vec<KeyValuePair>,
    request_headers: Vec<KeyValuePair>,
    body: String,
    url: String,
) -> (r: ResponseData)
    ensures
        r.status_code == Some(status_code),
        r.status_text == status_text,
        r.latency == Some(latency),
        r.size == Some(encode_utf8(body@).len() as usize),
        r.headers == headers,
        r.request_headers == request_headers,
        r.body == body,
        r.url == Some(url),
{
    let size = body.as_str().len();
    ResponseData {
        status_code: Some(status_code),
        status_text,
        latency: Some(latency),
        size: Some(size),
        headers,
        request_headers,
        body,
        url: Some(url),
    }
}

} // verus!
