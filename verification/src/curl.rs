//! Reading and writing requests as cURL command lines.

use vstd::prelude::*;

use crate::domain::{method_from_upper, method_has_body, method_name, HttpMethod, KeyValuePair, RequestData};
use crate::text::{
    append_str, chars_eq_str, chars_of, char_is_alphanumeric, is_alphanumeric_char,
    join, join_chars, lowercase, lowercase_chars, replace_all, replace_chars, split_once_char,
    split_once_exec, starts_with, starts_with_str, string_of, string_views, trim, trim_chars,
    trim_str, uppercase, views_of,
};

verus! {

/// Parsed result from a cURL command
pub struct ParsedCurl {
    pub method: HttpMethod,
    pub url: String,
    pub headers: Vec<KeyValuePair>,
    pub body: Option<String>,
    pub basic_auth: Option<(String, String)>,
    pub is_multipart: bool,
}

// ---------------------------------------------------------------------------
// Tokenizer
// ---------------------------------------------------------------------------

/// Where the tokenizer stands inside a word.
#[derive(Debug, Clone, Copy, PartialEq, Eq, Structural)]
pub enum TokMode {
    /// Outside quotes.
    Plain,
    /// Inside single quotes.
    Single,
    /// Inside double quotes.
    Double,
    /// Inside double quotes, right after a backslash.
    DoubleEscape,
    /// Inside a `$` variable reference.
    Dollar,
}

/// The tokenizer's state: its mode, the word being read and the words read.
#[verifier::ext_equal]
pub struct TokState {
    pub mode: TokMode,
    pub cur: Seq<char>,
    pub toks: Seq<Seq<char>>,
}

/// Characters that continue a `$` variable reference.
pub open spec fn is_var_char(c: char) -> bool {
    is_alphanumeric_char(c) || c == '_' || c == '{' || c == '}' || c == '(' || c == ')'
}

/// The character a backslash escape inside double quotes stands for.
pub open spec fn unescape(c: char) -> char {
    if c == 'n' {
        '\n'
    } else if c == 't' {
        '\t'
    } else if c == 'r' {
        '\r'
    } else {
        c
    }
}

/// One character read outside quotes.
pub open spec fn plain_step(st: TokState, c: char) -> TokState {
    if c == ' ' || c == '\t' {
        if st.cur.len() > 0 {
            TokState { mode: TokMode::Plain, cur: Seq::empty(), toks: st.toks.push(st.cur) }
        } else {
            TokState { mode: TokMode::Plain, ..st }
        }
    } else if c == '\'' {
        TokState { mode: TokMode::Single, ..st }
    } else if c == '"' {
        TokState { mode: TokMode::Double, ..st }
    } else if c == '$' {
        TokState { mode: TokMode::Dollar, cur: st.cur.push(c), ..st }
    } else {
        TokState { mode: TokMode::Plain, cur: st.cur.push(c), ..st }
    }
}

/// One character read in any mode.
pub open spec fn tok_step(st: TokState, c: char) -> TokState {
    match st.mode {
        TokMode::Plain => plain_step(st, c),
        TokMode::Single => if c == '\'' {
            TokState { mode: TokMode::Plain, ..st }
        } else {
            TokState { cur: st.cur.push(c), ..st }
        },
        TokMode::Double => if c == '"' {
            TokState { mode: TokMode::Plain, ..st }
        } else if c == '\\' {
            TokState { mode: TokMode::DoubleEscape, ..st }
        } else {
            TokState { cur: st.cur.push(c), ..st }
        },
        TokMode::DoubleEscape => TokState { mode: TokMode::Double, cur: st.cur.push(unescape(c)), ..st },
        TokMode::Dollar => if is_var_char(c) {
            TokState { cur: st.cur.push(c), ..st }
        } else {
            plain_step(TokState { mode: TokMode::Plain, ..st }, c)
        },
    }
}

/// The state after reading `s` from state `st`.
pub open spec fn tok_run(st: TokState, s: Seq<char>) -> TokState
    decreases s.len(),
{
    if s.len() == 0 {
        st
    } else {
        tok_step(tok_run(st, s.drop_last()), s.last())
    }
}

pub open spec fn tok_init() -> TokState {
    TokState { mode: TokMode::Plain, cur: Seq::empty(), toks: Seq::empty() }
}

/// Line continuations (a backslash before a line break) become spaces.
pub open spec fn join_continuations(s: Seq<char>) -> Seq<char> {
    replace_all(replace_all(s, "\\\n"@, " "@), "\\\r\n"@, " "@)
}

/// The words of a command line: quotes group, backslash escapes act inside
/// double quotes, and a backslash that is the last character inside double
/// quotes makes the whole line unreadable.
pub open spec fn tokenize_spec(input: Seq<char>) -> Option<Seq<Seq<char>>> {
    let st = tok_run(tok_init(), join_continuations(input));
    if st.mode == TokMode::DoubleEscape {
        None
    } else if st.cur.len() > 0 {
        Some(st.toks.push(st.cur))
    } else {
        Some(st.toks)
    }
}

/// One tokenizer step on concrete state.
fn tok_step_exec(mode: &mut TokMode, cur: &mut Vec<char>, toks: &mut Vec<Vec<char>>, c: char)
    ensures
        ({
            let next = tok_step(
                TokState { mode: *old(mode), cur: old(cur)@, toks: views_of(old(toks)@) },
                c,
            );
            *final(mode) == next.mode && final(cur)@ == next.cur && views_of(final(toks)@) == next.toks
        }),
{
    let ghost old_toks = views_of(toks@);
    match *mode {
        TokMode::Single => {
            if c == '\'' {
                *mode = TokMode::Plain;
            } else {
                cur.push(c);
            }
            return;
        },
        TokMode::Double => {
            if c == '"' {
                *mode = TokMode::Plain;
            } else if c == '\\' {
                *mode = TokMode::DoubleEscape;
            } else {
                cur.push(c);
            }
            return;
        },
        TokMode::DoubleEscape => {
            let u = if c == 'n' {
                '\n'
            } else if c == 't' {
                '\t'
            } else if c == 'r' {
                '\r'
            } else {
                c
            };
            cur.push(u);
            *mode = TokMode::Double;
            return;
        },
        TokMode::Dollar => {
            if char_is_alphanumeric(c) || c == '_' || c == '{' || c == '}' || c == '(' || c == ')' {
                cur.push(c);
                return;
            }
            *mode = TokMode::Plain;
        },
        TokMode::Plain => {},
    }
    // Plain mode.
    if c == ' ' || c == '\t' {
        if cur.len() > 0 {
            let mut word: Vec<char> = Vec::new();
            std::mem::swap(cur, &mut word);
            toks.push(word);
            assert(views_of(toks@) =~= old_toks.push(word@));
        }
    } else if c == '\'' {
        *mode = TokMode::Single;
    } else if c == '"' {
        *mode = TokMode::Double;
    } else if c == '$' {
        cur.push(c);
        *mode = TokMode::Dollar;
    } else {
        cur.push(c);
    }
}

/// The words of a command line, as character vectors.
pub fn tokenize_chars(input: &[char]) -> (r: Option<Vec<Vec<char>>>)
    ensures
        match r {
            Some(v) => tokenize_spec(input@) == Some(views_of(v@)),
            None => tokenize_spec(input@) is None,
        },
{
    proof {
        reveal_strlit("\\\n");
        reveal_strlit("\\\r\n");
    }
    let s1 = replace_chars(input, chars_of("\\\n").as_slice(), chars_of(" ").as_slice());
    let s = replace_chars(s1.as_slice(), chars_of("\\\r\n").as_slice(), chars_of(" ").as_slice());
    let mut mode = TokMode::Plain;
    let mut cur: Vec<char> = Vec::new();
    let mut toks: Vec<Vec<char>> = Vec::new();
    let mut i: usize = 0;
    assert(views_of(toks@) =~= Seq::<Seq<char>>::empty());
    assert(s@.take(0) =~= Seq::<char>::empty());
    while i < s.len()
        invariant
            i <= s.len(),
            s@ == join_continuations(input@),
            tok_run(tok_init(), s@.take(i as int)) == (TokState {
                mode: mode,
                cur: cur@,
                toks: views_of(toks@),
            }),
        decreases s.len() - i,
    {
        assert(s@.take(i + 1).drop_last() =~= s@.take(i as int));
        tok_step_exec(&mut mode, &mut cur, &mut toks, s[i]);
        i = i + 1;
    }
    assert(s@.take(s@.len() as int) =~= s@);
    if mode == TokMode::DoubleEscape {
        return None;
    }
    if cur.len() > 0 {
        let ghost before = views_of(toks@);
        let ghost w = cur@;
        toks.push(cur);
        assert(views_of(toks@) =~= before.push(w));
    }
    Some(toks)
}

/// Tokenize a cURL command, handling single quotes, double quotes,
/// and backslash-escaped newlines.
pub fn tokenize_curl(input: &str) -> (r: Option<Vec<String>>)
    ensures
        match r {
            Some(v) => tokenize_spec(input@) == Some(string_views(v@)),
            None => tokenize_spec(input@) is None,
        },
{
    let v = chars_of(input);
    match tokenize_chars(v.as_slice()) {
        None => None,
        Some(toks) => {
            let mut out: Vec<String> = Vec::new();
            let mut i: usize = 0;
            while i < toks.len()
                invariant
                    i <= toks.len(),
                    string_views(out@) == views_of(toks@).take(i as int),
                decreases toks.len() - i,
            {
                let w = string_of(toks[i].as_slice());
                let ghost before = string_views(out@);
                out.push(w);
                assert(string_views(out@) =~= before.push(w@));
                assert(string_views(out@) =~= views_of(toks@).take(i + 1));
                i = i + 1;
            }
            assert(views_of(toks@).take(toks@.len() as int) =~= views_of(toks@));
            Some(out)
        },
    }
}

// ---------------------------------------------------------------------------
// Parser
// ---------------------------------------------------------------------------

/// What the parser has gathered so far.
pub struct CurlAcc {
    pub method: Option<HttpMethod>,
    pub url: Option<Seq<char>>,
    pub headers: Seq<(Seq<char>, Seq<char>)>,
    pub body: Option<Seq<char>>,
    pub basic_auth: Option<(Seq<char>, Seq<char>)>,
    pub is_data_get: bool,
    pub is_multipart: bool,
}

pub open spec fn curl_acc_init() -> CurlAcc {
    CurlAcc {
        method: None,
        url: None,
        headers: Seq::empty(),
        body: None,
        basic_auth: None,
        is_data_get: false,
        is_multipart: false,
    }
}

/// `Key: Value`, both sides trimmed.
pub open spec fn header_of(v: Seq<char>) -> Option<(Seq<char>, Seq<char>)> {
    match split_once_char(v, ':') {
        Some((k, val)) => Some((trim(k), trim(val))),
        None => None,
    }
}

/// `user:password`, or a bare user with an empty password.
pub open spec fn user_of(v: Seq<char>) -> (Seq<char>, Seq<char>) {
    match split_once_char(v, ':') {
        Some((u, p)) => (u, p),
        None => (v, Seq::empty()),
    }
}

/// A header named `content-type` in any case is present.
pub open spec fn has_content_type(hs: Seq<(Seq<char>, Seq<char>)>) -> bool {
    exists|i: int| 0 <= i < hs.len() && lowercase(#[trigger] hs[i].0) == "content-type"@
}

pub open spec fn is_method_flag(t: Seq<char>) -> bool {
    t == "-X"@ || t == "--request"@
}

pub open spec fn is_header_flag(t: Seq<char>) -> bool {
    t == "-H"@ || t == "--header"@
}

pub open spec fn is_data_flag(t: Seq<char>) -> bool {
    t == "-d"@ || t == "--data"@ || t == "--data-raw"@ || t == "--data-binary"@
}

pub open spec fn is_form_flag(t: Seq<char>) -> bool {
    t == "-F"@ || t == "--form"@
}

pub open spec fn is_user_flag(t: Seq<char>) -> bool {
    t == "-u"@ || t == "--user"@
}

pub open spec fn is_url_flag(t: Seq<char>) -> bool {
    t == "--url"@
}

pub open spec fn is_get_flag(t: Seq<char>) -> bool {
    t == "-G"@ || t == "--get"@
}

/// Flags that are accepted and have no effect on the request.
pub open spec fn is_ignored_flag(t: Seq<char>) -> bool {
    t == "-k"@ || t == "--insecure"@ || t == "--compressed"@ || t == "-s"@ || t == "--silent"@
        || t == "-S"@ || t == "--show-error"@ || t == "-v"@ || t == "--verbose"@ || t == "-L"@
        || t == "--location"@ || t == "-i"@ || t == "--include"@ || t == "-I"@ || t == "--head"@
}

/// Flags that take the next word as their value.
pub open spec fn takes_value(t: Seq<char>) -> bool {
    is_method_flag(t) || is_header_flag(t) || is_data_flag(t) || is_form_flag(t) || is_user_flag(t)
        || is_url_flag(t)
}

/// The effect of a value-taking flag `t` with value `v`.
pub open spec fn apply_flag(acc: CurlAcc, t: Seq<char>, v: Seq<char>) -> CurlAcc {
    if is_method_flag(t) {
        CurlAcc { method: Some(method_from_upper(uppercase(v))), ..acc }
    } else if is_header_flag(t) {
        match header_of(v) {
            Some(h) => CurlAcc { headers: acc.headers.push(h), ..acc },
            None => acc,
        }
    } else if is_data_flag(t) {
        CurlAcc {
            body: Some(v),
            method: if acc.method is None { Some(HttpMethod::Post) } else { acc.method },
            ..acc
        }
    } else if is_form_flag(t) {
        CurlAcc {
            body: Some(v),
            is_multipart: true,
            method: if acc.method is None { Some(HttpMethod::Post) } else { acc.method },
            headers: if has_content_type(acc.headers) {
                acc.headers
            } else {
                acc.headers.push(("Content-Type"@, "multipart/form-data"@))
            },
            ..acc
        }
    } else if is_user_flag(t) {
        CurlAcc { basic_auth: Some(user_of(v)), ..acc }
    } else {
        CurlAcc { url: Some(v), ..acc }
    }
}

/// The effect of a word that takes no value.
pub open spec fn apply_word(acc: CurlAcc, t: Seq<char>) -> CurlAcc {
    if is_get_flag(t) {
        CurlAcc { is_data_get: true, ..acc }
    } else if is_ignored_flag(t) {
        acc
    } else if !starts_with(t, "-"@) && acc.url is None {
        CurlAcc { url: Some(t), ..acc }
    } else {
        acc
    }
}

/// Reads the words from index `i` on.
pub open spec fn curl_scan(toks: Seq<Seq<char>>, i: int, acc: CurlAcc) -> CurlAcc
    decreases toks.len() - i,
{
    if i < 0 || i >= toks.len() {
        acc
    } else if takes_value(toks[i]) {
        if i + 1 < toks.len() {
            curl_scan(toks, i + 2, apply_flag(acc, toks[i], toks[i + 1]))
        } else {
            acc
        }
    } else {
        curl_scan(toks, i + 1, apply_word(acc, toks[i]))
    }
}

/// What a cURL command line describes.
pub struct CurlSpec {
    pub method: HttpMethod,
    pub url: Seq<char>,
    pub headers: Seq<(Seq<char>, Seq<char>)>,
    pub body: Option<Seq<char>>,
    pub basic_auth: Option<(Seq<char>, Seq<char>)>,
    pub is_multipart: bool,
}

/// The request a cURL command line describes, or `None` when the text is not
/// a cURL command, cannot be split into words, or names no URL. `-G` forces
/// GET; otherwise the method is the one given with `-X`, POST when a body was
/// given first, and GET by default.
pub open spec fn parse_curl_spec(input: Seq<char>) -> Option<CurlSpec> {
    let tr = trim(input);
    if !starts_with(tr, "curl"@) {
        None
    } else {
        match tokenize_spec(tr) {
            None => None,
            Some(toks) => if toks.len() == 0 {
                None
            } else {
                let acc = curl_scan(toks, 1, curl_acc_init());
                match acc.url {
                    None => None,
                    Some(u) => Some(
                        CurlSpec {
                            method: if acc.is_data_get {
                                HttpMethod::Get
                            } else {
                                match acc.method {
                                    Some(m) => m,
                                    None => HttpMethod::Get,
                                }
                            },
                            url: u,
                            headers: acc.headers,
                            body: acc.body,
                            basic_auth: acc.basic_auth,
                            is_multipart: acc.is_multipart,
                        },
                    ),
                }
            },
        }
    }
}

/// The headers of a parsed command, as key-value views; all are enabled.
pub open spec fn header_views(hs: Seq<KeyValuePair>) -> Seq<(Seq<char>, Seq<char>)> {
    hs.map_values(|h: KeyValuePair| (h.key@, h.value@))
}

pub open spec fn all_enabled(hs: Seq<KeyValuePair>) -> bool {
    forall|i: int| 0 <= i < hs.len() ==> (#[trigger] hs[i]).enabled
}

/// A parsed command agrees with its description.
pub open spec fn parsed_matches(p: ParsedCurl, s: CurlSpec) -> bool {
    &&& p.method == s.method
    &&& p.url@ == s.url
    &&& header_views(p.headers@) == s.headers
    &&& all_enabled(p.headers@)
    &&& match (p.body, s.body) {
        (Some(b), Some(sb)) => b@ == sb,
        (None, None) => true,
        _ => false,
    }
    &&& match (p.basic_auth, s.basic_auth) {
        (Some((u, pw)), Some((su, spw))) => u@ == su && pw@ == spw,
        (None, None) => true,
        _ => false,
    }
    &&& p.is_multipart == s.is_multipart
}

/// Parses a `Key: Value` header, trimming both sides.
pub fn parse_header(value: &[char]) -> (r: Option<(String, String)>)
    ensures
        match (r, header_of(value@)) {
            (Some((k, v)), Some((sk, sv))) => k@ == sk && v@ == sv,
            (None, None) => true,
            _ => false,
        },
{
    match split_once_exec(value, ':') {
        Some((k, v)) => {
            let kt = trim_chars(k.as_slice());
            let vt = trim_chars(v.as_slice());
            Some((string_of(kt.as_slice()), string_of(vt.as_slice())))
        },
        None => None,
    }
}

/// Parses a method name case-insensitively; unknown names mean GET.
pub fn parse_http_method(s: &str) -> (m: HttpMethod)
    ensures
        m == method_from_upper(uppercase(s@)),
{
    let v = chars_of(s);
    HttpMethod::parse(v.as_slice())
}

/// The exec view of a growing command description.
pub open spec fn acc_of(
    method: Option<HttpMethod>,
    url: Option<Vec<char>>,
    headers: Seq<KeyValuePair>,
    body: Option<Vec<char>>,
    basic_auth: Option<(Vec<char>, Vec<char>)>,
    is_data_get: bool,
    is_multipart: bool,
) -> CurlAcc {
    CurlAcc {
        method: method,
        url: match url {
            Some(u) => Some(u@),
            None => None,
        },
        headers: header_views(headers),
        body: match body {
            Some(b) => Some(b@),
            None => None,
        },
        basic_auth: match basic_auth {
            Some((u, p)) => Some((u@, p@)),
            None => None,
        },
        is_data_get: is_data_get,
        is_multipart: is_multipart,
    }
}

/// Whether some header is named `content-type` in any case.
fn has_content_type_exec(headers: &Vec<KeyValuePair>) -> (b: bool)
    ensures
        b == has_content_type(header_views(headers@)),
{
    let ghost hv = header_views(headers@);
    let mut i: usize = 0;
    while i < headers.len()
        invariant
            i <= headers.len(),
            hv == header_views(headers@),
            forall|j: int| 0 <= j < i ==> lowercase(#[trigger] hv[j].0) != "content-type"@,
        decreases headers.len() - i,
    {
        let k = chars_of(headers[i].key.as_str());
        let l = lowercase_chars(k.as_slice());
        if chars_eq_str(l.as_slice(), "content-type") {
            assert(lowercase(hv[i as int].0) == "content-type"@);
            return true;
        }
        i = i + 1;
    }
    false
}

/// Attempt to parse a string as a cURL command.
/// Returns `None` if the input does not look like a cURL command.
pub fn parse_curl(input: &str) -> (r: Option<ParsedCurl>)
    ensures
        match (r, parse_curl_spec(input@)) {
            (Some(p), Some(s)) => parsed_matches(p, s),
            (None, None) => true,
            _ => false,
        },
{
    let trimmed = trim_str(input);
    if !starts_with_str(trimmed.as_slice(), "curl") {
        return None;
    }
    let toks = match tokenize_chars(trimmed.as_slice()) {
        Some(t) => t,
        None => return None,
    };
    if toks.len() == 0 {
        return None;
    }
    let ghost tv = views_of(toks@);
    let mut method: Option<HttpMethod> = None;
    let mut url: Option<Vec<char>> = None;
    let mut headers: Vec<KeyValuePair> = Vec::new();
    let mut body: Option<Vec<char>> = None;
    let mut basic_auth: Option<(Vec<char>, Vec<char>)> = None;
    let mut is_data_get = false;
    let mut is_multipart = false;
    let mut i: usize = 1;
    assert(header_views(headers@) =~= Seq::<(Seq<char>, Seq<char>)>::empty());
    while i < toks.len()
        invariant
            1 <= i,
            tv == views_of(toks@),
            all_enabled(headers@),
            curl_scan(tv, i as int, acc_of(method, url, headers@, body, basic_auth, is_data_get, is_multipart))
                == curl_scan(tv, 1, curl_acc_init()),
        ensures
            curl_scan(tv, i as int, acc_of(method, url, headers@, body, basic_auth, is_data_get, is_multipart))
                == acc_of(method, url, headers@, body, basic_auth, is_data_get, is_multipart),
        decreases toks.len() - i,
    {
        let t = toks[i].as_slice();
        let has_next = i + 1 < toks.len();
        let ghost before = acc_of(method, url, headers@, body, basic_auth, is_data_get, is_multipart);
        assert(tv[i as int] == t@);
        if chars_eq_str(t, "-X") || chars_eq_str(t, "--request") {
            if !has_next {
                break;
            }
            assert(tv[i + 1] == toks@[i + 1]@);
            method = Some(HttpMethod::parse(toks[i + 1].as_slice()));
            i = i + 2;
        } else if chars_eq_str(t, "-H") || chars_eq_str(t, "--header") {
            if !has_next {
                break;
            }
            assert(tv[i + 1] == toks@[i + 1]@);
            let ghost hb = headers@;
            match parse_header(toks[i + 1].as_slice()) {
                Some((k, v)) => {
                    headers.push(KeyValuePair { key: k, value: v, enabled: true });
                    assert(header_views(headers@) =~= header_views(hb).push(
                        header_of(tv[i + 1]).unwrap(),
                    ));
                },
                None => {},
            }
            i = i + 2;
        } else if chars_eq_str(t, "-d") || chars_eq_str(t, "--data") || chars_eq_str(t, "--data-raw")
            || chars_eq_str(t, "--data-binary") {
            if !has_next {
                break;
            }
            assert(tv[i + 1] == toks@[i + 1]@);
            body = Some(toks[i + 1].clone());
            if method.is_none() {
                method = Some(HttpMethod::Post);
            }
            i = i + 2;
        } else if chars_eq_str(t, "-F") || chars_eq_str(t, "--form") {
            if !has_next {
                break;
            }
            assert(tv[i + 1] == toks@[i + 1]@);
            body = Some(toks[i + 1].clone());
            is_multipart = true;
            if method.is_none() {
                method = Some(HttpMethod::Post);
            }
            if !has_content_type_exec(&headers) {
                let ghost hb = headers@;
                headers.push(
                    KeyValuePair {
                        key: "Content-Type".to_string(),
                        value: "multipart/form-data".to_string(),
                        enabled: true,
                    },
                );
                assert(header_views(headers@) =~= header_views(hb).push(
                    ("Content-Type"@, "multipart/form-data"@),
                ));
            }
            i = i + 2;
        } else if chars_eq_str(t, "-u") || chars_eq_str(t, "--user") {
            if !has_next {
                break;
            }
            assert(tv[i + 1] == toks@[i + 1]@);
            match split_once_exec(toks[i + 1].as_slice(), ':') {
                Some((u, p)) => {
                    basic_auth = Some((u, p));
                },
                None => {
                    basic_auth = Some((toks[i + 1].clone(), Vec::new()));
                },
            }
            i = i + 2;
        } else if chars_eq_str(t, "--url") {
            if !has_next {
                break;
            }
            assert(tv[i + 1] == toks@[i + 1]@);
            url = Some(toks[i + 1].clone());
            i = i + 2;
        } else if chars_eq_str(t, "-G") || chars_eq_str(t, "--get") {
            is_data_get = true;
            i = i + 1;
        } else if chars_eq_str(t, "-k") || chars_eq_str(t, "--insecure") || chars_eq_str(
            t,
            "--compressed",
        ) || chars_eq_str(t, "-s") || chars_eq_str(t, "--silent") || chars_eq_str(t, "-S")
            || chars_eq_str(t, "--show-error") || chars_eq_str(t, "-v") || chars_eq_str(
            t,
            "--verbose",
        ) || chars_eq_str(t, "-L") || chars_eq_str(t, "--location") || chars_eq_str(t, "-i")
            || chars_eq_str(t, "--include") || chars_eq_str(t, "-I") || chars_eq_str(t, "--head") {
            i = i + 1;
        } else {
            if !starts_with_str(t, "-") && url.is_none() {
                url = Some(toks[i].clone());
            }
            i = i + 1;
        }
    }
    let ghost acc = curl_scan(tv, 1, curl_acc_init());
    assert(acc == acc_of(method, url, headers@, body, basic_auth, is_data_get, is_multipart));
    let url = match url {
        Some(u) => string_of(u.as_slice()),
        None => return None,
    };
    let method = if is_data_get {
        HttpMethod::Get
    } else {
        match method {
            Some(m) => m,
            None => HttpMethod::Get,
        }
    };
    let body = match body {
        Some(b) => Some(string_of(b.as_slice())),
        None => None,
    };
    let basic_auth = match basic_auth {
        Some((u, p)) => Some((string_of(u.as_slice()), string_of(p.as_slice()))),
        None => None,
    };
    Some(ParsedCurl { method, url, headers, body, basic_auth, is_multipart })
}

// ---------------------------------------------------------------------------
// Writer
// ---------------------------------------------------------------------------

/// Quotes are written as `'\''` so the text can sit inside single quotes.
pub open spec fn escape_sq(s: Seq<char>) -> Seq<char> {
    replace_all(s, "'"@, "'\\''"@)
}

/// The `-H` words of the enabled headers with non-empty names, in order.
pub open spec fn header_parts(hs: Seq<KeyValuePair>) -> Seq<Seq<char>>
    decreases hs.len(),
{
    if hs.len() == 0 {
        Seq::empty()
    } else {
        let prev = header_parts(hs.drop_last());
        let h = hs.last();
        if h.enabled && h.key@.len() > 0 {
            prev.push("-H '"@ + escape_sq(h.key@) + ": "@ + escape_sq(h.value@) + "'"@)
        } else {
            prev
        }
    }
}

/// The `-d` word, present when the method carries a body and the body is not empty.
pub open spec fn body_parts(r: RequestData) -> Seq<Seq<char>> {
    if r.body@.len() > 0 && method_has_body(r.method) {
        seq!["-d '"@ + escape_sq(r.body@) + "'"@]
    } else {
        Seq::empty()
    }
}

/// The pieces of the command line, before they are joined.
pub open spec fn curl_parts(r: RequestData) -> Seq<Seq<char>> {
    seq!["curl"@, "-X "@ + method_name(r.method)] + header_parts(r.headers@) + body_parts(r) + seq![
        "'"@ + escape_sq(r.url@) + "'"@,
    ]
}

/// The separator between pieces: a line continuation and an indent.
pub open spec fn curl_separator() -> Seq<char> {
    " \\\n  "@
}

pub open spec fn to_curl_spec(r: RequestData) -> Seq<char> {
    join(curl_parts(r), curl_separator())
}

/// Escapes single quotes for use inside a single-quoted shell word.
pub fn escape_single_quotes(s: &str) -> (r: String)
    ensures
        r@ == escape_sq(s@),
{
    let v = chars_of(s);
    proof {
        reveal_strlit("'");
    }
    let e = replace_chars(v.as_slice(), chars_of("'").as_slice(), chars_of("'\\''").as_slice());
    string_of(e.as_slice())
}

/// Single-quoted, escaped text.
fn quoted(prefix: &str, s: &str, infix: &str, t: &str) -> (r: Vec<char>)
    ensures
        r@ == prefix@ + escape_sq(s@) + infix@ + escape_sq(t@) + "'"@,
{
    let mut r: Vec<char> = Vec::new();
    append_str(&mut r, prefix);
    let e = escape_single_quotes(s);
    append_str(&mut r, e.as_str());
    append_str(&mut r, infix);
    let f = escape_single_quotes(t);
    append_str(&mut r, f.as_str());
    append_str(&mut r, "'");
    r
}

/// Serialize a RequestData into a cURL command string
pub fn to_curl(request_data: &RequestData) -> (s: String)
    ensures
        s@ == to_curl_spec(*request_data),
{
    let mut parts: Vec<Vec<char>> = Vec::new();
    parts.push(chars_of("curl"));
    let mut m: Vec<char> = chars_of("-X ");
    append_str(&mut m, request_data.method.as_str());
    parts.push(m);
    let ghost start = views_of(parts@);
    assert(start =~= seq!["curl"@, "-X "@ + method_name(request_data.method)]);
    let hs = &request_data.headers;
    let mut i: usize = 0;
    while i < hs.len()
        invariant
            i <= hs.len(),
            hs == &request_data.headers,
            views_of(parts@) == start + header_parts(hs@.take(i as int)),
        decreases hs.len() - i,
    {
        assert(hs@.take(i + 1).drop_last() =~= hs@.take(i as int));
        assert(hs@.take(i + 1).last() == hs@[i as int]);
        if hs[i].enabled && !hs[i].key.as_str().is_empty() {
            let ghost before = views_of(parts@);
            let h = quoted("-H '", hs[i].key.as_str(), ": ", hs[i].value.as_str());
            parts.push(h);
            assert(views_of(parts@) =~= before.push(h@));
        }
        i = i + 1;
    }
    assert(hs@.take(hs@.len() as int) =~= hs@);
    let ghost after_headers = views_of(parts@);
    let is_body_method = match request_data.method {
        HttpMethod::Post | HttpMethod::Put | HttpMethod::Patch => true,
        _ => false,
    };
    if !request_data.body.as_str().is_empty() && is_body_method {
        let mut d = quoted("-d '", request_data.body.as_str(), "", "");
        proof {
            reveal_strlit("");
            assert(escape_sq(""@) =~= ""@);
        }
        parts.push(d);
        assert(views_of(parts@) =~= after_headers + body_parts(*request_data)) by {
            assert(""@.len() == 0) by { reveal_strlit(""); }
            assert(d@ =~= "-d '"@ + escape_sq(request_data.body@) + "'"@) by { reveal_strlit(""); }
        }
    } else {
        assert(views_of(parts@) =~= after_headers + body_parts(*request_data));
    }
    let ghost after_body = views_of(parts@);
    let mut u: Vec<char> = chars_of("'");
    let e = escape_single_quotes(request_data.url.as_str());
    append_str(&mut u, e.as_str());
    append_str(&mut u, "'");
    parts.push(u);
    assert(views_of(parts@) =~= after_body.push(u@));
    assert(views_of(parts@) =~= curl_parts(*request_data));
    let joined = join_chars(&parts, chars_of(" \\\n  ").as_slice());
    string_of(joined.as_slice())
}

} // verus!
