//! Core domain types: HTTP methods and content types, authentication
//! settings, key-value pairs, requests and responses.

use vstd::prelude::*;
use vstd::multiset::Multiset;

use crate::data::{data_equal, DataValue};
use crate::text::{
    all_ascii, ascii_lower_char, ascii_upper_char, chars_eq_str, chars_of, contains, contains_str, lowercase, occurs_at,
    str_to_lowercase, trim, trim_str, uppercase, uppercase_chars,
};

verus! {

// ---------------------------------------------------------------------------
// HTTP method
// ---------------------------------------------------------------------------

#[derive(Debug, Clone, Copy, PartialEq, Eq, Structural)]
pub enum HttpMethod {
    Get,
    Post,
    Put,
    Delete,
    Patch,
    Head,
    Options,
}

/// The canonical upper-case name of a method.
pub open spec fn method_name(m: HttpMethod) -> Seq<char> {
    match m {
        HttpMethod::Get => "GET"@,
        HttpMethod::Post => "POST"@,
        HttpMethod::Put => "PUT"@,
        HttpMethod::Delete => "DELETE"@,
        HttpMethod::Patch => "PATCH"@,
        HttpMethod::Head => "HEAD"@,
        HttpMethod::Options => "OPTIONS"@,
    }
}

/// The method named by an already upper-cased text; unknown names mean GET.
pub open spec fn method_from_upper(u: Seq<char>) -> HttpMethod {
    if u == "GET"@ {
        HttpMethod::Get
    } else if u == "POST"@ {
        HttpMethod::Post
    } else if u == "PUT"@ {
        HttpMethod::Put
    } else if u == "DELETE"@ {
        HttpMethod::Delete
    } else if u == "PATCH"@ {
        HttpMethod::Patch
    } else if u == "HEAD"@ {
        HttpMethod::Head
    } else if u == "OPTIONS"@ {
        HttpMethod::Options
    } else {
        HttpMethod::Get
    }
}

/// Methods that carry a request body.
pub open spec fn method_has_body(m: HttpMethod) -> bool {
    m == HttpMethod::Post || m == HttpMethod::Put || m == HttpMethod::Patch
}

impl HttpMethod {
    pub fn as_str(&self) -> (s: &'static str)
        ensures
            s@ == method_name(*self),
    {
        match self {
            HttpMethod::Get => "GET",
            HttpMethod::Post => "POST",
            HttpMethod::Put => "PUT",
            HttpMethod::Delete => "DELETE",
            HttpMethod::Patch => "PATCH",
            HttpMethod::Head => "HEAD",
            HttpMethod::Options => "OPTIONS",
        }
    }

    /// The method named by an already upper-cased text; unknown names mean GET.
    pub fn from_upper(u: &[char]) -> (m: HttpMethod)
        ensures
            m == method_from_upper(u@),
    {
        if chars_eq_str(u, "GET") {
            HttpMethod::Get
        } else if chars_eq_str(u, "POST") {
            HttpMethod::Post
        } else if chars_eq_str(u, "PUT") {
            HttpMethod::Put
        } else if chars_eq_str(u, "DELETE") {
            HttpMethod::Delete
        } else if chars_eq_str(u, "PATCH") {
            HttpMethod::Patch
        } else if chars_eq_str(u, "HEAD") {
            HttpMethod::Head
        } else if chars_eq_str(u, "OPTIONS") {
            HttpMethod::Options
        } else {
            HttpMethod::Get
        }
    }

    /// Parses a method name case-insensitively (by `str::to_uppercase`);
    /// unknown names mean GET.
    pub fn parse(s: &[char]) -> (m: HttpMethod)
        ensures
            m == method_from_upper(uppercase(s@)),
            all_ascii(s@) ==> m == method_from_upper(s@.map_values(|c: char| ascii_upper_char(c))),
    {
        let u = uppercase_chars(s);
        HttpMethod::from_upper(u.as_slice())
    }
}

/// Upper-casing a method's canonical name gives the name back.
pub proof fn lemma_method_name_upper(m: HttpMethod)
    ensures
        all_ascii(method_name(m)),
        method_name(m).map_values(|c: char| ascii_upper_char(c)) == method_name(m),
        method_from_upper(method_name(m)) == m,
{
    reveal_strlit("GET");
    reveal_strlit("POST");
    reveal_strlit("PUT");
    reveal_strlit("DELETE");
    reveal_strlit("PATCH");
    reveal_strlit("HEAD");
    reveal_strlit("OPTIONS");
    let n = method_name(m);
    assert(n.map_values(|c: char| ascii_upper_char(c)) =~= n);
    assert("GET"@.len() == 3 && "PUT"@.len() == 3 && "POST"@.len() == 4 && "HEAD"@.len() == 4
        && "PATCH"@.len() == 5 && "DELETE"@.len() == 6 && "OPTIONS"@.len() == 7);
    assert("GET"@ != "POST"@ && "GET"@ != "DELETE"@ && "GET"@ != "PATCH"@ && "GET"@ != "HEAD"@
        && "GET"@ != "OPTIONS"@);
    assert("PUT"@ != "GET"@) by {
        assert("PUT"@[0] != "GET"@[0]);
    }
    assert("POST"@ != "PUT"@ && "DELETE"@ != "PUT"@ && "PATCH"@ != "PUT"@ && "HEAD"@ != "PUT"@
        && "OPTIONS"@ != "PUT"@);
    assert("POST"@ != "HEAD"@) by {
        assert("POST"@[0] != "HEAD"@[0]);
    }
    assert("POST"@ != "PATCH"@) by {
        assert("POST"@[1] != "PATCH"@[1]);
    }
    assert("DELETE"@ != "POST"@ && "DELETE"@ != "PATCH"@ && "DELETE"@ != "HEAD"@
        && "DELETE"@ != "OPTIONS"@);
    assert("PATCH"@ != "HEAD"@ && "PATCH"@ != "OPTIONS"@ && "HEAD"@ != "OPTIONS"@);
}

// ---------------------------------------------------------------------------
// Content type
// ---------------------------------------------------------------------------

#[derive(Debug, Clone, Copy, PartialEq, Eq, Structural)]
pub enum ContentType {
    Json,
    Xml,
    Text,
    Html,
    Form,
    UrlEncoded,
}

/// The content type announced by an already lower-cased `Content-Type` value.
pub open spec fn content_type_of_lowered(l: Seq<char>) -> ContentType {
    if contains(l, "application/json"@) {
        ContentType::Json
    } else if contains(l, "application/xml"@) || contains(l, "text/xml"@) {
        ContentType::Xml
    } else if contains(l, "text/html"@) {
        ContentType::Html
    } else if contains(l, "text/plain"@) {
        ContentType::Text
    } else if contains(l, "application/x-www-form-urlencoded"@) {
        ContentType::Form
    } else {
        ContentType::Json
    }
}

pub open spec fn content_type_mime(c: ContentType) -> Seq<char> {
    match c {
        ContentType::Json => "application/json"@,
        ContentType::Xml => "application/xml"@,
        ContentType::Text => "text/plain"@,
        ContentType::Html => "text/html"@,
        ContentType::Form => "application/x-www-form-urlencoded"@,
        ContentType::UrlEncoded => "application/x-www-form-urlencoded"@,
    }
}

pub open spec fn content_body_type(c: ContentType) -> Seq<char> {
    match c {
        ContentType::Json => "json"@,
        ContentType::Xml => "xml"@,
        ContentType::Text => "text"@,
        ContentType::Html => "html"@,
        ContentType::Form => "form"@,
        ContentType::UrlEncoded => "form"@,
    }
}

pub open spec fn content_language(c: ContentType) -> Seq<char> {
    match c {
        ContentType::Json => "json"@,
        ContentType::Xml => "xml"@,
        ContentType::Text => "text"@,
        ContentType::Html => "html"@,
        ContentType::Form => "text"@,
        ContentType::UrlEncoded => "text"@,
    }
}

impl ContentType {
    /// Classifies an already lower-cased `Content-Type` value.
    pub fn from_lowered(l: &[char]) -> (c: ContentType)
        ensures
            c == content_type_of_lowered(l@),
    {
        if contains_str(l, "application/json") {
            ContentType::Json
        } else if contains_str(l, "application/xml") || contains_str(l, "text/xml") {
            ContentType::Xml
        } else if contains_str(l, "text/html") {
            ContentType::Html
        } else if contains_str(l, "text/plain") {
            ContentType::Text
        } else if contains_str(l, "application/x-www-form-urlencoded") {
            ContentType::Form
        } else {
            ContentType::Json
        }
    }

    /// Classifies a `Content-Type` header value, ignoring case; JSON when
    /// nothing known is found.
    pub fn from_header(content_type: &str) -> (c: ContentType)
        ensures
            c == content_type_of_lowered(lowercase(content_type@)),
    {
        let l = str_to_lowercase(content_type);
        let lv = chars_of(l.as_str());
        ContentType::from_lowered(lv.as_slice())
    }

    pub fn as_str(&self) -> (s: &'static str)
        ensures
            s@ == content_type_mime(*self),
    {
        match self {
            ContentType::Json => "application/json",
            ContentType::Xml => "application/xml",
            ContentType::Text => "text/plain",
            ContentType::Html => "text/html",
            ContentType::Form => "application/x-www-form-urlencoded",
            ContentType::UrlEncoded => "application/x-www-form-urlencoded",
        }
    }

    pub fn body_type(&self) -> (s: &'static str)
        ensures
            s@ == content_body_type(*self),
    {
        match self {
            ContentType::Json => "json",
            ContentType::Xml => "xml",
            ContentType::Text => "text",
            ContentType::Html => "html",
            ContentType::Form => "form",
            ContentType::UrlEncoded => "form",
        }
    }

    pub fn language(&self) -> (s: &'static str)
        ensures
            s@ == content_language(*self),
    {
        match self {
            ContentType::Json => "json",
            ContentType::Xml => "xml",
            ContentType::Text => "text",
            ContentType::Html => "html",
            ContentType::Form => "text",
            ContentType::UrlEncoded => "text",
        }
    }
}

/// No position of `s` from `i` on starts with the characters `a` then `b`.
spec fn pair_free(s: Seq<char>, a: char, b: char, i: nat) -> bool
    decreases s.len() - i,
{
    if i + 1 >= s.len() {
        true
    } else {
        !(s[i as int] == a && s[i as int + 1] == b) && pair_free(s, a, b, i + 1)
    }
}

/// What `pair_free` says, position by position.
proof fn lemma_pair_free(s: Seq<char>, a: char, b: char, i: nat)
    requires
        pair_free(s, a, b, i),
    ensures
        forall|j: int| i <= j && j + 1 < s.len() ==> !(#[trigger] s[j] == a && s[j + 1] == b),
    decreases s.len() - i,
{
    if i + 1 < s.len() {
        lemma_pair_free(s, a, b, i + 1);
    }
}

/// A text in which two neighbouring characters of `p` never stand side by
/// side does not contain `p`.
proof fn lemma_pair_free_not_contains(s: Seq<char>, p: Seq<char>, k: int)
    requires
        0 <= k,
        k + 1 < p.len(),
        pair_free(s, p[k], p[k + 1], 0),
    ensures
        !contains(s, p),
{
    lemma_pair_free(s, p[k], p[k + 1], 0);
    assert forall|j: int| !occurs_at(s, p, j) by {
        if occurs_at(s, p, j) {
            assert(s.subrange(j, j + p.len())[k] == p[k]);
            assert(s.subrange(j, j + p.len())[k + 1] == p[k + 1]);
        }
    }
}

/// Every character from `i` on is ASCII and not an upper-case letter.
spec fn lower_ascii_from(s: Seq<char>, i: nat) -> bool
    decreases s.len() - i,
{
    if i >= s.len() {
        true
    } else {
        (s[i as int] as u32) < 128 && ascii_lower_char(s[i as int]) == s[i as int] && lower_ascii_from(s, i + 1)
    }
}

/// Lower-casing a text of lower-case ASCII changes nothing.
proof fn lemma_lowercase_unchanged(s: Seq<char>)
    requires
        lower_ascii_from(s, 0),
    ensures
        lowercase(s) == s,
{
    assert forall|i: nat| i <= s.len() implies lower_ascii_from(s, i) ==> forall|j: int|
        i <= j < s.len() ==> (s[j] as u32) < 128 && ascii_lower_char(s[j]) == s[j] by {
        lemma_lower_ascii_from(s, i);
    }
    assert(all_ascii(s));
    assert(s.map_values(|c: char| ascii_lower_char(c)) =~= s);
}

proof fn lemma_lower_ascii_from(s: Seq<char>, i: nat)
    ensures
        lower_ascii_from(s, i) ==> forall|j: int| i <= j < s.len() ==> (s[j] as u32) < 128 && ascii_lower_char(s[j]) == s[j],
    decreases s.len() - i,
{
    if i < s.len() {
        lemma_lower_ascii_from(s, i + 1);
    }
}

/// A text contains itself.
proof fn lemma_contains_self(s: Seq<char>)
    ensures
        contains(s, s),
{
    assert(s.subrange(0, s.len() as int) =~= s);
    assert(occurs_at(s, s, 0));
}

proof fn lemma_json_read_back()
    ensures
        content_type_of_lowered(lowercase("application/json"@)) == ContentType::Json,
{
    reveal_strlit("application/json");
    let m = "application/json"@;
    assert(lower_ascii_from(m, 0)) by {
        reveal_with_fuel(lower_ascii_from, 20);
    }
    lemma_contains_self(m);
    lemma_lowercase_unchanged(m);
}

proof fn lemma_xml_read_back()
    ensures
        content_type_of_lowered(lowercase("application/xml"@)) == ContentType::Xml,
{
    reveal_strlit("application/xml");
    reveal_strlit("application/json");
    let m = "application/xml"@;
    assert(lower_ascii_from(m, 0)) by {
        reveal_with_fuel(lower_ascii_from, 20);
    }
    lemma_contains_self(m);
    lemma_lowercase_unchanged(m);
    assert(!contains(m, "application/json"@));
}

/// A pattern longer than a text does not occur in it.
proof fn lemma_longer_absent(s: Seq<char>, p: Seq<char>)
    requires
        p.len() > s.len(),
    ensures
        !contains(s, p),
{
}

proof fn lemma_html_chars()
    ensures
        lower_ascii_from("text/html"@, 0),
        pair_free("text/html"@, '/', 'x', 0),
{
    reveal_strlit("text/html");
    reveal_with_fuel(lower_ascii_from, 12);
    reveal_with_fuel(pair_free, 12);
}

proof fn lemma_plain_chars()
    ensures
        lower_ascii_from("text/plain"@, 0),
        pair_free("text/plain"@, '/', 'x', 0),
        pair_free("text/plain"@, '/', 'h', 0),
{
    reveal_strlit("text/plain");
    reveal_with_fuel(lower_ascii_from, 12);
    reveal_with_fuel(pair_free, 12);
}

proof fn lemma_form_lower()
    ensures
        lower_ascii_from("application/x-www-form-urlencoded"@, 0),
{
    reveal_strlit("application/x-www-form-urlencoded");
    reveal_with_fuel(lower_ascii_from, 36);
}

proof fn lemma_form_pairs()
    ensures
        pair_free("application/x-www-form-urlencoded"@, '/', 'j', 0),
        pair_free("application/x-www-form-urlencoded"@, 'x', 'm', 0),
        pair_free("application/x-www-form-urlencoded"@, 't', 'e', 0),
{
    reveal_strlit("application/x-www-form-urlencoded");
    reveal_with_fuel(pair_free, 36);
}

proof fn lemma_pattern_chars()
    ensures
        "text/xml"@.len() == 8 && "text/xml"@[4] == '/' && "text/xml"@[5] == 'x' && "text/xml"@[0] == 't'
            && "text/xml"@[1] == 'e',
        "text/html"@.len() == 9 && "text/html"@[4] == '/' && "text/html"@[5] == 'h' && "text/html"@[0] == 't'
            && "text/html"@[1] == 'e',
        "text/plain"@.len() == 10 && "text/plain"@[0] == 't' && "text/plain"@[1] == 'e',
        "application/json"@.len() == 16 && "application/json"@[11] == '/' && "application/json"@[12] == 'j',
        "application/xml"@.len() == 15 && "application/xml"@[12] == 'x' && "application/xml"@[13] == 'm',
        "application/x-www-form-urlencoded"@.len() == 33,
{
    reveal_strlit("text/xml");
    reveal_strlit("text/html");
    reveal_strlit("text/plain");
    reveal_strlit("application/json");
    reveal_strlit("application/xml");
    reveal_strlit("application/x-www-form-urlencoded");
}

proof fn lemma_html_read_back()
    ensures
        content_type_of_lowered(lowercase("text/html"@)) == ContentType::Html,
{
    let m = "text/html"@;
    lemma_html_chars();
    lemma_pattern_chars();
    lemma_contains_self(m);
    lemma_lowercase_unchanged(m);
    lemma_longer_absent(m, "application/json"@);
    lemma_longer_absent(m, "application/xml"@);
    lemma_pair_free_not_contains(m, "text/xml"@, 4);
}

proof fn lemma_text_read_back()
    ensures
        content_type_of_lowered(lowercase("text/plain"@)) == ContentType::Text,
{
    let m = "text/plain"@;
    lemma_plain_chars();
    lemma_pattern_chars();
    lemma_contains_self(m);
    lemma_lowercase_unchanged(m);
    lemma_longer_absent(m, "application/json"@);
    lemma_longer_absent(m, "application/xml"@);
    lemma_pair_free_not_contains(m, "text/xml"@, 4);
    lemma_pair_free_not_contains(m, "text/html"@, 4);
}

proof fn lemma_form_read_back()
    ensures
        content_type_of_lowered(lowercase("application/x-www-form-urlencoded"@)) == ContentType::Form,
{
    let m = "application/x-www-form-urlencoded"@;
    lemma_form_lower();
    lemma_form_pairs();
    lemma_pattern_chars();
    lemma_contains_self(m);
    lemma_lowercase_unchanged(m);
    lemma_pair_free_not_contains(m, "application/json"@, 11);
    lemma_pair_free_not_contains(m, "application/xml"@, 12);
    lemma_pair_free_not_contains(m, "text/xml"@, 0);
    lemma_pair_free_not_contains(m, "text/html"@, 0);
    lemma_pair_free_not_contains(m, "text/plain"@, 0);
}

/// Reading back the `Content-Type` value that a content type announces
/// gives that content type again; URL-encoded bodies announce the same value
/// as forms and are read back as forms.
pub proof fn lemma_content_type_roundtrip(c: ContentType)
    ensures
        content_type_of_lowered(lowercase(content_type_mime(c))) == (if c == ContentType::UrlEncoded {
            ContentType::Form
        } else {
            c
        }),
{
    match c {
        ContentType::Json => lemma_json_read_back(),
        ContentType::Xml => lemma_xml_read_back(),
        ContentType::Html => lemma_html_read_back(),
        ContentType::Text => lemma_text_read_back(),
        _ => lemma_form_read_back(),
    }
}

// ---------------------------------------------------------------------------
// Authentication
// ---------------------------------------------------------------------------

/// Basic authentication credentials
#[derive(Debug, Clone, PartialEq)]
pub struct BasicAuth {
    pub username: String,
    pub password: String,
}

/// Digest authentication credentials
#[derive(Debug, Clone, PartialEq)]
pub struct DigestAuth {
    pub username: String,
    pub password: String,
}

/// API key authentication: one header with a value.
#[derive(Debug, Clone, PartialEq)]
pub struct KeyAuth {
    pub header: String,
    pub value: String,
}

impl Default for BasicAuth {
    fn default() -> (r: Self)
        ensures
            r.username@.len() == 0,
            r.password@.len() == 0,
    {
        BasicAuth { username: String::new(), password: String::new() }
    }
}

impl Default for DigestAuth {
    fn default() -> (r: Self)
        ensures
            r.username@.len() == 0,
            r.password@.len() == 0,
    {
        DigestAuth { username: String::new(), password: String::new() }
    }
}

impl Default for KeyAuth {
    fn default() -> (r: Self)
        ensures
            r.header@ == "X-API-Key"@,
            r.value@.len() == 0,
    {
        KeyAuth { header: "X-API-Key".to_string(), value: String::new() }
    }
}

/// OAuth2 grant types
#[derive(Debug, Clone, Copy, PartialEq, Eq, Structural)]
pub enum OAuth2GrantType {
    ClientCredentials,
    AuthorizationCode,
    Password,
}

pub open spec fn grant_type_name(g: OAuth2GrantType) -> Seq<char> {
    match g {
        OAuth2GrantType::ClientCredentials => "client_credentials"@,
        OAuth2GrantType::AuthorizationCode => "authorization_code"@,
        OAuth2GrantType::Password => "password"@,
    }
}

impl OAuth2GrantType {
    pub fn as_str(&self) -> (s: &'static str)
        ensures
            s@ == grant_type_name(*self),
    {
        match self {
            OAuth2GrantType::ClientCredentials => "client_credentials",
            OAuth2GrantType::AuthorizationCode => "authorization_code",
            OAuth2GrantType::Password => "password",
        }
    }
}

impl Default for OAuth2GrantType {
    fn default() -> (r: Self)
        ensures
            r == OAuth2GrantType::ClientCredentials,
    {
        OAuth2GrantType::ClientCredentials
    }
}

/// OAuth2 configuration
#[derive(Debug, Clone, PartialEq)]
pub struct OAuth2Auth {
    pub grant_type: OAuth2GrantType,
    pub client_id: String,
    pub client_secret: String,
    pub token_url: String,
    pub scope: Option<String>,
    pub authorize_url: Option<String>,
    pub redirect_url: Option<String>,
    pub access_token: Option<String>,
    pub refresh_token: Option<String>,
    pub expires_at: Option<i64>,
}

/// An OAuth2 configuration as it starts: client credentials grant, empty
/// client and token URL, no scope, URLs or tokens.
pub open spec fn default_oauth2(r: OAuth2Auth) -> bool {
    &&& r.grant_type == OAuth2GrantType::ClientCredentials
    &&& r.client_id@.len() == 0
    &&& r.client_secret@.len() == 0
    &&& r.token_url@.len() == 0
    &&& r.scope is None
    &&& r.authorize_url is None
    &&& r.redirect_url is None
    &&& r.access_token is None
    &&& r.refresh_token is None
    &&& r.expires_at is None
}

impl Default for OAuth2Auth {
    fn default() -> (r: Self)
        ensures
            default_oauth2(r),
    {
        OAuth2Auth {
            grant_type: OAuth2GrantType::ClientCredentials,
            client_id: String::new(),
            client_secret: String::new(),
            token_url: String::new(),
            scope: None,
            authorize_url: None,
            redirect_url: None,
            access_token: None,
            refresh_token: None,
            expires_at: None,
        }
    }
}

/// The field name a JWT login response carries its token type under, unless configured.
pub fn default_token_type_field() -> (s: String)
    ensures
        s@ == "token_type"@,
{
    "token_type".to_string()
}

/// The field name a JWT login response carries its expiry under, unless configured.
pub fn default_expiry_field() -> (s: String)
    ensures
        s@ == "expires_in"@,
{
    "expires_in".to_string()
}

/// JWT authentication configuration
#[derive(Debug, Clone, PartialEq)]
pub struct JwtAuth {
    pub login_url: String,
    pub username_field: String,
    pub username: String,
    pub password_field: String,
    pub password: String,
    pub token_field: String,
    pub token_type_field: String,
    pub expiry_field: String,
    pub access_token: Option<String>,
    pub token_type: Option<String>,
    pub expires_at: Option<i64>,
}

/// A JWT configuration as it starts: no login URL or credentials, the usual
/// field names (`username`, `password`, `access_token`, `token_type`,
/// `expires_in`) and no token.
pub open spec fn default_jwt(r: JwtAuth) -> bool {
    &&& r.login_url@.len() == 0
    &&& r.username_field@ == "username"@
    &&& r.username@.len() == 0
    &&& r.password_field@ == "password"@
    &&& r.password@.len() == 0
    &&& r.token_field@ == "access_token"@
    &&& r.token_type_field@ == "token_type"@
    &&& r.expiry_field@ == "expires_in"@
    &&& r.access_token is None
    &&& r.token_type is None
    &&& r.expires_at is None
}

impl Default for JwtAuth {
    fn default() -> (r: Self)
        ensures
            default_jwt(r),
    {
        JwtAuth {
            login_url: String::new(),
            username_field: "username".to_string(),
            username: String::new(),
            password_field: "password".to_string(),
            password: String::new(),
            token_field: "access_token".to_string(),
            token_type_field: default_token_type_field(),
            expiry_field: default_expiry_field(),
            access_token: None,
            token_type: None,
            expires_at: None,
        }
    }
}

/// The authentication method of a request or collection.
#[derive(Debug, Clone, PartialEq)]
pub enum AuthType {
    /// No authentication.
    NoAuth,
    Basic(BasicAuth),
    Digest(DigestAuth),
    Key(KeyAuth),
    Inherit,
    OAuth2(OAuth2Auth),
    Jwt(JwtAuth),
    /// An authentication kind read from a collection file that this library
    /// does not model; `raw` keeps the value as it was read, so it can be
    /// written back.
    Unsupported { kind: String, raw: DataValue },
}

pub open spec fn auth_display_name(a: AuthType) -> Seq<char> {
    match a {
        AuthType::NoAuth => "No Auth"@,
        AuthType::Basic(_) => "Basic Auth"@,
        AuthType::Digest(_) => "Digest Auth"@,
        AuthType::Key(_) => "API Key"@,
        AuthType::Inherit => "Inherit from Collection"@,
        AuthType::OAuth2(_) => "OAuth2 Client Credentials"@,
        AuthType::Jwt(_) => "JWT"@,
        AuthType::Unsupported { .. } => "Unsupported Auth"@,
    }
}

pub open spec fn auth_type_name(a: AuthType) -> Seq<char> {
    match a {
        AuthType::NoAuth => "none"@,
        AuthType::Basic(_) => "basic"@,
        AuthType::Digest(_) => "digest"@,
        AuthType::Key(_) => "key"@,
        AuthType::Inherit => "inherit"@,
        AuthType::OAuth2(_) => "oauth2"@,
        AuthType::Jwt(_) => "jwt"@,
        AuthType::Unsupported { .. } => "unsupported"@,
    }
}

pub open spec fn auth_has_secrets(a: AuthType) -> bool {
    a is Basic || a is Digest || a is OAuth2 || a is Jwt
}

impl Default for AuthType {
    fn default() -> (r: Self)
        ensures
            r is NoAuth,
    {
        AuthType::NoAuth
    }
}

impl AuthType {
    pub fn name(&self) -> (s: &'static str)
        ensures
            s@ == auth_display_name(*self),
    {
        match self {
            AuthType::NoAuth => "No Auth",
            AuthType::Basic(_) => "Basic Auth",
            AuthType::Digest(_) => "Digest Auth",
            AuthType::Key(_) => "API Key",
            AuthType::Inherit => "Inherit from Collection",
            AuthType::OAuth2(_) => "OAuth2 Client Credentials",
            AuthType::Jwt(_) => "JWT",
            AuthType::Unsupported { .. } => "Unsupported Auth",
        }
    }

    pub fn has_secrets(&self) -> (b: bool)
        ensures
            b == auth_has_secrets(*self),
    {
        match self {
            AuthType::Basic(_) | AuthType::Digest(_) | AuthType::OAuth2(_) | AuthType::Jwt(_) => true,
            _ => false,
        }
    }

    pub fn kind_name(&self) -> (s: &'static str)
        ensures
            s@ == auth_type_name(*self),
    {
        match self {
            AuthType::NoAuth => "none",
            AuthType::Basic(_) => "basic",
            AuthType::Digest(_) => "digest",
            AuthType::Key(_) => "key",
            AuthType::Inherit => "inherit",
            AuthType::OAuth2(_) => "oauth2",
            AuthType::Jwt(_) => "jwt",
            AuthType::Unsupported { .. } => "unsupported",
        }
    }

    /// One default-configured value of every selectable authentication kind,
    /// in menu order.
    pub fn all_types() -> (v: Vec<AuthType>)
        ensures
            v@.len() == 7,
            v@[0] is NoAuth,
            v@[1] is Inherit,
            v@[2] matches AuthType::Basic(b) && b.username@.len() == 0 && b.password@.len() == 0,
            v@[3] matches AuthType::Digest(d) && d.username@.len() == 0 && d.password@.len() == 0,
            v@[4] matches AuthType::Key(k) && k.header@ == "X-API-Key"@ && k.value@.len() == 0,
            v@[5] matches AuthType::OAuth2(o) && default_oauth2(o),
            v@[6] matches AuthType::Jwt(j) && default_jwt(j),
    {
        let mut v: Vec<AuthType> = Vec::new();
        v.push(AuthType::NoAuth);
        v.push(AuthType::Inherit);
        v.push(AuthType::Basic(BasicAuth::default()));
        v.push(AuthType::Digest(DigestAuth::default()));
        v.push(AuthType::Key(KeyAuth::default()));
        v.push(AuthType::OAuth2(OAuth2Auth::default()));
        v.push(AuthType::Jwt(JwtAuth::default()));
        v
    }
}

// ---------------------------------------------------------------------------
// Key-value pairs
// ---------------------------------------------------------------------------

/// A key-value pair with an enabled flag, used for headers, query params, etc.
#[derive(Debug, Clone, PartialEq)]
pub struct KeyValuePair {
    pub key: String,
    pub value: String,
    pub enabled: bool,
}

impl Default for KeyValuePair {
    fn default() -> (r: Self)
        ensures
            r.key@.len() == 0,
            r.value@.len() == 0,
            r.enabled,
    {
        KeyValuePair { key: String::new(), value: String::new(), enabled: true }
    }
}

/// A pair whose key is not blank carries data.
pub open spec fn kv_is_real(p: KeyValuePair) -> bool {
    trim(p.key@).len() > 0
}

/// Two pairs agree on key, value and flag.
pub open spec fn kv_same(a: KeyValuePair, b: KeyValuePair) -> bool {
    a.key@ == b.key@ && a.value@ == b.value@ && a.enabled == b.enabled
}

/// The pairs that carry data, in order.
pub open spec fn real_pairs(s: Seq<KeyValuePair>) -> Seq<KeyValuePair> {
    s.filter(|p: KeyValuePair| kv_is_real(p))
}

/// What a pair holds: its key, its value and its flag.
pub open spec fn kv_data(p: KeyValuePair) -> (Seq<char>, Seq<char>, bool) {
    (p.key@, p.value@, p.enabled)
}

/// What each pair of a list holds, in order.
pub open spec fn pair_data(s: Seq<KeyValuePair>) -> Seq<(Seq<char>, Seq<char>, bool)> {
    s.map_values(|p: KeyValuePair| kv_data(p))
}

/// What the real pairs of a list hold, counted with multiplicity and without order.
pub open spec fn real_data(s: Seq<KeyValuePair>) -> Multiset<(Seq<char>, Seq<char>, bool)> {
    pair_data(real_pairs(s)).to_multiset()
}

/// What `KeyValuePair::vec_equals` decides: both lists hold the same real
/// pairs, each as often, in any order.
pub open spec fn kv_vec_equals(left: Seq<KeyValuePair>, right: Seq<KeyValuePair>) -> bool {
    real_data(left) == real_data(right)
}

/// Counting one value along a list, one element at a time.
proof fn lemma_data_count_step(s: Seq<KeyValuePair>, j: int, v: (Seq<char>, Seq<char>, bool))
    requires
        0 <= j < s.len(),
    ensures
        pair_data(s.take(j + 1)).to_multiset().count(v) == pair_data(s.take(j)).to_multiset().count(v)
            + if kv_data(s[j]) == v { 1int } else { 0int },
{
    broadcast use vstd::multiset::group_multiset_axioms;

    assert(pair_data(s.take(j + 1)) =~= pair_data(s.take(j)).push(kv_data(s[j])));
    vstd::seq_lib::to_multiset_build(pair_data(s.take(j)), kv_data(s[j]));
}

impl KeyValuePair {
    /// A field-by-field copy.
    pub fn duplicate(&self) -> (r: KeyValuePair)
        ensures
            r == *self,
    {
        KeyValuePair { key: self.key.clone(), value: self.value.clone(), enabled: self.enabled }
    }

    /// The real (non-blank-key) pairs of a slice, in order.
    pub fn real_pairs_of(pairs: &[KeyValuePair]) -> (r: Vec<KeyValuePair>)
        ensures
            r@ == real_pairs(pairs@),
    {
        let mut r: Vec<KeyValuePair> = Vec::new();
        let mut i: usize = 0;
        while i < pairs.len()
            invariant
                i <= pairs.len(),
                r@ == real_pairs(pairs@.take(i as int)),
            decreases pairs.len() - i,
        {
            let k = trim_str(pairs[i].key.as_str());
            assert(pairs@.take(i + 1).drop_last() =~= pairs@.take(i as int));
            reveal_with_fuel(Seq::<_>::filter, 1);
            if k.len() > 0 {
                r.push(pairs[i].duplicate());
            }
            i = i + 1;
        }
        assert(pairs@.take(pairs@.len() as int) =~= pairs@);
        r
    }

    /// Check if two KeyValuePair vectors are equal (order-independent comparison).
    /// Filters out entries with empty keys and compares the remaining entries.
    pub fn vec_equals(left: &[KeyValuePair], right: &[KeyValuePair]) -> (b: bool)
        ensures
            b == kv_vec_equals(left@, right@),
    {
        broadcast use vstd::seq_lib::to_multiset_len, vstd::seq_lib::to_multiset_contains;

        let l = KeyValuePair::real_pairs_of(left);
        let r = KeyValuePair::real_pairs_of(right);
        let ghost ml = pair_data(l@).to_multiset();
        let ghost mr = pair_data(r@).to_multiset();
        if l.len() != r.len() {
            assert(ml.len() != mr.len());
            return false;
        }
        let mut i: usize = 0;
        while i < l.len()
            invariant
                i <= l.len(),
                l@ == real_pairs(left@),
                r@ == real_pairs(right@),
                ml == pair_data(l@).to_multiset(),
                mr == pair_data(r@).to_multiset(),
                forall|a: int| 0 <= a < i ==> ml.count(#[trigger] kv_data(l@[a])) == mr.count(kv_data(l@[a])),
            decreases l.len() - i,
        {
            if KeyValuePair::count_same(&l, &l[i]) != KeyValuePair::count_same(&r, &l[i]) {
                assert(ml.count(kv_data(l@[i as int])) != mr.count(kv_data(l@[i as int])));
                assert(ml != mr);
                return false;
            }
            i = i + 1;
        }
        let mut i: usize = 0;
        while i < r.len()
            invariant
                i <= r.len(),
                l@ == real_pairs(left@),
                r@ == real_pairs(right@),
                ml == pair_data(l@).to_multiset(),
                mr == pair_data(r@).to_multiset(),
                forall|a: int| 0 <= a < l@.len() ==> ml.count(#[trigger] kv_data(l@[a])) == mr.count(kv_data(l@[a])),
                forall|a: int| 0 <= a < i ==> ml.count(#[trigger] kv_data(r@[a])) == mr.count(kv_data(r@[a])),
            decreases r.len() - i,
        {
            if KeyValuePair::count_same(&l, &r[i]) != KeyValuePair::count_same(&r, &r[i]) {
                assert(ml.count(kv_data(r@[i as int])) != mr.count(kv_data(r@[i as int])));
                assert(ml != mr);
                return false;
            }
            i = i + 1;
        }
        assert forall|v: (Seq<char>, Seq<char>, bool)| ml.count(v) == mr.count(v) by {
            if ml.count(v) > 0 {
                assert(pair_data(l@).contains(v));
                let k = choose|k: int| 0 <= k < pair_data(l@).len() && pair_data(l@)[k] == v;
                assert(kv_data(l@[k]) == v);
            } else if mr.count(v) > 0 {
                assert(pair_data(r@).contains(v));
                let k = choose|k: int| 0 <= k < pair_data(r@).len() && pair_data(r@)[k] == v;
                assert(kv_data(r@[k]) == v);
            }
        }
        assert(ml =~= mr);
        true
    }

    /// How many pairs of `s` hold the same key, value and flag as `x`.
    fn count_same(s: &Vec<KeyValuePair>, x: &KeyValuePair) -> (c: usize)
        ensures
            c == pair_data(s@).to_multiset().count(kv_data(*x)),
    {
        let mut c: usize = 0;
        let mut j: usize = 0;
        assert(pair_data(s@.take(0)) =~= Seq::<(Seq<char>, Seq<char>, bool)>::empty());
        assert(pair_data(s@.take(0)).to_multiset().count(kv_data(*x)) == 0) by {
            broadcast use vstd::seq_lib::to_multiset_contains;
        }
        while j < s.len()
            invariant
                j <= s.len(),
                c <= j,
                c == pair_data(s@.take(j as int)).to_multiset().count(kv_data(*x)),
            decreases s.len() - j,
        {
            proof {
                lemma_data_count_step(s@, j as int, kv_data(*x));
            }
            let same = chars_eq_str(chars_of(s[j].key.as_str()).as_slice(), x.key.as_str())
                && chars_eq_str(chars_of(s[j].value.as_str()).as_slice(), x.value.as_str())
                && s[j].enabled == x.enabled;
            if same {
                c = c + 1;
            }
            j = j + 1;
        }
        assert(s@.take(s@.len() as int) =~= s@);
        c
    }
}

/// A list of pairs always equals itself.
pub proof fn lemma_vec_equals_reflexive(pairs: Seq<KeyValuePair>)
    ensures
        kv_vec_equals(pairs, pairs),
{
}

/// Comparing two lists does not depend on which one stands first.
pub proof fn lemma_vec_equals_symmetric(left: Seq<KeyValuePair>, right: Seq<KeyValuePair>)
    ensures
        kv_vec_equals(left, right) == kv_vec_equals(right, left),
{
}

/// Filtering to the real pairs keeps each real pair as often as it occurs.
proof fn lemma_real_pairs_count(s: Seq<KeyValuePair>, x: KeyValuePair)
    ensures
        real_pairs(s).to_multiset().count(x) == if kv_is_real(x) {
            s.to_multiset().count(x)
        } else {
            0
        },
    decreases s.len(),
{
    broadcast use vstd::multiset::group_multiset_axioms;

    let pred = |p: KeyValuePair| kv_is_real(p);
    if s.len() == 0 {
        assert(real_pairs(s) =~= Seq::<KeyValuePair>::empty()) by {
            reveal(Seq::filter);
        }
        vstd::seq_lib::to_multiset_contains(s, x);
        vstd::seq_lib::to_multiset_contains(real_pairs(s), x);
    } else {
        let t = s.drop_last();
        let e = s.last();
        lemma_real_pairs_count(t, x);
        assert(s =~= t.push(e));
        t.lemma_filter_push(e, pred);
        vstd::seq_lib::to_multiset_build(t, e);
        if kv_is_real(e) {
            vstd::seq_lib::to_multiset_build(t.filter(pred), e);
        }
    }
}

/// Lists with the same pairs, counted with multiplicity, have the same real
/// pairs, counted with multiplicity.
proof fn lemma_real_pairs_same_multiset(a: Seq<KeyValuePair>, b: Seq<KeyValuePair>)
    requires
        a.to_multiset() == b.to_multiset(),
    ensures
        real_pairs(a).to_multiset() == real_pairs(b).to_multiset(),
{
    assert forall|x: KeyValuePair| #[trigger] real_pairs(a).to_multiset().count(x) == real_pairs(b).to_multiset().count(x) by {
        lemma_real_pairs_count(a, x);
        lemma_real_pairs_count(b, x);
    }
    assert(real_pairs(a).to_multiset() =~= real_pairs(b).to_multiset());
}

/// Lists with the same pairs, counted with multiplicity, hold the same data,
/// counted with multiplicity.
proof fn lemma_data_same_multiset(a: Seq<KeyValuePair>, b: Seq<KeyValuePair>)
    requires
        a.to_multiset() == b.to_multiset(),
    ensures
        pair_data(a).to_multiset() == pair_data(b).to_multiset(),
    decreases a.len(),
{
    broadcast use vstd::multiset::group_multiset_axioms;
    broadcast use vstd::seq_lib::to_multiset_len, vstd::seq_lib::to_multiset_contains;

    assert(a.len() == a.to_multiset().len());
    assert(b.len() == b.to_multiset().len());
    if a.len() == 0 {
        assert(pair_data(a) =~= Seq::<(Seq<char>, Seq<char>, bool)>::empty());
        assert(pair_data(b) =~= Seq::<(Seq<char>, Seq<char>, bool)>::empty());
    } else {
        let x = a.last();
        let a1 = a.drop_last();
        assert(a =~= a1.push(x));
        vstd::seq_lib::to_multiset_build(a1, x);
        assert(a.to_multiset().count(x) > 0);
        assert(b.contains(x));
        let k = choose|k: int| 0 <= k < b.len() && b[k] == x;
        let b1 = b.remove(k);
        vstd::seq_lib::to_multiset_remove(b, k);
        assert(a1.to_multiset() =~= b1.to_multiset());
        lemma_data_same_multiset(a1, b1);
        assert(pair_data(a) =~= pair_data(a1).push(kv_data(x)));
        vstd::seq_lib::to_multiset_build(pair_data(a1), kv_data(x));
        assert(pair_data(b1) =~= pair_data(b).remove(k));
        vstd::seq_lib::to_multiset_remove(pair_data(b), k);
        assert(pair_data(b).to_multiset().count(kv_data(x)) > 0) by {
            assert(pair_data(b)[k] == kv_data(x));
            assert(pair_data(b).contains(kv_data(x)));
        }
        assert(pair_data(b).to_multiset() =~= pair_data(b1).to_multiset().insert(kv_data(x)));
    }
}

/// `vec_equals` does not depend on the order of the pairs: reordering either
/// list gives the same answer.
pub proof fn lemma_vec_equals_order_independent(
    l1: Seq<KeyValuePair>,
    l2: Seq<KeyValuePair>,
    r1: Seq<KeyValuePair>,
    r2: Seq<KeyValuePair>,
)
    requires
        l1.to_multiset() == l2.to_multiset(),
        r1.to_multiset() == r2.to_multiset(),
    ensures
        kv_vec_equals(l1, r1) == kv_vec_equals(l2, r2),
{
    lemma_real_pairs_same_multiset(l1, l2);
    lemma_real_pairs_same_multiset(r1, r2);
    lemma_data_same_multiset(real_pairs(l1), real_pairs(l2));
    lemma_data_same_multiset(real_pairs(r1), real_pairs(r2));
}

// ---------------------------------------------------------------------------
// Requests and responses
// ---------------------------------------------------------------------------

/// Request data for HTTP requests
#[derive(Debug, Clone, PartialEq)]
pub struct RequestData {
    pub name: String,
    pub method: HttpMethod,
    pub url: String,
    pub path_params: Vec<KeyValuePair>,
    pub query_params: Vec<KeyValuePair>,
    pub headers: Vec<KeyValuePair>,
    pub body: String,
    pub pre_request_script: Option<String>,
    pub post_response_script: Option<String>,
    pub auth: AuthType,
    /// Request-level variables.
    pub vars: Vec<KeyValuePair>,
}

impl Default for RequestData {
    fn default() -> (r: Self)
        ensures
            r.name@ == "New Request"@,
            r.method == HttpMethod::Get,
            r.url@.len() == 0,
            r.path_params@.len() == 0,
            r.query_params@.len() == 0,
            r.headers@.len() == 0,
            r.body@.len() == 0,
            r.pre_request_script is None,
            r.post_response_script is None,
            r.auth is NoAuth,
            r.vars@.len() == 0,
    {
        RequestData {
            name: "New Request".to_string(),
            method: HttpMethod::Get,
            url: String::new(),
            path_params: Vec::new(),
            query_params: Vec::new(),
            headers: Vec::new(),
            body: String::new(),
            pre_request_script: None,
            post_response_script: None,
            auth: AuthType::NoAuth,
            vars: Vec::new(),
        }
    }
}

/// Response data from HTTP requests
#[derive(Debug, Clone, PartialEq)]
pub struct ResponseData {
    pub status_code: Option<u16>,
    pub status_text: Option<String>,
    pub latency: Option<std::time::Duration>,
    pub size: Option<usize>,
    pub headers: Vec<KeyValuePair>,
    /// The headers that were sent, authentication included.
    pub request_headers: Vec<KeyValuePair>,
    pub body: String,
    pub url: Option<String>,
}

impl Default for ResponseData {
    fn default() -> (r: Self)
        ensures
            r.status_code is None,
            r.status_text is None,
            r.latency is None,
            r.size is None,
            r.headers@.len() == 0,
            r.request_headers@.len() == 0,
            r.body@.len() == 0,
            r.url is None,
    {
        ResponseData {
            status_code: None,
            status_text: None,
            latency: None,
            size: None,
            headers: Vec::new(),
            request_headers: Vec::new(),
            body: String::new(),
            url: None,
        }
    }
}


// ---------------------------------------------------------------------------
// Comparing and copying requests
// ---------------------------------------------------------------------------

/// Two optional texts agree.
pub open spec fn opt_text_same(a: Option<String>, b: Option<String>) -> bool {
    match (a, b) {
        (Some(x), Some(y)) => x@ == y@,
        (None, None) => true,
        _ => false,
    }
}

/// Two authentication settings agree in every field.
pub open spec fn auth_same(a: AuthType, b: AuthType) -> bool {
    match (a, b) {
        (AuthType::NoAuth, AuthType::NoAuth) => true,
        (AuthType::Inherit, AuthType::Inherit) => true,
        (AuthType::Basic(x), AuthType::Basic(y)) => x.username@ == y.username@ && x.password@ == y.password@,
        (AuthType::Digest(x), AuthType::Digest(y)) => x.username@ == y.username@ && x.password@ == y.password@,
        (AuthType::Key(x), AuthType::Key(y)) => x.header@ == y.header@ && x.value@ == y.value@,
        (AuthType::OAuth2(x), AuthType::OAuth2(y)) => {
            &&& x.grant_type == y.grant_type
            &&& x.client_id@ == y.client_id@
            &&& x.client_secret@ == y.client_secret@
            &&& x.token_url@ == y.token_url@
            &&& opt_text_same(x.scope, y.scope)
            &&& opt_text_same(x.authorize_url, y.authorize_url)
            &&& opt_text_same(x.redirect_url, y.redirect_url)
            &&& opt_text_same(x.access_token, y.access_token)
            &&& opt_text_same(x.refresh_token, y.refresh_token)
            &&& x.expires_at == y.expires_at
        },
        (AuthType::Jwt(x), AuthType::Jwt(y)) => {
            &&& x.login_url@ == y.login_url@
            &&& x.username_field@ == y.username_field@
            &&& x.username@ == y.username@
            &&& x.password_field@ == y.password_field@
            &&& x.password@ == y.password@
            &&& x.token_field@ == y.token_field@
            &&& x.token_type_field@ == y.token_type_field@
            &&& x.expiry_field@ == y.expiry_field@
            &&& opt_text_same(x.access_token, y.access_token)
            &&& opt_text_same(x.token_type, y.token_type)
            &&& x.expires_at == y.expires_at
        },
        (AuthType::Unsupported { kind: k1, raw: r1 }, AuthType::Unsupported { kind: k2, raw: r2 }) => k1@ == k2@
            && r1@ == r2@,
        _ => false,
    }
}

/// Two lists of pairs agree pair by pair.
pub open spec fn pairs_same(a: Seq<KeyValuePair>, b: Seq<KeyValuePair>) -> bool {
    a.len() == b.len() && forall|i: int| 0 <= i < a.len() ==> #[trigger] kv_same(a[i], b[i])
}

/// Two requests agree in every field.
pub open spec fn request_same(a: RequestData, b: RequestData) -> bool {
    &&& a.name@ == b.name@
    &&& a.method == b.method
    &&& a.url@ == b.url@
    &&& pairs_same(a.path_params@, b.path_params@)
    &&& pairs_same(a.query_params@, b.query_params@)
    &&& pairs_same(a.headers@, b.headers@)
    &&& a.body@ == b.body@
    &&& opt_text_same(a.pre_request_script, b.pre_request_script)
    &&& opt_text_same(a.post_response_script, b.post_response_script)
    &&& auth_same(a.auth, b.auth)
    &&& pairs_same(a.vars@, b.vars@)
}

/// Whether two strings hold the same text.
pub fn text_equal(a: &String, b: &String) -> (r: bool)
    ensures
        r == (a@ == b@),
{
    let ac = chars_of(a.as_str());
    chars_eq_str(ac.as_slice(), b.as_str())
}

/// Whether two optional strings agree.
pub fn opt_text_equal(a: &Option<String>, b: &Option<String>) -> (r: bool)
    ensures
        r == opt_text_same(*a, *b),
{
    match (a, b) {
        (Some(x), Some(y)) => text_equal(x, y),
        (None, None) => true,
        _ => false,
    }
}

/// A copy of an optional string.
pub fn opt_text_copy(a: &Option<String>) -> (r: Option<String>)
    ensures
        opt_text_same(r, *a),
{
    match a {
        Some(x) => Some(x.clone()),
        None => None,
    }
}

/// Whether two authentication settings agree in every field.
pub fn auth_equal(a: &AuthType, b: &AuthType) -> (r: bool)
    ensures
        r == auth_same(*a, *b),
{
    match (a, b) {
        (AuthType::NoAuth, AuthType::NoAuth) => true,
        (AuthType::Inherit, AuthType::Inherit) => true,
        (AuthType::Basic(x), AuthType::Basic(y)) => text_equal(&x.username, &y.username) && text_equal(
            &x.password,
            &y.password,
        ),
        (AuthType::Digest(x), AuthType::Digest(y)) => text_equal(&x.username, &y.username) && text_equal(
            &x.password,
            &y.password,
        ),
        (AuthType::Key(x), AuthType::Key(y)) => text_equal(&x.header, &y.header) && text_equal(&x.value, &y.value),
        (AuthType::OAuth2(x), AuthType::OAuth2(y)) => {
            x.grant_type == y.grant_type && text_equal(&x.client_id, &y.client_id) && text_equal(
                &x.client_secret,
                &y.client_secret,
            ) && text_equal(&x.token_url, &y.token_url) && opt_text_equal(&x.scope, &y.scope)
                && opt_text_equal(&x.authorize_url, &y.authorize_url) && opt_text_equal(
                &x.redirect_url,
                &y.redirect_url,
            ) && opt_text_equal(&x.access_token, &y.access_token) && opt_text_equal(
                &x.refresh_token,
                &y.refresh_token,
            ) && x.expires_at == y.expires_at
        },
        (AuthType::Jwt(x), AuthType::Jwt(y)) => {
            text_equal(&x.login_url, &y.login_url) && text_equal(&x.username_field, &y.username_field)
                && text_equal(&x.username, &y.username) && text_equal(&x.password_field, &y.password_field)
                && text_equal(&x.password, &y.password) && text_equal(&x.token_field, &y.token_field)
                && text_equal(&x.token_type_field, &y.token_type_field) && text_equal(
                &x.expiry_field,
                &y.expiry_field,
            ) && opt_text_equal(&x.access_token, &y.access_token) && opt_text_equal(
                &x.token_type,
                &y.token_type,
            ) && x.expires_at == y.expires_at
        },
        (AuthType::Unsupported { kind: k1, raw: r1 }, AuthType::Unsupported { kind: k2, raw: r2 }) => text_equal(k1, k2)
            && data_equal(r1, r2),
        _ => false,
    }
}

impl AuthType {
    /// A field-by-field copy.
    pub fn duplicate(&self) -> (r: AuthType)
        ensures
            auth_same(r, *self),
    {
        match self {
            AuthType::NoAuth => AuthType::NoAuth,
            AuthType::Inherit => AuthType::Inherit,
            AuthType::Basic(x) => AuthType::Basic(BasicAuth { username: x.username.clone(), password: x.password.clone() }),
            AuthType::Digest(x) => AuthType::Digest(DigestAuth { username: x.username.clone(), password: x.password.clone() }),
            AuthType::Key(x) => AuthType::Key(KeyAuth { header: x.header.clone(), value: x.value.clone() }),
            AuthType::OAuth2(x) => AuthType::OAuth2(
                OAuth2Auth {
                    grant_type: x.grant_type,
                    client_id: x.client_id.clone(),
                    client_secret: x.client_secret.clone(),
                    token_url: x.token_url.clone(),
                    scope: opt_text_copy(&x.scope),
                    authorize_url: opt_text_copy(&x.authorize_url),
                    redirect_url: opt_text_copy(&x.redirect_url),
                    access_token: opt_text_copy(&x.access_token),
                    refresh_token: opt_text_copy(&x.refresh_token),
                    expires_at: x.expires_at,
                },
            ),
            AuthType::Jwt(x) => AuthType::Jwt(
                JwtAuth {
                    login_url: x.login_url.clone(),
                    username_field: x.username_field.clone(),
                    username: x.username.clone(),
                    password_field: x.password_field.clone(),
                    password: x.password.clone(),
                    token_field: x.token_field.clone(),
                    token_type_field: x.token_type_field.clone(),
                    expiry_field: x.expiry_field.clone(),
                    access_token: opt_text_copy(&x.access_token),
                    token_type: opt_text_copy(&x.token_type),
                    expires_at: x.expires_at,
                },
            ),
            AuthType::Unsupported { kind, raw } => AuthType::Unsupported { kind: kind.clone(), raw: raw.duplicate() },
        }
    }
}

/// Whether two lists of pairs agree pair by pair.
pub fn pairs_equal(a: &Vec<KeyValuePair>, b: &Vec<KeyValuePair>) -> (r: bool)
    ensures
        r == pairs_same(a@, b@),
{
    if a.len() != b.len() {
        return false;
    }
    let mut i: usize = 0;
    while i < a.len()
        invariant
            i <= a.len(),
            a.len() == b.len(),
            forall|j: int| 0 <= j < i ==> #[trigger] kv_same(a@[j], b@[j]),
        decreases a.len() - i,
    {
        if !(text_equal(&a[i].key, &b[i].key) && text_equal(&a[i].value, &b[i].value) && a[i].enabled
            == b[i].enabled) {
            assert(!kv_same(a@[i as int], b@[i as int]));
            return false;
        }
        i = i + 1;
    }
    true
}

/// Whether two requests agree in every field.
pub fn requests_equal(a: &RequestData, b: &RequestData) -> (r: bool)
    ensures
        r == request_same(*a, *b),
{
    text_equal(&a.name, &b.name) && a.method == b.method && text_equal(&a.url, &b.url) && pairs_equal(
        &a.path_params,
        &b.path_params,
    ) && pairs_equal(&a.query_params, &b.query_params) && pairs_equal(&a.headers, &b.headers) && text_equal(
        &a.body,
        &b.body,
    ) && opt_text_equal(&a.pre_request_script, &b.pre_request_script) && opt_text_equal(
        &a.post_response_script,
        &b.post_response_script,
    ) && auth_equal(&a.auth, &b.auth) && pairs_equal(&a.vars, &b.vars)
}

} // verus!
