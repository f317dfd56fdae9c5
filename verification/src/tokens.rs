//! Access tokens: expiry checks, reading token replies, the OAuth2
//! authorization-code callback and authorization URL, and the decision of
//! which token a request needs before it is sent.

use vstd::prelude::*;

use crate::client::HttpError;
use crate::domain::{AuthType, JwtAuth, OAuth2Auth, OAuth2GrantType};
use crate::encoding::{url_encode, url_encode_str};
use crate::text::{
    chars_of, first_line, first_line_exec, push_str, split_char, split_chars,
    split_once_char, split_once_exec, string_of, views_of,
};

verus! {

// ---------------------------------------------------------------------------
// Clock and expiry
// ---------------------------------------------------------------------------

/// The current Unix time in seconds, read from `std::time::SystemTime`
/// (0 when the clock is before the epoch). Nothing is stated of the value:
/// it is the time.
#[verifier::external_body]
pub fn current_unix_timestamp() -> (t: i64) {
    match std::time::SystemTime::now().duration_since(std::time::UNIX_EPOCH) {
        Ok(d) => d.as_secs() as i64,
        Err(_) => 0,
    }
}

/// An expiry time for which the 60-second margin can be computed.
pub open spec fn expiry_in_range(expires_at: Option<i64>) -> bool {
    match expires_at {
        Some(e) => e >= i64::MIN + 60,
        None => true,
    }
}

/// Whether a stored expiry time leaves room for the 60-second margin.
pub fn expiry_is_in_range(expires_at: Option<i64>) -> (b: bool)
    ensures
        b == expiry_in_range(expires_at),
{
    match expires_at {
        Some(e) => e >= i64::MIN + 60,
        None => true,
    }
}

/// The stored token expiry times of an authentication setting leave room for
/// the 60-second margin (settings without tokens always do).
pub open spec fn auth_tokens_in_range(auth: AuthType) -> bool {
    match auth {
        AuthType::OAuth2(o) => expiry_in_range(o.expires_at),
        AuthType::Jwt(j) => expiry_in_range(j.expires_at),
        _ => true,
    }
}

/// Whether the token checks can run on an authentication setting.
pub fn tokens_in_range(auth: &AuthType) -> (b: bool)
    ensures
        b == auth_tokens_in_range(*auth),
{
    match auth {
        AuthType::OAuth2(o) => expiry_is_in_range(o.expires_at),
        AuthType::Jwt(j) => expiry_is_in_range(j.expires_at),
        _ => true,
    }
}

/// A token is expired at time `now` when it has no value, or when it expires
/// within 60 seconds; a token with a value and no expiry time never expires.
pub open spec fn token_expired_at(expires_at: Option<i64>, has_token: bool, now: i64) -> bool {
    !has_token || match expires_at {
        Some(e) => now >= e - 60,
        None => false,
    }
}

/// Whether a token is expired at the given time.
pub fn is_token_expired_at(expires_at: Option<i64>, has_token: bool, now: i64) -> (b: bool)
    requires
        expiry_in_range(expires_at),
    ensures
        b == token_expired_at(expires_at, has_token, now),
{
    if !has_token {
        return true;
    }
    match expires_at {
        Some(e) => now >= e - 60,
        None => false,
    }
}

/// Check if a token is expired based on its expiration timestamp.
/// Returns true if the token has no value or expires within 60 seconds.
pub fn is_token_expired(expires_at: Option<i64>, has_token: bool) -> (b: bool)
    requires
        expiry_in_range(expires_at),
    ensures
        exists|now: i64| b == #[trigger] token_expired_at(expires_at, has_token, now),
        !has_token ==> b,
        expires_at is None ==> b == !has_token,
{
    let now = current_unix_timestamp();
    is_token_expired_at(expires_at, has_token, now)
}

/// Check if JWT token is expired or missing
pub fn is_jwt_token_expired(jwt: &JwtAuth) -> (b: bool)
    requires
        expiry_in_range(jwt.expires_at),
    ensures
        exists|now: i64| b == #[trigger] token_expired_at(jwt.expires_at, jwt.access_token is Some, now),
        jwt.access_token is None ==> b,
        jwt.expires_at is None ==> b == (jwt.access_token is None),
{
    is_token_expired(jwt.expires_at, jwt.access_token.is_some())
}

/// Check if the OAuth2 token has expired or will expire soon
pub fn is_oauth_token_expired(oauth: &OAuth2Auth) -> (b: bool)
    requires
        expiry_in_range(oauth.expires_at),
    ensures
        exists|now: i64| b == #[trigger] token_expired_at(oauth.expires_at, oauth.access_token is Some, now),
        oauth.access_token is None ==> b,
        oauth.expires_at is None ==> b == (oauth.access_token is None),
{
    is_token_expired(oauth.expires_at, oauth.access_token.is_some())
}

/// The expiry time `expires_in` seconds after `now`, or `None` when it does not fit.
pub open spec fn expires_at_after(now: i64, expires_in: u64) -> Option<i64> {
    let t = now + (expires_in as i64);
    if i64::MIN <= t <= i64::MAX {
        Some(t as i64)
    } else {
        None
    }
}

/// The expiry time `expires_in` seconds after `now` (the count converted to
/// `i64` as `as` does), or `None` when the sum does not fit in `i64`.
pub fn expires_at_from(now: i64, expires_in: u64) -> (r: Option<i64>)
    ensures
        r == expires_at_after(now, expires_in),
{
    now.checked_add(expires_in as i64)
}

/// Calculate expiration timestamp from expires_in seconds, from the current
/// time; `None` when the sum does not fit in `i64`.
pub fn calculate_expires_at(expires_in: u64) -> (r: Option<i64>)
    ensures
        exists|now: i64| r == expires_at_after(now, expires_in),
{
    let now = current_unix_timestamp();
    let r = expires_at_from(now, expires_in);
    assert(r == expires_at_after(now, expires_in));
    r
}

// ---------------------------------------------------------------------------
// JWT login replies
// ---------------------------------------------------------------------------

/// What a JSON reply holds under the configured expiry field.
#[derive(Debug, Clone, PartialEq)]
pub enum ExpiryField {
    /// The field is absent.
    Missing,
    /// A number that fits in `i64`.
    Integer(i64),
    /// A number that does not fit in `i64` (a fraction, or too large).
    OtherNumber,
    /// A string.
    Text(String),
    /// Any other JSON value.
    Other,
}

/// What `chrono::DateTime::parse_from_rfc3339` gives for a text, as a Unix
/// timestamp in seconds; `None` when the text is not RFC 3339.
pub uninterp spec fn rfc3339_seconds(s: Seq<char>) -> Option<i64>;

/// `chrono::DateTime::parse_from_rfc3339` followed by `timestamp()`: the Unix
/// time of an RFC 3339 date, or `None` when the text does not parse. The
/// result is named by `rfc3339_seconds`; the date grammar is not restated.
#[verifier::external_body]
pub fn parse_rfc3339_seconds(s: &str) -> (r: Option<i64>)
    ensures
        r == rfc3339_seconds(s@),
{
    match chrono::DateTime::parse_from_rfc3339(s) {
        Ok(dt) => Some(dt.timestamp()),
        Err(_) => None,
    }
}

/// A relative lifetime can be added to `now`.
pub open spec fn expiry_fits(field: ExpiryField, now: i64) -> bool {
    match field {
        ExpiryField::Integer(n) => n < 100000 ==> i64::MIN <= now + n <= i64::MAX,
        _ => true,
    }
}

/// Whether a relative lifetime can be added to `now`.
pub fn expiry_fits_at(field: &ExpiryField, now: i64) -> (b: bool)
    ensures
        b == expiry_fits(*field, now),
{
    match field {
        ExpiryField::Integer(n) => if *n < 100000 {
            now.checked_add(*n).is_some()
        } else {
            true
        },
        _ => true,
    }
}

/// The expiry time a reply field announces at time `now`: numbers below
/// 100000 are lifetimes in seconds, larger numbers are Unix timestamps, and
/// strings are RFC 3339 dates.
pub open spec fn expiry_from_field_spec(field: ExpiryField, now: i64) -> Option<i64> {
    match field {
        ExpiryField::Integer(n) => if n < 100000 {
            Some((now + n) as i64)
        } else {
            Some(n)
        },
        ExpiryField::Text(s) => rfc3339_seconds(s@),
        _ => None,
    }
}

/// Extract and parse expiry at time `now`, auto-detecting the format.
pub fn expiry_from_field(field: &ExpiryField, now: i64) -> (r: Option<i64>)
    requires
        expiry_fits(*field, now),
    ensures
        r == expiry_from_field_spec(*field, now),
{
    match field {
        ExpiryField::Integer(n) => {
            if *n < 100000 {
                Some(now + *n)
            } else {
                Some(*n)
            }
        },
        ExpiryField::Text(s) => parse_rfc3339_seconds(s.as_str()),
        _ => None,
    }
}

/// Extract and parse expiry, auto-detecting format, from the current time.
/// A lifetime that cannot be added to the current time gives `None`.
pub fn extract_expiry(field: &ExpiryField) -> (r: Option<i64>)
    ensures
        match *field {
            ExpiryField::Integer(n) => if n >= 100000 {
                r == Some(n)
            } else {
                r matches Some(t) ==> exists|now: i64| expiry_from_field_spec(*field, now) == Some(t)
            },
            ExpiryField::Text(s) => r == rfc3339_seconds(s@),
            _ => r is None,
        },
{
    let now = current_unix_timestamp();
    if let ExpiryField::Integer(n) = field {
        if *n < 100000 {
            return match now.checked_add(*n) {
                Some(t) => Some(t),
                None => None,
            };
        }
    }
    expiry_from_field(field, now)
}

/// A JWT login reply, read from its JSON body.
#[derive(Debug, Clone, PartialEq)]
pub struct JwtLoginReply {
    /// The string under the configured token field, if that field is a string.
    pub token: Option<String>,
    /// The string under the configured token-type field, if that field is a string.
    pub token_type: Option<String>,
    pub expiry: ExpiryField,
}

#[derive(Debug, Clone, PartialEq)]
pub struct JwtTokenResponse {
    pub access_token: String,
    pub token_type: Option<String>,
    pub expires_at: Option<i64>,
}

/// The token a JWT login reply carries at time `now`, or the error reported
/// when the reply has no token under the configured field.
pub fn jwt_token_from_reply(jwt: &JwtAuth, reply: &JwtLoginReply, now: i64) -> (r: Result<JwtTokenResponse, HttpError>)
    requires
        expiry_fits(reply.expiry, now),
    ensures
        match r {
            Ok(t) => reply.token matches Some(tok) && t.access_token@ == tok@ && t.token_type
                == reply.token_type && t.expires_at == expiry_from_field_spec(reply.expiry, now),
            Err(e) => reply.token is None && e.summary@ == "JWT response missing token"@ && e.details@
                == "Field '"@ + jwt.token_field@ + "' not found in response"@,
        },
{
    match &reply.token {
        None => {
            let mut details = "Field '".to_string();
            push_str(&mut details, jwt.token_field.as_str());
            push_str(&mut details, "' not found in response");
            Err(HttpError { summary: "JWT response missing token".to_string(), details })
        },
        Some(tok) => Ok(
            JwtTokenResponse {
                access_token: tok.clone(),
                token_type: reply.token_type.clone(),
                expires_at: expiry_from_field(&reply.expiry, now),
            },
        ),
    }
}

/// Stores a fetched JWT token.
pub fn apply_jwt_token(jwt: &mut JwtAuth, token: JwtTokenResponse)
    ensures
        final(jwt).access_token matches Some(t) && t@ == token.access_token@,
        final(jwt).token_type == token.token_type,
        final(jwt).expires_at == token.expires_at,
        final(jwt).login_url == old(jwt).login_url,
        final(jwt).username == old(jwt).username,
        final(jwt).password == old(jwt).password,
        final(jwt).token_field == old(jwt).token_field,
        final(jwt).username_field == old(jwt).username_field,
        final(jwt).password_field == old(jwt).password_field,
        final(jwt).token_type_field == old(jwt).token_type_field,
        final(jwt).expiry_field == old(jwt).expiry_field,
{
    jwt.access_token = Some(token.access_token);
    jwt.token_type = token.token_type;
    jwt.expires_at = token.expires_at;
}

// ---------------------------------------------------------------------------
// OAuth2
// ---------------------------------------------------------------------------

/// OAuth2 token response from authorization server
#[derive(Debug, Clone, PartialEq)]
pub struct TokenResponse {
    pub access_token: String,
    pub token_type: String,
    pub expires_in: Option<u64>,
    pub refresh_token: Option<String>,
    pub scope: Option<String>,
}

/// Result of authorization code callback
#[derive(Debug, Clone, PartialEq)]
pub struct AuthCodeResult {
    pub code: String,
    pub state: Option<String>,
}

/// `n` is `o` with the token `token` stored at time `now`: the access and
/// refresh tokens are replaced; the expiry time is set when the reply gives a
/// lifetime that can be added to `now`, and kept otherwise; the rest stays.
pub open spec fn token_stored(o: OAuth2Auth, token: TokenResponse, now: i64, n: OAuth2Auth) -> bool {
    &&& n.access_token matches Some(t) && t@ == token.access_token@
    &&& n.refresh_token == token.refresh_token
    &&& n.expires_at == match token.expires_in {
        Some(s) => match expires_at_after(now, s) {
            Some(t) => Some(t),
            None => o.expires_at,
        },
        None => o.expires_at,
    }
    &&& n.grant_type == o.grant_type
    &&& n.client_id == o.client_id
    &&& n.client_secret == o.client_secret
    &&& n.token_url == o.token_url
    &&& n.scope == o.scope
    &&& n.authorize_url == o.authorize_url
    &&& n.redirect_url == o.redirect_url
}

/// Stores a fetched OAuth2 token at time `now`: the access and refresh tokens
/// are replaced; the expiry time is set when the reply gives a lifetime that
/// can be added to `now`, and kept otherwise.
pub fn apply_oauth_token(oauth: &mut OAuth2Auth, token: TokenResponse, now: i64)
    ensures
        token_stored(*old(oauth), token, now, *final(oauth)),
{
    oauth.access_token = Some(token.access_token);
    oauth.refresh_token = token.refresh_token;
    if let Some(expires_in) = token.expires_in {
        if let Some(t) = expires_at_from(now, expires_in) {
            oauth.expires_at = Some(t);
        }
    }
}

/// What must happen before an OAuth2 request can be sent.
#[derive(Debug, Clone, PartialEq)]
pub enum OAuthStep {
    /// The stored token is still valid.
    UpToDate,
    /// Fetch a token with the client-credentials grant.
    FetchClientCredentials,
    /// Run the authorization-code flow against this authorization URL.
    AuthorizeAt(String),
    /// The flow cannot proceed.
    Fail(HttpError),
}

/// The step an OAuth2 configuration needs at time `now`.
pub fn oauth_next_step(oauth: &OAuth2Auth, now: i64) -> (s: OAuthStep)
    requires
        expiry_in_range(oauth.expires_at),
    ensures
        !token_expired_at(oauth.expires_at, oauth.access_token is Some, now) ==> s is UpToDate,
        token_expired_at(oauth.expires_at, oauth.access_token is Some, now) ==> match oauth.grant_type {
            OAuth2GrantType::ClientCredentials => s is FetchClientCredentials,
            OAuth2GrantType::AuthorizationCode => match oauth.authorize_url {
                Some(u) => s matches OAuthStep::AuthorizeAt(a) && a@ == u@,
                None => s matches OAuthStep::Fail(e) && e.summary@ == "OAuth2 authorization URL missing"@
                    && e.details@ == "Authorization URL is required for authorization code flow"@,
            },
            OAuth2GrantType::Password => s matches OAuthStep::Fail(e) && e.summary@
                == "Password grant not supported"@ && e.details@
                == "Use client credentials or authorization code flow"@,
        },
{
    if !is_token_expired_at(oauth.expires_at, oauth.access_token.is_some(), now) {
        return OAuthStep::UpToDate;
    }
    match oauth.grant_type {
        OAuth2GrantType::ClientCredentials => OAuthStep::FetchClientCredentials,
        OAuth2GrantType::AuthorizationCode => match &oauth.authorize_url {
            Some(u) => OAuthStep::AuthorizeAt(u.clone()),
            None => OAuthStep::Fail(
                HttpError::new(
                    "OAuth2 authorization URL missing",
                    "Authorization URL is required for authorization code flow",
                ),
            ),
        },
        OAuth2GrantType::Password => OAuthStep::Fail(
            HttpError::new("Password grant not supported", "Use client credentials or authorization code flow"),
        ),
    }
}

/// What came of handing step `s` to `obtain`: on success a token it returned
/// is stored; on failure the error it returned is the result.
pub open spec fn obtained<F: FnOnce(&OAuth2Auth, &OAuthStep) -> Result<TokenResponse, HttpError>>(
    obtain: F,
    o: OAuth2Auth,
    s: OAuthStep,
    now: i64,
    r: Result<(), HttpError>,
    n: OAuth2Auth,
) -> bool {
    match r {
        Ok(_) => exists|t: TokenResponse|
            #![trigger token_stored(o, t, now, n)]
            obtain.ensures((&o, &s), Ok::<TokenResponse, HttpError>(t)) && token_stored(o, t, now, n),
        Err(e) => obtain.ensures((&o, &s), Err::<TokenResponse, HttpError>(e)),
    }
}

/// Ensure OAuth2 has a valid access token, obtaining one if necessary. While
/// the stored token is valid nothing is done. Otherwise the step that
/// `oauth_next_step` decides is taken: a step that cannot proceed is the
/// error; a fetch (client credentials) or an authorization (authorization
/// code, at the configured URL) is handed to `obtain`, which talks to the
/// token endpoint (and the browser), and the token it returns is stored. On
/// any error the settings stay as they were.
pub fn ensure_oauth2_token<F: FnOnce(&OAuth2Auth, &OAuthStep) -> Result<TokenResponse, HttpError>>(
    oauth: &mut OAuth2Auth,
    now: i64,
    obtain: F,
) -> (r: Result<(), HttpError>)
    requires
        expiry_in_range(old(oauth).expires_at),
        forall|o: &OAuth2Auth, s: &OAuthStep| obtain.requires((o, s)),
    ensures
        r is Err ==> *final(oauth) == *old(oauth),
        !token_expired_at(old(oauth).expires_at, old(oauth).access_token is Some, now) ==> r is Ok && *final(oauth)
            == *old(oauth),
        token_expired_at(old(oauth).expires_at, old(oauth).access_token is Some, now) ==> match old(
            oauth,
        ).grant_type {
            OAuth2GrantType::Password => r matches Err(e) && e.summary@ == "Password grant not supported"@
                && e.details@ == "Use client credentials or authorization code flow"@,
            OAuth2GrantType::ClientCredentials => obtained(
                obtain,
                *old(oauth),
                OAuthStep::FetchClientCredentials,
                now,
                r,
                *final(oauth),
            ),
            OAuth2GrantType::AuthorizationCode => match old(oauth).authorize_url {
                None => r matches Err(e) && e.summary@ == "OAuth2 authorization URL missing"@ && e.details@
                    == "Authorization URL is required for authorization code flow"@,
                Some(u) => exists|a: String|
                    a@ == u@ && #[trigger] obtained(obtain, *old(oauth), OAuthStep::AuthorizeAt(a), now, r, *final(oauth)),
            },
        },
{
    let step = oauth_next_step(oauth, now);
    match step {
        OAuthStep::UpToDate => {
            assert(*oauth == *old(oauth));
            assert(!token_expired_at(old(oauth).expires_at, old(oauth).access_token is Some, now)) by {
                if token_expired_at(oauth.expires_at, oauth.access_token is Some, now) {
                    match oauth.grant_type {
                        OAuth2GrantType::AuthorizationCode => {
                            assert(oauth.authorize_url is Some || oauth.authorize_url is None);
                        },
                        _ => {},
                    }
                }
            }
            Ok(())
        },
        OAuthStep::Fail(e) => Err(e),
        _ => {
            let ghost o0 = *oauth;
            let reply = obtain(&*oauth, &step);
            let r: Result<(), HttpError> = match reply {
                Ok(t) => {
                    let ghost t0 = t;
                    apply_oauth_token(oauth, t, now);
                    assert(token_stored(o0, t0, now, *oauth));
                    Ok(())
                },
                Err(e) => Err(e),
            };
            assert(obtained(obtain, o0, step, now, r, *oauth));
            r
        },
    }
}

/// Which token, if any, is fetched automatically before a request is sent.
#[derive(Debug, Clone, Copy, PartialEq, Eq, Structural)]
pub enum TokenSource {
    NoFetch,
    OAuth2,
    Jwt,
}

/// OAuth2 tokens are fetched automatically only for the client-credentials
/// grant with a token URL; JWT tokens only when a login URL is set.
pub open spec fn token_source_of(auth: AuthType) -> TokenSource {
    match auth {
        AuthType::OAuth2(o) => if o.grant_type == OAuth2GrantType::ClientCredentials && o.token_url@.len() > 0 {
            TokenSource::OAuth2
        } else {
            TokenSource::NoFetch
        },
        AuthType::Jwt(j) => if j.login_url@.len() > 0 {
            TokenSource::Jwt
        } else {
            TokenSource::NoFetch
        },
        _ => TokenSource::NoFetch,
    }
}

/// The token a request's authentication needs fetched before sending.
pub fn token_source(auth: &AuthType) -> (s: TokenSource)
    ensures
        s == token_source_of(*auth),
{
    match auth {
        AuthType::OAuth2(o) => {
            if o.grant_type == OAuth2GrantType::ClientCredentials && !o.token_url.as_str().is_empty() {
                TokenSource::OAuth2
            } else {
                TokenSource::NoFetch
            }
        },
        AuthType::Jwt(j) => {
            if !j.login_url.as_str().is_empty() {
                TokenSource::Jwt
            } else {
                TokenSource::NoFetch
            }
        },
        _ => TokenSource::NoFetch,
    }
}

/// The request path of an HTTP request text: the second space-separated
/// word of its first line.
pub open spec fn request_path(request: Seq<char>) -> Result<Seq<char>, (Seq<char>, Seq<char>)> {
    match first_line(request) {
        None => Err(("Invalid HTTP request"@, "Empty request"@)),
        Some(l) => {
            let words = split_char(l, ' ');
            if words.len() > 1 {
                Ok(words[1])
            } else {
                Err(("Invalid HTTP request"@, "No path in request"@))
            }
        },
    }
}

/// The path of the first request line.
pub fn extract_path(request: &str) -> (r: Result<String, HttpError>)
    ensures
        match (r, request_path(request@)) {
            (Ok(p), Ok(sp)) => p@ == sp,
            (Err(e), Err((s, d))) => e.summary@ == s && e.details@ == d,
            _ => false,
        },
{
    let v = chars_of(request);
    let line = match first_line_exec(v.as_slice()) {
        Some(l) => l,
        None => return Err(HttpError::new("Invalid HTTP request", "Empty request")),
    };
    let words = split_chars(line.as_slice(), ' ');
    if words.len() > 1 {
        assert(views_of(words@)[1] == words@[1]@);
        Ok(string_of(words[1].as_slice()))
    } else {
        Err(HttpError::new("Invalid HTTP request", "No path in request"))
    }
}

/// The query part of a request path: the text after the first `?`, up to any
/// further `?`; empty without a `?`.
pub open spec fn query_of(path: Seq<char>) -> Seq<char> {
    let parts = split_char(path, '?');
    if parts.len() > 1 {
        parts[1]
    } else {
        Seq::empty()
    }
}

/// `name=value` (value empty when there is no `=`).
pub open spec fn query_pair(piece: Seq<char>) -> (Seq<char>, Seq<char>) {
    match split_once_char(piece, '=') {
        Some((k, v)) => (k, v),
        None => (piece, Seq::empty()),
    }
}

/// The value of query parameter `k`; when a name repeats, the last one wins.
pub open spec fn query_param(pieces: Seq<Seq<char>>, k: Seq<char>) -> Option<Seq<char>>
    decreases pieces.len(),
{
    if pieces.len() == 0 {
        None
    } else if query_pair(pieces.last()).0 == k {
        Some(query_pair(pieces.last()).1)
    } else {
        query_param(pieces.drop_last(), k)
    }
}

/// The outcome of an OAuth2 redirect carrying `path`: an `error` parameter
/// fails (with `error_description` as details when present); otherwise a
/// `code` parameter is required, and `state` is passed along.
pub open spec fn callback_result(path: Seq<char>) -> Result<(Seq<char>, Option<Seq<char>>), (Seq<char>, Seq<char>)> {
    let pieces = split_char(query_of(path), '&');
    match query_param(pieces, "error"@) {
        Some(err) => Err(
            (
                "OAuth2 authorization failed"@,
                match query_param(pieces, "error_description"@) {
                    Some(d) => d,
                    None => err,
                },
            ),
        ),
        None => match query_param(pieces, "code"@) {
            None => Err(("OAuth2 callback missing code"@, "No authorization code in callback"@)),
            Some(code) => Ok((code, query_param(pieces, "state"@))),
        },
    }
}

/// Looks up a query parameter (last occurrence wins).
fn query_param_exec(pieces: &Vec<Vec<char>>, k: &str) -> (r: Option<Vec<char>>)
    ensures
        match r {
            Some(v) => query_param(views_of(pieces@), k@) == Some(v@),
            None => query_param(views_of(pieces@), k@) is None,
        },
{
    let ghost pv = views_of(pieces@);
    let key = chars_of(k);
    let mut i: usize = pieces.len();
    assert(pv.take(i as int) =~= pv);
    while i > 0
        invariant
            i <= pieces.len(),
            pv == views_of(pieces@),
            key@ == k@,
            query_param(pv.take(i as int), k@) == query_param(pv, k@),
        decreases i,
    {
        let ghost t = pv.take(i as int);
        assert(t.drop_last() =~= pv.take(i - 1));
        assert(t.last() == pieces@[i - 1]@);
        let (name, value) = match split_once_exec(pieces[i - 1].as_slice(), '=') {
            Some((a, b)) => (a, b),
            None => (pieces[i - 1].clone(), Vec::new()),
        };
        if crate::text::chars_eq(name.as_slice(), key.as_slice()) {
            return Some(value);
        }
        i = i - 1;
    }
    assert(pv.take(0) =~= Seq::<Seq<char>>::empty());
    None
}

/// Reads the OAuth2 redirect from the request a browser sent to the local
/// callback server.
pub fn parse_callback_request(request: &str) -> (r: Result<AuthCodeResult, HttpError>)
    ensures
        match request_path(request@) {
            Err((s, d)) => r matches Err(e) && e.summary@ == s && e.details@ == d,
            Ok(path) => match (r, callback_result(path)) {
                (Ok(a), Ok((code, state))) => a.code@ == code && match (a.state, state) {
                    (Some(x), Some(y)) => x@ == y,
                    (None, None) => true,
                    _ => false,
                },
                (Err(e), Err((s, d))) => e.summary@ == s && e.details@ == d,
                _ => false,
            },
        },
{
    let path = extract_path(request)?;
    let pv = chars_of(path.as_str());
    let parts = split_chars(pv.as_slice(), '?');
    let query: Vec<char> = if parts.len() > 1 {
        parts[1].clone()
    } else {
        Vec::new()
    };
    assert(query@ == query_of(path@));
    let pieces = split_chars(query.as_slice(), '&');
    if let Some(err) = query_param_exec(&pieces, "error") {
        let details = match query_param_exec(&pieces, "error_description") {
            Some(d) => string_of(d.as_slice()),
            None => string_of(err.as_slice()),
        };
        return Err(HttpError { summary: "OAuth2 authorization failed".to_string(), details });
    }
    let code = match query_param_exec(&pieces, "code") {
        Some(c) => string_of(c.as_slice()),
        None => return Err(HttpError::new("OAuth2 callback missing code", "No authorization code in callback")),
    };
    let state = match query_param_exec(&pieces, "state") {
        Some(s) => Some(string_of(s.as_slice())),
        None => None,
    };
    Ok(AuthCodeResult { code, state })
}

/// The authorization URL of the authorization-code flow.
pub open spec fn authorization_url(authorize_url: Seq<char>, oauth: OAuth2Auth, redirect_uri: Seq<char>) -> Seq<char> {
    authorize_url + "?response_type=code"@ + "&client_id="@ + url_encode(oauth.client_id@)
        + "&redirect_uri="@ + url_encode(redirect_uri) + match oauth.scope {
        Some(s) => "&scope="@ + url_encode(s@),
        None => Seq::empty(),
    }
}

/// Build the authorization URL with a provided authorize_url
pub fn build_authorization_url_with_url(authorize_url: &str, oauth: &OAuth2Auth, redirect_uri: &str) -> (url: String)
    ensures
        url@ == authorization_url(authorize_url@, *oauth, redirect_uri@),
{
    let mut url = authorize_url.to_string();
    push_str(&mut url, "?response_type=code");
    push_str(&mut url, "&client_id=");
    push_str(&mut url, url_encode_str(oauth.client_id.as_str()).as_str());
    push_str(&mut url, "&redirect_uri=");
    push_str(&mut url, url_encode_str(redirect_uri).as_str());
    if let Some(scope) = &oauth.scope {
        push_str(&mut url, "&scope=");
        push_str(&mut url, url_encode_str(scope.as_str()).as_str());
    }
    url
}


/// Once a token counts as expired, it stays expired as time goes on.
pub proof fn lemma_expired_stays_expired(expires_at: Option<i64>, has_token: bool, now: i64, later: i64)
    requires
        now <= later,
        token_expired_at(expires_at, has_token, now),
    ensures
        token_expired_at(expires_at, has_token, later),
{
}

} // verus!
