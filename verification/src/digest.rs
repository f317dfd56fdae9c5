//! Digest authentication: a request is first sent without credentials; when
//! the server answers with a Digest challenge, the answer to that challenge
//! is computed and the request is sent again with it.

use vstd::prelude::*;

use crate::client::{digest_uri, HttpError};
use crate::client::digest_uri_of;
use crate::text::{append_str, chars_of, contains, starts_with, starts_with_str, string_of};

verus! {

#[verifier::external_type_specification]
#[verifier::external_body]
pub struct ExDigestChallenge(digest_auth::WwwAuthenticateHeader);

#[verifier::external_type_specification]
#[verifier::external_body]
pub struct ExDigestError(digest_auth::Error);

/// Whether `digest_auth::parse` reads a `WWW-Authenticate` text as a Digest
/// challenge (the realm and nonce present, every value closed, known
/// algorithm, charset and quality-of-protection names).
pub uninterp spec fn digest_challenge_parses(header: Seq<char>) -> bool;

/// Every character that stands before some `=` is ASCII.
pub open spec fn ascii_before_last_eq(s: Seq<char>) -> bool {
    forall|i: int, j: int| #![trigger s[i], s[j]] 0 <= i < j < s.len() && s[j] == '=' ==> (s[i] as u32) < 128
}

/// Whether every character before the last `=` of a text is ASCII.
pub fn ascii_before_last_eq_chars(v: &[char]) -> (r: bool)
    ensures
        r == ascii_before_last_eq(v@),
{
    let mut k: usize = v.len();
    while k > 0
        invariant
            k <= v.len(),
            forall|j: int| k <= j < v.len() ==> v@[j] != '=',
        decreases k,
    {
        if v[k - 1] == '=' {
            let last = k - 1;
            let mut i: usize = 0;
            while i < last
                invariant
                    i <= last,
                    last < v.len(),
                    v@[last as int] == '=',
                    forall|j: int| last < j < v.len() ==> v@[j] != '=',
                    forall|m: int| 0 <= m < i ==> (v@[m] as u32) < 128,
                decreases last - i,
            {
                if (v[i] as u32) >= 128 {
                    assert(!ascii_before_last_eq(v@)) by {
                        assert(v@[i as int] == v@[i as int] && v@[last as int] == '=');
                    }
                    return false;
                }
                i = i + 1;
            }
            assert forall|a: int, b: int| 0 <= a < b < v@.len() && v@[b] == '=' implies (v@[a] as u32) < 128 by {
                assert(b <= last);
            }
            return true;
        }
        k = k - 1;
    }
    true
}

/// `digest_auth::parse`: reads a `WWW-Authenticate` Digest challenge. It
/// succeeds exactly when `digest_challenge_parses` holds of the text; what
/// the challenge holds is not stated: it is only handed to
/// `answer_digest_challenge`. The crate cuts each parameter name out of the
/// text at character counts taken as byte offsets, which holds (and does not
/// panic) when every character before the last `=` is ASCII, hence the
/// `requires`.
#[verifier::external_body]
fn parse_digest_challenge(header: &str) -> (r: Result<digest_auth::WwwAuthenticateHeader, digest_auth::Error>)
    requires
        ascii_before_last_eq(header@),
    ensures
        r is Ok <==> digest_challenge_parses(header@),
{
    digest_auth::parse(header)
}

/// How `digest_auth` writes a value between double quotes: a backslash goes
/// before each backslash and each double quote.
pub open spec fn digest_quoted(s: Seq<char>) -> Seq<char>
    decreases s.len(),
{
    if s.len() == 0 {
        Seq::empty()
    } else {
        let c = s[0];
        let head = if c == '\\' || c == '"' {
            seq!['\\', c]
        } else {
            seq![c]
        };
        head + digest_quoted(s.drop_first())
    }
}

/// A quoted field of a Digest answer: `name="value"`, the value quoted.
pub open spec fn digest_field(name: Seq<char>, value: Seq<char>) -> Seq<char> {
    name + seq!['=', '"'] + digest_quoted(value) + seq!['"']
}

/// The `response` value `digest_auth` computes for a GET request: the hash,
/// by the named algorithm (`MD5`, `MD5-sess`, `SHA-256`, ...), of the user,
/// realm and password, the server nonce, the request count `nc` (eight hex
/// digits), the client nonce, the quality of protection and the URI (count,
/// client nonce and quality of protection are unused, and empty, when the
/// challenge names no quality of protection and the algorithm is not a
/// session one).
pub uninterp spec fn digest_response(
    algorithm: Seq<char>,
    username: Seq<char>,
    password: Seq<char>,
    realm: Seq<char>,
    nonce: Seq<char>,
    nc: Seq<char>,
    cnonce: Seq<char>,
    qop: Seq<char>,
    uri: Seq<char>,
) -> Seq<char>;

/// The answer holds the realm and the server nonce of some challenge, and the
/// response that `digest_response` gives for them, this user, password and
/// URI, and some algorithm, count, client nonce and quality of protection.
pub open spec fn answers_with(h: Seq<char>, username: Seq<char>, password: Seq<char>, uri: Seq<char>) -> bool {
    exists|algorithm: Seq<char>, realm: Seq<char>, nonce: Seq<char>, nc: Seq<char>, cnonce: Seq<char>, qop: Seq<char>|
        contains(h, digest_field("realm"@, realm)) && contains(h, digest_field("nonce"@, nonce)) && contains(
            h,
            digest_field(
                "response"@,
                #[trigger] digest_response(algorithm, username, password, realm, nonce, nc, cnonce, qop, uri),
            ),
        )
}

/// `WwwAuthenticateHeader::respond` for a GET context with the given user,
/// password and URI, written with `AuthorizationHeader`'s `Display`: the
/// answer starts with `Digest `; it holds the field `uri="..."` with the URI
/// given here; the field `username="..."` with the user given here unless
/// the challenge asked for a hashed user name (then `userhash=true` is
/// written); the challenge's `realm` and `nonce`; and the `response` that
/// `digest_response` names for the user, password and URI given here. The
/// client nonce the crate draws at random is not stated, nor which challenge
/// values went in.
#[verifier::external_body]
fn answer_digest_challenge(
    challenge: &mut digest_auth::WwwAuthenticateHeader,
    username: &str,
    password: &str,
    uri: &str,
) -> (r: Result<String, digest_auth::Error>)
    ensures
        r matches Ok(h) ==> starts_with(h@, "Digest "@),
        r matches Ok(h) ==> contains(h@, digest_field("uri"@, uri@)),
        r matches Ok(h) ==> contains(h@, digest_field("username"@, username@)) || contains(h@, "userhash=true"@),
        r matches Ok(h) ==> exists|
            algorithm: Seq<char>,
            realm: Seq<char>,
            nonce: Seq<char>,
            nc: Seq<char>,
            cnonce: Seq<char>,
            qop: Seq<char>,
        |
            contains(h@, digest_field("realm"@, realm)) && contains(h@, digest_field("nonce"@, nonce)) && contains(
                h@,
                digest_field(
                    "response"@,
                    #[trigger] digest_response(algorithm, username@, password@, realm, nonce, nc, cnonce, qop, uri@),
                ),
            ),
{
    let context = digest_auth::AuthContext::new(username, password, uri);
    match challenge.respond(&context) {
        Ok(h) => Ok(h.to_string()),
        Err(e) => Err(e),
    }
}

/// The text of a `digest_auth` error (its `Display`). Not stated.
#[verifier::external_body]
fn digest_error_text(e: &digest_auth::Error) -> (r: String) {
    e.to_string()
}

/// What follows the first answer to a request with digest authentication.
#[derive(Debug, Clone, PartialEq)]
pub enum DigestStep {
    /// The answer stands: it carries no Digest challenge.
    Done,
    /// Send the request again with this `Authorization` header.
    Retry { authorization: String },
    /// The challenge could not be read or answered.
    Failed(HttpError),
}

/// The first answer carries a Digest challenge: status 401 and a
/// `WWW-Authenticate` header that starts with `Digest`.
pub open spec fn is_digest_challenge(status: u16, www_authenticate: Option<Seq<char>>) -> bool {
    &&& status == 401
    &&& (www_authenticate matches Some(h) && starts_with(h, "Digest"@))
}

/// Error details: a fixed text followed by the crate's message.
fn details(prefix: &str, e: &digest_auth::Error) -> (r: String)
    ensures
        starts_with(r@, prefix@),
{
    let mut d = chars_of(prefix);
    let t = digest_error_text(e);
    append_str(&mut d, t.as_str());
    assert(d@.take(prefix@.len() as int) =~= prefix@);
    string_of(d.as_slice())
}

/// The `WWW-Authenticate` header as a character sequence, when there is one.
pub open spec fn header_view(www_authenticate: Option<&str>) -> Option<Seq<char>> {
    match www_authenticate {
        Some(h) => Some(h@),
        None => None,
    }
}

/// The challenge text can be read: every character before its last `=` is
/// ASCII, and `digest_auth` parses it.
pub open spec fn challenge_readable(www_authenticate: Option<&str>) -> bool {
    www_authenticate matches Some(h) && ascii_before_last_eq(h@) && digest_challenge_parses(h@)
}

/// Decides what to do after the first answer to a request with digest
/// authentication. Without a Digest challenge the answer stands; otherwise
/// the challenge is read and answered for the request URL's path (see
/// `digest_uri`), and the request is to be sent again with the answer. A
/// challenge with a character outside ASCII before its last `=` is refused
/// as unreadable.
pub fn digest_next_step(
    status: u16,
    www_authenticate: Option<&str>,
    url: &str,
    username: &str,
    password: &str,
) -> (s: DigestStep)
    ensures
        !is_digest_challenge(status, header_view(www_authenticate)) <==> s is Done,
        (s matches DigestStep::Failed(e) && e.summary@ == "Failed to parse Digest challenge"@) <==> (
        is_digest_challenge(status, header_view(www_authenticate)) && !challenge_readable(www_authenticate)),
        s matches DigestStep::Failed(e) ==> (e.summary@ == "Failed to parse Digest challenge"@ && starts_with(
            e.details@,
            "Failed to parse WWW-Authenticate header: "@,
        )) || (e.summary@ == "Failed to compute Digest response"@ && starts_with(
            e.details@,
            "Failed to compute digest auth response: "@,
        )),
        s matches DigestStep::Retry { authorization } ==> {
            &&& starts_with(authorization@, "Digest "@)
            &&& contains(authorization@, digest_field("uri"@, digest_uri_of(url@)))
            &&& (contains(authorization@, digest_field("username"@, username@)) || contains(
                authorization@,
                "userhash=true"@,
            ))
            &&& answers_with(authorization@, username@, password@, digest_uri_of(url@))
        },
{
    proof {
        reveal_strlit("Failed to parse Digest challenge");
        reveal_strlit("Failed to compute Digest response");
    }
    if status != 401 {
        return DigestStep::Done;
    }
    let header = match www_authenticate {
        Some(h) => h,
        None => {
            return DigestStep::Done;
        },
    };
    let hc = chars_of(header);
    if !starts_with_str(hc.as_slice(), "Digest") {
        return DigestStep::Done;
    }
    if !ascii_before_last_eq_chars(hc.as_slice()) {
        let mut d = chars_of("Failed to parse WWW-Authenticate header: ");
        append_str(&mut d, "a parameter name holds characters outside ASCII");
        proof {
            reveal_strlit("Failed to parse WWW-Authenticate header: ");
        }
        assert(d@.take("Failed to parse WWW-Authenticate header: "@.len() as int) =~= "Failed to parse WWW-Authenticate header: "@);
        return DigestStep::Failed(
            HttpError { summary: "Failed to parse Digest challenge".to_string(), details: string_of(d.as_slice()) },
        );
    }
    let mut challenge = match parse_digest_challenge(header) {
        Ok(c) => c,
        Err(e) => {
            let d = details("Failed to parse WWW-Authenticate header: ", &e);
            return DigestStep::Failed(HttpError { summary: "Failed to parse Digest challenge".to_string(), details: d });
        },
    };
    let uri = digest_uri(url);
    match answer_digest_challenge(&mut challenge, username, password, uri.as_str()) {
        Ok(authorization) => DigestStep::Retry { authorization },
        Err(e) => {
            let d = details("Failed to compute digest auth response: ", &e);
            assert("Failed to compute Digest response"@[10] != "Failed to parse Digest challenge"@[10]);
            DigestStep::Failed(HttpError { summary: "Failed to compute Digest response".to_string(), details: d })
        },
    }
}

} // verus!
