//! Substitution of `{{name}}` placeholders from variable buckets.

use vstd::prelude::*;

use crate::domain::{AuthType, BasicAuth, DigestAuth, JwtAuth, KeyAuth, KeyValuePair, OAuth2Auth, RequestData};
use crate::text::{chars_of, find_spec, first_occurrence_from, lemma_first_occurrence_unique, find_from, slice_chars, starts_with, string_of, trim, trim_chars, append_chars};
use crate::collection_types::{EnvironmentToml, EnvironmentVariable};
use crate::vars::VarMap;

verus! {

/// The four variable buckets, highest precedence first.
pub struct VarScope {
    pub runtime: Map<Seq<char>, Seq<char>>,
    pub collection: Map<Seq<char>, Seq<char>>,
    pub variables: Map<Seq<char>, Seq<char>>,
    pub secrets: Map<Seq<char>, Seq<char>>,
}

pub open spec fn scope_of(
    runtime_vars: &VarMap,
    collection_vars: &VarMap,
    variables: &VarMap,
    secrets: &VarMap,
) -> VarScope {
    VarScope {
        runtime: runtime_vars@,
        collection: collection_vars@,
        variables: variables@,
        secrets: secrets@,
    }
}

/// The value of a placeholder name: dynamic `$` names are never replaced; otherwise the
/// runtime bucket wins over the collection bucket, which wins over the environment
/// variables, which win over the secrets.
pub open spec fn scope_lookup(name: Seq<char>, sc: VarScope) -> Option<Seq<char>> {
    if starts_with(name, "$"@) {
        None
    } else if sc.runtime.contains_key(name) {
        Some(sc.runtime[name])
    } else if sc.collection.contains_key(name) {
        Some(sc.collection[name])
    } else if sc.variables.contains_key(name) {
        Some(sc.variables[name])
    } else if sc.secrets.contains_key(name) {
        Some(sc.secrets[name])
    } else {
        None
    }
}

/// The closing pair of braces.
pub open spec fn close_braces() -> Seq<char> {
    seq!['}', '}']
}

/// A placeholder opens at `i`: two opening braces, and a later closing pair.
pub open spec fn opens_at(s: Seq<char>, i: int) -> bool {
    0 <= i && i + 1 < s.len() && s[i] == '{' && s[i + 1] == '{' && find_spec(s, close_braces(), i + 2) is Some
}

/// The text of `s` from index `i` on, with each placeholder replaced by its
/// value, or kept verbatim (with its inner white space) when it has none.
/// Replaced values are not scanned again.
pub open spec fn resolve_from(s: Seq<char>, i: int, sc: VarScope) -> Seq<char>
    decreases s.len() - i,
{
    if i < 0 || i >= s.len() {
        Seq::empty()
    } else if opens_at(s, i) {
        let j = find_spec(s, close_braces(), i + 2)->0;
        let name = trim(s.subrange(i + 2, j));
        let piece = match scope_lookup(name, sc) {
            Some(v) => v,
            None => s.subrange(i, j + 2),
        };
        if i < j + 2 <= s.len() {
            piece + resolve_from(s, j + 2, sc)
        } else {
            piece
        }
    } else {
        seq![s[i]] + resolve_from(s, i + 1, sc)
    }
}

/// A whole text with its placeholders resolved.
pub open spec fn resolve_text(s: Seq<char>, sc: VarScope) -> Seq<char> {
    resolve_from(s, 0, sc)
}

/// Which bucket a name is read from: a `$` name from none; otherwise the
/// runtime bucket when it holds the name, else the collection bucket, else
/// the environment variables, else the secrets; no value when none holds it.
pub proof fn lemma_lookup_precedence(name: Seq<char>, sc: VarScope)
    ensures
        starts_with(name, "$"@) ==> scope_lookup(name, sc) is None,
        !starts_with(name, "$"@) && sc.runtime.contains_key(name) ==> scope_lookup(name, sc) == Some(
            sc.runtime[name],
        ),
        !starts_with(name, "$"@) && !sc.runtime.contains_key(name) && sc.collection.contains_key(name)
            ==> scope_lookup(name, sc) == Some(sc.collection[name]),
        !starts_with(name, "$"@) && !sc.runtime.contains_key(name) && !sc.collection.contains_key(name)
            && sc.variables.contains_key(name) ==> scope_lookup(name, sc) == Some(sc.variables[name]),
        !starts_with(name, "$"@) && !sc.runtime.contains_key(name) && !sc.collection.contains_key(name)
            && !sc.variables.contains_key(name) && sc.secrets.contains_key(name) ==> scope_lookup(name, sc)
            == Some(sc.secrets[name]),
        !sc.runtime.contains_key(name) && !sc.collection.contains_key(name) && !sc.variables.contains_key(name)
            && !sc.secrets.contains_key(name) ==> scope_lookup(name, sc) is None,
{
}

/// The exec form of `scope_lookup`.
pub fn lookup_var(
    name: &[char],
    runtime_vars: &VarMap,
    collection_vars: &VarMap,
    variables: &VarMap,
    secrets: &VarMap,
) -> (r: Option<String>)
    ensures
        match (r, scope_lookup(name@, scope_of(runtime_vars, collection_vars, variables, secrets))) {
            (Some(v), Some(sv)) => v@ == sv,
            (None, None) => true,
            _ => false,
        },
        !starts_with(name@, "$"@) && runtime_vars@.contains_key(name@) ==> (r matches Some(v) && v@
            == runtime_vars@[name@]),
        !starts_with(name@, "$"@) && !runtime_vars@.contains_key(name@) && collection_vars@.contains_key(name@)
            ==> (r matches Some(v) && v@ == collection_vars@[name@]),
        !starts_with(name@, "$"@) && !runtime_vars@.contains_key(name@) && !collection_vars@.contains_key(name@)
            && variables@.contains_key(name@) ==> (r matches Some(v) && v@ == variables@[name@]),
        !starts_with(name@, "$"@) && !runtime_vars@.contains_key(name@) && !collection_vars@.contains_key(name@)
            && !variables@.contains_key(name@) && secrets@.contains_key(name@) ==> (r matches Some(v) && v@
            == secrets@[name@]),
        starts_with(name@, "$"@) ==> r is None,
{
    proof {
        lemma_lookup_precedence(name@, scope_of(runtime_vars, collection_vars, variables, secrets));
    }
    if name.len() > 0 && name[0] == '$' {
        assert(starts_with(name@, "$"@)) by {
            reveal_strlit("$");
            assert(name@.take(1) =~= "$"@);
        }
        return None;
    }
    assert(!starts_with(name@, "$"@)) by {
        reveal_strlit("$");
        if starts_with(name@, "$"@) {
            assert(name@.take(1)[0] == '$');
        }
    }
    let key = string_of(name);
    if let Some(v) = runtime_vars.get(key.as_str()) {
        return Some(v.clone());
    }
    if let Some(v) = collection_vars.get(key.as_str()) {
        return Some(v.clone());
    }
    if let Some(v) = variables.get(key.as_str()) {
        return Some(v.clone());
    }
    if let Some(v) = secrets.get(key.as_str()) {
        return Some(v.clone());
    }
    None
}

/// Scan `input` for `{{ name }}` placeholders and replace each with its value,
/// preserving the original placeholder text when the name has none.
/// Whitespace inside the braces is trimmed. This is a single-pass scan, so
/// resolved values are not re-scanned.
pub fn resolve_placeholders(
    input: &str,
    runtime_vars: &VarMap,
    collection_vars: &VarMap,
    variables: &VarMap,
    secrets: &VarMap,
) -> (r: String)
    ensures
        r@ == resolve_text(input@, scope_of(runtime_vars, collection_vars, variables, secrets)),
{
    let ghost sc = scope_of(runtime_vars, collection_vars, variables, secrets);
    let s = chars_of(input);
    let close = chars_of("}}");
    proof {
        reveal_strlit("}}");
        assert(close@ =~= close_braces());
    }
    let mut out: Vec<char> = Vec::new();
    let mut i: usize = 0;
    assert(out@ + resolve_from(s@, 0, sc) =~= resolve_from(s@, 0, sc));
    while i < s.len()
        invariant
            i <= s.len(),
            close@ == close_braces(),
            s@ == input@,
            sc == scope_of(runtime_vars, collection_vars, variables, secrets),
            out@ + resolve_from(s@, i as int, sc) == resolve_from(s@, 0, sc),
        decreases s.len() - i,
    {
        let ghost before = out@;
        if s[i] == '{' && i + 1 < s.len() && s[i + 1] == '{' {
            if let Some(j) = find_from(s.as_slice(), close.as_slice(), i + 2) {
                proof {
                    assert(find_spec(s@, close_braces(), i + 2) is Some);
                    let jj = find_spec(s@, close_braces(), i + 2)->0;
                    lemma_first_occurrence_unique(s@, close_braces(), i + 2, j as int, jj);
                }
                let inner = slice_chars(s.as_slice(), i + 2, j);
                let name = trim_chars(inner.as_slice());
                match lookup_var(name.as_slice(), runtime_vars, collection_vars, variables, secrets) {
                    Some(v) => {
                        let vc = chars_of(v.as_str());
                        append_chars(&mut out, vc.as_slice());
                    },
                    None => {
                        let whole = slice_chars(s.as_slice(), i, j + 2);
                        append_chars(&mut out, whole.as_slice());
                    },
                }
                assert(out@ + resolve_from(s@, j + 2, sc) =~= before + resolve_from(s@, i as int, sc));
                i = j + 2;
                continue;
            }
        }
        assert(!opens_at(s@, i as int)) by {
            if opens_at(s@, i as int) {
                let jj = find_spec(s@, close_braces(), i + 2)->0;
                assert(first_occurrence_from(s@, close_braces(), i + 2, jj));
            }
        }
        out.push(s[i]);
        assert(out@ + resolve_from(s@, i + 1, sc) =~= before + resolve_from(s@, i as int, sc));
        i = i + 1;
    }
    assert(resolve_from(s@, i as int, sc) =~= Seq::<char>::empty());
    assert(out@ =~= out@ + Seq::<char>::empty());
    string_of(out.as_slice())
}

/// Environment variable resolver for HTTP requests
#[derive(Debug, Clone)]
pub struct EnvironmentResolver {}

/// Each enabled pair has its key and value resolved; disabled pairs are kept.
pub open spec fn pairs_resolved(old: Seq<KeyValuePair>, new: Seq<KeyValuePair>, sc: VarScope) -> bool {
    &&& new.len() == old.len()
    &&& forall|i: int|
        0 <= i < old.len() ==> {
            &&& (#[trigger] new[i]).enabled == old[i].enabled
            &&& if old[i].enabled {
                new[i].key@ == resolve_text(old[i].key@, sc) && new[i].value@ == resolve_text(
                    old[i].value@,
                    sc,
                )
            } else {
                new[i].key@ == old[i].key@ && new[i].value@ == old[i].value@
            }
        }
}

/// An optional text is resolved when present.
pub open spec fn opt_resolved(old: Option<String>, new: Option<String>, sc: VarScope) -> bool {
    match (old, new) {
        (Some(o), Some(n)) => n@ == resolve_text(o@, sc),
        (None, None) => true,
        _ => false,
    }
}

/// An optional text is copied.
pub open spec fn opt_same(old: Option<String>, new: Option<String>) -> bool {
    match (old, new) {
        (Some(o), Some(n)) => n@ == o@,
        (None, None) => true,
        _ => false,
    }
}

/// The authentication settings with every credential text resolved. JWT field
/// names, the JWT token type and expiry times are copied unchanged.
pub open spec fn auth_resolved(old: AuthType, new: AuthType, sc: VarScope) -> bool {
    match (old, new) {
        (AuthType::NoAuth, AuthType::NoAuth) => true,
        (AuthType::Inherit, AuthType::Inherit) => true,
        (AuthType::Unsupported { kind: k1, raw: r1 }, AuthType::Unsupported { kind: k2, raw: r2 }) => k2@
            == k1@ && r2@ == r1@,
        (AuthType::Basic(a), AuthType::Basic(b)) => b.username@ == resolve_text(a.username@, sc)
            && b.password@ == resolve_text(a.password@, sc),
        (AuthType::Digest(a), AuthType::Digest(b)) => b.username@ == resolve_text(a.username@, sc)
            && b.password@ == resolve_text(a.password@, sc),
        (AuthType::Key(a), AuthType::Key(b)) => b.header@ == resolve_text(a.header@, sc) && b.value@
            == resolve_text(a.value@, sc),
        (AuthType::OAuth2(a), AuthType::OAuth2(b)) => {
            &&& b.grant_type == a.grant_type
            &&& b.client_id@ == resolve_text(a.client_id@, sc)
            &&& b.client_secret@ == resolve_text(a.client_secret@, sc)
            &&& b.token_url@ == resolve_text(a.token_url@, sc)
            &&& opt_resolved(a.scope, b.scope, sc)
            &&& opt_resolved(a.authorize_url, b.authorize_url, sc)
            &&& opt_resolved(a.redirect_url, b.redirect_url, sc)
            &&& opt_resolved(a.access_token, b.access_token, sc)
            &&& opt_resolved(a.refresh_token, b.refresh_token, sc)
            &&& b.expires_at == a.expires_at
        },
        (AuthType::Jwt(a), AuthType::Jwt(b)) => {
            &&& b.login_url@ == resolve_text(a.login_url@, sc)
            &&& b.username_field@ == a.username_field@
            &&& b.username@ == resolve_text(a.username@, sc)
            &&& b.password_field@ == a.password_field@
            &&& b.password@ == resolve_text(a.password@, sc)
            &&& b.token_field@ == a.token_field@
            &&& b.token_type_field@ == a.token_type_field@
            &&& b.expiry_field@ == a.expiry_field@
            &&& opt_resolved(a.access_token, b.access_token, sc)
            &&& opt_same(a.token_type, b.token_type)
            &&& b.expires_at == a.expires_at
        },
        _ => false,
    }
}

/// Clones an optional text.
fn clone_opt(o: &Option<String>) -> (r: Option<String>)
    ensures
        opt_same(*o, r),
{
    match o {
        Some(s) => Some(s.clone()),
        None => None,
    }
}

impl Default for EnvironmentResolver {
    fn default() -> (r: Self) {
        EnvironmentResolver {}
    }
}

impl EnvironmentResolver {
    pub fn new() -> (r: Self) {
        EnvironmentResolver {}
    }

    /// Resolve variables in a string.
    ///
    /// Variables are in the format `{{variable_name}}`. Resolution precedence
    /// (highest to lowest): runtime > collection > environment > secret.
    /// Each placeholder is scanned in a single pass and resolved against the
    /// highest-precedence bucket that contains its name.
    pub fn resolve_string(
        &self,
        input: &str,
        runtime_vars: &VarMap,
        collection_vars: &VarMap,
        variables: &VarMap,
        secrets: &VarMap,
    ) -> (r: String)
        ensures
            r@ == resolve_text(input@, scope_of(runtime_vars, collection_vars, variables, secrets)),
    {
        resolve_placeholders(input, runtime_vars, collection_vars, variables, secrets)
    }

    fn resolve_opt(
        &self,
        o: &Option<String>,
        runtime_vars: &VarMap,
        collection_vars: &VarMap,
        variables: &VarMap,
        secrets: &VarMap,
    ) -> (r: Option<String>)
        ensures
            opt_resolved(*o, r, scope_of(runtime_vars, collection_vars, variables, secrets)),
    {
        match o {
            Some(s) => Some(self.resolve_string(s.as_str(), runtime_vars, collection_vars, variables, secrets)),
            None => None,
        }
    }

    /// Resolves the enabled pairs of a list.
    fn resolve_pairs(
        &self,
        pairs: &Vec<KeyValuePair>,
        runtime_vars: &VarMap,
        collection_vars: &VarMap,
        variables: &VarMap,
        secrets: &VarMap,
    ) -> (r: Vec<KeyValuePair>)
        ensures
            pairs_resolved(pairs@, r@, scope_of(runtime_vars, collection_vars, variables, secrets)),
    {
        let ghost sc = scope_of(runtime_vars, collection_vars, variables, secrets);
        let mut out: Vec<KeyValuePair> = Vec::new();
        let mut i: usize = 0;
        while i < pairs.len()
            invariant
                i <= pairs.len(),
                sc == scope_of(runtime_vars, collection_vars, variables, secrets),
                pairs_resolved(pairs@.take(i as int), out@, sc),
            decreases pairs.len() - i,
        {
            let p = &pairs[i];
            let q = if p.enabled {
                KeyValuePair {
                    key: self.resolve_string(p.key.as_str(), runtime_vars, collection_vars, variables, secrets),
                    value: self.resolve_string(p.value.as_str(), runtime_vars, collection_vars, variables, secrets),
                    enabled: true,
                }
            } else {
                p.duplicate()
            };
            out.push(q);
            assert(pairs@.take(i + 1) =~= pairs@.take(i as int).push(pairs@[i as int]));
            i = i + 1;
        }
        assert(pairs@.take(pairs@.len() as int) =~= pairs@);
        out
    }

    /// Resolve all variables in a request: the URL, the enabled headers and
    /// query and path parameters (keys and values), the body and the
    /// authentication settings. Everything else is kept.
    pub fn resolve_request_data(
        &self,
        request_data: RequestData,
        runtime_vars: &VarMap,
        collection_vars: &VarMap,
        variables: &VarMap,
        secrets: &VarMap,
    ) -> (r: RequestData)
        ensures
            ({
                let sc = scope_of(runtime_vars, collection_vars, variables, secrets);
                &&& r.name == request_data.name
                &&& r.method == request_data.method
                &&& r.url@ == resolve_text(request_data.url@, sc)
                &&& pairs_resolved(request_data.headers@, r.headers@, sc)
                &&& pairs_resolved(request_data.query_params@, r.query_params@, sc)
                &&& pairs_resolved(request_data.path_params@, r.path_params@, sc)
                &&& r.body@ == resolve_text(request_data.body@, sc)
                &&& r.pre_request_script == request_data.pre_request_script
                &&& r.post_response_script == request_data.post_response_script
                &&& auth_resolved(request_data.auth, r.auth, sc)
                &&& r.vars == request_data.vars
            }),
    {
        let url = self.resolve_string(request_data.url.as_str(), runtime_vars, collection_vars, variables, secrets);
        let headers = self.resolve_pairs(&request_data.headers, runtime_vars, collection_vars, variables, secrets);
        let query_params = self.resolve_pairs(
            &request_data.query_params,
            runtime_vars,
            collection_vars,
            variables,
            secrets,
        );
        let path_params = self.resolve_pairs(
            &request_data.path_params,
            runtime_vars,
            collection_vars,
            variables,
            secrets,
        );
        let body = self.resolve_string(request_data.body.as_str(), runtime_vars, collection_vars, variables, secrets);
        let auth = self.resolve_auth(&request_data.auth, runtime_vars, collection_vars, variables, secrets);
        RequestData {
            name: request_data.name,
            method: request_data.method,
            url,
            path_params,
            query_params,
            headers,
            body,
            pre_request_script: request_data.pre_request_script,
            post_response_script: request_data.post_response_script,
            auth,
            vars: request_data.vars,
        }
    }

    /// Resolve variables in auth configuration
    pub fn resolve_auth(
        &self,
        auth: &AuthType,
        runtime_vars: &VarMap,
        collection_vars: &VarMap,
        variables: &VarMap,
        secrets: &VarMap,
    ) -> (r: AuthType)
        ensures
            auth_resolved(*auth, r, scope_of(runtime_vars, collection_vars, variables, secrets)),
    {
        match auth {
            AuthType::NoAuth => AuthType::NoAuth,
            AuthType::Inherit => AuthType::Inherit,
            AuthType::Unsupported { kind, raw } => AuthType::Unsupported { kind: kind.clone(), raw: raw.clone() },
            AuthType::Basic(basic) => AuthType::Basic(
                BasicAuth {
                    username: self.resolve_string(basic.username.as_str(), runtime_vars, collection_vars, variables, secrets),
                    password: self.resolve_string(basic.password.as_str(), runtime_vars, collection_vars, variables, secrets),
                },
            ),
            AuthType::Digest(digest) => AuthType::Digest(
                DigestAuth {
                    username: self.resolve_string(digest.username.as_str(), runtime_vars, collection_vars, variables, secrets),
                    password: self.resolve_string(digest.password.as_str(), runtime_vars, collection_vars, variables, secrets),
                },
            ),
            AuthType::Key(key) => AuthType::Key(
                KeyAuth {
                    header: self.resolve_string(key.header.as_str(), runtime_vars, collection_vars, variables, secrets),
                    value: self.resolve_string(key.value.as_str(), runtime_vars, collection_vars, variables, secrets),
                },
            ),
            AuthType::OAuth2(oauth) => AuthType::OAuth2(
                OAuth2Auth {
                    grant_type: oauth.grant_type,
                    client_id: self.resolve_string(oauth.client_id.as_str(), runtime_vars, collection_vars, variables, secrets),
                    client_secret: self.resolve_string(
                        oauth.client_secret.as_str(),
                        runtime_vars,
                        collection_vars,
                        variables,
                        secrets,
                    ),
                    token_url: self.resolve_string(oauth.token_url.as_str(), runtime_vars, collection_vars, variables, secrets),
                    scope: self.resolve_opt(&oauth.scope, runtime_vars, collection_vars, variables, secrets),
                    authorize_url: self.resolve_opt(&oauth.authorize_url, runtime_vars, collection_vars, variables, secrets),
                    redirect_url: self.resolve_opt(&oauth.redirect_url, runtime_vars, collection_vars, variables, secrets),
                    access_token: self.resolve_opt(&oauth.access_token, runtime_vars, collection_vars, variables, secrets),
                    refresh_token: self.resolve_opt(&oauth.refresh_token, runtime_vars, collection_vars, variables, secrets),
                    expires_at: oauth.expires_at,
                },
            ),
            AuthType::Jwt(jwt) => AuthType::Jwt(
                JwtAuth {
                    login_url: self.resolve_string(jwt.login_url.as_str(), runtime_vars, collection_vars, variables, secrets),
                    username_field: jwt.username_field.clone(),
                    username: self.resolve_string(jwt.username.as_str(), runtime_vars, collection_vars, variables, secrets),
                    password_field: jwt.password_field.clone(),
                    password: self.resolve_string(jwt.password.as_str(), runtime_vars, collection_vars, variables, secrets),
                    token_field: jwt.token_field.clone(),
                    token_type_field: jwt.token_type_field.clone(),
                    expiry_field: jwt.expiry_field.clone(),
                    access_token: self.resolve_opt(&jwt.access_token, runtime_vars, collection_vars, variables, secrets),
                    token_type: clone_opt(&jwt.token_type),
                    expires_at: jwt.expires_at,
                },
            ),
        }
    }
}

// ---------------------------------------------------------------------------
// Laws
// ---------------------------------------------------------------------------

/// A scope that knows no name.
pub open spec fn knows_nothing(sc: VarScope) -> bool {
    forall|name: Seq<char>| #[trigger] scope_lookup(name, sc) is None
}

/// Resolving with a scope that knows no name leaves the text unchanged:
/// unknown placeholders are kept verbatim, with their inner white space.
pub proof fn lemma_resolve_unknown_keeps_text(s: Seq<char>, sc: VarScope)
    requires
        knows_nothing(sc),
    ensures
        resolve_text(s, sc) == s,
{
    lemma_resolve_from_identity(s, 0, sc);
    assert(s.skip(0) =~= s);
}

proof fn lemma_resolve_from_identity(s: Seq<char>, i: int, sc: VarScope)
    requires
        knows_nothing(sc),
        0 <= i <= s.len(),
    ensures
        resolve_from(s, i, sc) == s.skip(i),
    decreases s.len() - i,
{
    if i < s.len() {
        if opens_at(s, i) {
            let j = find_spec(s, close_braces(), i + 2)->0;
            assert(first_occurrence_from(s, close_braces(), i + 2, j));
            assert(scope_lookup(trim(s.subrange(i + 2, j)), sc) is None);
            lemma_resolve_from_identity(s, j + 2, sc);
            assert(s.subrange(i, j + 2) + s.skip(j + 2) =~= s.skip(i));
        } else {
            lemma_resolve_from_identity(s, i + 1, sc);
            assert(seq![s[i]] + s.skip(i + 1) =~= s.skip(i));
        }
    } else {
        assert(s.skip(i) =~= Seq::<char>::empty());
    }
}

/// A text that is one placeholder, `{{` + `n` + `}}` with no `}` in `n`, is
/// resolved to the value of the trimmed name: from the runtime bucket when it
/// holds the name, else from the collection bucket, else from the environment
/// variables, else from the secrets; it is kept as it is when none holds it
/// or the name starts with `$`.
pub proof fn lemma_resolve_placeholder(n: Seq<char>, sc: VarScope)
    requires
        forall|k: int| 0 <= k < n.len() ==> n[k] != '}',
    ensures
        ({
            let s = seq!['{', '{'] + n + seq!['}', '}'];
            let name = trim(n);
            &&& !starts_with(name, "$"@) && sc.runtime.contains_key(name) ==> resolve_text(s, sc)
                == sc.runtime[name]
            &&& !starts_with(name, "$"@) && !sc.runtime.contains_key(name) && sc.collection.contains_key(name)
                ==> resolve_text(s, sc) == sc.collection[name]
            &&& !starts_with(name, "$"@) && !sc.runtime.contains_key(name) && !sc.collection.contains_key(name)
                && sc.variables.contains_key(name) ==> resolve_text(s, sc) == sc.variables[name]
            &&& !starts_with(name, "$"@) && !sc.runtime.contains_key(name) && !sc.collection.contains_key(name)
                && !sc.variables.contains_key(name) && sc.secrets.contains_key(name) ==> resolve_text(s, sc)
                == sc.secrets[name]
            &&& (starts_with(name, "$"@) || (!sc.runtime.contains_key(name) && !sc.collection.contains_key(name)
                && !sc.variables.contains_key(name) && !sc.secrets.contains_key(name))) ==> resolve_text(s, sc)
                == s
        }),
{
    let s = seq!['{', '{'] + n + seq!['}', '}'];
    let j: int = n.len() as int + 2;
    assert(s.subrange(j, j + 2) =~= close_braces());
    assert forall|k: int| 2 <= k < j implies !crate::text::occurs_at(s, close_braces(), k) by {
        assert(s[k] == n[k - 2]);
        if crate::text::occurs_at(s, close_braces(), k) {
            assert(s.subrange(k, k + 2)[0] == s[k]);
        }
    }
    assert(first_occurrence_from(s, close_braces(), 2, j));
    let f = find_spec(s, close_braces(), 2)->0;
    lemma_first_occurrence_unique(s, close_braces(), 2, f, j);
    assert(opens_at(s, 0));
    assert(s.subrange(2, j) =~= n);
    assert(s.subrange(0, j + 2) =~= s);
    assert(resolve_from(s, j + 2, sc) == Seq::<char>::empty());
    lemma_lookup_precedence(trim(n), sc);
    let piece = match scope_lookup(trim(n), sc) {
        Some(v) => v,
        None => s,
    };
    assert(resolve_text(s, sc) == piece + Seq::<char>::empty());
    assert(piece + Seq::<char>::empty() =~= piece);
}

/// Two opening braces start at `i`.
pub open spec fn double_brace_at(s: Seq<char>, i: int) -> bool {
    0 <= i && i + 1 < s.len() && s[i] == '{' && s[i + 1] == '{'
}

/// A text with no `{{` is left unchanged, whatever the buckets hold.
pub proof fn lemma_resolve_plain_text(s: Seq<char>, sc: VarScope)
    requires
        forall|i: int| !#[trigger] double_brace_at(s, i),
    ensures
        resolve_text(s, sc) == s,
{
    lemma_resolve_plain_from(s, 0, sc);
    assert(s.skip(0) =~= s);
}

proof fn lemma_resolve_plain_from(s: Seq<char>, i: int, sc: VarScope)
    requires
        forall|k: int| !#[trigger] double_brace_at(s, k),
        0 <= i <= s.len(),
    ensures
        resolve_from(s, i, sc) == s.skip(i),
    decreases s.len() - i,
{
    if i < s.len() {
        assert(!double_brace_at(s, i));
        assert(!opens_at(s, i));
        lemma_resolve_plain_from(s, i + 1, sc);
        assert(seq![s[i]] + s.skip(i + 1) =~= s.skip(i));
    } else {
        assert(s.skip(i) =~= Seq::<char>::empty());
    }
}

/// The first environment with a name.
pub open spec fn env_named(envs: Seq<EnvironmentToml>, name: Seq<char>) -> Option<EnvironmentToml>
    decreases envs.len(),
{
    if envs.len() == 0 {
        None
    } else if envs[0].name@ == name {
        Some(envs[0])
    } else {
        env_named(envs.drop_first(), name)
    }
}

/// The plain (neither secret nor temporary) variables of an environment, as
/// a map; a later variable of a name replaces an earlier one.
pub open spec fn plain_vars(vs: Seq<(String, EnvironmentVariable)>) -> Map<Seq<char>, Seq<char>>
    decreases vs.len(),
{
    if vs.len() == 0 {
        Map::empty()
    } else {
        let prev = plain_vars(vs.drop_last());
        let v = vs.last();
        if !v.1.temporary && !v.1.secret {
            prev.insert(v.0@, v.1.value@)
        } else {
            prev
        }
    }
}

/// The names of the secret variables of an environment that are not
/// temporary, in order.
pub open spec fn secret_names(vs: Seq<(String, EnvironmentVariable)>) -> Seq<Seq<char>>
    decreases vs.len(),
{
    if vs.len() == 0 {
        Seq::empty()
    } else {
        let prev = secret_names(vs.drop_last());
        let v = vs.last();
        if !v.1.temporary && v.1.secret {
            prev.push(v.0@)
        } else {
            prev
        }
    }
}

impl EnvironmentResolver {
    /// The variables of the named environment (temporary ones skipped): its
    /// plain variables, and the names of its secret variables, whose values
    /// live in the credential store. Nothing when no environment has that
    /// name.
    pub fn load_environment_data(&self, environments: &Vec<EnvironmentToml>, environment_name: &str) -> (r: (
        VarMap,
        Vec<String>,
    ))
        ensures
            match env_named(environments@, environment_name@) {
                Some(env) => r.0@ == plain_vars(env.variables@) && crate::text::string_views(r.1@) == secret_names(
                    env.variables@,
                ),
                None => r.0@ == Map::<Seq<char>, Seq<char>>::empty() && r.1@.len() == 0,
            },
    {
        let mut variables = VarMap::new();
        let mut secrets: Vec<String> = Vec::new();
        let mut k: usize = 0;
        assert(environments@.skip(0) =~= environments@);
        while k < environments.len()
            invariant
                k <= environments.len(),
                env_named(environments@, environment_name@) == env_named(environments@.skip(k as int), environment_name@),
                variables@ == Map::<Seq<char>, Seq<char>>::empty(),
                secrets@.len() == 0,
            decreases environments.len() - k,
        {
            let ghost rest = environments@.skip(k as int);
            assert(rest[0] == environments@[k as int]);
            assert(rest.drop_first() =~= environments@.skip(k + 1));
            let env = &environments[k];
            let n = chars_of(env.name.as_str());
            if crate::text::chars_eq_str(n.as_slice(), environment_name) {
                let vs = &env.variables;
                let mut i: usize = 0;
                while i < vs.len()
                    invariant
                        i <= vs.len(),
                        variables@ == plain_vars(vs@.take(i as int)),
                        crate::text::string_views(secrets@) == secret_names(vs@.take(i as int)),
                    decreases vs.len() - i,
                {
                    assert(vs@.take(i + 1).drop_last() =~= vs@.take(i as int));
                    assert(vs@.take(i + 1).last() == vs@[i as int]);
                    let (name, var) = (&vs[i].0, &vs[i].1);
                    if !var.temporary {
                        if var.secret {
                            let ghost before = secrets@;
                            secrets.push(name.clone());
                            assert(crate::text::string_views(secrets@) =~= crate::text::string_views(before).push(name@));
                        } else {
                            variables.insert(name.clone(), var.value.clone());
                        }
                    }
                    i = i + 1;
                }
                assert(vs@.take(vs@.len() as int) =~= vs@);
                return (variables, secrets);
            }
            k = k + 1;
        }
        assert(crate::text::string_views(secrets@) =~= Seq::<Seq<char>>::empty());
        (variables, secrets)
    }
}

} // verus!
