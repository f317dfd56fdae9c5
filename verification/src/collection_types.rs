//! The on-disk model of a collection: `collection.toml`, request files and
//! environments, and the conversions between a request file and a request.

use vstd::prelude::*;

use crate::domain::{method_from_upper, method_name, AuthType, HttpMethod, KeyValuePair, RequestData};
use crate::encoding::{url_decode, url_decode_str, url_encode, url_encode_str};
use crate::json::{find_member, json_object_members, json_quote, json_quoted, member_lookup, parse_json_object};
use crate::text::{
    all_ascii, ascii_upper_char, append_str, chars_eq_str, chars_of, contains, contains_str, join, join_chars,
    lowercase, split_char, split_chars, split_once_char, split_once_exec, str_to_lowercase,
    string_of, uppercase, views_of,
};
use crate::vars::VarMap;

verus! {

/// TOML structure for collection.toml files
#[derive(Debug, Clone, PartialEq)]
pub struct CollectionToml {
    pub collection: CollectionMeta,
    pub environments: Vec<EnvironmentToml>,
}

#[derive(Debug, Clone, PartialEq)]
pub struct CollectionMeta {
    pub name: String,
    pub version: String,
    pub collection_type: String,
    pub description: String,
    pub ignore: Vec<String>,
}

/// TOML structure for request .toml files
#[derive(Debug)]
pub struct RequestToml {
    pub meta: RequestMeta,
    pub http: RequestHttp,
    pub script: Option<RequestScript>,
    pub headers: Option<Vec<HeaderToml>>,
    pub query: Option<Vec<QueryToml>>,
    pub body: Option<RequestBodyToml>,
    pub params: Option<RequestParams>,
}

/// TOML structure for request body
#[derive(Debug)]
pub struct RequestBodyToml {
    pub json: Option<String>,
    pub text: Option<String>,
    pub form: Option<VarMap>,
    pub graphql: Option<GraphQLBody>,
    pub xml: Option<String>,
}

/// TOML structure for GraphQL body; the variables are kept as JSON text.
#[derive(Debug)]
pub struct GraphQLBody {
    pub query: Option<String>,
    pub variables: Option<String>,
}

/// TOML structure for request parameters
#[derive(Debug)]
pub struct RequestParams {
    pub path: Option<VarMap>,
}

#[derive(Debug)]
pub struct RequestMeta {
    pub name: String,
    pub request_type: String,
    pub seq: String,
}

#[derive(Debug)]
pub struct RequestHttp {
    pub method: String,
    pub url: String,
    pub body: Option<String>,
    pub auth: String,
}

#[derive(Debug)]
pub struct RequestScript {
    pub pre_request: Option<String>,
    pub post_response: Option<String>,
}

#[derive(Debug)]
pub struct HeaderToml {
    pub key: String,
    pub value: String,
}

#[derive(Debug)]
pub struct QueryToml {
    pub key: String,
    pub value: String,
}

/// TOML structure for environment files. Each variable name occurs once.
#[derive(Debug, Clone, PartialEq)]
pub struct EnvironmentToml {
    pub name: String,
    pub variables: Vec<(String, EnvironmentVariable)>,
}

#[derive(Debug, Clone, PartialEq)]
pub struct EnvironmentVariable {
    pub value: String,
    pub secret: bool,
    pub temporary: bool,
}

impl EnvironmentToml {
    /// No variable name occurs twice.
    pub open spec fn names_distinct(self) -> bool {
        forall|i: int, j: int|
            0 <= i < j < self.variables@.len() ==> (#[trigger] self.variables@[i]).0@
                != (#[trigger] self.variables@[j]).0@
    }
}

/// A group of requests inside a collection: its name, its requests keyed by
/// file path (each path once), and its path relative to the collection root.
#[derive(Debug)]
pub struct GroupInfo {
    pub name: String,
    pub requests: Vec<(String, RequestData)>,
    pub path: String,
}

/// The character view of an optional string.
pub open spec fn opt_chars(o: Option<String>) -> Option<Seq<char>> {
    match o {
        Some(s) => Some(s@),
        None => None,
    }
}

/// The text of an optional string, empty when there is none.
pub open spec fn chars_or_empty(o: Option<String>) -> Seq<char> {
    match o {
        Some(s) => s@,
        None => Seq::empty(),
    }
}

/// Helper function to skip serializing temporary=true variables
pub fn is_true(value: &bool) -> (r: bool)
    ensures
        r == *value,
{
    *value
}

/// Create an empty collection with default values
pub fn create_empty_collection() -> (c: CollectionToml)
    ensures
        c.collection.name@.len() == 0,
        c.collection.version@ == "1.0.0"@,
        c.collection.collection_type@ == "collection"@,
        c.collection.description@.len() == 0,
        c.collection.ignore@.len() == 0,
        c.environments@.len() == 0,
{
    CollectionToml {
        collection: CollectionMeta {
            name: String::new(),
            version: "1.0.0".to_string(),
            collection_type: "collection".to_string(),
            description: String::new(),
            ignore: Vec::new(),
        },
        environments: Vec::new(),
    }
}

// ---------------------------------------------------------------------------
// Body type detection
// ---------------------------------------------------------------------------

/// The body type that a lower-cased content type announces, if any.
pub open spec fn body_type_for_content(ct: Seq<char>) -> Option<Seq<char>> {
    if contains(ct, "application/json"@) {
        Some("json"@)
    } else if contains(ct, "text/xml"@) || contains(ct, "application/xml"@) {
        Some("xml"@)
    } else if contains(ct, "application/graphql"@) {
        Some("graphql"@)
    } else if contains(ct, "application/x-www-form-urlencoded"@) {
        Some("form"@)
    } else if contains(ct, "text/"@) {
        Some("text"@)
    } else {
        None
    }
}

/// The body type of a request: the first enabled `Content-Type` header (by a
/// case-insensitive name) whose value names a known type decides; otherwise
/// "json".
pub open spec fn body_type_of_headers(hs: Seq<KeyValuePair>) -> Seq<char>
    decreases hs.len(),
{
    if hs.len() == 0 {
        "json"@
    } else if lowercase(hs[0].key@) == "content-type"@ && hs[0].enabled
        && body_type_for_content(lowercase(hs[0].value@)) is Some {
        body_type_for_content(lowercase(hs[0].value@)).unwrap()
    } else {
        body_type_of_headers(hs.drop_first())
    }
}

fn body_type_for_content_exec(ct: &[char]) -> (r: Option<String>)
    ensures
        opt_chars(r) == body_type_for_content(ct@),
{
    if contains_str(ct, "application/json") {
        Some("json".to_string())
    } else if contains_str(ct, "text/xml") || contains_str(ct, "application/xml") {
        Some("xml".to_string())
    } else if contains_str(ct, "application/graphql") {
        Some("graphql".to_string())
    } else if contains_str(ct, "application/x-www-form-urlencoded") {
        Some("form".to_string())
    } else if contains_str(ct, "text/") {
        Some("text".to_string())
    } else {
        None
    }
}

/// Get body type string from headers (Content-Type)
pub fn get_body_type_from_headers(headers: &[KeyValuePair]) -> (r: String)
    ensures
        r@ == body_type_of_headers(headers@),
{
    let mut i: usize = 0;
    assert(headers@.skip(0) =~= headers@);
    while i < headers.len()
        invariant
            i <= headers.len(),
            body_type_of_headers(headers@) == body_type_of_headers(headers@.skip(i as int)),
        decreases headers.len() - i,
    {
        let ghost rest = headers@.skip(i as int);
        assert(rest[0] == headers@[i as int]);
        assert(rest.drop_first() =~= headers@.skip(i + 1));
        let h = &headers[i];
        let key = str_to_lowercase(h.key.as_str());
        let kc = chars_of(key.as_str());
        if chars_eq_str(kc.as_slice(), "content-type") && h.enabled {
            let value = str_to_lowercase(h.value.as_str());
            let vc = chars_of(value.as_str());
            match body_type_for_content_exec(vc.as_slice()) {
                Some(t) => {
                    return t;
                },
                None => {},
            }
        }
        i = i + 1;
    }
    "json".to_string()
}

// ---------------------------------------------------------------------------
// Request bodies
// ---------------------------------------------------------------------------

/// One `key=value` piece of a URL-encoded form, both sides percent-decoded;
/// `None` when there is no `=` or a side does not decode.
pub open spec fn form_pair(p: Seq<char>) -> Option<(Seq<char>, Seq<char>)> {
    match split_once_char(p, '=') {
        Some((k, v)) => match (url_decode(k), url_decode(v)) {
            (Some(dk), Some(dv)) => Some((dk, dv)),
            _ => None,
        },
        None => None,
    }
}

/// The map that a URL-encoded form's pieces fill, in order: a later piece
/// with the same key replaces an earlier one.
pub open spec fn form_map(pieces: Seq<Seq<char>>) -> Map<Seq<char>, Seq<char>>
    decreases pieces.len(),
{
    if pieces.len() == 0 {
        Map::empty()
    } else {
        let m = form_map(pieces.drop_last());
        match form_pair(pieces.last()) {
            Some((k, v)) => m.insert(k, v),
            None => m,
        }
    }
}

/// A body section that holds only the given JSON text.
pub open spec fn json_only(b: RequestBodyToml, body: Seq<char>) -> bool {
    &&& opt_chars(b.json) == Some(body)
    &&& b.text is None && b.form is None && b.graphql is None && b.xml is None
}

/// A body section that holds only the given plain text.
pub open spec fn text_only(b: RequestBodyToml, body: Seq<char>) -> bool {
    &&& opt_chars(b.text) == Some(body)
    &&& b.json is None && b.form is None && b.graphql is None && b.xml is None
}

/// A body section that holds only the given XML text.
pub open spec fn xml_only(b: RequestBodyToml, body: Seq<char>) -> bool {
    &&& opt_chars(b.xml) == Some(body)
    &&& b.json is None && b.text is None && b.form is None && b.graphql is None
}

/// The GraphQL parts read from a JSON object's members: the `query` member's
/// string, and the `variables` member's JSON text.
pub open spec fn graphql_parts(ms: Seq<(Seq<char>, Option<Seq<char>>, Seq<char>)>) -> (Option<Seq<char>>, Option<Seq<char>>) {
    (
        match member_lookup(ms, "query"@) {
            Some((s, _)) => s,
            None => None,
        },
        match member_lookup(ms, "variables"@) {
            Some((_, t)) => Some(t),
            None => None,
        },
    )
}

/// The body section written for a body of the given type: JSON, text and XML
/// bodies are kept as they are; a form is decoded into its fields; a GraphQL
/// body that is a JSON object is split into its query and variables, any
/// other GraphQL body is kept as text; an unknown type is kept as JSON.
pub open spec fn body_toml_spec(b: RequestBodyToml, body: Seq<char>, body_type: Seq<char>) -> bool {
    if body_type == "text"@ {
        text_only(b, body)
    } else if body_type == "xml"@ {
        xml_only(b, body)
    } else if body_type == "form"@ {
        &&& b.json is None && b.text is None && b.graphql is None && b.xml is None
        &&& b.form matches Some(f) && f@ == form_map(split_char(body, '&'))
    } else if body_type == "graphql"@ {
        match json_object_members(body) {
            Some(ms) => {
                &&& b.json is None && b.text is None && b.form is None && b.xml is None
                &&& b.graphql matches Some(g) && (opt_chars(g.query), opt_chars(g.variables))
                    == graphql_parts(ms)
            },
            None => text_only(b, body),
        }
    } else {
        json_only(b, body)
    }
}

/// The body type names differ from one another (each starts with its own
/// letter).
proof fn lemma_body_type_names()
    ensures
        "json"@ != "text"@,
        "json"@ != "xml"@,
        "json"@ != "form"@,
        "json"@ != "graphql"@,
        "text"@ != "xml"@,
        "text"@ != "form"@,
        "text"@ != "graphql"@,
        "xml"@ != "form"@,
        "xml"@ != "graphql"@,
        "form"@ != "graphql"@,
{
    reveal_strlit("json");
    reveal_strlit("text");
    reveal_strlit("xml");
    reveal_strlit("form");
    reveal_strlit("graphql");
    assert("json"@[0] == 'j');
    assert("text"@[0] == 't');
    assert("xml"@[0] == 'x');
    assert("form"@[0] == 'f');
    assert("graphql"@[0] == 'g');
}

fn json_body(body: &str) -> (b: RequestBodyToml)
    ensures
        json_only(b, body@),
{
    RequestBodyToml { json: Some(body.to_string()), text: None, form: None, graphql: None, xml: None }
}

fn text_body(body: &str) -> (b: RequestBodyToml)
    ensures
        text_only(b, body@),
{
    RequestBodyToml { json: None, text: Some(body.to_string()), form: None, graphql: None, xml: None }
}

/// Decodes a URL-encoded form into its fields.
pub fn parse_form_fields(body: &str) -> (m: VarMap)
    ensures
        m@ == form_map(split_char(body@, '&')),
{
    let bc = chars_of(body);
    let pieces = split_chars(bc.as_slice(), '&');
    let mut form = VarMap::new();
    let mut i: usize = 0;
    while i < pieces.len()
        invariant
            i <= pieces.len(),
            views_of(pieces@) == split_char(body@, '&'),
            form@ == form_map(views_of(pieces@).take(i as int)),
        decreases pieces.len() - i,
    {
        let ghost pv = views_of(pieces@);
        assert(pv.take(i + 1).drop_last() =~= pv.take(i as int));
        assert(pv.take(i + 1).last() == pieces@[i as int]@);
        match split_once_exec(pieces[i].as_slice(), '=') {
            Some((k, v)) => {
                let ks = string_of(k.as_slice());
                let vs = string_of(v.as_slice());
                let dk = url_decode_str(ks.as_str());
                let dv = url_decode_str(vs.as_str());
                match (dk, dv) {
                    (Some(a), Some(b)) => {
                        form.insert(a, b);
                    },
                    _ => {},
                }
            },
            None => {},
        }
        i = i + 1;
    }
    assert(views_of(pieces@).take(pieces@.len() as int) =~= views_of(pieces@));
    form
}

/// Create RequestBodyToml based on body type
pub fn create_body_toml(body: &str, body_type: &str) -> (r: Option<RequestBodyToml>)
    ensures
        r matches Some(b) && body_toml_spec(b, body@, body_type@),
{
    proof {
        lemma_body_type_names();
    }
    let t = chars_of(body_type);
    if chars_eq_str(t.as_slice(), "json") {
        Some(json_body(body))
    } else if chars_eq_str(t.as_slice(), "text") {
        Some(text_body(body))
    } else if chars_eq_str(t.as_slice(), "xml") {
        Some(RequestBodyToml { json: None, text: None, form: None, graphql: None, xml: Some(body.to_string()) })
    } else if chars_eq_str(t.as_slice(), "form") {
        let form = parse_form_fields(body);
        Some(RequestBodyToml { json: None, text: None, form: Some(form), graphql: None, xml: None })
    } else if chars_eq_str(t.as_slice(), "graphql") {
        match parse_json_object(body) {
            Some(ms) => {
                let query = match find_member(&ms, "query") {
                    Some((s, _)) => s,
                    None => None,
                };
                let variables = match find_member(&ms, "variables") {
                    Some((_, j)) => Some(j),
                    None => None,
                };
                let b = RequestBodyToml {
                    json: None,
                    text: None,
                    form: None,
                    graphql: Some(GraphQLBody { query, variables }),
                    xml: None,
                };
                assert(json_object_members(body@) == Some(crate::json::member_views(ms@)));
                assert((opt_chars(query), opt_chars(variables)) == graphql_parts(crate::json::member_views(ms@)));
                assert(body_toml_spec(b, body@, body_type@));
                Some(b)
            },
            None => Some(text_body(body)),
        }
    } else {
        Some(json_body(body))
    }
}

// ---------------------------------------------------------------------------
// Request file to request
// ---------------------------------------------------------------------------

/// The text of a form: each field as `key=value`, both percent-encoded, joined
/// with `&`, in the order of the fields.
pub open spec fn form_text(es: Seq<(String, String)>) -> Seq<char> {
    join(es.map_values(|e: (String, String)| url_encode(e.0@) + "="@ + url_encode(e.1@)), "&"@)
}

/// The JSON text of a GraphQL body: an object with the query (empty when
/// missing) and the variables (an empty object when missing).
pub open spec fn graphql_text(query: Option<Seq<char>>, variables: Option<Seq<char>>) -> Seq<char> {
    "{\"query\":"@ + json_quoted(
        match query {
            Some(q) => q,
            None => Seq::empty(),
        },
    ) + ",\"variables\":"@ + match variables {
        Some(v) => v,
        None => "{}"@,
    } + "}"@
}

/// The body text of a request file. `http.body` names the body type; "none"
/// or no type means no body; without a `[body]` section the type's text itself
/// is the body; otherwise the section's entry for that type is used.
pub open spec fn toml_body_text(body_type: Option<Seq<char>>, section: Option<RequestBodyToml>) -> Seq<char> {
    match body_type {
        None => Seq::empty(),
        Some(t) => if t == "none"@ {
            Seq::empty()
        } else {
            match section {
                None => t,
                Some(b) => if t == "json"@ {
                    chars_or_empty(b.json)
                } else if t == "text"@ {
                    chars_or_empty(b.text)
                } else if t == "xml"@ {
                    chars_or_empty(b.xml)
                } else if t == "form"@ {
                    match b.form {
                        Some(f) => form_text(f.entries_view()),
                        None => Seq::empty(),
                    }
                } else if t == "graphql"@ {
                    match b.graphql {
                        Some(g) => graphql_text(opt_chars(g.query), opt_chars(g.variables)),
                        None => Seq::empty(),
                    }
                } else {
                    Seq::empty()
                },
            }
        },
    }
}

/// An enabled pair with the given key and value.
pub open spec fn enabled_pair(p: KeyValuePair, key: Seq<char>, value: Seq<char>) -> bool {
    p.key@ == key && p.value@ == value && p.enabled
}

/// The pairs are the given headers, each enabled.
pub open spec fn pairs_of_headers(ps: Seq<KeyValuePair>, hs: Option<Vec<HeaderToml>>) -> bool {
    match hs {
        Some(v) => ps.len() == v@.len() && forall|i: int|
            0 <= i < ps.len() ==> enabled_pair(#[trigger] ps[i], v@[i].key@, v@[i].value@),
        None => ps.len() == 0,
    }
}

/// The pairs are the given query parameters, each enabled.
pub open spec fn pairs_of_queries(ps: Seq<KeyValuePair>, qs: Option<Vec<QueryToml>>) -> bool {
    match qs {
        Some(v) => ps.len() == v@.len() && forall|i: int|
            0 <= i < ps.len() ==> enabled_pair(#[trigger] ps[i], v@[i].key@, v@[i].value@),
        None => ps.len() == 0,
    }
}

/// The pairs are the path parameters of a `[params.path]` section, each
/// enabled, in the section's order.
pub open spec fn pairs_of_params(ps: Seq<KeyValuePair>, params: Option<RequestParams>) -> bool {
    match params {
        Some(RequestParams { path: Some(m) }) => ps.len() == m.entries_view().len() && forall|i: int|
            0 <= i < ps.len() ==> enabled_pair(
                #[trigger] ps[i],
                m.entries_view()[i].0@,
                m.entries_view()[i].1@,
            ),
        _ => ps.len() == 0,
    }
}

fn pairs_from_headers(hs: &Option<Vec<HeaderToml>>) -> (r: Vec<KeyValuePair>)
    ensures
        pairs_of_headers(r@, *hs),
{
    let mut r: Vec<KeyValuePair> = Vec::new();
    match hs {
        Some(v) => {
            let mut i: usize = 0;
            while i < v.len()
                invariant
                    i <= v.len(),
                    r@.len() == i,
                    forall|j: int| 0 <= j < i ==> enabled_pair(#[trigger] r@[j], v@[j].key@, v@[j].value@),
                decreases v.len() - i,
            {
                r.push(KeyValuePair { key: v[i].key.clone(), value: v[i].value.clone(), enabled: true });
                i = i + 1;
            }
        },
        None => {},
    }
    r
}

fn pairs_from_queries(qs: &Option<Vec<QueryToml>>) -> (r: Vec<KeyValuePair>)
    ensures
        pairs_of_queries(r@, *qs),
{
    let mut r: Vec<KeyValuePair> = Vec::new();
    match qs {
        Some(v) => {
            let mut i: usize = 0;
            while i < v.len()
                invariant
                    i <= v.len(),
                    r@.len() == i,
                    forall|j: int| 0 <= j < i ==> enabled_pair(#[trigger] r@[j], v@[j].key@, v@[j].value@),
                decreases v.len() - i,
            {
                r.push(KeyValuePair { key: v[i].key.clone(), value: v[i].value.clone(), enabled: true });
                i = i + 1;
            }
        },
        None => {},
    }
    r
}

fn pairs_from_params(params: &Option<RequestParams>) -> (r: Vec<KeyValuePair>)
    ensures
        pairs_of_params(r@, *params),
{
    let mut r: Vec<KeyValuePair> = Vec::new();
    match params {
        Some(RequestParams { path: Some(m) }) => {
            let es = m.entries();
            let mut i: usize = 0;
            while i < es.len()
                invariant
                    i <= es.len(),
                    es@ == m.entries_view(),
                    r@.len() == i,
                    forall|j: int| 0 <= j < i ==> enabled_pair(#[trigger] r@[j], es@[j].0@, es@[j].1@),
                decreases es.len() - i,
            {
                r.push(KeyValuePair { key: es[i].0.clone(), value: es[i].1.clone(), enabled: true });
                i = i + 1;
            }
        },
        _ => {},
    }
    r
}

/// Joins a form's fields as URL-encoded text.
pub fn form_to_text(form: &VarMap) -> (r: String)
    ensures
        r@ == form_text(form.entries_view()),
{
    let es = form.entries();
    let mut parts: Vec<Vec<char>> = Vec::new();
    let mut i: usize = 0;
    while i < es.len()
        invariant
            i <= es.len(),
            es@ == form.entries_view(),
            views_of(parts@) == es@.take(i as int).map_values(
                |e: (String, String)| url_encode(e.0@) + "="@ + url_encode(e.1@),
            ),
        decreases es.len() - i,
    {
        let ghost before = views_of(parts@);
        let mut piece: Vec<char> = Vec::new();
        let k = url_encode_str(es[i].0.as_str());
        let v = url_encode_str(es[i].1.as_str());
        append_str(&mut piece, k.as_str());
        append_str(&mut piece, "=");
        append_str(&mut piece, v.as_str());
        assert(piece@ == url_encode(es@[i as int].0@) + "="@ + url_encode(es@[i as int].1@));
        parts.push(piece);
        assert(views_of(parts@) =~= before.push(piece@));
        assert(es@.take(i + 1) =~= es@.take(i as int).push(es@[i as int]));
        assert(views_of(parts@) =~= es@.take(i + 1).map_values(
            |e: (String, String)| url_encode(e.0@) + "="@ + url_encode(e.1@),
        ));
        i = i + 1;
    }
    assert(es@.take(es@.len() as int) =~= es@);
    let amp = chars_of("&");
    let joined = join_chars(&parts, amp.as_slice());
    string_of(joined.as_slice())
}

/// Writes a GraphQL body as JSON text.
pub fn graphql_to_text(g: &GraphQLBody) -> (r: String)
    ensures
        r@ == graphql_text(opt_chars(g.query), opt_chars(g.variables)),
{
    let mut out: Vec<char> = Vec::new();
    append_str(&mut out, "{\"query\":");
    let q = match &g.query {
        Some(q) => json_quote(q.as_str()),
        None => json_quote(""),
    };
    append_str(&mut out, q.as_str());
    append_str(&mut out, ",\"variables\":");
    match &g.variables {
        Some(v) => append_str(&mut out, v.as_str()),
        None => append_str(&mut out, "{}"),
    }
    append_str(&mut out, "}");
    proof {
        reveal_strlit("");
    }
    string_of(out.as_slice())
}

/// The body text of a request file.
pub fn toml_body_to_text(body_type: &Option<String>, section: &Option<RequestBodyToml>) -> (r: String)
    ensures
        r@ == toml_body_text(opt_chars(*body_type), *section),
{
    proof {
        lemma_body_type_names();
        reveal_strlit("none");
    }
    match body_type {
        None => String::new(),
        Some(t) => {
            let tc = chars_of(t.as_str());
            if chars_eq_str(tc.as_slice(), "none") {
                String::new()
            } else {
                match section {
                    None => t.clone(),
                    Some(b) => {
                        if chars_eq_str(tc.as_slice(), "json") {
                            match &b.json {
                                Some(x) => x.clone(),
                                None => String::new(),
                            }
                        } else if chars_eq_str(tc.as_slice(), "text") {
                            match &b.text {
                                Some(x) => x.clone(),
                                None => String::new(),
                            }
                        } else if chars_eq_str(tc.as_slice(), "xml") {
                            match &b.xml {
                                Some(x) => x.clone(),
                                None => String::new(),
                            }
                        } else if chars_eq_str(tc.as_slice(), "form") {
                            match &b.form {
                                Some(f) => form_to_text(f),
                                None => String::new(),
                            }
                        } else if chars_eq_str(tc.as_slice(), "graphql") {
                            match &b.graphql {
                                Some(g) => graphql_to_text(g),
                                None => String::new(),
                            }
                        } else {
                            String::new()
                        }
                    },
                }
            }
        },
    }
}

/// The method a request file is loaded with: GET, POST, PUT, DELETE and
/// PATCH stand for themselves; any other method is loaded as GET.
pub open spec fn file_method(m: HttpMethod) -> HttpMethod {
    match m {
        HttpMethod::Head | HttpMethod::Options => HttpMethod::Get,
        _ => m,
    }
}

/// `r` is the request that the request file `toml` is loaded as: the method
/// is matched after upper-casing (names other than GET, POST, PUT, DELETE
/// and PATCH mean GET); headers, query and
/// path parameters come over enabled; the body is read as `toml_body_text`
/// says; the file carries no authentication and no request variables.
pub open spec fn loads_as(toml: RequestToml, r: RequestData) -> bool {
    &&& r.name@ == toml.meta.name@
    &&& r.method == file_method(method_from_upper(uppercase(toml.http.method@)))
    &&& all_ascii(toml.http.method@) ==> r.method == file_method(method_from_upper(
        toml.http.method@.map_values(|c: char| ascii_upper_char(c)),
    ))
    &&& r.url@ == toml.http.url@
    &&& pairs_of_params(r.path_params@, toml.params)
    &&& pairs_of_queries(r.query_params@, toml.query)
    &&& pairs_of_headers(r.headers@, toml.headers)
    &&& r.body@ == toml_body_text(opt_chars(toml.http.body), toml.body)
    &&& opt_chars(r.pre_request_script) == match toml.script {
        Some(s) => opt_chars(s.pre_request),
        None => None,
    }
    &&& opt_chars(r.post_response_script) == match toml.script {
        Some(s) => opt_chars(s.post_response),
        None => None,
    }
    &&& r.auth is NoAuth
    &&& r.vars@.len() == 0
}

impl RequestData {
    /// Converts a request file into a request. The method is matched after
    /// upper-casing (names other than GET, POST, PUT, DELETE and PATCH mean
    /// GET); headers, query and path
    /// parameters come over enabled; the file carries no authentication and
    /// no request variables.
    pub fn from_toml(toml: RequestToml) -> (r: RequestData)
        ensures
            loads_as(toml, r),
    {
        let mc = chars_of(toml.http.method.as_str());
        let method = match HttpMethod::parse(mc.as_slice()) {
            HttpMethod::Head | HttpMethod::Options => HttpMethod::Get,
            m => m,
        };
        let headers = pairs_from_headers(&toml.headers);
        let query_params = pairs_from_queries(&toml.query);
        let path_params = pairs_from_params(&toml.params);
        let body = toml_body_to_text(&toml.http.body, &toml.body);
        let (pre_request_script, post_response_script) = match toml.script {
            Some(s) => (s.pre_request, s.post_response),
            None => (None, None),
        };
        RequestData {
            name: toml.meta.name,
            method,
            url: toml.http.url,
            path_params,
            query_params,
            headers,
            body,
            pre_request_script,
            post_response_script,
            auth: AuthType::NoAuth,
            vars: Vec::new(),
        }
    }
}

// ---------------------------------------------------------------------------
// Request to request file
// ---------------------------------------------------------------------------

/// The path parameters a request file keeps: the enabled ones with a
/// non-empty key, a later one replacing an earlier one with the same key.
pub open spec fn path_param_map(ps: Seq<KeyValuePair>) -> Map<Seq<char>, Seq<char>>
    decreases ps.len(),
{
    if ps.len() == 0 {
        Map::empty()
    } else {
        let m = path_param_map(ps.drop_last());
        let p = ps.last();
        if p.enabled && p.key@.len() > 0 {
            m.insert(p.key@, p.value@)
        } else {
            m
        }
    }
}

/// The body type written into a request file: "none" for an empty body,
/// otherwise the type the headers announce.
pub open spec fn saved_body_type(body: Seq<char>, headers: Seq<KeyValuePair>) -> Seq<char> {
    if body.len() > 0 {
        body_type_of_headers(headers)
    } else {
        "none"@
    }
}

/// The headers of a request file are the request's headers (keys and
/// values), or absent when the request has none.
pub open spec fn headers_saved(hs: Option<Vec<HeaderToml>>, ps: Seq<KeyValuePair>) -> bool {
    match hs {
        Some(v) => ps.len() > 0 && v@.len() == ps.len() && forall|i: int|
            0 <= i < ps.len() ==> (#[trigger] v@[i]).key@ == ps[i].key@ && v@[i].value@ == ps[i].value@,
        None => ps.len() == 0,
    }
}

/// The query parameters of a request file are the request's (keys and
/// values), or absent when the request has none.
pub open spec fn queries_saved(qs: Option<Vec<QueryToml>>, ps: Seq<KeyValuePair>) -> bool {
    match qs {
        Some(v) => ps.len() > 0 && v@.len() == ps.len() && forall|i: int|
            0 <= i < ps.len() ==> (#[trigger] v@[i]).key@ == ps[i].key@ && v@[i].value@ == ps[i].value@,
        None => ps.len() == 0,
    }
}

fn headers_to_toml(ps: &Vec<KeyValuePair>) -> (r: Option<Vec<HeaderToml>>)
    ensures
        headers_saved(r, ps@),
{
    if ps.len() == 0 {
        return None;
    }
    let mut v: Vec<HeaderToml> = Vec::new();
    let mut i: usize = 0;
    while i < ps.len()
        invariant
            i <= ps.len(),
            v@.len() == i,
            forall|j: int| 0 <= j < i ==> (#[trigger] v@[j]).key@ == ps@[j].key@ && v@[j].value@ == ps@[j].value@,
        decreases ps.len() - i,
    {
        v.push(HeaderToml { key: ps[i].key.clone(), value: ps[i].value.clone() });
        i = i + 1;
    }
    Some(v)
}

fn queries_to_toml(ps: &Vec<KeyValuePair>) -> (r: Option<Vec<QueryToml>>)
    ensures
        queries_saved(r, ps@),
{
    if ps.len() == 0 {
        return None;
    }
    let mut v: Vec<QueryToml> = Vec::new();
    let mut i: usize = 0;
    while i < ps.len()
        invariant
            i <= ps.len(),
            v@.len() == i,
            forall|j: int| 0 <= j < i ==> (#[trigger] v@[j]).key@ == ps@[j].key@ && v@[j].value@ == ps@[j].value@,
        decreases ps.len() - i,
    {
        v.push(QueryToml { key: ps[i].key.clone(), value: ps[i].value.clone() });
        i = i + 1;
    }
    Some(v)
}

/// The `[params.path]` section kept for a request's path parameters; absent
/// when no parameter is kept.
pub fn params_to_toml(ps: &Vec<KeyValuePair>) -> (r: Option<RequestParams>)
    ensures
        path_param_map(ps@) == Map::<Seq<char>, Seq<char>>::empty() ==> r is None,
        path_param_map(ps@) != Map::<Seq<char>, Seq<char>>::empty() ==> (r matches Some(
            RequestParams { path: Some(m) },
        ) && m@ == path_param_map(ps@)),
{
    let mut m = VarMap::new();
    let mut any = false;
    let mut i: usize = 0;
    while i < ps.len()
        invariant
            i <= ps.len(),
            m@ == path_param_map(ps@.take(i as int)),
            any <==> path_param_map(ps@.take(i as int)) != Map::<Seq<char>, Seq<char>>::empty(),
        decreases ps.len() - i,
    {
        assert(ps@.take(i + 1).drop_last() =~= ps@.take(i as int));
        assert(ps@.take(i + 1).last() == ps@[i as int]);
        let p = &ps[i];
        if p.enabled && !p.key.as_str().is_empty() {
            let ghost k = p.key@;
            m.insert(p.key.clone(), p.value.clone());
            assert(m@.dom().contains(k));
            any = true;
        }
        i = i + 1;
    }
    assert(ps@.take(ps@.len() as int) =~= ps@);
    if any {
        Some(RequestParams { path: Some(m) })
    } else {
        None
    }
}

/// `r` is the request file that the request `data` is saved as: the body type
/// is detected from the headers ("none" for an empty body) and the body is
/// written as `create_body_toml` does; headers and query parameters keep their
/// keys and values; path parameters are kept as `path_param_map` says; the
/// scripts are kept; authentication and request variables are not part of
/// this file format.
pub open spec fn saves_as(data: RequestData, r: RequestToml) -> bool {
    &&& r.meta.name@ == data.name@
    &&& r.meta.request_type@ == "http"@
    &&& r.meta.seq@ == "1"@
    &&& r.http.method@ == method_name(data.method)
    &&& r.http.url@ == data.url@
    &&& opt_chars(r.http.body) == Some(saved_body_type(data.body@, data.headers@))
    &&& r.http.auth@ == "none"@
    &&& match r.script {
        Some(s) => (data.pre_request_script is Some || data.post_response_script is Some)
            && opt_chars(s.pre_request) == opt_chars(data.pre_request_script)
            && opt_chars(s.post_response) == opt_chars(data.post_response_script),
        None => data.pre_request_script is None && data.post_response_script is None,
    }
    &&& headers_saved(r.headers, data.headers@)
    &&& queries_saved(r.query, data.query_params@)
    &&& path_param_map(data.path_params@) == Map::<Seq<char>, Seq<char>>::empty() ==> r.params is None
    &&& path_param_map(data.path_params@) != Map::<Seq<char>, Seq<char>>::empty() ==> (r.params matches Some(
        RequestParams { path: Some(m) },
    ) && m@ == path_param_map(data.path_params@))
    &&& data.body@.len() == 0 ==> r.body is None
    &&& data.body@.len() > 0 ==> (r.body matches Some(b) && body_toml_spec(
        b,
        data.body@,
        body_type_of_headers(data.headers@),
    ))
}

impl RequestToml {
    /// Converts a request into a request file. The body type is detected from
    /// the headers ("none" for an empty body); headers and query parameters
    /// keep their keys and values; path parameters are kept as described by
    /// `path_param_map`; authentication and request variables are not part
    /// of this file format.
    pub fn from_request(data: RequestData) -> (r: RequestToml)
        ensures
            saves_as(data, r),
    {
        let body_empty = data.body.as_str().is_empty();
        let body_type = if !body_empty {
            get_body_type_from_headers(data.headers.as_slice())
        } else {
            "none".to_string()
        };
        let headers = headers_to_toml(&data.headers);
        let query = queries_to_toml(&data.query_params);
        let params = params_to_toml(&data.path_params);
        let script = if data.pre_request_script.is_some() || data.post_response_script.is_some() {
            Some(
                RequestScript {
                    pre_request: data.pre_request_script,
                    post_response: data.post_response_script,
                },
            )
        } else {
            None
        };
        let body = if body_empty {
            None
        } else {
            create_body_toml(data.body.as_str(), body_type.as_str())
        };
        RequestToml {
            meta: RequestMeta { name: data.name, request_type: "http".to_string(), seq: "1".to_string() },
            http: RequestHttp {
                method: data.method.as_str().to_string(),
                url: data.url,
                body: Some(body_type),
                auth: "none".to_string(),
            },
            script,
            headers,
            query,
            body,
            params,
        }
    }
}

/// A request saved as a request file and loaded again keeps its name, its
/// method (HEAD and OPTIONS come back as GET) and its URL, its headers and query parameters (keys and values; they come back
/// enabled) and its scripts; its body comes back unchanged when it is empty
/// or its type is JSON, text or XML.
pub proof fn lemma_request_file_roundtrip(data: RequestData, file: RequestToml, back: RequestData)
    requires
        saves_as(data, file),
        loads_as(file, back),
    ensures
        back.name@ == data.name@,
        back.method == file_method(data.method),
        !(data.method is Head || data.method is Options) ==> back.method == data.method,
        back.url@ == data.url@,
        back.headers@.len() == data.headers@.len(),
        forall|i: int|
            0 <= i < back.headers@.len() ==> enabled_pair(
                #[trigger] back.headers@[i],
                data.headers@[i].key@,
                data.headers@[i].value@,
            ),
        back.query_params@.len() == data.query_params@.len(),
        forall|i: int|
            0 <= i < back.query_params@.len() ==> enabled_pair(
                #[trigger] back.query_params@[i],
                data.query_params@[i].key@,
                data.query_params@[i].value@,
            ),
        opt_chars(back.pre_request_script) == opt_chars(data.pre_request_script),
        opt_chars(back.post_response_script) == opt_chars(data.post_response_script),
        data.body@.len() == 0 ==> back.body@.len() == 0,
        ({
            let t = body_type_of_headers(data.headers@);
            t == "json"@ || t == "text"@ || t == "xml"@
        }) ==> back.body@ == data.body@,
{
    crate::domain::lemma_method_name_upper(data.method);
    lemma_body_type_names();
    reveal_strlit("none");
    assert("none"@[0] == 'n');
    reveal_strlit("json");
    reveal_strlit("text");
    reveal_strlit("xml");
    assert("json"@[0] == 'j');
    assert("text"@[0] == 't');
    assert("xml"@[0] == 'x');
    match file.headers {
        Some(v) => {
            assert forall|i: int| 0 <= i < back.headers@.len() implies enabled_pair(
                #[trigger] back.headers@[i],
                data.headers@[i].key@,
                data.headers@[i].value@,
            ) by {
                assert(v@[i].key@ == data.headers@[i].key@);
            }
        },
        None => {},
    }
    match file.query {
        Some(v) => {
            assert forall|i: int| 0 <= i < back.query_params@.len() implies enabled_pair(
                #[trigger] back.query_params@[i],
                data.query_params@[i].key@,
                data.query_params@[i].value@,
            ) by {
                assert(v@[i].key@ == data.query_params@[i].key@);
            }
        },
        None => {},
    }
}

} // verus!
