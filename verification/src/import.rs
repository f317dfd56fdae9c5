//! Importing collections from API descriptions: each operation becomes a
//! request, requests are grouped by their tag (groups in name order), and a
//! `Default` environment holds the base URL.

use vstd::prelude::*;

use crate::collection_types::{enabled_pair, opt_chars, EnvironmentToml, EnvironmentVariable};
use crate::domain::{method_from_upper, AuthType, HttpMethod, KeyValuePair, RequestData};
use crate::text::{
    append_str, chars_eq_str, chars_of, contains, contains_str, join, join_chars, push_str,
    str_to_uppercase, string_of, uppercase, uppercase_chars, views_of, lemma_text_lt_irreflexive, lemma_text_lt_total, lemma_text_lt_transitive, text_less,
    text_lt,
};

verus! {

/// What an import produces: the environment, the groups of requests (by
/// name) and the requests outside any group.
#[derive(Debug)]
pub struct ImportResult {
    pub environment: EnvironmentToml,
    pub groups: Vec<(String, Vec<RequestData>)>,
    pub requests: Vec<RequestData>,
}

// ---------------------------------------------------------------------------
// Grouping
// ---------------------------------------------------------------------------

/// The requests of the items with the given tag, in order.
pub open spec fn tagged(items: Seq<(Option<String>, RequestData)>, tag: Option<Seq<char>>) -> Seq<RequestData>
    decreases items.len(),
{
    if items.len() == 0 {
        Seq::empty()
    } else {
        let rest = tagged(items.drop_last(), tag);
        if opt_chars(items.last().0) == tag {
            rest.push(items.last().1)
        } else {
            rest
        }
    }
}

/// The groups are in strictly increasing name order.
pub open spec fn names_increasing(groups: Seq<(String, Vec<RequestData>)>) -> bool {
    forall|i: int, j: int|
        0 <= i < j < groups.len() ==> text_lt((#[trigger] groups[i]).0@, (#[trigger] groups[j]).0@)
}

/// `groups` and `rest` are `items` grouped by tag: one group per tag that
/// occurs, in name order, each with the requests of that tag in order; the
/// untagged requests, in order, are `rest`.
pub open spec fn grouped_by_tag(
    items: Seq<(Option<String>, RequestData)>,
    groups: Seq<(String, Vec<RequestData>)>,
    rest: Seq<RequestData>,
) -> bool {
    &&& names_increasing(groups)
    &&& forall|i: int|
        0 <= i < groups.len() ==> (#[trigger] groups[i]).1@ == tagged(items, Some(groups[i].0@))
            && groups[i].1@.len() > 0
    &&& forall|t: Seq<char>|
        #![trigger tagged(items, Some(t))]
        tagged(items, Some(t)).len() > 0 ==> exists|i: int| 0 <= i < groups.len() && (#[trigger] groups[i]).0@ == t
    &&& rest == tagged(items, None)
}

/// Appending an item changes only the list of its own tag.
proof fn lemma_tagged_push(items: Seq<(Option<String>, RequestData)>, item: (Option<String>, RequestData), tag: Option<Seq<char>>)
    ensures
        tagged(items.push(item), tag) == if opt_chars(item.0) == tag {
            tagged(items, tag).push(item.1)
        } else {
            tagged(items, tag)
        },
{
    assert(items.push(item).drop_last() =~= items);
}

/// Groups requests by tag, as `grouped_by_tag` says.
pub fn group_by_tag(items: Vec<(Option<String>, RequestData)>) -> (r: (Vec<(String, Vec<RequestData>)>, Vec<RequestData>))
    ensures
        grouped_by_tag(items@, r.0@, r.1@),
{
    let ghost all = items@;
    let mut items = items;
    assert(all.len() == items.len());
    let mut groups: Vec<(String, Vec<RequestData>)> = Vec::new();
    let mut rest: Vec<RequestData> = Vec::new();
    let mut k: usize = 0;
    assert(all.take(0) =~= Seq::<(Option<String>, RequestData)>::empty());
    while items.len() > 0
        invariant
            k + items@.len() == all.len(),
            all.len() <= usize::MAX,
            items@ == all.skip(k as int),
            grouped_by_tag(all.take(k as int), groups@, rest@),
        decreases items.len(),
    {
        let ghost done = all.take(k as int);
        let (tag, req) = items.remove(0);
        let ghost item = (tag, req);
        assert(all.take(k + 1) =~= done.push(item)) by {
            assert(all.skip(k as int)[0] == all[k as int]);
        }
        assert(items@ =~= all.skip(k + 1));
        assert forall|t: Option<Seq<char>>| #![auto] true implies tagged(done.push(item), t) == if opt_chars(item.0) == t {
            tagged(done, t).push(item.1)
        } else {
            tagged(done, t)
        } by {
            lemma_tagged_push(done, item, t);
        }
        match tag {
            None => {
                rest.push(req);
            },
            Some(name) => {
                let nc = chars_of(name.as_str());
                let mut idx: usize = 0;
                while idx < groups.len()
                    invariant
                        idx <= groups.len(),
                        nc@ == name@,
                        forall|j: int| 0 <= j < idx ==> text_lt((#[trigger] groups@[j]).0@, name@),
                    ensures
                        idx <= groups.len(),
                        forall|j: int| 0 <= j < idx ==> text_lt((#[trigger] groups@[j]).0@, name@),
                        idx < groups.len() ==> !text_lt(groups@[idx as int].0@, name@),
                    decreases groups.len() - idx,
                {
                    let gc = chars_of(groups[idx].0.as_str());
                    if !text_less(gc.as_slice(), nc.as_slice()) {
                        break;
                    }
                    idx = idx + 1;
                }
                let found = if idx < groups.len() {
                    let gc = chars_of(groups[idx].0.as_str());
                    !text_less(nc.as_slice(), gc.as_slice()) && !text_less(gc.as_slice(), nc.as_slice())
                } else {
                    false
                };
                let ghost old_groups = groups@;
                if found {
                    proof {
                        lemma_text_lt_total(groups@[idx as int].0@, name@);
                    }
                    let mut g: (String, Vec<RequestData>) = (String::new(), Vec::new());
                    std::mem::swap(&mut g, &mut groups[idx]);
                    g.1.push(req);
                    groups.set(idx, g);
                    proof {
                        assert forall|i: int| 0 <= i < groups@.len() implies (#[trigger] groups@[i]).1@ == tagged(
                            done.push(item),
                            Some(groups@[i].0@),
                        ) && groups@[i].1@.len() > 0 by {
                            if i != idx {
                                if old_groups[i].0@ == name@ {
                                    if i < idx {
                                        lemma_text_lt_irreflexive(name@);
                                    } else {
                                        assert(names_increasing(old_groups));
                                        assert(text_lt(old_groups[idx as int].0@, old_groups[i].0@));
                                        lemma_text_lt_irreflexive(name@);
                                    }
                                }
                            }
                        }
                        assert forall|i: int, j: int| 0 <= i < j < groups@.len() implies text_lt(
                            (#[trigger] groups@[i]).0@,
                            (#[trigger] groups@[j]).0@,
                        ) by {
                            assert(text_lt(old_groups[i].0@, old_groups[j].0@));
                        }
                        assert forall|t: Seq<char>| #![trigger tagged(done.push(item), Some(t))] tagged(
                            done.push(item),
                            Some(t),
                        ).len() > 0 implies exists|i: int| 0 <= i < groups@.len() && (#[trigger] groups@[i]).0@ == t by {
                            if t == name@ {
                                assert(groups@[idx as int].0@ == t);
                            } else {
                                assert(tagged(done, Some(t)).len() > 0);
                                let i = choose|i: int| 0 <= i < old_groups.len() && (#[trigger] old_groups[i]).0@ == t;
                                assert(groups@[i].0@ == t);
                            }
                        }
                    }
                } else {
                    proof {
                        if idx < old_groups.len() {
                            lemma_text_lt_total(old_groups[idx as int].0@, name@);
                        }
                        assert forall|i: int| 0 <= i < old_groups.len() implies (#[trigger] old_groups[i]).0@ != name@ by {
                            if i < idx {
                                lemma_text_lt_irreflexive(name@);
                            } else if i > idx {
                                assert(text_lt(old_groups[idx as int].0@, old_groups[i].0@));
                                lemma_text_lt_transitive(name@, old_groups[idx as int].0@, old_groups[i].0@);
                                lemma_text_lt_irreflexive(name@);
                            } else {
                                lemma_text_lt_irreflexive(name@);
                            }
                        }
                        assert(tagged(done, Some(name@)).len() == 0);
                    }
                    let ghost new_name = name@;
                    let mut v: Vec<RequestData> = Vec::new();
                    v.push(req);
                    groups.insert(idx, (name, v));
                    proof {
                        assert(groups@ =~= old_groups.insert(idx as int, groups@[idx as int]));
                        assert(tagged(done, Some(new_name)) =~= Seq::<RequestData>::empty());
                        assert forall|i: int| 0 <= i < groups@.len() implies (#[trigger] groups@[i]).1@ == tagged(
                            done.push(item),
                            Some(groups@[i].0@),
                        ) && groups@[i].1@.len() > 0 by {
                            if i < idx {
                                assert(groups@[i] == old_groups[i]);
                            } else if i > idx {
                                assert(groups@[i] == old_groups[i - 1]);
                            }
                        }
                        assert forall|i: int, j: int| 0 <= i < j < groups@.len() implies text_lt(
                            (#[trigger] groups@[i]).0@,
                            (#[trigger] groups@[j]).0@,
                        ) by {
                            if j < idx {
                                assert(text_lt(old_groups[i].0@, old_groups[j].0@));
                            } else if j == idx {
                            } else if i < idx {
                                assert(groups@[j] == old_groups[j - 1]);
                                if j - 1 == idx {
                                    lemma_text_lt_transitive(old_groups[i].0@, new_name, old_groups[j - 1].0@);
                                } else {
                                    assert(text_lt(old_groups[i].0@, old_groups[j - 1].0@));
                                }
                            } else if i == idx {
                                assert(groups@[j] == old_groups[j - 1]);
                                if j - 1 > idx {
                                    assert(text_lt(old_groups[idx as int].0@, old_groups[j - 1].0@));
                                    lemma_text_lt_transitive(new_name, old_groups[idx as int].0@, old_groups[j - 1].0@);
                                }
                            } else {
                                assert(groups@[i] == old_groups[i - 1]);
                                assert(groups@[j] == old_groups[j - 1]);
                                assert(text_lt(old_groups[i - 1].0@, old_groups[j - 1].0@));
                            }
                        }
                        assert forall|t: Seq<char>| #![trigger tagged(done.push(item), Some(t))] tagged(
                            done.push(item),
                            Some(t),
                        ).len() > 0 implies exists|i: int| 0 <= i < groups@.len() && (#[trigger] groups@[i]).0@ == t by {
                            if t == new_name {
                                assert(groups@[idx as int].0@ == t);
                            } else {
                                assert(tagged(done, Some(t)).len() > 0);
                                let i = choose|i: int| 0 <= i < old_groups.len() && (#[trigger] old_groups[i]).0@ == t;
                                if i < idx {
                                    assert(groups@[i].0@ == t);
                                } else {
                                    assert(groups@[i + 1].0@ == t);
                                }
                            }
                        }
                    }
                }
            },
        }
        k = k + 1;
    }
    assert(all.take(k as int) =~= all);
    (groups, rest)
}

// ---------------------------------------------------------------------------
// The environment
// ---------------------------------------------------------------------------

/// `env` is the `Default` environment with the single plain variable
/// `baseUrl`.
pub open spec fn base_url_environment(env: EnvironmentToml, base_url: Seq<char>) -> bool {
    &&& env.name@ == "Default"@
    &&& env.variables@.len() == 1
    &&& env.variables@[0].0@ == "baseUrl"@
    &&& env.variables@[0].1.value@ == base_url
    &&& !env.variables@[0].1.secret
    &&& !env.variables@[0].1.temporary
}

/// The `Default` environment with a `baseUrl` variable.
pub fn default_environment(base_url: String) -> (env: EnvironmentToml)
    ensures
        base_url_environment(env, base_url@),
        env.names_distinct(),
{
    let mut variables: Vec<(String, EnvironmentVariable)> = Vec::new();
    variables.push(
        ("baseUrl".to_string(), EnvironmentVariable { value: base_url, secret: false, temporary: false }),
    );
    EnvironmentToml { name: "Default".to_string(), variables }
}

// ---------------------------------------------------------------------------
// WSDL
// ---------------------------------------------------------------------------

/// An operation read from a WSDL document.
#[derive(Debug, Clone, PartialEq)]
pub struct WsdlOperationInfo {
    pub name: String,
    /// The port type the operation belongs to.
    pub group: Option<String>,
    pub soap_action: Option<String>,
    pub soap_envelope: String,
}

/// What a WSDL document yields: its operations and the service endpoint.
#[derive(Debug, Clone, PartialEq)]
pub struct WsdlImportOutput {
    pub operations: Vec<WsdlOperationInfo>,
    pub endpoint_url: String,
}

/// `r` is the SOAP request for the operation: a POST to `{{baseUrl}}` with
/// an XML content type and the operation's SOAP action, carrying the
/// operation's envelope.
pub open spec fn soap_request(op: WsdlOperationInfo, r: RequestData) -> bool {
    &&& r.name@ == op.name@
    &&& r.method == HttpMethod::Post
    &&& r.url@ == "{{baseUrl}}"@
    &&& r.path_params@.len() == 0
    &&& r.query_params@.len() == 0
    &&& r.headers@.len() == 2
    &&& enabled_pair(r.headers@[0], "Content-Type"@, "text/xml; charset=utf-8"@)
    &&& enabled_pair(
        r.headers@[1],
        "SOAPAction"@,
        match op.soap_action {
            Some(a) => a@,
            None => Seq::empty(),
        },
    )
    &&& r.body@ == op.soap_envelope@
    &&& r.auth is NoAuth
    &&& r.pre_request_script is None
    &&& r.post_response_script is None
    &&& r.vars@.len() == 0
}

/// The request for one WSDL operation.
pub fn create_soap_request(op: &WsdlOperationInfo) -> (r: RequestData)
    ensures
        soap_request(*op, r),
{
    let mut headers: Vec<KeyValuePair> = Vec::new();
    headers.push(
        KeyValuePair {
            key: "Content-Type".to_string(),
            value: "text/xml; charset=utf-8".to_string(),
            enabled: true,
        },
    );
    let action = match &op.soap_action {
        Some(a) => a.clone(),
        None => String::new(),
    };
    headers.push(KeyValuePair { key: "SOAPAction".to_string(), value: action, enabled: true });
    RequestData {
        name: op.name.clone(),
        method: HttpMethod::Post,
        url: "{{baseUrl}}".to_string(),
        path_params: Vec::new(),
        query_params: Vec::new(),
        headers,
        body: op.soap_envelope.clone(),
        auth: AuthType::NoAuth,
        pre_request_script: None,
        post_response_script: None,
        vars: Vec::new(),
    }
}

/// The items are the WSDL operations' requests, each with its port type.
pub open spec fn soap_items(ops: Seq<WsdlOperationInfo>, items: Seq<(Option<String>, RequestData)>) -> bool {
    &&& items.len() == ops.len()
    &&& forall|i: int|
        0 <= i < items.len() ==> opt_chars((#[trigger] items[i]).0) == opt_chars(ops[i].group)
            && soap_request(ops[i], items[i].1)
}

/// Import from a parsed WSDL document: one SOAP request per operation,
/// grouped by port type, and a `Default` environment whose `baseUrl` is the
/// service endpoint.
pub fn import_from_wsdl(output: WsdlImportOutput) -> (r: ImportResult)
    ensures
        base_url_environment(r.environment, output.endpoint_url@),
        r.environment.names_distinct(),
        exists|items: Seq<(Option<String>, RequestData)>|
            soap_items(output.operations@, items) && grouped_by_tag(items, r.groups@, r.requests@),
{
    let ops = &output.operations;
    let mut items: Vec<(Option<String>, RequestData)> = Vec::new();
    let mut i: usize = 0;
    while i < ops.len()
        invariant
            i <= ops.len(),
            soap_items(ops@.take(i as int), items@),
        decreases ops.len() - i,
    {
        let req = create_soap_request(&ops[i]);
        items.push((ops[i].group.clone(), req));
        i = i + 1;
    }
    assert(ops@.take(ops@.len() as int) =~= ops@);
    let ghost all = items@;
    let (groups, requests) = group_by_tag(items);
    let environment = default_environment(output.endpoint_url.clone());
    ImportResult { environment, groups, requests }
}

// ---------------------------------------------------------------------------
// OpenAPI
// ---------------------------------------------------------------------------

/// Where an operation parameter goes.
#[derive(Debug, Clone, Copy, PartialEq, Eq, Structural)]
pub enum ParameterLocation {
    Header,
    Query,
    Path,
    Cookie,
}

/// A resolved operation parameter.
#[derive(Debug, Clone, PartialEq)]
pub struct OperationParameter {
    pub name: String,
    pub location: ParameterLocation,
}

/// One content type of an operation's request body, with the sample JSON
/// generated from its schema (absent when there is no schema or no sample
/// could be generated).
#[derive(Debug, Clone, PartialEq)]
pub struct BodyContent {
    pub content_type: String,
    pub sample: Option<String>,
}

/// An operation of an OpenAPI document, as the importer reads it.
#[derive(Debug, Clone, PartialEq)]
pub struct OperationInfo {
    /// The method name as the document writes it.
    pub method: String,
    pub path: String,
    pub tags: Vec<String>,
    pub operation_id: Option<String>,
    pub parameters: Vec<OperationParameter>,
    /// The contents of the resolved request body, in the document's order.
    pub request_body: Option<Vec<BodyContent>>,
}

/// Imports the operations of an OpenAPI document.
#[derive(Debug)]
pub struct OpenAPIImporter {
    operations: Vec<OperationInfo>,
    base_url: String,
}

/// `{param}` path segments written as `:param`: after a `{`, the text up to
/// the next `}` (which is dropped) is the parameter's name; an unclosed `{`
/// takes the rest of the path.
pub open spec fn path_params_from(s: Seq<char>, in_param: bool) -> Seq<char>
    decreases s.len(),
{
    if s.len() == 0 {
        Seq::empty()
    } else if in_param {
        if s[0] == '}' {
            path_params_from(s.drop_first(), false)
        } else {
            seq![s[0]] + path_params_from(s.drop_first(), true)
        }
    } else if s[0] == '{' {
        seq![':'] + path_params_from(s.drop_first(), true)
    } else {
        seq![s[0]] + path_params_from(s.drop_first(), false)
    }
}

/// Convert OpenAPI path param format {param} to :param format
pub fn convert_path_params_format(path: &str) -> (r: String)
    ensures
        r@ == path_params_from(path@, false),
{
    let s = chars_of(path);
    let mut out: Vec<char> = Vec::new();
    let mut in_param = false;
    let mut i: usize = 0;
    assert(s@.skip(0) =~= s@);
    while i < s.len()
        invariant
            i <= s.len(),
            s@ == path@,
            out@ + path_params_from(s@.skip(i as int), in_param) == path_params_from(path@, false),
        decreases s.len() - i,
    {
        let ghost rest = s@.skip(i as int);
        assert(rest[0] == s@[i as int]);
        assert(rest.drop_first() =~= s@.skip(i + 1));
        let c = s[i];
        if in_param {
            if c == '}' {
                in_param = false;
            } else {
                out.push(c);
            }
        } else if c == '{' {
            out.push(':');
            in_param = true;
        } else {
            out.push(c);
        }
        proof {
            assert(out@ + path_params_from(s@.skip(i + 1), in_param) =~= path_params_from(path@, false));
        }
        i = i + 1;
    }
    assert(out@ + path_params_from(s@.skip(i as int), in_param) =~= out@);
    string_of(out.as_slice())
}

/// A path without its leading slashes.
pub open spec fn without_leading_slashes(s: Seq<char>) -> Seq<char>
    decreases s.len(),
{
    if s.len() > 0 && s[0] == '/' {
        without_leading_slashes(s.drop_first())
    } else {
        s
    }
}

/// A path with `/` written as `-` and braces dropped.
pub open spec fn dashed(s: Seq<char>) -> Seq<char>
    decreases s.len(),
{
    if s.len() == 0 {
        Seq::empty()
    } else if s[0] == '/' {
        seq!['-'] + dashed(s.drop_first())
    } else if s[0] == '{' || s[0] == '}' {
        dashed(s.drop_first())
    } else {
        seq![s[0]] + dashed(s.drop_first())
    }
}

/// A readable name for a path: leading slashes trimmed, `/` as `-`, braces
/// removed.
pub fn sanitize_path_name(path: &str) -> (r: String)
    ensures
        r@ == dashed(without_leading_slashes(path@)),
{
    let s = chars_of(path);
    let mut start: usize = 0;
    assert(s@.skip(0) =~= s@);
    while start < s.len() && s[start] == '/'
        invariant
            start <= s.len(),
            s@ == path@,
            without_leading_slashes(path@) == without_leading_slashes(s@.skip(start as int)),
        decreases s.len() - start,
    {
        assert(s@.skip(start as int).drop_first() =~= s@.skip(start + 1));
        start = start + 1;
    }
    let ghost trimmed = s@.skip(start as int);
    assert(without_leading_slashes(trimmed) == trimmed);
    let mut out: Vec<char> = Vec::new();
    let mut i: usize = start;
    while i < s.len()
        invariant
            start <= i <= s.len(),
            trimmed == s@.skip(start as int),
            out@ + dashed(s@.skip(i as int)) == dashed(trimmed),
        decreases s.len() - i,
    {
        let ghost rest = s@.skip(i as int);
        assert(rest[0] == s@[i as int]);
        assert(rest.drop_first() =~= s@.skip(i + 1));
        let c = s[i];
        if c == '/' {
            out.push('-');
        } else if c == '{' || c == '}' {
        } else {
            out.push(c);
        }
        assert(out@ + dashed(s@.skip(i + 1)) =~= dashed(trimmed));
        i = i + 1;
    }
    assert(out@ + dashed(s@.skip(i as int)) =~= out@);
    string_of(out.as_slice())
}

/// The names of the parameters at a location, in order.
pub open spec fn names_at(ps: Seq<OperationParameter>, loc: ParameterLocation) -> Seq<Seq<char>>
    decreases ps.len(),
{
    if ps.len() == 0 {
        Seq::empty()
    } else {
        let rest = names_at(ps.drop_last(), loc);
        if ps.last().location == loc {
            rest.push(ps.last().name@)
        } else {
            rest
        }
    }
}

/// The pairs are the given names, each with an empty value, enabled.
pub open spec fn empty_pairs(ps: Seq<KeyValuePair>, names: Seq<Seq<char>>) -> bool {
    ps.len() == names.len() && forall|i: int| 0 <= i < ps.len() ==> enabled_pair(#[trigger] ps[i], names[i], Seq::empty())
}

/// The value of the `Cookie` header that carries the cookie parameters: each
/// as `name=` (the value is empty), joined with `; `.
pub open spec fn cookie_value(names: Seq<Seq<char>>) -> Seq<char> {
    join(names.map_values(|n: Seq<char>| n + "="@), "; "@)
}

/// The headers of an imported request: the header parameters, then, when
/// there are cookie parameters, a `Cookie` header with them.
pub open spec fn imported_headers(hs: Seq<KeyValuePair>, ps: Seq<OperationParameter>) -> bool {
    let names = names_at(ps, ParameterLocation::Header);
    let cookies = names_at(ps, ParameterLocation::Cookie);
    if cookies.len() == 0 {
        empty_pairs(hs, names)
    } else {
        &&& hs.len() == names.len() + 1
        &&& empty_pairs(hs.drop_last(), names)
        &&& enabled_pair(hs.last(), "Cookie"@, cookie_value(cookies))
    }
}

/// Content types treated as JSON.
pub open spec fn json_like(ct: Seq<char>) -> bool {
    contains(ct, "json"@) || contains(ct, "*/*"@) || contains(ct, "+json"@)
}

/// The body of the first JSON-like content: its sample, or `{}` without one.
pub open spec fn first_json_body(cs: Seq<BodyContent>) -> Option<Seq<char>>
    decreases cs.len(),
{
    if cs.len() == 0 {
        None
    } else if json_like(cs[0].content_type@) {
        match cs[0].sample {
            Some(t) => Some(t@),
            None => Some("{}"@),
        }
    } else {
        first_json_body(cs.drop_first())
    }
}

/// The body of an imported request: the first JSON-like content's sample;
/// without one, `{}` for methods that usually carry a body (POST, PUT, PATCH
/// after upper-casing) and nothing for the others.
pub open spec fn imported_body(rb: Option<Vec<BodyContent>>, method: Seq<char>) -> Seq<char> {
    let fallback = if uppercase(method) == "POST"@ || uppercase(method) == "PUT"@ || uppercase(method)
        == "PATCH"@ {
        "{}"@
    } else {
        Seq::empty()
    };
    match rb {
        Some(cs) => match first_json_body(cs@) {
            Some(t) => t,
            None => fallback,
        },
        None => fallback,
    }
}

/// `r` is the request imported for the operation.
pub open spec fn openapi_request(op: OperationInfo, r: RequestData) -> bool {
    &&& r.name@ == match op.operation_id {
        Some(id) => id@,
        None => uppercase(op.method@) + " "@ + dashed(without_leading_slashes(op.path@)),
    }
    &&& r.method == method_from_upper(uppercase(op.method@))
    &&& r.url@ == "{{baseUrl}}"@ + path_params_from(op.path@, false)
    &&& empty_pairs(r.path_params@, names_at(op.parameters@, ParameterLocation::Path))
    &&& empty_pairs(r.query_params@, names_at(op.parameters@, ParameterLocation::Query))
    &&& imported_headers(r.headers@, op.parameters@)
    &&& r.body@ == imported_body(op.request_body, op.method@)
    &&& r.auth is NoAuth
    &&& r.pre_request_script is None
    &&& r.post_response_script is None
    &&& r.vars@.len() == 0
}

/// The parameters at a location, each with an empty value.
fn params_at(ps: &Vec<OperationParameter>, loc: ParameterLocation) -> (r: Vec<KeyValuePair>)
    ensures
        empty_pairs(r@, names_at(ps@, loc)),
{
    let mut r: Vec<KeyValuePair> = Vec::new();
    let mut i: usize = 0;
    while i < ps.len()
        invariant
            i <= ps.len(),
            empty_pairs(r@, names_at(ps@.take(i as int), loc)),
        decreases ps.len() - i,
    {
        assert(ps@.take(i + 1).drop_last() =~= ps@.take(i as int));
        assert(ps@.take(i + 1).last() == ps@[i as int]);
        if ps[i].location == loc {
            r.push(KeyValuePair { key: ps[i].name.clone(), value: String::new(), enabled: true });
        }
        i = i + 1;
    }
    assert(ps@.take(ps@.len() as int) =~= ps@);
    r
}

/// The request body of an operation, as `imported_body` says.
pub fn extract_request_body(rb: &Option<Vec<BodyContent>>, method: &str) -> (r: String)
    ensures
        r@ == imported_body(*rb, method@),
{
    match rb {
        Some(cs) => {
            let mut i: usize = 0;
            assert(cs@.skip(0) =~= cs@);
            while i < cs.len()
                invariant
                    i <= cs.len(),
                    *rb == Some(*cs),
                    first_json_body(cs@) == first_json_body(cs@.skip(i as int)),
                decreases cs.len() - i,
            {
                let ghost rest = cs@.skip(i as int);
                assert(rest[0] == cs@[i as int]);
                assert(rest.drop_first() =~= cs@.skip(i + 1));
                let ct = chars_of(cs[i].content_type.as_str());
                if contains_str(ct.as_slice(), "json") || contains_str(ct.as_slice(), "*/*")
                    || contains_str(ct.as_slice(), "+json") {
                    let r = match &cs[i].sample {
                        Some(t) => t.clone(),
                        None => "{}".to_string(),
                    };
                    return r;
                }
                i = i + 1;
            }
        },
        None => {},
    }
    let mc = chars_of(method);
    let u = uppercase_chars(mc.as_slice());
    if chars_eq_str(u.as_slice(), "POST") || chars_eq_str(u.as_slice(), "PUT") || chars_eq_str(
        u.as_slice(),
        "PATCH",
    ) {
        "{}".to_string()
    } else {
        String::new()
    }
}

/// The base URL of a document: its first server's URL, or
/// `http://localhost` without one.
pub fn extract_base_url(first_server: Option<&String>) -> (r: String)
    ensures
        r@ == match first_server {
            Some(u) => u@,
            None => "http://localhost"@,
        },
{
    match first_server {
        Some(u) => u.clone(),
        None => "http://localhost".to_string(),
    }
}

/// The items are the operations' requests, each with its first tag.
pub open spec fn openapi_items(ops: Seq<OperationInfo>, items: Seq<(Option<String>, RequestData)>) -> bool {
    &&& items.len() == ops.len()
    &&& forall|i: int|
        0 <= i < items.len() ==> opt_chars((#[trigger] items[i]).0) == (if ops[i].tags@.len() > 0 {
            Some(ops[i].tags@[0]@)
        } else {
            None
        }) && openapi_request(ops[i], items[i].1)
}

impl OpenAPIImporter {
    /// An importer for the given operations; the base URL is the first
    /// server's URL.
    pub fn new(operations: Vec<OperationInfo>, servers: &Vec<String>) -> (r: Self)
        ensures
            r.operations() == operations@,
            r.base_url()@ == if servers@.len() > 0 {
                servers@[0]@
            } else {
                "http://localhost"@
            },
    {
        let first = if servers.len() > 0 {
            Some(&servers[0])
        } else {
            None
        };
        let base_url = extract_base_url(first);
        OpenAPIImporter { operations, base_url }
    }

    /// The operations to import.
    pub closed spec fn operations(self) -> Seq<OperationInfo> {
        self.operations@
    }

    /// The base URL the `Default` environment gets.
    pub closed spec fn base_url(self) -> String {
        self.base_url
    }

    /// Create a Default environment with baseUrl variable
    pub fn create_environment(&self) -> (env: EnvironmentToml)
        ensures
            base_url_environment(env, self.base_url()@),
            env.names_distinct(),
    {
        default_environment(self.base_url.clone())
    }

    /// The request for one operation, as `openapi_request` says.
    pub fn create_request(&self, op: &OperationInfo) -> (r: RequestData)
        ensures
            openapi_request(*op, r),
    {
        let mc = chars_of(op.method.as_str());
        let method = HttpMethod::parse(mc.as_slice());
        let converted = convert_path_params_format(op.path.as_str());
        let mut url = "{{baseUrl}}".to_string();
        push_str(&mut url, converted.as_str());
        let name = match &op.operation_id {
            Some(id) => id.clone(),
            None => {
                let u = str_to_uppercase(op.method.as_str());
                let mut n = u;
                push_str(&mut n, " ");
                let p = sanitize_path_name(op.path.as_str());
                push_str(&mut n, p.as_str());
                n
            },
        };
        let mut headers = params_at(&op.parameters, ParameterLocation::Header);
        let query_params = params_at(&op.parameters, ParameterLocation::Query);
        let path_params = params_at(&op.parameters, ParameterLocation::Path);
        let cookies = params_at(&op.parameters, ParameterLocation::Cookie);
        if cookies.len() > 0 {
            let mut parts: Vec<Vec<char>> = Vec::new();
            let ghost names = names_at(op.parameters@, ParameterLocation::Cookie);
            let mut i: usize = 0;
            while i < cookies.len()
                invariant
                    i <= cookies.len(),
                    empty_pairs(cookies@, names),
                    views_of(parts@) == names.take(i as int).map_values(|n: Seq<char>| n + "="@),
                decreases cookies.len() - i,
            {
                let ghost before = views_of(parts@);
                let mut piece = chars_of(cookies[i].key.as_str());
                append_str(&mut piece, "=");
                parts.push(piece);
                assert(views_of(parts@) =~= before.push(piece@));
                assert(names.take(i + 1) =~= names.take(i as int).push(names[i as int]));
                assert(views_of(parts@) =~= names.take(i + 1).map_values(|n: Seq<char>| n + "="@));
                i = i + 1;
            }
            assert(names.take(names.len() as int) =~= names);
            let sep = chars_of("; ");
            let value = join_chars(&parts, sep.as_slice());
            let ghost before = headers@;
            headers.push(KeyValuePair { key: "Cookie".to_string(), value: string_of(value.as_slice()), enabled: true });
            assert(headers@.drop_last() =~= before);
        }
        let body = extract_request_body(&op.request_body, op.method.as_str());
        RequestData {
            name,
            method,
            url,
            path_params,
            query_params,
            headers,
            body,
            auth: AuthType::NoAuth,
            pre_request_script: None,
            post_response_script: None,
            vars: Vec::new(),
        }
    }

    /// Import spec as collection groups and requests: one request per
    /// operation, grouped by the operation's first tag, and the `Default`
    /// environment.
    pub fn import(&self) -> (r: ImportResult)
        ensures
            base_url_environment(r.environment, self.base_url()@),
            r.environment.names_distinct(),
            exists|items: Seq<(Option<String>, RequestData)>|
                openapi_items(self.operations(), items) && grouped_by_tag(items, r.groups@, r.requests@),
    {
        let ops = &self.operations;
        let mut items: Vec<(Option<String>, RequestData)> = Vec::new();
        let mut i: usize = 0;
        while i < ops.len()
            invariant
                i <= ops.len(),
                ops@ == self.operations(),
                openapi_items(ops@.take(i as int), items@),
            decreases ops.len() - i,
        {
            let req = self.create_request(&ops[i]);
            let tag = if ops[i].tags.len() > 0 {
                Some(ops[i].tags[0].clone())
            } else {
                None
            };
            items.push((tag, req));
            i = i + 1;
        }
        assert(ops@.take(ops@.len() as int) =~= ops@);
        let (groups, requests) = group_by_tag(items);
        let environment = self.create_environment();
        ImportResult { environment, groups, requests }
    }
}

// ---------------------------------------------------------------------------
// Schema imports of a WSDL's XML schemas
// ---------------------------------------------------------------------------

/// The empty elements of an XML text, up to its end or to the first point
/// where it cannot be read: each as its local name and its readable
/// attributes, as local names and values.
pub uninterp spec fn xml_empty_elements(text: Seq<char>) -> Seq<(Seq<char>, Seq<(Seq<char>, Seq<char>)>)>;

/// The views of read elements.
pub open spec fn element_views(es: Seq<(String, Vec<(String, String)>)>) -> Seq<(Seq<char>, Seq<(Seq<char>, Seq<char>)>)> {
    es.map_values(
        |e: (String, Vec<(String, String)>)| (e.0@, e.1@.map_values(|a: (String, String)| (a.0@, a.1@))),
    )
}

/// Reads the empty elements of an XML text with `quick_xml`'s namespace
/// reader (text trimmed), stopping at the end or at the first error. The
/// result is named by `xml_empty_elements`.
#[verifier::external_body]
fn empty_elements(text: &str) -> (r: Vec<(String, Vec<(String, String)>)>)
    ensures
        element_views(r@) == xml_empty_elements(text@),
{
    let mut reader = quick_xml::NsReader::from_str(text);
    reader.config_mut().trim_text(true);
    let (mut out, mut buf) = (Vec::new(), Vec::new());
    loop {
        match reader.read_event_into(&mut buf) {
            Ok(quick_xml::events::Event::Empty(e)) => out.push((e.local_name().as_ref().to_string(), e.attributes().flatten().map(|a| (a.key.local_name().as_ref().to_string(), a.value.to_string())).collect())),
            Ok(quick_xml::events::Event::Eof) | Err(_) => break,
            _ => {},
        }
        buf.clear();
    }
    out
}

/// The `schemaLocation` values among attributes, in order.
pub open spec fn attr_locations(attrs: Seq<(Seq<char>, Seq<char>)>) -> Seq<Seq<char>>
    decreases attrs.len(),
{
    if attrs.len() == 0 {
        Seq::empty()
    } else {
        let prev = attr_locations(attrs.drop_last());
        if attrs.last().0 == "schemaLocation"@ {
            prev.push(attrs.last().1)
        } else {
            prev
        }
    }
}

/// The schema locations of the `import` elements, in order.
pub open spec fn schema_locations(es: Seq<(Seq<char>, Seq<(Seq<char>, Seq<char>)>)>) -> Seq<Seq<char>>
    decreases es.len(),
{
    if es.len() == 0 {
        Seq::empty()
    } else {
        let prev = schema_locations(es.drop_last());
        if es.last().0 == "import"@ {
            prev + attr_locations(es.last().1)
        } else {
            prev
        }
    }
}

/// The schema locations that an XML schema imports: the `schemaLocation` of
/// each empty `import` element (namespace prefixes ignored).
pub fn extract_schema_imports(xsd_content: &str) -> (r: Vec<String>)
    ensures
        crate::text::string_views(r@) == schema_locations(xml_empty_elements(xsd_content@)),
{
    let els = empty_elements(xsd_content);
    let ghost ev = element_views(els@);
    let mut out: Vec<String> = Vec::new();
    let mut i: usize = 0;
    while i < els.len()
        invariant
            i <= els.len(),
            ev == element_views(els@),
            crate::text::string_views(out@) == schema_locations(ev.take(i as int)),
        decreases els.len() - i,
    {
        assert(ev.take(i + 1).drop_last() =~= ev.take(i as int));
        assert(ev.take(i + 1).last() == ev[i as int]);
        let name = chars_of(els[i].0.as_str());
        if chars_eq_str(name.as_slice(), "import") {
            let attrs = &els[i].1;
            let ghost av = ev[i as int].1;
            let ghost start = crate::text::string_views(out@);
            let mut j: usize = 0;
            assert(start + attr_locations(av.take(0)) =~= start);
            while j < attrs.len()
                invariant
                    j <= attrs.len(),
                    av == attrs@.map_values(|a: (String, String)| (a.0@, a.1@)),
                    crate::text::string_views(out@) == start + attr_locations(av.take(j as int)),
                decreases attrs.len() - j,
            {
                assert(av.take(j + 1).drop_last() =~= av.take(j as int));
                assert(av.take(j + 1).last() == av[j as int]);
                let key = chars_of(attrs[j].0.as_str());
                if chars_eq_str(key.as_slice(), "schemaLocation") {
                    let ghost before = out@;
                    out.push(attrs[j].1.clone());
                    assert(crate::text::string_views(out@) =~= crate::text::string_views(before).push(attrs@[j as int].1@));
                    assert(start + attr_locations(av.take(j + 1)) =~= (start + attr_locations(av.take(j as int))).push(
                        av[j as int].1,
                    ));
                }
                j = j + 1;
            }
            assert(av.take(av.len() as int) =~= av);
        }
        i = i + 1;
    }
    assert(ev.take(ev.len() as int) =~= ev);
    out
}

} // verus!
