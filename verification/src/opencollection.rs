//! Bruno OpenCollection documents: the modeled part of their items and
//! environments, and the mapping between them and the library's requests and
//! environments. Every part of a document that is not modeled is kept as a
//! document value so that it is written back as it was read.

use vstd::prelude::*;

use crate::data::{
    data_models, entries_duplicate, entries_get, entry_models, lemma_data_models_index, lemma_entry_models_index, map_get, map_insert, mapping_insert, model_bool,
    model_str, opt_duplicate, opt_model, values_duplicate, DataModel, DataValue,
};
use crate::domain::{auth_same, kv_same, pairs_same, request_same, method_from_upper, AuthType, RequestData, BasicAuth, DigestAuth, HttpMethod, KeyAuth, KeyValuePair};
use crate::encoding::{url_encode, url_encode_str};
use crate::json::{json_compact, json_compact_text, json_quote, json_quoted};
use crate::text::{ascii_ieq, chars_of, join, uppercase, views_of};

verus! {

/// The `info` block of an item.
#[derive(Debug, Clone)]
pub struct OcItemInfo {
    pub name: String,
    pub item_type: String,
    pub description: Option<DataValue>,
    pub seq: Option<DataValue>,
    pub tags: Option<DataValue>,
    pub extra: Vec<(DataValue, DataValue)>,
}

/// A request header.
#[derive(Debug, Clone)]
pub struct OcHeader {
    pub name: String,
    pub value: String,
    pub description: Option<DataValue>,
    pub disabled: bool,
    pub extra: Vec<(DataValue, DataValue)>,
}

/// A query or path parameter; `param_type` is "query" or "path".
#[derive(Debug, Clone)]
pub struct OcParam {
    pub name: String,
    pub value: String,
    pub param_type: String,
    pub description: Option<DataValue>,
    pub disabled: bool,
    pub extra: Vec<(DataValue, DataValue)>,
}

/// A script of an item's runtime block.
#[derive(Debug, Clone)]
pub struct OcScript {
    pub script_type: String,
    pub code: String,
    pub extra: Vec<(DataValue, DataValue)>,
}

/// An item's runtime block: scripts and request variables.
#[derive(Debug, Clone)]
pub struct OcRuntime {
    pub scripts: Vec<OcScript>,
    pub variables: Option<Vec<DataValue>>,
    pub extra: Vec<(DataValue, DataValue)>,
}

/// The `http` block of a request item. `broquest_auth` is this library's own
/// extension: authentication that the format has no place for (OAuth2, JWT).
#[derive(Debug, Clone)]
pub struct OcHttp {
    pub method: String,
    pub url: String,
    pub headers: Vec<OcHeader>,
    pub params: Vec<OcParam>,
    pub body: Option<DataValue>,
    pub auth: Option<DataValue>,
    pub broquest_auth: Option<crate::domain::AuthType>,
    pub extra: Vec<(DataValue, DataValue)>,
}

/// An item of a collection: a request, a folder, or another kind of item.
#[derive(Debug)]
pub struct OcItem {
    pub info: Option<OcItemInfo>,
    pub script_file_type: Option<String>,
    pub http: Option<OcHttp>,
    pub graphql: Option<DataValue>,
    pub items: Option<Vec<OcItem>>,
    pub runtime: Option<OcRuntime>,
    pub settings: Option<DataValue>,
    pub examples: Option<DataValue>,
    pub docs: Option<DataValue>,
    pub script: Option<String>,
    pub extra: Vec<(DataValue, DataValue)>,
}

/// An environment: its name and its variables as document values.
#[derive(Debug, Clone)]
pub struct OcEnvironment {
    pub name: String,
    pub color: Option<String>,
    pub variables: Vec<DataValue>,
    pub extra: Vec<(DataValue, DataValue)>,
}

/// The `info` block of a collection.
#[derive(Debug, Clone)]
pub struct OcInfo {
    pub name: String,
    pub version: Option<String>,
    pub extra: Vec<(DataValue, DataValue)>,
}

/// The `config` block of a collection.
#[derive(Debug, Clone)]
pub struct OcConfig {
    pub environments: Vec<OcEnvironment>,
    pub extra: Vec<(DataValue, DataValue)>,
}

/// The root document of a collection. `request` holds the collection-level
/// request defaults as they were read.
#[derive(Debug, Clone)]
pub struct OpenCollectionFile {
    pub opencollection: String,
    pub info: OcInfo,
    pub config: Option<OcConfig>,
    pub request: Option<DataValue>,
    pub items: Vec<OcItem>,
    pub docs: Option<DataValue>,
    pub bundled: Option<bool>,
    pub extra: Vec<(DataValue, DataValue)>,
}

/// The kinds of items the mapping tells apart.
#[derive(Debug, Clone, Copy, PartialEq, Eq, Structural)]
pub enum ItemKind {
    Http,
    Folder,
    Other,
}

/// The type an item declares: its `info` type, or else its top-level type.
pub open spec fn item_type_text(item: OcItem) -> Seq<char> {
    match item.info {
        Some(i) => i.item_type@,
        None => match item.script_file_type {
            Some(t) => t@,
            None => Seq::empty(),
        },
    }
}

/// The kind of an item.
pub open spec fn item_kind(item: OcItem) -> ItemKind {
    if item_type_text(item) == "http"@ {
        ItemKind::Http
    } else if item_type_text(item) == "folder"@ {
        ItemKind::Folder
    } else {
        ItemKind::Other
    }
}

/// The kind of an item.
pub fn item_type(item: &OcItem) -> (k: ItemKind)
    ensures
        k == item_kind(*item),
{
    let t = match &item.info {
        Some(i) => chars_of(i.item_type.as_str()),
        None => match &item.script_file_type {
            Some(t) => chars_of(t.as_str()),
            None => Vec::new(),
        },
    };
    if crate::text::chars_eq_str(t.as_slice(), "http") {
        ItemKind::Http
    } else if crate::text::chars_eq_str(t.as_slice(), "folder") {
        ItemKind::Folder
    } else {
        ItemKind::Other
    }
}

/// Parses a method name case-insensitively; unknown names mean GET.
pub fn parse_method(s: &str) -> (m: HttpMethod)
    ensures
        m == method_from_upper(uppercase(s@)),
{
    let c = chars_of(s);
    HttpMethod::parse(c.as_slice())
}

/// The code of the last script of a type.
pub open spec fn last_script(scripts: Seq<OcScript>, script_type: Seq<char>) -> Option<Seq<char>>
    decreases scripts.len(),
{
    if scripts.len() == 0 {
        None
    } else if scripts.last().script_type@ == script_type {
        Some(scripts.last().code@)
    } else {
        last_script(scripts.drop_last(), script_type)
    }
}

/// The before-request and after-response scripts of a runtime block (the
/// last of each type).
pub fn scripts_from_runtime(rt: &OcRuntime) -> (r: (Option<String>, Option<String>))
    ensures
        crate::collection_types::opt_chars(r.0) == last_script(rt.scripts@, "before-request"@),
        crate::collection_types::opt_chars(r.1) == last_script(rt.scripts@, "after-response"@),
{
    let mut pre: Option<String> = None;
    let mut post: Option<String> = None;
    let mut i: usize = 0;
    while i < rt.scripts.len()
        invariant
            i <= rt.scripts.len(),
            crate::collection_types::opt_chars(pre) == last_script(rt.scripts@.take(i as int), "before-request"@),
            crate::collection_types::opt_chars(post) == last_script(rt.scripts@.take(i as int), "after-response"@),
        decreases rt.scripts.len() - i,
    {
        let s = &rt.scripts[i];
        assert(rt.scripts@.take(i + 1).drop_last() =~= rt.scripts@.take(i as int));
        assert(rt.scripts@.take(i + 1).last() == rt.scripts@[i as int]);
        let t = chars_of(s.script_type.as_str());
        if crate::text::chars_eq_str(t.as_slice(), "before-request") {
            pre = Some(s.code.clone());
        } else if crate::text::chars_eq_str(t.as_slice(), "after-response") {
            post = Some(s.code.clone());
        }
        proof {
            reveal_strlit("before-request");
            reveal_strlit("after-response");
            assert("before-request"@[0] != "after-response"@[0]);
        }
        i = i + 1;
    }
    assert(rt.scripts@.take(rt.scripts@.len() as int) =~= rt.scripts@);
    (pre, post)
}

/// Some enabled header is named `content-type` (ASCII case ignored).
pub open spec fn has_enabled_content_type(hs: Seq<(Seq<char>, Seq<char>, bool)>) -> bool {
    exists|i: int| 0 <= i < hs.len() && hs[i].2 && #[trigger] ascii_ieq(hs[i].0, "content-type"@)
}

/// Headers with a `Content-Type` header of the given value added at the end,
/// unless an enabled one is present already.
pub open spec fn with_content_type(hs: Seq<(Seq<char>, Seq<char>, bool)>, value: Seq<char>) -> Seq<
    (Seq<char>, Seq<char>, bool),
> {
    if has_enabled_content_type(hs) {
        hs
    } else {
        hs.push(("Content-Type"@, value, true))
    }
}

/// Adds a `Content-Type` header with the given value unless an enabled one
/// is present.
pub fn ensure_content_type(headers: &mut Vec<KeyValuePair>, value: &str)
    ensures
        pair_views(final(headers)@) == with_content_type(pair_views(old(headers)@), value@),
{
    let mut i: usize = 0;
    while i < headers.len()
        invariant
            i <= headers.len(),
            forall|j: int|
                0 <= j < i ==> !(pair_views(headers@)[j].2 && #[trigger] ascii_ieq(
                    pair_views(headers@)[j].0,
                    "content-type"@,
                )),
        decreases headers.len() - i,
    {
        if headers[i].enabled && crate::text::ascii_ieq_str(headers[i].key.as_str(), "content-type") {
            assert(ascii_ieq(pair_views(headers@)[i as int].0, "content-type"@));
            return;
        }
        i = i + 1;
    }
    let ghost before = headers@;
    headers.push(KeyValuePair { key: "Content-Type".to_string(), value: value.to_string(), enabled: true });
    assert(pair_views(headers@) =~= pair_views(before).push(("Content-Type"@, value@, true)));
}

/// The request variable that a runtime variable value describes: a mapping
/// with a text `name`, its text `value` (empty otherwise) and whether it is
/// not `disabled`.
pub open spec fn runtime_var(m: DataModel) -> Option<(Seq<char>, Seq<char>, bool)> {
    match m {
        DataModel::Mapping(es) => match model_str(map_get(es, "name"@)) {
            Some(name) => Some(
                (
                    name,
                    match model_str(map_get(es, "value"@)) {
                        Some(v) => v,
                        None => Seq::empty(),
                    },
                    !match model_bool(map_get(es, "disabled"@)) {
                        Some(d) => d,
                        None => false,
                    },
                ),
            ),
            None => None,
        },
        _ => None,
    }
}

/// The request variables of a list of runtime variable values, in order.
pub open spec fn runtime_vars(vs: Seq<DataModel>) -> Seq<(Seq<char>, Seq<char>, bool)>
    decreases vs.len(),
{
    if vs.len() == 0 {
        Seq::empty()
    } else {
        let prev = runtime_vars(vs.drop_last());
        match runtime_var(vs.last()) {
            Some(v) => prev.push(v),
            None => prev,
        }
    }
}

/// The views of pairs as (key, value, enabled).
pub open spec fn pair_views(ps: Seq<KeyValuePair>) -> Seq<(Seq<char>, Seq<char>, bool)> {
    ps.map_values(|p: KeyValuePair| (p.key@, p.value@, p.enabled))
}

/// The models of a list of values.
pub open spec fn value_models(vs: Seq<DataValue>) -> Seq<DataModel> {
    vs.map_values(|v: DataValue| v@)
}

/// The models of a list of values, taken one by one, are its models.
pub proof fn lemma_value_models(vs: Seq<DataValue>)
    ensures
        value_models(vs) == data_models(vs),
{
    lemma_data_models_index(vs);
    assert(value_models(vs) =~= data_models(vs));
}

/// The request variable a runtime variable value describes.
fn var_of(v: &DataValue) -> (r: Option<KeyValuePair>)
    ensures
        match r {
            Some(p) => runtime_var(v@) == Some((p.key@, p.value@, p.enabled)),
            None => runtime_var(v@) is None,
        },
{
    match v {
        DataValue::Mapping(es) => {
            let name = match entries_get(es, "name") {
                Some(n) => match n.as_str() {
                    Some(s) => s.clone(),
                    None => {
                        return None;
                    },
                },
                None => {
                    return None;
                },
            };
            let value = match entries_get(es, "value") {
                Some(x) => match x.as_str() {
                    Some(s) => s.clone(),
                    None => String::new(),
                },
                None => String::new(),
            };
            let disabled = match entries_get(es, "disabled") {
                Some(x) => match x.as_bool() {
                    Some(b) => b,
                    None => false,
                },
                None => false,
            };
            Some(KeyValuePair { key: name, value, enabled: !disabled })
        },
        _ => None,
    }
}

/// Extract request-level variables from an item's `runtime.variables`.
pub fn vars_from_runtime(runtime: Option<&OcRuntime>) -> (r: Vec<KeyValuePair>)
    ensures
        pair_views(r@) == match runtime {
            Some(rt) => match rt.variables {
                Some(vs) => runtime_vars(value_models(vs@)),
                None => Seq::empty(),
            },
            None => Seq::empty(),
        },
{
    let mut out: Vec<KeyValuePair> = Vec::new();
    match runtime {
        Some(rt) => match &rt.variables {
            Some(vs) => {
                let mut i: usize = 0;
                while i < vs.len()
                    invariant
                        i <= vs.len(),
                        pair_views(out@) == runtime_vars(value_models(vs@).take(i as int)),
                    decreases vs.len() - i,
                {
                    let ghost ms = value_models(vs@);
                    assert(ms.take(i + 1).drop_last() =~= ms.take(i as int));
                    assert(ms.take(i + 1).last() == vs@[i as int]@);
                    match var_of(&vs[i]) {
                        Some(p) => {
                            let ghost before = out@;
                            out.push(p);
                            assert(pair_views(out@) =~= pair_views(before).push((p.key@, p.value@, p.enabled)));
                        },
                        None => {},
                    }
                    i = i + 1;
                }
                assert(value_models(vs@).take(vs@.len() as int) =~= value_models(vs@));
            },
            None => {
                assert(pair_views(out@) =~= Seq::empty());
            },
        },
        None => {
            assert(pair_views(out@) =~= Seq::empty());
        },
    }
    out
}

/// The text of a variable value: a string, or the text `data` of a
/// `{type, data}` mapping; empty otherwise.
pub open spec fn variable_value(m: DataModel) -> Seq<char> {
    match m {
        DataModel::Str(s) => s,
        DataModel::Mapping(es) => match model_str(map_get(es, "data"@)) {
            Some(d) => d,
            None => Seq::empty(),
        },
        _ => Seq::empty(),
    }
}

/// `k` is the first entry of a mapping under the key `key`.
pub open spec fn first_key_at(es: Seq<(DataModel, DataModel)>, key: Seq<char>, k: int) -> bool {
    &&& 0 <= k < es.len()
    &&& es[k].0 == DataModel::Str(key)
    &&& forall|j: int| 0 <= j < k ==> (#[trigger] es[j]).0 != DataModel::Str(key)
}

/// The first entry under a key is what `map_get` finds.
pub proof fn lemma_map_get_first(es: Seq<(DataModel, DataModel)>, key: Seq<char>, k: int)
    requires
        first_key_at(es, key, k),
    ensures
        map_get(es, key) == Some(es[k].1),
    decreases k,
{
    if k > 0 {
        assert(es[0].0 != DataModel::Str(key));
        assert(first_key_at(es.drop_first(), key, k - 1)) by {
            assert forall|j: int| 0 <= j < k - 1 implies (#[trigger] es.drop_first()[j]).0 != DataModel::Str(key) by {
                assert(es.drop_first()[j] == es[j + 1]);
            }
        }
        lemma_map_get_first(es.drop_first(), key, k - 1);
    }
}

/// The text of a variable value: a string is its own text; a typed value (a
/// mapping) has the text of its first `data` entry when that entry is a
/// string.
pub proof fn lemma_variable_value_text(m: DataModel, k: int)
    ensures
        m matches DataModel::Str(s) ==> variable_value(m) == s,
        m is Mapping && first_key_at(m->Mapping_0, "data"@, k) && m->Mapping_0[k].1 is Str ==> variable_value(m)
            == m->Mapping_0[k].1->Str_0,
        m is Mapping && first_key_at(m->Mapping_0, "data"@, k) && !(m->Mapping_0[k].1 is Str) ==> variable_value(
            m,
        ).len() == 0,
        m is Mapping && (forall|j: int|
            0 <= j < m->Mapping_0.len() ==> (#[trigger] m->Mapping_0[j]).0 != DataModel::Str("data"@))
            ==> variable_value(m).len() == 0,
        !(m is Str) && !(m is Mapping) ==> variable_value(m).len() == 0,
{
    if let DataModel::Mapping(es) = m {
        if first_key_at(es, "data"@, k) {
            lemma_map_get_first(es, "data"@, k);
        }
        if forall|j: int| 0 <= j < es.len() ==> (#[trigger] es[j]).0 != DataModel::Str("data"@) {
            lemma_map_get_absent(es, "data"@);
        }
    }
}

/// Without an entry under a key, `map_get` finds nothing.
pub proof fn lemma_map_get_absent(es: Seq<(DataModel, DataModel)>, key: Seq<char>)
    requires
        forall|j: int| 0 <= j < es.len() ==> (#[trigger] es[j]).0 != DataModel::Str(key),
    ensures
        map_get(es, key) is None,
    decreases es.len(),
{
    if es.len() > 0 {
        assert forall|j: int| 0 <= j < es.drop_first().len() implies (#[trigger] es.drop_first()[j]).0
            != DataModel::Str(key) by {
            assert(es.drop_first()[j] == es[j + 1]);
        }
        lemma_map_get_absent(es.drop_first(), key);
    }
}

/// Extract a string from a `VariableValue` (string, or `{type, data}` object).
pub fn oc_variable_value(v: &DataValue) -> (r: String)
    ensures
        r@ == variable_value(v@),
        v@ matches DataModel::Str(s) ==> r@ == s,
        forall|k: int|
            #![trigger first_key_at(v@->Mapping_0, "data"@, k)]
            v@ is Mapping && first_key_at(v@->Mapping_0, "data"@, k) && v@->Mapping_0[k].1 is Str ==> r@
                == v@->Mapping_0[k].1->Str_0,
{
    proof {
        assert forall|k: int|
            #![trigger first_key_at(v@->Mapping_0, "data"@, k)]
            v@ is Mapping && first_key_at(v@->Mapping_0, "data"@, k) && v@->Mapping_0[k].1 is Str implies variable_value(
                v@,
            ) == v@->Mapping_0[k].1->Str_0 by {
            lemma_variable_value_text(v@, k);
        }
        lemma_variable_value_text(v@, 0);
    }
    match v {
        DataValue::Str(s) => s.clone(),
        DataValue::Mapping(es) => match entries_get(es, "data") {
            Some(d) => match d.as_str() {
                Some(s) => s.clone(),
                None => String::new(),
            },
            None => String::new(),
        },
        _ => String::new(),
    }
}

// ---------------------------------------------------------------------------
// Authentication
// ---------------------------------------------------------------------------

/// The text under a key of a mapping; empty when absent or not text.
pub open spec fn field_text(es: Seq<(DataModel, DataModel)>, key: Seq<char>) -> Seq<char> {
    match model_str(map_get(es, key)) {
        Some(s) => s,
        None => Seq::empty(),
    }
}

/// `a` keeps an authentication value that is not modeled, under a kind.
pub open spec fn unsupported_auth(a: AuthType, kind: Seq<char>, v: DataModel) -> bool {
    a matches AuthType::Unsupported { kind: k, raw } && k@ == kind && raw@ == v
}

/// The authentication that a document's `auth` value describes: `"inherit"`;
/// a `basic`, `digest`, `bearer` or header `apikey` object; any other value is
/// kept as it is under its kind (`"unknown"` where it names none).
pub open spec fn auth_from_doc(v: DataModel, a: AuthType) -> bool {
    match v {
        DataModel::Str(s) => if s == "inherit"@ {
            a is Inherit
        } else {
            unsupported_auth(a, s, v)
        },
        DataModel::Mapping(es) => {
            let kind = field_text(es, "type"@);
            if kind == "basic"@ {
                a matches AuthType::Basic(b) && b.username@ == field_text(es, "username"@) && b.password@
                    == field_text(es, "password"@)
            } else if kind == "digest"@ {
                a matches AuthType::Digest(d) && d.username@ == field_text(es, "username"@) && d.password@
                    == field_text(es, "password"@)
            } else if kind == "bearer"@ {
                a matches AuthType::Key(k) && k.header@ == "Authorization"@ && k.value@ == "Bearer "@
                    + field_text(es, "token"@)
            } else if kind == "apikey"@ {
                let placement = match model_str(map_get(es, "placement"@)) {
                    Some(p) => p,
                    None => "header"@,
                };
                if placement == "header"@ {
                    a matches AuthType::Key(k) && k.header@ == (if field_text(es, "key"@).len() == 0 {
                        "X-API-Key"@
                    } else {
                        field_text(es, "key"@)
                    }) && k.value@ == field_text(es, "value"@)
                } else {
                    unsupported_auth(a, "apikey"@, v)
                }
            } else {
                unsupported_auth(a, if kind.len() == 0 { "unknown"@ } else { kind }, v)
            }
        },
        _ => unsupported_auth(a, "unknown"@, v),
    }
}

/// The text under a key of a mapping's entries; empty when absent or not text.
fn field(es: &Vec<(DataValue, DataValue)>, key: &str) -> (r: String)
    ensures
        r@ == field_text(entry_models(es@), key@),
{
    match entries_get(es, key) {
        Some(v) => match v.as_str() {
            Some(s) => s.clone(),
            None => String::new(),
        },
        None => String::new(),
    }
}

fn unsupported(kind: &str, v: &DataValue) -> (a: AuthType)
    ensures
        unsupported_auth(a, kind@, v@),
{
    AuthType::Unsupported { kind: kind.to_string(), raw: v.duplicate() }
}

/// Reads a document's `auth` value.
pub fn oc_auth_to_authtype(v: &DataValue) -> (a: AuthType)
    ensures
        auth_from_doc(v@, a),
{
    proof {
        reveal_strlit("inherit");
    }
    match v {
        DataValue::Str(s) => {
            let c = chars_of(s.as_str());
            if crate::text::chars_eq_str(c.as_slice(), "inherit") {
                AuthType::Inherit
            } else {
                unsupported(s.as_str(), v)
            }
        },
        DataValue::Mapping(es) => {
            let kind = field(es, "type");
            let kc = chars_of(kind.as_str());
            if crate::text::chars_eq_str(kc.as_slice(), "basic") {
                AuthType::Basic(BasicAuth { username: field(es, "username"), password: field(es, "password") })
            } else if crate::text::chars_eq_str(kc.as_slice(), "digest") {
                AuthType::Digest(DigestAuth { username: field(es, "username"), password: field(es, "password") })
            } else if crate::text::chars_eq_str(kc.as_slice(), "bearer") {
                let mut value = "Bearer ".to_string();
                let token = field(es, "token");
                crate::text::push_str(&mut value, token.as_str());
                AuthType::Key(KeyAuth { header: "Authorization".to_string(), value })
            } else if crate::text::chars_eq_str(kc.as_slice(), "apikey") {
                let placement = match entries_get(es, "placement") {
                    Some(p) => match p.as_str() {
                        Some(t) => t.clone(),
                        None => "header".to_string(),
                    },
                    None => "header".to_string(),
                };
                let pc = chars_of(placement.as_str());
                if crate::text::chars_eq_str(pc.as_slice(), "header") {
                    let header = field(es, "key");
                    let header = if header.as_str().is_empty() {
                        "X-API-Key".to_string()
                    } else {
                        header
                    };
                    AuthType::Key(KeyAuth { header, value: field(es, "value") })
                } else {
                    unsupported("apikey", v)
                }
            } else if kind.as_str().is_empty() {
                unsupported("unknown", v)
            } else {
                unsupported(kind.as_str(), v)
            }
        },
        _ => unsupported("unknown", v),
    }
}

/// The text views of key-value pairs.
pub open spec fn text_pairs(fields: Seq<(&str, &str)>) -> Seq<(Seq<char>, Seq<char>)> {
    fields.map_values(|f: (&str, &str)| (f.0@, f.1@))
}

/// The entries of a mapping after storing text values under keys, in order.
pub open spec fn insert_texts(es: Seq<(DataModel, DataModel)>, fields: Seq<(Seq<char>, Seq<char>)>) -> Seq<
    (DataModel, DataModel),
>
    decreases fields.len(),
{
    if fields.len() == 0 {
        es
    } else {
        map_insert(insert_texts(es, fields.drop_last()), fields.last().0, DataModel::Str(fields.last().1))
    }
}

/// An authentication object: its `type`, then the given text fields.
pub open spec fn auth_object_model(kind: Seq<char>, fields: Seq<(Seq<char>, Seq<char>)>) -> DataModel {
    DataModel::Mapping(insert_texts(seq![(DataModel::Str("type"@), DataModel::Str(kind))], fields))
}

/// Builds an authentication object.
pub fn auth_object(kind: &str, fields: &[(&str, &str)]) -> (r: DataValue)
    ensures
        r@ == auth_object_model(kind@, text_pairs(fields@)),
{
    let mut es: Vec<(DataValue, DataValue)> = Vec::new();
    es.push((DataValue::text("type"), DataValue::text(kind)));
    proof {
        lemma_entry_models_index(es@);
        assert(entry_models(es@) =~= seq![(DataModel::Str("type"@), DataModel::Str(kind@))]);
    }
    let mut i: usize = 0;
    while i < fields.len()
        invariant
            i <= fields.len(),
            entry_models(es@) == insert_texts(
                seq![(DataModel::Str("type"@), DataModel::Str(kind@))],
                text_pairs(fields@).take(i as int),
            ),
        decreases fields.len() - i,
    {
        assert(text_pairs(fields@).take(i + 1).drop_last() =~= text_pairs(fields@).take(i as int));
        assert(text_pairs(fields@).take(i + 1).last() == (fields@[i as int].0@, fields@[i as int].1@));
        let (k, v) = fields[i];
        mapping_insert(&mut es, k, DataValue::text(v));
        i = i + 1;
    }
    assert(text_pairs(fields@).take(fields@.len() as int) =~= text_pairs(fields@));
    DataValue::Mapping(es)
}

// ---------------------------------------------------------------------------
// Bodies
// ---------------------------------------------------------------------------

/// The `name=value` texts of the enabled fields of a form body's `data` list,
/// both sides percent-encoded.
pub open spec fn form_field_texts(items: Seq<DataModel>) -> Seq<Seq<char>>
    decreases items.len(),
{
    if items.len() == 0 {
        Seq::empty()
    } else {
        let prev = form_field_texts(items.drop_last());
        match items.last() {
            DataModel::Mapping(es) => if model_bool(map_get(es, "disabled"@)) == Some(true) {
                prev
            } else {
                prev.push(url_encode(field_text(es, "name"@)) + "="@ + url_encode(field_text(es, "value"@)))
            },
            _ => prev,
        }
    }
}

/// The JSON text of a GraphQL body: its `query` text and its `variables`
/// (a JSON text, written back compactly; an empty object where absent or not
/// JSON).
pub open spec fn graphql_doc_text(es: Seq<(DataModel, DataModel)>) -> Seq<char> {
    let variables = match model_str(map_get(es, "variables"@)) {
        Some(t) => match json_compact(t) {
            Some(j) => j,
            None => "{}"@,
        },
        None => "{}"@,
    };
    "{\"query\":"@ + json_quoted(field_text(es, "query"@)) + ",\"variables\":"@ + variables + "}"@
}

/// A body mapping is a GraphQL body: it has a `query` or a `variables` entry.
pub open spec fn is_graphql_doc(es: Seq<(DataModel, DataModel)>) -> bool {
    map_get(es, "query"@) is Some || map_get(es, "variables"@) is Some
}

/// The content type that reading a body announces, if any.
pub open spec fn doc_body_content_type(m: DataModel) -> Option<Seq<char>> {
    match m {
        DataModel::Mapping(es) => if is_graphql_doc(es) {
            None
        } else {
            let t = field_text(es, "type"@);
            if t == "json"@ {
                Some("application/json"@)
            } else if t == "xml"@ || t == "sparql"@ {
                Some("application/xml"@)
            } else if t == "text"@ {
                Some("text/plain"@)
            } else if t == "form-urlencoded"@ {
                Some("application/x-www-form-urlencoded"@)
            } else {
                None
            }
        },
        _ => None,
    }
}

/// The flat body text of a document body: the `data` text of a JSON, XML,
/// SPARQL or text body, the URL-encoded fields of a form body, the JSON text
/// of a GraphQL body; empty for any other body (multipart, file, a list).
pub open spec fn doc_body_text(m: DataModel) -> Seq<char> {
    match m {
        DataModel::Mapping(es) => if is_graphql_doc(es) {
            graphql_doc_text(es)
        } else {
            let t = field_text(es, "type"@);
            if t == "json"@ || t == "xml"@ || t == "sparql"@ || t == "text"@ {
                field_text(es, "data"@)
            } else if t == "form-urlencoded"@ {
                match map_get(es, "data"@) {
                    Some(DataModel::List(items)) => join(form_field_texts(items), "&"@),
                    _ => Seq::empty(),
                }
            } else {
                Seq::empty()
            }
        },
        _ => Seq::empty(),
    }
}

fn form_fields_text(items: &Vec<DataValue>) -> (r: String)
    ensures
        r@ == join(form_field_texts(data_models(items@)), "&"@),
{
    proof {
        lemma_data_models_index(items@);
    }
    let mut parts: Vec<Vec<char>> = Vec::new();
    let mut i: usize = 0;
    while i < items.len()
        invariant
            i <= items.len(),
            data_models(items@).len() == items@.len(),
            forall|j: int| 0 <= j < items@.len() ==> #[trigger] data_models(items@)[j] == items@[j]@,
            views_of(parts@) == form_field_texts(data_models(items@).take(i as int)),
        decreases items.len() - i,
    {
        let ghost ms = data_models(items@);
        assert(ms.take(i + 1).drop_last() =~= ms.take(i as int));
        assert(ms.take(i + 1).last() == items@[i as int]@);
        match &items[i] {
            DataValue::Mapping(es) => {
                let disabled = match entries_get(es, "disabled") {
                    Some(d) => match d.as_bool() {
                        Some(b) => b,
                        None => false,
                    },
                    None => false,
                };
                if !disabled {
                    let k = field(es, "name");
                    let v = field(es, "value");
                    let ek = url_encode_str(k.as_str());
                    let ev = url_encode_str(v.as_str());
                    let mut piece = chars_of(ek.as_str());
                    crate::text::append_str(&mut piece, "=");
                    crate::text::append_str(&mut piece, ev.as_str());
                    let ghost before = parts@;
                    parts.push(piece);
                    assert(views_of(parts@) =~= views_of(before).push(piece@));
                }
            },
            _ => {},
        }
        i = i + 1;
    }
    assert(data_models(items@).take(items@.len() as int) =~= data_models(items@));
    let sep = chars_of("&");
    let joined = crate::text::join_chars(&parts, sep.as_slice());
    crate::text::string_of(joined.as_slice())
}

fn graphql_body_text(es: &Vec<(DataValue, DataValue)>) -> (r: String)
    ensures
        r@ == graphql_doc_text(entry_models(es@)),
{
    let query = field(es, "query");
    let variables = match entries_get(es, "variables") {
        Some(v) => match v.as_str() {
            Some(t) => match json_compact_text(t.as_str()) {
                Some(j) => j,
                None => "{}".to_string(),
            },
            None => "{}".to_string(),
        },
        None => "{}".to_string(),
    };
    let mut out = "{\"query\":".to_string();
    let q = json_quote(query.as_str());
    crate::text::push_str(&mut out, q.as_str());
    crate::text::push_str(&mut out, ",\"variables\":");
    crate::text::push_str(&mut out, variables.as_str());
    crate::text::push_str(&mut out, "}");
    out
}

/// Converts a document body to the flat body text, adding the `Content-Type`
/// header that the body's type announces unless an enabled one is present.
pub fn oc_body_to_string(body: &DataValue, headers: &mut Vec<KeyValuePair>) -> (r: String)
    ensures
        r@ == doc_body_text(body@),
        match doc_body_content_type(body@) {
            Some(ct) => pair_views(final(headers)@) == with_content_type(pair_views(old(headers)@), ct),
            None => final(headers)@ == old(headers)@,
        },
{
    match body {
        DataValue::Mapping(es) => {
            let has_query = entries_get(es, "query").is_some();
            let has_variables = entries_get(es, "variables").is_some();
            if has_query || has_variables {
                return graphql_body_text(es);
            }
            let t = field(es, "type");
            let tc = chars_of(t.as_str());
            if crate::text::chars_eq_str(tc.as_slice(), "json") {
                ensure_content_type(headers, "application/json");
                field(es, "data")
            } else if crate::text::chars_eq_str(tc.as_slice(), "xml") || crate::text::chars_eq_str(
                tc.as_slice(),
                "sparql",
            ) {
                ensure_content_type(headers, "application/xml");
                field(es, "data")
            } else if crate::text::chars_eq_str(tc.as_slice(), "text") {
                ensure_content_type(headers, "text/plain");
                field(es, "data")
            } else if crate::text::chars_eq_str(tc.as_slice(), "form-urlencoded") {
                ensure_content_type(headers, "application/x-www-form-urlencoded");
                match entries_get(es, "data") {
                    Some(DataValue::List(items)) => form_fields_text(items),
                    _ => String::new(),
                }
            } else {
                String::new()
            }
        },
        _ => String::new(),
    }
}

// ---------------------------------------------------------------------------
// Writing authentication
// ---------------------------------------------------------------------------

/// The document `auth` value that an authentication is written as; `None`
/// for no authentication and for OAuth2 and JWT, which the format has no
/// place for.
pub open spec fn auth_doc(a: AuthType) -> Option<DataModel> {
    match a {
        AuthType::NoAuth => None,
        AuthType::Inherit => Some(DataModel::Str("inherit"@)),
        AuthType::Basic(b) => Some(
            auth_object_model("basic"@, seq![("username"@, b.username@), ("password"@, b.password@)]),
        ),
        AuthType::Digest(d) => Some(
            auth_object_model("digest"@, seq![("username"@, d.username@), ("password"@, d.password@)]),
        ),
        AuthType::Key(k) => Some(
            auth_object_model(
                "apikey"@,
                seq![("key"@, k.header@), ("value"@, k.value@), ("placement"@, "header"@)],
            ),
        ),
        AuthType::Unsupported { raw, .. } => Some(raw@),
        _ => None,
    }
}

/// Writes an authentication into a request block: into `auth` as
/// `auth_doc` gives it, OAuth2 and JWT into `broquest_auth`; no
/// authentication writes nothing.
pub fn apply_auth_to_http(http: &mut OcHttp, auth: &AuthType)
    ensures
        final(http).method == old(http).method,
        final(http).url == old(http).url,
        final(http).headers == old(http).headers,
        final(http).params == old(http).params,
        final(http).body == old(http).body,
        final(http).extra == old(http).extra,
        match auth_doc(*auth) {
            Some(d) => opt_model(final(http).auth) == Some(d),
            None => final(http).auth == old(http).auth,
        },
        if auth is OAuth2 || auth is Jwt {
            final(http).broquest_auth matches Some(x) && auth_same(x, *auth)
        } else {
            final(http).broquest_auth == old(http).broquest_auth
        },
{
    proof {
        reveal_strlit("username");
        reveal_strlit("password");
        reveal_strlit("key");
        reveal_strlit("value");
        reveal_strlit("placement");
        reveal_strlit("header");
    }
    match auth {
        AuthType::NoAuth => {},
        AuthType::Inherit => {
            http.auth = Some(DataValue::text("inherit"));
        },
        AuthType::Basic(b) => {
            let fields = [("username", b.username.as_str()), ("password", b.password.as_str())];
            let v = auth_object("basic", &fields);
            assert(text_pairs(fields@) =~= seq![("username"@, b.username@), ("password"@, b.password@)]);
            http.auth = Some(v);
        },
        AuthType::Digest(d) => {
            let fields = [("username", d.username.as_str()), ("password", d.password.as_str())];
            let v = auth_object("digest", &fields);
            assert(text_pairs(fields@) =~= seq![("username"@, d.username@), ("password"@, d.password@)]);
            http.auth = Some(v);
        },
        AuthType::Key(k) => {
            let fields = [("key", k.header.as_str()), ("value", k.value.as_str()), ("placement", "header")];
            let v = auth_object("apikey", &fields);
            assert(text_pairs(fields@) =~= seq![
                ("key"@, k.header@),
                ("value"@, k.value@),
                ("placement"@, "header"@),
            ]);
            http.auth = Some(v);
        },
        AuthType::Unsupported { raw, .. } => {
            http.auth = Some(raw.duplicate());
        },
        AuthType::OAuth2(_) | AuthType::Jwt(_) => {
            http.broquest_auth = Some(auth.duplicate());
        },
    }
}

// ---------------------------------------------------------------------------
// Reading a request item
// ---------------------------------------------------------------------------

/// The headers of a request block as (name, value, enabled).
pub open spec fn doc_headers(hs: Seq<OcHeader>) -> Seq<(Seq<char>, Seq<char>, bool)> {
    hs.map_values(|h: OcHeader| (h.name@, h.value@, !h.disabled))
}

/// The path parameters (`path`) or the query parameters (every other type)
/// of a request block, in order, as (name, value, enabled).
pub open spec fn doc_params(ps: Seq<OcParam>, path: bool) -> Seq<(Seq<char>, Seq<char>, bool)>
    decreases ps.len(),
{
    if ps.len() == 0 {
        Seq::empty()
    } else {
        let prev = doc_params(ps.drop_last(), path);
        let p = ps.last();
        if (p.param_type@ == "path"@) == path {
            prev.push((p.name@, p.value@, !p.disabled))
        } else {
            prev
        }
    }
}

/// The headers read from a request block: its headers, with the
/// `Content-Type` that its body announces added where none is enabled.
pub open spec fn loaded_headers(http: OcHttp) -> Seq<(Seq<char>, Seq<char>, bool)> {
    match http.body {
        Some(b) => match doc_body_content_type(b@) {
            Some(ct) => with_content_type(doc_headers(http.headers@), ct),
            None => doc_headers(http.headers@),
        },
        None => doc_headers(http.headers@),
    }
}

/// The authentication read from a request block: the kept OAuth2 or JWT
/// authentication first, then the `auth` value, else none.
pub open spec fn loaded_auth(http: OcHttp, a: AuthType) -> bool {
    match http.broquest_auth {
        Some(k) => auth_same(a, k),
        None => match http.auth {
            Some(v) => auth_from_doc(v@, a),
            None => a is NoAuth,
        },
    }
}

/// The scripts of an item: the last before-request and after-response script.
pub open spec fn item_scripts(item: OcItem) -> (Option<Seq<char>>, Option<Seq<char>>) {
    match item.runtime {
        Some(rt) => (last_script(rt.scripts@, "before-request"@), last_script(rt.scripts@, "after-response"@)),
        None => (None, None),
    }
}

/// The request variables of an item.
pub open spec fn item_vars(item: OcItem) -> Seq<(Seq<char>, Seq<char>, bool)> {
    match item.runtime {
        Some(rt) => match rt.variables {
            Some(vs) => runtime_vars(value_models(vs@)),
            None => Seq::empty(),
        },
        None => Seq::empty(),
    }
}

/// The name of an item: its `info` name, else empty.
pub open spec fn item_name(item: OcItem) -> Seq<char> {
    match item.info {
        Some(i) => i.name@,
        None => Seq::empty(),
    }
}

/// `r` is the request that an item with a request block describes.
pub open spec fn item_loads_as(item: OcItem, r: RequestData) -> bool {
    item.http matches Some(http) && {
        &&& r.name@ == item_name(item)
        &&& r.method == method_from_upper(uppercase(http.method@))
        &&& r.url@ == http.url@
        &&& pair_views(r.path_params@) == doc_params(http.params@, true)
        &&& pair_views(r.query_params@) == doc_params(http.params@, false)
        &&& pair_views(r.headers@) == loaded_headers(http)
        &&& r.body@ == match http.body {
            Some(b) => doc_body_text(b@),
            None => Seq::empty(),
        }
        &&& crate::collection_types::opt_chars(r.pre_request_script) == item_scripts(item).0
        &&& crate::collection_types::opt_chars(r.post_response_script) == item_scripts(item).1
        &&& loaded_auth(http, r.auth)
        &&& pair_views(r.vars@) == item_vars(item)
    }
}

fn headers_of(hs: &Vec<OcHeader>) -> (r: Vec<KeyValuePair>)
    ensures
        pair_views(r@) == doc_headers(hs@),
{
    let mut out: Vec<KeyValuePair> = Vec::new();
    let mut i: usize = 0;
    while i < hs.len()
        invariant
            i <= hs.len(),
            pair_views(out@) == doc_headers(hs@.take(i as int)),
        decreases hs.len() - i,
    {
        let h = &hs[i];
        let ghost before = out@;
        out.push(KeyValuePair { key: h.name.clone(), value: h.value.clone(), enabled: !h.disabled });
        assert(pair_views(out@) =~= pair_views(before).push((h.name@, h.value@, !h.disabled)));
        assert(doc_headers(hs@.take(i + 1)) =~= doc_headers(hs@.take(i as int)).push((h.name@, h.value@, !h.disabled)));
        i = i + 1;
    }
    assert(hs@.take(hs@.len() as int) =~= hs@);
    out
}

fn params_of(ps: &Vec<OcParam>) -> (r: (Vec<KeyValuePair>, Vec<KeyValuePair>))
    ensures
        pair_views(r.0@) == doc_params(ps@, false),
        pair_views(r.1@) == doc_params(ps@, true),
{
    let mut query: Vec<KeyValuePair> = Vec::new();
    let mut path: Vec<KeyValuePair> = Vec::new();
    let mut i: usize = 0;
    while i < ps.len()
        invariant
            i <= ps.len(),
            pair_views(query@) == doc_params(ps@.take(i as int), false),
            pair_views(path@) == doc_params(ps@.take(i as int), true),
        decreases ps.len() - i,
    {
        assert(ps@.take(i + 1).drop_last() =~= ps@.take(i as int));
        assert(ps@.take(i + 1).last() == ps@[i as int]);
        let p = &ps[i];
        let pair = KeyValuePair { key: p.name.clone(), value: p.value.clone(), enabled: !p.disabled };
        let t = chars_of(p.param_type.as_str());
        if crate::text::chars_eq_str(t.as_slice(), "path") {
            let ghost before = path@;
            path.push(pair);
            assert(pair_views(path@) =~= pair_views(before).push((p.name@, p.value@, !p.disabled)));
        } else {
            let ghost before = query@;
            query.push(pair);
            assert(pair_views(query@) =~= pair_views(before).push((p.name@, p.value@, !p.disabled)));
        }
        i = i + 1;
    }
    assert(ps@.take(ps@.len() as int) =~= ps@);
    (query, path)
}

/// The request that an item describes; `None` when it has no request block.
pub fn oc_item_to_request(item: &OcItem) -> (r: Option<RequestData>)
    ensures
        match r {
            Some(req) => item_loads_as(*item, req),
            None => item.http is None,
        },
{
    let http = match &item.http {
        Some(h) => h,
        None => {
            return None;
        },
    };
    let name = match &item.info {
        Some(i) => i.name.clone(),
        None => String::new(),
    };
    let mut headers = headers_of(&http.headers);
    let (query_params, path_params) = params_of(&http.params);
    let body = match &http.body {
        Some(b) => oc_body_to_string(b, &mut headers),
        None => String::new(),
    };
    let (pre_request_script, post_response_script) = match &item.runtime {
        Some(rt) => scripts_from_runtime(rt),
        None => (None, None),
    };
    let auth = match &http.broquest_auth {
        Some(a) => a.duplicate(),
        None => match &http.auth {
            Some(v) => oc_auth_to_authtype(v),
            None => AuthType::NoAuth,
        },
    };
    let vars = match &item.runtime {
        Some(rt) => vars_from_runtime(Some(rt)),
        None => vars_from_runtime(None),
    };
    Some(
        RequestData {
            name,
            method: parse_method(http.method.as_str()),
            url: http.url.clone(),
            path_params,
            query_params,
            headers,
            body,
            pre_request_script,
            post_response_script,
            auth,
            vars,
        },
    )
}

// ---------------------------------------------------------------------------
// Comparing and copying document parts
// ---------------------------------------------------------------------------

/// Two optional values have the same model.
pub open spec fn opt_value_same(a: Option<DataValue>, b: Option<DataValue>) -> bool {
    opt_model(a) == opt_model(b)
}

/// Two mappings' entries have the same model.
pub open spec fn entries_same(a: Vec<(DataValue, DataValue)>, b: Vec<(DataValue, DataValue)>) -> bool {
    entry_models(a@) == entry_models(b@)
}

/// Two headers agree in every field.
pub open spec fn header_same(a: OcHeader, b: OcHeader) -> bool {
    &&& a.name@ == b.name@
    &&& a.value@ == b.value@
    &&& opt_value_same(a.description, b.description)
    &&& a.disabled == b.disabled
    &&& entries_same(a.extra, b.extra)
}

/// Two parameters agree in every field.
pub open spec fn param_same(a: OcParam, b: OcParam) -> bool {
    &&& a.name@ == b.name@
    &&& a.value@ == b.value@
    &&& a.param_type@ == b.param_type@
    &&& opt_value_same(a.description, b.description)
    &&& a.disabled == b.disabled
    &&& entries_same(a.extra, b.extra)
}

/// Two scripts agree in every field.
pub open spec fn script_same(a: OcScript, b: OcScript) -> bool {
    &&& a.script_type@ == b.script_type@
    &&& a.code@ == b.code@
    &&& entries_same(a.extra, b.extra)
}

/// Two lists of scripts agree script by script.
pub open spec fn scripts_same(a: Seq<OcScript>, b: Seq<OcScript>) -> bool {
    a.len() == b.len() && forall|i: int| 0 <= i < a.len() ==> #[trigger] script_same(a[i], b[i])
}

/// Two optional lists of values agree.
pub open spec fn opt_values_same(a: Option<Vec<DataValue>>, b: Option<Vec<DataValue>>) -> bool {
    match (a, b) {
        (Some(x), Some(y)) => value_models(x@) == value_models(y@),
        (None, None) => true,
        _ => false,
    }
}

/// Two runtime blocks agree in every field.
pub open spec fn runtime_same(a: OcRuntime, b: OcRuntime) -> bool {
    &&& scripts_same(a.scripts@, b.scripts@)
    &&& opt_values_same(a.variables, b.variables)
    &&& entries_same(a.extra, b.extra)
}

/// Two optional runtime blocks agree.
pub open spec fn opt_runtime_same(a: Option<OcRuntime>, b: Option<OcRuntime>) -> bool {
    match (a, b) {
        (Some(x), Some(y)) => runtime_same(x, y),
        (None, None) => true,
        _ => false,
    }
}

/// Two lists of headers agree header by header.
pub open spec fn headers_same(a: Seq<OcHeader>, b: Seq<OcHeader>) -> bool {
    a.len() == b.len() && forall|i: int| 0 <= i < a.len() ==> #[trigger] header_same(a[i], b[i])
}

/// Two lists of parameters agree parameter by parameter.
pub open spec fn params_same(a: Seq<OcParam>, b: Seq<OcParam>) -> bool {
    a.len() == b.len() && forall|i: int| 0 <= i < a.len() ==> #[trigger] param_same(a[i], b[i])
}

/// Two optional kept authentications agree.
pub open spec fn opt_auth_same(a: Option<AuthType>, b: Option<AuthType>) -> bool {
    match (a, b) {
        (Some(x), Some(y)) => auth_same(x, y),
        (None, None) => true,
        _ => false,
    }
}

/// Two request blocks agree in every field.
pub open spec fn http_same(a: OcHttp, b: OcHttp) -> bool {
    &&& a.method@ == b.method@
    &&& a.url@ == b.url@
    &&& headers_same(a.headers@, b.headers@)
    &&& params_same(a.params@, b.params@)
    &&& opt_value_same(a.body, b.body)
    &&& opt_value_same(a.auth, b.auth)
    &&& opt_auth_same(a.broquest_auth, b.broquest_auth)
    &&& entries_same(a.extra, b.extra)
}

/// Two optional request blocks agree.
pub open spec fn opt_http_same(a: Option<OcHttp>, b: Option<OcHttp>) -> bool {
    match (a, b) {
        (Some(x), Some(y)) => http_same(x, y),
        (None, None) => true,
        _ => false,
    }
}

/// Two `info` blocks agree in every field.
pub open spec fn info_same(a: OcItemInfo, b: OcItemInfo) -> bool {
    &&& a.name@ == b.name@
    &&& a.item_type@ == b.item_type@
    &&& opt_value_same(a.description, b.description)
    &&& opt_value_same(a.seq, b.seq)
    &&& opt_value_same(a.tags, b.tags)
    &&& entries_same(a.extra, b.extra)
}

/// Two optional `info` blocks agree.
pub open spec fn opt_info_same(a: Option<OcItemInfo>, b: Option<OcItemInfo>) -> bool {
    match (a, b) {
        (Some(x), Some(y)) => info_same(x, y),
        (None, None) => true,
        _ => false,
    }
}

/// Two items agree in every field but their children.
pub open spec fn item_fields_same(a: OcItem, b: OcItem) -> bool {
    &&& opt_info_same(a.info, b.info)
    &&& crate::domain::opt_text_same(a.script_file_type, b.script_file_type)
    &&& opt_http_same(a.http, b.http)
    &&& opt_value_same(a.graphql, b.graphql)
    &&& opt_runtime_same(a.runtime, b.runtime)
    &&& opt_value_same(a.settings, b.settings)
    &&& opt_value_same(a.examples, b.examples)
    &&& opt_value_same(a.docs, b.docs)
    &&& crate::domain::opt_text_same(a.script, b.script)
    &&& entries_same(a.extra, b.extra)
}

/// Two items agree in every field, their children included.
pub open spec fn item_same(a: OcItem, b: OcItem) -> bool
    decreases a,
{
    &&& item_fields_same(a, b)
    &&& match (a.items, b.items) {
        (Some(x), Some(y)) => items_same(x@, y@),
        (None, None) => true,
        _ => false,
    }
}

/// Two lists of items agree item by item.
pub open spec fn items_same(a: Seq<OcItem>, b: Seq<OcItem>) -> bool
    decreases a,
{
    if a.len() == 0 {
        b.len() == 0
    } else {
        b.len() == a.len() && item_same(a[0], b[0]) && items_same(
            a.subrange(1, a.len() as int),
            b.subrange(1, b.len() as int),
        )
    }
}

/// Two environments agree in every field.
pub open spec fn env_same(a: OcEnvironment, b: OcEnvironment) -> bool {
    &&& a.name@ == b.name@
    &&& crate::domain::opt_text_same(a.color, b.color)
    &&& value_models(a.variables@) == value_models(b.variables@)
    &&& entries_same(a.extra, b.extra)
}

impl OcHeader {
    /// A copy of the header.
    pub fn duplicate(&self) -> (r: OcHeader)
        ensures
            header_same(r, *self),
    {
        OcHeader {
            name: self.name.clone(),
            value: self.value.clone(),
            description: opt_duplicate(&self.description),
            disabled: self.disabled,
            extra: entries_duplicate(&self.extra),
        }
    }
}

impl OcParam {
    /// A copy of the parameter.
    pub fn duplicate(&self) -> (r: OcParam)
        ensures
            param_same(r, *self),
    {
        OcParam {
            name: self.name.clone(),
            value: self.value.clone(),
            param_type: self.param_type.clone(),
            description: opt_duplicate(&self.description),
            disabled: self.disabled,
            extra: entries_duplicate(&self.extra),
        }
    }
}

impl OcScript {
    /// A copy of the script.
    pub fn duplicate(&self) -> (r: OcScript)
        ensures
            script_same(r, *self),
    {
        OcScript {
            script_type: self.script_type.clone(),
            code: self.code.clone(),
            extra: entries_duplicate(&self.extra),
        }
    }
}

fn scripts_duplicate(v: &Vec<OcScript>) -> (r: Vec<OcScript>)
    ensures
        scripts_same(r@, v@),
{
    let mut out: Vec<OcScript> = Vec::new();
    let mut i: usize = 0;
    while i < v.len()
        invariant
            i <= v.len(),
            out@.len() == i,
            forall|j: int| 0 <= j < i ==> #[trigger] script_same(out@[j], v@[j]),
        decreases v.len() - i,
    {
        out.push(v[i].duplicate());
        i = i + 1;
    }
    out
}

fn headers_duplicate(v: &Vec<OcHeader>) -> (r: Vec<OcHeader>)
    ensures
        headers_same(r@, v@),
{
    let mut out: Vec<OcHeader> = Vec::new();
    let mut i: usize = 0;
    while i < v.len()
        invariant
            i <= v.len(),
            out@.len() == i,
            forall|j: int| 0 <= j < i ==> #[trigger] header_same(out@[j], v@[j]),
        decreases v.len() - i,
    {
        out.push(v[i].duplicate());
        i = i + 1;
    }
    out
}

fn params_duplicate(v: &Vec<OcParam>) -> (r: Vec<OcParam>)
    ensures
        params_same(r@, v@),
{
    let mut out: Vec<OcParam> = Vec::new();
    let mut i: usize = 0;
    while i < v.len()
        invariant
            i <= v.len(),
            out@.len() == i,
            forall|j: int| 0 <= j < i ==> #[trigger] param_same(out@[j], v@[j]),
        decreases v.len() - i,
    {
        out.push(v[i].duplicate());
        i = i + 1;
    }
    out
}

fn opt_values_duplicate(o: &Option<Vec<DataValue>>) -> (r: Option<Vec<DataValue>>)
    ensures
        opt_values_same(r, *o),
{
    match o {
        Some(vs) => {
            let c = values_duplicate(vs);
            proof {
                lemma_value_models(vs@);
                lemma_value_models(c@);
            }
            Some(c)
        },
        None => None,
    }
}

impl OcRuntime {
    /// A copy of the runtime block.
    pub fn duplicate(&self) -> (r: OcRuntime)
        ensures
            runtime_same(r, *self),
    {
        OcRuntime {
            scripts: scripts_duplicate(&self.scripts),
            variables: opt_values_duplicate(&self.variables),
            extra: entries_duplicate(&self.extra),
        }
    }
}

fn opt_auth_duplicate(o: &Option<AuthType>) -> (r: Option<AuthType>)
    ensures
        opt_auth_same(r, *o),
{
    match o {
        Some(a) => Some(a.duplicate()),
        None => None,
    }
}

impl OcHttp {
    /// A copy of the request block.
    pub fn duplicate(&self) -> (r: OcHttp)
        ensures
            http_same(r, *self),
    {
        OcHttp {
            method: self.method.clone(),
            url: self.url.clone(),
            headers: headers_duplicate(&self.headers),
            params: params_duplicate(&self.params),
            body: opt_duplicate(&self.body),
            auth: opt_duplicate(&self.auth),
            broquest_auth: opt_auth_duplicate(&self.broquest_auth),
            extra: entries_duplicate(&self.extra),
        }
    }
}

impl OcItemInfo {
    /// A copy of the `info` block.
    pub fn duplicate(&self) -> (r: OcItemInfo)
        ensures
            info_same(r, *self),
    {
        OcItemInfo {
            name: self.name.clone(),
            item_type: self.item_type.clone(),
            description: opt_duplicate(&self.description),
            seq: opt_duplicate(&self.seq),
            tags: opt_duplicate(&self.tags),
            extra: entries_duplicate(&self.extra),
        }
    }
}

impl OcEnvironment {
    /// A copy of the environment.
    pub fn duplicate(&self) -> (r: OcEnvironment)
        ensures
            env_same(r, *self),
    {
        let variables = values_duplicate(&self.variables);
        proof {
            lemma_value_models(self.variables@);
            lemma_value_models(variables@);
        }
        OcEnvironment {
            name: self.name.clone(),
            color: crate::domain::opt_text_copy(&self.color),
            variables,
            extra: entries_duplicate(&self.extra),
        }
    }
}

/// Lists of items that agree item by item agree.
pub proof fn lemma_items_same_pointwise(a: Seq<OcItem>, b: Seq<OcItem>)
    requires
        a.len() == b.len(),
        forall|i: int| 0 <= i < a.len() ==> #[trigger] item_same(a[i], b[i]),
    ensures
        items_same(a, b),
    decreases a.len(),
{
    if a.len() > 0 {
        let a1 = a.subrange(1, a.len() as int);
        let b1 = b.subrange(1, b.len() as int);
        assert forall|i: int| 0 <= i < a1.len() implies #[trigger] item_same(a1[i], b1[i]) by {
            assert(a1[i] == a[i + 1]);
            assert(b1[i] == b[i + 1]);
            assert(item_same(a[i + 1], b[i + 1]));
        }
        lemma_items_same_pointwise(a1, b1);
        assert(item_same(a[0], b[0]));
    }
}

impl Clone for OcItem {
    fn clone(&self) -> (r: Self)
        ensures
            item_same(r, *self),
    {
        self.duplicate()
    }
}

impl OcItem {
    /// A copy of the item, its children included.
    pub fn duplicate(&self) -> (r: OcItem)
        ensures
            item_same(r, *self),
        decreases self,
    {
        let items = match &self.items {
            Some(children) => {
                let mut out: Vec<OcItem> = Vec::new();
                let mut i: usize = 0;
                while i < children.len()
                    invariant
                        i <= children.len(),
                        self.items == Some(*children),
                        out@.len() == i,
                        forall|j: int| 0 <= j < i ==> #[trigger] item_same(out@[j], children@[j]),
                    decreases children.len() - i,
                {
                    proof {
                        vstd::std_specs::vec::axiom_vec_index_decreases(*children, i as int);
                        assert(decreases_to!(*self => self.items));
                        assert(decreases_to!(self.items => self.items->0));
                        assert(decreases_to!(*children => children[i as int]));
                        assert(decreases_to!(*self => children[i as int]));
                    }
                    let c = children[i].duplicate();
                    out.push(c);
                    i = i + 1;
                }
                proof {
                    lemma_items_same_pointwise(out@, children@);
                }
                Some(out)
            },
            None => None,
        };
        let info = match &self.info {
            Some(i) => Some(i.duplicate()),
            None => None,
        };
        let http = match &self.http {
            Some(h) => Some(h.duplicate()),
            None => None,
        };
        let runtime = match &self.runtime {
            Some(rt) => Some(rt.duplicate()),
            None => None,
        };
        OcItem {
            info,
            script_file_type: crate::domain::opt_text_copy(&self.script_file_type),
            http,
            graphql: opt_duplicate(&self.graphql),
            items,
            runtime,
            settings: opt_duplicate(&self.settings),
            examples: opt_duplicate(&self.examples),
            docs: opt_duplicate(&self.docs),
            script: crate::domain::opt_text_copy(&self.script),
            extra: entries_duplicate(&self.extra),
        }
    }
}

/// Lists of pairs with the same views agree pair by pair, and back.
#[verifier::spinoff_prover]
pub proof fn lemma_pairs_same_views(a: Seq<KeyValuePair>, b: Seq<KeyValuePair>)
    ensures
        pairs_same(a, b) <==> pair_views(a) == pair_views(b),
{
    if pair_views(a) == pair_views(b) {
        assert(a.len() == pair_views(a).len() && b.len() == pair_views(b).len());
        assert forall|i: int| 0 <= i < a.len() implies #[trigger] kv_same(a[i], b[i]) by {
            assert(pair_views(a)[i] == (a[i].key@, a[i].value@, a[i].enabled));
            assert(pair_views(b)[i] == (b[i].key@, b[i].value@, b[i].enabled));
            assert(pair_views(a)[i] == pair_views(b)[i]);
        }
    }
    if pairs_same(a, b) {
        assert forall|i: int| 0 <= i < a.len() implies pair_views(a)[i] == pair_views(b)[i] by {
            assert(kv_same(a[i], b[i]));
        }
        assert(pair_views(a) =~= pair_views(b));
    }
}

/// Agreement of authentications is an equivalence.
pub proof fn lemma_auth_same_equiv(a: AuthType, b: AuthType, c: AuthType)
    ensures
        auth_same(a, a),
        auth_same(a, b) ==> auth_same(b, a),
        auth_same(a, b) && auth_same(b, c) ==> auth_same(a, c),
{
}

/// What a document `auth` value reads as is fixed up to agreement, and kept
/// by agreement.
pub proof fn lemma_auth_from_doc_same(v: DataModel, a: AuthType, b: AuthType)
    requires
        auth_from_doc(v, a),
    ensures
        auth_from_doc(v, b) <==> auth_same(a, b),
{
}

/// An item reads as one request, up to agreement in every field.
pub proof fn lemma_item_loads_same(item: OcItem, a: RequestData, b: RequestData)
    requires
        item_loads_as(item, a),
    ensures
        item_loads_as(item, b) <==> request_same(a, b),
{
    lemma_pairs_same_views(a.path_params@, b.path_params@);
    lemma_pairs_same_views(a.query_params@, b.query_params@);
    lemma_pairs_same_views(a.headers@, b.headers@);
    lemma_pairs_same_views(a.vars@, b.vars@);
    let http = item.http->0;
    match http.broquest_auth {
        Some(k) => {
            lemma_auth_same_equiv(a.auth, k, b.auth);
            lemma_auth_same_equiv(b.auth, k, a.auth);
            lemma_auth_same_equiv(a.auth, b.auth, k);
        },
        None => match http.auth {
            Some(v) => {
                lemma_auth_from_doc_same(v@, a.auth, b.auth);
            },
            None => {},
        },
    }
}

} // verus!
