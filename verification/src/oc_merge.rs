//! Writing requests into OpenCollection items. A request is merged into the
//! item it was read from, so that every part of the item
//! that the request does not model stays as it was; an unchanged request
//! gives back its item as it was.

use vstd::prelude::*;

use crate::collection_types::opt_chars;
use crate::data::{
    entries_duplicate, entries_get, entry_models, lemma_entry_models_index, map_get, map_insert, map_swap_remove,
    mapping_insert, mapping_swap_remove, model_str, opt_duplicate, opt_model, DataModel, DataValue,
};
use crate::domain::{
    auth_same, content_body_type, content_type_of_lowered, method_name, opt_text_copy, opt_text_same, requests_equal, ContentType,
    KeyValuePair, RequestData,
};
use crate::encoding::{url_decode, url_decode_str};
use crate::text::{ascii_ieq, lowercase, split_char, split_once_char, views_of};
use crate::opencollection::{
    apply_auth_to_http, auth_doc, doc_headers, entries_same, item_loads_as, item_same, items_same,
    lemma_item_loads_same, oc_item_to_request, opt_value_same, pair_views, value_models, OcHeader, OcHttp, OcItem,
    OcItemInfo, OcParam, OcRuntime, OcScript,
};

verus! {

/// The pairs whose key is not empty, in order.
pub open spec fn named(ps: Seq<(Seq<char>, Seq<char>, bool)>) -> Seq<(Seq<char>, Seq<char>, bool)>
    decreases ps.len(),
{
    if ps.len() == 0 {
        Seq::empty()
    } else {
        let prev = named(ps.drop_last());
        if ps.last().0.len() > 0 {
            prev.push(ps.last())
        } else {
            prev
        }
    }
}

/// The first header of a list with a name.
pub open spec fn header_named(src: Seq<OcHeader>, name: Seq<char>) -> Option<OcHeader>
    decreases src.len(),
{
    if src.len() == 0 {
        None
    } else if src[0].name@ == name {
        Some(src[0])
    } else {
        header_named(src.drop_first(), name)
    }
}

/// A written header keeps the description and the unmodeled fields of the
/// first source header with its name; a new header has none.
pub open spec fn header_keeps(h: OcHeader, src: Seq<OcHeader>) -> bool {
    match header_named(src, h.name@) {
        Some(s) => opt_value_same(h.description, s.description) && entries_same(h.extra, s.extra),
        None => h.description is None && h.extra@.len() == 0,
    }
}

fn find_header(src: &Vec<OcHeader>, name: &String) -> (r: Option<usize>)
    ensures
        match r {
            Some(i) => i < src@.len() && header_named(src@, name@) == Some(src@[i as int]),
            None => header_named(src@, name@) is None,
        },
{
    let mut i: usize = 0;
    assert(src@.skip(0) =~= src@);
    while i < src.len()
        invariant
            i <= src.len(),
            header_named(src@, name@) == header_named(src@.skip(i as int), name@),
        decreases src.len() - i,
    {
        let ghost rest = src@.skip(i as int);
        assert(rest[0] == src@[i as int]);
        assert(rest.drop_first() =~= src@.skip(i + 1));
        if crate::domain::text_equal(&src[i].name, name) {
            return Some(i);
        }
        i = i + 1;
    }
    None
}

/// The request's headers as document headers: each header with a name, in
/// order, keeping what the source header of that name has beyond name, value
/// and whether it is disabled.
pub fn merge_headers(source: &Vec<OcHeader>, headers: &Vec<KeyValuePair>) -> (r: Vec<OcHeader>)
    ensures
        doc_headers(r@) == named(pair_views(headers@)),
        forall|i: int| 0 <= i < r@.len() ==> #[trigger] header_keeps(r@[i], source@),
{
    let mut out: Vec<OcHeader> = Vec::new();
    let mut i: usize = 0;
    while i < headers.len()
        invariant
            i <= headers.len(),
            doc_headers(out@) == named(pair_views(headers@).take(i as int)),
            forall|j: int| 0 <= j < out@.len() ==> #[trigger] header_keeps(out@[j], source@),
        decreases headers.len() - i,
    {
        let ghost pv = pair_views(headers@);
        assert(pv.take(i + 1).drop_last() =~= pv.take(i as int));
        assert(pv.take(i + 1).last() == pv[i as int]);
        let h = &headers[i];
        if !h.key.as_str().is_empty() {
            let mut base = match find_header(source, &h.key) {
                Some(k) => source[k].duplicate(),
                None => OcHeader {
                    name: h.key.clone(),
                    value: String::new(),
                    description: None,
                    disabled: false,
                    extra: Vec::new(),
                },
            };
            base.name = h.key.clone();
            base.value = h.value.clone();
            base.disabled = !h.enabled;
            let ghost before = out@;
            out.push(base);
            assert(doc_headers(out@) =~= doc_headers(before).push(
                (h.key@, h.value@, h.enabled),
            ));
        }
        i = i + 1;
    }
    assert(pair_views(headers@).take(headers@.len() as int) =~= pair_views(headers@));
    out
}

/// The views of parameters as (name, value, type, enabled).
pub open spec fn param_views(ps: Seq<OcParam>) -> Seq<(Seq<char>, Seq<char>, Seq<char>, bool)> {
    ps.map_values(|p: OcParam| (p.name@, p.value@, p.param_type@, !p.disabled))
}

/// Pairs given a parameter type.
pub open spec fn typed(ps: Seq<(Seq<char>, Seq<char>, bool)>, t: Seq<char>) -> Seq<(Seq<char>, Seq<char>, Seq<char>, bool)> {
    ps.map_values(|p: (Seq<char>, Seq<char>, bool)| (p.0, p.1, t, p.2))
}

/// The first parameter of a list with a name and a type.
pub open spec fn param_named(src: Seq<OcParam>, name: Seq<char>, t: Seq<char>) -> Option<OcParam>
    decreases src.len(),
{
    if src.len() == 0 {
        None
    } else if src[0].name@ == name && src[0].param_type@ == t {
        Some(src[0])
    } else {
        param_named(src.drop_first(), name, t)
    }
}

/// A written parameter keeps the description and the unmodeled fields of the
/// first source parameter with its name and type; a new one has none.
pub open spec fn param_keeps(p: OcParam, src: Seq<OcParam>) -> bool {
    match param_named(src, p.name@, p.param_type@) {
        Some(s) => opt_value_same(p.description, s.description) && entries_same(p.extra, s.extra),
        None => p.description is None && p.extra@.len() == 0,
    }
}

fn find_param(src: &Vec<OcParam>, name: &String, t: &str) -> (r: Option<usize>)
    ensures
        match r {
            Some(i) => i < src@.len() && param_named(src@, name@, t@) == Some(src@[i as int]),
            None => param_named(src@, name@, t@) is None,
        },
{
    let mut i: usize = 0;
    assert(src@.skip(0) =~= src@);
    while i < src.len()
        invariant
            i <= src.len(),
            param_named(src@, name@, t@) == param_named(src@.skip(i as int), name@, t@),
        decreases src.len() - i,
    {
        let ghost rest = src@.skip(i as int);
        assert(rest[0] == src@[i as int]);
        assert(rest.drop_first() =~= src@.skip(i + 1));
        let tc = crate::text::chars_of(src[i].param_type.as_str());
        if crate::domain::text_equal(&src[i].name, name) && crate::text::chars_eq_str(tc.as_slice(), t) {
            return Some(i);
        }
        i = i + 1;
    }
    None
}

fn push_params(out: &mut Vec<OcParam>, source: &Vec<OcParam>, pairs: &Vec<KeyValuePair>, t: &str)
    requires
        forall|j: int| 0 <= j < old(out)@.len() ==> #[trigger] param_keeps(old(out)@[j], source@),
    ensures
        param_views(final(out)@) == param_views(old(out)@) + typed(named(pair_views(pairs@)), t@),
        forall|j: int| 0 <= j < final(out)@.len() ==> #[trigger] param_keeps(final(out)@[j], source@),
{
    let ghost start = out@;
    let mut i: usize = 0;
    assert(param_views(out@) =~= param_views(start) + typed(named(pair_views(pairs@).take(0)), t@));
    while i < pairs.len()
        invariant
            i <= pairs.len(),
            param_views(out@) == param_views(start) + typed(named(pair_views(pairs@).take(i as int)), t@),
            forall|j: int| 0 <= j < out@.len() ==> #[trigger] param_keeps(out@[j], source@),
        decreases pairs.len() - i,
    {
        let ghost pv = pair_views(pairs@);
        assert(pv.take(i + 1).drop_last() =~= pv.take(i as int));
        assert(pv.take(i + 1).last() == pv[i as int]);
        let p = &pairs[i];
        if !p.key.as_str().is_empty() {
            let mut base = match find_param(source, &p.key, t) {
                Some(k) => source[k].duplicate(),
                None => OcParam {
                    name: p.key.clone(),
                    value: String::new(),
                    param_type: t.to_string(),
                    description: None,
                    disabled: false,
                    extra: Vec::new(),
                },
            };
            base.name = p.key.clone();
            base.value = p.value.clone();
            base.param_type = t.to_string();
            base.disabled = !p.enabled;
            let ghost before = out@;
            out.push(base);
            assert(param_views(out@) =~= param_views(before).push((p.key@, p.value@, t@, p.enabled)));
            assert(typed(named(pv.take(i + 1)), t@) =~= typed(named(pv.take(i as int)), t@).push(
                (p.key@, p.value@, t@, p.enabled),
            ));
        } else {
            assert(named(pv.take(i + 1)) == named(pv.take(i as int)));
        }
        i = i + 1;
    }
    assert(pair_views(pairs@).take(pairs@.len() as int) =~= pair_views(pairs@));
}

/// The request's parameters as document parameters: its query parameters,
/// then its path parameters, each with a name, keeping what the source
/// parameter of that name and type has beyond name, value, type and whether
/// it is disabled.
pub fn merge_params(source: &Vec<OcParam>, query_params: &Vec<KeyValuePair>, path_params: &Vec<KeyValuePair>) -> (r:
    Vec<OcParam>)
    ensures
        param_views(r@) == typed(named(pair_views(query_params@)), "query"@) + typed(
            named(pair_views(path_params@)),
            "path"@,
        ),
        forall|i: int| 0 <= i < r@.len() ==> #[trigger] param_keeps(r@[i], source@),
{
    let mut out: Vec<OcParam> = Vec::new();
    assert(param_views(out@) =~= Seq::empty());
    push_params(&mut out, source, query_params, "query");
    push_params(&mut out, source, path_params, "path");
    assert(param_views(out@) =~= typed(named(pair_views(query_params@)), "query"@) + typed(
        named(pair_views(path_params@)),
        "path"@,
    ));
    out
}

/// The view of a script: its type, its code and its unmodeled fields.
pub open spec fn script_views(ss: Seq<OcScript>) -> Seq<(Seq<char>, Seq<char>, Seq<(DataModel, DataModel)>)> {
    ss.map_values(|s: OcScript| (s.script_type@, s.code@, entry_models(s.extra@)))
}

/// The scripts that are neither before-request nor after-response scripts.
pub open spec fn other_scripts(ss: Seq<(Seq<char>, Seq<char>, Seq<(DataModel, DataModel)>)>) -> Seq<
    (Seq<char>, Seq<char>, Seq<(DataModel, DataModel)>),
>
    decreases ss.len(),
{
    if ss.len() == 0 {
        Seq::empty()
    } else {
        let prev = other_scripts(ss.drop_last());
        if ss.last().0 == "before-request"@ || ss.last().0 == "after-response"@ {
            prev
        } else {
            prev.push(ss.last())
        }
    }
}

/// A script of a type with the given code, if there is code.
pub open spec fn opt_script(t: Seq<char>, code: Option<Seq<char>>) -> Seq<
    (Seq<char>, Seq<char>, Seq<(DataModel, DataModel)>),
> {
    match code {
        Some(c) => seq![(t, c, Seq::empty())],
        None => Seq::empty(),
    }
}

/// The first variable of a list, as a mapping's entries, with a name.
pub open spec fn var_named(src: Seq<DataModel>, name: Seq<char>) -> Option<Seq<(DataModel, DataModel)>>
    decreases src.len(),
{
    if src.len() == 0 {
        None
    } else {
        match src[0] {
            DataModel::Mapping(es) => if model_str(map_get(es, "name"@)) == Some(name) {
                Some(es)
            } else {
                var_named(src.drop_first(), name)
            },
            _ => var_named(src.drop_first(), name),
        }
    }
}

/// A request variable as a document variable: the source variable of its
/// name with `name` and `value` set, and `disabled: true` set when it is
/// disabled or removed when it is enabled.
pub open spec fn var_doc(src: Seq<DataModel>, v: (Seq<char>, Seq<char>, bool)) -> DataModel {
    let base = match var_named(src, v.0) {
        Some(es) => es,
        None => Seq::empty(),
    };
    let e = map_insert(map_insert(base, "name"@, DataModel::Str(v.0)), "value"@, DataModel::Str(v.1));
    DataModel::Mapping(
        if v.2 {
            map_swap_remove(e, "disabled"@)
        } else {
            map_insert(e, "disabled"@, DataModel::Bool(true))
        },
    )
}

fn find_var(src: &Vec<DataValue>, name: &String) -> (r: Option<usize>)
    ensures
        match r {
            Some(i) => i < src@.len() && src@[i as int] is Mapping && var_named(value_models(src@), name@) == Some(
                entry_models(src@[i as int]->Mapping_0@),
            ),
            None => var_named(value_models(src@), name@) is None,
        },
{
    let ghost vm = value_models(src@);
    let mut i: usize = 0;
    assert(vm.skip(0) =~= vm);
    while i < src.len()
        invariant
            i <= src.len(),
            vm == value_models(src@),
            var_named(vm, name@) == var_named(vm.skip(i as int), name@),
        decreases src.len() - i,
    {
        let ghost rest = vm.skip(i as int);
        assert(rest[0] == src@[i as int]@);
        assert(rest.drop_first() =~= vm.skip(i + 1));
        match &src[i] {
            DataValue::Mapping(es) => {
                match entries_get(es, "name") {
                    Some(n) => match n.as_str() {
                        Some(t) => {
                            if crate::domain::text_equal(t, name) {
                                return Some(i);
                            }
                        },
                        None => {},
                    },
                    None => {},
                }
            },
            _ => {},
        }
        i = i + 1;
    }
    None
}

/// Writes a request variable as a document variable, keeping what the source
/// variable of its name has beyond name, value and `disabled`.
pub fn var_to_oc_value(source: &Vec<DataValue>, var: &KeyValuePair) -> (r: DataValue)
    ensures
        r@ == var_doc(value_models(source@), (var.key@, var.value@, var.enabled)),
{
    let mut es: Vec<(DataValue, DataValue)> = match find_var(source, &var.key) {
        Some(i) => match &source[i] {
            DataValue::Mapping(m) => entries_duplicate(m),
            _ => Vec::new(),
        },
        None => Vec::new(),
    };
    mapping_insert(&mut es, "name", DataValue::Str(var.key.clone()));
    mapping_insert(&mut es, "value", DataValue::Str(var.value.clone()));
    if var.enabled {
        mapping_swap_remove(&mut es, "disabled");
    } else {
        mapping_insert(&mut es, "disabled", DataValue::Bool(true));
    }
    DataValue::Mapping(es)
}

/// The scripts that a written runtime block has.
pub open spec fn runtime_scripts(
    src: Option<OcRuntime>,
    pre: Option<Seq<char>>,
    post: Option<Seq<char>>,
) -> Seq<(Seq<char>, Seq<char>, Seq<(DataModel, DataModel)>)> {
    let s = match src {
        Some(rt) => script_views(rt.scripts@),
        None => Seq::empty(),
    };
    other_scripts(s) + opt_script("before-request"@, pre) + opt_script("after-response"@, post)
}

/// The variables of a source runtime block, as models.
pub open spec fn source_vars(src: Option<OcRuntime>) -> Seq<DataModel> {
    match src {
        Some(rt) => match rt.variables {
            Some(vs) => value_models(vs@),
            None => Seq::empty(),
        },
        None => Seq::empty(),
    }
}

/// The unmodeled fields of a source runtime block.
pub open spec fn source_extra(src: Option<OcRuntime>) -> Seq<(DataModel, DataModel)> {
    match src {
        Some(rt) => entry_models(rt.extra@),
        None => Seq::empty(),
    }
}

/// `r` is the runtime block written for scripts and variables over a source
/// block: the source's other scripts, then the before-request and
/// after-response scripts; the named variables (none when there are none);
/// the source's unmodeled fields. No block at all when it would be empty.
pub open spec fn runtime_written(
    src: Option<OcRuntime>,
    pre: Option<Seq<char>>,
    post: Option<Seq<char>>,
    vars: Seq<(Seq<char>, Seq<char>, bool)>,
    r: Option<OcRuntime>,
) -> bool {
    let scripts = runtime_scripts(src, pre, post);
    let nv = named(vars);
    if scripts.len() == 0 && nv.len() == 0 && source_extra(src).len() == 0 {
        r is None
    } else {
        r matches Some(rt) && script_views(rt.scripts@) == scripts && entry_models(rt.extra@) == source_extra(src)
            && if nv.len() == 0 {
            rt.variables is None
        } else {
            rt.variables matches Some(vs) && value_models(vs@) == nv.map_values(
                |v: (Seq<char>, Seq<char>, bool)| var_doc(source_vars(src), v),
            )
        }
    }
}

/// Writes scripts and variables into a runtime block.
pub fn merge_runtime(
    source: Option<&OcRuntime>,
    pre: &Option<String>,
    post: &Option<String>,
    vars: &Vec<KeyValuePair>,
) -> (r: Option<OcRuntime>)
    ensures
        runtime_written(
            match source {
                Some(rt) => Some(*rt),
                None => None,
            },
            opt_chars(*pre),
            opt_chars(*post),
            pair_views(vars@),
            r,
        ),
{
    let ghost src = match source {
        Some(rt) => Some(*rt),
        None => None::<OcRuntime>,
    };
    let empty = OcRuntime { scripts: Vec::new(), variables: None, extra: Vec::new() };
    let rt: &OcRuntime = match source {
        Some(rt) => rt,
        None => &empty,
    };
    assert(source_extra(src) == entry_models(rt.extra@));
    assert(source_vars(src) == match rt.variables {
        Some(vs) => value_models(vs@),
        None => Seq::<DataModel>::empty(),
    });
    assert(runtime_scripts(src, opt_chars(*pre), opt_chars(*post)) == other_scripts(script_views(rt.scripts@))
        + opt_script("before-request"@, opt_chars(*pre)) + opt_script("after-response"@, opt_chars(*post)));
    // The scripts other than before-request and after-response scripts.
    let mut scripts: Vec<OcScript> = Vec::new();
    let ghost sv = script_views(rt.scripts@);
    let mut i: usize = 0;
    while i < rt.scripts.len()
        invariant
            i <= rt.scripts.len(),
            sv == script_views(rt.scripts@),
            script_views(scripts@) == other_scripts(sv.take(i as int)),
        decreases rt.scripts.len() - i,
    {
        assert(sv.take(i + 1).drop_last() =~= sv.take(i as int));
        assert(sv.take(i + 1).last() == sv[i as int]);
        let s = &rt.scripts[i];
        let t = crate::text::chars_of(s.script_type.as_str());
        if !(crate::text::chars_eq_str(t.as_slice(), "before-request") || crate::text::chars_eq_str(
            t.as_slice(),
            "after-response",
        )) {
            let ghost before = scripts@;
            scripts.push(s.duplicate());
            assert(script_views(scripts@) =~= script_views(before).push(sv[i as int]));
        }
        i = i + 1;
    }
    assert(sv.take(sv.len() as int) =~= sv);
    match pre {
        Some(code) => {
            let ghost before = scripts@;
            scripts.push(OcScript { script_type: "before-request".to_string(), code: code.clone(), extra: Vec::new() });
            assert(script_views(scripts@) =~= script_views(before) + opt_script("before-request"@, opt_chars(*pre)));
        },
        None => {
            assert(script_views(scripts@) =~= script_views(scripts@) + opt_script("before-request"@, opt_chars(*pre)));
        },
    }
    match post {
        Some(code) => {
            let ghost before = scripts@;
            scripts.push(OcScript { script_type: "after-response".to_string(), code: code.clone(), extra: Vec::new() });
            assert(script_views(scripts@) =~= script_views(before) + opt_script("after-response"@, opt_chars(*post)));
        },
        None => {
            assert(script_views(scripts@) =~= script_views(scripts@) + opt_script("after-response"@, opt_chars(*post)));
        },
    }
    assert(script_views(scripts@) == runtime_scripts(src, opt_chars(*pre), opt_chars(*post)));
    // The variables with a name.
    let no_values: Vec<DataValue> = Vec::new();
    let source_values: &Vec<DataValue> = match &rt.variables {
        Some(vs) => vs,
        None => &no_values,
    };
    assert(value_models(source_values@) == source_vars(src));
    let ghost nv = named(pair_views(vars@));
    let mut out: Vec<DataValue> = Vec::new();
    let mut k: usize = 0;
    while k < vars.len()
        invariant
            k <= vars.len(),
            nv == named(pair_views(vars@)),
            value_models(out@) == named(pair_views(vars@).take(k as int)).map_values(
                |v: (Seq<char>, Seq<char>, bool)| var_doc(value_models(source_values@), v),
            ),
        decreases vars.len() - k,
    {
        let ghost pv = pair_views(vars@);
        assert(pv.take(k + 1).drop_last() =~= pv.take(k as int));
        assert(pv.take(k + 1).last() == pv[k as int]);
        let v = &vars[k];
        if !v.key.as_str().is_empty() {
            let d = var_to_oc_value(source_values, v);
            let ghost before = out@;
            out.push(d);
            assert(value_models(out@) =~= value_models(before).push(d@));
            assert(named(pv.take(k + 1)) == named(pv.take(k as int)).push(pv[k as int]));
            assert(named(pv.take(k + 1)).map_values(|v: (Seq<char>, Seq<char>, bool)| var_doc(value_models(source_values@), v))
                =~= named(pv.take(k as int)).map_values(|v: (Seq<char>, Seq<char>, bool)| var_doc(value_models(source_values@), v)).push(d@));
        }
        k = k + 1;
    }
    assert(pair_views(vars@).take(vars@.len() as int) =~= pair_views(vars@));
    let variables = if out.len() == 0 {
        None
    } else {
        Some(out)
    };
    let empty_extra = rt.extra.len() == 0;
    proof {
        lemma_entry_models_index(rt.extra@);
    }
    if scripts.len() == 0 && variables.is_none() && empty_extra {
        None
    } else {
        Some(OcRuntime { scripts, variables, extra: entries_duplicate(&rt.extra) })
    }
}

/// The value of the first enabled header named `content-type` (ASCII case
/// ignored).
pub open spec fn first_content_type(hs: Seq<(Seq<char>, Seq<char>, bool)>) -> Option<Seq<char>>
    decreases hs.len(),
{
    if hs.len() == 0 {
        None
    } else if ascii_ieq(hs[0].0, "content-type"@) && hs[0].2 {
        Some(hs[0].1)
    } else {
        first_content_type(hs.drop_first())
    }
}

/// The body type a request is written with: the one its first enabled
/// `Content-Type` header announces, else JSON.
pub open spec fn written_body_type(hs: Seq<(Seq<char>, Seq<char>, bool)>) -> Seq<char> {
    match first_content_type(hs) {
        Some(v) => content_body_type(content_type_of_lowered(lowercase(v))),
        None => "json"@,
    }
}

/// A text percent-decoded, or as it is where it does not decode.
pub open spec fn decoded_or_same(s: Seq<char>) -> Seq<char> {
    match url_decode(s) {
        Some(d) => d,
        None => s,
    }
}

/// The fields of a URL-encoded form body: one `{name, value}` mapping for
/// each piece with `=`, both sides percent-decoded where they decode.
pub open spec fn form_doc_fields(pieces: Seq<Seq<char>>) -> Seq<DataModel>
    decreases pieces.len(),
{
    if pieces.len() == 0 {
        Seq::empty()
    } else {
        let prev = form_doc_fields(pieces.drop_last());
        match split_once_char(pieces.last(), '=') {
            Some((k, v)) => prev.push(
                DataModel::Mapping(
                    seq![
                        (DataModel::Str("name"@), DataModel::Str(decoded_or_same(k))),
                        (DataModel::Str("value"@), DataModel::Str(decoded_or_same(v))),
                    ],
                ),
            ),
            None => prev,
        }
    }
}

/// A document body of a type with a text.
pub open spec fn typed_body(t: Seq<char>, data: DataModel) -> DataModel {
    DataModel::Mapping(seq![(DataModel::Str("type"@), DataModel::Str(t)), (DataModel::Str("data"@), data)])
}

/// The document body a request is written with: none for an empty body;
/// else by its body type an XML, text, form or JSON body.
pub open spec fn request_doc_body(body: Seq<char>, hs: Seq<(Seq<char>, Seq<char>, bool)>) -> Option<DataModel> {
    if body.len() == 0 {
        None
    } else {
        let t = written_body_type(hs);
        Some(
            if t == "xml"@ {
                typed_body("xml"@, DataModel::Str(body))
            } else if t == "text"@ || t == "html"@ {
                typed_body("text"@, DataModel::Str(body))
            } else if t == "form"@ {
                typed_body("form-urlencoded"@, DataModel::List(form_doc_fields(split_char(body, '&'))))
            } else {
                typed_body("json"@, DataModel::Str(body))
            },
        )
    }
}

fn first_content_type_exec(hs: &Vec<KeyValuePair>) -> (r: Option<String>)
    ensures
        opt_chars(r) == first_content_type(pair_views(hs@)),
{
    let ghost pv = pair_views(hs@);
    let mut i: usize = 0;
    assert(pv.skip(0) =~= pv);
    while i < hs.len()
        invariant
            i <= hs.len(),
            pv == pair_views(hs@),
            first_content_type(pv) == first_content_type(pv.skip(i as int)),
        decreases hs.len() - i,
    {
        let ghost rest = pv.skip(i as int);
        assert(rest[0] == pv[i as int]);
        assert(rest.drop_first() =~= pv.skip(i + 1));
        if crate::text::ascii_ieq_str(hs[i].key.as_str(), "content-type") && hs[i].enabled {
            return Some(hs[i].value.clone());
        }
        i = i + 1;
    }
    None
}

fn decode_or_keep(s: &[char]) -> (r: String)
    ensures
        r@ == decoded_or_same(s@),
{
    let t = crate::text::string_of(s);
    match url_decode_str(t.as_str()) {
        Some(d) => d,
        None => t,
    }
}

fn form_fields_doc(body: &str) -> (r: Vec<DataValue>)
    ensures
        value_models(r@) == form_doc_fields(split_char(body@, '&')),
{
    let bc = crate::text::chars_of(body);
    let pieces = crate::text::split_chars(bc.as_slice(), '&');
    let ghost pv = views_of(pieces@);
    let mut out: Vec<DataValue> = Vec::new();
    let mut i: usize = 0;
    while i < pieces.len()
        invariant
            i <= pieces.len(),
            pv == views_of(pieces@),
            pv == split_char(body@, '&'),
            value_models(out@) == form_doc_fields(pv.take(i as int)),
        decreases pieces.len() - i,
    {
        assert(pv.take(i + 1).drop_last() =~= pv.take(i as int));
        assert(pv.take(i + 1).last() == pieces@[i as int]@);
        match crate::text::split_once_exec(pieces[i].as_slice(), '=') {
            Some((k, v)) => {
                let mut es: Vec<(DataValue, DataValue)> = Vec::new();
                es.push((DataValue::text("name"), DataValue::Str(decode_or_keep(k.as_slice()))));
                es.push((DataValue::text("value"), DataValue::Str(decode_or_keep(v.as_slice()))));
                let f = DataValue::Mapping(es);
                proof {
                    lemma_entry_models_index(es@);
                    assert(entry_models(es@) =~= seq![
                        (DataModel::Str("name"@), DataModel::Str(decoded_or_same(k@))),
                        (DataModel::Str("value"@), DataModel::Str(decoded_or_same(v@))),
                    ]);
                }
                let ghost before = out@;
                out.push(f);
                assert(value_models(out@) =~= value_models(before).push(f@));
            },
            None => {},
        }
        i = i + 1;
    }
    assert(pv.take(pv.len() as int) =~= pv);
    out
}

fn typed_body_exec(t: &str, data: DataValue) -> (r: DataValue)
    ensures
        r@ == typed_body(t@, data@),
{
    let mut es: Vec<(DataValue, DataValue)> = Vec::new();
    es.push((DataValue::text("type"), DataValue::text(t)));
    es.push((DataValue::text("data"), data));
    proof {
        lemma_entry_models_index(es@);
        assert(entry_models(es@) =~= seq![
            (DataModel::Str("type"@), DataModel::Str(t@)),
            (DataModel::Str("data"@), data@),
        ]);
    }
    DataValue::Mapping(es)
}

/// The document body a request is written with.
pub fn request_to_oc_body(req: &RequestData) -> (r: Option<DataValue>)
    ensures
        opt_model(r) == request_doc_body(req.body@, pair_views(req.headers@)),
{
    if req.body.as_str().is_empty() {
        return None;
    }
    let body_type: &str = match first_content_type_exec(&req.headers) {
        Some(v) => ContentType::from_header(v.as_str()).body_type(),
        None => "json",
    };
    let tc = crate::text::chars_of(body_type);
    if crate::text::chars_eq_str(tc.as_slice(), "xml") {
        Some(typed_body_exec("xml", DataValue::Str(req.body.clone())))
    } else if crate::text::chars_eq_str(tc.as_slice(), "text") || crate::text::chars_eq_str(tc.as_slice(), "html") {
        Some(typed_body_exec("text", DataValue::Str(req.body.clone())))
    } else if crate::text::chars_eq_str(tc.as_slice(), "form") {
        let fields = form_fields_doc(req.body.as_str());
        let data = DataValue::List(fields);
        proof {
            crate::opencollection::lemma_value_models(fields@);
        }
        Some(typed_body_exec("form-urlencoded", data))
    } else {
        Some(typed_body_exec("json", DataValue::Str(req.body.clone())))
    }
}

/// `h` is the request block written for a request over a source block: the
/// request's method, URL, headers and parameters (keeping the source's
/// descriptions and unmodeled fields), its body where it has one (else the
/// source's body), its authentication, and the source's unmodeled fields.
pub open spec fn http_written(base: Option<OcHttp>, req: RequestData, h: OcHttp) -> bool {
    let src_headers = match base {
        Some(b) => b.headers@,
        None => Seq::empty(),
    };
    let src_params = match base {
        Some(b) => b.params@,
        None => Seq::empty(),
    };
    &&& h.method@ == method_name(req.method)
    &&& h.url@ == req.url@
    &&& doc_headers(h.headers@) == named(pair_views(req.headers@))
    &&& forall|i: int| 0 <= i < h.headers@.len() ==> #[trigger] header_keeps(h.headers@[i], src_headers)
    &&& param_views(h.params@) == typed(named(pair_views(req.query_params@)), "query"@) + typed(
        named(pair_views(req.path_params@)),
        "path"@,
    )
    &&& forall|i: int| 0 <= i < h.params@.len() ==> #[trigger] param_keeps(h.params@[i], src_params)
    &&& opt_model(h.body) == if req.body@.len() > 0 {
        request_doc_body(req.body@, pair_views(req.headers@))
    } else {
        match base {
            Some(b) => opt_model(b.body),
            None => None,
        }
    }
    &&& opt_model(h.auth) == auth_doc(req.auth)
    &&& if req.auth is OAuth2 || req.auth is Jwt {
        h.broquest_auth matches Some(x) && auth_same(x, req.auth)
    } else {
        h.broquest_auth is None
    }
    &&& entry_models(h.extra@) == match base {
        Some(b) => entry_models(b.extra@),
        None => Seq::empty(),
    }
}

/// `i` is the `info` block written for a request over a source block: the
/// request's name, type `http`, and the source's other fields.
pub open spec fn info_written(base: Option<OcItemInfo>, req: RequestData, i: OcItemInfo) -> bool {
    &&& i.name@ == req.name@
    &&& i.item_type@ == "http"@
    &&& match base {
        Some(b) => opt_value_same(i.description, b.description) && opt_value_same(i.seq, b.seq) && opt_value_same(
            i.tags,
            b.tags,
        ) && entries_same(i.extra, b.extra),
        None => i.description is None && i.seq is None && i.tags is None && i.extra@.len() == 0,
    }
}

/// `r` is the item written for a request over a source item (or over an
/// empty item): `info` and the request block as above, the runtime block
/// as `runtime_written` gives it, every other field as in the source.
pub open spec fn item_written(src: Option<OcItem>, req: RequestData, r: OcItem) -> bool {
    &&& r.info matches Some(i) && info_written(
        match src {
            Some(s) => s.info,
            None => None,
        },
        req,
        i,
    )
    &&& r.http matches Some(h) && http_written(
        match src {
            Some(s) => s.http,
            None => None,
        },
        req,
        h,
    )
    &&& runtime_written(
        match src {
            Some(s) => s.runtime,
            None => None,
        },
        opt_chars(req.pre_request_script),
        opt_chars(req.post_response_script),
        pair_views(req.vars@),
        r.runtime,
    )
    &&& match src {
        Some(s) => {
            &&& opt_text_same(r.script_file_type, s.script_file_type)
            &&& opt_value_same(r.graphql, s.graphql)
            &&& match (r.items, s.items) {
                (Some(x), Some(y)) => items_same(x@, y@),
                (None, None) => true,
                _ => false,
            }
            &&& opt_value_same(r.settings, s.settings)
            &&& opt_value_same(r.examples, s.examples)
            &&& opt_value_same(r.docs, s.docs)
            &&& opt_text_same(r.script, s.script)
            &&& entries_same(r.extra, s.extra)
        },
        None => {
            &&& r.script_file_type is None
            &&& r.graphql is None
            &&& r.items is None
            &&& r.settings is None
            &&& r.examples is None
            &&& r.docs is None
            &&& r.script is None
            &&& r.extra@.len() == 0
        },
    }
}

/// An item with nothing in it.
pub fn new_http_item() -> (r: OcItem)
    ensures
        r.info is None,
        r.script_file_type is None,
        r.http is None,
        r.graphql is None,
        r.items is None,
        r.runtime is None,
        r.settings is None,
        r.examples is None,
        r.docs is None,
        r.script is None,
        r.extra@.len() == 0,
{
    OcItem {
        info: None,
        script_file_type: None,
        http: None,
        graphql: None,
        items: None,
        runtime: None,
        settings: None,
        examples: None,
        docs: None,
        script: None,
        extra: Vec::new(),
    }
}

fn new_info() -> (r: OcItemInfo)
    ensures
        r.name@.len() == 0,
        r.item_type@.len() == 0,
        r.description is None,
        r.seq is None,
        r.tags is None,
        r.extra@.len() == 0,
{
    OcItemInfo {
        name: String::new(),
        item_type: String::new(),
        description: None,
        seq: None,
        tags: None,
        extra: Vec::new(),
    }
}

fn opt_items_duplicate(o: &Option<Vec<OcItem>>) -> (r: Option<Vec<OcItem>>)
    ensures
        match (r, *o) {
            (Some(x), Some(y)) => items_same(x@, y@),
            (None, None) => true,
            _ => false,
        },
{
    match o {
        Some(v) => {
            let mut out: Vec<OcItem> = Vec::new();
            let mut i: usize = 0;
            while i < v.len()
                invariant
                    i <= v.len(),
                    out@.len() == i,
                    forall|j: int| 0 <= j < i ==> #[trigger] item_same(out@[j], v@[j]),
                decreases v.len() - i,
            {
                out.push(v[i].duplicate());
                i = i + 1;
            }
            proof {
                crate::opencollection::lemma_items_same_pointwise(out@, v@);
            }
            Some(out)
        },
        None => None,
    }
}

/// Writes a request into the item it was read from (or into a new item),
/// keeping everything of the item that the request does not model. When the
/// item reads as the request already, a copy of the item comes back as it
/// was.
pub fn merge_request_into_item(source: Option<&OcItem>, req: &RequestData) -> (r: OcItem)
    ensures
        match source {
            Some(src) => if item_loads_as(*src, *req) {
                item_same(r, *src)
            } else {
                item_written(Some(*src), *req, r)
            },
            None => item_written(None, *req, r),
        },
{
    match source {
        Some(src) => match oc_item_to_request(src) {
            Some(loaded) => {
                proof {
                    lemma_item_loads_same(*src, loaded, *req);
                }
                if requests_equal(&loaded, req) {
                    return src.duplicate();
                }
            },
            None => {},
        },
        None => {},
    }
    let mut info = match source {
        Some(src) => match &src.info {
            Some(i) => OcItemInfo {
                name: String::new(),
                item_type: String::new(),
                description: opt_duplicate(&i.description),
                seq: opt_duplicate(&i.seq),
                tags: opt_duplicate(&i.tags),
                extra: entries_duplicate(&i.extra),
            },
            None => new_info(),
        },
        None => new_info(),
    };
    info.name = req.name.clone();
    info.item_type = "http".to_string();
    let no_http = OcHttp {
        method: String::new(),
        url: String::new(),
        headers: Vec::new(),
        params: Vec::new(),
        body: None,
        auth: None,
        broquest_auth: None,
        extra: Vec::new(),
    };
    let base_http: &OcHttp = match source {
        Some(src) => match &src.http {
            Some(h) => h,
            None => &no_http,
        },
        None => &no_http,
    };
    let body = if !req.body.as_str().is_empty() {
        request_to_oc_body(req)
    } else {
        opt_duplicate(&base_http.body)
    };
    let mut http = OcHttp {
        method: req.method.as_str().to_string(),
        url: req.url.clone(),
        headers: merge_headers(&base_http.headers, &req.headers),
        params: merge_params(&base_http.params, &req.query_params, &req.path_params),
        body,
        auth: None,
        broquest_auth: None,
        extra: entries_duplicate(&base_http.extra),
    };
    apply_auth_to_http(&mut http, &req.auth);
    let runtime = match source {
        Some(src) => match &src.runtime {
            Some(rt) => merge_runtime(Some(rt), &req.pre_request_script, &req.post_response_script, &req.vars),
            None => merge_runtime(None, &req.pre_request_script, &req.post_response_script, &req.vars),
        },
        None => merge_runtime(None, &req.pre_request_script, &req.post_response_script, &req.vars),
    };
    let r = match source {
        Some(src) => OcItem {
            info: Some(info),
            script_file_type: opt_text_copy(&src.script_file_type),
            http: Some(http),
            graphql: opt_duplicate(&src.graphql),
            items: opt_items_duplicate(&src.items),
            runtime,
            settings: opt_duplicate(&src.settings),
            examples: opt_duplicate(&src.examples),
            docs: opt_duplicate(&src.docs),
            script: opt_text_copy(&src.script),
            extra: entries_duplicate(&src.extra),
        },
        None => OcItem {
            info: Some(info),
            script_file_type: None,
            http: Some(http),
            graphql: None,
            items: None,
            runtime,
            settings: None,
            examples: None,
            docs: None,
            script: None,
            extra: Vec::new(),
        },
    };
    r
}

} // verus!
