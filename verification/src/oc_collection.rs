//! Whole OpenCollection documents: reading a bundled collection into the
//! library's requests, groups and environments, and assembling root
//! documents for writing. Requests and environments keep the document parts
//! they were read from, so that writing them back loses nothing.

use vstd::prelude::*;

use crate::collection_types::{opt_chars, EnvironmentToml};
use crate::data::{
    entries_duplicate, entries_get, entry_models, lemma_entry_models_index, map_get, map_swap_remove, map_insert,
    mapping_insert, mapping_swap_remove, model_bool, model_str, opt_duplicate, opt_model, DataModel, DataValue,
};
use crate::domain::{KeyValuePair, RequestData};
use crate::oc_env::{env_reads_as, oc_environment_to_toml};
use crate::domain::opt_text_same;
use crate::opencollection::{
    entries_same, env_same, item_kind, item_loads_as, item_name, item_same, item_type, oc_item_to_request,
    opt_http_same, opt_runtime_same, opt_value_same, pair_views, value_models, ItemKind, OcConfig, OcEnvironment,
    OcInfo, OcItem, OcItemInfo, OpenCollectionFile,
};
use crate::text::join;

verus! {

/// A request with the item it was read from.
#[derive(Debug)]
pub struct LoadedRequest {
    pub request: RequestData,
    pub source: OcItem,
}

/// A top-level folder: its name, the folder item, and its requests.
#[derive(Debug)]
pub struct LoadedGroup {
    pub name: String,
    pub source: Option<OcItem>,
    pub requests: Vec<LoadedRequest>,
}

/// An environment with the document environment it was read from.
#[derive(Debug)]
pub struct LoadedEnv {
    pub toml: EnvironmentToml,
    pub source: OcEnvironment,
}

/// A collection read from its root document.
#[derive(Debug)]
pub struct LoadedCollection {
    pub file: OpenCollectionFile,
    pub name: String,
    pub version: String,
    pub docs: Option<String>,
    pub environments: Vec<LoadedEnv>,
    pub root_requests: Vec<LoadedRequest>,
    pub groups: Vec<LoadedGroup>,
    pub vars: Vec<KeyValuePair>,
}

// ---------------------------------------------------------------------------
// Documentation
// ---------------------------------------------------------------------------

/// The texts of documentation blocks: text blocks, and mapping blocks with a
/// text `text`; other blocks are skipped.
pub open spec fn docs_parts(blocks: Seq<DataModel>) -> Seq<Seq<char>>
    decreases blocks.len(),
{
    if blocks.len() == 0 {
        Seq::empty()
    } else {
        let prev = docs_parts(blocks.drop_last());
        match blocks.last() {
            DataModel::Str(s) => prev.push(s),
            DataModel::Mapping(es) => match model_str(map_get(es, "text"@)) {
                Some(t) => prev.push(t),
                None => prev,
            },
            _ => prev,
        }
    }
}

/// The markdown of a documentation value: a text as it is; the texts of a
/// list of blocks joined by blank lines (none when there are none); nothing
/// for any other value.
pub open spec fn docs_markdown(v: DataModel) -> Option<Seq<char>> {
    match v {
        DataModel::Str(s) => Some(s),
        DataModel::List(bs) => if docs_parts(bs).len() == 0 {
            None
        } else {
            Some(join(docs_parts(bs), "\n\n"@))
        },
        _ => None,
    }
}

/// Converts a documentation value to markdown.
pub fn docs_value_to_markdown(value: &DataValue) -> (r: Option<String>)
    ensures
        opt_chars(r) == docs_markdown(value@),
{
    match value {
        DataValue::Str(s) => Some(s.clone()),
        DataValue::List(blocks) => {
            proof {
                crate::data::lemma_data_models_index(blocks@);
            }
            let ghost bm = crate::data::data_models(blocks@);
            let mut parts: Vec<Vec<char>> = Vec::new();
            let mut i: usize = 0;
            while i < blocks.len()
                invariant
                    i <= blocks.len(),
                    bm == crate::data::data_models(blocks@),
                    bm.len() == blocks@.len(),
                    forall|j: int| 0 <= j < blocks@.len() ==> #[trigger] bm[j] == blocks@[j]@,
                    crate::text::views_of(parts@) == docs_parts(bm.take(i as int)),
                decreases blocks.len() - i,
            {
                assert(bm.take(i + 1).drop_last() =~= bm.take(i as int));
                assert(bm.take(i + 1).last() == blocks@[i as int]@);
                let ghost before = parts@;
                match &blocks[i] {
                    DataValue::Str(s) => {
                        parts.push(crate::text::chars_of(s.as_str()));
                        assert(crate::text::views_of(parts@) =~= crate::text::views_of(before).push(s@));
                    },
                    DataValue::Mapping(es) => match entries_get(es, "text") {
                        Some(t) => match t.as_str() {
                            Some(x) => {
                                parts.push(crate::text::chars_of(x.as_str()));
                                assert(crate::text::views_of(parts@) =~= crate::text::views_of(before).push(x@));
                            },
                            None => {},
                        },
                        None => {},
                    },
                    _ => {},
                }
                i = i + 1;
            }
            assert(bm.take(bm.len() as int) =~= bm);
            if parts.len() == 0 {
                None
            } else {
                let sep = crate::text::chars_of("\n\n");
                let joined = crate::text::join_chars(&parts, sep.as_slice());
                Some(crate::text::string_of(joined.as_slice()))
            }
        },
        _ => None,
    }
}

// ---------------------------------------------------------------------------
// Collection variables
// ---------------------------------------------------------------------------

/// The variable a stored value describes: a `{key, value, enabled}` mapping
/// (text, text, flag) or a list of exactly those three.
pub open spec fn doc_pair(m: DataModel) -> Option<(Seq<char>, Seq<char>, bool)> {
    match m {
        DataModel::Mapping(es) => match (
            model_str(map_get(es, "key"@)),
            model_str(map_get(es, "value"@)),
            model_bool(map_get(es, "enabled"@)),
        ) {
            (Some(k), Some(v), Some(e)) => Some((k, v, e)),
            _ => None,
        },
        DataModel::List(xs) => if xs.len() == 3 {
            match (xs[0], xs[1], xs[2]) {
                (DataModel::Str(k), DataModel::Str(v), DataModel::Bool(e)) => Some((k, v, e)),
                _ => None,
            }
        } else {
            None
        },
        _ => None,
    }
}

/// The collection variables a stored value holds: a list whose every element
/// describes a variable; nothing at all when any does not.
pub open spec fn doc_vars(m: Option<DataModel>) -> Seq<(Seq<char>, Seq<char>, bool)> {
    match m {
        Some(DataModel::List(xs)) => if forall|i: int| 0 <= i < xs.len() ==> (#[trigger] doc_pair(xs[i])) is Some {
            xs.map_values(|x: DataModel| doc_pair(x)->0)
        } else {
            Seq::empty()
        },
        _ => Seq::empty(),
    }
}

/// The key under which a root document keeps the collection variables.
pub open spec fn vars_key() -> Seq<char> {
    "x-broquest-vars"@
}

fn doc_pair_exec(v: &DataValue) -> (r: Option<KeyValuePair>)
    ensures
        match r {
            Some(p) => doc_pair(v@) == Some((p.key@, p.value@, p.enabled)),
            None => doc_pair(v@) is None,
        },
{
    match v {
        DataValue::Mapping(es) => {
            let k = match entries_get(es, "key") {
                Some(x) => x.as_str(),
                None => None,
            };
            let val = match entries_get(es, "value") {
                Some(x) => x.as_str(),
                None => None,
            };
            let e = match entries_get(es, "enabled") {
                Some(x) => x.as_bool(),
                None => None,
            };
            match (k, val, e) {
                (Some(k), Some(val), Some(e)) => Some(KeyValuePair { key: k.clone(), value: val.clone(), enabled: e }),
                _ => None,
            }
        },
        DataValue::List(xs) => {
            proof {
                crate::data::lemma_data_models_index(xs@);
            }
            if xs.len() == 3 {
                match (&xs[0], &xs[1], &xs[2]) {
                    (DataValue::Str(k), DataValue::Str(val), DataValue::Bool(e)) => Some(
                        KeyValuePair { key: k.clone(), value: val.clone(), enabled: *e },
                    ),
                    _ => None,
                }
            } else {
                None
            }
        },
        _ => None,
    }
}

/// The collection variables kept in a root document; none when they are
/// absent or malformed.
pub fn collection_vars(file: &OpenCollectionFile) -> (r: Vec<KeyValuePair>)
    ensures
        pair_views(r@) == doc_vars(map_get(entry_models(file.extra@), vars_key())),
{
    match entries_get(&file.extra, "x-broquest-vars") {
        Some(DataValue::List(xs)) => {
            proof {
                crate::data::lemma_data_models_index(xs@);
            }
            let ghost xm = crate::data::data_models(xs@);
            let mut out: Vec<KeyValuePair> = Vec::new();
            let mut i: usize = 0;
            while i < xs.len()
                invariant
                    i <= xs.len(),
                    xm == crate::data::data_models(xs@),
                    xm.len() == xs@.len(),
                    forall|j: int| 0 <= j < xs@.len() ==> #[trigger] xm[j] == xs@[j]@,
                    out@.len() == i,
                    forall|j: int| 0 <= j < i ==> (#[trigger] doc_pair(xm[j])) is Some,
                    forall|j: int| 0 <= j < i ==> doc_pair(xm[j]) == Some(#[trigger] pair_views(out@)[j]),
                    map_get(entry_models(file.extra@), vars_key()) == Some(DataModel::List(xm)),
                decreases xs.len() - i,
            {
                assert(xm[i as int] == xs@[i as int]@);
                match doc_pair_exec(&xs[i]) {
                    Some(p) => {
                        let ghost before = out@;
                        out.push(p);
                        assert(pair_views(out@)[i as int] == (p.key@, p.value@, p.enabled));
                        assert forall|j: int| 0 <= j < i + 1 implies doc_pair(xm[j]) == Some(
                            #[trigger] pair_views(out@)[j],
                        ) by {
                            if j < i {
                                assert(out@[j] == before[j]);
                                assert(pair_views(out@)[j] == pair_views(before)[j]);
                            }
                        }
                    },
                    None => {
                        assert(map_get(entry_models(file.extra@), vars_key()) == Some(DataModel::List(xm)));
                        assert(doc_pair(xm[i as int]) is None);
                        let none: Vec<KeyValuePair> = Vec::new();
                        assert(pair_views(none@) =~= Seq::empty());
                        return none;
                    },
                }
                i = i + 1;
            }
            assert(map_get(entry_models(file.extra@), vars_key()) == Some(DataModel::List(xm)));
            assert(pair_views(out@) =~= xm.map_values(|x: DataModel| doc_pair(x)->0));
            out
        },
        _ => {
            let out: Vec<KeyValuePair> = Vec::new();
            assert(pair_views(out@) =~= Seq::empty());
            out
        },
    }
}

/// How a collection variable is stored: `{key, value, enabled}`.
pub open spec fn pair_doc(p: (Seq<char>, Seq<char>, bool)) -> DataModel {
    DataModel::Mapping(
        seq![
            (DataModel::Str("key"@), DataModel::Str(p.0)),
            (DataModel::Str("value"@), DataModel::Str(p.1)),
            (DataModel::Str("enabled"@), DataModel::Bool(p.2)),
        ],
    )
}

/// The stored value of collection variables: none when there are none.
pub open spec fn vars_doc(ps: Seq<(Seq<char>, Seq<char>, bool)>) -> Option<DataModel> {
    if ps.len() == 0 {
        None
    } else {
        Some(DataModel::List(ps.map_values(|p: (Seq<char>, Seq<char>, bool)| pair_doc(p))))
    }
}

/// Stores collection variables as a value.
pub fn vars_to_yaml(vars: &[KeyValuePair]) -> (r: Option<DataValue>)
    ensures
        opt_model(r) == vars_doc(pair_views(vars@)),
{
    if vars.len() == 0 {
        return None;
    }
    let mut out: Vec<DataValue> = Vec::new();
    let mut i: usize = 0;
    while i < vars.len()
        invariant
            i <= vars.len(),
            value_models(out@) == pair_views(vars@).take(i as int).map_values(
                |p: (Seq<char>, Seq<char>, bool)| pair_doc(p),
            ),
        decreases vars.len() - i,
    {
        let p = &vars[i];
        let mut es: Vec<(DataValue, DataValue)> = Vec::new();
        es.push((DataValue::text("key"), DataValue::Str(p.key.clone())));
        es.push((DataValue::text("value"), DataValue::Str(p.value.clone())));
        es.push((DataValue::text("enabled"), DataValue::Bool(p.enabled)));
        let d = DataValue::Mapping(es);
        proof {
            lemma_entry_models_index(es@);
            assert(entry_models(es@) =~= seq![
                (DataModel::Str("key"@), DataModel::Str(p.key@)),
                (DataModel::Str("value"@), DataModel::Str(p.value@)),
                (DataModel::Str("enabled"@), DataModel::Bool(p.enabled)),
            ]);
        }
        let ghost before = out@;
        out.push(d);
        assert(value_models(out@) =~= value_models(before).push(d@));
        assert(pair_views(vars@).take(i + 1) =~= pair_views(vars@).take(i as int).push(pair_views(vars@)[i as int]));
        i = i + 1;
    }
    assert(pair_views(vars@).take(vars@.len() as int) =~= pair_views(vars@));
    proof {
        crate::opencollection::lemma_value_models(out@);
    }
    Some(DataValue::List(out))
}

// ---------------------------------------------------------------------------
// Root documents for writing
// ---------------------------------------------------------------------------

/// The entries of a root document's unmodeled fields with the collection
/// variables stored, or their key removed when there are none.
pub open spec fn extra_with_vars(es: Seq<(DataModel, DataModel)>, vars: Seq<(Seq<char>, Seq<char>, bool)>) -> Seq<
    (DataModel, DataModel),
> {
    match vars_doc(vars) {
        Some(d) => map_insert(es, vars_key(), d),
        None => map_swap_remove(es, vars_key()),
    }
}

/// Stores collection variables in a root document's unmodeled fields.
pub fn apply_collection_vars(file: &mut OpenCollectionFile, vars: &[KeyValuePair])
    ensures
        entry_models(final(file).extra@) == extra_with_vars(entry_models(old(file).extra@), pair_views(vars@)),
        final(file).opencollection == old(file).opencollection,
        final(file).info == old(file).info,
        final(file).config == old(file).config,
        final(file).request == old(file).request,
        final(file).items == old(file).items,
        final(file).docs == old(file).docs,
        final(file).bundled == old(file).bundled,
{
    match vars_to_yaml(vars) {
        Some(v) => {
            mapping_insert(&mut file.extra, "x-broquest-vars", v);
        },
        None => {
            mapping_swap_remove(&mut file.extra, "x-broquest-vars");
        },
    }
}

/// The documentation a root document gets: a non-empty markdown text
/// replaces it; otherwise what it had stays.
pub open spec fn docs_written(old_docs: Option<DataModel>, docs: Option<Seq<char>>) -> Option<DataModel> {
    match docs {
        Some(t) => if t.len() > 0 {
            Some(DataModel::Str(t))
        } else {
            old_docs
        },
        None => old_docs,
    }
}

/// Writes collection documentation into a root document.
pub fn apply_docs(file: &mut OpenCollectionFile, docs: Option<&str>)
    ensures
        opt_model(final(file).docs) == docs_written(
            opt_model(old(file).docs),
            match docs {
                Some(t) => Some(t@),
                None => None,
            },
        ),
        final(file).opencollection == old(file).opencollection,
        final(file).info == old(file).info,
        final(file).config == old(file).config,
        final(file).request == old(file).request,
        final(file).items == old(file).items,
        final(file).bundled == old(file).bundled,
        final(file).extra == old(file).extra,
{
    match docs {
        Some(text) => {
            if !text.is_empty() {
                file.docs = Some(DataValue::text(text));
            }
        },
        None => {},
    }
}

/// A root document with nothing but the format version `1.0.0`.
pub fn default_file() -> (r: OpenCollectionFile)
    ensures
        r.opencollection@ == "1.0.0"@,
        r.info.name@.len() == 0,
        r.info.version is None,
        r.info.extra@.len() == 0,
        r.config is None,
        r.request is None,
        r.items@.len() == 0,
        r.docs is None,
        r.bundled is None,
        r.extra@.len() == 0,
{
    OpenCollectionFile {
        opencollection: "1.0.0".to_string(),
        info: OcInfo { name: String::new(), version: None, extra: Vec::new() },
        config: None,
        request: None,
        items: Vec::new(),
        docs: None,
        bundled: None,
        extra: Vec::new(),
    }
}

/// A copy of the parts of a root document that writing keeps, with the given
/// items and `config` block.
fn file_base(base: Option<&OpenCollectionFile>, items: Vec<OcItem>, config: Option<OcConfig>) -> (r: OpenCollectionFile)
    ensures
        r.items == items,
        r.config == config,
        match base {
            Some(b) => {
                &&& r.opencollection@ == b.opencollection@
                &&& r.info.name@ == b.info.name@
                &&& opt_chars(r.info.version) == opt_chars(b.info.version)
                &&& entry_models(r.info.extra@) == entry_models(b.info.extra@)
                &&& opt_model(r.request) == opt_model(b.request)
                &&& opt_model(r.docs) == opt_model(b.docs)
                &&& r.bundled == b.bundled
                &&& entry_models(r.extra@) == entry_models(b.extra@)
            },
            None => {
                &&& r.opencollection@ == "1.0.0"@
                &&& r.info.name@.len() == 0
                &&& r.info.version is None
                &&& r.info.extra@.len() == 0
                &&& r.request is None
                &&& r.docs is None
                &&& r.bundled is None
                &&& r.extra@.len() == 0
            },
        },
{
    match base {
        Some(b) => OpenCollectionFile {
            opencollection: b.opencollection.clone(),
            info: OcInfo {
                name: b.info.name.clone(),
                version: crate::domain::opt_text_copy(&b.info.version),
                extra: entries_duplicate(&b.info.extra),
            },
            config,
            request: opt_duplicate(&b.request),
            items,
            docs: opt_duplicate(&b.docs),
            bundled: b.bundled,
            extra: entries_duplicate(&b.extra),
        },
        None => {
            let mut f = default_file();
            f.items = items;
            f.config = config;
            f
        },
    }
}

/// What assembling a root document over a base document gives: the name, the
/// base's version (else the given one), the documentation as `docs_written`
/// gives it, the collection variables stored as `extra_with_vars` gives them,
/// and the base's other fields.
pub open spec fn root_written(
    base: Option<OpenCollectionFile>,
    name: Seq<char>,
    version: Seq<char>,
    docs: Option<Seq<char>>,
    vars: Seq<(Seq<char>, Seq<char>, bool)>,
    r: OpenCollectionFile,
) -> bool {
    &&& r.info.name@ == name
    &&& match base {
        Some(b) => {
            &&& r.opencollection@ == b.opencollection@
            &&& opt_chars(r.info.version) == match b.info.version {
                Some(v) => Some(v@),
                None => Some(version),
            }
            &&& entry_models(r.info.extra@) == entry_models(b.info.extra@)
            &&& opt_model(r.request) == opt_model(b.request)
            &&& opt_model(r.docs) == docs_written(opt_model(b.docs), docs)
            &&& entry_models(r.extra@) == extra_with_vars(entry_models(b.extra@), vars)
        },
        None => {
            &&& r.opencollection@ == "1.0.0"@
            &&& opt_chars(r.info.version) == Some(version)
            &&& r.info.extra@.len() == 0
            &&& r.request is None
            &&& opt_model(r.docs) == docs_written(None, docs)
            &&& entry_models(r.extra@) == extra_with_vars(Seq::empty(), vars)
        },
    }
}

fn finish_root(file: &mut OpenCollectionFile, name: &str, version: &str, docs: Option<&str>, vars: &[KeyValuePair])
    ensures
        final(file).info.name@ == name@,
        opt_chars(final(file).info.version) == match old(file).info.version {
            Some(v) => Some(v@),
            None => Some(version@),
        },
        final(file).info.extra == old(file).info.extra,
        final(file).opencollection == old(file).opencollection,
        final(file).config == old(file).config,
        final(file).request == old(file).request,
        final(file).items == old(file).items,
        final(file).bundled == old(file).bundled,
        opt_model(final(file).docs) == docs_written(
            opt_model(old(file).docs),
            match docs {
                Some(t) => Some(t@),
                None => None,
            },
        ),
        entry_models(final(file).extra@) == extra_with_vars(entry_models(old(file).extra@), pair_views(vars@)),
{
    file.info.name = name.to_string();
    if file.info.version.is_none() {
        file.info.version = Some(version.to_string());
    }
    apply_docs(file, docs);
    apply_collection_vars(file, vars);
}

/// Assembles a bundled root document: the given items and environments,
/// over the base document so that its unmodeled fields stay.
pub fn assemble_bundled_file(
    base: Option<&OpenCollectionFile>,
    name: &str,
    version: &str,
    docs: Option<&str>,
    items: Vec<OcItem>,
    environments: Vec<OcEnvironment>,
    vars: &[KeyValuePair],
) -> (r: OpenCollectionFile)
    ensures
        root_written(
            match base {
                Some(b) => Some(*b),
                None => None,
            },
            name@,
            version@,
            match docs {
                Some(t) => Some(t@),
                None => None,
            },
            pair_views(vars@),
            r,
        ),
        r.bundled == Some(true),
        r.items == items,
        r.config matches Some(c) && c.environments == environments && entry_models(c.extra@) == match base {
            Some(b) => match b.config {
                Some(bc) => entry_models(bc.extra@),
                None => Seq::empty(),
            },
            None => Seq::empty(),
        },
{
    let config_extra = match base {
        Some(b) => match &b.config {
            Some(c) => entries_duplicate(&c.extra),
            None => Vec::new(),
        },
        None => Vec::new(),
    };
    let config = OcConfig { environments, extra: config_extra };
    let mut file = file_base(base, items, Some(config));
    file.bundled = Some(true);
    finish_root(&mut file, name, version, docs, vars);
    file
}

/// Builds the root document of a collection kept as a directory tree: no
/// items and no environments in it (they live in files of their own), over
/// the base document so that its unmodeled fields stay.
pub fn build_unbundled_root(
    base: Option<&OpenCollectionFile>,
    name: &str,
    version: &str,
    docs: Option<&str>,
    vars: &[KeyValuePair],
) -> (r: OpenCollectionFile)
    ensures
        root_written(
            match base {
                Some(b) => Some(*b),
                None => None,
            },
            name@,
            version@,
            match docs {
                Some(t) => Some(t@),
                None => None,
            },
            pair_views(vars@),
            r,
        ),
        r.bundled == Some(false),
        r.items@.len() == 0,
        match base {
            Some(b) => match b.config {
                Some(bc) => r.config matches Some(c) && c.environments@.len() == 0 && entry_models(c.extra@)
                    == entry_models(bc.extra@),
                None => r.config is None,
            },
            None => r.config is None,
        },
{
    let config = match base {
        Some(b) => match &b.config {
            Some(c) => Some(OcConfig { environments: Vec::new(), extra: entries_duplicate(&c.extra) }),
            None => None,
        },
        None => None,
    };
    let mut file = file_base(base, Vec::new(), config);
    file.bundled = Some(false);
    finish_root(&mut file, name, version, docs, vars);
    file
}

// ---------------------------------------------------------------------------
// Folder items
// ---------------------------------------------------------------------------

/// An item with nothing in it.
pub fn new_folder_item() -> (r: OcItem)
    ensures
        r.info is None,
        r.script_file_type is None,
        r.http is None,
        r.graphql is None,
        r.items is None,
        r.runtime is None,
        r.settings is None,
        r.examples is None,
        r.docs is None,
        r.script is None,
        r.extra@.len() == 0,
{
    crate::oc_merge::new_http_item()
}

/// `r` is a folder item with a name written over a source item (or over an
/// empty item): `info` with the name and type `folder` (the source `info`'s
/// other fields kept), every other field but the children as in the source.
pub open spec fn folder_written(src: Option<OcItem>, name: Seq<char>, r: OcItem) -> bool {
    &&& r.info matches Some(i) && i.name@ == name && i.item_type@ == "folder"@ && match src {
        Some(s) => match s.info {
            Some(b) => opt_value_same(i.description, b.description) && opt_value_same(i.seq, b.seq)
                && opt_value_same(i.tags, b.tags) && entries_same(i.extra, b.extra),
            None => i.description is None && i.seq is None && i.tags is None && i.extra@.len() == 0,
        },
        None => i.description is None && i.seq is None && i.tags is None && i.extra@.len() == 0,
    }
    &&& match src {
        Some(s) => {
            &&& opt_text_same(r.script_file_type, s.script_file_type)
            &&& opt_http_same(r.http, s.http)
            &&& opt_value_same(r.graphql, s.graphql)
            &&& opt_runtime_same(r.runtime, s.runtime)
            &&& opt_value_same(r.settings, s.settings)
            &&& opt_value_same(r.examples, s.examples)
            &&& opt_value_same(r.docs, s.docs)
            &&& opt_text_same(r.script, s.script)
            &&& entries_same(r.extra, s.extra)
        },
        None => {
            &&& r.script_file_type is None
            &&& r.http is None
            &&& r.graphql is None
            &&& r.runtime is None
            &&& r.settings is None
            &&& r.examples is None
            &&& r.docs is None
            &&& r.script is None
            &&& r.extra@.len() == 0
        },
    }
}

/// Builds a folder's own item: its name over the source item, no children
/// (a folder kept as a directory has its requests in files of their own).
pub fn build_folder_config(source: Option<&OcItem>, name: &str) -> (r: OcItem)
    ensures
        folder_written(
            match source {
                Some(s) => Some(*s),
                None => None,
            },
            name@,
            r,
        ),
        r.items is None,
{
    match source {
        Some(src) => {
            let info = match &src.info {
                Some(i) => OcItemInfo {
                    name: name.to_string(),
                    item_type: "folder".to_string(),
                    description: opt_duplicate(&i.description),
                    seq: opt_duplicate(&i.seq),
                    tags: opt_duplicate(&i.tags),
                    extra: entries_duplicate(&i.extra),
                },
                None => OcItemInfo {
                    name: name.to_string(),
                    item_type: "folder".to_string(),
                    description: None,
                    seq: None,
                    tags: None,
                    extra: Vec::new(),
                },
            };
            OcItem {
                info: Some(info),
                script_file_type: crate::domain::opt_text_copy(&src.script_file_type),
                http: match &src.http {
                    Some(h) => Some(h.duplicate()),
                    None => None,
                },
                graphql: opt_duplicate(&src.graphql),
                items: None,
                runtime: match &src.runtime {
                    Some(rt) => Some(rt.duplicate()),
                    None => None,
                },
                settings: opt_duplicate(&src.settings),
                examples: opt_duplicate(&src.examples),
                docs: opt_duplicate(&src.docs),
                script: crate::domain::opt_text_copy(&src.script),
                extra: entries_duplicate(&src.extra),
            }
        },
        None => {
            let mut item = new_folder_item();
            item.info = Some(
                OcItemInfo {
                    name: name.to_string(),
                    item_type: "folder".to_string(),
                    description: None,
                    seq: None,
                    tags: None,
                    extra: Vec::new(),
                },
            );
            item
        },
    }
}

/// Builds a folder item of a bundled document: its own item as
/// `build_folder_config` gives it, with the given children.
pub fn build_folder_item(source: Option<&OcItem>, name: &str, children: Vec<OcItem>) -> (r: OcItem)
    ensures
        folder_written(
            match source {
                Some(s) => Some(*s),
                None => None,
            },
            name@,
            r,
        ),
        r.items == Some(children),
{
    let mut item = build_folder_config(source, name);
    item.items = Some(children);
    item
}

// ---------------------------------------------------------------------------
// Reading a bundled collection
// ---------------------------------------------------------------------------

/// `ls` are the requests read from `items`, one for each, with copies of the
/// items.
pub open spec fn loaded_from(ls: Seq<LoadedRequest>, items: Seq<OcItem>) -> bool {
    &&& ls.len() == items.len()
    &&& forall|i: int|
        0 <= i < ls.len() ==> item_loads_as(items[i], #[trigger] ls[i].request) && item_same(ls[i].source, items[i])
}

/// Reads a request item together with a copy of it; `None` when the item
/// has no request block.
pub fn loaded_request(item: &OcItem) -> (r: Option<LoadedRequest>)
    ensures
        match r {
            Some(l) => item_loads_as(*item, l.request) && item_same(l.source, *item),
            None => item.http is None,
        },
{
    match oc_item_to_request(item) {
        Some(request) => Some(LoadedRequest { request, source: item.duplicate() }),
        None => None,
    }
}

/// Reads an environment together with a copy of it.
pub fn loaded_env(env: &OcEnvironment) -> (r: LoadedEnv)
    ensures
        env_reads_as(*env, r.toml),
        r.toml.names_distinct(),
        env_same(r.source, *env),
{
    LoadedEnv { toml: oc_environment_to_toml(env), source: env.duplicate() }
}

/// The request items an item stands for: itself when it is an HTTP item with
/// a request block, those of its children when it is a folder, none
/// otherwise.
pub open spec fn item_requests(item: OcItem) -> Seq<OcItem>
    decreases item,
{
    match item_kind(item) {
        ItemKind::Http => if item.http is Some {
            seq![item]
        } else {
            Seq::empty()
        },
        ItemKind::Folder => match item.items {
            Some(cs) => request_items(cs@),
            None => Seq::empty(),
        },
        ItemKind::Other => Seq::empty(),
    }
}

/// The request items of a list, depth first, in document order.
pub open spec fn request_items(items: Seq<OcItem>) -> Seq<OcItem>
    decreases items,
{
    if items.len() == 0 {
        Seq::empty()
    } else {
        item_requests(items[0]) + request_items(items.subrange(1, items.len() as int))
    }
}

/// The request items of a folder's children.
pub open spec fn folder_requests(folder: OcItem) -> Seq<OcItem> {
    match folder.items {
        Some(cs) => request_items(cs@),
        None => Seq::empty(),
    }
}

proof fn lemma_request_items_concat(a: Seq<OcItem>, b: Seq<OcItem>)
    ensures
        request_items(a + b) == request_items(a) + request_items(b),
    decreases a.len(),
{
    if a.len() == 0 {
        assert(a + b =~= b);
        assert(request_items(a) =~= Seq::<OcItem>::empty());
        assert(request_items(a) + request_items(b) =~= request_items(b));
    } else {
        let ab = a + b;
        let a1 = a.subrange(1, a.len() as int);
        assert(ab[0] == a[0]);
        assert(ab.subrange(1, ab.len() as int) =~= a1 + b);
        lemma_request_items_concat(a1, b);
        assert(request_items(ab) =~= item_requests(a[0]) + (request_items(a1) + request_items(b)));
        assert(request_items(a) == item_requests(a[0]) + request_items(a1));
        assert(item_requests(a[0]) + (request_items(a1) + request_items(b)) =~= (item_requests(a[0]) + request_items(
            a1,
        )) + request_items(b));
    }
}

proof fn lemma_request_items_take(items: Seq<OcItem>, i: int)
    requires
        0 <= i < items.len(),
    ensures
        request_items(items.subrange(0, i + 1)) == request_items(items.subrange(0, i)) + item_requests(items[i]),
{
    let single = seq![items[i]];
    assert(items.subrange(0, i + 1) =~= items.subrange(0, i) + single);
    lemma_request_items_concat(items.subrange(0, i), single);
    assert(single[0] == items[i]);
    assert(single.subrange(1, 1) =~= Seq::<OcItem>::empty());
    assert(request_items(single.subrange(1, 1)) =~= Seq::<OcItem>::empty());
    assert(item_requests(items[i]) + Seq::<OcItem>::empty() =~= item_requests(items[i]));
    assert(request_items(single) =~= item_requests(items[i]));
}

proof fn lemma_loaded_from_concat(l1: Seq<LoadedRequest>, i1: Seq<OcItem>, l2: Seq<LoadedRequest>, i2: Seq<OcItem>)
    requires
        loaded_from(l1, i1),
        loaded_from(l2, i2),
    ensures
        loaded_from(l1 + l2, i1 + i2),
{
    assert forall|i: int| 0 <= i < (l1 + l2).len() implies item_loads_as((i1 + i2)[i], #[trigger] (l1 + l2)[i].request)
        && item_same((l1 + l2)[i].source, (i1 + i2)[i]) by {
        if i < l1.len() {
            assert((l1 + l2)[i] == l1[i]);
            assert((i1 + i2)[i] == i1[i]);
        } else {
            assert((l1 + l2)[i] == l2[i - l1.len()]);
            assert((i1 + i2)[i] == i2[i - l1.len()]);
        }
    }
}

/// Collects the requests under a folder, nested folders flattened into it.
fn collect_folder_requests(folder: &OcItem, out: &mut Vec<LoadedRequest>)
    ensures
        final(out)@.subrange(0, old(out)@.len() as int) == old(out)@,
        final(out)@.len() >= old(out)@.len(),
        loaded_from(final(out)@.subrange(old(out)@.len() as int, final(out)@.len() as int), folder_requests(*folder)),
    decreases folder,
{
    let ghost start = out@;
    match &folder.items {
        Some(children) => {
            let ghost cs = children@;
            let mut i: usize = 0;
            assert(out@.subrange(0, start.len() as int) =~= start);
            assert(out@.subrange(start.len() as int, out@.len() as int) =~= Seq::<LoadedRequest>::empty());
            assert(request_items(cs.subrange(0, 0)) =~= Seq::<OcItem>::empty());
            while i < children.len()
                invariant
                    i <= children.len(),
                    cs == children@,
                    folder.items == Some(*children),
                    out@.len() >= start.len(),
                    out@.subrange(0, start.len() as int) == start,
                    loaded_from(out@.subrange(start.len() as int, out@.len() as int), request_items(cs.subrange(0, i as int))),
                decreases children.len() - i,
            {
                proof {
                    lemma_request_items_take(cs, i as int);
                }
                let child = &children[i];
                let ghost before = out@;
                let ghost seg = before.subrange(start.len() as int, before.len() as int);
                match item_type(child) {
                    ItemKind::Http => {
                        match loaded_request(child) {
                            Some(l) => {
                                out.push(l);
                                proof {
                                    assert(item_requests(*child) =~= seq![*child]);
                                    assert(out@.subrange(start.len() as int, out@.len() as int) =~= seg + seq![l]);
                                    lemma_loaded_from_concat(seg, request_items(cs.subrange(0, i as int)), seq![l], seq![*child]);
                                }
                            },
                            None => {
                                assert(item_requests(*child) =~= Seq::<OcItem>::empty());
                                assert(request_items(cs.subrange(0, i as int)) + Seq::<OcItem>::empty() =~= request_items(
                                    cs.subrange(0, i as int),
                                ));
                            },
                        }
                    },
                    ItemKind::Folder => {
                        proof {
                            vstd::std_specs::vec::axiom_vec_index_decreases(*children, i as int);
                            assert(decreases_to!(*folder => folder.items));
                            assert(decreases_to!(folder.items => folder.items->0));
                            assert(decreases_to!(*children => children[i as int]));
                            assert(decreases_to!(*folder => children[i as int]));
                        }
                        collect_folder_requests(child, out);
                        proof {
                            assert(item_requests(*child) == folder_requests(*child));
                            assert(out@.subrange(0, before.len() as int) == before);
                            assert(out@.subrange(start.len() as int, out@.len() as int) =~= seg + out@.subrange(
                                before.len() as int,
                                out@.len() as int,
                            )) by {
                                assert forall|k: int| start.len() <= k < before.len() implies out@[k] == before[k] by {
                                    assert(out@.subrange(0, before.len() as int)[k] == out@[k]);
                                }
                            }
                            lemma_loaded_from_concat(
                                seg,
                                request_items(cs.subrange(0, i as int)),
                                out@.subrange(before.len() as int, out@.len() as int),
                                folder_requests(*child),
                            );
                            assert forall|k: int| 0 <= k < start.len() implies out@[k] == start[k] by {
                                assert(out@.subrange(0, before.len() as int)[k] == out@[k]);
                                assert(before.subrange(0, start.len() as int)[k] == before[k]);
                            }
                            assert(out@.subrange(0, start.len() as int) =~= start);
                        }
                    },
                    ItemKind::Other => {
                        assert(item_requests(*child) =~= Seq::<OcItem>::empty());
                        assert(request_items(cs.subrange(0, i as int)) + Seq::<OcItem>::empty() =~= request_items(
                            cs.subrange(0, i as int),
                        ));
                    },
                }
                i = i + 1;
            }
            assert(cs.subrange(0, cs.len() as int) =~= cs);
        },
        None => {
            assert(out@.subrange(0, start.len() as int) =~= start);
            assert(out@.subrange(start.len() as int, out@.len() as int) =~= Seq::<LoadedRequest>::empty());
        },
    }
}

/// The name, version (`1.0.0` when it has none) and documentation of a root
/// document.
pub fn collection_common(file: &OpenCollectionFile) -> (r: (String, String, Option<String>))
    ensures
        r.0@ == file.info.name@,
        r.1@ == match file.info.version {
            Some(v) => v@,
            None => "1.0.0"@,
        },
        opt_chars(r.2) == match file.docs {
            Some(d) => docs_markdown(d@),
            None => None,
        },
{
    let name = file.info.name.clone();
    let version = match &file.info.version {
        Some(v) => v.clone(),
        None => "1.0.0".to_string(),
    };
    let docs = match &file.docs {
        Some(d) => docs_value_to_markdown(d),
        None => None,
    };
    (name, version, docs)
}

/// The top-level HTTP items with a request block, in order.
pub open spec fn top_requests(items: Seq<OcItem>) -> Seq<OcItem>
    decreases items.len(),
{
    if items.len() == 0 {
        Seq::empty()
    } else {
        let prev = top_requests(items.drop_last());
        if item_kind(items.last()) == ItemKind::Http && items.last().http is Some {
            prev.push(items.last())
        } else {
            prev
        }
    }
}

/// The top-level folders, in order.
pub open spec fn top_folders(items: Seq<OcItem>) -> Seq<OcItem>
    decreases items.len(),
{
    if items.len() == 0 {
        Seq::empty()
    } else {
        let prev = top_folders(items.drop_last());
        if item_kind(items.last()) == ItemKind::Folder {
            prev.push(items.last())
        } else {
            prev
        }
    }
}

/// `g` is the group read from a folder: the folder's name, a copy of it, and
/// its requests, nested folders flattened.
pub open spec fn group_read(g: LoadedGroup, folder: OcItem) -> bool {
    &&& g.name@ == item_name(folder)
    &&& g.source matches Some(s) && item_same(s, folder)
    &&& loaded_from(g.requests@, folder_requests(folder))
}

/// The environments of a root document's `config` block.
pub open spec fn config_envs(file: OpenCollectionFile) -> Seq<OcEnvironment> {
    match file.config {
        Some(c) => c.environments@,
        None => Seq::empty(),
    }
}

/// `r` is what a bundled root document reads as.
pub open spec fn collection_read(file: OpenCollectionFile, r: LoadedCollection) -> bool {
    &&& r.file == file
    &&& r.name@ == file.info.name@
    &&& r.version@ == match file.info.version {
        Some(v) => v@,
        None => "1.0.0"@,
    }
    &&& opt_chars(r.docs) == match file.docs {
        Some(d) => docs_markdown(d@),
        None => None,
    }
    &&& pair_views(r.vars@) == doc_vars(map_get(entry_models(file.extra@), vars_key()))
    &&& r.environments@.len() == config_envs(file).len()
    &&& forall|i: int|
        0 <= i < r.environments@.len() ==> env_reads_as(config_envs(file)[i], #[trigger] r.environments@[i].toml)
            && r.environments@[i].toml.names_distinct() && env_same(r.environments@[i].source, config_envs(file)[i])
    &&& loaded_from(r.root_requests@, top_requests(file.items@))
    &&& r.groups@.len() == top_folders(file.items@).len()
    &&& forall|i: int| 0 <= i < r.groups@.len() ==> group_read(#[trigger] r.groups@[i], top_folders(file.items@)[i])
}

fn loaded_envs(envs: &Vec<OcEnvironment>) -> (r: Vec<LoadedEnv>)
    ensures
        r@.len() == envs@.len(),
        forall|i: int|
            0 <= i < r@.len() ==> env_reads_as(envs@[i], #[trigger] r@[i].toml) && r@[i].toml.names_distinct()
                && env_same(r@[i].source, envs@[i]),
{
    let mut out: Vec<LoadedEnv> = Vec::new();
    let mut i: usize = 0;
    while i < envs.len()
        invariant
            i <= envs.len(),
            out@.len() == i,
            forall|j: int|
                0 <= j < i ==> env_reads_as(envs@[j], #[trigger] out@[j].toml) && out@[j].toml.names_distinct()
                    && env_same(out@[j].source, envs@[j]),
        decreases envs.len() - i,
    {
        out.push(loaded_env(&envs[i]));
        i = i + 1;
    }
    out
}

/// Reads a bundled root document: its environments, its top-level requests,
/// and a group for each top-level folder; items of other kinds are skipped
/// (they stay in the document).
pub fn decompose_bundled(file: OpenCollectionFile) -> (r: LoadedCollection)
    ensures
        collection_read(file, r),
{
    let (name, version, docs) = collection_common(&file);
    let vars = collection_vars(&file);
    let environments = match &file.config {
        Some(c) => loaded_envs(&c.environments),
        None => Vec::new(),
    };
    let mut root_requests: Vec<LoadedRequest> = Vec::new();
    let mut groups: Vec<LoadedGroup> = Vec::new();
    let ghost items = file.items@;
    let mut i: usize = 0;
    assert(root_requests@ =~= Seq::<LoadedRequest>::empty());
    while i < file.items.len()
        invariant
            i <= file.items.len(),
            items == file.items@,
            loaded_from(root_requests@, top_requests(items.take(i as int))),
            groups@.len() == top_folders(items.take(i as int)).len(),
            forall|j: int| 0 <= j < groups@.len() ==> group_read(#[trigger] groups@[j], top_folders(items.take(i as int))[j]),
        decreases file.items.len() - i,
    {
        assert(items.take(i + 1).drop_last() =~= items.take(i as int));
        assert(items.take(i + 1).last() == items[i as int]);
        let item = &file.items[i];
        match item_type(item) {
            ItemKind::Http => {
                match loaded_request(item) {
                    Some(l) => {
                        let ghost before = root_requests@;
                        root_requests.push(l);
                        proof {
                            lemma_loaded_from_concat(before, top_requests(items.take(i as int)), seq![l], seq![*item]);
                            assert(before + seq![l] =~= root_requests@);
                            assert(top_requests(items.take(i as int)) + seq![*item] =~= top_requests(items.take(i + 1)));
                        }
                    },
                    None => {},
                }
            },
            ItemKind::Folder => {
                let group_name = match &item.info {
                    Some(info) => info.name.clone(),
                    None => String::new(),
                };
                let mut requests: Vec<LoadedRequest> = Vec::new();
                collect_folder_requests(item, &mut requests);
                proof {
                    assert(requests@.subrange(0, requests@.len() as int) =~= requests@);
                }
                let ghost before = groups@;
                groups.push(LoadedGroup { name: group_name, source: Some(item.duplicate()), requests });
                proof {
                    assert(top_folders(items.take(i + 1)) == top_folders(items.take(i as int)).push(*item));
                    assert forall|j: int| 0 <= j < groups@.len() implies group_read(
                        #[trigger] groups@[j],
                        top_folders(items.take(i + 1))[j],
                    ) by {
                        if j < before.len() {
                            assert(groups@[j] == before[j]);
                        }
                    }
                }
            },
            ItemKind::Other => {},
        }
        i = i + 1;
    }
    assert(items.take(items.len() as int) =~= items);
    LoadedCollection { file, name, version, docs, environments, root_requests, groups, vars }
}

// ---------------------------------------------------------------------------
// Collections kept as directory trees
// ---------------------------------------------------------------------------

/// A file name of a request document in a collection kept as a directory
/// tree: a `.yml` or `.yaml` file other than the root document.
pub open spec fn request_file_name(name: Seq<char>) -> bool {
    &&& name != "opencollection.yml"@
    &&& name != "opencollection.yaml"@
    &&& (crate::text::ends_with(name, ".yml"@) || crate::text::ends_with(name, ".yaml"@))
}

/// Whether a file name is that of a request document.
pub fn is_request_file_name(name: &str) -> (r: bool)
    ensures
        r == request_file_name(name@),
{
    let c = crate::text::chars_of(name);
    !crate::text::chars_eq_str(c.as_slice(), "opencollection.yml") && !crate::text::chars_eq_str(
        c.as_slice(),
        "opencollection.yaml",
    ) && (crate::text::ends_with_str(c.as_slice(), ".yml") || crate::text::ends_with_str(c.as_slice(), ".yaml"))
}

/// The items with a request block, in order.
pub open spec fn with_http(items: Seq<OcItem>) -> Seq<OcItem>
    decreases items.len(),
{
    if items.len() == 0 {
        Seq::empty()
    } else {
        let prev = with_http(items.drop_last());
        if items.last().http is Some {
            prev.push(items.last())
        } else {
            prev
        }
    }
}

/// Reads the requests of request documents: each one with a request block.
pub fn loaded_requests(items: &Vec<OcItem>) -> (r: Vec<LoadedRequest>)
    ensures
        loaded_from(r@, with_http(items@)),
{
    let mut out: Vec<LoadedRequest> = Vec::new();
    let mut i: usize = 0;
    assert(out@ =~= Seq::<LoadedRequest>::empty());
    while i < items.len()
        invariant
            i <= items.len(),
            loaded_from(out@, with_http(items@.take(i as int))),
        decreases items.len() - i,
    {
        assert(items@.take(i + 1).drop_last() =~= items@.take(i as int));
        assert(items@.take(i + 1).last() == items@[i as int]);
        match loaded_request(&items[i]) {
            Some(l) => {
                let ghost before = out@;
                out.push(l);
                proof {
                    lemma_loaded_from_concat(before, with_http(items@.take(i as int)), seq![l], seq![items@[i as int]]);
                    assert(before + seq![l] =~= out@);
                    assert(with_http(items@.take(i as int)) + seq![items@[i as int]] =~= with_http(items@.take(i + 1)));
                }
            },
            None => {},
        }
        i = i + 1;
    }
    assert(items@.take(items@.len() as int) =~= items@);
    out
}

/// The group of a folder directory: named by its folder document, else by
/// the directory; with the requests of its request documents.
pub fn unbundled_group(source: Option<OcItem>, dir_name: &str, items: &Vec<OcItem>) -> (r: LoadedGroup)
    ensures
        r.name@ == match source {
            Some(s) => match s.info {
                Some(i) => i.name@,
                None => dir_name@,
            },
            None => dir_name@,
        },
        r.source == source,
        loaded_from(r.requests@, with_http(items@)),
{
    let name = match &source {
        Some(s) => match &s.info {
            Some(i) => i.name.clone(),
            None => dir_name.to_string(),
        },
        None => dir_name.to_string(),
    };
    LoadedGroup { name, source, requests: loaded_requests(items) }
}

/// Reads a collection kept as a directory tree, from its root document, its
/// environment documents, its root request documents and its folder groups.
pub fn decompose_unbundled(
    file: OpenCollectionFile,
    env_docs: &Vec<OcEnvironment>,
    root_items: &Vec<OcItem>,
    groups: Vec<LoadedGroup>,
) -> (r: LoadedCollection)
    ensures
        r.file == file,
        r.name@ == file.info.name@,
        r.version@ == match file.info.version {
            Some(v) => v@,
            None => "1.0.0"@,
        },
        opt_chars(r.docs) == match file.docs {
            Some(d) => docs_markdown(d@),
            None => None,
        },
        pair_views(r.vars@) == doc_vars(map_get(entry_models(file.extra@), vars_key())),
        r.environments@.len() == env_docs@.len(),
        forall|i: int|
            0 <= i < r.environments@.len() ==> env_reads_as(env_docs@[i], #[trigger] r.environments@[i].toml)
                && r.environments@[i].toml.names_distinct() && env_same(r.environments@[i].source, env_docs@[i]),
        loaded_from(r.root_requests@, with_http(root_items@)),
        r.groups == groups,
{
    let (name, version, docs) = collection_common(&file);
    let vars = collection_vars(&file);
    let environments = loaded_envs(env_docs);
    let root_requests = loaded_requests(root_items);
    LoadedCollection { file, name, version, docs, environments, root_requests, groups, vars }
}

} // verus!
