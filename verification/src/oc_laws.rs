//! What reading gives back of what writing wrote: a request written into an
//! OpenCollection item reads back as the same request.

use vstd::prelude::*;

use crate::data::{
    keys_unique, lemma_map_get_insert, lemma_map_get_swap_remove, lemma_map_insert_unique, map_get, map_insert,
    map_swap_remove, opt_model, DataModel,
};
use crate::collection_types::opt_chars;
use crate::domain::{auth_same, lemma_method_name_upper, method_name, request_same, AuthType, KeyValuePair, RequestData};
use crate::text::uppercase;
use crate::oc_merge::{
    http_written, item_written, request_doc_body, typed_body, written_body_type, named, opt_script, other_scripts, param_views, runtime_written, script_views, source_vars, typed, var_doc,
    var_named,
};
use crate::opencollection::{
    auth_doc, auth_from_doc, field_text, insert_texts, lemma_auth_from_doc_same,
    doc_body_content_type, doc_body_text, doc_headers, has_enabled_content_type, item_loads_as,
    lemma_pairs_same_views, loaded_headers, pair_views, OcItem,
    lemma_auth_same_equiv, last_script, loaded_auth, doc_params, runtime_var, runtime_vars, value_models, OcHttp,
    OcParam, OcRuntime, OcScript,
};

verus! {

/// An authentication that reads back as itself once written: every one but
/// an API key without a header name (read back with `X-API-Key`) and a kept
/// value that does not read as itself.
pub open spec fn auth_writable(a: AuthType) -> bool {
    match a {
        AuthType::Key(k) => k.header@.len() > 0,
        AuthType::Unsupported { raw, .. } => auth_from_doc(raw@, a),
        _ => true,
    }
}

/// A request block holds an authentication as writing leaves it.
pub open spec fn auth_held(http: OcHttp, a: AuthType) -> bool {
    &&& opt_model(http.auth) == auth_doc(a)
    &&& if a is OAuth2 || a is Jwt {
        http.broquest_auth matches Some(x) && auth_same(x, a)
    } else {
        http.broquest_auth is None
    }
}

proof fn lemma_two_fields(kind: Seq<char>, k1: Seq<char>, v1: Seq<char>, k2: Seq<char>, v2: Seq<char>, k: Seq<char>)
    requires
        k1 != k2,
        k1 != "type"@,
        k2 != "type"@,
    ensures
        ({
            let es = insert_texts(seq![(DataModel::Str("type"@), DataModel::Str(kind))], seq![(k1, v1), (k2, v2)]);
            map_get(es, k) == if k == k2 {
                Some(DataModel::Str(v2))
            } else if k == k1 {
                Some(DataModel::Str(v1))
            } else if k == "type"@ {
                Some(DataModel::Str(kind))
            } else {
                None
            }
        }),
{
    let base = seq![(DataModel::Str("type"@), DataModel::Str(kind))];
    let fields = seq![(k1, v1), (k2, v2)];
    assert(fields.drop_last() =~= seq![(k1, v1)]);
    assert(seq![(k1, v1)].drop_last() =~= Seq::<(Seq<char>, Seq<char>)>::empty());
    assert(insert_texts(base, Seq::<(Seq<char>, Seq<char>)>::empty()) == base);
    assert(insert_texts(base, seq![(k1, v1)].drop_last()) == base);
    assert(seq![(k1, v1)].last() == (k1, v1));
    let e1 = map_insert(base, k1, DataModel::Str(v1));
    assert(insert_texts(base, seq![(k1, v1)]) == e1);
    assert(insert_texts(base, fields) == map_insert(e1, k2, DataModel::Str(v2)));
    lemma_map_get_insert(e1, k2, DataModel::Str(v2), k);
    lemma_map_get_insert(base, k1, DataModel::Str(v1), k);
    assert(base.drop_first() =~= Seq::<(DataModel, DataModel)>::empty());
    assert(map_get(base.drop_first(), k) is None);
    assert(map_get(base, k) == if k == "type"@ {
        Some(DataModel::Str(kind))
    } else {
        None
    });
}

proof fn lemma_three_fields(
    kind: Seq<char>,
    k1: Seq<char>,
    v1: Seq<char>,
    k2: Seq<char>,
    v2: Seq<char>,
    k3: Seq<char>,
    v3: Seq<char>,
    k: Seq<char>,
)
    requires
        k1 != k2,
        k1 != k3,
        k2 != k3,
        k1 != "type"@,
        k2 != "type"@,
        k3 != "type"@,
    ensures
        ({
            let es = insert_texts(
                seq![(DataModel::Str("type"@), DataModel::Str(kind))],
                seq![(k1, v1), (k2, v2), (k3, v3)],
            );
            map_get(es, k) == if k == k3 {
                Some(DataModel::Str(v3))
            } else if k == k2 {
                Some(DataModel::Str(v2))
            } else if k == k1 {
                Some(DataModel::Str(v1))
            } else if k == "type"@ {
                Some(DataModel::Str(kind))
            } else {
                None
            }
        }),
{
    let base = seq![(DataModel::Str("type"@), DataModel::Str(kind))];
    let fields = seq![(k1, v1), (k2, v2), (k3, v3)];
    assert(fields.drop_last() =~= seq![(k1, v1), (k2, v2)]);
    let e2 = insert_texts(base, seq![(k1, v1), (k2, v2)]);
    assert(insert_texts(base, fields) == map_insert(e2, k3, DataModel::Str(v3)));
    lemma_map_get_insert(e2, k3, DataModel::Str(v3), k);
    lemma_two_fields(kind, k1, v1, k2, v2, k);
}

/// An authentication written into a request block reads back as itself,
/// for every authentication that `auth_writable` admits.
pub proof fn lemma_auth_roundtrip(a: AuthType, http: OcHttp, b: AuthType)
    requires
        auth_writable(a),
        auth_held(http, a),
        loaded_auth(http, b),
    ensures
        auth_same(a, b),
{
    reveal_strlit("type");
    reveal_strlit("username");
    reveal_strlit("password");
    reveal_strlit("key");
    reveal_strlit("value");
    reveal_strlit("placement");
    reveal_strlit("header");
    reveal_strlit("basic");
    reveal_strlit("digest");
    reveal_strlit("bearer");
    reveal_strlit("apikey");
    reveal_strlit("inherit");
    assert("type"@.len() == 4 && "username"@.len() == 8 && "password"@.len() == 8 && "key"@.len() == 3
        && "value"@.len() == 5 && "placement"@.len() == 9 && "basic"@.len() == 5 && "digest"@.len() == 6
        && "bearer"@.len() == 6 && "apikey"@.len() == 6);
    assert("username"@ != "password"@) by {
        assert("username"@[0] != "password"@[0]);
    }
    assert("digest"@ != "apikey"@) by {
        assert("digest"@[0] != "apikey"@[0]);
    }
    assert("bearer"@ != "apikey"@) by {
        assert("bearer"@[0] != "apikey"@[0]);
    }
    match a {
        AuthType::Basic(x) => {
            let es = insert_texts(
                seq![(DataModel::Str("type"@), DataModel::Str("basic"@))],
                seq![("username"@, x.username@), ("password"@, x.password@)],
            );
            lemma_two_fields("basic"@, "username"@, x.username@, "password"@, x.password@, "type"@);
            lemma_two_fields("basic"@, "username"@, x.username@, "password"@, x.password@, "username"@);
            lemma_two_fields("basic"@, "username"@, x.username@, "password"@, x.password@, "password"@);
            assert(field_text(es, "type"@) == "basic"@);
        },
        AuthType::Digest(x) => {
            let es = insert_texts(
                seq![(DataModel::Str("type"@), DataModel::Str("digest"@))],
                seq![("username"@, x.username@), ("password"@, x.password@)],
            );
            lemma_two_fields("digest"@, "username"@, x.username@, "password"@, x.password@, "type"@);
            lemma_two_fields("digest"@, "username"@, x.username@, "password"@, x.password@, "username"@);
            lemma_two_fields("digest"@, "username"@, x.username@, "password"@, x.password@, "password"@);
            assert(field_text(es, "type"@) == "digest"@);
            assert("digest"@ != "basic"@);
        },
        AuthType::Key(x) => {
            let es = insert_texts(
                seq![(DataModel::Str("type"@), DataModel::Str("apikey"@))],
                seq![("key"@, x.header@), ("value"@, x.value@), ("placement"@, "header"@)],
            );
            lemma_three_fields(
                "apikey"@,
                "key"@,
                x.header@,
                "value"@,
                x.value@,
                "placement"@,
                "header"@,
                "type"@,
            );
            lemma_three_fields(
                "apikey"@,
                "key"@,
                x.header@,
                "value"@,
                x.value@,
                "placement"@,
                "header"@,
                "key"@,
            );
            lemma_three_fields(
                "apikey"@,
                "key"@,
                x.header@,
                "value"@,
                x.value@,
                "placement"@,
                "header"@,
                "value"@,
            );
            lemma_three_fields(
                "apikey"@,
                "key"@,
                x.header@,
                "value"@,
                x.value@,
                "placement"@,
                "header"@,
                "placement"@,
            );
            assert(field_text(es, "type"@) == "apikey"@);
            assert("apikey"@ != "basic"@);
            assert("apikey"@ != "digest"@);
            assert("apikey"@ != "bearer"@);
        },
        AuthType::OAuth2(_) | AuthType::Jwt(_) => {
            let x = http.broquest_auth->0;
            lemma_auth_same_equiv(b, x, a);
            lemma_auth_same_equiv(a, b, x);
            lemma_auth_same_equiv(x, a, b);
        },
        AuthType::Unsupported { raw, .. } => {
            lemma_auth_from_doc_same(raw@, a, b);
        },
        _ => {},
    }
}

/// The request variables a runtime block holds.
pub open spec fn block_vars(r: Option<OcRuntime>) -> Seq<(Seq<char>, Seq<char>, bool)> {
    match r {
        Some(rt) => match rt.variables {
            Some(vs) => runtime_vars(value_models(vs@)),
            None => Seq::empty(),
        },
        None => Seq::empty(),
    }
}

/// Every mapping among document values has keys that occur once, as every
/// mapping read from a document has.
pub open spec fn mappings_unique(vs: Seq<DataModel>) -> bool {
    forall|i: int|
        0 <= i < vs.len() ==> match #[trigger] vs[i] {
            DataModel::Mapping(es) => keys_unique(es),
            _ => true,
        }
}

proof fn lemma_var_named_unique(src: Seq<DataModel>, name: Seq<char>)
    requires
        mappings_unique(src),
    ensures
        match var_named(src, name) {
            Some(es) => keys_unique(es),
            None => true,
        },
    decreases src.len(),
{
    if src.len() > 0 {
        let rest = src.drop_first();
        assert forall|i: int| 0 <= i < rest.len() implies match #[trigger] rest[i] {
            DataModel::Mapping(es) => keys_unique(es),
            _ => true,
        } by {
            assert(rest[i] == src[i + 1]);
        }
        lemma_var_named_unique(rest, name);
        assert(match src[0] {
            DataModel::Mapping(es) => keys_unique(es),
            _ => true,
        });
    }
}

/// A request variable written as a document variable reads back as itself.
proof fn lemma_var_doc_reads(src: Seq<DataModel>, v: (Seq<char>, Seq<char>, bool))
    requires
        mappings_unique(src),
    ensures
        runtime_var(var_doc(src, v)) == Some(v),
{
    reveal_strlit("name");
    reveal_strlit("value");
    reveal_strlit("disabled");
    assert("name"@.len() == 4 && "value"@.len() == 5 && "disabled"@.len() == 8);
    lemma_var_named_unique(src, v.0);
    let base = match var_named(src, v.0) {
        Some(es) => es,
        None => Seq::empty(),
    };
    assert(keys_unique(base));
    let e1 = map_insert(base, "name"@, DataModel::Str(v.0));
    let e2 = map_insert(e1, "value"@, DataModel::Str(v.1));
    lemma_map_insert_unique(base, "name"@, DataModel::Str(v.0));
    lemma_map_insert_unique(e1, "value"@, DataModel::Str(v.1));
    lemma_map_get_insert(base, "name"@, DataModel::Str(v.0), "name"@);
    lemma_map_get_insert(e1, "value"@, DataModel::Str(v.1), "name"@);
    lemma_map_get_insert(e1, "value"@, DataModel::Str(v.1), "value"@);
    if v.2 {
        let f = map_swap_remove(e2, "disabled"@);
        lemma_map_get_swap_remove(e2, "disabled"@, "name"@);
        lemma_map_get_swap_remove(e2, "disabled"@, "value"@);
        lemma_map_get_swap_remove(e2, "disabled"@, "disabled"@);
        assert(var_doc(src, v) == DataModel::Mapping(f));
    } else {
        let f = map_insert(e2, "disabled"@, DataModel::Bool(true));
        lemma_map_get_insert(e2, "disabled"@, DataModel::Bool(true), "name"@);
        lemma_map_get_insert(e2, "disabled"@, DataModel::Bool(true), "value"@);
        lemma_map_get_insert(e2, "disabled"@, DataModel::Bool(true), "disabled"@);
        assert(var_doc(src, v) == DataModel::Mapping(f));
    }
}

proof fn lemma_runtime_vars_docs(src: Seq<DataModel>, vs: Seq<(Seq<char>, Seq<char>, bool)>)
    requires
        mappings_unique(src),
    ensures
        runtime_vars(vs.map_values(|v: (Seq<char>, Seq<char>, bool)| var_doc(src, v))) == vs,
    decreases vs.len(),
{
    let m = vs.map_values(|v: (Seq<char>, Seq<char>, bool)| var_doc(src, v));
    if vs.len() == 0 {
        assert(m =~= Seq::<DataModel>::empty());
        assert(runtime_vars(m) =~= vs);
    } else {
        let rest = vs.drop_last();
        assert(m.drop_last() =~= rest.map_values(|v: (Seq<char>, Seq<char>, bool)| var_doc(src, v)));
        lemma_runtime_vars_docs(src, rest);
        lemma_var_doc_reads(src, vs.last());
        assert(m.last() == var_doc(src, vs.last()));
        assert(runtime_vars(m) =~= rest.push(vs.last()));
        assert(rest.push(vs.last()) =~= vs);
    }
}

/// Request variables written into a runtime block read back as the
/// variables that have a name, when the source block's variables are
/// mappings whose keys occur once.
pub proof fn lemma_vars_roundtrip(
    src: Option<OcRuntime>,
    pre: Option<Seq<char>>,
    post: Option<Seq<char>>,
    vars: Seq<(Seq<char>, Seq<char>, bool)>,
    r: Option<OcRuntime>,
)
    requires
        runtime_written(src, pre, post, vars, r),
        mappings_unique(source_vars(src)),
    ensures
        block_vars(r) == named(vars),
{
    if named(vars).len() > 0 {
        lemma_runtime_vars_docs(source_vars(src), named(vars));
    } else {
        assert(named(vars) =~= Seq::<(Seq<char>, Seq<char>, bool)>::empty());
    }
}

proof fn lemma_named_all(ps: Seq<(Seq<char>, Seq<char>, bool)>)
    requires
        forall|i: int| 0 <= i < ps.len() ==> (#[trigger] ps[i]).0.len() > 0,
    ensures
        named(ps) == ps,
    decreases ps.len(),
{
    if ps.len() > 0 {
        let rest = ps.drop_last();
        assert forall|i: int| 0 <= i < rest.len() implies (#[trigger] rest[i]).0.len() > 0 by {
            assert(rest[i] == ps[i]);
        }
        lemma_named_all(rest);
        assert(ps.last().0.len() > 0);
        assert(rest.push(ps.last()) =~= ps);
    }
}

proof fn lemma_doc_params_split(
    ps: Seq<OcParam>,
    a: Seq<(Seq<char>, Seq<char>, bool)>,
    b: Seq<(Seq<char>, Seq<char>, bool)>,
)
    requires
        param_views(ps) == typed(a, "query"@) + typed(b, "path"@),
    ensures
        doc_params(ps, false) == a,
        doc_params(ps, true) == b,
    decreases ps.len(),
{
    reveal_strlit("query");
    reveal_strlit("path");
    assert("query"@.len() == 5 && "path"@.len() == 4);
    if ps.len() == 0 {
        assert(param_views(ps).len() == 0);
        assert((typed(a, "query"@) + typed(b, "path"@)).len() == typed(a, "query"@).len() + typed(b, "path"@).len());
        assert(typed(a, "query"@).len() == 0);
        assert(a =~= Seq::<(Seq<char>, Seq<char>, bool)>::empty());
        assert(b =~= Seq::<(Seq<char>, Seq<char>, bool)>::empty());
    } else {
        let rest = ps.drop_last();
        let p = ps.last();
        assert(param_views(ps)[ps.len() - 1] == (p.name@, p.value@, p.param_type@, !p.disabled));
        assert(param_views(rest) =~= param_views(ps).drop_last());
        if b.len() > 0 {
            assert(typed(b, "path"@).drop_last() =~= typed(b.drop_last(), "path"@));
            assert((typed(a, "query"@) + typed(b, "path"@)).drop_last() =~= typed(a, "query"@) + typed(
                b.drop_last(),
                "path"@,
            ));
            assert(param_views(rest) =~= typed(a, "query"@) + typed(b.drop_last(), "path"@));
            lemma_doc_params_split(rest, a, b.drop_last());
            assert(p.param_type@ == "path"@);
            assert((p.name@, p.value@, !p.disabled) == b.last());
            assert(b.drop_last().push(b.last()) =~= b);
        } else {
            assert(typed(b, "path"@) =~= Seq::<(Seq<char>, Seq<char>, Seq<char>, bool)>::empty());
            assert(typed(a, "query"@) + typed(b, "path"@) =~= typed(a, "query"@));
            assert(typed(a, "query"@).drop_last() =~= typed(a.drop_last(), "query"@));
            assert(param_views(rest) =~= typed(a.drop_last(), "query"@) + typed(b, "path"@));
            lemma_doc_params_split(rest, a.drop_last(), b);
            assert(p.param_type@ == "query"@);
            assert((p.name@, p.value@, !p.disabled) == a.last());
            assert(a.drop_last().push(a.last()) =~= a);
        }
    }
}

/// The code of the last script of a type among script views.
pub open spec fn last_script_view(ss: Seq<(Seq<char>, Seq<char>, Seq<(DataModel, DataModel)>)>, t: Seq<char>) -> Option<
    Seq<char>,
>
    decreases ss.len(),
{
    if ss.len() == 0 {
        None
    } else if ss.last().0 == t {
        Some(ss.last().1)
    } else {
        last_script_view(ss.drop_last(), t)
    }
}

proof fn lemma_last_script_view(ss: Seq<OcScript>, t: Seq<char>)
    ensures
        last_script(ss, t) == last_script_view(script_views(ss), t),
    decreases ss.len(),
{
    if ss.len() > 0 {
        assert(script_views(ss).drop_last() =~= script_views(ss.drop_last()));
        lemma_last_script_view(ss.drop_last(), t);
    }
}

proof fn lemma_last_script_concat(
    a: Seq<(Seq<char>, Seq<char>, Seq<(DataModel, DataModel)>)>,
    b: Seq<(Seq<char>, Seq<char>, Seq<(DataModel, DataModel)>)>,
    t: Seq<char>,
)
    ensures
        last_script_view(a + b, t) == match last_script_view(b, t) {
            Some(c) => Some(c),
            None => last_script_view(a, t),
        },
    decreases b.len(),
{
    if b.len() == 0 {
        assert(a + b =~= a);
    } else {
        assert((a + b).drop_last() =~= a + b.drop_last());
        assert((a + b).last() == b.last());
        lemma_last_script_concat(a, b.drop_last(), t);
    }
}

proof fn lemma_other_scripts_none(ss: Seq<(Seq<char>, Seq<char>, Seq<(DataModel, DataModel)>)>, t: Seq<char>)
    requires
        t == "before-request"@ || t == "after-response"@,
    ensures
        last_script_view(other_scripts(ss), t) is None,
    decreases ss.len(),
{
    if ss.len() > 0 {
        lemma_other_scripts_none(ss.drop_last(), t);
        let prev = other_scripts(ss.drop_last());
        let x = ss.last();
        if !(x.0 == "before-request"@ || x.0 == "after-response"@) {
            assert(prev.push(x).drop_last() =~= prev);
            assert(prev.push(x).last() == x);
        }
    }
}

/// The scripts a written runtime block reads back as: the given ones.
proof fn lemma_scripts_roundtrip(
    src: Option<OcRuntime>,
    pre: Option<Seq<char>>,
    post: Option<Seq<char>>,
    vars: Seq<(Seq<char>, Seq<char>, bool)>,
    r: Option<OcRuntime>,
)
    requires
        runtime_written(src, pre, post, vars, r),
    ensures
        match r {
            Some(rt) => last_script(rt.scripts@, "before-request"@) == pre && last_script(
                rt.scripts@,
                "after-response"@,
            ) == post,
            None => pre is None && post is None,
        },
{
    reveal_strlit("before-request");
    reveal_strlit("after-response");
    assert("before-request"@ != "after-response"@) by {
        assert("before-request"@[0] != "after-response"@[0]);
    }
    let s = match src {
        Some(rt) => script_views(rt.scripts@),
        None => Seq::empty(),
    };
    let o = other_scripts(s);
    let p1 = opt_script("before-request"@, pre);
    let p2 = opt_script("after-response"@, post);
    lemma_other_scripts_none(s, "before-request"@);
    lemma_other_scripts_none(s, "after-response"@);
    lemma_last_script_concat(o + p1, p2, "before-request"@);
    lemma_last_script_concat(o + p1, p2, "after-response"@);
    lemma_last_script_concat(o, p1, "before-request"@);
    lemma_last_script_concat(o, p1, "after-response"@);
    let empty = Seq::<(Seq<char>, Seq<char>, Seq<(DataModel, DataModel)>)>::empty();
    assert(last_script_view(empty, "before-request"@) is None);
    assert(last_script_view(empty, "after-response"@) is None);
    match pre {
        Some(c) => {
            assert(p1.drop_last() =~= empty);
            assert(p1.last() == ("before-request"@, c, Seq::<(DataModel, DataModel)>::empty()));
            assert(last_script_view(p1, "before-request"@) == Some(c));
            assert(last_script_view(p1, "after-response"@) is None);
        },
        None => {
            assert(p1 =~= empty);
        },
    }
    match post {
        Some(c) => {
            assert(p2.drop_last() =~= empty);
            assert(p2.last() == ("after-response"@, c, Seq::<(DataModel, DataModel)>::empty()));
            assert(last_script_view(p2, "after-response"@) == Some(c));
            assert(last_script_view(p2, "before-request"@) is None);
        },
        None => {
            assert(p2 =~= empty);
        },
    }
    match r {
        Some(rt) => {
            lemma_last_script_view(rt.scripts@, "before-request"@);
            lemma_last_script_view(rt.scripts@, "after-response"@);
        },
        None => {},
    }
}

proof fn lemma_typed_body_reads(t: Seq<char>, body: Seq<char>)
    requires
        t == "json"@ || t == "xml"@ || t == "text"@,
    ensures
        doc_body_text(typed_body(t, DataModel::Str(body))) == body,
        doc_body_content_type(typed_body(t, DataModel::Str(body))) is Some,
{
    reveal_strlit("type");
    reveal_strlit("data");
    reveal_strlit("query");
    reveal_strlit("variables");
    reveal_strlit("json");
    reveal_strlit("xml");
    reveal_strlit("text");
    reveal_strlit("sparql");
    assert("type"@.len() == 4 && "data"@.len() == 4 && "query"@.len() == 5 && "variables"@.len() == 9);
    assert("type"@ != "data"@) by {
        assert("type"@[0] != "data"@[0]);
    }
    assert("json"@.len() == 4 && "xml"@.len() == 3 && "text"@.len() == 4 && "sparql"@.len() == 6);
    assert("json"@ != "text"@) by {
        assert("json"@[0] != "text"@[0]);
    }
    let es = seq![(DataModel::Str("type"@), DataModel::Str(t)), (DataModel::Str("data"@), DataModel::Str(body))];
    let e1 = es.drop_first();
    assert(e1 =~= seq![(DataModel::Str("data"@), DataModel::Str(body))]);
    assert(e1.drop_first() =~= Seq::<(DataModel, DataModel)>::empty());
    assert(map_get(e1.drop_first(), "query"@) is None);
    assert(map_get(e1.drop_first(), "variables"@) is None);
    assert(es[0].0 != DataModel::Str("query"@));
    assert(e1[0].0 != DataModel::Str("query"@));
    assert(es[0].0 != DataModel::Str("variables"@));
    assert(e1[0].0 != DataModel::Str("variables"@));
    assert(map_get(e1, "query"@) is None);
    assert(map_get(e1, "variables"@) is None);
    assert(map_get(es, "query"@) is None);
    assert(map_get(es, "variables"@) is None);
    assert(map_get(es, "type"@) == Some(DataModel::Str(t)));
    assert(es[0].0 != DataModel::Str("data"@));
    assert(e1[0] == (DataModel::Str("data"@), DataModel::Str(body)));
    assert(map_get(e1, "data"@) == Some(DataModel::Str(body)));
    assert(es.drop_first() == e1);
    assert(map_get(es, "data"@) == Some(DataModel::Str(body)));
    assert(typed_body(t, DataModel::Str(body)) == DataModel::Mapping(es));
}

/// Every key of a list of pairs is non-empty.
pub open spec fn keys_named(ps: Seq<KeyValuePair>) -> bool {
    forall|i: int| 0 <= i < ps.len() ==> (#[trigger] ps[i]).key@.len() > 0
}

proof fn lemma_keys_named(ps: Seq<KeyValuePair>)
    requires
        keys_named(ps),
    ensures
        named(pair_views(ps)) == pair_views(ps),
{
    assert forall|i: int| 0 <= i < pair_views(ps).len() implies (#[trigger] pair_views(ps)[i]).0.len() > 0 by {
        assert(pair_views(ps)[i].0 == ps[i].key@);
    }
    lemma_named_all(pair_views(ps));
}

/// A request that reads back as itself once written into an item: every
/// header, parameter and variable has a name; its authentication is one
/// that `auth_writable` admits; a body comes with an enabled `Content-Type`
/// header that does not announce a URL-encoded form (a JSON body without one
/// reads back with one added; a form body is re-encoded); without a body, the
/// source item's body reads as no text; and the source item's variables are
/// mappings whose keys occur once (as every document mapping's are).
pub open spec fn request_writable(src: Option<OcItem>, req: RequestData) -> bool {
    let hs = pair_views(req.headers@);
    let base_body = match src {
        Some(s) => match s.http {
            Some(h) => opt_model(h.body),
            None => None,
        },
        None => None,
    };
    &&& keys_named(req.headers@)
    &&& keys_named(req.query_params@)
    &&& keys_named(req.path_params@)
    &&& keys_named(req.vars@)
    &&& auth_writable(req.auth)
    &&& if req.body@.len() > 0 {
        has_enabled_content_type(hs) && written_body_type(hs) != "form"@
    } else {
        match base_body {
            Some(b) => doc_body_text(b).len() == 0 && (doc_body_content_type(b) is None || has_enabled_content_type(hs)),
            None => true,
        }
    }
    &&& mappings_unique(
        source_vars(
            match src {
                Some(s) => s.runtime,
                None => None,
            },
        ),
    )
}

/// A request written into an item (over the item it was read from, or over
/// a new item) reads back as the same request, for every request that
/// `request_writable` admits.
pub proof fn lemma_request_roundtrip(src: Option<OcItem>, req: RequestData, item: OcItem, back: RequestData)
    requires
        item_written(src, req, item),
        request_writable(src, req),
        item_loads_as(item, back),
    ensures
        request_same(back, req),
{
    reveal_strlit("form");
    reveal_strlit("xml");
    reveal_strlit("text");
    reveal_strlit("html");
    reveal_strlit("json");
    let h = item.http->0;
    let base_http = match src {
        Some(s) => s.http,
        None => None,
    };
    assert(http_written(base_http, req, h));
    // The method.
    lemma_method_name_upper(req.method);
    assert(uppercase(method_name(req.method)) == method_name(req.method));
    // The parameters.
    lemma_keys_named(req.query_params@);
    lemma_keys_named(req.path_params@);
    lemma_doc_params_split(h.params@, named(pair_views(req.query_params@)), named(pair_views(req.path_params@)));
    lemma_pairs_same_views(back.query_params@, req.query_params@);
    lemma_pairs_same_views(back.path_params@, req.path_params@);
    // The headers and the body.
    lemma_keys_named(req.headers@);
    let hs = pair_views(req.headers@);
    assert(doc_headers(h.headers@) == hs);
    if req.body@.len() > 0 {
        let t = written_body_type(hs);
        let wt = if t == "xml"@ {
            "xml"@
        } else if t == "text"@ || t == "html"@ {
            "text"@
        } else {
            "json"@
        };
        assert(request_doc_body(req.body@, hs) == Some(typed_body(wt, DataModel::Str(req.body@))));
        lemma_typed_body_reads(wt, req.body@);
    }
    assert(loaded_headers(h) == hs);
    lemma_pairs_same_views(back.headers@, req.headers@);
    // The scripts.
    let src_rt = match src {
        Some(s) => s.runtime,
        None => None,
    };
    lemma_scripts_roundtrip(
        src_rt,
        opt_chars(req.pre_request_script),
        opt_chars(req.post_response_script),
        pair_views(req.vars@),
        item.runtime,
    );
    // The authentication.
    assert(auth_held(h, req.auth));
    lemma_auth_roundtrip(req.auth, h, back.auth);
    lemma_auth_same_equiv(req.auth, back.auth, req.auth);
    // The variables.
    lemma_vars_roundtrip(
        src_rt,
        opt_chars(req.pre_request_script),
        opt_chars(req.post_response_script),
        pair_views(req.vars@),
        item.runtime,
    );
    lemma_keys_named(req.vars@);
    lemma_pairs_same_views(back.vars@, req.vars@);
    assert(back.name@ == req.name@);
    assert(back.method == req.method);
    assert(back.url@ == req.url@);
    assert(crate::domain::pairs_same(back.path_params@, req.path_params@));
    assert(crate::domain::pairs_same(back.query_params@, req.query_params@));
    assert(crate::domain::pairs_same(back.headers@, req.headers@));
    assert(back.body@ == req.body@);
    assert(crate::domain::opt_text_same(back.pre_request_script, req.pre_request_script));
    assert(crate::domain::opt_text_same(back.post_response_script, req.post_response_script));
    assert(auth_same(back.auth, req.auth));
    assert(crate::domain::pairs_same(back.vars@, req.vars@));
}

/// A request written into an item (over the item it was read from, or over
/// a new item) reads back with the same name, method and URL, with its
/// variables that have a name (in order, with their values and flags), and,
/// when its authentication is one that `auth_writable` admits, with the same
/// authentication; this holds for every request, whatever its headers,
/// parameters and body.
pub proof fn lemma_request_core_roundtrip(src: Option<OcItem>, req: RequestData, item: OcItem, back: RequestData)
    requires
        item_written(src, req, item),
        item_loads_as(item, back),
        mappings_unique(
            source_vars(
                match src {
                    Some(s) => s.runtime,
                    None => None,
                },
            ),
        ),
    ensures
        back.name@ == req.name@,
        back.method == req.method,
        back.url@ == req.url@,
        pair_views(back.vars@) == named(pair_views(req.vars@)),
        auth_writable(req.auth) ==> auth_same(back.auth, req.auth),
{
    let h = item.http->0;
    let base_http = match src {
        Some(s) => s.http,
        None => None,
    };
    assert(http_written(base_http, req, h));
    lemma_method_name_upper(req.method);
    assert(uppercase(method_name(req.method)) == method_name(req.method));
    let src_rt = match src {
        Some(s) => s.runtime,
        None => None,
    };
    lemma_vars_roundtrip(
        src_rt,
        opt_chars(req.pre_request_script),
        opt_chars(req.post_response_script),
        pair_views(req.vars@),
        item.runtime,
    );
    if auth_writable(req.auth) {
        assert(auth_held(h, req.auth));
        lemma_auth_roundtrip(req.auth, h, back.auth);
        lemma_auth_same_equiv(req.auth, back.auth, req.auth);
    }
}

} // verus!
