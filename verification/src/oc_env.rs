//! Environments of OpenCollection documents and the library's environments.
//! A document environment holds its variables as document values; a secret
//! variable's value is never written into a document.

use vstd::prelude::*;

use crate::collection_types::{EnvironmentToml, EnvironmentVariable};
use crate::data::{entries_get, entry_models, lemma_entry_models_index, map_get, model_bool, model_str, DataModel, DataValue};
use crate::opencollection::{
    env_same, first_key_at, lemma_map_get_absent, lemma_map_get_first, lemma_variable_value_text, oc_variable_value, value_models,
    variable_value, OcEnvironment,
};

verus! {

/// The view of an environment variable: (value, secret, temporary).
pub open spec fn env_var_view(v: EnvironmentVariable) -> (Seq<char>, bool, bool) {
    (v.value@, v.secret, v.temporary)
}

/// The variable stored under a name: the first with that name.
pub open spec fn env_lookup(vars: Seq<(String, EnvironmentVariable)>, k: Seq<char>) -> Option<(Seq<char>, bool, bool)>
    decreases vars.len(),
{
    if vars.len() == 0 {
        None
    } else if vars[0].0@ == k {
        Some(env_var_view(vars[0].1))
    } else {
        env_lookup(vars.drop_first(), k)
    }
}

/// The variable that a document variable describes: a mapping with a text
/// `name`; secret when `secret` is true, and then with an empty value; else
/// the value of its `value` entry (a text, or the text `data` of a typed
/// value).
pub open spec fn doc_env_var(m: DataModel) -> Option<(Seq<char>, (Seq<char>, bool, bool))> {
    match m {
        DataModel::Mapping(es) => match model_str(map_get(es, "name"@)) {
            Some(name) => {
                let secret = model_bool(map_get(es, "secret"@)) == Some(true);
                let value = if secret {
                    Seq::empty()
                } else {
                    match map_get(es, "value"@) {
                        Some(v) => variable_value(v),
                        None => Seq::empty(),
                    }
                };
                Some((name, (value, secret, false)))
            },
            None => None,
        },
        _ => None,
    }
}

/// The variable a list of document variables holds under a name: the last
/// one with that name.
pub open spec fn doc_env_lookup(vs: Seq<DataModel>, k: Seq<char>) -> Option<(Seq<char>, bool, bool)>
    decreases vs.len(),
{
    if vs.len() == 0 {
        None
    } else {
        match doc_env_var(vs.last()) {
            Some((n, v)) => if n == k {
                Some(v)
            } else {
                doc_env_lookup(vs.drop_last(), k)
            },
            None => doc_env_lookup(vs.drop_last(), k),
        }
    }
}

/// `env` is what a document environment reads as.
pub open spec fn env_reads_as(doc: OcEnvironment, env: EnvironmentToml) -> bool {
    &&& env.name@ == doc.name@
    &&& forall|k: Seq<char>| #[trigger] env_lookup(env.variables@, k) == doc_env_lookup(value_models(doc.variables@), k)
}

/// `i` is the position of the first variable with a name.
pub open spec fn first_env_at(vars: Seq<(String, EnvironmentVariable)>, k: Seq<char>, i: int) -> bool {
    0 <= i < vars.len() && vars[i].0@ == k && forall|j: int| 0 <= j < i ==> (#[trigger] vars[j]).0@ != k
}

proof fn lemma_env_lookup_at(vars: Seq<(String, EnvironmentVariable)>, k: Seq<char>, i: int)
    requires
        first_env_at(vars, k, i),
    ensures
        env_lookup(vars, k) == Some(env_var_view(vars[i].1)),
    decreases i,
{
    if i > 0 {
        assert(vars[0].0@ != k);
        lemma_env_lookup_at(vars.drop_first(), k, i - 1);
    }
}

proof fn lemma_env_lookup_none(vars: Seq<(String, EnvironmentVariable)>, k: Seq<char>)
    requires
        forall|j: int| 0 <= j < vars.len() ==> (#[trigger] vars[j]).0@ != k,
    ensures
        env_lookup(vars, k) is None,
    decreases vars.len(),
{
    if vars.len() > 0 {
        assert(vars[0].0@ != k);
        lemma_env_lookup_none(vars.drop_first(), k);
    }
}

proof fn lemma_env_lookup_push(vars: Seq<(String, EnvironmentVariable)>, e: (String, EnvironmentVariable), k: Seq<char>)
    requires
        forall|j: int| 0 <= j < vars.len() ==> (#[trigger] vars[j]).0@ != e.0@,
    ensures
        env_lookup(vars.push(e), k) == if k == e.0@ {
            Some(env_var_view(e.1))
        } else {
            env_lookup(vars, k)
        },
    decreases vars.len(),
{
    let s = vars.push(e);
    if vars.len() == 0 {
        assert(s.drop_first() =~= Seq::<(String, EnvironmentVariable)>::empty());
    } else {
        assert(s.drop_first() =~= vars.drop_first().push(e));
        assert forall|j: int| 0 <= j < vars.drop_first().len() implies (#[trigger] vars.drop_first()[j]).0@ != e.0@ by {
            assert(vars.drop_first()[j] == vars[j + 1]);
        }
        lemma_env_lookup_push(vars.drop_first(), e, k);
        assert(vars[0].0@ != e.0@);
    }
}

proof fn lemma_env_lookup_update(vars: Seq<(String, EnvironmentVariable)>, i: int, e: (String, EnvironmentVariable), k: Seq<char>)
    requires
        first_env_at(vars, e.0@, i),
    ensures
        env_lookup(vars.update(i, e), k) == if k == e.0@ {
            Some(env_var_view(e.1))
        } else {
            env_lookup(vars, k)
        },
    decreases i,
{
    if i == 0 {
        assert(vars.update(i, e).drop_first() =~= vars.drop_first());
    } else {
        assert(vars.update(i, e).drop_first() =~= vars.drop_first().update(i - 1, e));
        lemma_env_lookup_update(vars.drop_first(), i - 1, e, k);
    }
}

fn find_env_var(vars: &Vec<(String, EnvironmentVariable)>, name: &String) -> (r: Option<usize>)
    ensures
        match r {
            Some(i) => first_env_at(vars@, name@, i as int),
            None => forall|j: int| 0 <= j < vars@.len() ==> (#[trigger] vars@[j]).0@ != name@,
        },
{
    let mut i: usize = 0;
    while i < vars.len()
        invariant
            i <= vars.len(),
            forall|j: int| 0 <= j < i ==> (#[trigger] vars@[j]).0@ != name@,
        decreases vars.len() - i,
    {
        if crate::domain::text_equal(&vars[i].0, name) {
            return Some(i);
        }
        i = i + 1;
    }
    None
}

/// Stores a variable under a name: in place of the variable of that name, or
/// at the end.
fn env_insert(vars: &mut Vec<(String, EnvironmentVariable)>, name: String, v: EnvironmentVariable)
    requires
        forall|i: int, j: int|
            0 <= i < j < old(vars)@.len() ==> (#[trigger] old(vars)@[i]).0@ != (#[trigger] old(vars)@[j]).0@,
    ensures
        forall|i: int, j: int|
            0 <= i < j < final(vars)@.len() ==> (#[trigger] final(vars)@[i]).0@ != (#[trigger] final(vars)@[j]).0@,
        forall|k: Seq<char>| #[trigger] env_lookup(final(vars)@, k) == if k == name@ {
            Some(env_var_view(v))
        } else {
            env_lookup(old(vars)@, k)
        },
{
    let ghost before = vars@;
    let ghost e = (name, v);
    match find_env_var(vars, &name) {
        Some(i) => {
            vars.set(i, (name, v));
            proof {
                assert forall|k: Seq<char>| #[trigger] env_lookup(vars@, k) == if k == e.0@ {
                    Some(env_var_view(e.1))
                } else {
                    env_lookup(before, k)
                } by {
                    lemma_env_lookup_update(before, i as int, e, k);
                }
            }
        },
        None => {
            vars.push((name, v));
            proof {
                assert forall|k: Seq<char>| #[trigger] env_lookup(vars@, k) == if k == e.0@ {
                    Some(env_var_view(e.1))
                } else {
                    env_lookup(before, k)
                } by {
                    lemma_env_lookup_push(before, e, k);
                }
            }
        },
    }
}

fn doc_env_var_exec(v: &DataValue) -> (r: Option<(String, EnvironmentVariable)>)
    ensures
        match r {
            Some((n, x)) => doc_env_var(v@) == Some((n@, env_var_view(x))),
            None => doc_env_var(v@) is None,
        },
{
    match v {
        DataValue::Mapping(es) => {
            let name = match entries_get(es, "name") {
                Some(n) => match n.as_str() {
                    Some(s) => s.clone(),
                    None => {
                        return None;
                    },
                },
                None => {
                    return None;
                },
            };
            let secret = match entries_get(es, "secret") {
                Some(s) => match s.as_bool() {
                    Some(b) => b,
                    None => false,
                },
                None => false,
            };
            let value = if secret {
                String::new()
            } else {
                match entries_get(es, "value") {
                    Some(x) => oc_variable_value(x),
                    None => String::new(),
                }
            };
            Some((name, EnvironmentVariable { value, secret, temporary: false }))
        },
        _ => None,
    }
}

/// The environment that a document environment reads as: its name, and each
/// named variable (a later one of the same name replacing an earlier one).
pub fn oc_environment_to_toml(env: &OcEnvironment) -> (r: EnvironmentToml)
    ensures
        env_reads_as(*env, r),
        r.names_distinct(),
{
    let ghost vm = value_models(env.variables@);
    let mut vars: Vec<(String, EnvironmentVariable)> = Vec::new();
    let mut i: usize = 0;
    while i < env.variables.len()
        invariant
            i <= env.variables.len(),
            vm == value_models(env.variables@),
            forall|a: int, b: int| 0 <= a < b < vars@.len() ==> (#[trigger] vars@[a]).0@ != (#[trigger] vars@[b]).0@,
            forall|k: Seq<char>| #[trigger] env_lookup(vars@, k) == doc_env_lookup(vm.take(i as int), k),
        decreases env.variables.len() - i,
    {
        assert(vm.take(i + 1).drop_last() =~= vm.take(i as int));
        assert(vm.take(i + 1).last() == env.variables@[i as int]@);
        match doc_env_var_exec(&env.variables[i]) {
            Some((n, x)) => {
                env_insert(&mut vars, n, x);
            },
            None => {},
        }
        i = i + 1;
    }
    assert(vm.take(vm.len() as int) =~= vm);
    EnvironmentToml { name: env.name.clone(), variables: vars }
}

/// The document variable an environment variable is written as: a secret
/// one as `{secret: true, name, type: string}` (no value), any other one as
/// `{name, value}`.
pub open spec fn env_var_doc(name: Seq<char>, v: EnvironmentVariable) -> DataModel {
    if v.secret {
        DataModel::Mapping(
            seq![
                (DataModel::Str("secret"@), DataModel::Bool(true)),
                (DataModel::Str("name"@), DataModel::Str(name)),
                (DataModel::Str("type"@), DataModel::Str("string"@)),
            ],
        )
    } else {
        DataModel::Mapping(
            seq![(DataModel::Str("name"@), DataModel::Str(name)), (DataModel::Str("value"@), DataModel::Str(v.value@))],
        )
    }
}

/// `doc` is the document environment an environment is written as.
pub open spec fn env_written(env: EnvironmentToml, doc: OcEnvironment) -> bool {
    &&& doc.name@ == env.name@
    &&& doc.color is None
    &&& value_models(doc.variables@) == env.variables@.map_values(
        |e: (String, EnvironmentVariable)| env_var_doc(e.0@, e.1),
    )
    &&& doc.extra@.len() == 0
}

/// Writes an environment as a document environment, its variables in order.
pub fn env_toml_to_oc(env: &EnvironmentToml) -> (r: OcEnvironment)
    ensures
        env_written(*env, r),
{
    let mut variables: Vec<DataValue> = Vec::new();
    let mut i: usize = 0;
    while i < env.variables.len()
        invariant
            i <= env.variables.len(),
            value_models(variables@) == env.variables@.take(i as int).map_values(
                |e: (String, EnvironmentVariable)| env_var_doc(e.0@, e.1),
            ),
        decreases env.variables.len() - i,
    {
        let (name, var) = (&env.variables[i].0, &env.variables[i].1);
        let mut es: Vec<(DataValue, DataValue)> = Vec::new();
        if var.secret {
            es.push((DataValue::text("secret"), DataValue::Bool(true)));
            es.push((DataValue::text("name"), DataValue::Str(name.clone())));
            es.push((DataValue::text("type"), DataValue::text("string")));
        } else {
            es.push((DataValue::text("name"), DataValue::Str(name.clone())));
            es.push((DataValue::text("value"), DataValue::Str(var.value.clone())));
        }
        let d = DataValue::Mapping(es);
        proof {
            lemma_entry_models_index(es@);
            if var.secret {
                assert(entry_models(es@) =~= seq![
                    (DataModel::Str("secret"@), DataModel::Bool(true)),
                    (DataModel::Str("name"@), DataModel::Str(name@)),
                    (DataModel::Str("type"@), DataModel::Str("string"@)),
                ]);
            } else {
                assert(entry_models(es@) =~= seq![
                    (DataModel::Str("name"@), DataModel::Str(name@)),
                    (DataModel::Str("value"@), DataModel::Str(var.value@)),
                ]);
            }
        }
        let ghost before = variables@;
        variables.push(d);
        assert(value_models(variables@) =~= value_models(before).push(d@));
        assert(env.variables@.take(i + 1) =~= env.variables@.take(i as int).push(env.variables@[i as int]));
        i = i + 1;
    }
    assert(env.variables@.take(env.variables@.len() as int) =~= env.variables@);
    OcEnvironment { name: env.name.clone(), color: None, variables, extra: Vec::new() }
}

fn env_lookup_exec(vars: &Vec<(String, EnvironmentVariable)>, k: &String) -> (r: Option<(String, bool, bool)>)
    ensures
        match r {
            Some((v, s, t)) => env_lookup(vars@, k@) == Some((v@, s, t)),
            None => env_lookup(vars@, k@) is None,
        },
{
    match find_env_var(vars, k) {
        Some(i) => {
            proof {
                lemma_env_lookup_at(vars@, k@, i as int);
            }
            Some((vars[i].1.value.clone(), vars[i].1.secret, vars[i].1.temporary))
        },
        None => {
            proof {
                lemma_env_lookup_none(vars@, k@);
            }
            None
        },
    }
}

fn lookups_agree(vars: &Vec<(String, EnvironmentVariable)>, k: &String, other: &Vec<(String, EnvironmentVariable)>) -> (r:
    bool)
    ensures
        r == (env_lookup(vars@, k@) == env_lookup(other@, k@)),
{
    let a = env_lookup_exec(vars, k);
    let b = env_lookup_exec(other, k);
    match (a, b) {
        (Some((v1, s1, t1)), Some((v2, s2, t2))) => crate::domain::text_equal(&v1, &v2) && s1 == s2 && t1 == t2,
        (None, None) => true,
        _ => false,
    }
}

proof fn lemma_env_lookup_key(vars: Seq<(String, EnvironmentVariable)>, k: Seq<char>)
    ensures
        env_lookup(vars, k) is Some <==> exists|j: int| 0 <= j < vars.len() && #[trigger] vars[j].0@ == k,
    decreases vars.len(),
{
    if vars.len() > 0 {
        lemma_env_lookup_key(vars.drop_first(), k);
        if exists|j: int| 0 <= j < vars.len() && #[trigger] vars[j].0@ == k {
            let j = choose|j: int| 0 <= j < vars.len() && #[trigger] vars[j].0@ == k;
            if j > 0 {
                assert(vars.drop_first()[j - 1].0@ == k);
            }
        }
        if exists|j: int| 0 <= j < vars.drop_first().len() && #[trigger] vars.drop_first()[j].0@ == k {
            let j = choose|j: int| 0 <= j < vars.drop_first().len() && #[trigger] vars.drop_first()[j].0@ == k;
            assert(vars[j + 1].0@ == k);
        }
    }
}

/// Two environments hold the same variables: the same name looks up the
/// same variable in both.
pub open spec fn same_variables(a: Seq<(String, EnvironmentVariable)>, b: Seq<(String, EnvironmentVariable)>) -> bool {
    forall|k: Seq<char>| #[trigger] env_lookup(a, k) == env_lookup(b, k)
}

/// Whether two environments have the same name and hold the same variables.
pub fn env_toml_equal(a: &EnvironmentToml, b: &EnvironmentToml) -> (r: bool)
    ensures
        r == (a.name@ == b.name@ && same_variables(a.variables@, b.variables@)),
{
    if !crate::domain::text_equal(&a.name, &b.name) {
        return false;
    }
    let mut i: usize = 0;
    while i < a.variables.len()
        invariant
            i <= a.variables.len(),
            forall|j: int|
                0 <= j < i ==> env_lookup(a.variables@, (#[trigger] a.variables@[j]).0@) == env_lookup(
                    b.variables@,
                    a.variables@[j].0@,
                ),
        decreases a.variables.len() - i,
    {
        if !lookups_agree(&a.variables, &a.variables[i].0, &b.variables) {
            return false;
        }
        i = i + 1;
    }
    let mut i: usize = 0;
    while i < b.variables.len()
        invariant
            i <= b.variables.len(),
            forall|j: int|
                0 <= j < a.variables@.len() ==> env_lookup(a.variables@, (#[trigger] a.variables@[j]).0@)
                    == env_lookup(b.variables@, a.variables@[j].0@),
            forall|j: int|
                0 <= j < i ==> env_lookup(a.variables@, (#[trigger] b.variables@[j]).0@) == env_lookup(
                    b.variables@,
                    b.variables@[j].0@,
                ),
        decreases b.variables.len() - i,
    {
        if !lookups_agree(&a.variables, &b.variables[i].0, &b.variables) {
            return false;
        }
        i = i + 1;
    }
    proof {
        assert forall|k: Seq<char>| #[trigger] env_lookup(a.variables@, k) == env_lookup(b.variables@, k) by {
            lemma_env_lookup_key(a.variables@, k);
            lemma_env_lookup_key(b.variables@, k);
            if exists|j: int| 0 <= j < a.variables@.len() && #[trigger] a.variables@[j].0@ == k {
                let j = choose|j: int| 0 <= j < a.variables@.len() && #[trigger] a.variables@[j].0@ == k;
                assert(env_lookup(a.variables@, a.variables@[j].0@) == env_lookup(b.variables@, a.variables@[j].0@));
            } else if exists|j: int| 0 <= j < b.variables@.len() && #[trigger] b.variables@[j].0@ == k {
                let j = choose|j: int| 0 <= j < b.variables@.len() && #[trigger] b.variables@[j].0@ == k;
                assert(env_lookup(a.variables@, b.variables@[j].0@) == env_lookup(b.variables@, b.variables@[j].0@));
            }
        }
    }
    true
}

/// What `merge_env` gives: a copy of the source when it reads as the
/// environment already, else the environment written anew.
pub open spec fn env_merged(source: Option<&OcEnvironment>, toml: EnvironmentToml, r: OcEnvironment) -> bool {
    match source {
        Some(src) => if env_reads_as(*src, toml) {
            env_same(r, *src)
        } else {
            env_written(toml, r)
        },
        None => env_written(toml, r),
    }
}

/// Writes an environment into the document environment it was read from (or
/// into a new one). When the document environment reads as the environment
/// already, a copy of it comes back as it was.
pub fn merge_env(source: Option<&OcEnvironment>, toml: &EnvironmentToml) -> (r: OcEnvironment)
    ensures
        env_merged(source, *toml, r),
{
    match source {
        Some(src) => {
            let read = oc_environment_to_toml(src);
            if env_toml_equal(&read, toml) {
                proof {
                    assert forall|k: Seq<char>| #[trigger] env_lookup(toml.variables@, k) == doc_env_lookup(
                        value_models(src.variables@),
                        k,
                    ) by {
                        assert(env_lookup(read.variables@, k) == env_lookup(toml.variables@, k));
                    }
                }
                return src.duplicate();
            }
            proof {
                if env_reads_as(*src, *toml) {
                    assert forall|k: Seq<char>| #[trigger] env_lookup(read.variables@, k) == env_lookup(
                        toml.variables@,
                        k,
                    ) by {
                        assert(env_lookup(toml.variables@, k) == doc_env_lookup(value_models(src.variables@), k));
                    }
                    assert(same_variables(read.variables@, toml.variables@));
                }
            }
            env_toml_to_oc(toml)
        },
        None => env_toml_to_oc(toml),
    }
}

/// What reading gives of a written variable: its value, except that a secret
/// variable has none.
pub open spec fn read_back_view(v: (Seq<char>, bool, bool)) -> (Seq<char>, bool, bool) {
    (if v.1 {
        Seq::empty()
    } else {
        v.0
    }, v.1, false)
}

proof fn lemma_env_var_doc_reads(name: Seq<char>, v: EnvironmentVariable)
    ensures
        doc_env_var(env_var_doc(name, v)) == Some((name, read_back_view(env_var_view(v)))),
{
    reveal_strlit("secret");
    reveal_strlit("name");
    reveal_strlit("type");
    reveal_strlit("value");
    assert("secret"@.len() == 6 && "name"@.len() == 4 && "type"@.len() == 4 && "value"@.len() == 5);
    assert("name"@ != "type"@) by {
        assert("name"@[0] != "type"@[0]);
    }
    if v.secret {
        let es = seq![
            (DataModel::Str("secret"@), DataModel::Bool(true)),
            (DataModel::Str("name"@), DataModel::Str(name)),
            (DataModel::Str("type"@), DataModel::Str("string"@)),
        ];
        let e1 = es.drop_first();
        assert(e1[0] == es[1]);
        assert(es[0].0 != DataModel::Str("name"@));
        assert(map_get(e1, "name"@) == Some(DataModel::Str(name)));
        assert(map_get(es, "name"@) == Some(DataModel::Str(name)));
        assert(map_get(es, "secret"@) == Some(DataModel::Bool(true)));
    } else {
        let es = seq![(DataModel::Str("name"@), DataModel::Str(name)), (DataModel::Str("value"@), DataModel::Str(v.value@))];
        let e1 = es.drop_first();
        assert(e1[0] == es[1]);
        assert(e1.drop_first() =~= Seq::<(DataModel, DataModel)>::empty());
        assert(map_get(e1.drop_first(), "secret"@) is None);
        assert(map_get(e1, "secret"@) is None);
        assert(map_get(es, "secret"@) is None);
        assert(map_get(es, "name"@) == Some(DataModel::Str(name)));
        assert(map_get(e1, "value"@) == Some(DataModel::Str(v.value@)));
        assert(map_get(es, "value"@) == Some(DataModel::Str(v.value@)));
    }
}

proof fn lemma_written_lookup(vars: Seq<(String, EnvironmentVariable)>, k: Seq<char>)
    requires
        forall|i: int, j: int| 0 <= i < j < vars.len() ==> (#[trigger] vars[i]).0@ != (#[trigger] vars[j]).0@,
    ensures
        doc_env_lookup(vars.map_values(|e: (String, EnvironmentVariable)| env_var_doc(e.0@, e.1)), k) == match env_lookup(
            vars,
            k,
        ) {
            Some(v) => Some(read_back_view(v)),
            None => None,
        },
    decreases vars.len(),
{
    let m = vars.map_values(|e: (String, EnvironmentVariable)| env_var_doc(e.0@, e.1));
    if vars.len() == 0 {
        assert(doc_env_lookup(m, k) is None);
    } else {
        let rest = vars.drop_last();
        let e = vars.last();
        assert(m.drop_last() =~= rest.map_values(|e: (String, EnvironmentVariable)| env_var_doc(e.0@, e.1)));
        assert(m.last() == env_var_doc(e.0@, e.1));
        lemma_written_lookup(rest, k);
        lemma_env_var_doc_reads(e.0@, e.1);
        assert forall|j: int| 0 <= j < rest.len() implies (#[trigger] rest[j]).0@ != e.0@ by {
            assert(rest[j] == vars[j]);
            assert(vars[j].0@ != vars[vars.len() - 1].0@);
        }
        assert(rest.push(e) =~= vars);
        lemma_env_lookup_push(rest, e, k);
    }
}

/// An environment written as a document environment and read back holds the
/// same variables, none temporary, and secret variables without their values
/// (they live in the credential store, never in a document).
pub proof fn lemma_env_roundtrip(env: EnvironmentToml, doc: OcEnvironment, back: EnvironmentToml, k: Seq<char>)
    requires
        env.names_distinct(),
        env_written(env, doc),
        env_reads_as(doc, back),
    ensures
        back.name@ == env.name@,
        env_lookup(back.variables@, k) == match env_lookup(env.variables@, k) {
            Some(v) => Some(read_back_view(v)),
            None => None,
        },
{
    lemma_written_lookup(env.variables@, k);
}

/// A secret variable read from a document has an empty value.
proof fn lemma_doc_secret_empty(vs: Seq<DataModel>, k: Seq<char>)
    ensures
        doc_env_lookup(vs, k) matches Some(v) ==> (v.1 ==> v.0.len() == 0),
    decreases vs.len(),
{
    if vs.len() > 0 {
        lemma_doc_secret_empty(vs.drop_last(), k);
    }
}

/// Secret values are never written: when an environment holds a secret
/// variable with a value, merging it into a document writes the environment
/// anew (a document that reads as it cannot exist, since a secret read from a
/// document has no value), and every secret variable is written with no
/// `value` entry.
pub proof fn lemma_merge_env_keeps_secrets(
    source: Option<&OcEnvironment>,
    toml: EnvironmentToml,
    r: OcEnvironment,
    k: Seq<char>,
)
    requires
        env_merged(source, toml, r),
        env_lookup(toml.variables@, k) matches Some(v) && v.1 && v.0.len() > 0,
    ensures
        env_written(toml, r),
        r.variables@.len() == toml.variables@.len(),
        forall|i: int|
            0 <= i < toml.variables@.len() && (#[trigger] toml.variables@[i]).1.secret ==> (r.variables@[i]@ matches DataModel::Mapping(es) && map_get(es, "value"@) is None),
{
    if let Some(src) = source {
        if env_reads_as(*src, toml) {
            lemma_doc_secret_empty(value_models(src.variables@), k);
            assert(env_lookup(toml.variables@, k) == doc_env_lookup(value_models(src.variables@), k));
        }
    }
    assert(value_models(r.variables@).len() == r.variables@.len());
    assert forall|i: int|
        0 <= i < toml.variables@.len() && (#[trigger] toml.variables@[i]).1.secret implies (r.variables@[i]@ matches DataModel::Mapping(es) && map_get(es, "value"@) is None) by {
        let e = toml.variables@[i];
        assert(value_models(r.variables@)[i] == r.variables@[i]@);
        assert(r.variables@[i]@ == env_var_doc(e.0@, e.1));
        reveal_strlit("value");
        reveal_strlit("secret");
        reveal_strlit("name");
        reveal_strlit("type");
        let es = seq![
            (DataModel::Str("secret"@), DataModel::Bool(true)),
            (DataModel::Str("name"@), DataModel::Str(e.0@)),
            (DataModel::Str("type"@), DataModel::Str("string"@)),
        ];
        assert("secret"@.len() == 6 && "value"@.len() == 5 && "name"@.len() == 4 && "type"@.len() == 4);
        assert("secret"@ != "value"@);
        assert("name"@ != "value"@);
        assert("type"@ != "value"@);
        assert(DataModel::Str("secret"@) != DataModel::Str("value"@));
        assert(DataModel::Str("name"@) != DataModel::Str("value"@));
        assert(DataModel::Str("type"@) != DataModel::Str("value"@));
        assert(es.drop_first().drop_first().drop_first() =~= Seq::<(DataModel, DataModel)>::empty());
        assert(es.drop_first().drop_first()[0] == es[2]);
        assert(es.drop_first()[0] == es[1]);
        reveal_with_fuel(map_get, 4);
    }
}

/// A document variable `{name: n, value: {type, data: d}}` without a
/// `secret` entry is read as the variable `n` with the text `d` (neither
/// secret nor temporary).
pub proof fn lemma_typed_variable_reads_data(es: Seq<(DataModel, DataModel)>, a: int, b: int, k: int)
    requires
        first_key_at(es, "name"@, a),
        es[a].1 is Str,
        forall|j: int| 0 <= j < es.len() ==> (#[trigger] es[j]).0 != DataModel::Str("secret"@),
        first_key_at(es, "value"@, b),
        es[b].1 is Mapping,
        first_key_at(es[b].1->Mapping_0, "data"@, k),
        es[b].1->Mapping_0[k].1 is Str,
    ensures
        doc_env_var(DataModel::Mapping(es)) == Some(
            (es[a].1->Str_0, (es[b].1->Mapping_0[k].1->Str_0, false, false)),
        ),
{
    lemma_map_get_first(es, "name"@, a);
    lemma_map_get_first(es, "value"@, b);
    lemma_map_get_absent(es, "secret"@);
    lemma_variable_value_text(es[b].1, k);
}

} // verus!
