//! Structured document values: what a YAML or JSON document holds (scalars,
//! lists and mappings), with a mathematical model for contracts.

use vstd::prelude::*;

use crate::text::{chars_eq_str, chars_of};

verus! {

/// A document value.
#[derive(Debug, PartialEq)]
pub enum DataValue {
    Null,
    Bool(bool),
    /// A number, as its text.
    Number(String),
    Str(String),
    List(Vec<DataValue>),
    /// A mapping: its entries in document order.
    Mapping(Vec<(DataValue, DataValue)>),
}

/// The model of a document value.
pub enum DataModel {
    Null,
    Bool(bool),
    Number(Seq<char>),
    Str(Seq<char>),
    List(Seq<DataModel>),
    Mapping(Seq<(DataModel, DataModel)>),
}

/// The model of a value.
pub open spec fn data_model(v: DataValue) -> DataModel
    decreases v,
{
    match v {
        DataValue::Null => DataModel::Null,
        DataValue::Bool(b) => DataModel::Bool(b),
        DataValue::Number(n) => DataModel::Number(n@),
        DataValue::Str(s) => DataModel::Str(s@),
        DataValue::List(items) => DataModel::List(data_models(items@)),
        DataValue::Mapping(entries) => DataModel::Mapping(entry_models(entries@)),
    }
}

/// The models of a list of values.
pub open spec fn data_models(s: Seq<DataValue>) -> Seq<DataModel>
    decreases s,
{
    if s.len() == 0 {
        Seq::empty()
    } else {
        seq![data_model(s[0])] + data_models(s.subrange(1, s.len() as int))
    }
}

/// The models of a list of mapping entries.
pub open spec fn entry_models(s: Seq<(DataValue, DataValue)>) -> Seq<(DataModel, DataModel)>
    decreases s,
{
    if s.len() == 0 {
        Seq::empty()
    } else {
        seq![(data_model(s[0].0), data_model(s[0].1))] + entry_models(s.subrange(1, s.len() as int))
    }
}

impl View for DataValue {
    type V = DataModel;

    open spec fn view(&self) -> DataModel {
        data_model(*self)
    }
}

/// The models of a list, element by element.
pub proof fn lemma_data_models_index(s: Seq<DataValue>)
    ensures
        data_models(s).len() == s.len(),
        forall|i: int| 0 <= i < s.len() ==> #[trigger] data_models(s)[i] == data_model(s[i]),
    decreases s.len(),
{
    if s.len() > 0 {
        let rest = s.subrange(1, s.len() as int);
        lemma_data_models_index(rest);
        assert forall|i: int| 0 <= i < s.len() implies #[trigger] data_models(s)[i] == data_model(s[i]) by {
            if i > 0 {
                assert(rest[i - 1] == s[i]);
            }
        }
    }
}

/// The models of a list of entries, entry by entry.
pub proof fn lemma_entry_models_index(s: Seq<(DataValue, DataValue)>)
    ensures
        entry_models(s).len() == s.len(),
        forall|i: int|
            0 <= i < s.len() ==> #[trigger] entry_models(s)[i] == (data_model(s[i].0), data_model(s[i].1)),
    decreases s.len(),
{
    if s.len() > 0 {
        let rest = s.subrange(1, s.len() as int);
        lemma_entry_models_index(rest);
        assert forall|i: int| 0 <= i < s.len() implies #[trigger] entry_models(s)[i] == (
            data_model(s[i].0),
            data_model(s[i].1),
        ) by {
            if i > 0 {
                assert(rest[i - 1] == s[i]);
            }
        }
    }
}

impl DataValue {
    /// A copy of the value.
    pub fn duplicate(&self) -> (r: DataValue)
        ensures
            r@ == self@,
        decreases self,
    {
        match self {
            DataValue::Null => DataValue::Null,
            DataValue::Bool(b) => DataValue::Bool(*b),
            DataValue::Number(n) => DataValue::Number(n.clone()),
            DataValue::Str(s) => DataValue::Str(s.clone()),
            DataValue::List(items) => {
                let mut out: Vec<DataValue> = Vec::new();
                let mut i: usize = 0;
                proof {
                    lemma_data_models_index(items@);
                }
                while i < items.len()
                    invariant
                        i <= items.len(),
                        *self == DataValue::List(*items),
                        data_models(out@) == data_models(items@).take(i as int),
                        data_models(items@).len() == items@.len(),
                        forall|j: int| 0 <= j < items@.len() ==> #[trigger] data_models(items@)[j] == data_model(items@[j]),
                    decreases items.len() - i,
                {
                    proof {
                        vstd::std_specs::vec::axiom_vec_index_decreases(*items, i as int);
                        assert(decreases_to!(*self => (*self)->List_0));
                        assert(decreases_to!(*items => items[i as int]));
                        assert(decreases_to!(*self => items[i as int]));
                    }
                    let c = items[i].duplicate();
                    let ghost before = out@;
                    out.push(c);
                    proof {
                        lemma_data_models_index(before);
                        lemma_data_models_index(out@);
                        assert(data_models(out@) =~= data_models(items@).take(i + 1));
                    }
                    i = i + 1;
                }
                proof {
                    assert(data_models(items@).take(items@.len() as int) =~= data_models(items@));
                }
                DataValue::List(out)
            },
            DataValue::Mapping(entries) => {
                let mut out: Vec<(DataValue, DataValue)> = Vec::new();
                let mut i: usize = 0;
                proof {
                    lemma_entry_models_index(entries@);
                }
                while i < entries.len()
                    invariant
                        i <= entries.len(),
                        *self == DataValue::Mapping(*entries),
                        entry_models(out@) == entry_models(entries@).take(i as int),
                        entry_models(entries@).len() == entries@.len(),
                        forall|j: int|
                            0 <= j < entries@.len() ==> #[trigger] entry_models(entries@)[j] == (
                                data_model(entries@[j].0),
                                data_model(entries@[j].1),
                            ),
                    decreases entries.len() - i,
                {
                    proof {
                        vstd::std_specs::vec::axiom_vec_index_decreases(*entries, i as int);
                        assert(decreases_to!(*self => (*self)->Mapping_0));
                        assert(decreases_to!(*entries => entries[i as int]));
                        assert(decreases_to!(entries[i as int] => entries[i as int].0));
                        assert(decreases_to!(entries[i as int] => entries[i as int].1));
                        assert(decreases_to!(*self => entries[i as int].0));
                        assert(decreases_to!(*self => entries[i as int].1));
                    }
                    let k = entries[i].0.duplicate();
                    let v = entries[i].1.duplicate();
                    let ghost before = out@;
                    out.push((k, v));
                    proof {
                        lemma_entry_models_index(before);
                        lemma_entry_models_index(out@);
                        assert(entry_models(out@) =~= entry_models(entries@).take(i + 1));
                    }
                    i = i + 1;
                }
                proof {
                    assert(entry_models(entries@).take(entries@.len() as int) =~= entry_models(entries@));
                }
                DataValue::Mapping(out)
            },
        }
    }
}

impl Clone for DataValue {
    fn clone(&self) -> (r: Self)
        ensures
            r@ == self@,
    {
        self.duplicate()
    }
}


/// The value stored under a text key: the first entry whose key is that text.
pub open spec fn map_get(es: Seq<(DataModel, DataModel)>, key: Seq<char>) -> Option<DataModel>
    decreases es.len(),
{
    if es.len() == 0 {
        None
    } else if es[0].0 == DataModel::Str(key) {
        Some(es[0].1)
    } else {
        map_get(es.drop_first(), key)
    }
}

/// The text of a value that is a string.
pub open spec fn model_str(m: Option<DataModel>) -> Option<Seq<char>> {
    match m {
        Some(DataModel::Str(s)) => Some(s),
        _ => None,
    }
}

/// The flag of a value that is a boolean.
pub open spec fn model_bool(m: Option<DataModel>) -> Option<bool> {
    match m {
        Some(DataModel::Bool(b)) => Some(b),
        _ => None,
    }
}

/// The model of an optional value.
pub open spec fn opt_model(v: Option<DataValue>) -> Option<DataModel> {
    match v {
        Some(x) => Some(x@),
        None => None,
    }
}

/// Looks up the value under a text key in a mapping's entries.
pub fn entries_get<'a>(es: &'a Vec<(DataValue, DataValue)>, key: &str) -> (r: Option<&'a DataValue>)
    ensures
        match r {
            Some(v) => map_get(entry_models(es@), key@) == Some(v@),
            None => map_get(entry_models(es@), key@) is None,
        },
{
    proof {
        lemma_entry_models_index(es@);
    }
    let mut i: usize = 0;
    assert(entry_models(es@).skip(0) =~= entry_models(es@));
    while i < es.len()
        invariant
            i <= es.len(),
            entry_models(es@).len() == es@.len(),
            forall|j: int|
                0 <= j < es@.len() ==> #[trigger] entry_models(es@)[j] == (data_model(es@[j].0), data_model(es@[j].1)),
            map_get(entry_models(es@), key@) == map_get(entry_models(es@).skip(i as int), key@),
        decreases es.len() - i,
    {
        let ghost rest = entry_models(es@).skip(i as int);
        assert(rest[0] == entry_models(es@)[i as int]);
        assert(rest.drop_first() =~= entry_models(es@).skip(i + 1));
        match &es[i].0 {
            DataValue::Str(k) => {
                let kc = chars_of(k.as_str());
                if chars_eq_str(kc.as_slice(), key) {
                    return Some(&es[i].1);
                }
            },
            _ => {},
        }
        i = i + 1;
    }
    None
}

impl DataValue {
    /// The text of a string value.
    pub fn as_str(&self) -> (r: Option<&String>)
        ensures
            match r {
                Some(s) => self@ == DataModel::Str(s@),
                None => !(self@ is Str),
            },
    {
        match self {
            DataValue::Str(s) => Some(s),
            _ => None,
        }
    }

    /// The flag of a boolean value.
    pub fn as_bool(&self) -> (r: Option<bool>)
        ensures
            r == model_bool(Some(self@)),
    {
        match self {
            DataValue::Bool(b) => Some(*b),
            _ => None,
        }
    }

    /// A string value.
    pub fn text(s: &str) -> (r: DataValue)
        ensures
            r@ == DataModel::Str(s@),
    {
        DataValue::Str(s.to_string())
    }
}

/// Whether two values have the same model.
pub fn data_equal(a: &DataValue, b: &DataValue) -> (r: bool)
    ensures
        r == (a@ == b@),
    decreases a,
{
    match (a, b) {
        (DataValue::Null, DataValue::Null) => true,
        (DataValue::Bool(x), DataValue::Bool(y)) => *x == *y,
        (DataValue::Number(x), DataValue::Number(y)) => {
            let xc = chars_of(x.as_str());
            chars_eq_str(xc.as_slice(), y.as_str())
        },
        (DataValue::Str(x), DataValue::Str(y)) => {
            let xc = chars_of(x.as_str());
            chars_eq_str(xc.as_slice(), y.as_str())
        },
        (DataValue::List(xs), DataValue::List(ys)) => {
            proof {
                lemma_data_models_index(xs@);
                lemma_data_models_index(ys@);
            }
            if xs.len() != ys.len() {
                return false;
            }
            let mut i: usize = 0;
            while i < xs.len()
                invariant
                    i <= xs.len(),
                    xs.len() == ys.len(),
                    *a == DataValue::List(*xs),
                    *b == DataValue::List(*ys),
                    data_models(xs@).len() == xs@.len(),
                    data_models(ys@).len() == ys@.len(),
                    forall|j: int| 0 <= j < xs@.len() ==> #[trigger] data_models(xs@)[j] == data_model(xs@[j]),
                    forall|j: int| 0 <= j < ys@.len() ==> #[trigger] data_models(ys@)[j] == data_model(ys@[j]),
                    forall|j: int| 0 <= j < i ==> data_model(xs@[j]) == data_model(ys@[j]),
                decreases xs.len() - i,
            {
                proof {
                    vstd::std_specs::vec::axiom_vec_index_decreases(*xs, i as int);
                    assert(decreases_to!(*a => (*a)->List_0));
                    assert(decreases_to!(*xs => xs[i as int]));
                    assert(decreases_to!(*a => xs[i as int]));
                }
                if !data_equal(&xs[i], &ys[i]) {
                    proof {
                        assert(data_models(xs@)[i as int] != data_models(ys@)[i as int]);
                    }
                    return false;
                }
                i = i + 1;
            }
            proof {
                assert(data_models(xs@) =~= data_models(ys@));
            }
            true
        },
        (DataValue::Mapping(xs), DataValue::Mapping(ys)) => {
            proof {
                lemma_entry_models_index(xs@);
                lemma_entry_models_index(ys@);
            }
            if xs.len() != ys.len() {
                return false;
            }
            let mut i: usize = 0;
            while i < xs.len()
                invariant
                    i <= xs.len(),
                    xs.len() == ys.len(),
                    *a == DataValue::Mapping(*xs),
                    *b == DataValue::Mapping(*ys),
                    entry_models(xs@).len() == xs@.len(),
                    entry_models(ys@).len() == ys@.len(),
                    forall|j: int|
                        0 <= j < xs@.len() ==> #[trigger] entry_models(xs@)[j] == (
                            data_model(xs@[j].0),
                            data_model(xs@[j].1),
                        ),
                    forall|j: int|
                        0 <= j < ys@.len() ==> #[trigger] entry_models(ys@)[j] == (
                            data_model(ys@[j].0),
                            data_model(ys@[j].1),
                        ),
                    forall|j: int| 0 <= j < i ==> entry_models(xs@)[j] == entry_models(ys@)[j],
                decreases xs.len() - i,
            {
                proof {
                    vstd::std_specs::vec::axiom_vec_index_decreases(*xs, i as int);
                    assert(decreases_to!(*a => (*a)->Mapping_0));
                    assert(decreases_to!(*xs => xs[i as int]));
                    assert(decreases_to!(xs[i as int] => xs[i as int].0));
                    assert(decreases_to!(xs[i as int] => xs[i as int].1));
                    assert(decreases_to!(*a => xs[i as int].0));
                    assert(decreases_to!(*a => xs[i as int].1));
                }
                if !data_equal(&xs[i].0, &ys[i].0) || !data_equal(&xs[i].1, &ys[i].1) {
                    proof {
                        assert(entry_models(xs@)[i as int] != entry_models(ys@)[i as int]);
                    }
                    return false;
                }
                i = i + 1;
            }
            proof {
                assert(entry_models(xs@) =~= entry_models(ys@));
            }
            true
        },
        _ => false,
    }
}


/// The position of the first entry whose key is the given text.
pub open spec fn key_index(es: Seq<(DataModel, DataModel)>, key: Seq<char>) -> Option<int>
    decreases es.len(),
{
    if es.len() == 0 {
        None
    } else if es[0].0 == DataModel::Str(key) {
        Some(0)
    } else {
        match key_index(es.drop_first(), key) {
            Some(i) => Some(i + 1),
            None => None,
        }
    }
}

/// What `key_index` finds: the first entry with the key, and no earlier one.
pub proof fn lemma_key_index(es: Seq<(DataModel, DataModel)>, key: Seq<char>)
    ensures
        match key_index(es, key) {
            Some(i) => 0 <= i < es.len() && es[i].0 == DataModel::Str(key) && map_get(es, key) == Some(es[i].1)
                && forall|j: int| 0 <= j < i ==> es[j].0 != DataModel::Str(key),
            None => map_get(es, key) is None && forall|j: int| 0 <= j < es.len() ==> es[j].0 != DataModel::Str(key),
        },
    decreases es.len(),
{
    if es.len() > 0 {
        lemma_key_index(es.drop_first(), key);
        assert forall|j: int| 1 <= j < es.len() implies es[j] == es.drop_first()[j - 1] by {}
    }
}

/// A mapping with a value stored under a text key: an entry with that key
/// gets the value in place, otherwise a new entry is appended.
pub open spec fn map_insert(es: Seq<(DataModel, DataModel)>, key: Seq<char>, v: DataModel) -> Seq<(DataModel, DataModel)> {
    match key_index(es, key) {
        Some(i) => es.update(i, (es[i].0, v)),
        None => es.push((DataModel::Str(key), v)),
    }
}

/// A mapping with the entry under a text key removed, the last entry taking
/// its place (`swap_remove`).
pub open spec fn map_swap_remove(es: Seq<(DataModel, DataModel)>, key: Seq<char>) -> Seq<(DataModel, DataModel)> {
    match key_index(es, key) {
        Some(i) => es.update(i, es.last()).drop_last(),
        None => es,
    }
}

/// The position of the first entry with a text key.
fn find_key(es: &Vec<(DataValue, DataValue)>, key: &str) -> (r: Option<usize>)
    ensures
        match r {
            Some(i) => key_index(entry_models(es@), key@) == Some(i as int),
            None => key_index(entry_models(es@), key@) is None,
        },
{
    proof {
        lemma_entry_models_index(es@);
        lemma_key_index(entry_models(es@), key@);
    }
    let mut i: usize = 0;
    while i < es.len()
        invariant
            i <= es.len(),
            entry_models(es@).len() == es@.len(),
            forall|j: int|
                0 <= j < es@.len() ==> #[trigger] entry_models(es@)[j] == (data_model(es@[j].0), data_model(es@[j].1)),
            forall|j: int| 0 <= j < i ==> entry_models(es@)[j].0 != DataModel::Str(key@),
            match key_index(entry_models(es@), key@) {
                Some(k) => 0 <= k < es@.len() && entry_models(es@)[k].0 == DataModel::Str(key@) && forall|j: int|
                    0 <= j < k ==> entry_models(es@)[j].0 != DataModel::Str(key@),
                None => forall|j: int| 0 <= j < es@.len() ==> entry_models(es@)[j].0 != DataModel::Str(key@),
            },
        decreases es.len() - i,
    {
        match &es[i].0 {
            DataValue::Str(k) => {
                let kc = chars_of(k.as_str());
                if chars_eq_str(kc.as_slice(), key) {
                    proof {
                        assert(entry_models(es@)[i as int].0 == DataModel::Str(key@));
                        match key_index(entry_models(es@), key@) {
                            Some(k) => {
                                if k > i {
                                } else if k < i {
                                }
                            },
                            None => {},
                        }
                    }
                    return Some(i);
                }
            },
            _ => {},
        }
        i = i + 1;
    }
    None
}

/// Stores a value under a text key in a mapping's entries.
pub fn mapping_insert(es: &mut Vec<(DataValue, DataValue)>, key: &str, v: DataValue)
    ensures
        entry_models(final(es)@) == map_insert(entry_models(old(es)@), key@, v@),
{
    proof {
        lemma_entry_models_index(es@);
    }
    let ghost before = es@;
    match find_key(es, key) {
        Some(i) => {
            proof {
                lemma_key_index(entry_models(es@), key@);
            }
            let k = es[i].0.duplicate();
            es.set(i, (k, v));
            proof {
                lemma_entry_models_index(es@);
                assert(entry_models(es@) =~= entry_models(before).update(
                    i as int,
                    (entry_models(before)[i as int].0, v@),
                ));
            }
        },
        None => {
            es.push((DataValue::text(key), v));
            proof {
                lemma_entry_models_index(es@);
                assert(entry_models(es@) =~= entry_models(before).push((DataModel::Str(key@), v@)));
            }
        },
    }
}

/// Removes the entry under a text key, moving the last entry into its place.
pub fn mapping_swap_remove(es: &mut Vec<(DataValue, DataValue)>, key: &str)
    ensures
        entry_models(final(es)@) == map_swap_remove(entry_models(old(es)@), key@),
{
    proof {
        lemma_entry_models_index(es@);
    }
    let ghost before = es@;
    match find_key(es, key) {
        Some(i) => {
            proof {
                lemma_key_index(entry_models(es@), key@);
            }
            let ghost last_model = entry_models(before).last();
            let last = es.pop().unwrap();
            assert((data_model(last.0), data_model(last.1)) == last_model);
            if i < es.len() {
                es.set(i, last);
            }
            proof {
                lemma_entry_models_index(es@);
                assert(entry_models(es@) =~= entry_models(before).update(i as int, entry_models(before).last()).drop_last());
            }
        },
        None => {},
    }
}

/// A copy of a mapping's entries.
pub fn entries_duplicate(es: &Vec<(DataValue, DataValue)>) -> (r: Vec<(DataValue, DataValue)>)
    ensures
        entry_models(r@) == entry_models(es@),
{
    proof {
        lemma_entry_models_index(es@);
    }
    let mut out: Vec<(DataValue, DataValue)> = Vec::new();
    let mut i: usize = 0;
    while i < es.len()
        invariant
            i <= es.len(),
            entry_models(out@) == entry_models(es@).take(i as int),
            entry_models(es@).len() == es@.len(),
            forall|j: int|
                0 <= j < es@.len() ==> #[trigger] entry_models(es@)[j] == (data_model(es@[j].0), data_model(es@[j].1)),
        decreases es.len() - i,
    {
        let k = es[i].0.duplicate();
        let v = es[i].1.duplicate();
        let ghost before = out@;
        out.push((k, v));
        proof {
            lemma_entry_models_index(before);
            lemma_entry_models_index(out@);
            assert(entry_models(out@) =~= entry_models(es@).take(i + 1));
        }
        i = i + 1;
    }
    assert(entry_models(es@).take(es@.len() as int) =~= entry_models(es@));
    out
}

/// A copy of a list of values.
pub fn values_duplicate(vs: &Vec<DataValue>) -> (r: Vec<DataValue>)
    ensures
        data_models(r@) == data_models(vs@),
{
    proof {
        lemma_data_models_index(vs@);
    }
    let mut out: Vec<DataValue> = Vec::new();
    let mut i: usize = 0;
    while i < vs.len()
        invariant
            i <= vs.len(),
            data_models(out@) == data_models(vs@).take(i as int),
            data_models(vs@).len() == vs@.len(),
            forall|j: int| 0 <= j < vs@.len() ==> #[trigger] data_models(vs@)[j] == data_model(vs@[j]),
        decreases vs.len() - i,
    {
        let c = vs[i].duplicate();
        let ghost before = out@;
        out.push(c);
        proof {
            lemma_data_models_index(before);
            lemma_data_models_index(out@);
            assert(data_models(out@) =~= data_models(vs@).take(i + 1));
        }
        i = i + 1;
    }
    assert(data_models(vs@).take(vs@.len() as int) =~= data_models(vs@));
    out
}

/// A copy of an optional value.
pub fn opt_duplicate(o: &Option<DataValue>) -> (r: Option<DataValue>)
    ensures
        opt_model(r) == opt_model(*o),
{
    match o {
        Some(v) => Some(v.duplicate()),
        None => None,
    }
}

/// Storing under a key changes what that key gives and nothing else.
pub proof fn lemma_map_get_insert(es: Seq<(DataModel, DataModel)>, k: Seq<char>, v: DataModel, k2: Seq<char>)
    ensures
        map_get(map_insert(es, k, v), k2) == if k2 == k {
            Some(v)
        } else {
            map_get(es, k2)
        },
    decreases es.len(),
{
    let r = map_insert(es, k, v);
    if es.len() == 0 {
        assert(r =~= seq![(DataModel::Str(k), v)]);
        assert(r.drop_first() =~= Seq::<(DataModel, DataModel)>::empty());
        assert(map_get(r.drop_first(), k2) is None);
        assert(map_get(es, k2) is None);
    } else if es[0].0 == DataModel::Str(k) {
        assert(key_index(es, k) == Some(0int));
        assert(r == es.update(0, (es[0].0, v)));
        assert(r[0] == (DataModel::Str(k), v));
        assert(r.drop_first() =~= es.drop_first());
    } else {
        let rest = es.drop_first();
        lemma_map_get_insert(rest, k, v, k2);
        match key_index(rest, k) {
            Some(j) => {
                lemma_key_index(rest, k);
                assert(key_index(es, k) == Some(j + 1));
                assert(r == es.update(j + 1, (es[j + 1].0, v)));
                assert(map_insert(rest, k, v) == rest.update(j, (rest[j].0, v)));
                assert(r.drop_first() =~= map_insert(rest, k, v));
                assert(r[0] == es[0]);
            },
            None => {
                assert(key_index(es, k) is None);
                assert(r == es.push((DataModel::Str(k), v)));
                assert(map_insert(rest, k, v) == rest.push((DataModel::Str(k), v)));
                assert(r.drop_first() =~= map_insert(rest, k, v));
                assert(r[0] == es[0]);
            },
        }
    }
}

/// No two entries have the same key.
pub open spec fn keys_unique(es: Seq<(DataModel, DataModel)>) -> bool {
    forall|a: int, b: int| 0 <= a < b < es.len() ==> (#[trigger] es[a]).0 != (#[trigger] es[b]).0
}

proof fn lemma_map_get_unique(es: Seq<(DataModel, DataModel)>, k: Seq<char>)
    requires
        keys_unique(es),
    ensures
        forall|j: int| 0 <= j < es.len() && (#[trigger] es[j]).0 == DataModel::Str(k) ==> map_get(es, k) == Some(es[j].1),
        (forall|j: int| 0 <= j < es.len() ==> (#[trigger] es[j]).0 != DataModel::Str(k)) ==> map_get(es, k) is None,
{
    lemma_key_index(es, k);
    assert forall|j: int| 0 <= j < es.len() && (#[trigger] es[j]).0 == DataModel::Str(k) implies map_get(es, k) == Some(
        es[j].1,
    ) by {
        match key_index(es, k) {
            Some(i) => {
                if i < j {
                    assert(es[i].0 != es[j].0);
                } else if j < i {
                    assert(es[j].0 != es[i].0);
                }
            },
            None => {},
        }
    }
}

/// With keys that occur once, removing a key's entry (swapping in the last)
/// leaves that key with nothing and every other key as it was.
pub proof fn lemma_map_get_swap_remove(es: Seq<(DataModel, DataModel)>, k: Seq<char>, k2: Seq<char>)
    requires
        keys_unique(es),
    ensures
        map_get(map_swap_remove(es, k), k2) == if k2 == k {
            None
        } else {
            map_get(es, k2)
        },
        keys_unique(map_swap_remove(es, k)),
{
    lemma_key_index(es, k);
    lemma_map_get_unique(es, k2);
    match key_index(es, k) {
        Some(i) => {
            let r = es.update(i, es.last()).drop_last();
            assert(r == map_swap_remove(es, k));
            let n = es.len() - 1;
            // Each entry of r is an entry of es: r[j] == es[j] for j != i, r[i] == es[n].
            assert forall|a: int, b: int| 0 <= a < b < r.len() implies (#[trigger] r[a]).0 != (#[trigger] r[b]).0 by {
                let ia = if a == i { n } else { a };
                let ib = if b == i { n } else { b };
                assert(r[a] == es[ia]);
                assert(r[b] == es[ib]);
                if ia < ib {
                    assert(es[ia].0 != es[ib].0);
                } else {
                    assert(es[ib].0 != es[ia].0);
                }
            }
            lemma_map_get_unique(r, k2);
            if k2 == k {
                assert forall|j: int| 0 <= j < r.len() implies (#[trigger] r[j]).0 != DataModel::Str(k2) by {
                    let ij = if j == i { n } else { j };
                    assert(r[j] == es[ij]);
                    if ij != i {
                        if ij < i {
                            assert(es[ij].0 != es[i].0);
                        } else {
                            assert(es[i].0 != es[ij].0);
                        }
                    }
                }
            } else {
                if exists|j: int| 0 <= j < es.len() && (#[trigger] es[j]).0 == DataModel::Str(k2) {
                    let j = choose|j: int| 0 <= j < es.len() && (#[trigger] es[j]).0 == DataModel::Str(k2);
                    assert(j != i);
                    if j == n {
                        assert(r[i] == es[n]);
                    } else {
                        assert(r[j] == es[j]);
                    }
                } else {
                    assert forall|j: int| 0 <= j < r.len() implies (#[trigger] r[j]).0 != DataModel::Str(k2) by {
                        let ij = if j == i { n } else { j };
                        assert(r[j] == es[ij]);
                    }
                }
            }
        },
        None => {},
    }
}

/// Storing under a key keeps keys that occur once.
pub proof fn lemma_map_insert_unique(es: Seq<(DataModel, DataModel)>, k: Seq<char>, v: DataModel)
    requires
        keys_unique(es),
    ensures
        keys_unique(map_insert(es, k, v)),
{
    lemma_key_index(es, k);
    let r = map_insert(es, k, v);
    match key_index(es, k) {
        Some(i) => {
            assert forall|a: int, b: int| 0 <= a < b < r.len() implies (#[trigger] r[a]).0 != (#[trigger] r[b]).0 by {
                assert(r[a].0 == es[a].0);
                assert(r[b].0 == es[b].0);
            }
        },
        None => {
            assert forall|a: int, b: int| 0 <= a < b < r.len() implies (#[trigger] r[a]).0 != (#[trigger] r[b]).0 by {
                if b == es.len() {
                    assert(r[a] == es[a]);
                } else {
                    assert(r[a] == es[a]);
                    assert(r[b] == es[b]);
                }
            }
        },
    }
}

} // verus!
