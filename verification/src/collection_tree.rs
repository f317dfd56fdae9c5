//! The collections tree of the side panel: each collection with its requests
//! and its groups, each group with its requests, everything sorted by name,
//! with the ids the panel keys its nodes by.

use vstd::prelude::*;

use crate::collection_types::opt_chars;
use crate::domain::HttpMethod;
use crate::history::{decimal, decimal_text};
use crate::text::{
    append_chars, append_str, chars_eq, chars_of, lemma_text_lt_total,
    lemma_text_lt_transitive, string_of, text_less, text_lt,
};

verus! {

// ---------------------------------------------------------------------------
// Sorting by name
// ---------------------------------------------------------------------------

/// Position `a` comes before position `b` when sorting by name: its name is
/// smaller, or the names are equal and it stands first.
pub open spec fn name_before(names: Seq<Seq<char>>, a: int, b: int) -> bool {
    text_lt(names[a], names[b]) || (names[a] == names[b] && a < b)
}

/// `perm` lists the positions of `names` sorted by name, equal names in the
/// order they are given (what a stable sort by name gives).
pub open spec fn sorted_positions(names: Seq<Seq<char>>, perm: Seq<int>) -> bool {
    &&& perm.len() == names.len()
    &&& forall|i: int| 0 <= i < perm.len() ==> 0 <= #[trigger] perm[i] < names.len()
    &&& forall|i: int, j: int| 0 <= i < j < perm.len() ==> name_before(names, #[trigger] perm[i], #[trigger] perm[j])
}

/// Positions as integers.
pub open spec fn positions(v: Seq<usize>) -> Seq<int> {
    v.map_values(|x: usize| x as int)
}

/// The positions of a list of names, sorted by name; equal names keep their
/// order.
pub fn sort_by_name(names: &Vec<Vec<char>>) -> (perm: Vec<usize>)
    ensures
        sorted_positions(names@.map_values(|n: Vec<char>| n@), positions(perm@)),
{
    let ghost ns = names@.map_values(|n: Vec<char>| n@);
    let mut perm: Vec<usize> = Vec::new();
    let mut k: usize = 0;
    while k < names.len()
        invariant
            k <= names.len(),
            ns == names@.map_values(|n: Vec<char>| n@),
            perm@.len() == k,
            forall|i: int| 0 <= i < perm@.len() ==> (#[trigger] perm@[i]) < k,
            forall|i: int, j: int|
                0 <= i < j < perm@.len() ==> name_before(ns, #[trigger] perm@[i] as int, #[trigger] perm@[j] as int),
        decreases names.len() - k,
    {
        let mut p: usize = 0;
        while p < perm.len() && !text_less(names[k].as_slice(), names[perm[p]].as_slice())
            invariant
                p <= perm@.len(),
                k < names.len(),
                ns == names@.map_values(|n: Vec<char>| n@),
                forall|i: int| 0 <= i < perm@.len() ==> (#[trigger] perm@[i]) < k,
                forall|q: int| 0 <= q < p ==> !text_lt(ns[k as int], ns[#[trigger] perm@[q] as int]),
            decreases perm@.len() - p,
        {
            p = p + 1;
        }
        let ghost old_perm = perm@;
        perm.insert(p, k);
        proof {
            assert forall|i: int| 0 <= i < perm@.len() implies (#[trigger] perm@[i]) < k + 1 by {
                if i < p {
                    assert(perm@[i] == old_perm[i]);
                } else if i > p {
                    assert(perm@[i] == old_perm[i - 1]);
                }
            }
            assert forall|i: int, j: int| 0 <= i < j < perm@.len() implies name_before(
                ns,
                #[trigger] perm@[i] as int,
                #[trigger] perm@[j] as int,
            ) by {
                let a = perm@[i] as int;
                let b = perm@[j] as int;
                if i < p && j < p {
                    assert(a == old_perm[i] && b == old_perm[j]);
                } else if i > p && j > p {
                    assert(a == old_perm[i - 1] && b == old_perm[j - 1]);
                } else if i < p && j > p {
                    assert(a == old_perm[i] && b == old_perm[j - 1]);
                } else if i < p {
                    // j == p: the new position comes after every earlier one.
                    assert(a == old_perm[i]);
                    assert(b == k);
                    assert(!text_lt(ns[k as int], ns[a]));
                    lemma_text_lt_total(ns[a], ns[k as int]);
                } else {
                    // i == p: the new position comes before every later one.
                    assert(a == k);
                    let c = old_perm[p as int] as int;
                    assert(perm@[p + 1] == old_perm[p as int]);
                    assert(text_lt(ns[k as int], ns[c]));
                    if j > p + 1 {
                        assert(b == old_perm[j - 1]);
                        assert(name_before(ns, old_perm[p as int] as int, old_perm[j - 1] as int));
                        if text_lt(ns[c], ns[b]) {
                            lemma_text_lt_transitive(ns[k as int], ns[c], ns[b]);
                        }
                    }
                }
            }
        }
        k = k + 1;
    }
    proof {
        let ps = positions(perm@);
        assert forall|i: int| 0 <= i < ps.len() implies 0 <= #[trigger] ps[i] < ns.len() by {
            assert(ps[i] == perm@[i] as int);
        }
        assert forall|i: int, j: int| 0 <= i < j < ps.len() implies name_before(ns, #[trigger] ps[i], #[trigger] ps[j]) by {
            assert(ps[i] == perm@[i] as int);
            assert(ps[j] == perm@[j] as int);
        }
    }
    perm
}

// ---------------------------------------------------------------------------
// The tree
// ---------------------------------------------------------------------------

/// A request as the tree shows it: its name and method.
#[derive(Debug, Clone, PartialEq)]
pub struct TreeRequest {
    pub name: String,
    pub method: HttpMethod,
}

/// A group of a collection: its name and requests.
#[derive(Debug, Clone, PartialEq)]
pub struct TreeGroup {
    pub name: String,
    pub requests: Vec<TreeRequest>,
}

/// A collection: its name, its path, its own requests and its groups.
#[derive(Debug, Clone, PartialEq)]
pub struct TreeCollection {
    pub name: String,
    pub path: String,
    pub requests: Vec<TreeRequest>,
    pub groups: Vec<TreeGroup>,
}

/// What a node of the tree stands for.
#[derive(Debug, Clone, Copy, PartialEq, Eq, Structural)]
pub enum TreeNodeKind {
    Collection,
    Group,
    Request,
}

/// A node of the collections tree.
#[derive(Debug, PartialEq)]
pub struct TreeNode {
    /// The id the panel keys the node by.
    pub id: String,
    pub label: String,
    pub kind: TreeNodeKind,
    /// For a request, its method.
    pub method: Option<HttpMethod>,
    pub collection_path: String,
    /// For a group and its requests: the collection's path, `/` and the
    /// group's name.
    pub group_path: Option<String>,
    pub expanded: bool,
    /// For a request, its position in its collection's or group's list.
    pub source: Option<usize>,
    pub children: Vec<TreeNode>,
}

/// A collection path as it appears in ids: each `/` written as `_`.
pub open spec fn path_key(p: Seq<char>) -> Seq<char> {
    p.map_values(|c: char| if c == '/' { '_' } else { c })
}

/// The names of requests.
pub open spec fn request_names(rs: Seq<TreeRequest>) -> Seq<Seq<char>> {
    rs.map_values(|r: TreeRequest| r.name@)
}

/// The names of groups.
pub open spec fn group_names(gs: Seq<TreeGroup>) -> Seq<Seq<char>> {
    gs.map_values(|g: TreeGroup| g.name@)
}

/// The id is among the ids of expanded nodes.
pub open spec fn id_listed(ids: Seq<String>, id: Seq<char>) -> bool {
    exists|i: int| 0 <= i < ids.len() && (#[trigger] ids[i])@ == id
}

/// `n` is the node of request `r`, the `src`-th of its list.
pub open spec fn request_node(
    r: TreeRequest,
    id: Seq<char>,
    cpath: Seq<char>,
    gpath: Option<Seq<char>>,
    expanded: bool,
    src: int,
    n: TreeNode,
) -> bool {
    &&& n.id@ == id
    &&& n.label@ == r.name@
    &&& n.kind == TreeNodeKind::Request
    &&& n.method == Some(r.method)
    &&& n.collection_path@ == cpath
    &&& opt_chars(n.group_path) == gpath
    &&& n.expanded == expanded
    &&& n.source == Some(src as usize)
    &&& n.children@.len() == 0
}

/// `nodes` are the nodes of the requests, sorted by name (equal names in
/// their given order); the `i`-th has the id `prefix` followed by `i`, and is
/// expanded when `ids` lists that id (never, without `ids`).
pub open spec fn requests_listed(
    rs: Seq<TreeRequest>,
    prefix: Seq<char>,
    cpath: Seq<char>,
    gpath: Option<Seq<char>>,
    ids: Option<Seq<String>>,
    nodes: Seq<TreeNode>,
) -> bool {
    &&& nodes.len() == rs.len()
    &&& exists|perm: Seq<int>|
        #![trigger sorted_positions(request_names(rs), perm)]
        sorted_positions(request_names(rs), perm) && forall|i: int|
            0 <= i < rs.len() ==> request_node(
                rs[perm[i]],
                prefix + decimal(i as nat),
                cpath,
                gpath,
                match ids {
                    Some(l) => id_listed(l, prefix + decimal(i as nat)),
                    None => false,
                },
                perm[i],
                #[trigger] nodes[i],
            )
}

/// `n` is the node of group `g` of the collection at `cpath`: id
/// `group_<path>_<name>`, its requests as children with ids
/// `request_<path>_<name>_<i>`, never expanded.
pub open spec fn group_node(g: TreeGroup, cpath: Seq<char>, ids: Seq<String>, n: TreeNode) -> bool {
    let pk = path_key(cpath);
    let id = "group_"@ + pk + "_"@ + g.name@;
    let gpath = cpath + "/"@ + g.name@;
    &&& n.id@ == id
    &&& n.label@ == g.name@
    &&& n.kind == TreeNodeKind::Group
    &&& n.method is None
    &&& n.collection_path@ == cpath
    &&& opt_chars(n.group_path) == Some(gpath)
    &&& n.expanded == id_listed(ids, id)
    &&& n.source is None
    &&& requests_listed(g.requests@, "request_"@ + pk + "_"@ + g.name@ + "_"@, cpath, Some(gpath), None, n.children@)
}

/// `n` is the node of collection `c`: id `collection_<path>`, its own
/// requests first (ids `request_<path>_<i>`), then its groups, each sorted by
/// name; it, its requests and its groups are expanded when `ids` lists their
/// ids.
pub open spec fn collection_node(c: TreeCollection, ids: Seq<String>, n: TreeNode) -> bool {
    let pk = path_key(c.path@);
    let id = "collection_"@ + pk;
    let rq = c.requests@.len();
    &&& n.id@ == id
    &&& n.label@ == c.name@
    &&& n.kind == TreeNodeKind::Collection
    &&& n.method is None
    &&& n.collection_path@ == c.path@
    &&& n.group_path is None
    &&& n.expanded == id_listed(ids, id)
    &&& n.source is None
    &&& n.children@.len() == rq + c.groups@.len()
    &&& requests_listed(c.requests@, "request_"@ + pk + "_"@, c.path@, None, Some(ids), n.children@.take(rq as int))
    &&& exists|gperm: Seq<int>|
        #![trigger sorted_positions(group_names(c.groups@), gperm)]
        sorted_positions(group_names(c.groups@), gperm) && forall|g: int|
            0 <= g < c.groups@.len() ==> group_node(c.groups@[gperm[g]], c.path@, ids, #[trigger] n.children@[rq + g])
}

/// A collection path as it appears in ids.
fn path_key_of(p: &str) -> (r: Vec<char>)
    ensures
        r@ == path_key(p@),
{
    let v = chars_of(p);
    let mut r: Vec<char> = Vec::new();
    let mut i: usize = 0;
    while i < v.len()
        invariant
            i <= v.len(),
            v@ == p@,
            r@ == path_key(v@.take(i as int)),
        decreases v.len() - i,
    {
        let c = if v[i] == '/' {
            '_'
        } else {
            v[i]
        };
        r.push(c);
        assert(path_key(v@.take(i + 1)) =~= path_key(v@.take(i as int)).push(c));
        i = i + 1;
    }
    assert(v@.take(v@.len() as int) =~= v@);
    r
}

/// Whether the id is among the ids of expanded nodes.
fn is_listed(ids: &Vec<String>, id: &[char]) -> (r: bool)
    ensures
        r == id_listed(ids@, id@),
{
    let mut i: usize = 0;
    while i < ids.len()
        invariant
            i <= ids.len(),
            forall|j: int| 0 <= j < i ==> (#[trigger] ids@[j])@ != id@,
        decreases ids.len() - i,
    {
        if chars_eq(chars_of(ids[i].as_str()).as_slice(), id) {
            assert(ids@[i as int]@ == id@);
            return true;
        }
        i = i + 1;
    }
    false
}

/// A text from a prefix and a number.
fn numbered(prefix: &[char], i: usize) -> (r: Vec<char>)
    ensures
        r@ == prefix@ + decimal(i as nat),
{
    let mut r: Vec<char> = Vec::new();
    append_chars(&mut r, prefix);
    let d = decimal_text(i as u64);
    append_chars(&mut r, d.as_slice());
    r
}

/// The nodes of a list of requests, as `requests_listed` says.
fn request_nodes(
    rs: &Vec<TreeRequest>,
    prefix: &[char],
    cpath: &String,
    gpath: &Option<String>,
    ids: &Vec<String>,
    use_ids: bool,
) -> (r: Vec<TreeNode>)
    ensures
        requests_listed(
            rs@,
            prefix@,
            cpath@,
            opt_chars(*gpath),
            if use_ids {
                Some(ids@)
            } else {
                None
            },
            r@,
        ),
{
    let mut names: Vec<Vec<char>> = Vec::new();
    let mut j: usize = 0;
    while j < rs.len()
        invariant
            j <= rs.len(),
            names@.len() == j,
            forall|q: int| 0 <= q < j ==> (#[trigger] names@[q])@ == rs@[q].name@,
        decreases rs.len() - j,
    {
        names.push(chars_of(rs[j].name.as_str()));
        j = j + 1;
    }
    assert(names@.map_values(|n: Vec<char>| n@) =~= request_names(rs@));
    let perm = sort_by_name(&names);
    let ghost ps = positions(perm@);
    let ghost lids: Option<Seq<String>> = if use_ids {
        Some(ids@)
    } else {
        None
    };
    let mut nodes: Vec<TreeNode> = Vec::new();
    let mut i: usize = 0;
    while i < perm.len()
        invariant
            i <= perm@.len(),
            perm@.len() == rs@.len(),
            ps == positions(perm@),
            sorted_positions(request_names(rs@), ps),
            lids == (if use_ids {
                Some(ids@)
            } else {
                None
            }),
            nodes@.len() == i,
            forall|q: int|
                0 <= q < i ==> request_node(
                    rs@[ps[q]],
                    prefix@ + decimal(q as nat),
                    cpath@,
                    opt_chars(*gpath),
                    match lids {
                        Some(l) => id_listed(l, prefix@ + decimal(q as nat)),
                        None => false,
                    },
                    ps[q],
                    #[trigger] nodes@[q],
                ),
        decreases perm@.len() - i,
    {
        let k = perm[i];
        assert(ps[i as int] == k as int);
        let id = numbered(prefix, i);
        let expanded = if use_ids {
            is_listed(ids, id.as_slice())
        } else {
            false
        };
        let group_path = match gpath {
            Some(g) => Some(g.clone()),
            None => None,
        };
        let node = TreeNode {
            id: string_of(id.as_slice()),
            label: rs[k].name.clone(),
            kind: TreeNodeKind::Request,
            method: Some(rs[k].method),
            collection_path: cpath.clone(),
            group_path,
            expanded,
            source: Some(k),
            children: Vec::new(),
        };
        nodes.push(node);
        proof {
            assert forall|q: int|
                0 <= q < i + 1 implies request_node(
                rs@[ps[q]],
                prefix@ + decimal(q as nat),
                cpath@,
                opt_chars(*gpath),
                match lids {
                    Some(l) => id_listed(l, prefix@ + decimal(q as nat)),
                    None => false,
                },
                ps[q],
                #[trigger] nodes@[q],
            ) by {
                if q == i {
                    assert(nodes@[q].children@ =~= Seq::<TreeNode>::empty());
                }
            }
        }
        i = i + 1;
    }
    assert(sorted_positions(request_names(rs@), ps));
    nodes
}

/// The node of a group of the collection at `cpath`, as `group_node` says.
fn group_node_of(g: &TreeGroup, cpath: &String, pk: &[char], ids: &Vec<String>) -> (n: TreeNode)
    requires
        pk@ == path_key(cpath@),
    ensures
        group_node(*g, cpath@, ids@, n),
{
    let gname = chars_of(g.name.as_str());
    let mut id = chars_of("group_");
    append_chars(&mut id, pk);
    append_str(&mut id, "_");
    append_chars(&mut id, gname.as_slice());
    let mut gpath = chars_of(cpath.as_str());
    append_str(&mut gpath, "/");
    append_chars(&mut gpath, gname.as_slice());
    let mut prefix = chars_of("request_");
    append_chars(&mut prefix, pk);
    append_str(&mut prefix, "_");
    append_chars(&mut prefix, gname.as_slice());
    append_str(&mut prefix, "_");
    let group_path = Some(string_of(gpath.as_slice()));
    let children = request_nodes(&g.requests, prefix.as_slice(), cpath, &group_path, ids, false);
    let expanded = is_listed(ids, id.as_slice());
    TreeNode {
        id: string_of(id.as_slice()),
        label: g.name.clone(),
        kind: TreeNodeKind::Group,
        method: None,
        collection_path: cpath.clone(),
        group_path,
        expanded,
        source: None,
        children,
    }
}

/// The node of a collection, as `collection_node` says.
pub fn collection_node_of(c: &TreeCollection, ids: &Vec<String>) -> (n: TreeNode)
    ensures
        collection_node(*c, ids@, n),
{
    let pk = path_key_of(c.path.as_str());
    let mut id = chars_of("collection_");
    append_chars(&mut id, pk.as_slice());
    let mut prefix = chars_of("request_");
    append_chars(&mut prefix, pk.as_slice());
    append_str(&mut prefix, "_");
    let no_group: Option<String> = None;
    let mut children = request_nodes(&c.requests, prefix.as_slice(), &c.path, &no_group, ids, true);
    let ghost rq = c.requests@.len();
    let ghost first = children@;
    let mut names: Vec<Vec<char>> = Vec::new();
    let mut j: usize = 0;
    while j < c.groups.len()
        invariant
            j <= c.groups.len(),
            names@.len() == j,
            forall|q: int| 0 <= q < j ==> (#[trigger] names@[q])@ == c.groups@[q].name@,
        decreases c.groups.len() - j,
    {
        names.push(chars_of(c.groups[j].name.as_str()));
        j = j + 1;
    }
    assert(names@.map_values(|n: Vec<char>| n@) =~= group_names(c.groups@));
    let gperm = sort_by_name(&names);
    let ghost ps = positions(gperm@);
    let mut i: usize = 0;
    while i < gperm.len()
        invariant
            i <= gperm@.len(),
            gperm@.len() == c.groups@.len(),
            ps == positions(gperm@),
            sorted_positions(group_names(c.groups@), ps),
            pk@ == path_key(c.path@),
            children@.len() == rq + i,
            children@.take(rq as int) == first,
            forall|g: int| 0 <= g < i ==> group_node(c.groups@[ps[g]], c.path@, ids@, #[trigger] children@[rq + g]),
        decreases gperm@.len() - i,
    {
        let k = gperm[i];
        assert(ps[i as int] == k as int);
        let node = group_node_of(&c.groups[k], &c.path, pk.as_slice(), ids);
        let ghost before = children@;
        children.push(node);
        assert(children@.take(rq as int) =~= before.take(rq as int));
        assert forall|g: int| 0 <= g < i + 1 implies group_node(c.groups@[ps[g]], c.path@, ids@, #[trigger] children@[rq + g]) by {
            if g < i {
                assert(children@[rq + g] == before[rq + g]);
            }
        }
        i = i + 1;
    }
    assert(sorted_positions(group_names(c.groups@), ps));
    let expanded = is_listed(ids, id.as_slice());
    TreeNode {
        id: string_of(id.as_slice()),
        label: c.name.clone(),
        kind: TreeNodeKind::Collection,
        method: None,
        collection_path: c.path.clone(),
        group_path: None,
        expanded,
        source: None,
        children,
    }
}

/// The collections tree: one node per collection, in the given order (see
/// `collection_node`); `expanded` lists the ids of the nodes that were
/// expanded before, which stay expanded.
pub fn build_tree(collections: &Vec<TreeCollection>, expanded: &Vec<String>) -> (r: Vec<TreeNode>)
    ensures
        r@.len() == collections@.len(),
        forall|i: int| 0 <= i < r@.len() ==> collection_node(collections@[i], expanded@, #[trigger] r@[i]),
{
    let mut r: Vec<TreeNode> = Vec::new();
    let mut i: usize = 0;
    while i < collections.len()
        invariant
            i <= collections.len(),
            r@.len() == i,
            forall|q: int| 0 <= q < i ==> collection_node(collections@[q], expanded@, #[trigger] r@[q]),
        decreases collections.len() - i,
    {
        let node = collection_node_of(&collections[i], expanded);
        r.push(node);
        i = i + 1;
    }
    r
}

} // verus!
