use broquest::collection_tree::{build_tree, TreeCollection, TreeGroup, TreeNodeKind, TreeRequest};
use broquest::domain::HttpMethod;

fn req(name: &str, method: HttpMethod) -> TreeRequest {
    TreeRequest { name: name.to_string(), method }
}

#[test]
fn tree_is_sorted_by_name_with_ids() {
    let c = TreeCollection {
        name: "Shop".to_string(),
        path: "/home/u/shop".to_string(),
        requests: vec![req("b", HttpMethod::Get), req("a", HttpMethod::Post), req("b", HttpMethod::Delete)],
        groups: vec![
            TreeGroup { name: "users".to_string(), requests: vec![req("list", HttpMethod::Get)] },
            TreeGroup { name: "items".to_string(), requests: vec![req("z", HttpMethod::Put), req("m", HttpMethod::Get)] },
        ],
    };
    let expanded = vec!["collection__home_u_shop".to_string(), "group__home_u_shop_items".to_string()];
    let tree = build_tree(&vec![c], &expanded);
    assert_eq!(tree.len(), 1);
    let root = &tree[0];
    assert_eq!(root.id, "collection__home_u_shop");
    assert_eq!(root.kind, TreeNodeKind::Collection);
    assert!(root.expanded);
    let labels: Vec<&str> = root.children.iter().map(|n| n.label.as_str()).collect();
    assert_eq!(labels, vec!["a", "b", "b", "items", "users"]);
    assert_eq!(root.children[0].id, "request__home_u_shop_0");
    assert_eq!(root.children[0].source, Some(1));
    // Equal names keep their given order.
    assert_eq!(root.children[1].method, Some(HttpMethod::Get));
    assert_eq!(root.children[2].method, Some(HttpMethod::Delete));
    assert_eq!(root.children[2].id, "request__home_u_shop_2");
    let items = &root.children[3];
    assert_eq!(items.id, "group__home_u_shop_items");
    assert!(items.expanded);
    assert_eq!(items.group_path.as_deref(), Some("/home/u/shop/items"));
    let inner: Vec<(&str, &str)> = items.children.iter().map(|n| (n.label.as_str(), n.id.as_str())).collect();
    assert_eq!(inner, vec![("m", "request__home_u_shop_items_0"), ("z", "request__home_u_shop_items_1")]);
    assert!(!root.children[4].expanded);
    assert_eq!(root.children[4].kind, TreeNodeKind::Group);
}
