use dux::tree::prefix::{calculate_prefixes, is_last_sibling, tree_prefix};
use dux::{DiskTree, NodeId, NodeKind};

fn s(text: &str) -> String {
    text.to_string()
}

#[test]
fn test_tree_creation() {
    let tree = DiskTree::new(s("/test"));
    assert_eq!(tree.len(), 1);
    assert_eq!(tree.root().name, "test");
}

#[test]
fn test_add_nodes() {
    let mut tree = DiskTree::new(s("/test"));

    let file_id = tree.add_node(s("file.txt"), NodeKind::File, s("/test/file.txt"), NodeId::root());

    assert_eq!(tree.len(), 2);
    assert_eq!(tree.get(file_id).unwrap().name, "file.txt");
    assert_eq!(tree.root().children.len(), 1);
}

#[test]
fn test_remove_node_with_size_propagation() {
    let mut tree = DiskTree::new(s("/test"));

    let subdir_id =
        tree.add_node(s("subdir"), NodeKind::Directory, s("/test/subdir"), NodeId::root());

    let file1_id =
        tree.add_node(s("file1.txt"), NodeKind::File, s("/test/subdir/file1.txt"), subdir_id);
    tree.set_size(file1_id, 1000);

    let file2_id =
        tree.add_node(s("file2.txt"), NodeKind::File, s("/test/subdir/file2.txt"), subdir_id);
    tree.set_size(file2_id, 2000);

    tree.aggregate_sizes();

    assert_eq!(tree.root().size, 3000);
    assert_eq!(tree.get(subdir_id).unwrap().size, 3000);

    let freed = tree.remove_node(file1_id);
    assert_eq!(freed, 1000);

    assert_eq!(tree.root().size, 2000);
    assert_eq!(tree.get(subdir_id).unwrap().size, 2000);

    assert!(tree.get(file1_id).is_none());
    assert!(tree.get(file2_id).is_some());
}

#[test]
fn test_remove_node_removes_descendants() {
    let mut tree = DiskTree::new(s("/test"));

    let subdir_id =
        tree.add_node(s("subdir"), NodeKind::Directory, s("/test/subdir"), NodeId::root());

    let file1_id =
        tree.add_node(s("file1.txt"), NodeKind::File, s("/test/subdir/file1.txt"), subdir_id);
    tree.set_size(file1_id, 1000);

    tree.aggregate_sizes();

    let freed = tree.remove_node(subdir_id);
    assert_eq!(freed, 1000);

    assert!(tree.get(subdir_id).is_none());
    assert!(tree.get(file1_id).is_none());

    assert_eq!(tree.root().children.len(), 0);
    assert_eq!(tree.root().size, 0);
}

#[test]
fn test_find_by_path() {
    let mut tree = DiskTree::new(s("/test"));

    let file_id = tree.add_node(s("file.txt"), NodeKind::File, s("/test/file.txt"), NodeId::root());

    assert_eq!(tree.find_by_path("/test/file.txt"), Some(file_id));
    assert_eq!(tree.find_by_path("/test/nonexistent.txt"), None);
}

fn sample_tree() -> (DiskTree, NodeId, NodeId, NodeId, NodeId) {
    let mut tree = DiskTree::new(s("/r"));
    let a = tree.add_node(s("a.txt"), NodeKind::File, s("/r/a.txt"), NodeId::root());
    tree.set_size(a, 100);
    let b = tree.add_node(s("b"), NodeKind::Directory, s("/r/b"), NodeId::root());
    let c = tree.add_node(s("c.txt"), NodeKind::File, s("/r/b/c.txt"), b);
    tree.set_size(c, 200);
    let d = tree.add_node(s("d.txt"), NodeKind::File, s("/r/b/d.txt"), b);
    tree.set_size(d, 300);
    (tree, a, b, c, d)
}

#[test]
fn root_is_an_expanded_directory_at_depth_zero() {
    let tree = DiskTree::new(s("/home/user/data"));
    let root = tree.root();
    assert_eq!(root.id, NodeId::root());
    assert_eq!(root.name, "data");
    assert_eq!(root.kind, NodeKind::Directory);
    assert_eq!(root.depth, 0);
    assert!(root.is_expanded);
    assert_eq!(root.parent, None);
    assert_eq!(root.path, "/home/user/data");
    assert_eq!(tree.root_path(), "/home/user/data");
    assert_eq!(tree.total_size(), 0);
    assert_eq!(tree.total_files(), 0);
    assert!(tree.is_empty());
}

#[test]
fn root_without_final_component_is_named_by_its_path() {
    let tree = DiskTree::new(s("/"));
    assert_eq!(tree.root().name, "/");
}

#[test]
fn new_nodes_start_collapsed_one_level_down() {
    let (tree, a, b, c, _d) = sample_tree();
    assert_eq!(tree.len(), 5);
    assert_eq!(tree.live_count(), 5);
    assert!(!tree.is_empty());
    assert_eq!(tree.get(a).unwrap().depth, 1);
    assert_eq!(tree.get(c).unwrap().depth, 2);
    assert_eq!(tree.get(c).unwrap().parent, Some(b));
    assert!(!tree.get(b).unwrap().is_expanded);
    assert_eq!(tree.get(a).unwrap().file_count, 1);
    assert_eq!(tree.get(b).unwrap().file_count, 0);
    assert_eq!(tree.get(b).unwrap().children, vec![c, NodeId(4)]);
    assert!(tree.get(NodeId(99)).is_none());
}

#[test]
fn aggregate_sums_children_into_directories() {
    let (mut tree, a, b, _c, _d) = sample_tree();
    tree.aggregate_sizes();
    assert_eq!(tree.get(b).unwrap().size, 500);
    assert_eq!(tree.get(b).unwrap().file_count, 2);
    assert_eq!(tree.root().size, 600);
    assert_eq!(tree.root().file_count, 3);
    assert_eq!(tree.get(a).unwrap().size, 100);
    assert_eq!(tree.total_size(), 600);
    assert_eq!(tree.total_files(), 3);
}

#[test]
fn aggregate_stops_at_the_largest_size() {
    let mut tree = DiskTree::new(s("/r"));
    let a = tree.add_node(s("a"), NodeKind::File, s("/r/a"), NodeId::root());
    let b = tree.add_node(s("b"), NodeKind::File, s("/r/b"), NodeId::root());
    tree.set_size(a, u64::MAX - 5);
    tree.set_size(b, 10);
    tree.aggregate_sizes();
    assert_eq!(tree.root().size, u64::MAX);
}

#[test]
fn sort_puts_largest_first_and_keeps_ties_in_order() {
    let (mut tree, a, b, c, d) = sample_tree();
    let e = tree.add_node(s("e.txt"), NodeKind::File, s("/r/e.txt"), NodeId::root());
    tree.set_size(e, 100);
    tree.aggregate_sizes();
    tree.sort_by_size();
    assert_eq!(tree.root().children, vec![b, a, e]);
    assert_eq!(tree.get(b).unwrap().children, vec![d, c]);
}

#[test]
fn visible_nodes_follow_expansion() {
    let (mut tree, a, b, c, d) = sample_tree();
    assert_eq!(tree.visible_nodes(NodeId::root()), vec![NodeId::root(), a, b]);
    tree.set_expanded(b, true);
    assert_eq!(tree.visible_nodes(NodeId::root()), vec![NodeId::root(), a, b, c, d]);
    assert_eq!(tree.visible_nodes(b), vec![b, c, d]);
    tree.toggle_expanded(NodeId::root());
    assert_eq!(tree.visible_nodes(NodeId::root()), vec![NodeId::root()]);
    assert_eq!(tree.visible_nodes(NodeId(77)), vec![NodeId(77)]);
}

#[test]
fn expansion_is_for_directories_only() {
    let (mut tree, a, _b, _c, _d) = sample_tree();
    tree.set_expanded(a, true);
    assert!(!tree.get(a).unwrap().is_expanded);
    tree.toggle_expanded(a);
    assert!(!tree.get(a).unwrap().is_expanded);
}

#[test]
fn path_to_node_runs_from_the_root_down() {
    let (tree, _a, b, c, _d) = sample_tree();
    assert_eq!(tree.path_to_node(c), vec![NodeId::root(), b, c]);
    assert_eq!(tree.path_to_node(NodeId::root()), vec![NodeId::root()]);
    assert_eq!(tree.path_to_node(NodeId(50)), vec![NodeId(50)]);
}

#[test]
fn breadcrumbs_join_names_with_slashes() {
    let (tree, _a, _b, c, _d) = sample_tree();
    assert_eq!(tree.breadcrumbs(c), "r/b/c.txt");
    assert_eq!(tree.breadcrumbs(NodeId::root()), "r");
    assert_eq!(tree.breadcrumbs(NodeId(50)), "");
}

#[test]
fn expand_to_opens_every_directory_on_the_way() {
    let (mut tree, _a, b, c, _d) = sample_tree();
    tree.set_expanded(NodeId::root(), false);
    tree.expand_to(c);
    assert!(tree.root().is_expanded);
    assert!(tree.get(b).unwrap().is_expanded);
    assert!(!tree.get(c).unwrap().is_expanded);
}

#[test]
fn removing_a_subdirectory_tombstones_it_and_shrinks_the_root() {
    let (mut tree, a, b, c, d) = sample_tree();
    tree.aggregate_sizes();
    tree.sort_by_size();
    let freed = tree.remove_node(b);
    assert_eq!(freed, 500);
    assert_eq!(tree.root().children, vec![a]);
    assert_eq!(tree.root().size, 100);
    assert_eq!(tree.root().file_count, 1);
    assert!(tree.get(b).is_none());
    assert!(tree.get(c).is_none());
    assert!(tree.get(d).is_none());
    assert_eq!(tree.len(), 5);
    assert_eq!(tree.live_count(), 2);
    assert_eq!(tree.iter().len(), 2);
}

#[test]
fn removing_the_root_or_an_absent_node_does_nothing() {
    let (mut tree, _a, b, _c, _d) = sample_tree();
    tree.aggregate_sizes();
    assert_eq!(tree.remove_node(NodeId::root()), 0);
    assert_eq!(tree.live_count(), 5);
    assert_eq!(tree.remove_node(b), 500);
    assert_eq!(tree.remove_node(b), 0);
    assert_eq!(tree.remove_node(NodeId(40)), 0);
    assert_eq!(tree.root().size, 100);
}

#[test]
fn removal_never_takes_sizes_below_zero() {
    let (mut tree, _a, b, c, _d) = sample_tree();
    tree.set_size(b, 50);
    let freed = tree.remove_node(c);
    assert_eq!(freed, 200);
    assert_eq!(tree.get(b).unwrap().size, 0);
    assert_eq!(tree.root().size, 0);
}

#[test]
fn identifiers_are_not_reused_after_removal() {
    let (mut tree, a, _b, _c, _d) = sample_tree();
    tree.remove_node(a);
    let e = tree.add_node(s("e"), NodeKind::File, s("/r/e"), NodeId::root());
    assert_eq!(e, NodeId(5));
    assert!(tree.get(a).is_none());
}

#[test]
fn rebuild_paths_restores_stripped_paths() {
    let (tree, a, b, c, d) = sample_tree();
    let mut parts = Vec::new();
    let mut i = 0;
    while i < tree.len() {
        parts.push(tree.get(NodeId(i)).map(|n| {
            let mut copy = n.clone();
            copy.path = String::new();
            copy
        }));
        i += 1;
    }
    let mut stripped = DiskTree::from_parts(s("/r"), parts).unwrap();
    assert_eq!(stripped.get(c).unwrap().path, "");
    stripped.rebuild_paths();
    assert_eq!(stripped.root().path, "/r");
    assert_eq!(stripped.get(a).unwrap().path, "/r/a.txt");
    assert_eq!(stripped.get(b).unwrap().path, "/r/b");
    assert_eq!(stripped.get(c).unwrap().path, "/r/b/c.txt");
    assert_eq!(stripped.get(d).unwrap().path, "/r/b/d.txt");
    for id in [NodeId::root(), a, b, c, d] {
        assert_eq!(stripped.get(id).unwrap().path, tree.get(id).unwrap().path);
        assert_eq!(stripped.get(id).unwrap().name, tree.get(id).unwrap().name);
        assert_eq!(stripped.get(id).unwrap().children, tree.get(id).unwrap().children);
    }
}

#[test]
fn from_parts_takes_only_well_formed_trees() {
    let (mut tree, a, b, _c, _d) = sample_tree();
    tree.remove_node(a);
    let collect = |t: &DiskTree| {
        let mut parts = Vec::new();
        let mut i = 0;
        while i < t.len() {
            parts.push(t.get(NodeId(i)).cloned());
            i += 1;
        }
        parts
    };
    assert!(DiskTree::from_parts(s("/r"), collect(&tree)).is_some());

    assert!(DiskTree::from_parts(s("/r"), Vec::new()).is_none());

    let mut no_root = collect(&tree);
    no_root[0] = None;
    assert!(DiskTree::from_parts(s("/r"), no_root).is_none());

    let mut dangling = collect(&tree);
    dangling[b.index()] = None;
    assert!(DiskTree::from_parts(s("/r"), dangling).is_none());

    let mut twice = collect(&tree);
    twice[0].as_mut().unwrap().children.push(b);
    assert!(DiskTree::from_parts(s("/r"), twice).is_none());

    let mut unlisted = collect(&tree);
    unlisted[0].as_mut().unwrap().children.clear();
    assert!(DiskTree::from_parts(s("/r"), unlisted).is_none());

    let mut wrong_depth = collect(&tree);
    wrong_depth[b.index()].as_mut().unwrap().depth = 3;
    assert!(DiskTree::from_parts(s("/r"), wrong_depth).is_none());

    let mut wrong_id = collect(&tree);
    wrong_id[b.index()].as_mut().unwrap().id = NodeId(9);
    assert!(DiskTree::from_parts(s("/r"), wrong_id).is_none());
}

#[test]
fn add_node_under_an_absent_parent_is_not_listed() {
    let mut tree = DiskTree::new(s("/r"));
    let orphan = tree.add_node(s("x"), NodeKind::File, s("/r/x"), NodeId(7));
    assert_eq!(orphan, NodeId(1));
    assert_eq!(tree.len(), 2);
    assert_eq!(tree.get(orphan).unwrap().depth, 1);
    assert_eq!(tree.get(orphan).unwrap().parent, Some(NodeId(7)));
    assert_eq!(tree.root().children.len(), 0);
}

#[test]
fn largest_first_sorts_identifiers_by_size() {
    let (tree, a, b, c, d) = sample_tree();
    assert_eq!(tree.largest_first(vec![a, b, c, d]), vec![d, c, a, b]);
}

#[test]
fn node_kind_helpers() {
    assert!(NodeKind::Directory.is_directory());
    assert!(!NodeKind::File.is_directory());
    assert_eq!(NodeKind::Directory.icon(), "📁");
    assert_eq!(NodeKind::File.icon(), "📄");
    assert_eq!(NodeKind::Symlink.icon(), "🔗");
    assert_eq!(NodeKind::Error.icon(), "⚠️");
    let (tree, a, b, _c, _d) = sample_tree();
    assert!(tree.get(b).unwrap().has_children());
    assert!(tree.get(b).unwrap().is_expandable());
    assert!(!tree.get(a).unwrap().has_children());
    assert!(!tree.get(a).unwrap().is_expandable());
    assert_eq!(NodeId(3).index(), 3);
}

#[test]
fn descendants_are_collected_depth_first() {
    let mut tree = DiskTree::new(s("/r"));
    let a = tree.add_node(s("a"), NodeKind::Directory, s("/r/a"), NodeId::root());
    let b = tree.add_node(s("b"), NodeKind::Directory, s("/r/b"), NodeId::root());
    let a1 = tree.add_node(s("a1"), NodeKind::File, s("/r/a/a1"), a);
    let b1 = tree.add_node(s("b1"), NodeKind::Directory, s("/r/b/b1"), b);
    let a2 = tree.add_node(s("a2"), NodeKind::File, s("/r/a/a2"), a);
    let b11 = tree.add_node(s("b11"), NodeKind::File, s("/r/b/b1/b11"), b1);
    let mut all = Vec::new();
    tree.collect_descendants(NodeId::root(), &mut all);
    assert_eq!(all, vec![a, a1, a2, b, b1, b11]);
    let mut below_b = vec![NodeId(99)];
    tree.collect_descendants(b, &mut below_b);
    assert_eq!(below_b, vec![NodeId(99), b1, b11]);
    let mut none = Vec::new();
    tree.collect_descendants(a1, &mut none);
    tree.collect_descendants(NodeId(70), &mut none);
    assert!(none.is_empty());

    tree.remove_node(b);
    assert!(tree.get(b).is_none());
    assert!(tree.get(b1).is_none());
    assert!(tree.get(b11).is_none());
    assert!(tree.get(a).is_some());
    assert!(tree.get(a1).is_some());
    assert!(tree.get(a2).is_some());
}

#[test]
fn get_mut_reaches_live_nodes_only() {
    let (mut tree, a, _b, _c, _d) = sample_tree();
    tree.get_mut(a).unwrap().size = 42;
    assert_eq!(tree.get(a).unwrap().size, 42);
    assert!(tree.get_mut(NodeId(30)).is_none());
    tree.remove_node(a);
    assert!(tree.get_mut(a).is_none());
}

#[test]
fn branches_are_drawn_in_front_of_each_line() {
    let mut tree = DiskTree::new(s("/r"));
    let a = tree.add_node(s("a"), NodeKind::Directory, s("/r/a"), NodeId::root());
    let a1 = tree.add_node(s("a1"), NodeKind::File, s("/r/a/a1"), a);
    let a2 = tree.add_node(s("a2"), NodeKind::Directory, s("/r/a/a2"), a);
    let a21 = tree.add_node(s("a21"), NodeKind::File, s("/r/a/a2/a21"), a2);
    let b = tree.add_node(s("b"), NodeKind::File, s("/r/b"), NodeId::root());

    assert!(is_last_sibling(&tree, NodeId::root()));
    assert!(!is_last_sibling(&tree, a));
    assert!(is_last_sibling(&tree, b));
    assert!(!is_last_sibling(&tree, a1));
    assert!(is_last_sibling(&tree, a2));
    assert!(is_last_sibling(&tree, NodeId(60)));

    let root = NodeId::root();
    assert_eq!(tree_prefix(&tree, root, root), "");
    assert_eq!(tree_prefix(&tree, root, a), "├─ ");
    assert_eq!(tree_prefix(&tree, root, b), "└─ ");
    assert_eq!(tree_prefix(&tree, root, a1), "│  ├─ ");
    assert_eq!(tree_prefix(&tree, root, a2), "│  └─ ");
    assert_eq!(tree_prefix(&tree, root, a21), "│     └─ ");
    assert_eq!(tree_prefix(&tree, root, NodeId(60)), "");

    assert_eq!(tree_prefix(&tree, a, a), "");
    assert_eq!(tree_prefix(&tree, a, a1), "├─ ");
    assert_eq!(tree_prefix(&tree, a, a21), "   └─ ");

    let lines = calculate_prefixes(&tree, root, &vec![root, a, a1, a2, a21, b]);
    assert_eq!(lines, vec!["", "├─ ", "│  ├─ ", "│  └─ ", "│     └─ ", "└─ "]);
}
