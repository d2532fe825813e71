use dux::views::computed::{
    newest_descendant_mtime, rebuild_build_artifacts, rebuild_large_files, ComputedViews,
};
use dux::views::{classify_artifact, is_stale, ArtifactKind, StaleThreshold};
use dux::{DiskTree, NodeId, NodeKind, Timestamp};

fn s(text: &str) -> String {
    text.to_string()
}

const DAY: u128 = 86_400 * 1_000_000_000;

fn days(n: u128) -> Timestamp {
    Timestamp { nanos: n * DAY }
}

#[test]
fn classifier_table() {
    assert_eq!(classify_artifact("target"), Some(ArtifactKind::Rust));
    assert_eq!(classify_artifact("DerivedData"), Some(ArtifactKind::Xcode));
    assert_eq!(classify_artifact("Build"), Some(ArtifactKind::Xcode));
    assert_eq!(classify_artifact("node_modules"), Some(ArtifactKind::Node));
    assert_eq!(classify_artifact("build"), Some(ArtifactKind::Generic));
    assert_eq!(classify_artifact("dist"), Some(ArtifactKind::Generic));
    assert_eq!(classify_artifact(".gradle"), Some(ArtifactKind::Gradle));
    assert_eq!(classify_artifact("__pycache__"), Some(ArtifactKind::Python));
    assert_eq!(classify_artifact(".tox"), Some(ArtifactKind::Python));
    assert_eq!(classify_artifact(".venv"), Some(ArtifactKind::Python));
    assert_eq!(classify_artifact("venv"), Some(ArtifactKind::Python));
    assert_eq!(classify_artifact("Pods"), Some(ArtifactKind::CocoaPods));
    assert_eq!(classify_artifact(".next"), Some(ArtifactKind::NextNuxt));
    assert_eq!(classify_artifact(".nuxt"), Some(ArtifactKind::NextNuxt));
    assert_eq!(classify_artifact("vendor"), Some(ArtifactKind::Vendor));
    assert_eq!(classify_artifact(".cache"), Some(ArtifactKind::Cache));
    assert_eq!(classify_artifact("src"), None);
    assert_eq!(classify_artifact("Target"), None);
    assert_eq!(classify_artifact("targets"), None);
    assert_eq!(classify_artifact(""), None);
}

#[test]
fn artifact_labels() {
    assert_eq!(ArtifactKind::Rust.label(), "Rust");
    assert_eq!(ArtifactKind::Xcode.label(), "Xcode");
    assert_eq!(ArtifactKind::Node.label(), "Node");
    assert_eq!(ArtifactKind::Generic.label(), "Build");
    assert_eq!(ArtifactKind::Gradle.label(), "Gradle");
    assert_eq!(ArtifactKind::Python.label(), "Python");
    assert_eq!(ArtifactKind::CocoaPods.label(), "CocoaPods");
    assert_eq!(ArtifactKind::NextNuxt.label(), "Next/Nuxt");
    assert_eq!(ArtifactKind::Vendor.label(), "Vendor");
    assert_eq!(ArtifactKind::Cache.label(), "Cache");
}

#[test]
fn thresholds_cycle_through_five_steps() {
    assert_eq!(StaleThreshold::OneDay.next(), StaleThreshold::SevenDays);
    assert_eq!(StaleThreshold::SevenDays.next(), StaleThreshold::ThirtyDays);
    assert_eq!(StaleThreshold::ThirtyDays.next(), StaleThreshold::NinetyDays);
    assert_eq!(StaleThreshold::NinetyDays.next(), StaleThreshold::All);
    assert_eq!(StaleThreshold::All.next(), StaleThreshold::OneDay);
    assert_eq!(StaleThreshold::OneDay.label(), "1d");
    assert_eq!(StaleThreshold::SevenDays.label(), "7d");
    assert_eq!(StaleThreshold::ThirtyDays.label(), "30d");
    assert_eq!(StaleThreshold::NinetyDays.label(), "90d");
    assert_eq!(StaleThreshold::All.label(), "All");
    assert_eq!(StaleThreshold::OneDay.duration(), Some(86_400));
    assert_eq!(StaleThreshold::SevenDays.duration(), Some(7 * 86_400));
    assert_eq!(StaleThreshold::ThirtyDays.duration(), Some(30 * 86_400));
    assert_eq!(StaleThreshold::NinetyDays.duration(), Some(90 * 86_400));
    assert_eq!(StaleThreshold::All.duration(), None);
}

#[test]
fn staleness_rule() {
    let now = days(100);
    assert!(is_stale(StaleThreshold::SevenDays, Some(days(90)), now));
    assert!(!is_stale(StaleThreshold::ThirtyDays, Some(days(90)), now));
    assert!(!is_stale(StaleThreshold::SevenDays, Some(days(93)), now));
    assert!(is_stale(
        StaleThreshold::SevenDays,
        Some(Timestamp { nanos: 93 * DAY - 1 }),
        now
    ));
    assert!(!is_stale(StaleThreshold::SevenDays, None, now));
    assert!(!is_stale(StaleThreshold::OneDay, Some(days(200)), now));
    assert!(is_stale(StaleThreshold::All, None, now));
    assert!(is_stale(StaleThreshold::All, Some(days(200)), now));
}

fn project() -> (DiskTree, NodeId, NodeId) {
    let mut tree = DiskTree::new(s("/p"));
    let src = tree.add_node(s("src"), NodeKind::Directory, s("/p/src"), NodeId::root());
    let main = tree.add_node(s("main.rs"), NodeKind::File, s("/p/src/main.rs"), src);
    tree.set_size(main, 40);
    let modules =
        tree.add_node(s("node_modules"), NodeKind::Directory, s("/p/node_modules"), NodeId::root());
    tree.set_mtime(modules, Some(days(50)));
    let inner = tree.add_node(s("build"), NodeKind::Directory, s("/p/node_modules/build"), modules);
    tree.set_mtime(inner, Some(days(90)));
    let lib = tree.add_node(s("lib.js"), NodeKind::File, s("/p/node_modules/build/lib.js"), inner);
    tree.set_size(lib, 7000);
    let target = tree.add_node(s("target"), NodeKind::Directory, s("/p/target"), NodeId::root());
    let bin = tree.add_node(s("bin"), NodeKind::File, s("/p/target/bin"), target);
    tree.set_size(bin, 9000);
    let note = tree.add_node(s("build"), NodeKind::File, s("/p/build"), NodeId::root());
    tree.set_size(note, 7000);
    tree.aggregate_sizes();
    tree.sort_by_size();
    (tree, modules, target)
}

#[test]
fn large_files_are_all_files_largest_first() {
    let (tree, _modules, _target) = project();
    let files = rebuild_large_files(&tree);
    let listed: Vec<(String, u64)> =
        files.iter().map(|e| (e.relative_path.clone(), e.size)).collect();
    assert_eq!(
        listed,
        vec![
            (s("target/bin"), 9000),
            (s("node_modules/build/lib.js"), 7000),
            (s("build"), 7000),
            (s("src/main.rs"), 40),
        ]
    );
    assert_eq!(tree.get(files[0].node_id).unwrap().name, "bin");
}

#[test]
fn artifact_roots_hide_nested_artifacts_and_files() {
    let (tree, modules, target) = project();
    let roots = rebuild_build_artifacts(&tree, StaleThreshold::SevenDays, days(100));
    let ids: Vec<NodeId> = roots.iter().map(|e| e.node_id).collect();
    assert_eq!(ids, vec![target, modules]);
    assert_eq!(roots[0].kind, ArtifactKind::Rust);
    assert_eq!(roots[0].relative_path, "target");
    assert_eq!(roots[0].size, 9000);
    assert_eq!(roots[0].newest_mtime, None);
    assert!(!roots[0].is_stale);
    assert_eq!(roots[1].kind, ArtifactKind::Node);
    assert_eq!(roots[1].size, 7000);
    assert_eq!(roots[1].newest_mtime, Some(days(90)));
    assert!(roots[1].is_stale);
}

#[test]
fn newest_mtime_looks_at_the_whole_subtree() {
    let (tree, modules, target) = project();
    assert_eq!(newest_descendant_mtime(&tree, modules), Some(days(90)));
    assert_eq!(newest_descendant_mtime(&tree, target), None);
    assert_eq!(newest_descendant_mtime(&tree, NodeId::root()), Some(days(90)));
    assert_eq!(newest_descendant_mtime(&tree, NodeId(99)), None);
}

#[test]
fn staleness_follows_the_threshold_without_the_tree() {
    let mut tree = DiskTree::new(s("/p"));
    let modules =
        tree.add_node(s("node_modules"), NodeKind::Directory, s("/p/node_modules"), NodeId::root());
    let deep = tree.add_node(s("pkg"), NodeKind::Directory, s("/p/node_modules/pkg"), modules);
    tree.set_mtime(modules, Some(days(60)));
    tree.set_mtime(deep, Some(days(90)));
    let now = days(100);

    let mut views = ComputedViews::new();
    assert!(views.dirty);
    assert_eq!(views.stale_threshold, StaleThreshold::SevenDays);
    views.rebuild(&tree, now);
    assert!(!views.dirty);
    assert_eq!(views.build_artifacts.len(), 1);
    assert_eq!(views.build_artifacts[0].newest_mtime, Some(days(90)));
    assert!(views.build_artifacts[0].is_stale);

    drop(tree);
    views.cycle_stale_threshold(now);
    assert_eq!(views.stale_threshold, StaleThreshold::ThirtyDays);
    assert!(!views.build_artifacts[0].is_stale);
    views.cycle_stale_threshold(now);
    assert_eq!(views.stale_threshold, StaleThreshold::NinetyDays);
    assert!(!views.build_artifacts[0].is_stale);
    views.cycle_stale_threshold(now);
    assert_eq!(views.stale_threshold, StaleThreshold::All);
    assert!(views.build_artifacts[0].is_stale);
    views.cycle_stale_threshold(now);
    assert_eq!(views.stale_threshold, StaleThreshold::OneDay);
    assert!(views.build_artifacts[0].is_stale);
    views.cycle_stale_threshold(now);
    assert_eq!(views.stale_threshold, StaleThreshold::SevenDays);
    assert!(views.build_artifacts[0].is_stale);
    assert_eq!(views.build_artifacts[0].node_id, modules);
}

#[test]
fn paths_outside_the_root_are_shown_in_full() {
    let mut tree = DiskTree::new(s("/p"));
    let far = tree.add_node(s("far"), NodeKind::File, s("/elsewhere/far"), NodeId::root());
    tree.set_size(far, 1);
    let files = rebuild_large_files(&tree);
    assert_eq!(files[0].relative_path, "/elsewhere/far");
}
