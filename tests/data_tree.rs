use parallel_disk_usage::data_tree::DataTree;
use parallel_disk_usage::size::{Blocks, Bytes, Size};

fn flat() -> DataTree<String, Bytes> {
    DataTree::dir(
        "flat".to_string(),
        Bytes::new(5),
        (0..4u64)
            .map(|i| DataTree::file(format!("flat/{}", i), Bytes::new(i)))
            .collect(),
    )
}

fn deep() -> DataTree<String, Bytes> {
    // root 100 = 10 + a(60 = 5 + a/x 50 + a/y 5) + b(30 = 30)
    let a = DataTree::dir(
        "a".to_string(),
        Bytes::new(5),
        vec![
            DataTree::file("a/x".to_string(), Bytes::new(50)),
            DataTree::file("a/y".to_string(), Bytes::new(5)),
        ],
    );
    let b = DataTree::file("b".to_string(), Bytes::new(30));
    DataTree::dir("root".to_string(), Bytes::new(10), vec![a, b])
}

fn names(tree: &DataTree<String, Bytes>) -> Vec<String> {
    tree.children().iter().map(|c| c.name().clone()).collect()
}

#[test]
fn dir_sums_children() {
    let tree = flat();
    assert_eq!(tree.size(), Bytes::new(11));
    assert_eq!(tree.name(), "flat");
    assert_eq!(tree.children().len(), 4);
    assert_eq!(tree.children()[3].size().inner(), 3);
}

#[test]
fn empty_dir_has_own_size() {
    let tree: DataTree<String, Bytes> = DataTree::dir("e".to_string(), Bytes::new(5), Vec::new());
    assert_eq!(tree.size().inner(), 5);
    assert!(tree.children().is_empty());
}

#[test]
fn name_mut_changes_only_name() {
    let mut tree = flat();
    *tree.name_mut() = "renamed".to_string();
    assert_eq!(tree.name(), "renamed");
    assert_eq!(tree.size().inner(), 11);
    assert_eq!(tree.children().len(), 4);
}

#[test]
fn cull_flat_keeps_significant_children() {
    let mut tree = flat();
    tree.par_cull_insignificant_data(2, 11);
    assert_eq!(names(&tree), vec!["flat/2".to_string(), "flat/3".to_string()]);
    assert_eq!(tree.size().inner(), 11);
}

#[test]
fn cull_threshold_comes_from_root() {
    // 10% of 100: `a/y` (5) goes although it is large next to nothing,
    // and `a/x` (50) stays.
    let tree = deep().into_insignificant_data_par_culled(1, 10);
    assert_eq!(names(&tree), vec!["a".to_string(), "b".to_string()]);
    assert_eq!(names(&tree.children()[0]), vec!["a/x".to_string()]);
    assert_eq!(tree.children()[0].size().inner(), 60);
}

#[test]
fn cull_with_zero_ratio_keeps_everything() {
    let tree = deep().into_insignificant_data_par_culled(0, 1);
    assert_eq!(tree, deep());
}

#[test]
fn retain_keeps_sizes_and_order() {
    let mut tree = deep();
    tree.par_retain(|node: &DataTree<String, Bytes>| node.name() != "a/x");
    assert_eq!(tree.size().inner(), 100);
    assert_eq!(names(&tree), vec!["a".to_string(), "b".to_string()]);
    assert_eq!(tree.children()[0].size().inner(), 60);
    assert_eq!(names(&tree.children()[0]), vec!["a/y".to_string()]);
}

#[test]
fn retain_keeps_only_passing_children() {
    let tree = deep().into_par_retained(|node: &DataTree<String, Bytes>| node.size().inner() >= 30);
    for child in tree.children() {
        assert!(child.size().inner() >= 30);
    }
    assert_eq!(names(&tree), vec!["a".to_string(), "b".to_string()]);
    assert_eq!(names(&tree.children()[0]), vec!["a/x".to_string()]);
}

#[test]
fn retain_removed_child_is_not_visited() {
    let tree = deep().into_par_retained(|node: &DataTree<String, Bytes>| !node.name().starts_with('a'));
    assert_eq!(names(&tree), vec!["b".to_string()]);
}

#[test]
fn retain_never_removes_root() {
    let tree = deep().into_par_retained(|_: &DataTree<String, Bytes>| false);
    assert_eq!(tree.name(), "root");
    assert_eq!(tree.size().inner(), 100);
    assert!(tree.children().is_empty());
}

#[test]
fn retain_twice_is_retain_once() {
    let keep = |node: &DataTree<String, Bytes>| node.size().inner() >= 5 && node.name() != "b";
    let once = deep().into_par_retained(keep);
    let twice = deep().into_par_retained(keep).into_par_retained(keep);
    assert_eq!(once, twice);
}

#[test]
fn blocks_tree() {
    let tree = DataTree::dir(
        1u32,
        Blocks::new(1),
        vec![DataTree::file(2u32, Blocks::new(8)), DataTree::file(3u32, Blocks::new(0))],
    );
    assert_eq!(tree.size().to_u64(), 9);
    let tree = tree.into_insignificant_data_par_culled(1, 2);
    assert_eq!(tree.children().len(), 1);
    assert_eq!(*tree.children()[0].name(), 2);
}
