use ratmole::item::Struct;
use ratmole::path::{Path, Visibility};
use ratmole::tree::ItemTree;
use ratmole::use_path::UsePath;

fn st(module: &[&str], name: &str) -> Struct {
    Struct {
        name: String::from(name),
        vis: Visibility::Public,
        params: vec![],
        module: Path::from_strs(module.to_vec()),
    }
}

fn names(found: Vec<&Struct>) -> Vec<String> {
    let mut v: Vec<String> = found.iter().map(|s| format!("{:?}::{}", s.module, s.name)).collect();
    v.sort();
    v
}

#[test]
fn insertion_order_does_not_matter() {
    let a = vec![st(&["k"], "A"), st(&["k", "m"], "B"), st(&["k", "m"], "C"), st(&["k"], "D")];
    let b = vec![st(&["k"], "D"), st(&["k", "m"], "C"), st(&["k"], "A"), st(&["k", "m"], "B")];
    let ta = ItemTree::new(&a);
    let tb = ItemTree::new(&b);
    let root = Path::from_strs(vec![]);
    for q in [vec!["k", "*"], vec!["k", "m", "*"], vec!["k", "m", "B"], vec!["k", "A"]] {
        let up = UsePath::from_strs(q.clone());
        assert_eq!(names(ta.resolve_use_path(&up, &root)), names(tb.resolve_use_path(&up, &root)));
    }
    assert_eq!(names(ta.resolve_use_path(&UsePath::from_strs(vec!["k", "m", "*"]), &root)).len(), 2);
}

#[test]
fn later_item_with_same_key_wins() {
    let mut first = st(&["k"], "A");
    first.params = vec![String::from("T")];
    let items = vec![first, st(&["k"], "A")];
    let tree = ItemTree::new(&items);
    let found = tree.resolve_use_path(&UsePath::from_strs(vec!["A"]), &Path::from_strs(vec!["k"]));
    assert_eq!(found.len(), 1);
    assert!(found[0].params.is_empty());
}

#[test]
fn glob_does_not_descend() {
    let items = vec![st(&["k"], "A"), st(&["k", "m"], "B")];
    let tree = ItemTree::new(&items);
    let found = tree.resolve_use_path(&UsePath::from_strs(vec!["*"]), &Path::from_strs(vec!["k"]));
    assert_eq!(names(found), vec![format!("{:?}::A", Path::from_strs(vec!["k"]))]);
}

#[test]
fn missing_module_or_bad_prefix_gives_nothing() {
    let items = vec![st(&["k"], "A")];
    let tree = ItemTree::new(&items);
    let root = Path::from_strs(vec![]);
    assert!(tree.resolve_use_path(&UsePath::from_strs(vec!["nope", "A"]), &root).is_empty());
    assert!(tree.resolve_use_path(&UsePath::from_strs(vec!["*", "A"]), &root).is_empty());
    assert!(tree.resolve_use_path(&UsePath::from_strs(vec!["k", "a as b"]), &root).is_empty());
    assert_eq!(tree.resolve_use_path(&UsePath::from_strs(vec!["k", "A as Z"]), &root).len(), 1);
}
