use ratmole::path::{Path, PathComponent};
use ratmole::use_path::{UsePath, UsePathComponent};

#[test]
fn test_delocalize() {
    let module = Path::from_strs(vec!["rand", "foo", "bar", "baz"]);

    let mut path = UsePath::from_strs(vec!["self", "super", "Help"]);
    let new_mod = Path::from_strs(vec!["rand", "foo", "bar"]);
    let new_path = UsePath::from_strs(vec!["Help"]);
    assert_eq!(path.delocalize(&module), new_mod);
    assert_eq!(path, new_path);

    let mut path = UsePath::from_strs(vec!["super", "super", "Help"]);
    let new_mod = Path::from_strs(vec!["rand", "foo"]);
    let new_path = UsePath::from_strs(vec!["Help"]);
    assert_eq!(path.delocalize(&module), new_mod);
    assert_eq!(path, new_path);

    let mut path = UsePath::from_strs(vec!["super", "cat", "Help"]);
    let new_mod = Path::from_strs(vec!["rand", "foo", "bar"]);
    let new_path = UsePath::from_strs(vec!["cat", "Help"]);
    assert_eq!(path.delocalize(&module), new_mod);
    assert_eq!(path, new_path);

    let mut path = UsePath::from_strs(vec!["crate", "cat", "Help"]);
    let new_mod = Path::from_strs(vec!["rand"]);
    let new_path = UsePath::from_strs(vec!["cat", "Help"]);
    assert_eq!(path.delocalize(&module), new_mod);
    assert_eq!(path, new_path);
}

#[test]
fn super_beyond_root_gives_empty_base() {
    let module = Path::from_strs(vec!["a"]);
    let mut path = UsePath::from_strs(vec!["super", "super", "X"]);
    assert_eq!(path.delocalize(&module), Path::from_strs(vec![]));
    assert_eq!(path, UsePath::from_strs(vec!["X"]));
}

#[test]
fn rename_text_is_split() {
    let path = UsePath::from_strs(vec!["foo", "a as b"]);
    assert_eq!(
        path.components()[1],
        UsePathComponent::Rename(String::from("a"), String::from("b"))
    );
    assert_eq!(path.components()[0], UsePathComponent::Name(String::from("foo")));
}

#[test]
fn glob_and_root_marker_are_read() {
    let path = UsePath::from_strs(vec!["", "x", "*"]);
    assert!(path.begins_with_empty());
    assert_eq!(path.components()[2], UsePathComponent::Glob);
}

#[test]
fn replace_and_remove_first() {
    let mut path = UsePath::from_strs(vec!["kore", "fmt"]);
    assert!(path.begins_with("kore"));
    path.replace_first("core");
    assert_eq!(path, UsePath::from_strs(vec!["core", "fmt"]));
    path.remove_first();
    assert_eq!(path, UsePath::from_strs(vec!["fmt"]));
}

#[test]
fn keyword_text_becomes_special_segment() {
    let p = Path::from_strs(vec!["crate", "self", "Self", "super", "", "x"]);
    assert_eq!(
        p.components().to_vec(),
        vec![
            PathComponent::Crate,
            PathComponent::SmallSelf,
            PathComponent::BigSelf,
            PathComponent::Super,
            PathComponent::Global,
            PathComponent::Name(String::from("x")),
        ]
    );
}
