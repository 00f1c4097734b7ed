use ratmole::item::ReExport;
use ratmole::path::{Path, Visibility};
use ratmole::use_path::{UsePath, UsePathComponent};

#[test]
fn path_text_round_trips_root_marker() {
    assert_eq!(Path::from_strs(vec!["", "x", "y"]).to_text(), "::x::y");
    assert_eq!(Path::from_strs(vec!["crate", "super", "z"]).to_text(), "crate::super::z");
    assert_eq!(Path::from_strs(vec![]).to_text(), "");
}

#[test]
fn use_path_text_has_visibility_and_rename() {
    let vis = Visibility::Restricted(Path::from_strs(vec!["crate", "a"]));
    let up = UsePath::new(
        vec![
            UsePathComponent::Name(String::from("x")),
            UsePathComponent::Rename(String::from("y"), String::from("z")),
        ],
        vis,
    );
    assert_eq!(up.to_text(), "pub(in crate::a) x::y as z");
    let glob = UsePath::new(
        vec![UsePathComponent::Empty, UsePathComponent::Name(String::from("k")), UsePathComponent::Glob],
        Visibility::Private,
    );
    assert_eq!(glob.to_text(), "::k::*");
    assert_eq!(Visibility::Crate.to_text(), "pub(crate) ");
}

#[test]
fn reexport_is_named_by_its_path() {
    let up = UsePath::from_strs(vec!["m", "S as T"]);
    let r = ReExport::new(Path::from_strs(vec!["a"]), up, vec![]);
    assert_eq!(r.name, "pub m::S as T");
}
