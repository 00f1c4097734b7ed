use ratmole::discover::{ModuleCategory, ModuleFile};
use ratmole::extract::structs_from_items;
use ratmole::index::{resolve_uses, things_in_files, IndexError, ParsedFile, UseResolution};
use ratmole::path::Path;
use ratmole::resolve::{Edition, ResolvedUsePath};
use ratmole::source::{Meta, SourceItem, SourceVis, UseTree};
use ratmole::use_path::UsePath;

fn s(x: &str) -> String {
    String::from(x)
}

fn strukt(name: &str) -> SourceItem {
    SourceItem::Struct { name: s(name), vis: SourceVis::Public, params: vec![] }
}

fn inline_mod(name: &str, content: Vec<SourceItem>) -> SourceItem {
    SourceItem::Mod { name: s(name), vis: SourceVis::Inherited, attrs: vec![], content: Some(content) }
}

fn decl_mod(name: &str) -> SourceItem {
    SourceItem::Mod { name: s(name), vis: SourceVis::Inherited, attrs: vec![], content: None }
}

fn use_item(tree: UseTree) -> SourceItem {
    SourceItem::Use { vis: SourceVis::Inherited, leading_colon: false, tree }
}

fn use_path(segs: &[&str], last: UseTree) -> UseTree {
    let mut tree = last;
    for seg in segs.iter().rev() {
        tree = UseTree::Path(s(seg), Box::new(tree));
    }
    tree
}

fn file(module: &[&str], items: Option<Vec<SourceItem>>) -> ParsedFile {
    ParsedFile { module: Path::from_strs(module.to_vec()), items }
}

fn describe(r: &ResolvedUsePath) -> String {
    match r {
        ResolvedUsePath::Struct(x) => format!("struct {:?}::{}", x.module, x.name),
        ResolvedUsePath::Enum(x) => format!("enum {:?}::{}", x.module, x.name),
        ResolvedUsePath::Const(x) => format!("const {:?}::{}", x.module, x.name),
        ResolvedUsePath::TypeAlias(x) => format!("type {:?}::{}", x.module, x.name),
        ResolvedUsePath::Module(x) => format!("mod {:?}", x.path),
    }
}

fn find<'a, 'b>(res: &'b [UseResolution<'a>], module: &[&str], path: &[&str]) -> &'b UseResolution<'a> {
    let m = Path::from_strs(module.to_vec());
    let p = UsePath::from_strs(path.to_vec());
    res.iter()
        .find(|r| r.module == m && r.use_path.components() == p.components())
        .expect("use path not found")
}

fn struct_names(r: &UseResolution) -> Vec<(Path, String)> {
    let found = r.resolved.as_ref().expect("resolved");
    found
        .iter()
        .filter_map(|x| match x {
            ResolvedUsePath::Struct(st) => Some((st.module.clone(), st.name.clone())),
            _ => None,
        })
        .collect()
}

#[test]
fn relative_import_through_self() {
    let items = vec![inline_mod(
        "m",
        vec![strukt("S"), use_item(use_path(&["self"], UseTree::Rename(s("S"), s("T"))))],
    )];
    let files = vec![file(&["a"], Some(items))];
    let index = things_in_files(&files);
    let res = resolve_uses(&index, &vec![(s("a"), Edition::Edition2018)], Edition::Edition2018);
    assert_eq!(res.len(), 1);
    let r = &res[0];
    assert_eq!(r.module, Path::from_strs(vec!["a", "m"]));
    let found = r.resolved.as_ref().unwrap();
    assert_eq!(found.len(), 1);
    assert_eq!(struct_names(r), vec![(Path::from_strs(vec!["a", "m"]), s("S"))]);
}

#[test]
fn alias_resolves_the_original() {
    let items = vec![inline_mod(
        "m",
        vec![
            strukt("S"),
            use_item(use_path(&["self"], UseTree::Rename(s("S"), s("T")))),
            use_item(use_path(&["crate", "m"], UseTree::Name(s("T")))),
        ],
    )];
    let files = vec![file(&["a"], Some(items))];
    let index = things_in_files(&files);
    let res = resolve_uses(&index, &vec![(s("a"), Edition::Edition2018)], Edition::Edition2018);
    assert_eq!(res.len(), 2);
    let r = find(&res, &["a", "m"], &["crate", "m", "T"]);
    assert_eq!(r.resolved.as_ref().unwrap().len(), 1);
    assert_eq!(struct_names(r), vec![(Path::from_strs(vec!["a", "m"]), s("S"))]);
}

#[test]
fn alias_is_followed_one_hop_only() {
    // `U` names `T`, which names `S`: following `U` reaches `use self::T as U`
    // only, whose own path `self::T` binds no item.
    let items = vec![inline_mod(
        "m",
        vec![
            strukt("S"),
            use_item(use_path(&["self"], UseTree::Rename(s("S"), s("T")))),
            use_item(use_path(&["self"], UseTree::Rename(s("T"), s("U")))),
            use_item(use_path(&["crate", "m"], UseTree::Name(s("U")))),
        ],
    )];
    let files = vec![file(&["w"], Some(items))];
    let index = things_in_files(&files);
    let res = resolve_uses(&index, &vec![], Edition::Edition2018);
    let r = find(&res, &["w", "m"], &["crate", "m", "U"]);
    assert!(r.resolved.as_ref().unwrap().is_empty());
}

#[test]
fn super_traversal() {
    let items = vec![inline_mod(
        "x",
        vec![
            inline_mod("y", vec![use_item(use_path(&["super"], UseTree::Name(s("Z"))))]),
            strukt("Z"),
        ],
    )];
    let files = vec![file(&["b"], Some(items))];
    let index = things_in_files(&files);
    let res = resolve_uses(&index, &vec![], Edition::Edition2021);
    let r = find(&res, &["b", "x", "y"], &["super", "Z"]);
    assert_eq!(struct_names(r), vec![(Path::from_strs(vec!["b", "x"]), s("Z"))]);
    assert_eq!(r.resolved.as_ref().unwrap().len(), 1);
}

#[test]
fn extern_crate_rename_is_applied() {
    let c_items = vec![
        SourceItem::ExternCrate { name: s("core"), rename: Some(s("kore")), vis: SourceVis::Inherited },
        use_item(use_path(&["kore", "fmt"], UseTree::Name(s("Debug")))),
    ];
    let core_items = vec![inline_mod("fmt", vec![strukt("Debug")])];
    let files = vec![file(&["c"], Some(c_items)), file(&["core"], Some(core_items))];
    let index = things_in_files(&files);
    assert_eq!(index.externs.len(), 1);
    let res = resolve_uses(&index, &vec![], Edition::Edition2018);
    let r = find(&res, &["c"], &["kore", "fmt", "Debug"]);
    assert_eq!(struct_names(r), vec![(Path::from_strs(vec!["core", "fmt"]), s("Debug"))]);
}

#[test]
fn glob_binds_direct_items() {
    let util = inline_mod(
        "util",
        vec![
            strukt("A"),
            strukt("B"),
            SourceItem::Const { name: s("C"), vis: SourceVis::Public },
            inline_mod("deeper", vec![strukt("Z")]),
        ],
    );
    let items = vec![util, use_item(use_path(&["util"], UseTree::Glob))];
    let files = vec![file(&["d"], Some(items))];
    let index = things_in_files(&files);
    let res = resolve_uses(&index, &vec![], Edition::Edition2018);
    let r = find(&res, &["d"], &["util", "*"]);
    let mut got: Vec<String> = r.resolved.as_ref().unwrap().iter().map(describe).collect();
    got.sort();
    let util_path = Path::from_strs(vec!["d", "util"]);
    let mut want = vec![
        format!("struct {:?}::A", util_path),
        format!("struct {:?}::B", util_path),
        format!("const {:?}::C", util_path),
        format!("mod {:?}", Path::from_strs(vec!["d", "util", "deeper"])),
    ];
    want.sort();
    assert_eq!(got, want);
}

#[test]
fn attribute_driven_path() {
    let root = ModuleFile::root(vec![s("/w/e/src")], s("lib.rs"), s("e"));
    let attrs = vec![Meta::NameValue(vec![s("path")], Some(s("alt/thing.rs")))];
    let items = Some(vec![SourceItem::Mod {
        name: s("thing"),
        vis: SourceVis::Inherited,
        attrs,
        content: None,
    }]);
    let kids = root.children(&items, &vec![(false, false)]).unwrap();
    assert_eq!(kids.len(), 1);
    assert_eq!(kids[0].dir, vec![s("/w/e/src"), s("alt/")]);
    assert_eq!(kids[0].file, s("thing.rs"));
    assert_eq!(kids[0].rust_path, Path::from_strs(vec!["e", "thing"]));
    assert_eq!(kids[0].cat, ModuleCategory::Direct);
}

#[test]
fn cfg_attr_path_is_honoured() {
    let root = ModuleFile::root(vec![s("/w/src")], s("lib.rs"), s("k"));
    let attrs = vec![
        Meta::Word(vec![s("doc")]),
        Meta::List(
            vec![s("cfg_attr")],
            vec![Meta::Word(vec![s("unix")]), Meta::NameValue(vec![s("path")], Some(s("sys/mod.rs")))],
        ),
    ];
    let items = Some(vec![SourceItem::Mod { name: s("sys"), vis: SourceVis::Public, attrs, content: None }]);
    let kids = root.children(&items, &vec![(false, false)]).unwrap();
    assert_eq!(kids[0].dir, vec![s("/w/src"), s("sys/")]);
    assert_eq!(kids[0].file, s("mod.rs"));
    assert_eq!(kids[0].cat, ModuleCategory::Mod);
}

#[test]
fn naming_convention_and_missing_submodule() {
    let root = ModuleFile::root(vec![s("/w/src")], s("lib.rs"), s("g"));
    let items = Some(vec![decl_mod("a"), decl_mod("b"), decl_mod("r#try")]);
    let probes = root.probes(&items);
    assert_eq!(probes.len(), 2);
    assert_eq!(probes[0].0.file, s("a.rs"));
    assert_eq!(probes[0].1.dir, vec![s("/w/src"), s("a")]);
    assert_eq!(probes[0].1.file, s("mod.rs"));
    let kids = root.children(&items, &vec![(true, true), (false, true)]).unwrap();
    assert_eq!(kids[0].cat, ModuleCategory::Direct);
    assert_eq!(kids[0].file, s("a.rs"));
    assert_eq!(kids[1].cat, ModuleCategory::Mod);
    assert_eq!(kids[1].dir, vec![s("/w/src"), s("b")]);
    // A child of a `foo.rs` module lies in the folder named after it.
    let grand = kids[0].probe_locations(&s("c"));
    assert_eq!(grand.0.dir, vec![s("/w/src"), s("a")]);
    assert_eq!(grand.0.file, s("c.rs"));
    assert!(root.children(&items, &vec![(true, false), (false, false)]).is_err());
}

#[test]
fn parse_failure_isolated() {
    let files = vec![
        file(&["f"], Some(vec![decl_mod("broken"), decl_mod("good")])),
        file(&["f", "broken"], None),
        file(&["f", "good"], Some(vec![strukt("K")])),
    ];
    let index = things_in_files(&files);
    assert_eq!(index.structs.len(), 1);
    assert_eq!(index.structs[0].name, s("K"));
    assert_eq!(index.structs[0].module, Path::from_strs(vec!["f", "good"]));
    assert!(index.modules.iter().all(|m| m.path != Path::from_strs(vec!["f", "broken"])));
}

#[test]
fn failed_root_gives_empty_index() {
    let files = vec![file(&["h"], None)];
    let index = things_in_files(&files);
    assert!(index.structs.is_empty() && index.modules.is_empty() && index.uses.is_empty());
    let root = ModuleFile::root(vec![s("/w/src")], s("lib.rs"), s("h"));
    assert!(root.children(&None, &vec![]).unwrap().is_empty());
    assert!(root.probes(&None).is_empty());
}

#[test]
fn single_segment_resolves_at_start() {
    let items = vec![
        strukt("S"),
        inline_mod("m", vec![strukt("S"), use_item(UseTree::Name(s("S")))]),
    ];
    let files = vec![file(&["i"], Some(items))];
    let index = things_in_files(&files);
    let res = resolve_uses(&index, &vec![], Edition::Edition2018);
    let r = find(&res, &["i", "m"], &["S"]);
    assert_eq!(struct_names(r), vec![(Path::from_strs(vec!["i", "m"]), s("S"))]);
}

#[test]
fn absolute_path_ignores_start_module() {
    let inner = inline_mod(
        "inner",
        vec![
            inline_mod("core", vec![strukt("X")]),
            SourceItem::Use {
                vis: SourceVis::Inherited,
                leading_colon: true,
                tree: use_path(&["core"], UseTree::Name(s("X"))),
            },
        ],
    );
    let files = vec![file(&["j"], Some(vec![inner])), file(&["core"], Some(vec![strukt("X")]))];
    let index = things_in_files(&files);
    let res = resolve_uses(&index, &vec![], Edition::Edition2018);
    let r = find(&res, &["j", "inner"], &["", "core", "X"]);
    assert_eq!(struct_names(r), vec![(Path::from_strs(vec!["core"]), s("X"))]);
}

#[test]
fn total_miss_is_empty_not_error() {
    let items = vec![use_item(use_path(&["nowhere"], UseTree::Name(s("Nothing"))))];
    let files = vec![file(&["l"], Some(items))];
    let index = things_in_files(&files);
    let res = resolve_uses(&index, &vec![], Edition::Edition2018);
    assert_eq!(res.len(), 1);
    assert!(res[0].resolved.as_ref().unwrap().is_empty());
}

#[test]
fn edition_2015_is_unsupported() {
    let items = vec![strukt("S"), use_item(UseTree::Name(s("S")))];
    let files = vec![file(&["o"], Some(items))];
    let index = things_in_files(&files);
    let res = resolve_uses(&index, &vec![(s("o"), Edition::Edition2015)], Edition::Edition2018);
    assert_eq!(res[0].resolved.as_ref().err(), Some(&IndexError::UnsupportedEdition));
}

#[test]
fn malformed_use_path_is_invalid() {
    let items = vec![use_item(use_path(&["a"], UseTree::Path(s(""), Box::new(UseTree::Name(s("B"))))))];
    let files = vec![file(&["q"], Some(items))];
    let index = things_in_files(&files);
    let res = resolve_uses(&index, &vec![], Edition::Edition2018);
    assert_eq!(res[0].resolved.as_ref().err(), Some(&IndexError::InvalidUsePath));
}

#[test]
fn indexing_twice_gives_same_tuples() {
    let items = || {
        vec![
            inline_mod("u", vec![strukt("A"), strukt("B")]),
            use_item(use_path(&["u"], UseTree::Glob)),
            use_item(use_path(&["u"], UseTree::Name(s("A")))),
        ]
    };
    let f1 = vec![file(&["p"], Some(items()))];
    let f2 = vec![file(&["p"], Some(items()))];
    let i1 = things_in_files(&f1);
    let i2 = things_in_files(&f2);
    let r1 = resolve_uses(&i1, &vec![], Edition::Edition2018);
    let r2 = resolve_uses(&i2, &vec![], Edition::Edition2018);
    let flat = |rs: &Vec<UseResolution>| {
        let mut v: Vec<String> = rs
            .iter()
            .flat_map(|r| {
                let head = format!("{:?} {:?}", r.module, r.use_path);
                r.resolved.as_ref().unwrap().iter().map(move |x| format!("{} => {}", head, describe(x)))
            })
            .collect();
        v.sort();
        v
    };
    assert_eq!(flat(&r1), flat(&r2));
    assert_eq!(flat(&r1).len(), 3);
}

#[test]
fn extracted_modules_start_with_crate_name() {
    let items = vec![inline_mod("a", vec![inline_mod("b", vec![strukt("S")])]), strukt("T")];
    let mut module = Path::from_strs(vec!["krate"]);
    let structs = structs_from_items(&items, &mut module);
    assert_eq!(module, Path::from_strs(vec!["krate"]));
    assert_eq!(structs.len(), 2);
    assert_eq!(structs[0].module, Path::from_strs(vec!["krate", "a", "b"]));
    assert_eq!(structs[1].module, Path::from_strs(vec!["krate"]));
}
