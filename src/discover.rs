//! The module discoverer: from a crate's root file, the files of its
//! file-backed modules, by the file-naming conventions and by `path` and
//! `cfg_attr(.., path = ..)` attributes.
//!
//! A file location is a list of directory parts, each joined in turn onto
//! the ones before it, and a file name. Whether a file exists is asked of the
//! caller: the discoverer decides from the answers.
use vstd::prelude::*;

use crate::path::{Path, Segment, Visibility, VisibilityView};
use crate::source::{vis_of, Meta, SourceItem};
use crate::text::{clone_strings, str_eq, texts};

verus! {

/// How a module's file is named, which decides where its children live.
#[derive(Debug, Clone, Copy, PartialEq, Eq, Structural)]
pub enum ModuleCategory {
    /// A crate root such as `lib.rs`.
    Root,
    /// `foo.rs`
    Direct,
    /// `foo/mod.rs`
    Mod,
}

/// Where a file lies: directory parts and the file's name.
pub struct Location {
    pub dir: Seq<Seq<char>>,
    pub file: Seq<char>,
}

/// A module backed by a file, as a mathematical value.
pub struct ModuleFileView {
    pub dir: Seq<Seq<char>>,
    pub file: Seq<char>,
    pub rust_path: Seq<Segment>,
    pub name: Seq<char>,
    pub cat: ModuleCategory,
    pub vis: VisibilityView,
}

/// A module backed by a file: where the file lies, the module's fully
/// qualified path, its local name, its category and its visibility.
#[derive(Debug)]
pub struct ModuleFile {
    pub dir: Vec<String>,
    pub file: String,
    pub rust_path: Path,
    pub name: String,
    pub cat: ModuleCategory,
    pub vis: Visibility,
}

impl View for ModuleFile {
    type V = ModuleFileView;

    open spec fn view(&self) -> ModuleFileView {
        ModuleFileView {
            dir: texts(self.dir@),
            file: self.file@,
            rust_path: self.rust_path@,
            name: self.name@,
            cat: self.cat,
            vis: self.vis@,
        }
    }
}

/// A module declared without a body (`mod name;`), as a mathematical value.
pub struct EmptyModuleView {
    pub name: Seq<char>,
    pub path: Option<Seq<char>>,
    pub vis: VisibilityView,
}

/// A module declared without a body, with the literal of its `path`
/// attribute if it has one.
#[derive(Debug)]
pub struct EmptyModule {
    pub name: String,
    pub path: Option<String>,
    pub vis: Visibility,
}

impl View for EmptyModule {
    type V = EmptyModuleView;

    open spec fn view(&self) -> EmptyModuleView {
        EmptyModuleView { name: self.name@, path: crate::item::opt_text(self.path), vis: self.vis@ }
    }
}

/// Errors of the discoverer.
#[derive(Debug)]
pub enum DiscoverError {
    /// `mod name;` in `module` without attribute, and neither `name.rs` nor
    /// `name/mod.rs` exists.
    MissingSubmodule { name: String, module: Path },
}

/// The path given by an attribute of the form `path = "lit"`, or
/// `cfg_attr(cond, path = "lit")` whatever the condition.
pub open spec fn attr_path(m: Meta) -> Option<Seq<char>> {
    match m {
        Meta::NameValue(p, Some(v)) => if texts(p@) == seq!["path"@] {
            Some(v@)
        } else {
            None
        },
        Meta::List(p, nested) => if texts(p@) == seq!["cfg_attr"@] && nested@.len() == 2 {
            match nested@[1] {
                Meta::NameValue(q, Some(v)) => if texts(q@) == seq!["path"@] {
                    Some(v@)
                } else {
                    None
                },
                _ => None,
            }
        } else {
            None
        },
        _ => None,
    }
}

/// The path of the first attribute that gives one; attributes of any other
/// form are ignored.
pub open spec fn first_attr_path(attrs: Seq<Meta>) -> Option<Seq<char>>
    decreases attrs.len(),
{
    if attrs.len() == 0 {
        None
    } else {
        match attr_path(attrs[0]) {
            Some(v) => Some(v),
            None => first_attr_path(attrs.drop_first()),
        }
    }
}

/// Whether an identifier is written with the raw-identifier escape `r#`.
pub open spec fn is_raw(s: Seq<char>) -> bool {
    s.len() >= 2 && s[0] == 'r' && s[1] == '#'
}

/// The modules declared without a body among the top-level items, in
/// source order; raw identifiers are skipped.
pub open spec fn empty_modules_of(items: Seq<SourceItem>) -> Seq<EmptyModuleView>
    decreases items.len(),
{
    if items.len() == 0 {
        Seq::empty()
    } else {
        let rest = empty_modules_of(items.drop_last());
        match items.last() {
            SourceItem::Mod { name, vis, attrs, content } => if content is None && !is_raw(name@) {
                rest.push(
                    EmptyModuleView { name: name@, path: first_attr_path(attrs@), vis: vis_of(vis) },
                )
            } else {
                rest
            },
            _ => rest,
        }
    }
}

fn single_word(p: &Vec<String>, word: &str) -> (r: bool)
    ensures
        r == (texts(p@) == seq![word@]),
{
    if p.len() == 1 && str_eq(p[0].as_str(), word) {
        assert(texts(p@) =~= seq![word@]);
        true
    } else {
        proof {
            assert(texts(p@).len() == p@.len());
            if texts(p@) == seq![word@] {
                assert(texts(p@)[0] == p@[0]@);
                assert(seq![word@][0] == word@);
            }
        }
        false
    }
}

fn attribute_path(m: &Meta) -> (r: Option<String>)
    ensures
        crate::item::opt_text(r) == attr_path(*m),
{
    match m {
        Meta::NameValue(p, Some(v)) => {
            if single_word(p, "path") {
                Some(v.clone())
            } else {
                None
            }
        },
        Meta::List(p, nested) => {
            if single_word(p, "cfg_attr") && nested.len() == 2 {
                match &nested[1] {
                    Meta::NameValue(q, Some(v)) => {
                        if single_word(q, "path") {
                            Some(v.clone())
                        } else {
                            None
                        }
                    },
                    _ => None,
                }
            } else {
                None
            }
        },
        _ => None,
    }
}

/// The path that the attributes of a module declaration give its file.
pub fn module_path_attr(attrs: &Vec<Meta>) -> (r: Option<String>)
    ensures
        crate::item::opt_text(r) == first_attr_path(attrs@),
{
    let mut i: usize = 0;
    assert(attrs@.subrange(0, attrs@.len() as int) =~= attrs@);
    while i < attrs.len()
        invariant
            i <= attrs@.len(),
            first_attr_path(attrs@) == first_attr_path(attrs@.subrange(i as int, attrs@.len() as int)),
        decreases attrs@.len() - i,
    {
        let ghost rest = attrs@.subrange(i as int, attrs@.len() as int);
        assert(rest[0] == attrs@[i as int]);
        assert(rest.drop_first() =~= attrs@.subrange(i + 1, attrs@.len() as int));
        let found = attribute_path(&attrs[i]);
        if found.is_some() {
            return found;
        }
        i = i + 1;
    }
    None
}

fn is_raw_name(s: &str) -> (r: bool)
    ensures
        r == is_raw(s@),
{
    let n = s.unicode_len();
    n >= 2 && s.get_char(0) == 'r' && s.get_char(1) == '#'
}

/// The modules declared without a body among `items`.
pub fn empty_modules_from_items(items: &Vec<SourceItem>) -> (r: Vec<EmptyModule>)
    ensures
        r@.map_values(|m: EmptyModule| m@) == empty_modules_of(items@),
{
    let mut out: Vec<EmptyModule> = Vec::new();
    let mut i: usize = 0;
    while i < items.len()
        invariant
            i <= items@.len(),
            out@.map_values(|m: EmptyModule| m@) == empty_modules_of(items@.take(i as int)),
        decreases items@.len() - i,
    {
        assert(items@.take(i + 1).drop_last() =~= items@.take(i as int));
        assert(items@.take(i + 1).last() == items@[i as int]);
        let ghost before = out@;
        if let SourceItem::Mod { name, vis, attrs, content } = &items[i] {
            if content.is_none() && !is_raw_name(name.as_str()) {
                out.push(
                    EmptyModule {
                        name: name.clone(),
                        path: module_path_attr(attrs),
                        vis: Visibility::from_source(vis),
                    },
                );
                assert(out@.map_values(|m: EmptyModule| m@) =~= before.map_values(
                    |m: EmptyModule| m@,
                ).push(out@.last()@));
            }
        }
        i = i + 1;
    }
    assert(items@.take(i as int) =~= items@);
    out
}

/// A file location.
#[derive(Debug)]
pub struct FileLocation {
    pub dir: Vec<String>,
    pub file: String,
}

impl View for FileLocation {
    type V = Location;

    open spec fn view(&self) -> Location {
        Location { dir: texts(self.dir@), file: self.file@ }
    }
}

/// The directory under which the children of a module lie: the directory of
/// its file, and for a `foo.rs` module the folder named after it.
pub open spec fn child_dir(m: ModuleFileView) -> Seq<Seq<char>> {
    if m.cat == ModuleCategory::Direct {
        m.dir.push(m.name)
    } else {
        m.dir
    }
}

/// Where `mod name;` is looked for first: `name.rs`.
pub open spec fn direct_candidate(m: ModuleFileView, name: Seq<char>) -> Location {
    Location { dir: child_dir(m), file: name + ".rs"@ }
}

/// Where `mod name;` is looked for second: `name/mod.rs`.
pub open spec fn mod_candidate(m: ModuleFileView, name: Seq<char>) -> Location {
    Location { dir: child_dir(m).push(name), file: "mod.rs"@ }
}

/// The index of the last `/` in a text, or -1.
pub open spec fn last_slash(s: Seq<char>) -> int
    decreases s.len(),
{
    if s.len() == 0 {
        -1
    } else if s.last() == '/' {
        s.len() - 1
    } else {
        last_slash(s.drop_last())
    }
}

/// The file that a `path` attribute names: the literal joined onto the
/// directory of the current file. The literal's directory part, slash
/// included, is one more directory part; what follows the last slash is the
/// file name.
pub open spec fn attr_location(m: ModuleFileView, rel: Seq<char>) -> Location {
    let i = last_slash(rel);
    if i < 0 {
        Location { dir: m.dir, file: rel }
    } else {
        Location { dir: m.dir.push(rel.subrange(0, i + 1)), file: rel.subrange(i + 1, rel.len() as int) }
    }
}

/// The category of a module file, by its name.
pub open spec fn category_of(file: Seq<char>) -> ModuleCategory {
    if file == "mod.rs"@ {
        ModuleCategory::Mod
    } else if file == "lib.rs"@ {
        ModuleCategory::Root
    } else {
        ModuleCategory::Direct
    }
}

/// The file-backed child module for `mod name;` in the module `m`, given
/// whether `name.rs` and `name/mod.rs` exist; none when it has no `path`
/// attribute and neither exists.
pub open spec fn submodule_of(
    m: ModuleFileView,
    em: EmptyModuleView,
    found: (bool, bool),
) -> Option<ModuleFileView> {
    let rust_path = m.rust_path.push(Segment::Name(em.name));
    match em.path {
        Some(rel) => {
            let loc = attr_location(m, rel);
            Some(
                ModuleFileView {
                    dir: loc.dir,
                    file: loc.file,
                    rust_path,
                    name: em.name,
                    cat: category_of(loc.file),
                    vis: em.vis,
                },
            )
        },
        None => if found.0 {
            let loc = direct_candidate(m, em.name);
            Some(
                ModuleFileView {
                    dir: loc.dir,
                    file: loc.file,
                    rust_path,
                    name: em.name,
                    cat: ModuleCategory::Direct,
                    vis: em.vis,
                },
            )
        } else if found.1 {
            let loc = mod_candidate(m, em.name);
            Some(
                ModuleFileView {
                    dir: loc.dir,
                    file: loc.file,
                    rust_path,
                    name: em.name,
                    cat: ModuleCategory::Mod,
                    vis: em.vis,
                },
            )
        } else {
            None
        },
    }
}

fn find_last_slash(s: &str) -> (r: Option<usize>)
    ensures
        match r {
            Some(i) => i == last_slash(s@) && i < s@.len(),
            None => last_slash(s@) == -1,
        },
{
    let n = s.unicode_len();
    let mut k: usize = n;
    assert(s@.take(n as int) =~= s@);
    while k > 0
        invariant
            k <= n,
            n == s@.len(),
            last_slash(s@) == last_slash(s@.take(k as int)),
        decreases k,
    {
        let ghost t = s@.take(k as int);
        assert(t.drop_last() =~= s@.take(k - 1));
        if s.get_char(k - 1) == '/' {
            return Some(k - 1);
        }
        k = k - 1;
    }
    assert(s@.take(0) =~= Seq::<char>::empty());
    None
}

fn category_of_file(file: &str) -> (r: ModuleCategory)
    ensures
        r == category_of(file@),
{
    if str_eq(file, "mod.rs") {
        ModuleCategory::Mod
    } else if str_eq(file, "lib.rs") {
        ModuleCategory::Root
    } else {
        ModuleCategory::Direct
    }
}

impl ModuleFile {
    /// The root module of the crate `crate_name`, whose file is `file` in
    /// the directory `dir`.
    pub fn root(dir: Vec<String>, file: String, crate_name: String) -> (r: ModuleFile)
        ensures
            r@ == (ModuleFileView {
                dir: texts(dir@),
                file: file@,
                rust_path: seq![Segment::Name(crate_name@)],
                name: crate_name@,
                cat: ModuleCategory::Root,
                vis: VisibilityView::Public,
            }),
    {
        let mut rust_path = Path::root();
        rust_path.push_name(crate_name.clone());
        assert(rust_path@ =~= seq![Segment::Name(crate_name@)]);
        ModuleFile {
            dir,
            file,
            rust_path,
            name: crate_name,
            cat: ModuleCategory::Root,
            vis: Visibility::Public,
        }
    }

    fn child_dir(&self) -> (r: Vec<String>)
        ensures
            texts(r@) == child_dir(self@),
    {
        let mut d = clone_strings(&self.dir);
        if self.cat == ModuleCategory::Direct {
            d.push(self.name.clone());
            assert(texts(d@) =~= texts(self.dir@).push(self.name@));
        }
        d
    }

    /// The two files where `mod name;` may lie: `name.rs`, then
    /// `name/mod.rs`.
    pub fn probe_locations(&self, name: &String) -> (r: (FileLocation, FileLocation))
        ensures
            r.0@ == direct_candidate(self@, name@),
            r.1@ == mod_candidate(self@, name@),
    {
        let direct = FileLocation { dir: self.child_dir(), file: name.clone().concat(".rs") };
        let mut d = self.child_dir();
        d.push(name.clone());
        assert(texts(d@) =~= child_dir(self@).push(name@));
        let modrs = FileLocation { dir: d, file: String::from_str("mod.rs") };
        (direct, modrs)
    }

    /// The child module for `mod name;`, given whether `name.rs` and
    /// `name/mod.rs` exist.
    pub fn submodule(&self, em: &EmptyModule, found: (bool, bool)) -> (r: Option<ModuleFile>)
        ensures
            match r {
                Some(f) => submodule_of(self@, em@, found) == Some(f@),
                None => submodule_of(self@, em@, found) is None,
            },
    {
        let mut rust_path = self.rust_path.clone();
        rust_path.push_name(em.name.clone());
        match &em.path {
            Some(rel) => {
                let (dir, file) = match find_last_slash(rel.as_str()) {
                    None => (clone_strings(&self.dir), rel.clone()),
                    Some(i) => {
                        let n = rel.as_str().unicode_len();
                        let mut d = clone_strings(&self.dir);
                        d.push(String::from_str(rel.as_str().substring_char(0, i + 1)));
                        assert(texts(d@) =~= texts(self.dir@).push(rel@.subrange(0, i + 1)));
                        (d, String::from_str(rel.as_str().substring_char(i + 1, n)))
                    },
                };
                let cat = category_of_file(file.as_str());
                Some(ModuleFile { dir, file, rust_path, name: em.name.clone(), cat, vis: em.vis.clone() })
            },
            None => {
                if found.0 {
                    let (loc, _) = self.probe_locations(&em.name);
                    Some(
                        ModuleFile {
                            dir: loc.dir,
                            file: loc.file,
                            rust_path,
                            name: em.name.clone(),
                            cat: ModuleCategory::Direct,
                            vis: em.vis.clone(),
                        },
                    )
                } else if found.1 {
                    let (_, loc) = self.probe_locations(&em.name);
                    Some(
                        ModuleFile {
                            dir: loc.dir,
                            file: loc.file,
                            rust_path,
                            name: em.name.clone(),
                            cat: ModuleCategory::Mod,
                            vis: em.vis.clone(),
                        },
                    )
                } else {
                    None
                }
            },
        }
    }

    /// The file-backed child modules for the modules declared without a
    /// body, given for each whether `name.rs` and `name/mod.rs` exist. Fails
    /// on the first one that has no `path` attribute and neither file.
    pub fn direct_submodules(&self, empty_mods: &Vec<EmptyModule>, found: &Vec<(bool, bool)>) -> (r:
        Result<Vec<ModuleFile>, DiscoverError>)
        requires
            found@.len() == empty_mods@.len(),
        ensures
            r is Ok <==> forall|i: int|
                0 <= i < empty_mods@.len() ==> (#[trigger] submodule_of(
                    self@,
                    empty_mods@[i]@,
                    found@[i],
                )) is Some,
            r matches Ok(v) ==> v@.len() == empty_mods@.len() && forall|i: int|
                0 <= i < v@.len() ==> submodule_of(self@, empty_mods@[i]@, found@[i]) == Some(
                    (#[trigger] v@[i])@,
                ),
            r matches Err(DiscoverError::MissingSubmodule { name, module }) ==> module@
                == self.rust_path@ && exists|i: int|
                0 <= i < empty_mods@.len() && empty_mods@[i].name@ == name@ && (#[trigger] submodule_of(
                    self@,
                    empty_mods@[i]@,
                    found@[i],
                )) is None,
    {
        let mut subs: Vec<ModuleFile> = Vec::new();
        let mut i: usize = 0;
        while i < empty_mods.len()
            invariant
                i <= empty_mods@.len(),
                found@.len() == empty_mods@.len(),
                subs@.len() == i,
                forall|j: int|
                    0 <= j < i ==> submodule_of(self@, empty_mods@[j]@, found@[j]) == Some(
                        (#[trigger] subs@[j])@,
                    ),
            decreases empty_mods@.len() - i,
        {
            match self.submodule(&empty_mods[i], found[i]) {
                Some(m) => subs.push(m),
                None => {
                    return Err(
                        DiscoverError::MissingSubmodule {
                            name: empty_mods[i].name.clone(),
                            module: self.rust_path.clone(),
                        },
                    );
                },
            }
            i = i + 1;
        }
        assert forall|j: int| 0 <= j < empty_mods@.len() implies (#[trigger] submodule_of(
            self@,
            empty_mods@[j]@,
            found@[j],
        )) is Some by {
            assert(submodule_of(self@, empty_mods@[j]@, found@[j]) == Some(subs@[j]@));
        }
        Ok(subs)
    }

    /// For each module declared without a body in the parsed file, the two
    /// files to look for. A file that did not parse declares nothing.
    pub fn probes(&self, parsed: &Option<Vec<SourceItem>>) -> (r: Vec<(FileLocation, FileLocation)>)
        ensures
            parsed is None ==> r@.len() == 0,
            parsed matches Some(items) ==> r@.len() == empty_modules_of(items@).len() && forall|
                i: int,
            |
                0 <= i < r@.len() ==> (#[trigger] r@[i]).0@ == direct_candidate(
                    self@,
                    empty_modules_of(items@)[i].name,
                ) && r@[i].1@ == mod_candidate(self@, empty_modules_of(items@)[i].name),
    {
        let mut out: Vec<(FileLocation, FileLocation)> = Vec::new();
        if let Some(items) = parsed {
            let ems = empty_modules_from_items(items);
            let mut i: usize = 0;
            while i < ems.len()
                invariant
                    i <= ems@.len(),
                    out@.len() == i,
                    ems@.map_values(|m: EmptyModule| m@) == empty_modules_of(items@),
                    forall|j: int|
                        0 <= j < i ==> (#[trigger] out@[j]).0@ == direct_candidate(
                            self@,
                            empty_modules_of(items@)[j].name,
                        ) && out@[j].1@ == mod_candidate(self@, empty_modules_of(items@)[j].name),
                decreases ems@.len() - i,
            {
                assert(ems@.map_values(|m: EmptyModule| m@)[i as int] == ems@[i as int]@);
                out.push(self.probe_locations(&ems[i].name));
                i = i + 1;
            }
            assert(ems@.map_values(|m: EmptyModule| m@).len() == ems@.len());
        }
        out
    }

    /// The file-backed child modules of this module, from its parsed file
    /// and the answers to `probes` (one per probe). A file that did not
    /// parse has none.
    pub fn children(&self, parsed: &Option<Vec<SourceItem>>, found: &Vec<(bool, bool)>) -> (r:
        Result<Vec<ModuleFile>, DiscoverError>)
        requires
            parsed is None ==> found@.len() == 0,
            parsed is Some ==> found@.len() == empty_modules_of(parsed->0@).len(),
        ensures
            parsed is None ==> (r matches Ok(v) && v@.len() == 0),
            parsed is Some ==> {
                &&& r is Ok <==> forall|i: int|
                    0 <= i < found@.len() ==> (#[trigger] submodule_of(
                        self@,
                        empty_modules_of(parsed->0@)[i],
                        found@[i],
                    )) is Some
                &&& r matches Ok(v) ==> v@.len() == found@.len() && forall|i: int|
                    0 <= i < v@.len() ==> submodule_of(
                        self@,
                        empty_modules_of(parsed->0@)[i],
                        found@[i],
                    ) == Some((#[trigger] v@[i])@)
                &&& r matches Err(DiscoverError::MissingSubmodule { name, module }) ==> module@
                    == self.rust_path@ && exists|i: int|
                    0 <= i < found@.len() && empty_modules_of(parsed->0@)[i].name == name@ && (
                    #[trigger] submodule_of(self@, empty_modules_of(parsed->0@)[i], found@[i]))
                        is None
            },
    {
        match parsed {
            None => Ok(Vec::new()),
            Some(items) => {
                let ems = empty_modules_from_items(items);
                assert(ems@.map_values(|m: EmptyModule| m@).len() == ems@.len());
                let r = self.direct_submodules(&ems, found);
                proof {
                    let emo = empty_modules_of(items@);
                    assert forall|i: int| 0 <= i < ems@.len() implies ems@[i]@ == emo[i] by {
                        assert(ems@.map_values(|m: EmptyModule| m@)[i] == ems@[i]@);
                    }
                    assert((forall|i: int|
                        0 <= i < found@.len() ==> (#[trigger] submodule_of(self@, emo[i], found@[i])) is Some)
                        <==> (forall|i: int|
                        0 <= i < ems@.len() ==> (#[trigger] submodule_of(self@, ems@[i]@, found@[i])) is Some)) by {
                        if forall|i: int| 0 <= i < ems@.len() ==> (#[trigger] submodule_of(self@, ems@[i]@, found@[i])) is Some {
                            assert forall|i: int| 0 <= i < found@.len() implies (#[trigger] submodule_of(self@, emo[i], found@[i])) is Some by {
                                assert(ems@[i]@ == emo[i]);
                                assert(submodule_of(self@, ems@[i]@, found@[i]) is Some);
                            }
                        }
                        if forall|i: int| 0 <= i < found@.len() ==> (#[trigger] submodule_of(self@, emo[i], found@[i])) is Some {
                            assert forall|i: int| 0 <= i < ems@.len() implies (#[trigger] submodule_of(self@, ems@[i]@, found@[i])) is Some by {
                                assert(ems@[i]@ == emo[i]);
                                assert(submodule_of(self@, emo[i], found@[i]) is Some);
                            }
                        }
                    }
                    if r is Err {
                        let i = choose|i: int|
                            0 <= i < ems@.len() && ems@[i].name@ == r->Err_0->MissingSubmodule_name@
                                && (#[trigger] submodule_of(self@, ems@[i]@, found@[i])) is None;
                        assert(ems@[i]@ == emo[i]);
                    }
                    if r is Ok {
                        let v = r->Ok_0;
                        assert forall|i: int| 0 <= i < v@.len() implies submodule_of(self@, emo[i], found@[i])
                            == Some((#[trigger] v@[i])@) by {
                            assert(ems@[i]@ == emo[i]);
                        }
                    }
                }
                r
            },
        }
    }
}

} // verus!
