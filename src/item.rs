//! The items that the indexer extracts from source files.
use vstd::prelude::*;

use crate::path::{Path, Segment, Visibility, VisibilityView};
use crate::source::{vis_of, SourceVis};
use crate::text::{clone_strings, texts};
use crate::tree::TreeItem;
use crate::use_path::UsePath;

verus! {

/// A struct, enum, constant or type alias, as a mathematical value. A
/// constant has no type parameters.
pub struct DeclView {
    pub name: Seq<char>,
    pub vis: VisibilityView,
    pub params: Seq<Seq<char>>,
    pub module: Seq<Segment>,
}

/// The declaration that the extractors record for an item written with the
/// given name, visibility and type parameters in `module`.
pub open spec fn decl_of(
    name: String,
    vis: SourceVis,
    params: Seq<String>,
    module: Seq<Segment>,
) -> DeclView {
    DeclView { name: name@, vis: vis_of(vis), params: texts(params), module }
}

#[derive(Debug)]
pub struct Struct {
    pub name: String,
    pub vis: Visibility,
    pub params: Vec<String>,
    pub module: Path,
}

impl View for Struct {
    type V = DeclView;

    open spec fn view(&self) -> DeclView {
        DeclView {
            name: self.name@,
            vis: self.vis@,
            params: texts(self.params@),
            module: self.module@,
        }
    }
}

impl Clone for Struct {
    fn clone(&self) -> (r: Self)
        ensures
            r@ == self@,
    {
        Struct {
            name: self.name.clone(),
            vis: self.vis.clone(),
            params: clone_strings(&self.params),
            module: self.module.clone(),
        }
    }
}

impl TreeItem for Struct {
    open spec fn spec_name(&self) -> Seq<char> {
        self.name@
    }

    open spec fn spec_module(&self) -> Seq<Segment> {
        self.module@
    }

    fn name(&self) -> (r: &str) {
        self.name.as_str()
    }

    fn module(&self) -> (r: &Path) {
        &self.module
    }
}

impl Struct {
    pub fn from_source(name: &String, vis: &SourceVis, params: &Vec<String>, module: Path) -> (r:
        Struct)
        ensures
            r@ == decl_of(*name, *vis, params@, module@),
    {
        Struct {
            name: name.clone(),
            vis: Visibility::from_source(vis),
            params: clone_strings(params),
            module,
        }
    }

    /// A copy of the struct under another name.
    pub fn renamed(&self, new_name: &str) -> (r: Struct)
        ensures
            r@ == (DeclView { name: new_name@, ..self@ }),
    {
        Struct {
            name: String::from_str(new_name),
            vis: self.vis.clone(),
            params: clone_strings(&self.params),
            module: self.module.clone(),
        }
    }

    pub fn set_visibility(&mut self, vis: Visibility)
        ensures
            final(self)@ == (DeclView { vis: vis@, ..old(self)@ }),
    {
        self.vis = vis;
    }
}

#[derive(Debug)]
pub struct Enum {
    pub name: String,
    pub vis: Visibility,
    pub params: Vec<String>,
    pub module: Path,
}

impl View for Enum {
    type V = DeclView;

    open spec fn view(&self) -> DeclView {
        DeclView {
            name: self.name@,
            vis: self.vis@,
            params: texts(self.params@),
            module: self.module@,
        }
    }
}

impl Clone for Enum {
    fn clone(&self) -> (r: Self)
        ensures
            r@ == self@,
    {
        Enum {
            name: self.name.clone(),
            vis: self.vis.clone(),
            params: clone_strings(&self.params),
            module: self.module.clone(),
        }
    }
}

impl TreeItem for Enum {
    open spec fn spec_name(&self) -> Seq<char> {
        self.name@
    }

    open spec fn spec_module(&self) -> Seq<Segment> {
        self.module@
    }

    fn name(&self) -> (r: &str) {
        self.name.as_str()
    }

    fn module(&self) -> (r: &Path) {
        &self.module
    }
}

impl Enum {
    pub fn from_source(name: &String, vis: &SourceVis, params: &Vec<String>, module: Path) -> (r:
        Enum)
        ensures
            r@ == decl_of(*name, *vis, params@, module@),
    {
        Enum {
            name: name.clone(),
            vis: Visibility::from_source(vis),
            params: clone_strings(params),
            module,
        }
    }

    /// A copy of the enum under another name.
    pub fn renamed(&self, new_name: &str) -> (r: Enum)
        ensures
            r@ == (DeclView { name: new_name@, ..self@ }),
    {
        Enum {
            name: String::from_str(new_name),
            vis: self.vis.clone(),
            params: clone_strings(&self.params),
            module: self.module.clone(),
        }
    }

    pub fn set_visibility(&mut self, vis: Visibility)
        ensures
            final(self)@ == (DeclView { vis: vis@, ..old(self)@ }),
    {
        self.vis = vis;
    }
}

#[derive(Debug)]
pub struct Const {
    pub name: String,
    pub vis: Visibility,
    pub module: Path,
}

impl View for Const {
    type V = DeclView;

    open spec fn view(&self) -> DeclView {
        DeclView {
            name: self.name@,
            vis: self.vis@,
            params: Seq::empty(),
            module: self.module@,
        }
    }
}

impl Clone for Const {
    fn clone(&self) -> (r: Self)
        ensures
            r@ == self@,
    {
        Const { name: self.name.clone(), vis: self.vis.clone(), module: self.module.clone() }
    }
}

impl TreeItem for Const {
    open spec fn spec_name(&self) -> Seq<char> {
        self.name@
    }

    open spec fn spec_module(&self) -> Seq<Segment> {
        self.module@
    }

    fn name(&self) -> (r: &str) {
        self.name.as_str()
    }

    fn module(&self) -> (r: &Path) {
        &self.module
    }
}

impl Const {
    pub fn from_source(name: &String, vis: &SourceVis, module: Path) -> (r: Const)
        ensures
            r@ == decl_of(*name, *vis, Seq::empty(), module@),
    {
        let r = Const { name: name.clone(), vis: Visibility::from_source(vis), module };
        assert(texts(Seq::<String>::empty()) =~= Seq::<Seq<char>>::empty());
        r
    }
}

#[derive(Debug)]
pub struct TypeAlias {
    pub name: String,
    pub vis: Visibility,
    pub params: Vec<String>,
    pub module: Path,
}

impl View for TypeAlias {
    type V = DeclView;

    open spec fn view(&self) -> DeclView {
        DeclView {
            name: self.name@,
            vis: self.vis@,
            params: texts(self.params@),
            module: self.module@,
        }
    }
}

impl Clone for TypeAlias {
    fn clone(&self) -> (r: Self)
        ensures
            r@ == self@,
    {
        TypeAlias {
            name: self.name.clone(),
            vis: self.vis.clone(),
            params: clone_strings(&self.params),
            module: self.module.clone(),
        }
    }
}

impl TreeItem for TypeAlias {
    open spec fn spec_name(&self) -> Seq<char> {
        self.name@
    }

    open spec fn spec_module(&self) -> Seq<Segment> {
        self.module@
    }

    fn name(&self) -> (r: &str) {
        self.name.as_str()
    }

    fn module(&self) -> (r: &Path) {
        &self.module
    }
}

impl TypeAlias {
    pub fn from_source(name: &String, vis: &SourceVis, params: &Vec<String>, module: Path) -> (r:
        TypeAlias)
        ensures
            r@ == decl_of(*name, *vis, params@, module@),
    {
        TypeAlias {
            name: name.clone(),
            vis: Visibility::from_source(vis),
            params: clone_strings(params),
            module,
        }
    }
}

/// A module, as a mathematical value.
pub struct ModuleView {
    pub path: Seq<Segment>,
    pub name: Seq<char>,
    pub parent: Seq<Segment>,
}

/// A module record: filed under its parent module, by its own name.
#[derive(Debug)]
pub struct Module {
    pub path: Path,
    pub name: String,
    pub parent: Path,
}

impl View for Module {
    type V = ModuleView;

    open spec fn view(&self) -> ModuleView {
        ModuleView { path: self.path@, name: self.name@, parent: self.parent@ }
    }
}

impl Clone for Module {
    fn clone(&self) -> (r: Self)
        ensures
            r@ == self@,
    {
        Module { path: self.path.clone(), name: self.name.clone(), parent: self.parent.clone() }
    }
}

impl TreeItem for Module {
    open spec fn spec_name(&self) -> Seq<char> {
        self.name@
    }

    open spec fn spec_module(&self) -> Seq<Segment> {
        self.parent@
    }

    fn name(&self) -> (r: &str) {
        self.name.as_str()
    }

    fn module(&self) -> (r: &Path) {
        &self.parent
    }
}

impl Module {
    /// The module whose fully qualified path is made of `names`.
    pub fn new(names: &Vec<String>) -> (r: Module)
        requires
            names@.len() > 0,
        ensures
            r@.path == texts(names@).map_values(|s: Seq<char>| crate::path::segment_of(s)),
            r@.parent == r@.path.drop_last(),
            r@.name == names@.last()@,
    {
        let path = Path::from_names(clone_strings(names));
        assert(path@ =~= texts(names@).map_values(|s: Seq<char>| crate::path::segment_of(s)));
        let parent = path.parent();
        let name = names[names.len() - 1].clone();
        Module { path, name, parent }
    }
}

/// An `extern crate` declaration, as a mathematical value.
pub struct ExternView {
    pub name: Seq<char>,
    pub rename: Option<Seq<char>>,
    pub vis: VisibilityView,
    pub module: Seq<Segment>,
}

/// The text of an optional string.
pub open spec fn opt_text(s: Option<String>) -> Option<Seq<char>> {
    match s {
        Some(t) => Some(t@),
        None => None,
    }
}

/// An `extern crate name (as rename)?;` declaration in `module`.
#[derive(Debug)]
pub struct ExternCrate {
    pub name: String,
    pub rename: Option<String>,
    pub vis: Visibility,
    pub module: Path,
}

impl View for ExternCrate {
    type V = ExternView;

    open spec fn view(&self) -> ExternView {
        ExternView {
            name: self.name@,
            rename: opt_text(self.rename),
            vis: self.vis@,
            module: self.module@,
        }
    }
}

impl Clone for ExternCrate {
    fn clone(&self) -> (r: Self)
        ensures
            r@ == self@,
    {
        let rename = match &self.rename {
            Some(r) => Some(r.clone()),
            None => None,
        };
        ExternCrate {
            name: self.name.clone(),
            rename,
            vis: self.vis.clone(),
            module: self.module.clone(),
        }
    }
}

impl ExternCrate {
    pub fn from_source(name: &String, rename: &Option<String>, vis: &SourceVis, module: Path) -> (r:
        ExternCrate)
        ensures
            r@ == (ExternView {
                name: name@,
                rename: opt_text(*rename),
                vis: vis_of(*vis),
                module: module@,
            }),
    {
        let rename = match rename {
            Some(r) => Some(r.clone()),
            None => None,
        };
        ExternCrate { name: name.clone(), rename, vis: Visibility::from_source(vis), module }
    }

    pub fn rename(&self) -> (r: &Option<String>)
        ensures
            opt_text(*r) == self@.rename,
    {
        &self.rename
    }

    pub fn name(&self) -> (r: &str)
        ensures
            r@ == self@.name,
    {
        self.name.as_str()
    }
}

/// Any extracted item that can stand in an item tree.
#[derive(Debug)]
pub enum Item {
    Struct(Struct),
    Enum(Enum),
    Const(Const),
    TypeAlias(TypeAlias),
    Module(Module),
    ReExport(ReExport),
}

/// A re-export: a `use` path in `module` with the items it binds, filed
/// under the text of the path.
#[derive(Debug)]
pub struct ReExport {
    pub module: Path,
    pub use_path: UsePath,
    pub items: Vec<Item>,
    pub name: String,
}

impl ReExport {
    pub fn new(module: Path, use_path: UsePath, items: Vec<Item>) -> (r: ReExport)
        ensures
            r.module@ == module@,
            r.use_path@ == use_path@,
            r.items@ == items@,
            r.name@ == crate::use_path::use_path_text(use_path@, use_path.spec_vis()),
    {
        let name = use_path.to_text();
        ReExport { module, use_path, items, name }
    }
}

impl TreeItem for ReExport {
    open spec fn spec_name(&self) -> Seq<char> {
        self.name@
    }

    open spec fn spec_module(&self) -> Seq<Segment> {
        self.module@
    }

    fn name(&self) -> (r: &str) {
        self.name.as_str()
    }

    fn module(&self) -> (r: &Path) {
        &self.module
    }
}

} // verus!
