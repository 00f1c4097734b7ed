//! The `use`-path resolver: binds each `use` path to the items it names,
//! across every item tree, under the lookup rules of the crate's edition.
//! A name that no tree holds in the designated module is looked up among
//! the `use` declarations of that module that bind it, followed one hop.
use vstd::prelude::*;

use crate::extract::{use_view, UseView};
use crate::item::{Const, Enum, ExternCrate, ExternView, Module, Struct, TypeAlias};
use crate::path::{path_eq, Path, Segment};
use crate::text::str_eq;
use crate::tree::{key_of, resolves_to, target_node, target_node_of, tree_map, ItemTree, TreeItem};
use crate::use_path::{normalize, prefix_all_names, UsePath, UsePathComponent, UseSegment};

verus! {

/// The language edition of a crate.
#[derive(Debug, Clone, Copy, PartialEq, Eq, Structural)]
pub enum Edition {
    Edition2015,
    Edition2018,
    Edition2021,
}

/// Errors of the resolver.
#[derive(Debug, Clone, Copy, PartialEq, Eq, Structural)]
pub enum ResolveError {
    /// The 2015 edition's path rules are not implemented.
    UnsupportedEdition,
}

/// Whether a tree holds anything for `use_path` resolved from `start`.
pub open spec fn has_match<T: TreeItem>(
    map: Map<(Seq<Segment>, Seq<char>), T>,
    start: Seq<Segment>,
    use_path: Seq<UseSegment>,
) -> bool {
    match target_node(start, use_path) {
        None => false,
        Some(node) => match use_path.last() {
            UseSegment::Name(n) => map.contains_key((node, n)),
            UseSegment::Rename(n, _) => map.contains_key((node, n)),
            UseSegment::Glob => exists|k: (Seq<Segment>, Seq<char>)|
                map.contains_key(k) && k.0 == node,
            UseSegment::Empty => false,
        },
    }
}

/// A resolution is empty exactly when the tree holds nothing for the path.
pub proof fn lemma_resolution_empty_iff_no_match<T: TreeItem>(
    map: Map<(Seq<Segment>, Seq<char>), T>,
    start: Seq<Segment>,
    use_path: Seq<UseSegment>,
    r: Seq<T>,
)
    requires
        resolves_to(map, start, use_path, r),
    ensures
        r.len() > 0 <==> has_match(map, start, use_path),
{
    if let Some(node) = target_node(start, use_path) {
        if use_path.last() is Glob {
            if r.len() > 0 {
                assert(map.contains_key(key_of(r[0])) && key_of(r[0]).0 == node);
            }
            if has_match(map, start, use_path) {
                let k = choose|k: (Seq<Segment>, Seq<char>)| map.contains_key(k) && k.0 == node;
                let i = choose|i: int| 0 <= i < r.len() && #[trigger] key_of(r[i]) == k;
            }
        }
    }
}

/// An item bound by a `use` path, with its kind.
pub enum ResolvedItem {
    Struct(Struct),
    Enum(Enum),
    Const(Const),
    TypeAlias(TypeAlias),
    Module(Module),
}

/// An item bound by a `use` path, with its kind, borrowed from the index.
#[derive(Debug)]
pub enum ResolvedUsePath<'item> {
    Struct(&'item Struct),
    Module(&'item Module),
    Enum(&'item Enum),
    Const(&'item Const),
    TypeAlias(&'item TypeAlias),
}

impl<'item> View for ResolvedUsePath<'item> {
    type V = ResolvedItem;

    open spec fn view(&self) -> ResolvedItem {
        match self {
            ResolvedUsePath::Struct(s) => ResolvedItem::Struct(**s),
            ResolvedUsePath::Module(m) => ResolvedItem::Module(**m),
            ResolvedUsePath::Enum(e) => ResolvedItem::Enum(**e),
            ResolvedUsePath::Const(c) => ResolvedItem::Const(**c),
            ResolvedUsePath::TypeAlias(t) => ResolvedItem::TypeAlias(**t),
        }
    }
}

/// The trees, `extern crate` declarations and `use` declarations that the
/// resolver reads.
pub struct Index {
    pub structs: Map<(Seq<Segment>, Seq<char>), Struct>,
    pub enums: Map<(Seq<Segment>, Seq<char>), Enum>,
    pub consts: Map<(Seq<Segment>, Seq<char>), Const>,
    pub types: Map<(Seq<Segment>, Seq<char>), TypeAlias>,
    pub modules: Map<(Seq<Segment>, Seq<char>), Module>,
    pub externs: Seq<ExternView>,
    pub uses: Seq<UseView>,
}

/// Whether any tree holds anything for `use_path` resolved from `start`.
pub open spec fn any_match(ix: Index, start: Seq<Segment>, use_path: Seq<UseSegment>) -> bool {
    has_match(ix.structs, start, use_path) || has_match(ix.enums, start, use_path) || has_match(
        ix.consts,
        start,
        use_path,
    ) || has_match(ix.types, start, use_path) || has_match(ix.modules, start, use_path)
}

/// `out` is what every tree binds to `use_path` resolved from `start`:
/// structs, then enums, constants, type aliases and modules.
pub open spec fn resolves_in_all(
    ix: Index,
    start: Seq<Segment>,
    use_path: Seq<UseSegment>,
    out: Seq<ResolvedItem>,
) -> bool {
    exists|a: Seq<Struct>, b: Seq<Enum>, c: Seq<Const>, d: Seq<TypeAlias>, e: Seq<Module>|
        {
            &&& resolves_to(ix.structs, start, use_path, a)
            &&& resolves_to(ix.enums, start, use_path, b)
            &&& resolves_to(ix.consts, start, use_path, c)
            &&& resolves_to(ix.types, start, use_path, d)
            &&& resolves_to(ix.modules, start, use_path, e)
            &&& out == a.map_values(|x: Struct| ResolvedItem::Struct(x)) + b.map_values(
                |x: Enum| ResolvedItem::Enum(x),
            ) + c.map_values(|x: Const| ResolvedItem::Const(x)) + d.map_values(
                |x: TypeAlias| ResolvedItem::TypeAlias(x),
            ) + e.map_values(|x: Module| ResolvedItem::Module(x))
        }
}

/// The `use` path after the renames of the `extern crate` declarations of
/// `module`, applied in declaration order: a declaration `extern crate name
/// as alias;` turns a first segment `alias` into `name`. The flag tells
/// whether any of them applied.
pub open spec fn apply_renames(
    use_path: Seq<UseSegment>,
    module: Seq<Segment>,
    externs: Seq<ExternView>,
) -> (Seq<UseSegment>, bool)
    decreases externs.len(),
{
    if externs.len() == 0 {
        (use_path, false)
    } else {
        let (up, changed) = apply_renames(use_path, module, externs.drop_last());
        let e = externs.last();
        if e.module == module && e.rename is Some && up.len() > 0 && up[0] == UseSegment::Name(
            e.rename->0,
        ) {
            (up.update(0, UseSegment::Name(e.name)), true)
        } else {
            (up, changed)
        }
    }
}

proof fn lemma_unchanged_without_rename(
    use_path: Seq<UseSegment>,
    module: Seq<Segment>,
    externs: Seq<ExternView>,
)
    ensures
        !apply_renames(use_path, module, externs).1 ==> apply_renames(use_path, module, externs).0
            == use_path,
    decreases externs.len(),
{
    if externs.len() > 0 {
        lemma_unchanged_without_rename(use_path, module, externs.drop_last());
    }
}

/// The global attempt: the renames of the crate root's declarations, or
/// failing those, of the containing module's, then resolution from the
/// global root.
pub open spec fn global_path(ix: Index, use_path: Seq<UseSegment>, module: Seq<Segment>) -> Seq<
    UseSegment,
> {
    let (at_root, changed) = apply_renames(use_path, seq![module[0]], ix.externs);
    if changed {
        at_root
    } else {
        apply_renames(use_path, module, ix.externs).0
    }
}

/// A `use` path the resolver accepts: not empty, and unless it is absolute,
/// identifiers before its last segment.
pub open spec fn use_path_valid(p: Seq<UseSegment>) -> bool {
    p.len() > 0 && (p[0] != UseSegment::Empty ==> prefix_all_names(p))
}

/// Checks that a `use` path is one the resolver accepts.
pub fn check_use_path(p: &UsePath) -> (r: bool)
    ensures
        r == use_path_valid(p@),
{
    let comps = p.components();
    assert(comps@.map_values(|c: crate::use_path::UsePathComponent| c@) == p@);
    if comps.len() == 0 {
        return false;
    }
    if matches!(comps[0], crate::use_path::UsePathComponent::Empty) {
        return true;
    }
    let n = comps.len();
    let mut i: usize = 0;
    while i + 1 < n
        invariant
            n == comps@.len(),
            comps@.len() > 0,
            i + 1 <= comps@.len(),
            p@[0] != UseSegment::Empty,
            comps@.map_values(|c: crate::use_path::UsePathComponent| c@) == p@,
            forall|j: int| 0 <= j < i ==> (#[trigger] p@[j]) is Name,
        decreases comps@.len() - i,
    {
        assert(p@[i as int] == comps@[i as int]@);
        if !matches!(comps[i], crate::use_path::UsePathComponent::Name(_)) {
            return false;
        }
        i = i + 1;
    }
    true
}

/// A `use` path that can be resolved: valid, in a non-empty module.
pub open spec fn use_valid(u: UseView) -> bool {
    use_path_valid(u.path) && u.module.len() > 0
}

/// What a `use` path found in `module` binds in the item trees alone, under
/// the rules of the 2018 and later editions. An absolute path (leading root marker) is resolved from
/// the global root without it. Otherwise the path is normalised against
/// `module` and resolved from the base it yields; when that finds nothing,
/// the normalised path, with `extern crate` renames applied, is resolved
/// from the global root.
pub open spec fn direct_resolution(
    ix: Index,
    use_path: Seq<UseSegment>,
    module: Seq<Segment>,
    out: Seq<ResolvedItem>,
) -> bool {
    if use_path[0] == UseSegment::Empty {
        resolves_in_all(ix, Seq::empty(), use_path.drop_first(), out)
    } else {
        let (local, base) = normalize(use_path, module);
        if any_match(ix, base, local) {
            resolves_in_all(ix, base, local, out)
        } else {
            resolves_in_all(ix, Seq::empty(), global_path(ix, local, module), out)
        }
    }
}

/// The name that a `use` path binds: its last identifier, or the alias of
/// a rename.
pub open spec fn bound_name(p: Seq<UseSegment>) -> Option<Seq<char>> {
    if p.len() == 0 {
        None
    } else {
        match p.last() {
            UseSegment::Name(n) => Some(n),
            UseSegment::Rename(_, a) => Some(a),
            _ => None,
        }
    }
}

/// The `use` declarations of `node` that bind the name `n`, in order.
pub open spec fn reexports_at(uses: Seq<UseView>, node: Seq<Segment>, n: Seq<char>) -> Seq<UseView>
    decreases uses.len(),
{
    if uses.len() == 0 {
        Seq::empty()
    } else {
        let rest = reexports_at(uses.drop_last(), node, n);
        let u = uses.last();
        if u.module == node && bound_name(u.path) == Some(n) {
            rest.push(u)
        } else {
            rest
        }
    }
}

/// The module and the name that a name or rename designates below `start`.
pub open spec fn lookup_name(start: Seq<Segment>, use_path: Seq<UseSegment>) -> Option<
    (Seq<Segment>, Seq<char>),
> {
    match target_node(start, use_path) {
        Some(node) => match use_path.last() {
            UseSegment::Name(n) => Some((node, n)),
            UseSegment::Rename(n, _) => Some((node, n)),
            _ => None,
        },
        None => None,
    }
}

/// Whether the direct resolution of a `use` path finds anything.
pub open spec fn direct_found(ix: Index, use_path: Seq<UseSegment>, module: Seq<Segment>) -> bool {
    if use_path[0] == UseSegment::Empty {
        any_match(ix, Seq::empty(), use_path.drop_first())
    } else {
        let (local, base) = normalize(use_path, module);
        any_match(ix, base, local) || any_match(
            ix,
            Seq::empty(),
            global_path(ix, local, module),
        )
    }
}

/// Whether a `use` declaration, followed once, binds anything.
pub open spec fn reexport_found(ix: Index, u: UseView) -> bool {
    use_valid(u) && direct_found(ix, u.path, u.module)
}

/// `out` is what the `use` declarations `rs` bind, each resolved directly
/// from its own module, one after the other; a malformed one binds nothing.
pub open spec fn reexports_resolve(ix: Index, rs: Seq<UseView>, out: Seq<ResolvedItem>) -> bool
    decreases rs.len(),
{
    if rs.len() == 0 {
        out.len() == 0
    } else {
        exists|j: int|
            0 <= j <= out.len() && reexports_resolve(ix, rs.drop_last(), #[trigger] out.take(j))
                && follows_once(ix, rs.last(), out.skip(j))
    }
}

/// `out` is what the `use` declaration `u` binds, resolved directly from its
/// own module; nothing when it is malformed.
pub open spec fn follows_once(ix: Index, u: UseView, out: Seq<ResolvedItem>) -> bool {
    if use_valid(u) {
        direct_resolution(ix, u.path, u.module, out)
    } else {
        out.len() == 0
    }
}

/// Whether looking `use_path` up from `start` finds anything: in the trees,
/// or else through a `use` of the designated module that binds the name.
pub open spec fn found(ix: Index, start: Seq<Segment>, use_path: Seq<UseSegment>) -> bool {
    any_match(ix, start, use_path) || match lookup_name(start, use_path) {
        Some((node, n)) => exists|k: int|
            0 <= k < reexports_at(ix.uses, node, n).len() && reexport_found(
                ix,
                #[trigger] reexports_at(ix.uses, node, n)[k],
            ),
        None => false,
    }
}

/// `out` is what `use_path` looked up from `start` binds: what the trees
/// hold, and when they hold nothing for a name or a rename, what the `use`
/// declarations of the designated module that bind that name resolve to,
/// followed one hop only.
pub open spec fn lookup(
    ix: Index,
    start: Seq<Segment>,
    use_path: Seq<UseSegment>,
    out: Seq<ResolvedItem>,
) -> bool {
    if any_match(ix, start, use_path) {
        resolves_in_all(ix, start, use_path, out)
    } else {
        match lookup_name(start, use_path) {
            Some((node, n)) => reexports_resolve(ix, reexports_at(ix.uses, node, n), out),
            None => out.len() == 0,
        }
    }
}

/// What a `use` path found in `module` binds under the rules of the 2018 and
/// later editions. An absolute path (leading root marker) is looked up from
/// the global root without it. Otherwise the path is normalised against
/// `module` and looked up from the base it yields; when that finds nothing,
/// the normalised path, with `extern crate` renames applied, is looked up
/// from the global root.
pub open spec fn resolution(
    ix: Index,
    use_path: Seq<UseSegment>,
    module: Seq<Segment>,
    out: Seq<ResolvedItem>,
) -> bool {
    if use_path[0] == UseSegment::Empty {
        lookup(ix, Seq::empty(), use_path.drop_first(), out)
    } else {
        let (local, base) = normalize(use_path, module);
        if found(ix, base, local) {
            lookup(ix, base, local, out)
        } else {
            lookup(ix, Seq::empty(), global_path(ix, local, module), out)
        }
    }
}

/// Resolves `use` paths against the item trees of an index.
pub struct UsePathResolver<'tree> {
    structs_tree: ItemTree<'tree, Struct>,
    mod_tree: ItemTree<'tree, Module>,
    extern_crates: Vec<ExternCrate>,
    enums_tree: ItemTree<'tree, Enum>,
    consts_tree: ItemTree<'tree, Const>,
    type_aliases_tree: ItemTree<'tree, TypeAlias>,
    uses: &'tree [(Path, UsePath)],
    edition: Edition,
}


/// An item kind that a resolution can bind.
pub trait Resolvable: TreeItem {
    /// The item tagged with its kind.
    spec fn spec_resolved(&self) -> ResolvedItem;

    fn resolved<'a>(&'a self) -> (r: ResolvedUsePath<'a>)
        ensures
            r@ == self.spec_resolved(),
    ;
}

impl Resolvable for Struct {
    open spec fn spec_resolved(&self) -> ResolvedItem {
        ResolvedItem::Struct(*self)
    }

    fn resolved<'a>(&'a self) -> (r: ResolvedUsePath<'a>) {
        ResolvedUsePath::Struct(self)
    }
}

impl Resolvable for Enum {
    open spec fn spec_resolved(&self) -> ResolvedItem {
        ResolvedItem::Enum(*self)
    }

    fn resolved<'a>(&'a self) -> (r: ResolvedUsePath<'a>) {
        ResolvedUsePath::Enum(self)
    }
}

impl Resolvable for Const {
    open spec fn spec_resolved(&self) -> ResolvedItem {
        ResolvedItem::Const(*self)
    }

    fn resolved<'a>(&'a self) -> (r: ResolvedUsePath<'a>) {
        ResolvedUsePath::Const(self)
    }
}

impl Resolvable for TypeAlias {
    open spec fn spec_resolved(&self) -> ResolvedItem {
        ResolvedItem::TypeAlias(*self)
    }

    fn resolved<'a>(&'a self) -> (r: ResolvedUsePath<'a>) {
        ResolvedUsePath::TypeAlias(self)
    }
}

impl Resolvable for Module {
    open spec fn spec_resolved(&self) -> ResolvedItem {
        ResolvedItem::Module(*self)
    }

    fn resolved<'a>(&'a self) -> (r: ResolvedUsePath<'a>) {
        ResolvedUsePath::Module(self)
    }
}

fn push_found<'a, T: Resolvable>(out: &mut Vec<ResolvedUsePath<'a>>, found: Vec<&'a T>)
    ensures
        final(out)@.map_values(|x: ResolvedUsePath<'a>| x@) == old(out)@.map_values(
            |x: ResolvedUsePath<'a>| x@,
        ) + found@.map_values(|x: &T| x.spec_resolved()),
{
    let ghost start = old(out)@.map_values(|x: ResolvedUsePath<'a>| x@);
    let ghost added = found@.map_values(|x: &T| x.spec_resolved());
    let mut i: usize = 0;
    while i < found.len()
        invariant
            i <= found@.len(),
            added == found@.map_values(|x: &T| x.spec_resolved()),
            out@.map_values(|x: ResolvedUsePath<'a>| x@) == start + added.take(i as int),
        decreases found@.len() - i,
    {
        let ghost before = out@;
        let item = found[i].resolved();
        out.push(item);
        assert(added.take(i + 1) =~= added.take(i as int).push(added[i as int]));
        assert(out@.map_values(|x: ResolvedUsePath<'a>| x@) =~= before.map_values(
            |x: ResolvedUsePath<'a>| x@,
        ).push(added[i as int]));
        assert(start + added.take(i + 1) =~= (start + added.take(i as int)).push(added[i as int]));
        i = i + 1;
    }
    assert(added.take(i as int) =~= added);
}

/// Applies, in declaration order, the renames of the `extern crate`
/// declarations of `module` to the first segment of `use_path`, and tells
/// whether any applied.
pub fn extern_crate_rename(
    use_path: &mut UsePath,
    module: &Path,
    extern_crates: &Vec<ExternCrate>,
) -> (r: bool)
    ensures
        (final(use_path)@, r) == apply_renames(
            old(use_path)@,
            module@,
            extern_crates@.map_values(|e: ExternCrate| e@),
        ),
        final(use_path).spec_vis() == old(use_path).spec_vis(),
{
    let ghost es = extern_crates@.map_values(|e: ExternCrate| e@);
    let mut changed = false;
    let mut i: usize = 0;
    while i < extern_crates.len()
        invariant
            i <= extern_crates@.len(),
            es == extern_crates@.map_values(|e: ExternCrate| e@),
            (use_path@, changed) == apply_renames(old(use_path)@, module@, es.take(i as int)),
            use_path.spec_vis() == old(use_path).spec_vis(),
        decreases extern_crates@.len() - i,
    {
        let e = &extern_crates[i];
        assert(es.take(i + 1).drop_last() =~= es.take(i as int));
        assert(es.take(i + 1).last() == e@);
        if path_eq(&e.module, module) {
            if let Some(rename) = e.rename() {
                if use_path.begins_with(rename.as_str()) {
                    use_path.replace_first(e.name());
                    changed = true;
                }
            }
        }
        i = i + 1;
    }
    assert(es.take(i as int) =~= es);
    changed
}

impl<'tree> UsePathResolver<'tree> {
    /// The trees are well formed.
    pub closed spec fn wf(&self) -> bool {
        &&& self.structs_tree.wf()
        &&& self.enums_tree.wf()
        &&& self.consts_tree.wf()
        &&& self.type_aliases_tree.wf()
        &&& self.mod_tree.wf()
    }

    /// What the resolver reads, as mathematical values.
    pub closed spec fn spec_index(&self) -> Index {
        Index {
            structs: self.structs_tree.spec_map(),
            enums: self.enums_tree.spec_map(),
            consts: self.consts_tree.spec_map(),
            types: self.type_aliases_tree.spec_map(),
            modules: self.mod_tree.spec_map(),
            externs: self.extern_crates@.map_values(|e: ExternCrate| e@),
            uses: self.uses@.map_values(|u: (Path, UsePath)| use_view(u)),
        }
    }

    pub closed spec fn spec_edition(&self) -> Edition {
        self.edition
    }

    /// Switches to the path rules of another edition.
    pub fn set_edition(&mut self, edition: Edition)
        requires
            old(self).wf(),
        ensures
            final(self).wf(),
            final(self).spec_index() == old(self).spec_index(),
            final(self).spec_edition() == edition,
    {
        self.edition = edition;
    }

    /// Builds one tree per item kind from the extracted items.
    pub fn new(
        structs: &'tree [Struct],
        enums: &'tree [Enum],
        consts: &'tree [Const],
        type_aliases: &'tree [TypeAlias],
        modules: &'tree [Module],
        extern_crates: Vec<ExternCrate>,
        uses: &'tree [(Path, UsePath)],
        edition: Edition,
    ) -> (r: Self)
        requires
            forall|i: int| 0 <= i < structs@.len() ==> crate::path::all_names(#[trigger] structs@[i].spec_module()),
            forall|i: int| 0 <= i < enums@.len() ==> crate::path::all_names(#[trigger] enums@[i].spec_module()),
            forall|i: int| 0 <= i < consts@.len() ==> crate::path::all_names(#[trigger] consts@[i].spec_module()),
            forall|i: int| 0 <= i < type_aliases@.len() ==> crate::path::all_names(#[trigger] type_aliases@[i].spec_module()),
            forall|i: int| 0 <= i < modules@.len() ==> crate::path::all_names(#[trigger] modules@[i].spec_module()),
        ensures
            r.wf(),
            r.spec_index() == (Index {
                structs: tree_map(structs@),
                enums: tree_map(enums@),
                consts: tree_map(consts@),
                types: tree_map(type_aliases@),
                modules: tree_map(modules@),
                externs: extern_crates@.map_values(|e: ExternCrate| e@),
                uses: uses@.map_values(|u: (Path, UsePath)| use_view(u)),
            }),
            r.spec_edition() == edition,
    {
        UsePathResolver {
            structs_tree: ItemTree::new(structs),
            mod_tree: ItemTree::new(modules),
            extern_crates,
            enums_tree: ItemTree::new(enums),
            consts_tree: ItemTree::new(consts),
            type_aliases_tree: ItemTree::new(type_aliases),
            uses,
            edition,
        }
    }

    /// What every tree binds to `use_path` resolved from `start_mod`.
    fn resolve_internal(&self, use_path: &UsePath, start_mod: &Path) -> (r: Vec<
        ResolvedUsePath<'tree>,
    >)
        requires
            self.wf(),
        ensures
            resolves_in_all(
                self.spec_index(),
                start_mod@,
                use_path@,
                r@.map_values(|x: ResolvedUsePath<'tree>| x@),
            ),
            r@.len() > 0 <==> any_match(self.spec_index(), start_mod@, use_path@),
    {
        let mut items: Vec<ResolvedUsePath<'tree>> = Vec::new();
        let a = self.structs_tree.resolve_use_path(use_path, start_mod);
        let b = self.enums_tree.resolve_use_path(use_path, start_mod);
        let c = self.consts_tree.resolve_use_path(use_path, start_mod);
        let d = self.type_aliases_tree.resolve_use_path(use_path, start_mod);
        let e = self.mod_tree.resolve_use_path(use_path, start_mod);
        let ghost (sa, sb, sc, sd, se) = (
            a@.map_values(|x: &Struct| *x),
            b@.map_values(|x: &Enum| *x),
            c@.map_values(|x: &Const| *x),
            d@.map_values(|x: &TypeAlias| *x),
            e@.map_values(|x: &Module| *x),
        );
        proof {
            let ix = self.spec_index();
            lemma_resolution_empty_iff_no_match(ix.structs, start_mod@, use_path@, sa);
            lemma_resolution_empty_iff_no_match(ix.enums, start_mod@, use_path@, sb);
            lemma_resolution_empty_iff_no_match(ix.consts, start_mod@, use_path@, sc);
            lemma_resolution_empty_iff_no_match(ix.types, start_mod@, use_path@, sd);
            lemma_resolution_empty_iff_no_match(ix.modules, start_mod@, use_path@, se);
            assert(items@.map_values(|x: ResolvedUsePath<'tree>| x@) =~= Seq::<ResolvedItem>::empty());
        }
        push_found(&mut items, a);
        push_found(&mut items, b);
        push_found(&mut items, c);
        push_found(&mut items, d);
        push_found(&mut items, e);
        proof {
            let out = items@.map_values(|x: ResolvedUsePath<'tree>| x@);
            let sum = sa.map_values(|x: Struct| ResolvedItem::Struct(x)) + sb.map_values(
                |x: Enum| ResolvedItem::Enum(x),
            ) + sc.map_values(|x: Const| ResolvedItem::Const(x)) + sd.map_values(
                |x: TypeAlias| ResolvedItem::TypeAlias(x),
            ) + se.map_values(|x: Module| ResolvedItem::Module(x));
            assert(a@.map_values(|x: &Struct| x.spec_resolved()) =~= sa.map_values(
                |x: Struct| ResolvedItem::Struct(x),
            ));
            assert(b@.map_values(|x: &Enum| x.spec_resolved()) =~= sb.map_values(
                |x: Enum| ResolvedItem::Enum(x),
            ));
            assert(c@.map_values(|x: &Const| x.spec_resolved()) =~= sc.map_values(
                |x: Const| ResolvedItem::Const(x),
            ));
            assert(d@.map_values(|x: &TypeAlias| x.spec_resolved()) =~= sd.map_values(
                |x: TypeAlias| ResolvedItem::TypeAlias(x),
            ));
            assert(e@.map_values(|x: &Module| x.spec_resolved()) =~= se.map_values(
                |x: Module| ResolvedItem::Module(x),
            ));
            assert(out =~= sum);
            assert(resolves_in_all(self.spec_index(), start_mod@, use_path@, out));
        }
        items
    }

    /// What `use_path`, found in the module `containing_mod`, binds.
    pub fn resolve(&self, use_path: &UsePath, containing_mod: &Path) -> (r: Result<
        Vec<ResolvedUsePath<'tree>>,
        ResolveError,
    >)
        requires
            self.wf(),
            use_path@.len() > 0,
            use_path@[0] != UseSegment::Empty ==> prefix_all_names(use_path@),
            containing_mod@.len() > 0,
        ensures
            r is Err <==> self.spec_edition() == Edition::Edition2015,
            r matches Ok(out) ==> resolution(
                self.spec_index(),
                use_path@,
                containing_mod@,
                out@.map_values(|x: ResolvedUsePath<'tree>| x@),
            ),
    {
        match self.edition {
            Edition::Edition2015 => Err(ResolveError::UnsupportedEdition),
            _ => Ok(self.resolve_path(use_path, containing_mod, true)),
        }
    }

    /// Resolves `use_path` found in `containing_mod`: with `follow`, `use`
    /// declarations are followed one hop where the trees hold nothing;
    /// without it, the trees alone are read.
    fn resolve_path(&self, use_path: &UsePath, containing_mod: &Path, follow: bool) -> (r: Vec<
        ResolvedUsePath<'tree>,
    >)
        requires
            self.wf(),
            use_path_valid(use_path@),
            containing_mod@.len() > 0,
        ensures
            follow ==> resolution(
                self.spec_index(),
                use_path@,
                containing_mod@,
                r@.map_values(|x: ResolvedUsePath<'tree>| x@),
            ),
            !follow ==> direct_resolution(
                self.spec_index(),
                use_path@,
                containing_mod@,
                r@.map_values(|x: ResolvedUsePath<'tree>| x@),
            ),
        decreases (if follow {
            1int
        } else {
            0int
        }), 2int,
    {
        let mut use_path = use_path.clone();
        if use_path.begins_with_empty() {
            use_path.remove_first();
            let start_mod = Path::root();
            self.find(&use_path, &start_mod, follow)
        } else {
            let start_mod = use_path.delocalize(containing_mod);
            let items = self.find(&use_path, &start_mod, follow);
            if items.len() > 0 {
                return items;
            }
            let ghost local = use_path@;
            let start_mod = Path::root();
            let extern_renamed = extern_crate_rename(
                &mut use_path,
                &containing_mod.first_as_path(),
                &self.extern_crates,
            );
            if !extern_renamed {
                proof {
                    lemma_unchanged_without_rename(
                        local,
                        seq![containing_mod@[0]],
                        self.spec_index().externs,
                    );
                }
                extern_crate_rename(&mut use_path, containing_mod, &self.extern_crates);
            }
            self.find(&use_path, &start_mod, follow)
        }
    }

    /// Looks `use_path` up from `start_mod`: in the trees, and with `follow`,
    /// through the `use` declarations when the trees hold nothing.
    fn find(&self, use_path: &UsePath, start_mod: &Path, follow: bool) -> (r: Vec<
        ResolvedUsePath<'tree>,
    >)
        requires
            self.wf(),
        ensures
            follow ==> lookup(
                self.spec_index(),
                start_mod@,
                use_path@,
                r@.map_values(|x: ResolvedUsePath<'tree>| x@),
            ),
            follow ==> (r@.len() > 0 <==> found(self.spec_index(), start_mod@, use_path@)),
            !follow ==> resolves_in_all(
                self.spec_index(),
                start_mod@,
                use_path@,
                r@.map_values(|x: ResolvedUsePath<'tree>| x@),
            ),
            !follow ==> (r@.len() > 0 <==> any_match(self.spec_index(), start_mod@, use_path@)),
        decreases (if follow {
            1int
        } else {
            0int
        }), 1int,
    {
        let items = self.resolve_internal(use_path, start_mod);
        if !follow || items.len() > 0 {
            return items;
        }
        self.follow_uses(use_path, start_mod)
    }

    /// What the `use` declarations of the designated module that bind the
    /// name resolve to, each followed once.
    fn follow_uses(&self, use_path: &UsePath, start_mod: &Path) -> (r: Vec<ResolvedUsePath<'tree>>)
        requires
            self.wf(),
            !any_match(self.spec_index(), start_mod@, use_path@),
        ensures
            lookup(
                self.spec_index(),
                start_mod@,
                use_path@,
                r@.map_values(|x: ResolvedUsePath<'tree>| x@),
            ),
            r@.len() > 0 <==> found(self.spec_index(), start_mod@, use_path@),
        decreases 1int, 0int,
    {
        let ghost ix = self.spec_index();
        let mut out: Vec<ResolvedUsePath<'tree>> = Vec::new();
        assert(out@.map_values(|x: ResolvedUsePath<'tree>| x@) =~= Seq::<ResolvedItem>::empty());
        let node = match target_node_of(use_path, start_mod) {
            Some(p) => p,
            None => {
                return out;
            },
        };
        let comps = use_path.components();
        assert(comps@.map_values(|c: UsePathComponent| c@) == use_path@);
        assert(use_path@.last() == comps@[comps@.len() - 1]@);
        let name: &String = match &comps[comps.len() - 1] {
            UsePathComponent::Name(n) => n,
            UsePathComponent::Rename(n, _) => n,
            _ => {
                return out;
            },
        };
        assert(lookup_name(start_mod@, use_path@) == Some((node@, name@)));
        let ghost uses = ix.uses;
        let mut i: usize = 0;
        assert(uses.take(0) =~= Seq::<UseView>::empty());
        while i < self.uses.len()
            invariant
                self.wf(),
                ix == self.spec_index(),
                uses == ix.uses,
                uses == self.uses@.map_values(|u: (Path, UsePath)| use_view(u)),
                i <= self.uses@.len(),
                reexports_resolve(
                    ix,
                    reexports_at(uses.take(i as int), node@, name@),
                    out@.map_values(|x: ResolvedUsePath<'tree>| x@),
                ),
            decreases self.uses@.len() - i,
        {
            let (m2, up2) = &self.uses[i];
            let ghost u = use_view(self.uses@[i as int]);
            let ghost rs = reexports_at(uses.take(i as int), node@, name@);
            let ghost before = out@.map_values(|x: ResolvedUsePath<'tree>| x@);
            proof {
                assert(uses.take(i + 1).drop_last() =~= uses.take(i as int));
                assert(uses.take(i + 1).last() == u);
                assert(u.module == m2@ && u.path == up2@);
            }
            if path_eq(m2, &node) && binds_name(up2, name.as_str()) {
                assert(reexports_at(uses.take(i + 1), node@, name@) == rs.push(u));
                assert(rs.push(u).drop_last() =~= rs);
                if check_use_path(up2) && m2.len() > 0 {
                    let mut more = self.resolve_path(up2, m2, false);
                    let ghost added = more@.map_values(|x: ResolvedUsePath<'tree>| x@);
                    let ghost pre = out@;
                    let ghost moved = more@;
                    out.append(&mut more);
                    assert(out@ =~= pre + moved);
                    let ghost now = out@.map_values(|x: ResolvedUsePath<'tree>| x@);
                    assert(now =~= before + added);
                    assert(now.take(before.len() as int) =~= before);
                    assert(now.skip(before.len() as int) =~= added);
                    assert(reexports_resolve(ix, rs.push(u).drop_last(), now.take(before.len() as int)));
                } else {
                    assert(before.take(before.len() as int) =~= before);
                    assert(before.skip(before.len() as int) =~= Seq::<ResolvedItem>::empty());
                    assert(reexports_resolve(ix, rs.push(u).drop_last(), before.take(before.len() as int)));
                }
            }
            i = i + 1;
        }
        proof {
            assert(uses.take(i as int) =~= uses);
            lemma_reexports_nonempty_iff(
                ix,
                reexports_at(uses, node@, name@),
                out@.map_values(|x: ResolvedUsePath<'tree>| x@),
            );
        }
        out
    }
}

/// Whether a `use` path binds the name `n`.
fn binds_name(p: &UsePath, n: &str) -> (r: bool)
    ensures
        r == (bound_name(p@) == Some(n@)),
{
    let comps = p.components();
    assert(comps@.map_values(|c: UsePathComponent| c@) == p@);
    if comps.len() == 0 {
        return false;
    }
    assert(p@.last() == comps@[comps@.len() - 1]@);
    match &comps[comps.len() - 1] {
        UsePathComponent::Name(x) => str_eq(x.as_str(), n),
        UsePathComponent::Rename(_, a) => str_eq(a.as_str(), n),
        _ => false,
    }
}

proof fn lemma_all_nonempty_iff(
    ix: Index,
    start: Seq<Segment>,
    use_path: Seq<UseSegment>,
    out: Seq<ResolvedItem>,
)
    requires
        resolves_in_all(ix, start, use_path, out),
    ensures
        out.len() > 0 <==> any_match(ix, start, use_path),
{
    let (a, b, c, d, e) = choose|a: Seq<Struct>, b: Seq<Enum>, c: Seq<Const>, d: Seq<TypeAlias>, e: Seq<Module>|
        {
            &&& resolves_to(ix.structs, start, use_path, a)
            &&& resolves_to(ix.enums, start, use_path, b)
            &&& resolves_to(ix.consts, start, use_path, c)
            &&& resolves_to(ix.types, start, use_path, d)
            &&& resolves_to(ix.modules, start, use_path, e)
            &&& out == a.map_values(|x: Struct| ResolvedItem::Struct(x)) + b.map_values(
                |x: Enum| ResolvedItem::Enum(x),
            ) + c.map_values(|x: Const| ResolvedItem::Const(x)) + d.map_values(
                |x: TypeAlias| ResolvedItem::TypeAlias(x),
            ) + e.map_values(|x: Module| ResolvedItem::Module(x))
        };
    lemma_resolution_empty_iff_no_match(ix.structs, start, use_path, a);
    lemma_resolution_empty_iff_no_match(ix.enums, start, use_path, b);
    lemma_resolution_empty_iff_no_match(ix.consts, start, use_path, c);
    lemma_resolution_empty_iff_no_match(ix.types, start, use_path, d);
    lemma_resolution_empty_iff_no_match(ix.modules, start, use_path, e);
}

proof fn lemma_direct_nonempty_iff(
    ix: Index,
    use_path: Seq<UseSegment>,
    module: Seq<Segment>,
    out: Seq<ResolvedItem>,
)
    requires
        direct_resolution(ix, use_path, module, out),
    ensures
        out.len() > 0 <==> direct_found(ix, use_path, module),
{
    if use_path[0] == UseSegment::Empty {
        lemma_all_nonempty_iff(ix, Seq::empty(), use_path.drop_first(), out);
    } else {
        let (local, base) = normalize(use_path, module);
        if any_match(ix, base, local) {
            lemma_all_nonempty_iff(ix, base, local, out);
        } else {
            lemma_all_nonempty_iff(ix, Seq::empty(), global_path(ix, local, module), out);
        }
    }
}

proof fn lemma_reexports_nonempty_iff(ix: Index, rs: Seq<UseView>, out: Seq<ResolvedItem>)
    requires
        reexports_resolve(ix, rs, out),
    ensures
        out.len() > 0 <==> exists|k: int| 0 <= k < rs.len() && reexport_found(ix, #[trigger] rs[k]),
    decreases rs.len(),
{
    if rs.len() > 0 {
        let j = choose|j: int|
            0 <= j <= out.len() && reexports_resolve(ix, rs.drop_last(), #[trigger] out.take(j))
                && follows_once(ix, rs.last(), out.skip(j));
        let a = out.take(j);
        let b = out.skip(j);
        lemma_reexports_nonempty_iff(ix, rs.drop_last(), a);
        let p = rs.drop_last();
        if use_valid(rs.last()) {
            lemma_direct_nonempty_iff(ix, rs.last().path, rs.last().module, b);
        }
        assert(out.len() == a.len() + b.len());
        if out.len() > 0 {
            if a.len() > 0 {
                let k = choose|k: int| 0 <= k < p.len() && reexport_found(ix, #[trigger] p[k]);
                assert(rs[k] == p[k]);
            } else {
                assert(reexport_found(ix, rs[rs.len() - 1]));
            }
        }
        if exists|k: int| 0 <= k < rs.len() && reexport_found(ix, #[trigger] rs[k]) {
            let k = choose|k: int| 0 <= k < rs.len() && reexport_found(ix, #[trigger] rs[k]);
            if k < rs.len() - 1 {
                assert(p[k] == rs[k]);
            }
        }
    }
}

proof fn lemma_lookup_nonempty_iff(
    ix: Index,
    start: Seq<Segment>,
    use_path: Seq<UseSegment>,
    out: Seq<ResolvedItem>,
)
    requires
        lookup(ix, start, use_path, out),
    ensures
        out.len() > 0 <==> found(ix, start, use_path),
{
    if any_match(ix, start, use_path) {
        lemma_all_nonempty_iff(ix, start, use_path, out);
    } else if let Some((node, n)) = lookup_name(start, use_path) {
        lemma_reexports_nonempty_iff(ix, reexports_at(ix.uses, node, n), out);
    }
}

/// An absolute `use` path (one that starts with the root marker) binds the
/// same items whatever module it is found in.
pub proof fn lemma_absolute_ignores_module(
    ix: Index,
    use_path: Seq<UseSegment>,
    m1: Seq<Segment>,
    m2: Seq<Segment>,
    out: Seq<ResolvedItem>,
)
    requires
        use_path.len() > 0,
        use_path[0] == UseSegment::Empty,
    ensures
        resolution(ix, use_path, m1, out) == resolution(ix, use_path, m2, out),
{
}

/// A `use` path for which every attempt of resolution misses binds nothing:
/// the result is empty, and no error.
pub proof fn lemma_total_miss_is_empty(
    ix: Index,
    use_path: Seq<UseSegment>,
    module: Seq<Segment>,
    out: Seq<ResolvedItem>,
)
    requires
        use_path.len() > 0,
        resolution(ix, use_path, module, out),
        use_path[0] == UseSegment::Empty ==> !found(ix, Seq::empty(), use_path.drop_first()),
        use_path[0] != UseSegment::Empty ==> !found(
            ix,
            normalize(use_path, module).1,
            normalize(use_path, module).0,
        ) && !found(ix, Seq::empty(), global_path(ix, normalize(use_path, module).0, module)),
    ensures
        out.len() == 0,
{
    if use_path[0] == UseSegment::Empty {
        lemma_lookup_nonempty_iff(ix, Seq::empty(), use_path.drop_first(), out);
    } else {
        let (local, base) = normalize(use_path, module);
        lemma_lookup_nonempty_iff(ix, Seq::empty(), global_path(ix, local, module), out);
    }
}

proof fn lemma_resolves_to_same_items<T: TreeItem>(
    map: Map<(Seq<Segment>, Seq<char>), T>,
    start: Seq<Segment>,
    use_path: Seq<UseSegment>,
    r1: Seq<T>,
    r2: Seq<T>,
)
    requires
        resolves_to(map, start, use_path, r1),
        resolves_to(map, start, use_path, r2),
    ensures
        forall|x: T| r1.contains(x) ==> r2.contains(x),
{
    if let Some(node) = target_node(start, use_path) {
        if use_path.last() is Glob {
            assert forall|x: T| r1.contains(x) implies r2.contains(x) by {
                let i = choose|i: int| 0 <= i < r1.len() && r1[i] == x;
                assert(key_of(r1[i]).0 == node && map.contains_key(key_of(r1[i])));
                let k = key_of(x);
                let j = choose|j: int| 0 <= j < r2.len() && #[trigger] key_of(r2[j]) == k;
                assert(r2[j] == map[k]);
            }
        }
    }
}

proof fn lemma_one_direction(
    ix: Index,
    start: Seq<Segment>,
    use_path: Seq<UseSegment>,
    o1: Seq<ResolvedItem>,
    o2: Seq<ResolvedItem>,
)
    requires
        resolves_in_all(ix, start, use_path, o1),
        resolves_in_all(ix, start, use_path, o2),
    ensures
        forall|y: ResolvedItem| o1.contains(y) ==> o2.contains(y),
{
    let (a1, b1, c1, d1, e1) = choose|a: Seq<Struct>, b: Seq<Enum>, c: Seq<Const>, d: Seq<TypeAlias>, e: Seq<Module>|
        {
            &&& resolves_to(ix.structs, start, use_path, a)
            &&& resolves_to(ix.enums, start, use_path, b)
            &&& resolves_to(ix.consts, start, use_path, c)
            &&& resolves_to(ix.types, start, use_path, d)
            &&& resolves_to(ix.modules, start, use_path, e)
            &&& o1 == a.map_values(|x: Struct| ResolvedItem::Struct(x)) + b.map_values(
                |x: Enum| ResolvedItem::Enum(x),
            ) + c.map_values(|x: Const| ResolvedItem::Const(x)) + d.map_values(
                |x: TypeAlias| ResolvedItem::TypeAlias(x),
            ) + e.map_values(|x: Module| ResolvedItem::Module(x))
        };
    let (a2, b2, c2, d2, e2) = choose|a: Seq<Struct>, b: Seq<Enum>, c: Seq<Const>, d: Seq<TypeAlias>, e: Seq<Module>|
        {
            &&& resolves_to(ix.structs, start, use_path, a)
            &&& resolves_to(ix.enums, start, use_path, b)
            &&& resolves_to(ix.consts, start, use_path, c)
            &&& resolves_to(ix.types, start, use_path, d)
            &&& resolves_to(ix.modules, start, use_path, e)
            &&& o2 == a.map_values(|x: Struct| ResolvedItem::Struct(x)) + b.map_values(
                |x: Enum| ResolvedItem::Enum(x),
            ) + c.map_values(|x: Const| ResolvedItem::Const(x)) + d.map_values(
                |x: TypeAlias| ResolvedItem::TypeAlias(x),
            ) + e.map_values(|x: Module| ResolvedItem::Module(x))
        };
    lemma_resolves_to_same_items(ix.structs, start, use_path, a1, a2);
    lemma_resolves_to_same_items(ix.enums, start, use_path, b1, b2);
    lemma_resolves_to_same_items(ix.consts, start, use_path, c1, c2);
    lemma_resolves_to_same_items(ix.types, start, use_path, d1, d2);
    lemma_resolves_to_same_items(ix.modules, start, use_path, e1, e2);
    let sa1 = a1.map_values(|x: Struct| ResolvedItem::Struct(x));
    let sb1 = b1.map_values(|x: Enum| ResolvedItem::Enum(x));
    let sc1 = c1.map_values(|x: Const| ResolvedItem::Const(x));
    let sd1 = d1.map_values(|x: TypeAlias| ResolvedItem::TypeAlias(x));
    let se1 = e1.map_values(|x: Module| ResolvedItem::Module(x));
    let sa2 = a2.map_values(|x: Struct| ResolvedItem::Struct(x));
    let sb2 = b2.map_values(|x: Enum| ResolvedItem::Enum(x));
    let sc2 = c2.map_values(|x: Const| ResolvedItem::Const(x));
    let sd2 = d2.map_values(|x: TypeAlias| ResolvedItem::TypeAlias(x));
    let se2 = e2.map_values(|x: Module| ResolvedItem::Module(x));
    assert forall|y: ResolvedItem| o1.contains(y) implies o2.contains(y) by {
        let i = choose|i: int| 0 <= i < o1.len() && o1[i] == y;
        let n1 = sa1.len();
        let n2 = n1 + sb1.len();
        let n3 = n2 + sc1.len();
        let n4 = n3 + sd1.len();
        let m1 = sa2.len();
        let m2 = m1 + sb2.len();
        let m3 = m2 + sc2.len();
        let m4 = m3 + sd2.len();
        if i < n1 {
            assert(o1[i] == sa1[i]);
            assert(a1.contains(a1[i]));
            let j = choose|j: int| 0 <= j < a2.len() && a2[j] == a1[i];
            assert(o2[j] == sa2[j]);
        } else if i < n2 {
            assert(o1[i] == sb1[i - n1]);
            assert(b1.contains(b1[i - n1]));
            let j = choose|j: int| 0 <= j < b2.len() && b2[j] == b1[i - n1];
            assert(o2[m1 + j] == sb2[j]);
        } else if i < n3 {
            assert(o1[i] == sc1[i - n2]);
            assert(c1.contains(c1[i - n2]));
            let j = choose|j: int| 0 <= j < c2.len() && c2[j] == c1[i - n2];
            assert(o2[m2 + j] == sc2[j]);
        } else if i < n4 {
            assert(o1[i] == sd1[i - n3]);
            assert(d1.contains(d1[i - n3]));
            let j = choose|j: int| 0 <= j < d2.len() && d2[j] == d1[i - n3];
            assert(o2[m3 + j] == sd2[j]);
        } else {
            assert(o1[i] == se1[i - n4]);
            assert(e1.contains(e1[i - n4]));
            let j = choose|j: int| 0 <= j < e2.len() && e2[j] == e1[i - n4];
            assert(o2[m4 + j] == se2[j]);
        }
    }
}

proof fn lemma_direct_same_items(
    ix: Index,
    use_path: Seq<UseSegment>,
    module: Seq<Segment>,
    o1: Seq<ResolvedItem>,
    o2: Seq<ResolvedItem>,
)
    requires
        direct_resolution(ix, use_path, module, o1),
        direct_resolution(ix, use_path, module, o2),
    ensures
        forall|y: ResolvedItem| o1.contains(y) ==> o2.contains(y),
{
    if use_path[0] == UseSegment::Empty {
        lemma_one_direction(ix, Seq::empty(), use_path.drop_first(), o1, o2);
    } else {
        let (local, base) = normalize(use_path, module);
        if any_match(ix, base, local) {
            lemma_one_direction(ix, base, local, o1, o2);
        } else {
            lemma_one_direction(ix, Seq::empty(), global_path(ix, local, module), o1, o2);
        }
    }
}

proof fn lemma_contains_split(o: Seq<ResolvedItem>, j: int, y: ResolvedItem)
    requires
        0 <= j <= o.len(),
        o.contains(y),
    ensures
        o.take(j).contains(y) || o.skip(j).contains(y),
{
    let i = choose|i: int| 0 <= i < o.len() && o[i] == y;
    if i < j {
        assert(o.take(j)[i] == y);
    } else {
        assert(o.skip(j)[i - j] == y);
    }
}

proof fn lemma_contains_joined(o: Seq<ResolvedItem>, j: int, y: ResolvedItem)
    requires
        0 <= j <= o.len(),
    ensures
        o.take(j).contains(y) ==> o.contains(y),
        o.skip(j).contains(y) ==> o.contains(y),
{
    if o.take(j).contains(y) {
        let k = choose|k: int| 0 <= k < o.take(j).len() && o.take(j)[k] == y;
        assert(o[k] == y);
    }
    if o.skip(j).contains(y) {
        let k = choose|k: int| 0 <= k < o.skip(j).len() && o.skip(j)[k] == y;
        assert(o[j + k] == y);
    }
}

proof fn lemma_reexports_same_items(
    ix: Index,
    rs: Seq<UseView>,
    o1: Seq<ResolvedItem>,
    o2: Seq<ResolvedItem>,
)
    requires
        reexports_resolve(ix, rs, o1),
        reexports_resolve(ix, rs, o2),
    ensures
        forall|y: ResolvedItem| o1.contains(y) ==> o2.contains(y),
    decreases rs.len(),
{
    if rs.len() > 0 {
        let j1 = choose|j: int|
            0 <= j <= o1.len() && reexports_resolve(ix, rs.drop_last(), #[trigger] o1.take(j))
                && follows_once(ix, rs.last(), o1.skip(j));
        let j2 = choose|j: int|
            0 <= j <= o2.len() && reexports_resolve(ix, rs.drop_last(), #[trigger] o2.take(j))
                && follows_once(ix, rs.last(), o2.skip(j));
        lemma_reexports_same_items(ix, rs.drop_last(), o1.take(j1), o2.take(j2));
        if use_valid(rs.last()) {
            lemma_direct_same_items(ix, rs.last().path, rs.last().module, o1.skip(j1), o2.skip(j2));
        }
        assert forall|y: ResolvedItem| o1.contains(y) implies o2.contains(y) by {
            lemma_contains_split(o1, j1, y);
            if o1.take(j1).contains(y) {
                lemma_contains_joined(o2, j2, y);
            } else {
                lemma_contains_joined(o2, j2, y);
            }
        }
    }
}

proof fn lemma_lookup_same_items(
    ix: Index,
    start: Seq<Segment>,
    use_path: Seq<UseSegment>,
    o1: Seq<ResolvedItem>,
    o2: Seq<ResolvedItem>,
)
    requires
        lookup(ix, start, use_path, o1),
        lookup(ix, start, use_path, o2),
    ensures
        forall|y: ResolvedItem| o1.contains(y) ==> o2.contains(y),
{
    if any_match(ix, start, use_path) {
        lemma_one_direction(ix, start, use_path, o1, o2);
    } else if let Some((node, n)) = lookup_name(start, use_path) {
        lemma_reexports_same_items(ix, reexports_at(ix.uses, node, n), o1, o2);
    }
}

/// Resolving the same `use` path in the same module against the same index
/// twice binds the same items: the two results hold the same elements.
pub proof fn lemma_resolution_same_items(
    ix: Index,
    use_path: Seq<UseSegment>,
    module: Seq<Segment>,
    o1: Seq<ResolvedItem>,
    o2: Seq<ResolvedItem>,
)
    requires
        resolution(ix, use_path, module, o1),
        resolution(ix, use_path, module, o2),
    ensures
        forall|y: ResolvedItem| o1.contains(y) <==> o2.contains(y),
{
    if use_path[0] == UseSegment::Empty {
        lemma_lookup_same_items(ix, Seq::empty(), use_path.drop_first(), o1, o2);
        lemma_lookup_same_items(ix, Seq::empty(), use_path.drop_first(), o2, o1);
    } else {
        let (local, base) = normalize(use_path, module);
        if found(ix, base, local) {
            lemma_lookup_same_items(ix, base, local, o1, o2);
            lemma_lookup_same_items(ix, base, local, o2, o1);
        } else {
            let g = global_path(ix, local, module);
            lemma_lookup_same_items(ix, Seq::empty(), g, o1, o2);
            lemma_lookup_same_items(ix, Seq::empty(), g, o2, o1);
        }
    }
}

} // verus!
