//! Item extractors: from the items of a source file and the module they
//! belong to, the declarations of each kind, each tagged with the module
//! that declares it. Inline modules extend the module path.
use vstd::prelude::*;

use crate::item::{
    decl_of, opt_text, Const, DeclView, Enum, ExternCrate, ExternView, Module, ModuleView, Struct,
    TypeAlias,
};
use crate::path::{all_names, Path, Segment, Visibility, VisibilityView};
use crate::source::{vis_of, SourceItem, SourceVis, UseTree};
use crate::text::str_eq;
use crate::use_path::{UsePath, UsePathComponent, UseSegment};

verus! {

broadcast use vstd::std_specs::vec::axiom_vec_decreases_to_view;

/// A `use` path found in a module, as a mathematical value.
pub struct UseView {
    pub module: Seq<Segment>,
    pub path: Seq<UseSegment>,
    pub vis: VisibilityView,
}

/// Everything extracted from a list of items, kind by kind, in source order.
pub struct Extracted {
    pub structs: Seq<DeclView>,
    pub enums: Seq<DeclView>,
    pub consts: Seq<DeclView>,
    pub types: Seq<DeclView>,
    pub modules: Seq<ModuleView>,
    pub externs: Seq<ExternView>,
    pub uses: Seq<UseView>,
}

pub open spec fn nothing() -> Extracted {
    Extracted {
        structs: Seq::empty(),
        enums: Seq::empty(),
        consts: Seq::empty(),
        types: Seq::empty(),
        modules: Seq::empty(),
        externs: Seq::empty(),
        uses: Seq::empty(),
    }
}

/// The extractions of `a` followed by those of `b`.
pub open spec fn cat(a: Extracted, b: Extracted) -> Extracted {
    Extracted {
        structs: a.structs + b.structs,
        enums: a.enums + b.enums,
        consts: a.consts + b.consts,
        types: a.types + b.types,
        modules: a.modules + b.modules,
        externs: a.externs + b.externs,
        uses: a.uses + b.uses,
    }
}

/// The segment that an identifier of a `use` tree stands for.
pub open spec fn use_segment_of_ident(s: Seq<char>) -> UseSegment {
    if s == ""@ {
        UseSegment::Empty
    } else {
        UseSegment::Name(s)
    }
}

/// The paths that a `use` tree spells out, one per leaf, in source order.
pub open spec fn use_paths_of(tree: UseTree) -> Seq<Seq<UseSegment>>
    decreases tree,
{
    match tree {
        UseTree::Path(id, sub) => use_paths_of(*sub).map_values(
            |p: Seq<UseSegment>| seq![use_segment_of_ident(id@)] + p,
        ),
        UseTree::Name(id) => seq![seq![use_segment_of_ident(id@)]],
        UseTree::Rename(a, b) => seq![seq![UseSegment::Rename(a@, b@)]],
        UseTree::Glob => seq![seq![UseSegment::Glob]],
        UseTree::Group(v) => group_paths_of(v@),
    }
}

/// The paths that a list of `use` trees spells out, tree after tree.
pub open spec fn group_paths_of(trees: Seq<UseTree>) -> Seq<Seq<UseSegment>>
    decreases trees,
{
    if trees.len() == 0 {
        Seq::empty()
    } else {
        group_paths_of(trees.drop_last()) + use_paths_of(trees.last())
    }
}

/// The `use` paths of one `use` declaration in `module`; `use ::a` starts
/// with the root marker.
pub open spec fn uses_of(tree: UseTree, leading_colon: bool, vis: SourceVis, module: Seq<Segment>) -> Seq<UseView> {
    use_paths_of(tree).map_values(
        |p: Seq<UseSegment>|
            UseView {
                module,
                path: if leading_colon {
                    seq![UseSegment::Empty] + p
                } else {
                    p
                },
                vis: vis_of(vis),
            },
    )
}

/// What one item contributes, in `module`.
pub open spec fn item_things(item: SourceItem, module: Seq<Segment>) -> Extracted
    decreases item,
{
    match item {
        SourceItem::Struct { name, vis, params } => Extracted {
            structs: seq![decl_of(name, vis, params@, module)],
            ..nothing()
        },
        SourceItem::Enum { name, vis, params } => Extracted {
            enums: seq![decl_of(name, vis, params@, module)],
            ..nothing()
        },
        SourceItem::Const { name, vis } => Extracted {
            consts: seq![decl_of(name, vis, Seq::empty(), module)],
            ..nothing()
        },
        SourceItem::Type { name, vis, params } => Extracted {
            types: seq![decl_of(name, vis, params@, module)],
            ..nothing()
        },
        SourceItem::Mod { name, vis, attrs, content } => match content {
            Some(c) => {
                let sub = module.push(Segment::Name(name@));
                cat(
                    Extracted {
                        modules: seq![ModuleView { path: sub, name: name@, parent: module }],
                        ..nothing()
                    },
                    items_things(c@, sub),
                )
            },
            None => nothing(),
        },
        SourceItem::ExternCrate { name, rename, vis } => Extracted {
            externs: seq![
                ExternView { name: name@, rename: opt_text(rename), vis: vis_of(vis), module },
            ],
            ..nothing()
        },
        SourceItem::Use { vis, leading_colon, tree } => Extracted {
            uses: uses_of(tree, leading_colon, vis, module),
            ..nothing()
        },
        SourceItem::Other => nothing(),
    }
}

/// What a list of items contributes, in `module`, item after item.
pub open spec fn items_things(items: Seq<SourceItem>, module: Seq<Segment>) -> Extracted
    decreases items,
{
    if items.len() == 0 {
        nothing()
    } else {
        cat(items_things(items.drop_last(), module), item_things(items.last(), module))
    }
}

/// The record of a module itself.
pub open spec fn module_record(module: Seq<Segment>) -> ModuleView {
    ModuleView { path: module, name: module.last()->Name_0, parent: module.drop_last() }
}

pub open spec fn use_view(u: (Path, UsePath)) -> UseView {
    UseView { module: u.0@, path: u.1@, vis: u.1.spec_vis() }
}

/// The items extracted from a source file, kind by kind.
#[derive(Debug)]
pub struct FileItems {
    pub structs: Vec<Struct>,
    pub enums: Vec<Enum>,
    pub consts: Vec<Const>,
    pub types: Vec<TypeAlias>,
    pub modules: Vec<Module>,
    pub externs: Vec<ExternCrate>,
    pub uses: Vec<(Path, UsePath)>,
}

impl View for FileItems {
    type V = Extracted;

    open spec fn view(&self) -> Extracted {
        Extracted {
            structs: self.structs@.map_values(|s: Struct| s@),
            enums: self.enums@.map_values(|s: Enum| s@),
            consts: self.consts@.map_values(|s: Const| s@),
            types: self.types@.map_values(|s: TypeAlias| s@),
            modules: self.modules@.map_values(|s: Module| s@),
            externs: self.externs@.map_values(|s: ExternCrate| s@),
            uses: self.uses@.map_values(|u: (Path, UsePath)| use_view(u)),
        }
    }
}

pub(crate) proof fn lemma_cat_assoc(a: Extracted, b: Extracted, c: Extracted)
    ensures
        cat(cat(a, b), c) == cat(a, cat(b, c)),
{
    assert(cat(cat(a, b), c).structs =~= cat(a, cat(b, c)).structs);
    assert(cat(cat(a, b), c).enums =~= cat(a, cat(b, c)).enums);
    assert(cat(cat(a, b), c).consts =~= cat(a, cat(b, c)).consts);
    assert(cat(cat(a, b), c).types =~= cat(a, cat(b, c)).types);
    assert(cat(cat(a, b), c).modules =~= cat(a, cat(b, c)).modules);
    assert(cat(cat(a, b), c).externs =~= cat(a, cat(b, c)).externs);
    assert(cat(cat(a, b), c).uses =~= cat(a, cat(b, c)).uses);
}

pub(crate) proof fn lemma_cat_nothing(a: Extracted)
    ensures
        cat(a, nothing()) == a,
        cat(nothing(), a) == a,
{
    assert(cat(nothing(), a).structs =~= a.structs);
    assert(cat(nothing(), a).enums =~= a.enums);
    assert(cat(nothing(), a).consts =~= a.consts);
    assert(cat(nothing(), a).types =~= a.types);
    assert(cat(nothing(), a).modules =~= a.modules);
    assert(cat(nothing(), a).externs =~= a.externs);
    assert(cat(nothing(), a).uses =~= a.uses);
    assert(cat(a, nothing()).structs =~= a.structs);
    assert(cat(a, nothing()).enums =~= a.enums);
    assert(cat(a, nothing()).consts =~= a.consts);
    assert(cat(a, nothing()).types =~= a.types);
    assert(cat(a, nothing()).modules =~= a.modules);
    assert(cat(a, nothing()).externs =~= a.externs);
    assert(cat(a, nothing()).uses =~= a.uses);
}

impl FileItems {
    pub fn new() -> (r: FileItems)
        ensures
            r@ == nothing(),
    {
        let r = FileItems {
            structs: Vec::new(),
            enums: Vec::new(),
            consts: Vec::new(),
            types: Vec::new(),
            modules: Vec::new(),
            externs: Vec::new(),
            uses: Vec::new(),
        };
        assert(r@.structs =~= nothing().structs);
        assert(r@.enums =~= nothing().enums);
        assert(r@.consts =~= nothing().consts);
        assert(r@.types =~= nothing().types);
        assert(r@.modules =~= nothing().modules);
        assert(r@.externs =~= nothing().externs);
        assert(r@.uses =~= nothing().uses);
        r
    }
}

/// The paths that a `use` tree spells out, each with the declaration's
/// visibility.
pub fn use_paths_from_use_tree(tree: &UseTree, vis: &Visibility) -> (r: Vec<UsePath>)
    ensures
        r@.map_values(|u: UsePath| u@) == use_paths_of(*tree),
        forall|i: int| 0 <= i < r@.len() ==> (#[trigger] r@[i]).spec_vis() == vis@,
    decreases tree,
{
    match tree {
        UseTree::Path(id, sub) => {
            let inner = use_paths_from_use_tree(sub, vis);
            let first = if str_eq(id.as_str(), "") {
                UsePathComponent::Empty
            } else {
                UsePathComponent::Name(id.clone())
            };
            let mut out: Vec<UsePath> = Vec::new();
            let mut i: usize = 0;
            while i < inner.len()
                invariant
                    i <= inner@.len(),
                    out@.len() == i,
                    first@ == use_segment_of_ident(id@),
                    inner@.map_values(|u: UsePath| u@) == use_paths_of(**sub),
                    forall|j: int| 0 <= j < inner@.len() ==> (#[trigger] inner@[j]).spec_vis() == vis@,
                    forall|j: int|
                        0 <= j < i ==> (#[trigger] out@[j])@ == seq![first@] + inner@[j]@
                            && out@[j].spec_vis() == vis@,
                decreases inner@.len() - i,
            {
                let mut comps: Vec<UsePathComponent> = Vec::new();
                comps.push(first.clone());
                let tail = inner[i].components();
                let mut k: usize = 0;
                while k < tail.len()
                    invariant
                        k <= tail@.len(),
                        comps@.len() == k + 1,
                        comps@[0]@ == first@,
                        forall|l: int| 0 <= l < k ==> (#[trigger] comps@[l + 1])@ == tail@[l]@,
                    decreases tail@.len() - k,
                {
                    comps.push(tail[k].clone());
                    k = k + 1;
                }
                assert(comps@.map_values(|c: UsePathComponent| c@) =~= seq![first@]
                    + tail@.map_values(|c: UsePathComponent| c@)) by {
                    assert forall|l: int| 0 < l < comps@.len() implies (#[trigger] comps@[l])@
                        == tail@[l - 1]@ by {
                        assert(comps@[(l - 1) + 1]@ == tail@[l - 1]@);
                    }
                }
                let p = UsePath::new(comps, vis.clone());
                out.push(p);
                i = i + 1;
            }
            assert(out@.map_values(|u: UsePath| u@) =~= use_paths_of(*tree)) by {
                assert(inner@.map_values(|u: UsePath| u@).len() == inner@.len());
                assert forall|j: int| 0 <= j < out@.len() implies out@.map_values(
                    |u: UsePath| u@,
                )[j] == use_paths_of(*tree)[j] by {
                    assert(inner@.map_values(|u: UsePath| u@)[j] == inner@[j]@);
                }
            }
            out
        },
        UseTree::Name(id) => {
            let mut comps: Vec<UsePathComponent> = Vec::new();
            if str_eq(id.as_str(), "") {
                comps.push(UsePathComponent::Empty);
            } else {
                comps.push(UsePathComponent::Name(id.clone()));
            }
            assert(comps@.map_values(|c: UsePathComponent| c@) =~= use_paths_of(*tree)[0]);
            let mut out: Vec<UsePath> = Vec::new();
            out.push(UsePath::new(comps, vis.clone()));
            assert(out@.map_values(|u: UsePath| u@) =~= use_paths_of(*tree));
            out
        },
        UseTree::Rename(a, b) => {
            let mut comps: Vec<UsePathComponent> = Vec::new();
            comps.push(UsePathComponent::Rename(a.clone(), b.clone()));
            assert(comps@.map_values(|c: UsePathComponent| c@) =~= use_paths_of(*tree)[0]);
            let mut out: Vec<UsePath> = Vec::new();
            out.push(UsePath::new(comps, vis.clone()));
            assert(out@.map_values(|u: UsePath| u@) =~= use_paths_of(*tree));
            out
        },
        UseTree::Glob => {
            let mut comps: Vec<UsePathComponent> = Vec::new();
            comps.push(UsePathComponent::Glob);
            assert(comps@.map_values(|c: UsePathComponent| c@) =~= use_paths_of(*tree)[0]);
            let mut out: Vec<UsePath> = Vec::new();
            out.push(UsePath::new(comps, vis.clone()));
            assert(out@.map_values(|u: UsePath| u@) =~= use_paths_of(*tree));
            out
        },
        UseTree::Group(trees) => {
            let mut out: Vec<UsePath> = Vec::new();
            let mut i: usize = 0;
            while i < trees.len()
                invariant
                    *tree is Group,
                    (*tree)->Group_0 == *trees,
                    i <= trees@.len(),
                    out@.map_values(|u: UsePath| u@) == group_paths_of(trees@.take(i as int)),
                    forall|j: int| 0 <= j < out@.len() ==> (#[trigger] out@[j]).spec_vis() == vis@,
                decreases trees@.len() - i,
            {
                assert(decreases_to!(*tree => (*tree)->Group_0));
                assert(decreases_to!(*trees => trees@));
                assert(decreases_to!(trees@ => trees@[i as int]));
                let mut more = use_paths_from_use_tree(&trees[i], vis);
                let ghost added = more@;
                proof {
                    assert(trees@.take(i + 1).drop_last() =~= trees@.take(i as int));
                    assert(trees@.take(i + 1).last() == trees@[i as int]);
                }
                let ghost before = out@;
                out.append(&mut more);
                assert(out@.map_values(|u: UsePath| u@) =~= before.map_values(|u: UsePath| u@)
                    + added.map_values(|u: UsePath| u@)) by {
                    assert(out@ =~= before + added);
                }
                i = i + 1;
            }
            assert(trees@.take(trees@.len() as int) =~= trees@);
            out
        },
    }
}

} // verus!

verus! {

fn collect_uses(
    tree: &UseTree,
    leading_colon: bool,
    vis: &SourceVis,
    module: &Path,
    out: &mut FileItems,
)
    ensures
        final(out)@ == cat(
            old(out)@,
            Extracted { uses: uses_of(*tree, leading_colon, *vis, module@), ..nothing() },
        ),
{
    let v = Visibility::from_source(vis);
    let paths = use_paths_from_use_tree(tree, &v);
    let ghost u0 = old(out)@;
    let ghost added = uses_of(*tree, leading_colon, *vis, module@);
    let mut i: usize = 0;
    while i < paths.len()
        invariant
            i <= paths@.len(),
            paths@.map_values(|u: UsePath| u@) == use_paths_of(*tree),
            forall|j: int| 0 <= j < paths@.len() ==> (#[trigger] paths@[j]).spec_vis() == v@,
            v@ == vis_of(*vis),
            added == uses_of(*tree, leading_colon, *vis, module@),
            out@ == cat(u0, Extracted { uses: added.take(i as int), ..nothing() }),
        decreases paths@.len() - i,
    {
        let mut p = paths[i].clone();
        if leading_colon {
            p.push_front_empty();
        }
        assert(paths@.map_values(|u: UsePath| u@)[i as int] == paths@[i as int]@);
        let ghost before = out@;
        out.uses.push((module.clone(), p));
        proof {
            assert(added.take(i + 1) =~= added.take(i as int).push(added[i as int]));
            assert(out@.uses =~= before.uses.push(added[i as int]));
            assert(out@.structs =~= before.structs);
            assert(out@.enums =~= before.enums);
            assert(out@.consts =~= before.consts);
            assert(out@.types =~= before.types);
            assert(out@.modules =~= before.modules);
            assert(out@.externs =~= before.externs);
            assert(out@ == cat(u0, Extracted { uses: added.take(i + 1), ..nothing() }));
        }
        i = i + 1;
    }
    assert(added.take(i as int) =~= added);
}

fn collect_item(item: &SourceItem, module: &mut Path, out: &mut FileItems)
    ensures
        final(out)@ == cat(old(out)@, item_things(*item, old(module)@)),
        final(module)@ == old(module)@,
    decreases item,
{
    let ghost o = old(out)@;
    let ghost m = old(module)@;
    match item {
        SourceItem::Struct { name, vis, params } => {
            out.structs.push(Struct::from_source(name, vis, params, module.clone()));
            assert(out@.structs =~= o.structs + item_things(*item, m).structs);
        },
        SourceItem::Enum { name, vis, params } => {
            out.enums.push(Enum::from_source(name, vis, params, module.clone()));
            assert(out@.enums =~= o.enums + item_things(*item, m).enums);
        },
        SourceItem::Const { name, vis } => {
            out.consts.push(Const::from_source(name, vis, module.clone()));
            assert(out@.consts =~= o.consts + item_things(*item, m).consts);
        },
        SourceItem::Type { name, vis, params } => {
            out.types.push(TypeAlias::from_source(name, vis, params, module.clone()));
            assert(out@.types =~= o.types + item_things(*item, m).types);
        },
        SourceItem::Mod { name, content, .. } => {
            if let Some(c) = content {
                let parent = module.clone();
                module.push_name(name.clone());
                let record = Module { path: module.clone(), name: name.clone(), parent };
                out.modules.push(record);
                let ghost mid = out@;
                proof {
                    let rec = Extracted {
                        modules: seq![
                            ModuleView { path: m.push(Segment::Name(name@)), name: name@, parent: m },
                        ],
                        ..nothing()
                    };
                    assert(mid.modules =~= o.modules + rec.modules);
                    assert(mid.structs =~= o.structs + rec.structs);
                    assert(mid.enums =~= o.enums + rec.enums);
                    assert(mid.consts =~= o.consts + rec.consts);
                    assert(mid.types =~= o.types + rec.types);
                    assert(mid.externs =~= o.externs + rec.externs);
                    assert(mid.uses =~= o.uses + rec.uses);
                    assert(mid == cat(o, rec));
                    lemma_cat_assoc(o, rec, items_things(c@, m.push(Segment::Name(name@))));
                    assert(decreases_to!(*item => (*item)->Mod_content));
                    assert(decreases_to!((*item)->Mod_content => (*item)->Mod_content->Some_0));
                }
                collect_items(c, module, out);
                module.pop();
            } else {
                proof {
                    lemma_cat_nothing(o);
                }
            }
        },
        SourceItem::ExternCrate { name, rename, vis } => {
            out.externs.push(ExternCrate::from_source(name, rename, vis, module.clone()));
            assert(out@.externs =~= o.externs + item_things(*item, m).externs);
        },
        SourceItem::Use { vis, leading_colon, tree } => {
            collect_uses(tree, *leading_colon, vis, module, out);
        },
        SourceItem::Other => {
            proof {
                lemma_cat_nothing(o);
            }
        },
    }
    proof {
        let e = item_things(*item, m);
        assert(final(out)@.structs =~= cat(o, e).structs);
        assert(final(out)@.enums =~= cat(o, e).enums);
        assert(final(out)@.consts =~= cat(o, e).consts);
        assert(final(out)@.types =~= cat(o, e).types);
        assert(final(out)@.modules =~= cat(o, e).modules);
        assert(final(out)@.externs =~= cat(o, e).externs);
        assert(final(out)@.uses =~= cat(o, e).uses);
    }
}

fn collect_items(items: &Vec<SourceItem>, module: &mut Path, out: &mut FileItems)
    ensures
        final(out)@ == cat(old(out)@, items_things(items@, old(module)@)),
        final(module)@ == old(module)@,
    decreases items,
{
    let ghost o = old(out)@;
    let ghost m = old(module)@;
    let mut i: usize = 0;
    proof {
        assert(items@.take(0) =~= Seq::<SourceItem>::empty());
        lemma_cat_nothing(o);
    }
    while i < items.len()
        invariant
            i <= items@.len(),
            module@ == m,
            out@ == cat(o, items_things(items@.take(i as int), m)),
        decreases items@.len() - i,
    {
        proof {
            assert(decreases_to!(*items => items@));
            assert(decreases_to!(items@ => items@[i as int]));
            assert(items@.take(i + 1).drop_last() =~= items@.take(i as int));
            assert(items@.take(i + 1).last() == items@[i as int]);
            lemma_cat_assoc(o, items_things(items@.take(i as int), m), item_things(items@[i as int], m));
        }
        collect_item(&items[i], module, out);
        i = i + 1;
    }
    assert(items@.take(i as int) =~= items@);
}

} // verus!

verus! {

/// The items of a source file whose module is `module`, every kind at once;
/// the module's own record comes first among the modules.
pub fn file_items(items: &Vec<SourceItem>, module: &Path) -> (r: FileItems)
    requires
        module@.len() > 0,
        all_names(module@),
    ensures
        r@ == cat(
            Extracted { modules: seq![module_record(module@)], ..nothing() },
            items_things(items@, module@),
        ),
{
    let mut out = FileItems::new();
    let record = Module {
        path: module.clone(),
        name: module_name(module),
        parent: module.parent(),
    };
    out.modules.push(record);
    let ghost first = out@;
    assert(first.modules =~= seq![module_record(module@)]);
    assert(first.structs =~= Seq::<DeclView>::empty());
    assert(first.enums =~= Seq::<DeclView>::empty());
    assert(first.consts =~= Seq::<DeclView>::empty());
    assert(first.types =~= Seq::<DeclView>::empty());
    assert(first.externs =~= Seq::<ExternView>::empty());
    assert(first.uses =~= Seq::<UseView>::empty());
    let mut m = module.clone();
    collect_items(items, &mut m, &mut out);
    out
}

/// The name of the last segment of a fully qualified module path.
fn module_name(module: &Path) -> (r: String)
    requires
        module@.len() > 0,
        all_names(module@),
    ensures
        r@ == module@.last()->Name_0,
{
    let comps = module.components();
    assert(comps@.map_values(|c: crate::path::PathComponent| c@)[comps@.len() - 1]
        == comps@[comps@.len() - 1]@);
    match comps[comps.len() - 1].as_name() {
        Some(n) => n.clone(),
        None => String::new(),
    }
}

/// Every struct of `items`, in `module` and the inline modules below it.
pub fn structs_from_items(items: &Vec<SourceItem>, module: &mut Path) -> (r: Vec<Struct>)
    ensures
        r@.map_values(|s: Struct| s@) == items_things(items@, old(module)@).structs,
        final(module)@ == old(module)@,
        all_names(old(module)@) ==> forall|i: int|
            0 <= i < r@.len() ==> within((#[trigger] r@[i])@.module, old(module)@),
{
    let mut out = FileItems::new();
    collect_items(items, module, &mut out);
    proof {
        if all_names(old(module)@) {
            lemma_items_within(items@, old(module)@);
            let e = items_things(items@, old(module)@);
            assert(cat(nothing(), e).structs =~= e.structs);
            assert forall|i: int| 0 <= i < out.structs@.len() implies within((#[trigger] out.structs@[i])@.module, old(module)@) by {
                assert(out.structs@.map_values(|s: Struct| s@)[i] == out.structs@[i]@);
                assert(e.structs[i] == out.structs@[i]@);
            }
        }
    }
    assert(cat(nothing(), items_things(items@, old(module)@)).structs =~= items_things(
        items@,
        old(module)@,
    ).structs);
    out.structs
}

/// Every enum of `items`, in `module` and the inline modules below it.
pub fn enums_from_items(items: &Vec<SourceItem>, module: &mut Path) -> (r: Vec<Enum>)
    ensures
        r@.map_values(|s: Enum| s@) == items_things(items@, old(module)@).enums,
        final(module)@ == old(module)@,
        all_names(old(module)@) ==> forall|i: int|
            0 <= i < r@.len() ==> within((#[trigger] r@[i])@.module, old(module)@),
{
    let mut out = FileItems::new();
    collect_items(items, module, &mut out);
    proof {
        if all_names(old(module)@) {
            lemma_items_within(items@, old(module)@);
            let e = items_things(items@, old(module)@);
            assert(cat(nothing(), e).enums =~= e.enums);
            assert forall|i: int| 0 <= i < out.enums@.len() implies within((#[trigger] out.enums@[i])@.module, old(module)@) by {
                assert(out.enums@.map_values(|s: Enum| s@)[i] == out.enums@[i]@);
                assert(e.enums[i] == out.enums@[i]@);
            }
        }
    }
    assert(cat(nothing(), items_things(items@, old(module)@)).enums =~= items_things(
        items@,
        old(module)@,
    ).enums);
    out.enums
}

/// Every constant of `items`, in `module` and the inline modules below it.
pub fn consts_from_items(items: &Vec<SourceItem>, module: &mut Path) -> (r: Vec<Const>)
    ensures
        r@.map_values(|s: Const| s@) == items_things(items@, old(module)@).consts,
        final(module)@ == old(module)@,
        all_names(old(module)@) ==> forall|i: int|
            0 <= i < r@.len() ==> within((#[trigger] r@[i])@.module, old(module)@),
{
    let mut out = FileItems::new();
    collect_items(items, module, &mut out);
    proof {
        if all_names(old(module)@) {
            lemma_items_within(items@, old(module)@);
            let e = items_things(items@, old(module)@);
            assert(cat(nothing(), e).consts =~= e.consts);
            assert forall|i: int| 0 <= i < out.consts@.len() implies within((#[trigger] out.consts@[i])@.module, old(module)@) by {
                assert(out.consts@.map_values(|s: Const| s@)[i] == out.consts@[i]@);
                assert(e.consts[i] == out.consts@[i]@);
            }
        }
    }
    assert(cat(nothing(), items_things(items@, old(module)@)).consts =~= items_things(
        items@,
        old(module)@,
    ).consts);
    out.consts
}

/// Every type alias of `items`, in `module` and the inline modules below it.
pub fn type_aliases_from_items(items: &Vec<SourceItem>, module: &mut Path) -> (r: Vec<TypeAlias>)
    ensures
        r@.map_values(|s: TypeAlias| s@) == items_things(items@, old(module)@).types,
        final(module)@ == old(module)@,
        all_names(old(module)@) ==> forall|i: int|
            0 <= i < r@.len() ==> within((#[trigger] r@[i])@.module, old(module)@),
{
    let mut out = FileItems::new();
    collect_items(items, module, &mut out);
    proof {
        if all_names(old(module)@) {
            lemma_items_within(items@, old(module)@);
            let e = items_things(items@, old(module)@);
            assert(cat(nothing(), e).types =~= e.types);
            assert forall|i: int| 0 <= i < out.types@.len() implies within((#[trigger] out.types@[i])@.module, old(module)@) by {
                assert(out.types@.map_values(|s: TypeAlias| s@)[i] == out.types@[i]@);
                assert(e.types[i] == out.types@[i]@);
            }
        }
    }
    assert(cat(nothing(), items_things(items@, old(module)@)).types =~= items_things(
        items@,
        old(module)@,
    ).types);
    out.types
}

/// Every `extern crate` declaration of `items`, in `module` and the inline
/// modules below it.
pub fn extern_crates_from_items(items: &Vec<SourceItem>, module: &mut Path) -> (r: Vec<
    ExternCrate,
>)
    ensures
        r@.map_values(|s: ExternCrate| s@) == items_things(items@, old(module)@).externs,
        final(module)@ == old(module)@,
        all_names(old(module)@) ==> forall|i: int|
            0 <= i < r@.len() ==> within((#[trigger] r@[i])@.module, old(module)@),
{
    let mut out = FileItems::new();
    collect_items(items, module, &mut out);
    proof {
        if all_names(old(module)@) {
            lemma_items_within(items@, old(module)@);
            let e = items_things(items@, old(module)@);
            assert(cat(nothing(), e).externs =~= e.externs);
            assert forall|i: int| 0 <= i < out.externs@.len() implies within((#[trigger] out.externs@[i])@.module, old(module)@) by {
                assert(out.externs@.map_values(|s: ExternCrate| s@)[i] == out.externs@[i]@);
                assert(e.externs[i] == out.externs@[i]@);
            }
        }
    }
    assert(cat(nothing(), items_things(items@, old(module)@)).externs =~= items_things(
        items@,
        old(module)@,
    ).externs);
    out.externs
}

/// Every `use` path of `items`, with the module that contains it.
pub fn use_paths_from_items(items: &Vec<SourceItem>, module: &mut Path) -> (r: Vec<(Path, UsePath)>)
    ensures
        r@.map_values(|u: (Path, UsePath)| use_view(u)) == items_things(items@, old(module)@).uses,
        final(module)@ == old(module)@,
        all_names(old(module)@) ==> forall|i: int|
            0 <= i < r@.len() ==> within((#[trigger] r@[i]).0@, old(module)@),
{
    let mut out = FileItems::new();
    collect_items(items, module, &mut out);
    proof {
        if all_names(old(module)@) {
            lemma_items_within(items@, old(module)@);
            let e = items_things(items@, old(module)@);
            assert(cat(nothing(), e).uses =~= e.uses);
            assert forall|i: int| 0 <= i < out.uses@.len() implies within((#[trigger] out.uses@[i]).0@, old(module)@) by {
                assert(out.uses@.map_values(|u: (Path, UsePath)| use_view(u))[i] == use_view(out.uses@[i]));
                assert(e.uses[i] == use_view(out.uses@[i]));
                assert(within(e.uses[i].module, old(module)@));
            }
        }
    }
    assert(cat(nothing(), items_things(items@, old(module)@)).uses =~= items_things(
        items@,
        old(module)@,
    ).uses);
    out.uses
}

/// The record of `module` itself followed by one record per inline module
/// below it.
pub fn modules_from_items(items: &Vec<SourceItem>, module: &mut Path) -> (r: Vec<Module>)
    requires
        old(module)@.len() > 0,
        all_names(old(module)@),
    ensures
        r@.map_values(|s: Module| s@) == seq![module_record(old(module)@)] + items_things(
            items@,
            old(module)@,
        ).modules,
        final(module)@ == old(module)@,
{
    let out = file_items(items, module);
    out.modules
}

} // verus!

verus! {

/// `p` is made of identifiers only and lies at or below the module `m`.
pub open spec fn within(p: Seq<Segment>, m: Seq<Segment>) -> bool {
    all_names(p) && m.len() <= p.len() && p.take(m.len() as int) == m
}

/// Every extracted item is filed at or below the module `m`, under a path
/// made of identifiers only; a module record's parent may also be the
/// global root (the record of a crate root).
pub open spec fn extracted_within(e: Extracted, m: Seq<Segment>) -> bool {
    &&& forall|i: int| 0 <= i < e.structs.len() ==> within(#[trigger] e.structs[i].module, m)
    &&& forall|i: int| 0 <= i < e.enums.len() ==> within(#[trigger] e.enums[i].module, m)
    &&& forall|i: int| 0 <= i < e.consts.len() ==> within(#[trigger] e.consts[i].module, m)
    &&& forall|i: int| 0 <= i < e.types.len() ==> within(#[trigger] e.types[i].module, m)
    &&& forall|i: int| 0 <= i < e.externs.len() ==> within(#[trigger] e.externs[i].module, m)
    &&& forall|i: int| 0 <= i < e.uses.len() ==> within(#[trigger] e.uses[i].module, m)
    &&& forall|i: int|
        0 <= i < e.modules.len() ==> within(#[trigger] e.modules[i].path, m) && (within(
            e.modules[i].parent,
            m,
        ) || e.modules[i].parent.len() == 0)
}

pub(crate) proof fn lemma_within_cat(a: Extracted, b: Extracted, m: Seq<Segment>)
    requires
        extracted_within(a, m),
        extracted_within(b, m),
    ensures
        extracted_within(cat(a, b), m),
{
    let c = cat(a, b);
    assert forall|i: int| 0 <= i < c.structs.len() implies within(#[trigger] c.structs[i].module, m) by {
        if i >= a.structs.len() {
            assert(c.structs[i] == b.structs[i - a.structs.len()]);
        }
    }
    assert forall|i: int| 0 <= i < c.enums.len() implies within(#[trigger] c.enums[i].module, m) by {
        if i >= a.enums.len() {
            assert(c.enums[i] == b.enums[i - a.enums.len()]);
        }
    }
    assert forall|i: int| 0 <= i < c.consts.len() implies within(#[trigger] c.consts[i].module, m) by {
        if i >= a.consts.len() {
            assert(c.consts[i] == b.consts[i - a.consts.len()]);
        }
    }
    assert forall|i: int| 0 <= i < c.types.len() implies within(#[trigger] c.types[i].module, m) by {
        if i >= a.types.len() {
            assert(c.types[i] == b.types[i - a.types.len()]);
        }
    }
    assert forall|i: int| 0 <= i < c.externs.len() implies within(#[trigger] c.externs[i].module, m) by {
        if i >= a.externs.len() {
            assert(c.externs[i] == b.externs[i - a.externs.len()]);
        }
    }
    assert forall|i: int| 0 <= i < c.uses.len() implies within(#[trigger] c.uses[i].module, m) by {
        if i >= a.uses.len() {
            assert(c.uses[i] == b.uses[i - a.uses.len()]);
        }
    }
    assert forall|i: int| 0 <= i < c.modules.len() implies within(#[trigger] c.modules[i].path, m)
        && (within(c.modules[i].parent, m) || c.modules[i].parent.len() == 0) by {
        if i >= a.modules.len() {
            assert(c.modules[i] == b.modules[i - a.modules.len()]);
        }
    }
}

proof fn lemma_within_shallower(p: Seq<Segment>, m: Seq<Segment>, k: int)
    requires
        within(p, m),
        0 <= k <= m.len(),
    ensures
        within(p, m.take(k)),
{
    assert(p.take(k) =~= p.take(m.len() as int).take(k));
}

pub(crate) proof fn lemma_extracted_shallower(e: Extracted, m: Seq<Segment>, k: int)
    requires
        extracted_within(e, m),
        0 <= k <= m.len(),
    ensures
        extracted_within(e, m.take(k)),
{
    assert forall|i: int| 0 <= i < e.structs.len() implies within(#[trigger] e.structs[i].module, m.take(k)) by {
        lemma_within_shallower(e.structs[i].module, m, k);
    }
    assert forall|i: int| 0 <= i < e.enums.len() implies within(#[trigger] e.enums[i].module, m.take(k)) by {
        lemma_within_shallower(e.enums[i].module, m, k);
    }
    assert forall|i: int| 0 <= i < e.consts.len() implies within(#[trigger] e.consts[i].module, m.take(k)) by {
        lemma_within_shallower(e.consts[i].module, m, k);
    }
    assert forall|i: int| 0 <= i < e.types.len() implies within(#[trigger] e.types[i].module, m.take(k)) by {
        lemma_within_shallower(e.types[i].module, m, k);
    }
    assert forall|i: int| 0 <= i < e.externs.len() implies within(#[trigger] e.externs[i].module, m.take(k)) by {
        lemma_within_shallower(e.externs[i].module, m, k);
    }
    assert forall|i: int| 0 <= i < e.uses.len() implies within(#[trigger] e.uses[i].module, m.take(k)) by {
        lemma_within_shallower(e.uses[i].module, m, k);
    }
    assert forall|i: int| 0 <= i < e.modules.len() implies within(#[trigger] e.modules[i].path, m.take(k))
        && (within(e.modules[i].parent, m.take(k)) || e.modules[i].parent.len() == 0) by {
        lemma_within_shallower(e.modules[i].path, m, k);
        if e.modules[i].parent.len() > 0 {
            lemma_within_shallower(e.modules[i].parent, m, k);
        }
    }
}

proof fn lemma_item_within(item: SourceItem, m: Seq<Segment>)
    requires
        all_names(m),
    ensures
        extracted_within(item_things(item, m), m),
    decreases item,
{
    assert(m.take(m.len() as int) =~= m);
    match item {
        SourceItem::Mod { name, vis, attrs, content } => {
            if let Some(c) = content {
                let sub = m.push(Segment::Name(name@));
                assert(sub.take(m.len() as int) =~= m);
                assert(sub.take(sub.len() as int) =~= sub);
                assert(all_names(sub)) by {
                    assert forall|i: int| 0 <= i < sub.len() implies (#[trigger] sub[i]) is Name by {
                        if i < m.len() {
                            assert(sub[i] == m[i]);
                        }
                    }
                }
                assert(decreases_to!(item => item->Mod_content));
                assert(decreases_to!(item->Mod_content => item->Mod_content->Some_0));
                lemma_items_within(c@, sub);
                lemma_extracted_shallower(items_things(c@, sub), sub, m.len() as int);
                let rec = Extracted {
                    modules: seq![ModuleView { path: sub, name: name@, parent: m }],
                    ..nothing()
                };
                assert(extracted_within(rec, m));
                lemma_within_cat(rec, items_things(c@, sub), m);
            }
        },
        SourceItem::Use { vis, leading_colon, tree } => {
            let e = item_things(item, m);
            assert forall|i: int| 0 <= i < e.uses.len() implies within(#[trigger] e.uses[i].module, m) by {
            }
        },
        _ => {},
    }
}

/// Everything extracted from `items` in the module `m`, a path of
/// identifiers, is filed at or below `m`, under identifiers only.
pub proof fn lemma_items_within(items: Seq<SourceItem>, m: Seq<Segment>)
    requires
        all_names(m),
    ensures
        extracted_within(items_things(items, m), m),
    decreases items,
{
    if items.len() > 0 {
        lemma_items_within(items.drop_last(), m);
        lemma_item_within(items.last(), m);
        lemma_within_cat(items_things(items.drop_last(), m), item_things(items.last(), m), m);
    }
}

/// Every item extracted from a file whose module path is fully qualified
/// (identifiers only, starting with the crate name) is filed under a path
/// made of identifiers only that starts with the same crate name. The
/// record of the file's own module has such a path; its parent does too,
/// except for the crate root, whose record is filed under the global root.
pub proof fn lemma_extracted_modules_qualified(items: Seq<SourceItem>, module: Seq<Segment>)
    requires
        all_names(module),
        module.len() > 0,
    ensures
        extracted_within(
            cat(
                Extracted { modules: seq![module_record(module)], ..nothing() },
                items_things(items, module),
            ),
            seq![module[0]],
        ),
{
    assert(module.take(module.len() as int) =~= module);
    lemma_items_within(items, module);
    lemma_within_shallower(module, module, 1);
    assert(module.take(1) =~= seq![module[0]]);
    if module.len() > 1 {
        assert(module.drop_last().take(1) =~= seq![module[0]]);
        assert(all_names(module.drop_last())) by {
            assert forall|i: int| 0 <= i < module.len() - 1 implies (#[trigger] module.drop_last()[i]) is Name by {
                assert(module.drop_last()[i] == module[i]);
            }
        }
    }
    lemma_extracted_shallower(items_things(items, module), module, 1);
    let rec = Extracted { modules: seq![module_record(module)], ..nothing() };
    assert(extracted_within(rec, seq![module[0]]));
    lemma_within_cat(rec, items_things(items, module), seq![module[0]]);
}

/// Everything extracted from a file whose module path is fully qualified,
/// its own module record included, is filed under identifiers only.
pub(crate) proof fn lemma_file_things_qualified(items: Seq<SourceItem>, module: Seq<Segment>)
    requires
        all_names(module),
        module.len() > 0,
    ensures
        extracted_within(
            cat(
                Extracted { modules: seq![module_record(module)], ..nothing() },
                items_things(items, module),
            ),
            Seq::empty(),
        ),
{
    let e = cat(
        Extracted { modules: seq![module_record(module)], ..nothing() },
        items_things(items, module),
    );
    lemma_extracted_modules_qualified(items, module);
    lemma_extracted_shallower(e, seq![module[0]], 0);
    assert(seq![module[0]].take(0) =~= Seq::<Segment>::empty());
}

} // verus!
