//! The crate indexer: gathers the items of every parsed file of every crate,
//! builds the item trees and resolves every `use` path found.
use vstd::prelude::*;

use crate::extract::{
    cat, extracted_within, file_items, items_things, module_record, nothing, use_view, Extracted,
    FileItems, UseView,
};
use crate::path::{all_names, Path, Segment};
use crate::resolve::{
    check_use_path, resolution, use_valid, Edition, ResolveError, ResolvedUsePath,
    UsePathResolver,
};
use crate::source::SourceItem;
use crate::tree::TreeItem;
use crate::use_path::{prefix_all_names, UsePath, UseSegment};

verus! {

/// A source file of a crate with the module it defines; `items` is `None`
/// when the file did not parse.
#[derive(Debug)]
pub struct ParsedFile {
    pub module: Path,
    pub items: Option<Vec<SourceItem>>,
}

/// What one file contributes: nothing when it did not parse, else its
/// module's record and its items.
pub open spec fn file_things(f: ParsedFile) -> Extracted {
    match f.items {
        None => nothing(),
        Some(items) => cat(
            Extracted { modules: seq![module_record(f.module@)], ..nothing() },
            items_things(items@, f.module@),
        ),
    }
}

/// What a list of files contributes, file after file.
pub open spec fn files_things(files: Seq<ParsedFile>) -> Extracted
    decreases files.len(),
{
    if files.len() == 0 {
        nothing()
    } else {
        cat(files_things(files.drop_last()), file_things(files.last()))
    }
}

/// The module of every file is fully qualified.
pub open spec fn files_qualified(files: Seq<ParsedFile>) -> bool {
    forall|i: int|
        0 <= i < files.len() ==> (#[trigger] files[i]).module@.len() > 0 && all_names(
            files[i].module@,
        )
}

fn append_items(acc: &mut FileItems, more: FileItems)
    ensures
        final(acc)@ == cat(old(acc)@, more@),
{
    let ghost a = acc@;
    let ghost b = more@;
    let FileItems { mut structs, mut enums, mut consts, mut types, mut modules, mut externs, mut uses } = more;
    acc.structs.append(&mut structs);
    acc.enums.append(&mut enums);
    acc.consts.append(&mut consts);
    acc.types.append(&mut types);
    acc.modules.append(&mut modules);
    acc.externs.append(&mut externs);
    acc.uses.append(&mut uses);
    assert(acc@.structs =~= a.structs + b.structs);
    assert(acc@.enums =~= a.enums + b.enums);
    assert(acc@.consts =~= a.consts + b.consts);
    assert(acc@.types =~= a.types + b.types);
    assert(acc@.modules =~= a.modules + b.modules);
    assert(acc@.externs =~= a.externs + b.externs);
    assert(acc@.uses =~= a.uses + b.uses);
}

/// The items of every parsed file, kind by kind. A file that did not parse
/// contributes nothing.
pub fn things_in_files(files: &Vec<ParsedFile>) -> (r: FileItems)
    requires
        files_qualified(files@),
    ensures
        r@ == files_things(files@),
        extracted_within(r@, Seq::empty()),
{
    let mut acc = FileItems::new();
    let mut i: usize = 0;
    assert(extracted_within(nothing(), Seq::empty()));
    while i < files.len()
        invariant
            i <= files@.len(),
            files_qualified(files@),
            acc@ == files_things(files@.take(i as int)),
            extracted_within(acc@, Seq::empty()),
        decreases files@.len() - i,
    {
        assert(files@.take(i + 1).drop_last() =~= files@.take(i as int));
        assert(files@.take(i + 1).last() == files@[i as int]);
        let f = &files[i];
        match &f.items {
            Some(items) => {
                assert(files@[i as int].module@.len() > 0);
                let more = file_items(items, &f.module);
                proof {
                    crate::extract::lemma_file_things_qualified(items@, f.module@);
                    crate::extract::lemma_within_cat(acc@, more@, Seq::empty());
                }
                append_items(&mut acc, more);
            },
            None => {
                proof {
                    crate::extract::lemma_cat_nothing(acc@);
                }
            },
        }
        i = i + 1;
    }
    assert(files@.take(i as int) =~= files@);
    acc
}

/// Every item indexed from the files of one target, whose modules all start
/// with the target's crate name, is filed under identifiers only that start
/// with that crate name; the crate root's own record is filed under the
/// global root.
pub proof fn lemma_target_items_under_crate(files: Seq<ParsedFile>, crate_name: Seq<char>)
    requires
        files_qualified(files),
        forall|i: int| 0 <= i < files.len() ==> (#[trigger] files[i]).module@[0] == Segment::Name(crate_name),
    ensures
        crate::extract::extracted_within(files_things(files), seq![Segment::Name(crate_name)]),
    decreases files.len(),
{
    let c = seq![Segment::Name(crate_name)];
    if files.len() == 0 {
        assert(crate::extract::extracted_within(nothing(), c));
    } else {
        let p = files.drop_last();
        assert forall|i: int| 0 <= i < p.len() implies (#[trigger] p[i]).module@.len() > 0 && all_names(p[i].module@) by {
            assert(p[i] == files[i]);
        }
        assert forall|i: int| 0 <= i < p.len() implies (#[trigger] p[i]).module@[0] == Segment::Name(crate_name) by {
            assert(p[i] == files[i]);
        }
        lemma_target_items_under_crate(p, crate_name);
        let f = files.last();
        assert(f == files[files.len() - 1]);
        match f.items {
            Some(items) => {
                crate::extract::lemma_extracted_modules_qualified(items@, f.module@);
                assert(seq![f.module@[0]] == c);
            },
            None => {
                assert(crate::extract::extracted_within(nothing(), c));
            },
        }
        crate::extract::lemma_within_cat(files_things(p), file_things(f), c);
    }
}

/// A crate whose root file did not parse has nothing indexed: its root
/// declares no module files, so the root is its only file.
pub proof fn lemma_failed_root_indexes_nothing(root: ParsedFile)
    requires
        root.items is None,
    ensures
        files_things(seq![root]) == nothing(),
{
    assert(seq![root].drop_last() =~= Seq::<ParsedFile>::empty());
    assert(seq![root].last() == root);
    assert(files_things(Seq::<ParsedFile>::empty()) == nothing());
    assert(file_things(root) == nothing());
    crate::extract::lemma_cat_nothing(nothing());
}

/// Why a `use` path was not resolved.
#[derive(Debug, Clone, Copy, PartialEq, Eq, Structural)]
pub enum IndexError {
    /// A segment that must be an identifier is not one.
    InvalidUsePath,
    /// The 2015 edition's path rules are not implemented.
    UnsupportedEdition,
}

/// A `use` path, the module that contains it, and what it binds.
#[derive(Debug)]
pub struct UseResolution<'a> {
    pub module: Path,
    pub use_path: UsePath,
    pub resolved: Result<Vec<ResolvedUsePath<'a>>, IndexError>,
}

/// The edition of the first crate listed under the name that starts
/// `module`, or `default` when none is.
pub open spec fn edition_for(
    crates: Seq<(Seq<char>, Edition)>,
    module: Seq<Segment>,
    default: Edition,
) -> Edition
    decreases crates.len(),
{
    if crates.len() == 0 {
        default
    } else if module.len() > 0 && module[0] == Segment::Name(crates[0].0) {
        crates[0].1
    } else {
        edition_for(crates.drop_first(), module, default)
    }
}

/// The index that the trees of `items` form, with its `extern crate` and
/// `use` declarations.
pub open spec fn index_of(items: FileItems) -> crate::resolve::Index {
    crate::resolve::Index {
        structs: crate::tree::tree_map(items.structs@),
        enums: crate::tree::tree_map(items.enums@),
        consts: crate::tree::tree_map(items.consts@),
        types: crate::tree::tree_map(items.types@),
        modules: crate::tree::tree_map(items.modules@),
        externs: items@.externs,
        uses: items@.uses,
    }
}

fn edition_of(crates: &Vec<(String, Edition)>, module: &Path, default: Edition) -> (r: Edition)
    ensures
        r == edition_for(crates@.map_values(|c: (String, Edition)| (c.0@, c.1)), module@, default),
{
    let ghost cs = crates@.map_values(|c: (String, Edition)| (c.0@, c.1));
    let comps = module.components();
    assert(comps@.map_values(|c: crate::path::PathComponent| c@) == module@);
    let mut i: usize = 0;
    assert(cs.subrange(0, cs.len() as int) =~= cs);
    while i < crates.len()
        invariant
            i <= crates@.len(),
            cs == crates@.map_values(|c: (String, Edition)| (c.0@, c.1)),
            comps@.map_values(|c: crate::path::PathComponent| c@) == module@,
            edition_for(cs, module@, default) == edition_for(
                cs.subrange(i as int, cs.len() as int),
                module@,
                default,
            ),
        decreases crates@.len() - i,
    {
        let ghost rest = cs.subrange(i as int, cs.len() as int);
        assert(rest[0] == cs[i as int]);
        assert(rest.drop_first() =~= cs.subrange(i + 1, cs.len() as int));
        if comps.len() > 0 {
            assert(module@[0] == comps@[0]@);
            if let Some(first) = comps[0].as_name() {
                if crate::text::str_eq(first.as_str(), crates[i].0.as_str()) {
                    return crates[i].1;
                }
            }
        }
        i = i + 1;
    }
    default
}

/// Resolves every `use` path of `items` against the trees of `items`, under
/// the rules of the edition of the crate that contains it (`crates` lists
/// the editions by crate name; `default` serves the others). A `use` path
/// that is malformed, or lies in no module, gives `InvalidUsePath`.
pub fn resolve_uses<'a>(items: &'a FileItems, crates: &Vec<(String, Edition)>, default: Edition) -> (r: Vec<UseResolution<'a>>)
    requires
        extracted_within(items@, Seq::empty()),
    ensures
        r@.len() == items@.uses.len(),
        forall|i: int| 0 <= i < r@.len() ==> {
            let u = items@.uses[i];
            let res = (#[trigger] r@[i]);
            let ed = edition_for(crates@.map_values(|c: (String, Edition)| (c.0@, c.1)), u.module, default);
            &&& res.module@ == u.module
            &&& res.use_path@ == u.path
            &&& !use_valid(u) ==> res.resolved == Err::<Vec<ResolvedUsePath<'a>>, IndexError>(IndexError::InvalidUsePath)
            &&& use_valid(u) && ed == Edition::Edition2015 ==> res.resolved == Err::<Vec<ResolvedUsePath<'a>>, IndexError>(IndexError::UnsupportedEdition)
            &&& use_valid(u) && ed != Edition::Edition2015 ==> res.resolved is Ok && resolution(
                index_of(*items),
                u.path,
                u.module,
                res.resolved->Ok_0@.map_values(|x: ResolvedUsePath<'a>| x@),
            )
        },
{
    let mut externs: Vec<crate::item::ExternCrate> = Vec::new();
    let mut k: usize = 0;
    while k < items.externs.len()
        invariant
            k <= items.externs@.len(),
            externs@.len() == k,
            forall|j: int| 0 <= j < k ==> (#[trigger] externs@[j])@ == items.externs@[j]@,
        decreases items.externs@.len() - k,
    {
        externs.push(items.externs[k].clone());
        k = k + 1;
    }
    assert(externs@.map_values(|e: crate::item::ExternCrate| e@) =~= items@.externs);
    proof {
        let e = items@;
        assert forall|i: int| 0 <= i < items.structs@.len() implies all_names(#[trigger] items.structs@[i].spec_module()) by {
            assert(e.structs[i] == items.structs@[i]@);
            assert(crate::extract::within(e.structs[i].module, Seq::empty()));
        }
        assert forall|i: int| 0 <= i < items.enums@.len() implies all_names(#[trigger] items.enums@[i].spec_module()) by {
            assert(e.enums[i] == items.enums@[i]@);
            assert(crate::extract::within(e.enums[i].module, Seq::empty()));
        }
        assert forall|i: int| 0 <= i < items.consts@.len() implies all_names(#[trigger] items.consts@[i].spec_module()) by {
            assert(e.consts[i] == items.consts@[i]@);
            assert(crate::extract::within(e.consts[i].module, Seq::empty()));
        }
        assert forall|i: int| 0 <= i < items.types@.len() implies all_names(#[trigger] items.types@[i].spec_module()) by {
            assert(e.types[i] == items.types@[i]@);
            assert(crate::extract::within(e.types[i].module, Seq::empty()));
        }
        assert forall|i: int| 0 <= i < items.modules@.len() implies all_names(#[trigger] items.modules@[i].spec_module()) by {
            assert(e.modules[i] == items.modules@[i]@);
            assert(crate::extract::within(e.modules[i].path, Seq::empty()));
            if e.modules[i].parent.len() == 0 {
                assert(all_names(e.modules[i].parent));
            } else {
                assert(crate::extract::within(e.modules[i].parent, Seq::empty()));
            }
        }
    }
    let mut resolver = UsePathResolver::new(
        items.structs.as_slice(),
        items.enums.as_slice(),
        items.consts.as_slice(),
        items.types.as_slice(),
        items.modules.as_slice(),
        externs,
        items.uses.as_slice(),
        default,
    );
    let ghost ix = index_of(*items);
    let mut out: Vec<UseResolution<'a>> = Vec::new();
    let mut i: usize = 0;
    while i < items.uses.len()
        invariant
            i <= items.uses@.len(),
            out@.len() == i,
            resolver.wf(),
            resolver.spec_index() == ix,
            ix == index_of(*items),
            forall|j: int| 0 <= j < i ==> {
                let u = items@.uses[j];
                let res = (#[trigger] out@[j]);
                let ed = edition_for(crates@.map_values(|c: (String, Edition)| (c.0@, c.1)), u.module, default);
                &&& res.module@ == u.module
                &&& res.use_path@ == u.path
                &&& !use_valid(u) ==> res.resolved == Err::<Vec<ResolvedUsePath<'a>>, IndexError>(IndexError::InvalidUsePath)
                &&& use_valid(u) && ed == Edition::Edition2015 ==> res.resolved == Err::<Vec<ResolvedUsePath<'a>>, IndexError>(IndexError::UnsupportedEdition)
                &&& use_valid(u) && ed != Edition::Edition2015 ==> res.resolved is Ok && resolution(
                    ix,
                    u.path,
                    u.module,
                    res.resolved->Ok_0@.map_values(|x: ResolvedUsePath<'a>| x@),
                )
            },
        decreases items.uses@.len() - i,
    {
        let (module, use_path) = &items.uses[i];
        assert(items@.uses[i as int] == use_view(items.uses@[i as int]));
        let resolved = if !check_use_path(use_path) || module.len() == 0 {
            Err(IndexError::InvalidUsePath)
        } else {
            let ed = edition_of(crates, module, default);
            resolver.set_edition(ed);
            match resolver.resolve(use_path, module) {
                Ok(found) => Ok(found),
                Err(ResolveError::UnsupportedEdition) => Err(IndexError::UnsupportedEdition),
            }
        };
        out.push(UseResolution { module: module.clone(), use_path: use_path.clone(), resolved });
        i = i + 1;
    }
    out
}

} // verus!
