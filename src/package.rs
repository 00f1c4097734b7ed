//! Packages and their targets, as the package provider hands them over, and
//! the choice of the targets to index.
use vstd::prelude::*;

use crate::discover::{ModuleFile, ModuleFileView};
use crate::path::Segment;
use crate::resolve::Edition;
use crate::text::{clone_strings, texts};

verus! {

/// The kind of a build target.
#[derive(Debug, Clone, Copy, PartialEq, Eq, Hash, Structural)]
pub enum SimpleTargetKind {
    Binary,
    Library,
    ExampleLib,
    ExampleBin,
    Benchmark,
    Test,
    Custom,
}

/// Where a target's root file lies, or nothing for a metabuild target.
#[derive(Debug)]
pub enum TargetSource {
    Path { dir: Vec<String>, file: String },
    Metabuild,
}

/// A build target: its crate name, kind and root file.
#[derive(Debug)]
pub struct SimpleTarget {
    pub crate_name: String,
    pub kind: SimpleTargetKind,
    pub src_path: TargetSource,
}

/// A package: its targets, name and edition.
#[derive(Debug)]
pub struct SimplePackage {
    pub targets: Vec<SimpleTarget>,
    pub name: String,
    pub edition: Edition,
}

impl SimplePackage {
    pub fn targets(&self) -> (r: &[SimpleTarget])
        ensures
            r@ == self.targets@,
    {
        self.targets.as_slice()
    }

    pub fn name(&self) -> (r: &String)
        ensures
            r@ == self.name@,
    {
        &self.name
    }

    /// The package's first library target.
    pub fn library(&self) -> (r: Option<&SimpleTarget>)
        ensures
            r is Some <==> exists|i: int|
                0 <= i < self.targets@.len() && self.targets@[i].kind == SimpleTargetKind::Library,
            r matches Some(t) ==> exists|i: int|
                0 <= i < self.targets@.len() && self.targets@[i] == *t && t.kind
                    == SimpleTargetKind::Library && forall|j: int|
                    0 <= j < i ==> self.targets@[j].kind != SimpleTargetKind::Library,
    {
        let mut i: usize = 0;
        while i < self.targets.len()
            invariant
                i <= self.targets@.len(),
                forall|j: int| 0 <= j < i ==> self.targets@[j].kind != SimpleTargetKind::Library,
            decreases self.targets@.len() - i,
        {
            if self.targets[i].kind == SimpleTargetKind::Library {
                return Some(&self.targets[i]);
            }
            i = i + 1;
        }
        None
    }

    /// The targets to index: the library alone (none without one) when
    /// `only_lib`, else every target.
    pub fn targets_to_index(&self, only_lib: bool) -> (r: Vec<&SimpleTarget>)
        ensures
            only_lib ==> r@.len() <= 1,
            only_lib ==> (r@.len() == 1 <==> exists|i: int|
                0 <= i < self.targets@.len() && self.targets@[i].kind == SimpleTargetKind::Library),
            only_lib && r@.len() == 1 ==> r@[0].kind == SimpleTargetKind::Library,
            !only_lib ==> r@.map_values(|t: &SimpleTarget| *t) == self.targets@,
    {
        let mut out: Vec<&SimpleTarget> = Vec::new();
        if only_lib {
            if let Some(lib) = self.library() {
                out.push(lib);
            }
        } else {
            let mut i: usize = 0;
            while i < self.targets.len()
                invariant
                    i <= self.targets@.len(),
                    out@.map_values(|t: &SimpleTarget| *t) == self.targets@.take(i as int),
                decreases self.targets@.len() - i,
            {
                let ghost before = out@;
                out.push(&self.targets[i]);
                assert(out@.map_values(|t: &SimpleTarget| *t) =~= before.map_values(
                    |t: &SimpleTarget| *t,
                ).push(self.targets@[i as int]));
                assert(self.targets@.take(i + 1) =~= self.targets@.take(i as int).push(
                    self.targets@[i as int],
                ));
                i = i + 1;
            }
            assert(self.targets@.take(i as int) =~= self.targets@);
        }
        out
    }
}

impl SimpleTarget {
    pub fn crate_name(&self) -> (r: &String)
        ensures
            r@ == self.crate_name@,
    {
        &self.crate_name
    }

    pub fn src_path(&self) -> (r: &TargetSource)
        ensures
            *r == self.src_path,
    {
        &self.src_path
    }

    /// The root module of the target, seeded on its root file under the
    /// crate name; none for a metabuild target, which has no file.
    pub fn root_module(&self) -> (r: Option<ModuleFile>)
        ensures
            self.src_path is Metabuild ==> r is None,
            self.src_path matches TargetSource::Path { dir, file } ==> r matches Some(m) && m@
                == (ModuleFileView {
                dir: texts(dir@),
                file: file@,
                rust_path: seq![Segment::Name(self.crate_name@)],
                name: self.crate_name@,
                cat: crate::discover::ModuleCategory::Root,
                vis: crate::path::VisibilityView::Public,
            }),
    {
        match &self.src_path {
            TargetSource::Path { dir, file } => Some(
                ModuleFile::root(clone_strings(dir), file.clone(), self.crate_name.clone()),
            ),
            TargetSource::Metabuild => None,
        }
    }
}

/// The package record of the standard library, whose library target's root
/// file is `file` in `dir`.
pub fn simple_package_for_std(dir: Vec<String>, file: String) -> (r: SimplePackage)
    ensures
        r.name@ == "std"@,
        r.edition == Edition::Edition2018,
        r.targets@.len() == 1,
        r.targets@[0].crate_name@ == "std"@,
        r.targets@[0].kind == SimpleTargetKind::Library,
        r.targets@[0].src_path matches TargetSource::Path { dir: d, file: f } && texts(d@) == texts(
            dir@,
        ) && f@ == file@,
{
    let lib_target = SimpleTarget {
        crate_name: String::from_str("std"),
        kind: SimpleTargetKind::Library,
        src_path: TargetSource::Path { dir, file },
    };
    let mut targets: Vec<SimpleTarget> = Vec::new();
    targets.push(lib_target);
    SimplePackage { targets, name: String::from_str("std"), edition: Edition::Edition2018 }
}

} // verus!
