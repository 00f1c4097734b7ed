//! The syntax of a source file as plain values: the top-level items that the
//! indexer reads, with inline modules holding their own items.
use vstd::prelude::*;

use crate::path::{segment_of, Path, Visibility, VisibilityView};
use crate::text::{clone_strings, texts};

verus! {

/// Visibility as written in the source.
#[derive(Debug)]
pub enum SourceVis {
    Public,
    Crate,
    /// `pub(in a::b)`, with the identifiers of the path.
    Restricted(Vec<String>),
    Inherited,
}

/// The tree of a `use` declaration.
#[derive(Debug)]
pub enum UseTree {
    /// `ident::tree`
    Path(String, Box<UseTree>),
    Name(String),
    /// `ident as rename`
    Rename(String, String),
    Glob,
    /// `{a, b, ...}`
    Group(Vec<UseTree>),
}

/// The shape of an attribute, as far as the indexer reads it.
#[derive(Debug)]
pub enum Meta {
    /// `#[a::b]`
    Word(Vec<String>),
    /// `#[a::b(nested, ...)]`
    List(Vec<String>, Vec<Meta>),
    /// `#[a::b = lit]`, with the literal's value when it is a string.
    NameValue(Vec<String>, Option<String>),
    /// A literal nested in a list, or an attribute that has none of the
    /// shapes above.
    Other,
}

/// A top-level item of a source file.
#[derive(Debug)]
pub enum SourceItem {
    Struct { name: String, vis: SourceVis, params: Vec<String> },
    Enum { name: String, vis: SourceVis, params: Vec<String> },
    Const { name: String, vis: SourceVis },
    Type { name: String, vis: SourceVis, params: Vec<String> },
    /// `mod name;` has no content, `mod name { ... }` has its items.
    Mod { name: String, vis: SourceVis, attrs: Vec<Meta>, content: Option<Vec<SourceItem>> },
    ExternCrate { name: String, rename: Option<String>, vis: SourceVis },
    /// `use tree;`, where `leading_colon` marks `use ::tree;`.
    Use { vis: SourceVis, leading_colon: bool, tree: UseTree },
    Other,
}

/// The visibility that a written visibility stands for.
pub open spec fn vis_of(v: SourceVis) -> VisibilityView {
    match v {
        SourceVis::Public => VisibilityView::Public,
        SourceVis::Crate => VisibilityView::Crate,
        SourceVis::Restricted(p) => VisibilityView::Restricted(
            texts(p@).map_values(|s: Seq<char>| segment_of(s)),
        ),
        SourceVis::Inherited => VisibilityView::Private,
    }
}

impl Visibility {
    pub fn from_source(v: &SourceVis) -> (r: Visibility)
        ensures
            r@ == vis_of(*v),
    {
        match v {
            SourceVis::Public => Visibility::Public,
            SourceVis::Crate => Visibility::Crate,
            SourceVis::Restricted(p) => {
                let path = Path::from_names(clone_strings(p));
                assert(path@ =~= texts(p@).map_values(|s: Seq<char>| segment_of(s)));
                Visibility::Restricted(path)
            },
            SourceVis::Inherited => Visibility::Private,
        }
    }
}

} // verus!
