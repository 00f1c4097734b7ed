//! Module paths and visibilities.
use vstd::prelude::*;

use crate::text::str_eq;

verus! {

/// One segment of a module path, as a mathematical value.
pub enum Segment {
    Global,
    SmallSelf,
    BigSelf,
    Super,
    Crate,
    Name(Seq<char>),
}

/// The segment that a piece of source text stands for: the keywords `self`,
/// `Self`, `super` and `crate`, the empty text for the root, else a name.
pub open spec fn segment_of(s: Seq<char>) -> Segment {
    if s == ""@ {
        Segment::Global
    } else if s == "self"@ {
        Segment::SmallSelf
    } else if s == "Self"@ {
        Segment::BigSelf
    } else if s == "super"@ {
        Segment::Super
    } else if s == "crate"@ {
        Segment::Crate
    } else {
        Segment::Name(s)
    }
}

/// A path made of plain identifiers only.
pub open spec fn all_names(p: Seq<Segment>) -> bool {
    forall|i: int| 0 <= i < p.len() ==> (#[trigger] p[i]) is Name
}

/// The identifiers of a path made of plain identifiers.
pub open spec fn names_of(p: Seq<Segment>) -> Seq<Seq<char>> {
    p.map_values(|s: Segment| s->Name_0)
}

#[derive(Debug, PartialEq, Eq, Hash)]
pub enum PathComponent {
    Global,
    SmallSelf,
    BigSelf,
    Super,
    Crate,
    Name(String),
}

impl View for PathComponent {
    type V = Segment;

    open spec fn view(&self) -> Segment {
        match self {
            PathComponent::Global => Segment::Global,
            PathComponent::SmallSelf => Segment::SmallSelf,
            PathComponent::BigSelf => Segment::BigSelf,
            PathComponent::Super => Segment::Super,
            PathComponent::Crate => Segment::Crate,
            PathComponent::Name(n) => Segment::Name(n@),
        }
    }
}

impl Clone for PathComponent {
    fn clone(&self) -> (r: Self)
        ensures
            r@ == self@,
    {
        match self {
            PathComponent::Global => PathComponent::Global,
            PathComponent::SmallSelf => PathComponent::SmallSelf,
            PathComponent::BigSelf => PathComponent::BigSelf,
            PathComponent::Super => PathComponent::Super,
            PathComponent::Crate => PathComponent::Crate,
            PathComponent::Name(n) => PathComponent::Name(n.clone()),
        }
    }
}

impl PathComponent {
    /// Classifies a piece of source text as a path segment.
    pub fn from_text(comp: String) -> (r: PathComponent)
        ensures
            r@ == segment_of(comp@),
    {
        if str_eq(comp.as_str(), "") {
            PathComponent::Global
        } else if str_eq(comp.as_str(), "self") {
            PathComponent::SmallSelf
        } else if str_eq(comp.as_str(), "Self") {
            PathComponent::BigSelf
        } else if str_eq(comp.as_str(), "super") {
            PathComponent::Super
        } else if str_eq(comp.as_str(), "crate") {
            PathComponent::Crate
        } else {
            PathComponent::Name(comp)
        }
    }

    /// The identifier of a plain-identifier segment.
    pub fn as_name(&self) -> (r: Option<&String>)
        ensures
            r matches Some(n) <==> self is Name,
            r matches Some(n) ==> self@ == Segment::Name(n@),
    {
        match self {
            PathComponent::Name(n) => Some(n),
            _ => None,
        }
    }
}

/// A module path: a sequence of segments from a crate root.
#[derive(Debug, PartialEq, Eq, Hash)]
pub struct Path(Vec<PathComponent>);

impl View for Path {
    type V = Seq<Segment>;

    closed spec fn view(&self) -> Seq<Segment> {
        self.0@.map_values(|c: PathComponent| c@)
    }
}

impl Clone for Path {
    fn clone(&self) -> (r: Self)
        ensures
            r@ == self@,
    {
        Path(clone_components(&self.0))
    }
}

/// Copies a list of segments.
pub fn clone_components(comps: &[PathComponent]) -> (r: Vec<PathComponent>)
    ensures
        r@.map_values(|c: PathComponent| c@) == comps@.map_values(|c: PathComponent| c@),
{
    let mut out: Vec<PathComponent> = Vec::new();
    let mut i: usize = 0;
    while i < comps.len()
        invariant
            i <= comps@.len(),
            out@.len() == i,
            forall|j: int| 0 <= j < i ==> (#[trigger] out@[j])@ == comps@[j]@,
        decreases comps@.len() - i,
    {
        out.push(comps[i].clone());
        i = i + 1;
    }
    assert(out@.map_values(|c: PathComponent| c@) =~= comps@.map_values(|c: PathComponent| c@));
    out
}

impl Path {
    pub fn new(comps: Vec<PathComponent>) -> (r: Path)
        ensures
            r@ == comps@.map_values(|c: PathComponent| c@),
    {
        Path(comps)
    }

    /// The empty path, which stands for the global root.
    pub fn root() -> (r: Path)
        ensures
            r@ == Seq::<Segment>::empty(),
    {
        let r = Path(Vec::new());
        assert(r@ =~= Seq::<Segment>::empty());
        r
    }

    /// A path of one segment per piece of text, each classified as
    /// `PathComponent::from_text` does.
    pub fn from_names(comps: Vec<String>) -> (r: Path)
        ensures
            r@ == comps@.map_values(|s: String| segment_of(s@)),
    {
        let mut out: Vec<PathComponent> = Vec::new();
        let mut i: usize = 0;
        while i < comps.len()
            invariant
                i <= comps@.len(),
                out@.len() == i,
                forall|j: int| 0 <= j < i ==> (#[trigger] out@[j])@ == segment_of(comps@[j]@),
            decreases comps@.len() - i,
        {
            out.push(PathComponent::from_text(comps[i].clone()));
            i = i + 1;
        }
        let r = Path(out);
        assert(r@ =~= comps@.map_values(|s: String| segment_of(s@)));
        r
    }

    /// A path of one segment per piece of text, each classified as
    /// `PathComponent::from_text` does.
    pub fn from_strs(comps: Vec<&str>) -> (r: Path)
        ensures
            r@ == comps@.map_values(|s: &str| segment_of(s@)),
    {
        let mut out: Vec<PathComponent> = Vec::new();
        let mut i: usize = 0;
        while i < comps.len()
            invariant
                i <= comps@.len(),
                out@.len() == i,
                forall|j: int| 0 <= j < i ==> (#[trigger] out@[j])@ == segment_of(comps@[j]@),
            decreases comps@.len() - i,
        {
            out.push(PathComponent::from_text(String::from_str(comps[i])));
            i = i + 1;
        }
        let r = Path(out);
        assert(r@ =~= comps@.map_values(|s: &str| segment_of(s@)));
        r
    }

    pub fn push_name(&mut self, comp: String)
        ensures
            final(self)@ == old(self)@.push(Segment::Name(comp@)),
    {
        self.0.push(PathComponent::Name(comp));
        assert(final(self)@ =~= old(self)@.push(Segment::Name(comp@)));
    }

    pub fn components(&self) -> (r: &[PathComponent])
        ensures
            r@.map_values(|c: PathComponent| c@) == self@,
    {
        self.0.as_slice()
    }

    pub fn len(&self) -> (r: usize)
        ensures
            r == self@.len(),
    {
        self.0.len()
    }

    /// Drops the last segment, if there is one.
    pub fn pop(&mut self)
        ensures
            final(self)@ == if old(self)@.len() == 0 {
                old(self)@
            } else {
                old(self)@.drop_last()
            },
    {
        if self.0.len() > 0 {
            let _ = self.0.pop();
            assert(final(self)@ =~= old(self)@.drop_last());
        }
    }

    /// The path without its last segment.
    pub fn parent(&self) -> (r: Path)
        requires
            self@.len() > 0,
        ensures
            r@ == self@.drop_last(),
    {
        let mut r = self.clone();
        r.pop();
        r
    }

    /// The path made of the first segment alone (the crate name of a fully
    /// qualified path).
    pub fn first_as_path(&self) -> (r: Path)
        requires
            self@.len() > 0,
        ensures
            r@ == seq![self@[0]],
    {
        let mut v: Vec<PathComponent> = Vec::new();
        v.push(self.0[0].clone());
        let r = Path(v);
        assert(r@ =~= seq![self@[0]]);
        r
    }

    /// Whether every segment is a plain identifier.
    pub fn is_qualified(&self) -> (r: bool)
        ensures
            r == all_names(self@),
    {
        let mut i: usize = 0;
        while i < self.0.len()
            invariant
                i <= self@.len(),
                forall|j: int| 0 <= j < i ==> (#[trigger] self@[j]) is Name,
            decreases self@.len() - i,
        {
            if !matches!(self.0[i], PathComponent::Name(_)) {
                assert(!(self@[i as int] is Name));
                return false;
            }
            i = i + 1;
        }
        true
    }
}

/// Compares two path segments.
pub fn component_eq(a: &PathComponent, b: &PathComponent) -> (r: bool)
    ensures
        r == (a@ == b@),
{
    match (a, b) {
        (PathComponent::Global, PathComponent::Global) => true,
        (PathComponent::SmallSelf, PathComponent::SmallSelf) => true,
        (PathComponent::BigSelf, PathComponent::BigSelf) => true,
        (PathComponent::Super, PathComponent::Super) => true,
        (PathComponent::Crate, PathComponent::Crate) => true,
        (PathComponent::Name(x), PathComponent::Name(y)) => str_eq(x.as_str(), y.as_str()),
        _ => false,
    }
}

/// Compares two module paths segment by segment.
pub fn path_eq(a: &Path, b: &Path) -> (r: bool)
    ensures
        r == (a@ == b@),
{
    if a.0.len() != b.0.len() {
        assert(a@.len() != b@.len());
        return false;
    }
    let mut i: usize = 0;
    while i < a.0.len()
        invariant
            a@.len() == b@.len(),
            i <= a@.len(),
            forall|j: int| 0 <= j < i ==> a@[j] == b@[j],
        decreases a@.len() - i,
    {
        if !component_eq(&a.0[i], &b.0[i]) {
            assert(a@[i as int] != b@[i as int]);
            return false;
        }
        i = i + 1;
    }
    assert(a@ =~= b@);
    true
}

/// Visibility of a declaration, as a mathematical value.
pub enum VisibilityView {
    Public,
    Crate,
    Restricted(Seq<Segment>),
    Private,
}

#[derive(Debug, PartialEq, Eq)]
pub enum Visibility {
    Public,
    Crate,
    Restricted(Path),
    Private,
}

impl View for Visibility {
    type V = VisibilityView;

    open spec fn view(&self) -> VisibilityView {
        match self {
            Visibility::Public => VisibilityView::Public,
            Visibility::Crate => VisibilityView::Crate,
            Visibility::Restricted(p) => VisibilityView::Restricted(p@),
            Visibility::Private => VisibilityView::Private,
        }
    }
}

impl Clone for Visibility {
    fn clone(&self) -> (r: Self)
        ensures
            r@ == self@,
    {
        match self {
            Visibility::Public => Visibility::Public,
            Visibility::Crate => Visibility::Crate,
            Visibility::Restricted(p) => Visibility::Restricted(p.clone()),
            Visibility::Private => Visibility::Private,
        }
    }
}

/// The text of a segment: keywords in their keyword form, the root as the
/// empty text.
pub open spec fn segment_text(s: Segment) -> Seq<char> {
    match s {
        Segment::Global => ""@,
        Segment::SmallSelf => "self"@,
        Segment::BigSelf => "Self"@,
        Segment::Super => "super"@,
        Segment::Crate => "crate"@,
        Segment::Name(n) => n,
    }
}

/// Texts joined with `::` between them.
pub open spec fn join_texts(parts: Seq<Seq<char>>) -> Seq<char>
    decreases parts.len(),
{
    if parts.len() == 0 {
        ""@
    } else if parts.len() == 1 {
        parts[0]
    } else {
        join_texts(parts.drop_last()) + "::"@ + parts.last()
    }
}

/// The text of a path: its segments joined with `::`, so that a path from
/// the root reads `::x::y`.
pub open spec fn path_text(p: Seq<Segment>) -> Seq<char> {
    join_texts(p.map_values(|s: Segment| segment_text(s)))
}

/// The text of a visibility as it prefixes a declaration.
pub open spec fn vis_text(v: VisibilityView) -> Seq<char> {
    match v {
        VisibilityView::Public => "pub "@,
        VisibilityView::Crate => "pub(crate) "@,
        VisibilityView::Restricted(p) => "pub(in "@ + path_text(p) + ") "@,
        VisibilityView::Private => ""@,
    }
}

/// Appends to `out` the pieces of text `parts` joined with `::`.
pub fn join_into(out: &mut String, parts: &Vec<String>)
    ensures
        final(out)@ == old(out)@ + join_texts(crate::text::texts(parts@)),
{
    let ghost ts = crate::text::texts(parts@);
    let ghost start = out@;
    let mut i: usize = 0;
    assert(ts.take(0) =~= Seq::<Seq<char>>::empty());
    assert(start + ""@ =~= start) by {
        reveal_strlit("");
    }
    while i < parts.len()
        invariant
            i <= parts@.len(),
            ts == crate::text::texts(parts@),
            out@ == start + join_texts(ts.take(i as int)),
        decreases parts@.len() - i,
    {
        let ghost before = out@;
        assert(ts.take(i + 1).drop_last() =~= ts.take(i as int));
        assert(ts.take(i + 1).last() == parts@[i as int]@);
        if i > 0 {
            out.append("::");
            out.append(parts[i].as_str());
            assert(out@ =~= start + join_texts(ts.take(i + 1)));
        } else {
            out.append(parts[i].as_str());
            assert(ts.take(1)[0] == parts@[0]@);
            assert(join_texts(ts.take(0)) == ""@);
            assert(out@ =~= start + join_texts(ts.take(1))) by {
                reveal_strlit("");
            }
        }
        i = i + 1;
    }
    assert(ts.take(i as int) =~= ts);
}

impl PathComponent {
    /// The text of the segment.
    pub fn to_text(&self) -> (r: String)
        ensures
            r@ == segment_text(self@),
    {
        proof {
            reveal_strlit("");
        }
        match self {
            PathComponent::Global => String::new(),
            PathComponent::SmallSelf => String::from_str("self"),
            PathComponent::BigSelf => String::from_str("Self"),
            PathComponent::Super => String::from_str("super"),
            PathComponent::Crate => String::from_str("crate"),
            PathComponent::Name(n) => n.clone(),
        }
    }
}

impl Path {
    /// The text of the path, segments joined with `::`.
    pub fn to_text(&self) -> (r: String)
        ensures
            r@ == path_text(self@),
    {
        let mut parts: Vec<String> = Vec::new();
        let mut i: usize = 0;
        while i < self.0.len()
            invariant
                i <= self@.len(),
                parts@.len() == i,
                forall|j: int| 0 <= j < i ==> (#[trigger] parts@[j])@ == segment_text(self@[j]),
            decreases self@.len() - i,
        {
            parts.push(self.0[i].to_text());
            i = i + 1;
        }
        let mut out = String::new();
        join_into(&mut out, &parts);
        assert(crate::text::texts(parts@) =~= self@.map_values(|s: Segment| segment_text(s)));
        assert(Seq::<char>::empty() + join_texts(crate::text::texts(parts@)) =~= join_texts(
            crate::text::texts(parts@),
        ));
        out
    }
}

impl Visibility {
    /// The text of the visibility as it prefixes a declaration.
    pub fn to_text(&self) -> (r: String)
        ensures
            r@ == vis_text(self@),
    {
        proof {
            reveal_strlit("");
        }
        match self {
            Visibility::Public => String::from_str("pub "),
            Visibility::Crate => String::from_str("pub(crate) "),
            Visibility::Restricted(p) => {
                let mut out = String::from_str("pub(in ");
                let t = p.to_text();
                out.append(t.as_str());
                out.append(") ");
                out
            },
            Visibility::Private => String::new(),
        }
    }
}

} // verus!
