//! Paths written in `use` declarations and their normalisation against the
//! module that contains them.
use vstd::prelude::*;

use crate::path::{Path, PathComponent, Segment, Visibility, VisibilityView};
use crate::text::str_eq;

verus! {

/// One segment of a `use` path, as a mathematical value.
pub enum UseSegment {
    Name(Seq<char>),
    Rename(Seq<char>, Seq<char>),
    Glob,
    Empty,
}

#[derive(Debug, PartialEq, Eq)]
pub enum UsePathComponent {
    Name(String),
    Rename(String, String),
    Glob,
    Empty,
}

impl View for UsePathComponent {
    type V = UseSegment;

    open spec fn view(&self) -> UseSegment {
        match self {
            UsePathComponent::Name(n) => UseSegment::Name(n@),
            UsePathComponent::Rename(n, r) => UseSegment::Rename(n@, r@),
            UsePathComponent::Glob => UseSegment::Glob,
            UsePathComponent::Empty => UseSegment::Empty,
        }
    }
}

impl Clone for UsePathComponent {
    fn clone(&self) -> (r: Self)
        ensures
            r@ == self@,
    {
        match self {
            UsePathComponent::Name(n) => UsePathComponent::Name(n.clone()),
            UsePathComponent::Rename(n, r) => UsePathComponent::Rename(n.clone(), r.clone()),
            UsePathComponent::Glob => UsePathComponent::Glob,
            UsePathComponent::Empty => UsePathComponent::Empty,
        }
    }
}

impl UsePathComponent {
    /// The identifier of a plain-identifier segment.
    pub fn as_name(&self) -> (r: Option<&String>)
        ensures
            r is Some <==> self is Name,
            r matches Some(n) ==> self@ == UseSegment::Name(n@),
    {
        if let UsePathComponent::Name(name) = self {
            Some(name)
        } else {
            None
        }
    }
}

/// The pattern that splits `name as alias` into its two identifiers.
pub open spec fn rename_pattern() -> Seq<char> {
    "([\\w\\d_]+) as ([\\w\\d_]+)"@
}

/// The first and second capture groups of the first match of a regular
/// expression in a text, when the pattern compiles, matches and both groups
/// take part in the match.
pub uninterp spec fn regex_two_captures(pattern: Seq<char>, s: Seq<char>) -> Option<
    (Seq<char>, Seq<char>),
>;

/// Relies on regex::Regex::new and regex::Regex::captures: the capture groups
/// depend on the pattern and the text alone.
#[verifier::external_body]
fn two_captures(pattern: &str, s: &str) -> (r: Option<(String, String)>)
    ensures
        match r {
            Some((a, b)) => regex_two_captures(pattern@, s@) == Some((a@, b@)),
            None => regex_two_captures(pattern@, s@) is None,
        },
{
    let caps = regex::Regex::new(pattern).ok()?.captures(s)?;
    Some((caps.get(1)?.as_str().to_string(), caps.get(2)?.as_str().to_string()))
}

/// The `use`-path segment that a piece of text stands for: `*` is a glob,
/// the empty text the root marker, `a as b` a rename, anything else a name.
pub open spec fn use_segment_of(s: Seq<char>) -> UseSegment {
    if s == "*"@ {
        UseSegment::Glob
    } else if s == ""@ {
        UseSegment::Empty
    } else {
        match regex_two_captures(rename_pattern(), s) {
            Some((a, b)) => UseSegment::Rename(a, b),
            None => UseSegment::Name(s),
        }
    }
}

/// The base module that remains after the relative prefix segments
/// `self`, `super` and `crate` have been applied to `module`, together with
/// the prefix segments that are kept.
pub open spec fn normalize_prefix(prefix: Seq<UseSegment>, module: Seq<Segment>) -> (
    Seq<UseSegment>,
    Seq<Segment>,
)
    decreases prefix.len(),
{
    if prefix.len() == 0 {
        (Seq::empty(), module)
    } else {
        let (kept, base) = normalize_prefix(prefix.drop_last(), module);
        let seg = prefix.last();
        if seg == UseSegment::Name("super"@) {
            (kept, if base.len() == 0 { base } else { base.drop_last() })
        } else if seg == UseSegment::Name("crate"@) {
            (kept, if module.len() == 0 { module } else { seq![module[0]] })
        } else if seg == UseSegment::Name("self"@) {
            (kept, base)
        } else {
            (kept.push(seg), base)
        }
    }
}

/// A `use` path after normalisation against its containing module, and the
/// base module from which resolution starts. The last segment is kept as it
/// is.
pub open spec fn normalize(use_path: Seq<UseSegment>, module: Seq<Segment>) -> (
    Seq<UseSegment>,
    Seq<Segment>,
) {
    let (kept, base) = normalize_prefix(use_path.drop_last(), module);
    (kept.push(use_path.last()), base)
}

proof fn lemma_prefix_base_within_module(prefix: Seq<UseSegment>, module: Seq<Segment>)
    ensures
        normalize_prefix(prefix, module).1.len() <= module.len(),
        normalize_prefix(prefix, module).1 == module.take(
            normalize_prefix(prefix, module).1.len() as int,
        ),
    decreases prefix.len(),
{
    if prefix.len() > 0 {
        lemma_prefix_base_within_module(prefix.drop_last(), module);
        let base = normalize_prefix(prefix.drop_last(), module).1;
        if base.len() > 0 {
            assert(base.drop_last() =~= module.take(base.len() - 1));
        }
        if module.len() > 0 {
            assert(seq![module[0]] =~= module.take(1));
        }
        assert(module =~= module.take(module.len() as int));
    } else {
        assert(module =~= module.take(module.len() as int));
    }
}

/// Normalisation never leaves the containing module: the base it returns is
/// a prefix of that module, so resolution never looks at a segment of the
/// base beyond the module's length.
pub proof fn lemma_normalize_base_within_module(use_path: Seq<UseSegment>, module: Seq<Segment>)
    ensures
        normalize(use_path, module).1.len() <= module.len(),
        normalize(use_path, module).1 == module.take(normalize(use_path, module).1.len() as int),
{
    lemma_prefix_base_within_module(use_path.drop_last(), module);
}

proof fn lemma_supers_prefix(prefix: Seq<UseSegment>, module: Seq<Segment>)
    requires
        forall|i: int| 0 <= i < prefix.len() ==> #[trigger] prefix[i] == UseSegment::Name("super"@),
    ensures
        normalize_prefix(prefix, module).0.len() == 0,
        normalize_prefix(prefix, module).1 == if prefix.len() >= module.len() {
            Seq::<Segment>::empty()
        } else {
            module.take(module.len() - prefix.len())
        },
    decreases prefix.len(),
{
    if prefix.len() == 0 {
        assert(module =~= module.take(module.len() as int));
    } else {
        let p = prefix.drop_last();
        assert forall|i: int| 0 <= i < p.len() implies #[trigger] p[i] == UseSegment::Name(
            "super"@,
        ) by {
            assert(p[i] == prefix[i]);
        }
        lemma_supers_prefix(p, module);
        assert(prefix.last() == prefix[prefix.len() - 1]);
        if p.len() < module.len() {
            assert(module.take(module.len() - p.len()).drop_last() =~= module.take(
                module.len() - prefix.len(),
            ));
        }
    }
}

/// A `use` path made of `super` segments before its last segment climbs one
/// module per `super`; with as many `super` segments as the module has
/// segments, or more, the base is the empty root path.
pub proof fn lemma_super_beyond_root(use_path: Seq<UseSegment>, module: Seq<Segment>)
    requires
        use_path.len() > 0,
        forall|i: int|
            0 <= i < use_path.len() - 1 ==> #[trigger] use_path[i] == UseSegment::Name("super"@),
        use_path.len() - 1 >= module.len(),
    ensures
        normalize(use_path, module).1 == Seq::<Segment>::empty(),
        normalize(use_path, module).0 == seq![use_path.last()],
{
    let p = use_path.drop_last();
    assert forall|i: int| 0 <= i < p.len() implies #[trigger] p[i] == UseSegment::Name(
        "super"@,
    ) by {
        assert(p[i] == use_path[i]);
    }
    lemma_supers_prefix(p, module);
    assert(normalize(use_path, module).0 =~= seq![use_path.last()]);
}

/// Every segment but the last is a plain identifier.
pub open spec fn prefix_all_names(p: Seq<UseSegment>) -> bool {
    forall|i: int| 0 <= i < p.len() - 1 ==> (#[trigger] p[i]) is Name
}

#[derive(Debug, PartialEq, Eq)]
pub struct UsePath {
    path: Vec<UsePathComponent>,
    vis: Visibility,
}

impl View for UsePath {
    type V = Seq<UseSegment>;

    closed spec fn view(&self) -> Seq<UseSegment> {
        self.path@.map_values(|c: UsePathComponent| c@)
    }
}

impl Clone for UsePath {
    fn clone(&self) -> (r: Self)
        ensures
            r@ == self@,
            r.spec_vis() == self.spec_vis(),
    {
        let mut out: Vec<UsePathComponent> = Vec::new();
        let mut i: usize = 0;
        while i < self.path.len()
            invariant
                i <= self.path@.len(),
                out@.len() == i,
                forall|j: int| 0 <= j < i ==> (#[trigger] out@[j])@ == self.path@[j]@,
            decreases self.path@.len() - i,
        {
            out.push(self.path[i].clone());
            i = i + 1;
        }
        let r = UsePath { path: out, vis: self.vis.clone() };
        assert(r@ =~= self@);
        r
    }
}

impl UsePath {
    /// The visibility of the `use` declaration.
    pub closed spec fn spec_vis(&self) -> VisibilityView {
        self.vis@
    }

    pub fn new(path: Vec<UsePathComponent>, vis: Visibility) -> (r: UsePath)
        ensures
            r@ == path@.map_values(|c: UsePathComponent| c@),
            r.spec_vis() == vis@,
    {
        UsePath { path, vis }
    }

    /// A public `use` path with one segment per piece of text, each read as
    /// `use_segment_of` says.
    pub fn from_strs(comps: Vec<&str>) -> (r: UsePath)
        ensures
            r@ == comps@.map_values(|s: &str| use_segment_of(s@)),
            r.spec_vis() == VisibilityView::Public,
    {
        let mut out: Vec<UsePathComponent> = Vec::new();
        let mut i: usize = 0;
        while i < comps.len()
            invariant
                i <= comps@.len(),
                out@.len() == i,
                forall|j: int| 0 <= j < i ==> (#[trigger] out@[j])@ == use_segment_of(comps@[j]@),
            decreases comps@.len() - i,
        {
            let item = comps[i];
            let comp = if str_eq(item, "*") {
                UsePathComponent::Glob
            } else if str_eq(item, "") {
                UsePathComponent::Empty
            } else {
                match two_captures("([\\w\\d_]+) as ([\\w\\d_]+)", item) {
                    Some((from, to)) => UsePathComponent::Rename(from, to),
                    None => UsePathComponent::Name(String::from_str(item)),
                }
            };
            out.push(comp);
            i = i + 1;
        }
        let r = UsePath { path: out, vis: Visibility::Public };
        assert(r@ =~= comps@.map_values(|s: &str| use_segment_of(s@)));
        r
    }

    pub fn components(&self) -> (r: &[UsePathComponent])
        ensures
            r@.map_values(|c: UsePathComponent| c@) == self@,
    {
        self.path.as_slice()
    }

    pub fn visibility(&self) -> (r: &Visibility)
        ensures
            r@ == self.spec_vis(),
    {
        &self.vis
    }

    /// Rewrites the path against the module that contains it: the prefix
    /// segments `self`, `super` and `crate` are removed, and the module from
    /// which resolution must start is returned.
    pub fn delocalize(&mut self, module: &Path) -> (r: Path)
        requires
            old(self)@.len() > 0,
            prefix_all_names(old(self)@),
        ensures
            (final(self)@, r@) == normalize(old(self)@, module@),
            final(self).spec_vis() == old(self).spec_vis(),
    {
        let ghost up = self@;
        let n = self.path.len();
        let mut new_path: Vec<UsePathComponent> = Vec::new();
        let mut new_mod = crate::path::clone_components(module.components());
        let mut i: usize = 0;
        while i + 1 < n
            invariant
                n == self.path@.len(),
                n > 0,
                up == self@,
                up == self.path@.map_values(|c: UsePathComponent| c@),
                prefix_all_names(up),
                i + 1 <= n,
                (
                    new_path@.map_values(|c: UsePathComponent| c@),
                    new_mod@.map_values(|c: PathComponent| c@),
                ) == normalize_prefix(up.take(i as int), module@),
            decreases n - i,
        {
            assert(up.take(i + 1).drop_last() =~= up.take(i as int));
            assert(up[i as int] is Name);
            let comp = &self.path[i];
            if let UsePathComponent::Name(name) = comp {
                if str_eq(name.as_str(), "super") {
                    let _ = new_mod.pop();
                } else if str_eq(name.as_str(), "crate") {
                    let first = module.components();
                    let mut fresh: Vec<PathComponent> = Vec::new();
                    if first.len() > 0 {
                        fresh.push(first[0].clone());
                    }
                    new_mod = fresh;
                } else if str_eq(name.as_str(), "self") {
                } else {
                    new_path.push(UsePathComponent::Name(name.clone()));
                }
            }
            proof {
                let (kept, base) = normalize_prefix(up.take(i as int), module@);
                assert(up.take(i + 1).last() == up[i as int]);
                assert(new_path@.map_values(|c: UsePathComponent| c@) =~= normalize_prefix(
                    up.take(i + 1),
                    module@,
                ).0);
                assert(new_mod@.map_values(|c: PathComponent| c@) =~= normalize_prefix(
                    up.take(i + 1),
                    module@,
                ).1);
            }
            i = i + 1;
        }
        assert(up.take(i as int) =~= up.drop_last());
        let last = self.path.pop().unwrap();
        new_path.push(last);
        self.path = new_path;
        assert(self@ =~= normalize(up, module@).0);
        Path::new(new_mod)
    }

    /// Whether the first segment is the plain identifier `s`.
    pub fn begins_with(&self, s: &str) -> (r: bool)
        ensures
            r == (self@.len() > 0 && self@[0] == UseSegment::Name(s@)),
    {
        if self.path.len() > 0 {
            match &self.path[0] {
                UsePathComponent::Name(name) => str_eq(s, name.as_str()),
                _ => false,
            }
        } else {
            false
        }
    }

    /// Replaces the identifier of the first segment.
    pub fn replace_first(&mut self, new_first: &str)
        requires
            old(self)@.len() > 0,
            old(self)@[0] is Name,
        ensures
            final(self)@ == old(self)@.update(0, UseSegment::Name(new_first@)),
            final(self).spec_vis() == old(self).spec_vis(),
    {
        self.path.set(0, UsePathComponent::Name(String::from_str(new_first)));
        assert(self@ =~= old(self)@.update(0, UseSegment::Name(new_first@)));
    }

    /// Whether the first segment is the root marker of an absolute path.
    pub fn begins_with_empty(&self) -> (r: bool)
        ensures
            r == (self@.len() > 0 && self@[0] == UseSegment::Empty),
    {
        if self.path.len() > 0 {
            matches!(self.path[0], UsePathComponent::Empty)
        } else {
            false
        }
    }

    /// Puts the root marker in front, which makes the path absolute.
    pub fn push_front_empty(&mut self)
        ensures
            final(self)@ == seq![UseSegment::Empty] + old(self)@,
            final(self).spec_vis() == old(self).spec_vis(),
    {
        self.path.insert(0, UsePathComponent::Empty);
        assert(self@ =~= seq![UseSegment::Empty] + old(self)@);
    }

    pub fn remove_first(&mut self)
        requires
            old(self)@.len() > 0,
        ensures
            final(self)@ == old(self)@.subrange(1, old(self)@.len() as int),
            final(self).spec_vis() == old(self).spec_vis(),
    {
        let _ = self.path.remove(0);
        assert(self@ =~= old(self)@.subrange(1, old(self)@.len() as int));
    }
}

/// The text of a `use`-path segment.
pub open spec fn use_segment_text(s: UseSegment) -> Seq<char> {
    match s {
        UseSegment::Name(n) => n,
        UseSegment::Rename(n, r) => n + " as "@ + r,
        UseSegment::Glob => "*"@,
        UseSegment::Empty => ""@,
    }
}

/// The text of a `use` path: its visibility, then its segments joined with
/// `::`.
pub open spec fn use_path_text(p: Seq<UseSegment>, vis: VisibilityView) -> Seq<char> {
    crate::path::vis_text(vis) + crate::path::join_texts(p.map_values(|s: UseSegment| use_segment_text(s)))
}

impl UsePathComponent {
    /// The text of the segment.
    pub fn to_text(&self) -> (r: String)
        ensures
            r@ == use_segment_text(self@),
    {
        proof {
            reveal_strlit("");
        }
        match self {
            UsePathComponent::Name(n) => n.clone(),
            UsePathComponent::Rename(n, r) => {
                let mut out = n.clone();
                out.append(" as ");
                out.append(r.as_str());
                out
            },
            UsePathComponent::Glob => String::from_str("*"),
            UsePathComponent::Empty => String::new(),
        }
    }
}

impl UsePath {
    /// The text of the `use` path: its visibility, then its segments joined
    /// with `::`.
    pub fn to_text(&self) -> (r: String)
        ensures
            r@ == use_path_text(self@, self.spec_vis()),
    {
        let mut parts: Vec<String> = Vec::new();
        let mut i: usize = 0;
        while i < self.path.len()
            invariant
                i <= self.path@.len(),
                parts@.len() == i,
                forall|j: int| 0 <= j < i ==> (#[trigger] parts@[j])@ == use_segment_text(self@[j]),
            decreases self.path@.len() - i,
        {
            parts.push(self.path[i].to_text());
            i = i + 1;
        }
        let mut out = self.vis.to_text();
        crate::path::join_into(&mut out, &parts);
        assert(crate::text::texts(parts@) =~= self@.map_values(|s: UseSegment| use_segment_text(s)));
        out
    }
}

} // verus!
