//! Item trees: the items of one kind, keyed by the module that declares them
//! and by their name.
//!
//! A tree is kept as one entry per key (module path, name). Walking the
//! segments of a module path down the tree and then looking up a name is the
//! same as looking up the key: a module node that no item lies under holds
//! no entry, so a walk through it finds nothing either way.
use vstd::prelude::*;

use crate::path::{all_names, path_eq, Path, Segment};
use crate::text::str_eq;
use crate::use_path::{prefix_all_names, UsePath, UsePathComponent, UseSegment};

verus! {

/// An item that can stand in an item tree.
pub trait TreeItem {
    /// The item's name.
    spec fn spec_name(&self) -> Seq<char>;

    /// The module under which the item is filed.
    spec fn spec_module(&self) -> Seq<Segment>;

    fn name(&self) -> (r: &str)
        ensures
            r@ == self.spec_name(),
    ;

    fn module(&self) -> (r: &Path)
        ensures
            r@ == self.spec_module(),
    ;
}

} // verus!

verus! {

/// The key under which an item is filed: its module and its name.
pub open spec fn key_of<T: TreeItem>(t: T) -> (Seq<Segment>, Seq<char>) {
    (t.spec_module(), t.spec_name())
}

/// The tree built by inserting `items` in order: each item is filed under
/// its key, and a later item replaces an earlier one with the same key.
pub open spec fn tree_map<T: TreeItem>(items: Seq<T>) -> Map<(Seq<Segment>, Seq<char>), T>
    decreases items.len(),
{
    if items.len() == 0 {
        Map::empty()
    } else {
        tree_map(items.drop_last()).insert(key_of(items.last()), items.last())
    }
}

/// No two items share a key.
pub open spec fn keys_unique<T: TreeItem>(items: Seq<T>) -> bool {
    forall|i: int, j: int|
        0 <= i < items.len() && 0 <= j < items.len() && i != j ==> key_of(#[trigger] items[i])
            != key_of(#[trigger] items[j])
}

/// The map from key to item of a list whose keys are unique.
pub open spec fn entries_map<T: TreeItem>(es: Seq<T>) -> Map<(Seq<Segment>, Seq<char>), T> {
    Map::new(
        |k: (Seq<Segment>, Seq<char>)| exists|i: int| 0 <= i < es.len() && key_of(es[i]) == k,
        |k: (Seq<Segment>, Seq<char>)| es[choose|i: int| 0 <= i < es.len() && key_of(es[i]) == k],
    )
}

/// The module that a `use` path designates below `start`: `start` followed
/// by every segment of the path but the last. There is none when a segment
/// of `start`, or a segment of the path before the last, is not a plain
/// identifier.
pub open spec fn target_node(start: Seq<Segment>, use_path: Seq<UseSegment>) -> Option<
    Seq<Segment>,
> {
    if use_path.len() > 0 && all_names(start) && prefix_all_names(use_path) {
        Some(
            start + use_path.drop_last().map_values(|s: UseSegment| Segment::Name(s->Name_0)),
        )
    } else {
        None
    }
}

/// `r` is what the tree `map` binds to `use_path` resolved from `start`: for
/// a name or a rename, the item of that name in the designated module, if
/// there is one; for a glob, every item of that module, each once; nothing
/// in every other case.
pub open spec fn resolves_to<T: TreeItem>(
    map: Map<(Seq<Segment>, Seq<char>), T>,
    start: Seq<Segment>,
    use_path: Seq<UseSegment>,
    r: Seq<T>,
) -> bool {
    match target_node(start, use_path) {
        None => r.len() == 0,
        Some(node) => match use_path.last() {
            UseSegment::Name(n) => r == if map.contains_key((node, n)) {
                seq![map[(node, n)]]
            } else {
                Seq::empty()
            },
            UseSegment::Rename(n, _) => r == if map.contains_key((node, n)) {
                seq![map[(node, n)]]
            } else {
                Seq::empty()
            },
            UseSegment::Glob => {
                &&& forall|i: int|
                    0 <= i < r.len() ==> (#[trigger] key_of(r[i])).0 == node && map.contains_key(
                        key_of(r[i]),
                    ) && map[key_of(r[i])] == r[i]
                &&& forall|k: (Seq<Segment>, Seq<char>)|
                    map.contains_key(k) && k.0 == node ==> exists|i: int|
                        0 <= i < r.len() && #[trigger] key_of(r[i]) == k
                &&& keys_unique(r)
            },
            UseSegment::Empty => r.len() == 0,
        },
    }
}

/// An item tree for one kind of item: every item filed under its module and
/// its name.
pub struct ItemTree<'t, T> {
    entries: Vec<&'t T>,
}

impl<'t, T: TreeItem> ItemTree<'t, T> {
    /// The entries: identifiers-only modules, one entry per key.
    pub closed spec fn wf(&self) -> bool {
        &&& keys_unique(self.entries@.map_values(|e: &T| *e))
        &&& forall|i: int| 0 <= i < self.entries@.len() ==> all_names(#[trigger] self.entries@[i].spec_module())
    }

    /// The items of the tree by key.
    pub closed spec fn spec_map(&self) -> Map<(Seq<Segment>, Seq<char>), T> {
        entries_map(self.entries@.map_values(|e: &T| *e))
    }

    /// Builds the tree of `items`, inserted in order.
    pub fn new(items: &'t [T]) -> (r: Self)
        requires
            forall|i: int| 0 <= i < items@.len() ==> all_names(#[trigger] items@[i].spec_module()),
        ensures
            r.wf(),
            r.spec_map() == tree_map(items@),
    {
        let mut tree = ItemTree { entries: Vec::new() };
        assert(tree.spec_map() =~= tree_map(items@.take(0)));
        let mut i: usize = 0;
        while i < items.len()
            invariant
                i <= items@.len(),
                tree.wf(),
                tree.spec_map() == tree_map(items@.take(i as int)),
                forall|j: int| 0 <= j < items@.len() ==> all_names(#[trigger] items@[j].spec_module()),
            decreases items@.len() - i,
        {
            assert(items@.take(i + 1).drop_last() =~= items@.take(i as int));
            assert(items@.take(i + 1).last() == items@[i as int]);
            tree.add_item(&items[i]);
            i = i + 1;
        }
        assert(items@.take(i as int) =~= items@);
        tree
    }

    fn add_item(&mut self, t: &'t T)
        requires
            old(self).wf(),
            all_names(t.spec_module()),
        ensures
            final(self).wf(),
            final(self).spec_map() == old(self).spec_map().insert(key_of(*t), *t),
    {
        let ghost es = self.entries@.map_values(|e: &T| *e);
        let mut j: usize = 0;
        while j < self.entries.len()
            invariant
                j <= self.entries@.len(),
                self.entries@ == old(self).entries@,
                es == self.entries@.map_values(|e: &T| *e),
                forall|l: int| 0 <= l < j ==> key_of(#[trigger] es[l]) != key_of(*t),
                old(self).wf(),
                all_names(t.spec_module()),
            decreases self.entries@.len() - j,
        {
            let e = self.entries[j];
            if path_eq(e.module(), t.module()) && str_eq(e.name(), t.name()) {
                assert(key_of(es[j as int]) == key_of(*t));
                self.entries.set(j, t);
                proof {
                    let es2 = self.entries@.map_values(|e: &T| *e);
                    assert(es2 =~= es.update(j as int, *t));
                    assert forall|a: int, b: int|
                        0 <= a < es2.len() && 0 <= b < es2.len() && a != b implies key_of(
                        #[trigger] es2[a],
                    ) != key_of(#[trigger] es2[b]) by {
                        assert(key_of(es2[a]) == if a == j { key_of(es[j as int]) } else { key_of(es[a]) });
                        assert(key_of(es2[b]) == if b == j { key_of(es[j as int]) } else { key_of(es[b]) });
                    }
                    assert(entries_map(es2) =~= entries_map(es).insert(key_of(*t), *t)) by {
                        assert forall|k| #[trigger] entries_map(es2).contains_key(k) == entries_map(es).insert(key_of(*t), *t).contains_key(k) by {
                            if exists|i: int| 0 <= i < es2.len() && key_of(es2[i]) == k {
                                let i = choose|i: int| 0 <= i < es2.len() && key_of(es2[i]) == k;
                                if i != j {
                                    assert(key_of(es[i]) == k);
                                }
                            }
                            if exists|i: int| 0 <= i < es.len() && key_of(es[i]) == k {
                                let i = choose|i: int| 0 <= i < es.len() && key_of(es[i]) == k;
                                assert(key_of(es2[i]) == k);
                            }
                        }
                        assert forall|k| #[trigger] entries_map(es2).contains_key(k) implies entries_map(es2)[k] == entries_map(es).insert(key_of(*t), *t)[k] by {
                            let i = choose|i: int| 0 <= i < es2.len() && key_of(es2[i]) == k;
                            if k == key_of(*t) {
                                assert(key_of(es2[j as int]) == k);
                            } else {
                                let i1 = choose|i: int| 0 <= i < es.len() && key_of(es[i]) == k;
                                assert(key_of(es2[i1]) == k);
                            }
                        }
                    }
                    assert forall|l: int| 0 <= l < self.entries@.len() implies all_names(#[trigger] self.entries@[l].spec_module()) by {
                        if l != j {
                            assert(self.entries@[l] == old(self).entries@[l]);
                        }
                    }
                }
                return;
            }
            j = j + 1;
        }
        self.entries.push(t);
        proof {
            let es2 = self.entries@.map_values(|e: &T| *e);
            assert(es2 =~= es.push(*t));
            assert forall|a: int, b: int|
                0 <= a < es2.len() && 0 <= b < es2.len() && a != b implies key_of(
                #[trigger] es2[a],
            ) != key_of(#[trigger] es2[b]) by {
                if a < es.len() {
                    assert(es2[a] == es[a]);
                }
                if b < es.len() {
                    assert(es2[b] == es[b]);
                }
            }
            assert(entries_map(es2) =~= entries_map(es).insert(key_of(*t), *t)) by {
                assert forall|k| #[trigger] entries_map(es2).contains_key(k) == entries_map(es).insert(key_of(*t), *t).contains_key(k) by {
                    if exists|i: int| 0 <= i < es2.len() && key_of(es2[i]) == k {
                        let i = choose|i: int| 0 <= i < es2.len() && key_of(es2[i]) == k;
                        if i < es.len() {
                            assert(es2[i] == es[i]);
                        }
                    }
                    if exists|i: int| 0 <= i < es.len() && key_of(es[i]) == k {
                        let i = choose|i: int| 0 <= i < es.len() && key_of(es[i]) == k;
                        assert(es2[i] == es[i]);
                    }
                    if k == key_of(*t) {
                        assert(key_of(es2[es.len() as int]) == k);
                    }
                }
                assert forall|k| #[trigger] entries_map(es2).contains_key(k) implies entries_map(es2)[k] == entries_map(es).insert(key_of(*t), *t)[k] by {
                    let i = choose|i: int| 0 <= i < es2.len() && key_of(es2[i]) == k;
                    if k == key_of(*t) {
                        assert(key_of(es2[es.len() as int]) == k);
                    } else {
                        assert(i < es.len());
                        assert(es2[i] == es[i]);
                        let i1 = choose|i: int| 0 <= i < es.len() && key_of(es[i]) == k;
                        assert(es2[i1] == es[i1]);
                    }
                }
            }
            assert forall|l: int| 0 <= l < self.entries@.len() implies all_names(#[trigger] self.entries@[l].spec_module()) by {
                if l < old(self).entries@.len() {
                    assert(self.entries@[l] == old(self).entries@[l]);
                }
            }
        }
    }
}

/// The module that `use_path` designates below `start`, if there is one.
pub fn target_node_of(use_path: &UsePath, start: &Path) -> (r: Option<Path>)
    ensures
        match r {
            Some(p) => target_node(start@, use_path@) == Some(p@),
            None => target_node(start@, use_path@) is None,
        },
{
    let comps = use_path.components();
    let ghost up = use_path@;
    if comps.len() == 0 || !start.is_qualified() {
        return None;
    }
    let mut node = start.clone();
    let n = comps.len();
    let mut i: usize = 0;
    while i + 1 < n
        invariant
            n == comps@.len(),
            n > 0,
            i + 1 <= n,
            up == comps@.map_values(|c: UsePathComponent| c@),
            up == use_path@,
            all_names(start@),
            forall|l: int| 0 <= l < i ==> (#[trigger] up[l]) is Name,
            node@ == start@ + up.take(i as int).map_values(
                |s: UseSegment| Segment::Name(s->Name_0),
            ),
        decreases n - i,
    {
        match comps[i].as_name() {
            Some(name) => {
                node.push_name(name.clone());
                assert(node@ =~= start@ + up.take(i + 1).map_values(
                    |s: UseSegment| Segment::Name(s->Name_0),
                ));
            },
            None => {
                assert(up[i as int] == comps@[i as int]@);
                assert(!prefix_all_names(up));
                return None;
            },
        }
        i = i + 1;
    }
    assert(up.take(i as int) =~= up.drop_last());
    Some(node)
}

impl<'t, T: TreeItem> ItemTree<'t, T> {
    proof fn lemma_map_at(&self, i: int)
        requires
            self.wf(),
            0 <= i < self.entries@.len(),
        ensures
            self.spec_map().contains_key(key_of(*self.entries@[i])),
            self.spec_map()[key_of(*self.entries@[i])] == *self.entries@[i],
    {
        let es = self.entries@.map_values(|e: &T| *e);
        assert(es[i] == *self.entries@[i]);
        let k = key_of(es[i]);
        let c = choose|c: int| 0 <= c < es.len() && key_of(es[c]) == k;
        assert(c == i);
    }

    /// The items that `use_path`, resolved from the module `start_mod`, binds
    /// in this tree.
    pub fn resolve_use_path(&self, use_path: &UsePath, start_mod: &Path) -> (r: Vec<&'t T>)
        requires
            self.wf(),
        ensures
            resolves_to(self.spec_map(), start_mod@, use_path@, r@.map_values(|e: &T| *e)),
    {
        let mut out: Vec<&'t T> = Vec::new();
        let comps = use_path.components();
        let ghost up = use_path@;
        assert(comps@.map_values(|c: UsePathComponent| c@) == up);
        if comps.len() == 0 || !start_mod.is_qualified() {
            assert(out@.map_values(|e: &T| *e) =~= Seq::<T>::empty());
            return out;
        }
        let mut node = start_mod.clone();
        let n = comps.len();
        let mut i: usize = 0;
        while i + 1 < n
            invariant
                n == comps@.len(),
                n > 0,
                i + 1 <= n,
                up == comps@.map_values(|c: UsePathComponent| c@),
                up == use_path@,
                forall|l: int| 0 <= l < i ==> (#[trigger] up[l]) is Name,
                out@.len() == 0,
                node@ == start_mod@ + up.take(i as int).map_values(
                    |s: UseSegment| Segment::Name(s->Name_0),
                ),
            decreases n - i,
        {
            match comps[i].as_name() {
                Some(name) => {
                    node.push_name(name.clone());
                    assert(node@ =~= start_mod@ + up.take(i + 1).map_values(
                        |s: UseSegment| Segment::Name(s->Name_0),
                    ));
                },
                None => {
                    assert(up[i as int] == comps@[i as int]@);
                    assert(!prefix_all_names(up));
                    assert(target_node(start_mod@, up) is None);
                    assert(out@.map_values(|e: &T| *e) =~= Seq::<T>::empty());
                    return out;
                },
            }
            i = i + 1;
        }
        assert(up.take(i as int) =~= up.drop_last());
        assert(prefix_all_names(up));
        assert(target_node(start_mod@, up) == Some(node@));
        let ghost es = self.entries@.map_values(|e: &T| *e);
        assert(up.last() == comps@[n - 1]@);
        let wanted: Option<&String> = match &comps[n - 1] {
            UsePathComponent::Name(name) => Some(name),
            UsePathComponent::Rename(name, _) => Some(name),
            _ => None,
        };
        assert(wanted matches Some(w) ==> (up.last() == UseSegment::Name(w@) || (up.last() is Rename
            && up.last()->Rename_0 == w@)));
        assert(wanted is None ==> !(up.last() is Name) && !(up.last() is Rename));
        match wanted {
            Some(name) => {
                let mut j: usize = 0;
                while j < self.entries.len()
                    invariant
                        j <= self.entries@.len(),
                        self.wf(),
                        es == self.entries@.map_values(|e: &T| *e),
                        out@.len() == 0,
                        up == use_path@,
                        target_node(start_mod@, up) == Some(node@),
                        up.last() == UseSegment::Name(name@) || (up.last() is Rename
                            && up.last()->Rename_0 == name@),
                        forall|l: int| 0 <= l < j ==> key_of(#[trigger] es[l]) != (node@, name@),
                    decreases self.entries@.len() - j,
                {
                    let e = self.entries[j];
                    if path_eq(e.module(), &node) && str_eq(e.name(), name.as_str()) {
                        proof {
                            self.lemma_map_at(j as int);
                        }
                        assert(key_of(*self.entries@[j as int]) == (node@, name@));
                        assert(self.spec_map().contains_key((node@, name@)));
                        out.push(e);
                        assert(out@.map_values(|e: &T| *e) =~= seq![self.spec_map()[(node@, name@)]]);
                        return out;
                    }
                    j = j + 1;
                }
                assert(!self.spec_map().contains_key((node@, name@)));
                assert(out@.map_values(|e: &T| *e) =~= Seq::<T>::empty());
                out
            },
            None => {
                if let UsePathComponent::Glob = &comps[n - 1] {
                    let ghost idx: Seq<int> = Seq::empty();
                    let mut j: usize = 0;
                    while j < self.entries.len()
                        invariant
                            j <= self.entries@.len(),
                            self.wf(),
                            es == self.entries@.map_values(|e: &T| *e),
                            idx.len() == out@.len(),
                            up == use_path@,
                            target_node(start_mod@, up) == Some(node@),
                            up.last() == UseSegment::Glob,
                            forall|a: int| 0 <= a < idx.len() ==> 0 <= #[trigger] idx[a] < j,
                            forall|a: int, b: int| 0 <= a < b < idx.len() ==> #[trigger] idx[a] < #[trigger] idx[b],
                            forall|a: int| 0 <= a < idx.len() ==> *out@[a] == es[#[trigger] idx[a]]
                                && es[idx[a]].spec_module() == node@,
                            forall|l: int| 0 <= l < j && (#[trigger] es[l]).spec_module() == node@
                                ==> exists|a: int| 0 <= a < idx.len() && idx[a] == l,
                        decreases self.entries@.len() - j,
                    {
                        let e = self.entries[j];
                        if path_eq(e.module(), &node) {
                            out.push(e);
                            proof {
                                let ghost old_idx = idx;
                                idx = idx.push(j as int);
                                assert forall|l: int| 0 <= l < j + 1 && (#[trigger] es[l]).spec_module() == node@
                                    implies exists|a: int| 0 <= a < idx.len() && idx[a] == l by {
                                    if l == j {
                                        assert(idx[idx.len() - 1] == l);
                                    } else {
                                        let a = choose|a: int| 0 <= a < old_idx.len() && old_idx[a] == l;
                                        assert(idx[a] == l);
                                    }
                                }
                            }
                        }
                        j = j + 1;
                    }
                    proof {
                        let rs = out@.map_values(|e: &T| *e);
                        let m = self.spec_map();
                        assert forall|a: int| 0 <= a < rs.len() implies (#[trigger] key_of(rs[a])).0 == node@
                            && m.contains_key(key_of(rs[a])) && m[key_of(rs[a])] == rs[a] by {
                            assert(rs[a] == *out@[a]);
                            assert(es[idx[a]] == *self.entries@[idx[a]]);
                            self.lemma_map_at(idx[a]);
                        }
                        assert forall|k: (Seq<Segment>, Seq<char>)| m.contains_key(k) && k.0 == node@
                            implies exists|a: int| 0 <= a < rs.len() && #[trigger] key_of(rs[a]) == k by {
                            let l = choose|l: int| 0 <= l < es.len() && key_of(es[l]) == k;
                            assert(es[l].spec_module() == node@);
                            let a = choose|a: int| 0 <= a < idx.len() && idx[a] == l;
                            assert(rs[a] == *out@[a]);
                            assert(key_of(rs[a]) == k);
                        }
                        assert forall|a: int, b: int| 0 <= a < rs.len() && 0 <= b < rs.len() && a != b
                            implies key_of(#[trigger] rs[a]) != key_of(#[trigger] rs[b]) by {
                            assert(rs[a] == es[idx[a]]);
                            assert(rs[b] == es[idx[b]]);
                            if a < b {
                                assert(idx[a] < idx[b]);
                            } else {
                                assert(idx[b] < idx[a]);
                            }
                        }
                    }
                    out
                } else {
                    assert(out@.map_values(|e: &T| *e) =~= Seq::<T>::empty());
                    out
                }
            },
        }
    }
}

proof fn lemma_tree_map_unique<T: TreeItem>(s: Seq<T>)
    requires
        keys_unique(s),
    ensures
        tree_map(s) == entries_map(s),
    decreases s.len(),
{
    if s.len() == 0 {
        assert(tree_map(s) =~= entries_map(s));
    } else {
        let p = s.drop_last();
        let t = s.last();
        let n = s.len() - 1;
        assert(keys_unique(p)) by {
            assert forall|i: int, j: int|
                0 <= i < p.len() && 0 <= j < p.len() && i != j implies key_of(#[trigger] p[i])
                != key_of(#[trigger] p[j]) by {
                assert(p[i] == s[i] && p[j] == s[j]);
            }
        }
        lemma_tree_map_unique(p);
        let em = entries_map(p).insert(key_of(t), t);
        assert forall|k| #[trigger] entries_map(s).contains_key(k) == em.contains_key(k) by {
            if exists|i: int| 0 <= i < s.len() && key_of(s[i]) == k {
                let i = choose|i: int| 0 <= i < s.len() && key_of(s[i]) == k;
                if i < n {
                    assert(p[i] == s[i]);
                }
            }
            if exists|i: int| 0 <= i < p.len() && key_of(p[i]) == k {
                let i = choose|i: int| 0 <= i < p.len() && key_of(p[i]) == k;
                assert(p[i] == s[i]);
            }
            if k == key_of(t) {
                assert(key_of(s[n]) == k);
            }
        }
        assert forall|k| #[trigger] entries_map(s).contains_key(k) implies entries_map(s)[k] == em[k] by {
            let i = choose|i: int| 0 <= i < s.len() && key_of(s[i]) == k;
            if k == key_of(t) {
                assert(key_of(s[n]) == k);
            } else {
                assert(i != n);
                assert(p[i] == s[i]);
                let i1 = choose|i: int| 0 <= i < p.len() && key_of(p[i]) == k;
                assert(p[i1] == s[i1]);
            }
        }
        assert(entries_map(s) =~= em);
    }
}

/// Inserting the same items into a tree in another order gives the same
/// tree, provided no two items share a module and a name (otherwise the
/// last one inserted wins, and the order matters).
pub proof fn lemma_insertion_order_irrelevant<T: TreeItem>(a: Seq<T>, b: Seq<T>)
    requires
        keys_unique(a),
        keys_unique(b),
        a.to_multiset() == b.to_multiset(),
    ensures
        tree_map(a) == tree_map(b),
{
    lemma_tree_map_unique(a);
    lemma_tree_map_unique(b);
    assert forall|k| #[trigger] entries_map(a).contains_key(k) == entries_map(b).contains_key(k) by {
        if exists|i: int| 0 <= i < a.len() && key_of(a[i]) == k {
            let i = choose|i: int| 0 <= i < a.len() && key_of(a[i]) == k;
            let x = a[i];
            assert(a.contains(x));
            vstd::seq_lib::to_multiset_contains(a, x);
            vstd::seq_lib::to_multiset_contains(b, x);
            let j = choose|j: int| 0 <= j < b.len() && b[j] == x;
            assert(key_of(b[j]) == k);
        }
        if exists|i: int| 0 <= i < b.len() && key_of(b[i]) == k {
            let i = choose|i: int| 0 <= i < b.len() && key_of(b[i]) == k;
            let x = b[i];
            assert(b.contains(x));
            vstd::seq_lib::to_multiset_contains(a, x);
            vstd::seq_lib::to_multiset_contains(b, x);
            let j = choose|j: int| 0 <= j < a.len() && a[j] == x;
            assert(key_of(a[j]) == k);
        }
    }
    assert forall|k| #[trigger] entries_map(a).contains_key(k) implies entries_map(a)[k]
        == entries_map(b)[k] by {
        let ia = choose|i: int| 0 <= i < a.len() && key_of(a[i]) == k;
        let jb = choose|i: int| 0 <= i < b.len() && key_of(b[i]) == k;
        let x = b[jb];
        assert(b.contains(x));
        vstd::seq_lib::to_multiset_contains(a, x);
        vstd::seq_lib::to_multiset_contains(b, x);
        let i1 = choose|i: int| 0 <= i < a.len() && a[i] == x;
        assert(key_of(a[i1]) == k);
        assert(i1 == ia);
    }
    assert(entries_map(a) =~= entries_map(b));
}

/// Resolving a glob in a tree built from items with distinct keys yields
/// exactly the items declared directly in the designated module, and
/// nothing from the modules below it.
pub proof fn lemma_glob_returns_direct_items<T: TreeItem>(
    items: Seq<T>,
    start: Seq<Segment>,
    use_path: Seq<UseSegment>,
    node: Seq<Segment>,
    r: Seq<T>,
)
    requires
        keys_unique(items),
        use_path.len() > 0,
        use_path.last() == UseSegment::Glob,
        target_node(start, use_path) == Some(node),
        resolves_to(tree_map(items), start, use_path, r),
    ensures
        forall|x: T| r.contains(x) <==> (items.contains(x) && x.spec_module() == node),
        keys_unique(r),
{
    lemma_tree_map_unique(items);
    let m = tree_map(items);
    assert forall|x: T| r.contains(x) <==> (items.contains(x) && x.spec_module() == node) by {
        if r.contains(x) {
            let a = choose|a: int| 0 <= a < r.len() && r[a] == x;
            assert(key_of(r[a]).0 == node);
            assert(m.contains_key(key_of(r[a])) && m[key_of(r[a])] == r[a]);
            let c = choose|i: int| 0 <= i < items.len() && key_of(items[i]) == key_of(x);
            assert(items[c] == x);
            assert(items.contains(x));
        }
        if items.contains(x) && x.spec_module() == node {
            let i = choose|i: int| 0 <= i < items.len() && items[i] == x;
            assert(key_of(items[i]) == key_of(x));
            assert(m.contains_key(key_of(x)));
            let a = choose|a: int| 0 <= a < r.len() && #[trigger] key_of(r[a]) == key_of(x);
            let c = choose|c: int| 0 <= c < items.len() && key_of(items[c]) == key_of(x);
            assert(c == i);
            assert(r[a] == x);
        }
    }
}

/// A `use` path of one segment is resolved in the start module itself.
pub proof fn lemma_single_segment_at_start(start: Seq<Segment>, use_path: Seq<UseSegment>)
    requires
        use_path.len() == 1,
        all_names(start),
    ensures
        target_node(start, use_path) == Some(start),
{
    assert(use_path.drop_last().map_values(|s: UseSegment| Segment::Name(s->Name_0)) =~= Seq::<
        Segment,
    >::empty());
    assert(start + Seq::<Segment>::empty() =~= start);
}

} // verus!
