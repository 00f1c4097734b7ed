//! Configuration predicates (`cfg(...)` expressions) and their evaluation.
use vstd::prelude::*;

use crate::text::str_eq;

verus! {

broadcast use vstd::std_specs::vec::axiom_vec_decreases_to_view;

/// A configuration option, as a mathematical value.
pub enum CfgView {
    Value(Seq<char>),
    KeyValue(Seq<char>, Seq<char>),
}

/// A configuration option: a name (`unix`) or a key and a value
/// (`target_os = "linux"`).
#[derive(Debug)]
pub enum Cfg {
    Value(String),
    KeyValue(String, String),
}

impl View for Cfg {
    type V = CfgView;

    open spec fn view(&self) -> CfgView {
        match self {
            Cfg::Value(v) => CfgView::Value(v@),
            Cfg::KeyValue(k, v) => CfgView::KeyValue(k@, v@),
        }
    }
}

impl Cfg {
    /// The option named `value`.
    pub fn value(value: &str) -> (r: Cfg)
        ensures
            r@ == CfgView::Value(value@),
    {
        Cfg::Value(String::from_str(value))
    }

    /// The option `key = "value"`.
    pub fn key_value(key: &str, value: &str) -> (r: Cfg)
        ensures
            r@ == CfgView::KeyValue(key@, value@),
    {
        Cfg::KeyValue(String::from_str(key), String::from_str(value))
    }

    /// Whether two options are the same.
    pub fn same(&self, other: &Cfg) -> (r: bool)
        ensures
            r == (self@ == other@),
    {
        match (self, other) {
            (Cfg::Value(a), Cfg::Value(b)) => str_eq(a.as_str(), b.as_str()),
            (Cfg::KeyValue(k1, v1), Cfg::KeyValue(k2, v2)) => str_eq(k1.as_str(), k2.as_str())
                && str_eq(v1.as_str(), v2.as_str()),
            _ => false,
        }
    }
}

/// A configuration predicate.
#[derive(Debug)]
pub enum CfgExpr {
    Not(Box<CfgExpr>),
    All(Vec<CfgExpr>),
    Any(Vec<CfgExpr>),
    Value(Cfg),
}

/// A target platform: by its name, or by a predicate on its configuration.
#[derive(Debug)]
pub enum Platform {
    Name(String),
    CfgExpr(CfgExpr),
}

/// Whether the predicate `e` holds of a configuration in which exactly the
/// options `cfg` are set.
pub open spec fn holds_in(e: CfgExpr, cfg: Seq<CfgView>) -> bool
    decreases e,
{
    match e {
        CfgExpr::Not(x) => !holds_in(*x, cfg),
        CfgExpr::All(v) => all_hold_in(v@, cfg),
        CfgExpr::Any(v) => any_holds_in(v@, cfg),
        CfgExpr::Value(c) => cfg.contains(c@),
    }
}

/// Whether every predicate of `es` holds of `cfg`.
pub open spec fn all_hold_in(es: Seq<CfgExpr>, cfg: Seq<CfgView>) -> bool
    decreases es,
{
    if es.len() == 0 {
        true
    } else {
        all_hold_in(es.drop_last(), cfg) && holds_in(es.last(), cfg)
    }
}

/// Whether some predicate of `es` holds of `cfg`.
pub open spec fn any_holds_in(es: Seq<CfgExpr>, cfg: Seq<CfgView>) -> bool
    decreases es,
{
    if es.len() == 0 {
        false
    } else {
        any_holds_in(es.drop_last(), cfg) || holds_in(es.last(), cfg)
    }
}

/// Whether the predicate `me` satisfies the predicate `ot`: `ot` is read as
/// a formula whose atoms are options, an atom holding when `me` holds of a
/// configuration with that option alone.
pub open spec fn satisfies(me: CfgExpr, ot: CfgExpr) -> bool
    decreases ot,
{
    match ot {
        CfgExpr::Not(x) => !satisfies(me, *x),
        CfgExpr::All(v) => all_satisfied(me, v@),
        CfgExpr::Any(v) => any_satisfied(me, v@),
        CfgExpr::Value(c) => holds_in(me, seq![c@]),
    }
}

pub open spec fn all_satisfied(me: CfgExpr, es: Seq<CfgExpr>) -> bool
    decreases es,
{
    if es.len() == 0 {
        true
    } else {
        all_satisfied(me, es.drop_last()) && satisfies(me, es.last())
    }
}

pub open spec fn any_satisfied(me: CfgExpr, es: Seq<CfgExpr>) -> bool
    decreases es,
{
    if es.len() == 0 {
        false
    } else {
        any_satisfied(me, es.drop_last()) || satisfies(me, es.last())
    }
}

fn contains_cfg(cfg: &[Cfg], c: &Cfg) -> (r: bool)
    ensures
        r == cfg@.map_values(|x: Cfg| x@).contains(c@),
{
    let ghost vs = cfg@.map_values(|x: Cfg| x@);
    let mut i: usize = 0;
    while i < cfg.len()
        invariant
            i <= cfg@.len(),
            vs == cfg@.map_values(|x: Cfg| x@),
            forall|j: int| 0 <= j < i ==> vs[j] != c@,
        decreases cfg@.len() - i,
    {
        if cfg[i].same(c) {
            assert(vs[i as int] == c@);
            return true;
        }
        i = i + 1;
    }
    false
}

impl CfgExpr {
    /// Whether the predicate holds of a configuration in which exactly the
    /// options `cfg` are set.
    pub fn is_satisfied_by_slice(&self, cfg: &[Cfg]) -> (r: bool)
        ensures
            r == holds_in(*self, cfg@.map_values(|x: Cfg| x@)),
        decreases self,
    {
        match self {
            CfgExpr::Not(e) => !e.is_satisfied_by_slice(cfg),
            CfgExpr::All(es) => {
                let mut i: usize = 0;
                while i < es.len()
                    invariant
                        *self is All,
                        self->All_0 == *es,
                        i <= es@.len(),
                        all_hold_in(es@.take(i as int), cfg@.map_values(|x: Cfg| x@)),
                    decreases es@.len() - i,
                {
                    proof {
                        assert(decreases_to!(*self => self->All_0));
                        assert(decreases_to!(*es => es@));
                        assert(decreases_to!(es@ => es@[i as int]));
                        assert(es@.take(i + 1).drop_last() =~= es@.take(i as int));
                        assert(es@.take(i + 1).last() == es@[i as int]);
                    }
                    if !es[i].is_satisfied_by_slice(cfg) {
                        proof {
                            lemma_all_prefix(es@, i + 1, cfg@.map_values(|x: Cfg| x@));
                        }
                        return false;
                    }
                    i = i + 1;
                }
                assert(es@.take(i as int) =~= es@);
                true
            },
            CfgExpr::Any(es) => {
                let mut i: usize = 0;
                while i < es.len()
                    invariant
                        *self is Any,
                        self->Any_0 == *es,
                        i <= es@.len(),
                        !any_holds_in(es@.take(i as int), cfg@.map_values(|x: Cfg| x@)),
                    decreases es@.len() - i,
                {
                    proof {
                        assert(decreases_to!(*self => self->Any_0));
                        assert(decreases_to!(*es => es@));
                        assert(decreases_to!(es@ => es@[i as int]));
                        assert(es@.take(i + 1).drop_last() =~= es@.take(i as int));
                        assert(es@.take(i + 1).last() == es@[i as int]);
                    }
                    if es[i].is_satisfied_by_slice(cfg) {
                        proof {
                            lemma_any_prefix(es@, i + 1, cfg@.map_values(|x: Cfg| x@));
                        }
                        return true;
                    }
                    i = i + 1;
                }
                assert(es@.take(i as int) =~= es@);
                false
            },
            CfgExpr::Value(c) => contains_cfg(cfg, c),
        }
    }

    /// Whether this predicate satisfies `ot`, read as `satisfies` says.
    pub fn is_satisfied_by(&self, ot: &Self) -> (r: bool)
        ensures
            r == satisfies(*self, *ot),
        decreases ot,
    {
        match ot {
            CfgExpr::Not(e) => !self.is_satisfied_by(e),
            CfgExpr::All(es) => {
                let mut i: usize = 0;
                while i < es.len()
                    invariant
                        *ot is All,
                        ot->All_0 == *es,
                        i <= es@.len(),
                        all_satisfied(*self, es@.take(i as int)),
                    decreases es@.len() - i,
                {
                    proof {
                        assert(decreases_to!(*ot => ot->All_0));
                        assert(decreases_to!(*es => es@));
                        assert(decreases_to!(es@ => es@[i as int]));
                        assert(es@.take(i + 1).drop_last() =~= es@.take(i as int));
                        assert(es@.take(i + 1).last() == es@[i as int]);
                    }
                    if !self.is_satisfied_by(&es[i]) {
                        proof {
                            lemma_all_satisfied_prefix(*self, es@, i + 1);
                        }
                        return false;
                    }
                    i = i + 1;
                }
                assert(es@.take(i as int) =~= es@);
                true
            },
            CfgExpr::Any(es) => {
                let mut i: usize = 0;
                while i < es.len()
                    invariant
                        *ot is Any,
                        ot->Any_0 == *es,
                        i <= es@.len(),
                        !any_satisfied(*self, es@.take(i as int)),
                    decreases es@.len() - i,
                {
                    proof {
                        assert(decreases_to!(*ot => ot->Any_0));
                        assert(decreases_to!(*es => es@));
                        assert(decreases_to!(es@ => es@[i as int]));
                        assert(es@.take(i + 1).drop_last() =~= es@.take(i as int));
                        assert(es@.take(i + 1).last() == es@[i as int]);
                    }
                    if self.is_satisfied_by(&es[i]) {
                        proof {
                            lemma_any_satisfied_prefix(*self, es@, i + 1);
                        }
                        return true;
                    }
                    i = i + 1;
                }
                assert(es@.take(i as int) =~= es@);
                false
            },
            CfgExpr::Value(c) => self.holds_with(c),
        }
    }

    fn holds_with(&self, c: &Cfg) -> (r: bool)
        ensures
            r == holds_in(*self, seq![c@]),
    {
        let mut v: Vec<Cfg> = Vec::new();
        v.push(copy_cfg(c));
        assert(v@.map_values(|x: Cfg| x@) =~= seq![c@]);
        self.is_satisfied_by_slice(v.as_slice())
    }
}

fn copy_cfg(c: &Cfg) -> (r: Cfg)
    ensures
        r@ == c@,
{
    match c {
        Cfg::Value(v) => Cfg::Value(v.clone()),
        Cfg::KeyValue(k, v) => Cfg::KeyValue(k.clone(), v.clone()),
    }
}

proof fn lemma_all_prefix(es: Seq<CfgExpr>, k: int, cfg: Seq<CfgView>)
    requires
        0 < k <= es.len(),
        !holds_in(es[k - 1], cfg),
    ensures
        !all_hold_in(es, cfg),
    decreases es.len(),
{
    if k < es.len() {
        assert(es.drop_last()[k - 1] == es[k - 1]);
        lemma_all_prefix(es.drop_last(), k, cfg);
    }
}

proof fn lemma_any_prefix(es: Seq<CfgExpr>, k: int, cfg: Seq<CfgView>)
    requires
        0 < k <= es.len(),
        holds_in(es[k - 1], cfg),
    ensures
        any_holds_in(es, cfg),
    decreases es.len(),
{
    if k < es.len() {
        assert(es.drop_last()[k - 1] == es[k - 1]);
        lemma_any_prefix(es.drop_last(), k, cfg);
    }
}

proof fn lemma_all_satisfied_prefix(me: CfgExpr, es: Seq<CfgExpr>, k: int)
    requires
        0 < k <= es.len(),
        !satisfies(me, es[k - 1]),
    ensures
        !all_satisfied(me, es),
    decreases es.len(),
{
    if k < es.len() {
        assert(es.drop_last()[k - 1] == es[k - 1]);
        lemma_all_satisfied_prefix(me, es.drop_last(), k);
    }
}

proof fn lemma_any_satisfied_prefix(me: CfgExpr, es: Seq<CfgExpr>, k: int)
    requires
        0 < k <= es.len(),
        satisfies(me, es[k - 1]),
    ensures
        any_satisfied(me, es),
    decreases es.len(),
{
    if k < es.len() {
        assert(es.drop_last()[k - 1] == es[k - 1]);
        lemma_any_satisfied_prefix(me, es.drop_last(), k);
    }
}

/// The configuration of a 64-bit x86 Linux machine with the GNU toolchain.
pub fn dev_cfg_expr() -> (r: CfgExpr)
    ensures
        r matches CfgExpr::All(v) && v@.map_values(|e: CfgExpr| e->Value_0@) == seq![
            CfgView::KeyValue("target_arch"@, "x86_64"@),
            CfgView::KeyValue("target_feature"@, "fxsr"@),
            CfgView::KeyValue("target_feature"@, "sse"@),
            CfgView::KeyValue("target_feature"@, "sse2"@),
            CfgView::KeyValue("target_os"@, "linux"@),
            CfgView::KeyValue("target_family"@, "unix"@),
            CfgView::KeyValue("target_env"@, "gnu"@),
            CfgView::KeyValue("target_endian"@, "little"@),
            CfgView::KeyValue("target_pointer_width"@, "64"@),
            CfgView::KeyValue("target_vendor"@, "unknown"@),
        ] && forall|i: int| 0 <= i < v@.len() ==> (#[trigger] v@[i]) is Value,
{
    let mut v: Vec<CfgExpr> = Vec::new();
    v.push(CfgExpr::Value(Cfg::key_value("target_arch", "x86_64")));
    v.push(CfgExpr::Value(Cfg::key_value("target_feature", "fxsr")));
    v.push(CfgExpr::Value(Cfg::key_value("target_feature", "sse")));
    v.push(CfgExpr::Value(Cfg::key_value("target_feature", "sse2")));
    v.push(CfgExpr::Value(Cfg::key_value("target_os", "linux")));
    v.push(CfgExpr::Value(Cfg::key_value("target_family", "unix")));
    v.push(CfgExpr::Value(Cfg::key_value("target_env", "gnu")));
    v.push(CfgExpr::Value(Cfg::key_value("target_endian", "little")));
    v.push(CfgExpr::Value(Cfg::key_value("target_pointer_width", "64")));
    v.push(CfgExpr::Value(Cfg::key_value("target_vendor", "unknown")));
    assert(v@.map_values(|e: CfgExpr| e->Value_0@) =~= seq![
        CfgView::KeyValue("target_arch"@, "x86_64"@),
        CfgView::KeyValue("target_feature"@, "fxsr"@),
        CfgView::KeyValue("target_feature"@, "sse"@),
        CfgView::KeyValue("target_feature"@, "sse2"@),
        CfgView::KeyValue("target_os"@, "linux"@),
        CfgView::KeyValue("target_family"@, "unix"@),
        CfgView::KeyValue("target_env"@, "gnu"@),
        CfgView::KeyValue("target_endian"@, "little"@),
        CfgView::KeyValue("target_pointer_width"@, "64"@),
        CfgView::KeyValue("target_vendor"@, "unknown"@),
    ]);
    CfgExpr::All(v)
}

/// The name of the platform that `dev_cfg_expr` describes.
pub fn dev_platform_name() -> (r: String)
    ensures
        r@ == "x86_64-unknown-linux-gnu"@,
{
    String::from_str("x86_64-unknown-linux-gnu")
}

} // verus!
