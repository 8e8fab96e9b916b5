//! Folding independently extracted namespace trees into one, first seen wins.
use vstd::prelude::*;
use crate::schema::{
    Class, ClassV, Const, ConstV, Enum, EnumV, Function, FunctionV, Global, GlobalV, Namespace,
    NamespaceV, TypeAlias, TypeAliasV, views, lemma_views_push, lemma_namespace_children,
};

verus! {

/// A value that carries a name, by which merging identifies it.
pub trait Named: View + Sized {
    spec fn key(v: Self::V) -> Seq<char>;

    fn name_ref(&self) -> (r: &String)
        ensures
            r@ == Self::key(self@),
    ;
}

/// Whether some entry of `s` carries the name `n`.
pub open spec fn has_named<T>(s: Seq<T>, key: spec_fn(T) -> Seq<char>, n: Seq<char>) -> bool {
    exists|i: int| 0 <= i < s.len() && key(s[i]) == n
}

/// `src` appended to `dst` entry by entry, each one only if no entry that
/// is already there carries its name.
pub open spec fn add_missing<T>(dst: Seq<T>, src: Seq<T>, key: spec_fn(T) -> Seq<char>) -> Seq<T>
    decreases src.len(),
{
    if src.len() == 0 {
        dst
    } else {
        let d = add_missing(dst, src.drop_last(), key);
        if has_named(d, key, key(src.last())) {
            d
        } else {
            d.push(src.last())
        }
    }
}

fn contains_named<T: Named>(s: &Vec<T>, n: &String) -> (r: bool)
    ensures
        r == has_named(views(s@), |v: T::V| T::key(v), n@),
{
    let mut i: usize = 0;
    while i < s.len()
        invariant
            i <= s.len(),
            forall|k: int| 0 <= k < i ==> T::key(#[trigger] s@[k]@) != n@,
        decreases s.len() - i,
    {
        if *s[i].name_ref() == *n {
            assert(views(s@)[i as int] == s@[i as int]@);
            return true;
        }
        i = i + 1;
    }
    proof {
        assert forall|k: int| 0 <= k < views(s@).len() implies T::key(#[trigger] views(s@)[k]) != n@ by {
            assert(views(s@)[k] == s@[k]@);
        }
    }
    false
}

fn append_missing<T: Named>(dst: &mut Vec<T>, src: Vec<T>)
    ensures
        views(final(dst)@) == add_missing(views(old(dst)@), views(src@), |v: T::V| T::key(v)),
{
    let ghost key = |v: T::V| T::key(v);
    let ghost d0 = views(dst@);
    let ghost s0 = views(src@);
    for x in it: src
        invariant
            it.seq() == src@,
            s0 == views(src@),
            key == (|v: T::V| T::key(v)),
            views(dst@) == add_missing(d0, s0.take(it.index() as int), key),
    {
        proof {
            let k = it.index() as int;
            assert(k < it.seq().len());
            assert(x == it.seq()[k]);
            assert(s0[k] == src@[k]@);
            assert(s0.take(k + 1).drop_last() =~= s0.take(k));
            assert(s0.take(k + 1).last() == x@);
        }
        if !contains_named(dst, x.name_ref()) {
            proof { lemma_views_push(dst@, x); }
            dst.push(x);
        }
    }
    proof { assert(s0.take(s0.len() as int) =~= s0); }
}

impl Named for Const {
    open spec fn key(v: ConstV) -> Seq<char> {
        v.name
    }

    fn name_ref(&self) -> &String {
        &self.name
    }
}

impl Named for Global {
    open spec fn key(v: GlobalV) -> Seq<char> {
        v.name
    }

    fn name_ref(&self) -> &String {
        &self.name
    }
}

impl Named for Enum {
    open spec fn key(v: EnumV) -> Seq<char> {
        v.name
    }

    fn name_ref(&self) -> &String {
        &self.name
    }
}

impl Named for TypeAlias {
    open spec fn key(v: TypeAliasV) -> Seq<char> {
        v.name
    }

    fn name_ref(&self) -> &String {
        &self.name
    }
}

impl Named for Function {
    open spec fn key(v: FunctionV) -> Seq<char> {
        v.name
    }

    fn name_ref(&self) -> &String {
        &self.name
    }
}

impl Named for Class {
    open spec fn key(v: ClassV) -> Seq<char> {
        v.name
    }

    fn name_ref(&self) -> &String {
        &self.name
    }
}

/// Index of the first namespace in `s` named `n`, or -1 if there is none.
pub open spec fn first_named(s: Seq<NamespaceV>, n: Seq<char>) -> int
    decreases s.len(),
{
    if s.len() == 0 {
        -1
    } else if s[0].name == n {
        0
    } else {
        let r = first_named(s.drop_first(), n);
        if r < 0 {
            -1
        } else {
            r + 1
        }
    }
}

/// The merge of `src` into `dst`: every named collection keeps the entries
/// of `dst` and gains those of `src` whose names it does not hold yet; child
/// namespaces are merged by name.
pub open spec fn merge_view(dst: NamespaceV, src: NamespaceV) -> NamespaceV
    decreases src, 0int,
{
    NamespaceV {
        name: dst.name,
        consts: add_missing(dst.consts, src.consts, |v: ConstV| v.name),
        globals: add_missing(dst.globals, src.globals, |v: GlobalV| v.name),
        enums: add_missing(dst.enums, src.enums, |v: EnumV| v.name),
        aliases: add_missing(dst.aliases, src.aliases, |v: TypeAliasV| v.name),
        functions: add_missing(dst.functions, src.functions, |v: FunctionV| v.name),
        classes: add_missing(dst.classes, src.classes, |v: ClassV| v.name),
        namespaces: merge_children(dst.namespaces, src.namespaces),
    }
}

/// The child namespaces `src` folded into `dst` in order: one whose name is
/// already present is merged into the first namespace of that name, any
/// other is appended.
pub open spec fn merge_children(dst: Seq<NamespaceV>, src: Seq<NamespaceV>) -> Seq<NamespaceV>
    decreases src, 2int,
{
    if src.len() == 0 {
        dst
    } else {
        absorbed(merge_children(dst, src.drop_last()), src.last())
    }
}

/// `s` merged into the first namespace of `d` with its name, or appended
/// to `d` if there is none.
pub open spec fn absorbed(d: Seq<NamespaceV>, s: NamespaceV) -> Seq<NamespaceV>
    decreases s, 1int,
{
    let j = first_named(d, s.name);
    if j >= 0 {
        d.update(j, merge_view(d[j], s))
    } else {
        d.push(s)
    }
}

proof fn lemma_first_named(s: Seq<NamespaceV>, n: Seq<char>, j: int)
    requires
        0 <= j <= s.len(),
        forall|k: int| 0 <= k < j ==> (#[trigger] s[k]).name != n,
        j < s.len() ==> s[j].name == n,
    ensures
        first_named(s, n) == if j < s.len() { j } else { -1 },
        -1 <= first_named(s, n) < s.len(),
    decreases s.len(),
{
    if s.len() > 0 && j > 0 {
        assert forall|k: int| 0 <= k < j - 1 implies (#[trigger] s.drop_first()[k]).name != n by {
            assert(s.drop_first()[k] == s[k + 1]);
        }
        lemma_first_named(s.drop_first(), n, j - 1);
    }
}

fn position_named(s: &Vec<Namespace>, n: &String) -> (r: usize)
    ensures
        r <= s@.len(),
        first_named(views(s@), n@) == if r < s@.len() { r as int } else { -1 },
{
    let mut i: usize = 0;
    while i < s.len()
        invariant
            i <= s.len(),
            forall|k: int| 0 <= k < i ==> (#[trigger] views(s@)[k]).name != n@,
        decreases s.len() - i,
    {
        if s[i].name == *n {
            proof { lemma_first_named(views(s@), n@, i as int); }
            return i;
        }
        i = i + 1;
    }
    proof { lemma_first_named(views(s@), n@, i as int); }
    i
}

/// Merges `sn` into the first namespace of `children` with its name, or
/// appends it if there is none.
pub(crate) fn absorb_child(children: &mut Vec<Namespace>, sn: Namespace)
    ensures
        views(final(children)@) == absorbed(views(old(children)@), sn@),
    decreases sn, 1int,
{
    let j = position_named(children, &sn.name);
    if j < children.len() {
        let mut dn = children.remove(j);
        dn.merge(sn);
        children.insert(j, dn);
        proof {
            assert(views(children@) =~= views(old(children)@).update(j as int, dn@));
        }
    } else {
        proof { lemma_views_push(children@, sn); }
        children.push(sn);
    }
}

impl Namespace {
    /// Merges `src` into this namespace in place, first seen wins.
    pub fn merge(&mut self, src: Namespace)
        ensures
            final(self)@ == merge_view(old(self)@, src@),
        decreases src, 0int,
    {
        let ghost src0 = src;
        let ghost dst0 = self@;
        proof {
            lemma_namespace_children(*self);
            lemma_namespace_children(src);
        }
        let Namespace { name: _, consts, globals, enums, aliases, functions, classes, namespaces } = src;
        append_missing(&mut self.consts, consts);
        append_missing(&mut self.globals, globals);
        append_missing(&mut self.enums, enums);
        append_missing(&mut self.aliases, aliases);
        append_missing(&mut self.functions, functions);
        append_missing(&mut self.classes, classes);
        let ghost mid = self@;
        let ghost d0 = views(self.namespaces@);
        let ghost s0 = views(namespaces@);
        for sn in it: namespaces
            invariant
                it.seq() == src0.namespaces@,
                src0 == src,
                self@.name == mid.name,
                self@.consts == mid.consts,
                self@.globals == mid.globals,
                self@.enums == mid.enums,
                self@.aliases == mid.aliases,
                self@.functions == mid.functions,
                self@.classes == mid.classes,
                s0 == views(src0.namespaces@),
                views(self.namespaces@) == merge_children(d0, s0.take(it.index() as int)),
        {
            let ghost k = it.index() as int;
            proof {
                assert(s0[k] == sn@);
                assert(s0.take(k + 1).drop_last() =~= s0.take(k));
                assert(s0.take(k + 1).last() == sn@);
            }
            proof {
                assert(sn == src0.namespaces@[k]);
                assert(decreases_to!(src0.namespaces => src0.namespaces[k]));
                assert(decreases_to!(src0 => sn));
            }
            absorb_child(&mut self.namespaces, sn);
        }
        proof {
            lemma_namespace_children(*self);
            assert(s0.take(s0.len() as int) =~= s0);
            assert((|v: ConstV| <Const as Named>::key(v)) =~= (|v: ConstV| v.name));
            assert((|v: GlobalV| <Global as Named>::key(v)) =~= (|v: GlobalV| v.name));
            assert((|v: EnumV| <Enum as Named>::key(v)) =~= (|v: EnumV| v.name));
            assert((|v: TypeAliasV| <TypeAlias as Named>::key(v)) =~= (|v: TypeAliasV| v.name));
            assert((|v: FunctionV| <Function as Named>::key(v)) =~= (|v: FunctionV| v.name));
            assert((|v: ClassV| <Class as Named>::key(v)) =~= (|v: ClassV| v.name));
            assert(self@ =~= merge_view(dst0, src0@));
        }
    }
}

/// An empty namespace named `name`.
pub open spec fn empty_view(name: Seq<char>) -> NamespaceV {
    NamespaceV {
        name,
        consts: seq![],
        globals: seq![],
        enums: seq![],
        aliases: seq![],
        functions: seq![],
        classes: seq![],
        namespaces: seq![],
    }
}

/// The trees merged in order into an empty root.
pub open spec fn merged_all(trees: Seq<NamespaceV>) -> NamespaceV
    decreases trees.len(),
{
    if trees.len() == 0 {
        empty_view(seq![])
    } else {
        merge_view(merged_all(trees.drop_last()), trees.last())
    }
}

/// Merges the trees, in their order, into one root with an empty name.
pub fn merge_all(trees: Vec<Namespace>) -> (r: Namespace)
    ensures
        r@ == merged_all(views(trees@)),
{
    let mut root = Namespace {
        name: String::new(),
        consts: Vec::new(),
        globals: Vec::new(),
        enums: Vec::new(),
        aliases: Vec::new(),
        functions: Vec::new(),
        classes: Vec::new(),
        namespaces: Vec::new(),
    };
    proof {
        lemma_namespace_children(root);
        let z = empty_view(seq![]);
        assert(root@.consts =~= z.consts);
        assert(root@.globals =~= z.globals);
        assert(root@.enums =~= z.enums);
        assert(root@.aliases =~= z.aliases);
        assert(root@.functions =~= z.functions);
        assert(root@.classes =~= z.classes);
        assert(root@.namespaces =~= z.namespaces);
    }
    let ghost ts = views(trees@);
    for t in it: trees
        invariant
            ts == views(it.seq()),
            root@ == merged_all(ts.take(it.index() as int)),
    {
        proof {
            let k = it.index() as int;
            assert(ts.take(k + 1).drop_last() =~= ts.take(k));
            assert(ts[k] == t@);
        }
        root.merge(t);
    }
    proof {
        assert(ts.take(ts.len() as int) =~= ts);
    }
    root
}

/// The first entry of `s` named `n`.
pub open spec fn lookup<T>(s: Seq<T>, key: spec_fn(T) -> Seq<char>, n: Seq<char>) -> Option<T>
    decreases s.len(),
{
    if s.len() == 0 {
        None
    } else if key(s[0]) == n {
        Some(s[0])
    } else {
        lookup(s.drop_first(), key, n)
    }
}

pub open spec fn or_else<T>(a: Option<T>, b: Option<T>) -> Option<T> {
    if a is Some {
        a
    } else {
        b
    }
}

proof fn lemma_lookup_push<T>(s: Seq<T>, x: T, key: spec_fn(T) -> Seq<char>, n: Seq<char>)
    ensures
        lookup(s.push(x), key, n) == or_else(lookup(s, key, n), if key(x) == n { Some(x) } else { None }),
    decreases s.len(),
{
    if s.len() > 0 {
        assert(s.push(x)[0] == s[0]);
        assert(s.push(x).drop_first() =~= s.drop_first().push(x));
        lemma_lookup_push(s.drop_first(), x, key, n);
    } else {
        assert(s.push(x)[0] == x);
        assert(s.push(x).drop_first() =~= s);
    }
}

proof fn lemma_lookup_has<T>(s: Seq<T>, key: spec_fn(T) -> Seq<char>, n: Seq<char>)
    ensures
        has_named(s, key, n) <==> lookup(s, key, n) is Some,
    decreases s.len(),
{
    if s.len() > 0 {
        lemma_lookup_has(s.drop_first(), key, n);
        if has_named(s, key, n) && key(s[0]) != n {
            let i = choose|i: int| 0 <= i < s.len() && key(s[i]) == n;
            assert(key(s.drop_first()[i - 1]) == n);
        }
        if has_named(s.drop_first(), key, n) {
            let i = choose|i: int| 0 <= i < s.drop_first().len() && key(s.drop_first()[i]) == n;
            assert(key(s[i + 1]) == n);
        }
    }
}

/// Appending keeps the first entry of each name: the entry named `n` after
/// `add_missing` is the one `dst` had, else the first one `src` had.
pub proof fn lemma_add_missing_lookup<T>(dst: Seq<T>, src: Seq<T>, key: spec_fn(T) -> Seq<char>, n: Seq<char>)
    ensures
        lookup(add_missing(dst, src, key), key, n) == or_else(lookup(dst, key, n), lookup(src, key, n)),
    decreases src.len(),
{
    if src.len() > 0 {
        let s1 = src.drop_last();
        let x = src.last();
        let a = add_missing(dst, s1, key);
        lemma_add_missing_lookup(dst, s1, key, n);
        assert(src =~= s1.push(x));
        lemma_lookup_push(s1, x, key, n);
        lemma_lookup_push(a, x, key, n);
        lemma_lookup_has(a, key, key(x));
    }
}

/// First seen wins: after `a` and then `b` are merged into `d`, the class
/// named `n` is the one `d` had, else the one `a` had, else the one `b` had;
/// and so for every other named collection.
pub proof fn lemma_first_seen_wins(d: NamespaceV, a: NamespaceV, b: NamespaceV, n: Seq<char>)
    ensures
        ({
            let m = merge_view(merge_view(d, a), b);
            &&& lookup(m.classes, |v: ClassV| v.name, n) == or_else(
                or_else(lookup(d.classes, |v: ClassV| v.name, n), lookup(a.classes, |v: ClassV| v.name, n)),
                lookup(b.classes, |v: ClassV| v.name, n),
            )
            &&& lookup(m.consts, |v: ConstV| v.name, n) == or_else(
                or_else(lookup(d.consts, |v: ConstV| v.name, n), lookup(a.consts, |v: ConstV| v.name, n)),
                lookup(b.consts, |v: ConstV| v.name, n),
            )
            &&& lookup(m.globals, |v: GlobalV| v.name, n) == or_else(
                or_else(lookup(d.globals, |v: GlobalV| v.name, n), lookup(a.globals, |v: GlobalV| v.name, n)),
                lookup(b.globals, |v: GlobalV| v.name, n),
            )
            &&& lookup(m.enums, |v: EnumV| v.name, n) == or_else(
                or_else(lookup(d.enums, |v: EnumV| v.name, n), lookup(a.enums, |v: EnumV| v.name, n)),
                lookup(b.enums, |v: EnumV| v.name, n),
            )
            &&& lookup(m.aliases, |v: TypeAliasV| v.name, n) == or_else(
                or_else(lookup(d.aliases, |v: TypeAliasV| v.name, n), lookup(a.aliases, |v: TypeAliasV| v.name, n)),
                lookup(b.aliases, |v: TypeAliasV| v.name, n),
            )
            &&& lookup(m.functions, |v: FunctionV| v.name, n) == or_else(
                or_else(lookup(d.functions, |v: FunctionV| v.name, n), lookup(a.functions, |v: FunctionV| v.name, n)),
                lookup(b.functions, |v: FunctionV| v.name, n),
            )
        }),
{
    let m1 = merge_view(d, a);
    lemma_add_missing_lookup(d.classes, a.classes, |v: ClassV| v.name, n);
    lemma_add_missing_lookup(m1.classes, b.classes, |v: ClassV| v.name, n);
    lemma_add_missing_lookup(d.consts, a.consts, |v: ConstV| v.name, n);
    lemma_add_missing_lookup(m1.consts, b.consts, |v: ConstV| v.name, n);
    lemma_add_missing_lookup(d.globals, a.globals, |v: GlobalV| v.name, n);
    lemma_add_missing_lookup(m1.globals, b.globals, |v: GlobalV| v.name, n);
    lemma_add_missing_lookup(d.enums, a.enums, |v: EnumV| v.name, n);
    lemma_add_missing_lookup(m1.enums, b.enums, |v: EnumV| v.name, n);
    lemma_add_missing_lookup(d.aliases, a.aliases, |v: TypeAliasV| v.name, n);
    lemma_add_missing_lookup(m1.aliases, b.aliases, |v: TypeAliasV| v.name, n);
    lemma_add_missing_lookup(d.functions, a.functions, |v: FunctionV| v.name, n);
    lemma_add_missing_lookup(m1.functions, b.functions, |v: FunctionV| v.name, n);
}

/// Merge order matters: where two trees both declare a class `n`, and the
/// two declarations differ, merging them in one order or the other keeps a
/// different `n`, each time the one merged first.
pub proof fn lemma_merge_order_matters(a: NamespaceV, b: NamespaceV, n: Seq<char>)
    requires
        lookup(a.classes, |v: ClassV| v.name, n) is Some,
        lookup(b.classes, |v: ClassV| v.name, n) is Some,
        lookup(a.classes, |v: ClassV| v.name, n) != lookup(b.classes, |v: ClassV| v.name, n),
    ensures
        lookup(merged_all(seq![a, b]).classes, |v: ClassV| v.name, n) == lookup(a.classes, |v: ClassV| v.name, n),
        lookup(merged_all(seq![b, a]).classes, |v: ClassV| v.name, n) == lookup(b.classes, |v: ClassV| v.name, n),
        merged_all(seq![a, b]) != merged_all(seq![b, a]),
{
    let e = empty_view(seq![]);
    assert(seq![a, b].drop_last() =~= seq![a]);
    assert(seq![a].drop_last() =~= Seq::<NamespaceV>::empty());
    assert(seq![b, a].drop_last() =~= seq![b]);
    assert(seq![b].drop_last() =~= Seq::<NamespaceV>::empty());
    reveal_with_fuel(merged_all, 3);
    assert(merged_all(seq![a]) == merge_view(e, a));
    assert(merged_all(seq![b]) == merge_view(e, b));
    assert(merged_all(seq![a, b]) == merge_view(merge_view(e, a), b));
    assert(merged_all(seq![b, a]) == merge_view(merge_view(e, b), a));
    lemma_first_seen_wins(e, a, b, n);
    lemma_first_seen_wins(e, b, a, n);
}

} // verus!
