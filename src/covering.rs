//! Merging a tree a second time changes nothing: after a merge the result
//! already holds every name of the merged tree, and merging what is already
//! held is the identity.
use vstd::prelude::*;
use crate::merge::{absorbed, add_missing, first_named, has_named, merge_children, merge_view};
use crate::schema::{ClassV, ConstV, EnumV, FunctionV, GlobalV, NamespaceV, TypeAliasV};

verus! {

/// Sibling namespaces have distinct names, at every level of the tree.
pub open spec fn distinct_children(n: NamespaceV) -> bool
    decreases n,
{
    &&& forall|i: int, j: int|
        0 <= i < j < n.namespaces.len() ==> #[trigger] n.namespaces[i].name != #[trigger] n.namespaces[j].name
    &&& forall|i: int| 0 <= i < n.namespaces.len() ==> distinct_children(#[trigger] n.namespaces[i])
}

/// Every name of `s` is among the names of `m`.
pub open spec fn names_within<T>(m: Seq<T>, s: Seq<T>, key: spec_fn(T) -> Seq<char>) -> bool {
    forall|i: int| 0 <= i < s.len() ==> has_named(m, key, key(#[trigger] s[i]))
}

/// `m` already holds all of `s`: every name of each collection of `s`, and
/// for each child namespace of `s`, a first namespace of that name that
/// holds all of it.
pub open spec fn covers(m: NamespaceV, s: NamespaceV) -> bool
    decreases s,
{
    &&& names_within(m.consts, s.consts, |v: ConstV| v.name)
    &&& names_within(m.globals, s.globals, |v: GlobalV| v.name)
    &&& names_within(m.enums, s.enums, |v: EnumV| v.name)
    &&& names_within(m.aliases, s.aliases, |v: TypeAliasV| v.name)
    &&& names_within(m.functions, s.functions, |v: FunctionV| v.name)
    &&& names_within(m.classes, s.classes, |v: ClassV| v.name)
    &&& forall|i: int|
        0 <= i < s.namespaces.len() ==> {
            let j = first_named(m.namespaces, #[trigger] s.namespaces[i].name);
            0 <= j && covers(m.namespaces[j], s.namespaces[i])
        }
}

proof fn lemma_first_named_spec(d: Seq<NamespaceV>, n: Seq<char>)
    ensures
        -1 <= first_named(d, n) < d.len(),
        first_named(d, n) >= 0 ==> d[first_named(d, n)].name == n,
        forall|k: int| 0 <= k < d.len() && (first_named(d, n) < 0 || k < first_named(d, n)) ==> #[trigger] d[k].name != n,
    decreases d.len(),
{
    if d.len() > 0 && d[0].name != n {
        let t = d.drop_first();
        lemma_first_named_spec(t, n);
        assert forall|k: int| 0 <= k < d.len() && (first_named(d, n) < 0 || k < first_named(d, n)) implies #[trigger] d[k].name != n by {
            if k > 0 {
                assert(d[k] == t[k - 1]);
            }
        }
        if first_named(t, n) >= 0 {
            assert(d[first_named(d, n)] == t[first_named(t, n)]);
        }
    }
}

proof fn lemma_first_named_at(d: Seq<NamespaceV>, n: Seq<char>, j: int)
    requires
        0 <= j < d.len(),
        d[j].name == n,
        forall|k: int| 0 <= k < j ==> (#[trigger] d[k]).name != n,
    ensures
        first_named(d, n) == j,
    decreases d.len(),
{
    if j > 0 {
        let t = d.drop_first();
        assert forall|k: int| 0 <= k < j - 1 implies (#[trigger] t[k]).name != n by {
            assert(t[k] == d[k + 1]);
        }
        lemma_first_named_at(t, n, j - 1);
    }
}

/// Where the names of two sequences agree index by index, so do their
/// first positions of every name.
proof fn lemma_first_named_same_names(d: Seq<NamespaceV>, e: Seq<NamespaceV>, n: Seq<char>)
    requires
        d.len() == e.len(),
        forall|k: int| 0 <= k < d.len() ==> (#[trigger] d[k]).name == e[k].name,
    ensures
        first_named(d, n) == first_named(e, n),
    decreases d.len(),
{
    if d.len() > 0 {
        assert forall|k: int| 0 <= k < d.len() - 1 implies (#[trigger] d.drop_first()[k]).name == e.drop_first()[k].name by {
            assert(d.drop_first()[k] == d[k + 1]);
            assert(e.drop_first()[k] == e[k + 1]);
        }
        lemma_first_named_same_names(d.drop_first(), e.drop_first(), n);
    }
}

proof fn lemma_first_named_push(d: Seq<NamespaceV>, x: NamespaceV, n: Seq<char>)
    requires
        first_named(d, n) >= 0,
    ensures
        first_named(d.push(x), n) == first_named(d, n),
{
    lemma_first_named_spec(d, n);
    let j = first_named(d, n);
    assert forall|k: int| 0 <= k < j implies (#[trigger] d.push(x)[k]).name != n by {
        assert(d.push(x)[k] == d[k]);
    }
    lemma_first_named_at(d.push(x), n, j);
}

proof fn lemma_add_missing_prefix<T>(d: Seq<T>, s: Seq<T>, key: spec_fn(T) -> Seq<char>)
    ensures
        add_missing(d, s, key).len() >= d.len(),
        add_missing(d, s, key).subrange(0, d.len() as int) == d,
    decreases s.len(),
{
    if s.len() > 0 {
        lemma_add_missing_prefix(d, s.drop_last(), key);
        let a = add_missing(d, s.drop_last(), key);
        assert(a.push(s.last()).subrange(0, d.len() as int) =~= a.subrange(0, d.len() as int));
    }
}

proof fn lemma_within_grows<T>(d: Seq<T>, s: Seq<T>, t: Seq<T>, key: spec_fn(T) -> Seq<char>)
    requires
        names_within(d, s, key),
    ensures
        names_within(add_missing(d, t, key), s, key),
{
    lemma_add_missing_prefix(d, t, key);
    let a = add_missing(d, t, key);
    assert forall|i: int| 0 <= i < s.len() implies has_named(a, key, key(#[trigger] s[i])) by {
        let w = choose|w: int| 0 <= w < d.len() && key(d[w]) == key(s[i]);
        assert(a.subrange(0, d.len() as int)[w] == a[w]);
    }
}

proof fn lemma_add_missing_within<T>(d: Seq<T>, s: Seq<T>, key: spec_fn(T) -> Seq<char>)
    ensures
        names_within(add_missing(d, s, key), s, key),
    decreases s.len(),
{
    if s.len() > 0 {
        let s1 = s.drop_last();
        let x = s.last();
        let a = add_missing(d, s1, key);
        lemma_add_missing_within(d, s1, key);
        let r = add_missing(d, s, key);
        if !has_named(a, key, key(x)) {
            assert forall|i: int| 0 <= i < s.len() implies has_named(r, key, key(#[trigger] s[i])) by {
                if i < s.len() - 1 {
                    assert(s[i] == s1[i]);
                    let w = choose|w: int| 0 <= w < a.len() && key(a[w]) == key(s1[i]);
                    assert(r[w] == a[w]);
                } else {
                    assert(r[a.len() as int] == x);
                }
            }
        } else {
            assert forall|i: int| 0 <= i < s.len() implies has_named(r, key, key(#[trigger] s[i])) by {
                if i < s.len() - 1 {
                    assert(s[i] == s1[i]);
                }
            }
        }
    }
}

proof fn lemma_add_missing_held<T>(m: Seq<T>, s: Seq<T>, key: spec_fn(T) -> Seq<char>)
    requires
        names_within(m, s, key),
    ensures
        add_missing(m, s, key) == m,
    decreases s.len(),
{
    if s.len() > 0 {
        let s1 = s.drop_last();
        assert forall|i: int| 0 <= i < s1.len() implies has_named(m, key, key(#[trigger] s1[i])) by {
            assert(s1[i] == s[i]);
        }
        lemma_add_missing_held(m, s1, key);
        assert(has_named(m, key, key(s[s.len() - 1])));
    }
}

/// Merging only adds: whatever `e` holds of `c`, `e` merged with `x` still
/// holds.
proof fn lemma_cover_kept(e: NamespaceV, c: NamespaceV, x: NamespaceV)
    requires
        covers(e, c),
    ensures
        covers(merge_view(e, x), c),
    decreases c, 0int, 0int,
{
    let m = merge_view(e, x);
    lemma_within_grows(e.consts, c.consts, x.consts, |v: ConstV| v.name);
    lemma_within_grows(e.globals, c.globals, x.globals, |v: GlobalV| v.name);
    lemma_within_grows(e.enums, c.enums, x.enums, |v: EnumV| v.name);
    lemma_within_grows(e.aliases, c.aliases, x.aliases, |v: TypeAliasV| v.name);
    lemma_within_grows(e.functions, c.functions, x.functions, |v: FunctionV| v.name);
    lemma_within_grows(e.classes, c.classes, x.classes, |v: ClassV| v.name);
    assert forall|i: int| 0 <= i < c.namespaces.len() implies ({
        let j = first_named(m.namespaces, #[trigger] c.namespaces[i].name);
        0 <= j && covers(m.namespaces[j], c.namespaces[i])
    }) by {
        let g = c.namespaces[i];
        lemma_children_keep_cover(e.namespaces, x.namespaces, g, first_named(e.namespaces, g.name));
    }
}

/// Folding more namespaces into `d` keeps the first namespace named like
/// `g` where it is, still holding all of `g`.
proof fn lemma_children_keep_cover(d: Seq<NamespaceV>, src: Seq<NamespaceV>, g: NamespaceV, k: int)
    requires
        k == first_named(d, g.name),
        0 <= k,
        covers(d[k], g),
    ensures
        first_named(merge_children(d, src), g.name) == k,
        covers(merge_children(d, src)[k], g),
    decreases g, 1int, src.len(),
{
    if src.len() > 0 {
        lemma_children_keep_cover(d, src.drop_last(), g, k);
        let dd = merge_children(d, src.drop_last());
        let x = src.last();
        lemma_first_named_spec(dd, x.name);
        lemma_first_named_spec(dd, g.name);
        let j = first_named(dd, x.name);
        assert(merge_children(d, src) == absorbed(dd, x));
        if j >= 0 {
            let nd = dd.update(j, merge_view(dd[j], x));
            assert(absorbed(dd, x) == nd);
            assert forall|q: int| 0 <= q < dd.len() implies (#[trigger] dd[q]).name == nd[q].name by {}
            lemma_first_named_same_names(dd, nd, g.name);
            if j == k {
                lemma_cover_kept(dd[k], g, x);
            } else {
                assert(nd[k] == dd[k]);
            }
        } else {
            lemma_first_named_push(dd, x, g.name);
            assert(dd.push(x)[k] == dd[k]);
        }
    }
}

/// With distinct child names, a tree holds all of itself.
proof fn lemma_self_cover(s: NamespaceV)
    requires
        distinct_children(s),
    ensures
        covers(s, s),
    decreases s,
{
    assert forall|i: int| 0 <= i < s.consts.len() implies has_named(s.consts, |v: ConstV| v.name, (#[trigger] s.consts[i]).name) by {}
    assert forall|i: int| 0 <= i < s.globals.len() implies has_named(s.globals, |v: GlobalV| v.name, (#[trigger] s.globals[i]).name) by {}
    assert forall|i: int| 0 <= i < s.enums.len() implies has_named(s.enums, |v: EnumV| v.name, (#[trigger] s.enums[i]).name) by {}
    assert forall|i: int| 0 <= i < s.aliases.len() implies has_named(s.aliases, |v: TypeAliasV| v.name, (#[trigger] s.aliases[i]).name) by {}
    assert forall|i: int| 0 <= i < s.functions.len() implies has_named(s.functions, |v: FunctionV| v.name, (#[trigger] s.functions[i]).name) by {}
    assert forall|i: int| 0 <= i < s.classes.len() implies has_named(s.classes, |v: ClassV| v.name, (#[trigger] s.classes[i]).name) by {}
    assert forall|i: int| 0 <= i < s.namespaces.len() implies ({
        let j = first_named(s.namespaces, #[trigger] s.namespaces[i].name);
        0 <= j && covers(s.namespaces[j], s.namespaces[i])
    }) by {
        let n = s.namespaces[i].name;
        assert forall|k: int| 0 <= k < i implies (#[trigger] s.namespaces[k]).name != n by {
            assert(s.namespaces[k].name != s.namespaces[i].name);
        }
        lemma_first_named_at(s.namespaces, n, i);
        lemma_self_cover(s.namespaces[i]);
    }
}

/// After `src` is folded into `d`, the namespace that `src[i]` went into
/// holds all of it.
proof fn lemma_children_cover(d: Seq<NamespaceV>, src: Seq<NamespaceV>, i: int)
    requires
        0 <= i < src.len(),
        forall|q: int| 0 <= q < src.len() ==> distinct_children(#[trigger] src[q]),
    ensures
        ({
            let m = merge_children(d, src);
            let j = first_named(m, src[i].name);
            0 <= j && covers(m[j], src[i])
        }),
    decreases src, 1int,
{
    let s1 = src.drop_last();
    let dd = merge_children(d, s1);
    let x = src.last();
    lemma_first_named_spec(dd, x.name);
    let j = first_named(dd, x.name);
    assert(merge_children(d, src) == absorbed(dd, x));
    assert(x == src[src.len() - 1]);
    if i == src.len() - 1 {
        if j >= 0 {
            let nd = dd.update(j, merge_view(dd[j], x));
            assert(absorbed(dd, x) == nd);
            assert forall|q: int| 0 <= q < dd.len() implies (#[trigger] dd[q]).name == nd[q].name by {}
            lemma_first_named_same_names(dd, nd, x.name);
            lemma_merge_covers(dd[j], x);
        } else {
            assert forall|k: int| 0 <= k < dd.len() implies (#[trigger] dd.push(x)[k]).name != x.name by {
                assert(dd.push(x)[k] == dd[k]);
            }
            lemma_first_named_at(dd.push(x), x.name, dd.len() as int);
            lemma_self_cover(x);
        }
    } else {
        assert forall|q: int| 0 <= q < s1.len() implies distinct_children(#[trigger] s1[q]) by {
            assert(s1[q] == src[q]);
        }
        lemma_children_cover(d, s1, i);
        assert(s1[i] == src[i]);
        let g = src[i];
        let k = first_named(dd, g.name);
        let one = seq![x];
        assert(one.drop_last() =~= Seq::<NamespaceV>::empty());
        assert(one.last() == x);
        assert(merge_children(dd, one.drop_last()) == dd);
        assert(merge_children(dd, one) == absorbed(dd, x));
        lemma_children_keep_cover(dd, one, g, k);
    }
}

/// A merge leaves the result holding all of the merged tree.
proof fn lemma_merge_covers(d: NamespaceV, s: NamespaceV)
    requires
        distinct_children(s),
    ensures
        covers(merge_view(d, s), s),
    decreases s, 0int,
{
    lemma_add_missing_within(d.consts, s.consts, |v: ConstV| v.name);
    lemma_add_missing_within(d.globals, s.globals, |v: GlobalV| v.name);
    lemma_add_missing_within(d.enums, s.enums, |v: EnumV| v.name);
    lemma_add_missing_within(d.aliases, s.aliases, |v: TypeAliasV| v.name);
    lemma_add_missing_within(d.functions, s.functions, |v: FunctionV| v.name);
    lemma_add_missing_within(d.classes, s.classes, |v: ClassV| v.name);
    let m = merge_view(d, s);
    assert forall|i: int| 0 <= i < s.namespaces.len() implies ({
        let j = first_named(m.namespaces, #[trigger] s.namespaces[i].name);
        0 <= j && covers(m.namespaces[j], s.namespaces[i])
    }) by {
        lemma_children_cover(d.namespaces, s.namespaces, i);
    }
}

/// Merging what is already held changes nothing.
proof fn lemma_held_merge_unchanged(m: NamespaceV, s: NamespaceV)
    requires
        covers(m, s),
    ensures
        merge_view(m, s) == m,
    decreases s, 0int,
{
    lemma_add_missing_held(m.consts, s.consts, |v: ConstV| v.name);
    lemma_add_missing_held(m.globals, s.globals, |v: GlobalV| v.name);
    lemma_add_missing_held(m.enums, s.enums, |v: EnumV| v.name);
    lemma_add_missing_held(m.aliases, s.aliases, |v: TypeAliasV| v.name);
    lemma_add_missing_held(m.functions, s.functions, |v: FunctionV| v.name);
    lemma_add_missing_held(m.classes, s.classes, |v: ClassV| v.name);
    lemma_held_children_unchanged(m.namespaces, s.namespaces);
}

proof fn lemma_held_children_unchanged(d: Seq<NamespaceV>, src: Seq<NamespaceV>)
    requires
        forall|i: int|
            0 <= i < src.len() ==> {
                let j = first_named(d, #[trigger] src[i].name);
                0 <= j && covers(d[j], src[i])
            },
    ensures
        merge_children(d, src) == d,
    decreases src, 1int,
{
    if src.len() > 0 {
        let s1 = src.drop_last();
        assert forall|i: int| 0 <= i < s1.len() implies ({
            let j = first_named(d, #[trigger] s1[i].name);
            0 <= j && covers(d[j], s1[i])
        }) by {
            assert(s1[i] == src[i]);
        }
        lemma_held_children_unchanged(d, s1);
        let x = src.last();
        assert(x == src[src.len() - 1]);
        lemma_first_named_spec(d, x.name);
        let j = first_named(d, x.name);
        lemma_held_merge_unchanged(d[j], x);
        assert(merge_children(d, src) == absorbed(d, x));
        assert(d.update(j, d[j]) =~= d);
    }
}

/// Merging the same tree a second time gives what merging it once gave,
/// for a tree whose sibling namespaces have distinct names.
pub proof fn lemma_merge_idempotent(d: NamespaceV, s: NamespaceV)
    requires
        distinct_children(s),
    ensures
        merge_view(merge_view(d, s), s) == merge_view(d, s),
{
    lemma_merge_covers(d, s);
    lemma_held_merge_unchanged(merge_view(d, s), s);
}

/// Siblings with distinct names, each with distinct children all the way down.
pub open spec fn distinct_siblings(d: Seq<NamespaceV>) -> bool {
    &&& forall|i: int, j: int| 0 <= i < j < d.len() ==> #[trigger] d[i].name != #[trigger] d[j].name
    &&& forall|i: int| 0 <= i < d.len() ==> distinct_children(#[trigger] d[i])
}

proof fn lemma_distinct_children_siblings(n: NamespaceV)
    ensures
        distinct_children(n) == distinct_siblings(n.namespaces),
{
}

pub(crate) proof fn lemma_absorbed_distinct(d: Seq<NamespaceV>, x: NamespaceV)
    requires
        distinct_siblings(d),
        distinct_children(x),
    ensures
        distinct_siblings(absorbed(d, x)),
    decreases x, 1int,
{
    lemma_first_named_spec(d, x.name);
    let j = first_named(d, x.name);
    if j >= 0 {
        let nd = d.update(j, merge_view(d[j], x));
        lemma_merge_keeps_distinct(d[j], x);
        assert forall|p: int, q: int| 0 <= p < q < nd.len() implies #[trigger] nd[p].name != #[trigger] nd[q].name by {
            assert(nd[p].name == d[p].name);
            assert(nd[q].name == d[q].name);
        }
        assert forall|p: int| 0 <= p < nd.len() implies distinct_children(#[trigger] nd[p]) by {
            if p != j {
                assert(nd[p] == d[p]);
            }
        }
    } else {
        let nd = d.push(x);
        assert forall|p: int, q: int| 0 <= p < q < nd.len() implies #[trigger] nd[p].name != #[trigger] nd[q].name by {
            assert(nd[p] == d[p]);
            if q < d.len() {
                assert(nd[q] == d[q]);
            }
        }
        assert forall|p: int| 0 <= p < nd.len() implies distinct_children(#[trigger] nd[p]) by {
            if p < d.len() {
                assert(nd[p] == d[p]);
            }
        }
    }
}

proof fn lemma_merge_children_distinct(d: Seq<NamespaceV>, src: Seq<NamespaceV>)
    requires
        distinct_siblings(d),
        forall|q: int| 0 <= q < src.len() ==> distinct_children(#[trigger] src[q]),
    ensures
        distinct_siblings(merge_children(d, src)),
    decreases src, 2int,
{
    if src.len() > 0 {
        let s1 = src.drop_last();
        assert forall|q: int| 0 <= q < s1.len() implies distinct_children(#[trigger] s1[q]) by {
            assert(s1[q] == src[q]);
        }
        lemma_merge_children_distinct(d, s1);
        assert(src.last() == src[src.len() - 1]);
        lemma_absorbed_distinct(merge_children(d, s1), src.last());
    }
}

/// Merging keeps sibling namespaces distinct by name.
pub proof fn lemma_merge_keeps_distinct(d: NamespaceV, s: NamespaceV)
    requires
        distinct_children(d),
        distinct_children(s),
    ensures
        distinct_children(merge_view(d, s)),
    decreases s, 0int,
{
    lemma_distinct_children_siblings(d);
    lemma_distinct_children_siblings(s);
    lemma_merge_children_distinct(d.namespaces, s.namespaces);
    lemma_distinct_children_siblings(merge_view(d, s));
}

/// No two entries of `s` carry the same name.
pub open spec fn unique_names<T>(s: Seq<T>, key: spec_fn(T) -> Seq<char>) -> bool {
    forall|i: int, j: int| 0 <= i < j < s.len() ==> key(#[trigger] s[i]) != key(#[trigger] s[j])
}

/// Names are unique within each collection of every namespace of the tree,
/// and sibling namespaces have distinct names.
pub open spec fn well_formed(n: NamespaceV) -> bool
    decreases n,
{
    &&& unique_names(n.consts, |v: ConstV| v.name)
    &&& unique_names(n.globals, |v: GlobalV| v.name)
    &&& unique_names(n.enums, |v: EnumV| v.name)
    &&& unique_names(n.aliases, |v: TypeAliasV| v.name)
    &&& unique_names(n.functions, |v: FunctionV| v.name)
    &&& unique_names(n.classes, |v: ClassV| v.name)
    &&& forall|i: int, j: int|
        0 <= i < j < n.namespaces.len() ==> #[trigger] n.namespaces[i].name != #[trigger] n.namespaces[j].name
    &&& forall|i: int| 0 <= i < n.namespaces.len() ==> well_formed(#[trigger] n.namespaces[i])
}

proof fn lemma_add_missing_unique<T>(d: Seq<T>, s: Seq<T>, key: spec_fn(T) -> Seq<char>)
    requires
        unique_names(d, key),
    ensures
        unique_names(add_missing(d, s, key), key),
    decreases s.len(),
{
    if s.len() > 0 {
        lemma_add_missing_unique(d, s.drop_last(), key);
        let a = add_missing(d, s.drop_last(), key);
        let x = s.last();
        if !has_named(a, key, key(x)) {
            let r = a.push(x);
            assert forall|p: int, q: int| 0 <= p < q < r.len() implies key(#[trigger] r[p]) != key(#[trigger] r[q]) by {
                assert(r[p] == a[p]);
                if q < a.len() {
                    assert(r[q] == a[q]);
                } else {
                    assert(r[q] == x);
                }
            }
        }
    }
}

/// Well-formed siblings: distinct names, each well-formed.
pub open spec fn well_formed_siblings(d: Seq<NamespaceV>) -> bool {
    &&& forall|i: int, j: int| 0 <= i < j < d.len() ==> #[trigger] d[i].name != #[trigger] d[j].name
    &&& forall|i: int| 0 <= i < d.len() ==> well_formed(#[trigger] d[i])
}

proof fn lemma_absorbed_well_formed(d: Seq<NamespaceV>, x: NamespaceV)
    requires
        well_formed_siblings(d),
        well_formed(x),
    ensures
        well_formed_siblings(absorbed(d, x)),
    decreases x, 1int,
{
    lemma_first_named_spec(d, x.name);
    let j = first_named(d, x.name);
    if j >= 0 {
        let nd = d.update(j, merge_view(d[j], x));
        lemma_merge_keeps_well_formed(d[j], x);
        assert forall|p: int, q: int| 0 <= p < q < nd.len() implies #[trigger] nd[p].name != #[trigger] nd[q].name by {
            assert(nd[p].name == d[p].name);
            assert(nd[q].name == d[q].name);
        }
        assert forall|p: int| 0 <= p < nd.len() implies well_formed(#[trigger] nd[p]) by {
            if p != j {
                assert(nd[p] == d[p]);
            }
        }
    } else {
        let nd = d.push(x);
        assert forall|p: int, q: int| 0 <= p < q < nd.len() implies #[trigger] nd[p].name != #[trigger] nd[q].name by {
            assert(nd[p] == d[p]);
            if q < d.len() {
                assert(nd[q] == d[q]);
            }
        }
        assert forall|p: int| 0 <= p < nd.len() implies well_formed(#[trigger] nd[p]) by {
            if p < d.len() {
                assert(nd[p] == d[p]);
            }
        }
    }
}

proof fn lemma_merge_children_well_formed(d: Seq<NamespaceV>, src: Seq<NamespaceV>)
    requires
        well_formed_siblings(d),
        forall|q: int| 0 <= q < src.len() ==> well_formed(#[trigger] src[q]),
    ensures
        well_formed_siblings(merge_children(d, src)),
    decreases src, 2int,
{
    if src.len() > 0 {
        let s1 = src.drop_last();
        assert forall|q: int| 0 <= q < s1.len() implies well_formed(#[trigger] s1[q]) by {
            assert(s1[q] == src[q]);
        }
        lemma_merge_children_well_formed(d, s1);
        assert(src.last() == src[src.len() - 1]);
        lemma_absorbed_well_formed(merge_children(d, s1), src.last());
    }
}

/// Merging keeps the tree well-formed: names stay unique within every
/// collection, and sibling namespaces distinct.
pub proof fn lemma_merge_keeps_well_formed(d: NamespaceV, s: NamespaceV)
    requires
        well_formed(d),
        well_formed(s),
    ensures
        well_formed(merge_view(d, s)),
    decreases s, 0int,
{
    lemma_add_missing_unique(d.consts, s.consts, |v: ConstV| v.name);
    lemma_add_missing_unique(d.globals, s.globals, |v: GlobalV| v.name);
    lemma_add_missing_unique(d.enums, s.enums, |v: EnumV| v.name);
    lemma_add_missing_unique(d.aliases, s.aliases, |v: TypeAliasV| v.name);
    lemma_add_missing_unique(d.functions, s.functions, |v: FunctionV| v.name);
    lemma_add_missing_unique(d.classes, s.classes, |v: ClassV| v.name);
    lemma_merge_children_well_formed(d.namespaces, s.namespaces);
}

/// A well-formed tree has distinct sibling namespaces.
pub proof fn lemma_well_formed_distinct(n: NamespaceV)
    requires
        well_formed(n),
    ensures
        distinct_children(n),
    decreases n,
{
    assert forall|i: int| 0 <= i < n.namespaces.len() implies distinct_children(#[trigger] n.namespaces[i]) by {
        lemma_well_formed_distinct(n.namespaces[i]);
    }
}

/// First seen wins, and only once: where the classes of `d` have unique
/// names, after any merge the class at index `i` of `d` is still there,
/// unchanged, and no other class carries its name.
pub proof fn lemma_first_class_kept(d: NamespaceV, s: NamespaceV, i: int)
    requires
        unique_names(d.classes, |v: ClassV| v.name),
        0 <= i < d.classes.len(),
    ensures
        ({
            let m = merge_view(d, s).classes;
            &&& m[i] == d.classes[i]
            &&& forall|k: int| 0 <= k < m.len() && k != i ==> (#[trigger] m[k]).name != d.classes[i].name
        }),
{
    let key = |v: ClassV| v.name;
    lemma_add_missing_prefix(d.classes, s.classes, key);
    lemma_add_missing_unique(d.classes, s.classes, key);
    let m = merge_view(d, s).classes;
    assert(m.subrange(0, d.classes.len() as int)[i] == m[i]);
    assert forall|k: int| 0 <= k < m.len() && k != i implies (#[trigger] m[k]).name != d.classes[i].name by {
        if k < i {
            assert(key(m[k]) != key(m[i]));
        } else {
            assert(key(m[i]) != key(m[k]));
        }
    }
}

} // verus!
