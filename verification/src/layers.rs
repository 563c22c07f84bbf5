//! Configuration layers merged in priority order. A layer is a tree of
//! tables; a later layer is laid over an earlier one key by key. Tables
//! merge recursively; any other value, arrays included, replaces what was
//! there wholesale, so an override that sets a list means exactly that list.

use vstd::prelude::*;

use crate::text::str_eq;

verus! {

/// One configuration layer: a value the merge carries without reading, or
/// a table of named entries.
pub enum Layer<V> {
    Leaf(V),
    Table(Vec<(String, Layer<V>)>),
}

/// A layer as a mathematical tree.
pub enum Tree<V> {
    Leaf(V),
    Table(Seq<(Seq<char>, Tree<V>)>),
}

pub open spec fn tree_of<V>(l: Layer<V>) -> Tree<V>
    decreases l,
{
    match l {
        Layer::Leaf(v) => Tree::Leaf(v),
        Layer::Table(es) => Tree::Table(entries_of(es@)),
    }
}

pub open spec fn entries_of<V>(es: Seq<(String, Layer<V>)>) -> Seq<(Seq<char>, Tree<V>)>
    decreases es,
{
    if es.len() == 0 {
        Seq::empty()
    } else {
        entries_of(es.drop_last()).push((es.last().0@, tree_of(es.last().1)))
    }
}

/// The position of the first entry named `k`, if any.
pub open spec fn find_key<V>(es: Seq<(Seq<char>, Tree<V>)>, k: Seq<char>) -> Option<int>
    decreases es.len(),
{
    if es.len() == 0 {
        None
    } else if es[0].0 == k {
        Some(0)
    } else {
        match find_key(es.drop_first(), k) {
            Some(i) => Some(i + 1),
            None => None,
        }
    }
}

/// `o` laid over `b`: two tables merge entry by entry; otherwise `o` wins.
pub open spec fn merge_tree<V>(b: Tree<V>, o: Tree<V>) -> Tree<V>
    decreases o,
{
    match (b, o) {
        (Tree::Table(be), Tree::Table(oe)) => Tree::Table(merge_entries(be, oe)),
        _ => o,
    }
}

/// The entries of `oe`, in order, laid over `be`: an entry whose name is
/// already there merges into it in place; a new one is appended.
pub open spec fn merge_entries<V>(be: Seq<(Seq<char>, Tree<V>)>, oe: Seq<(Seq<char>, Tree<V>)>) -> Seq<(Seq<char>, Tree<V>)>
    decreases oe,
{
    if oe.len() == 0 {
        be
    } else {
        let acc = merge_entries(be, oe.drop_last());
        let (k, v) = oe.last();
        match find_key(acc, k) {
            Some(i) => acc.update(i, (k, merge_tree(acc[i].1, v))),
            None => acc.push((k, v)),
        }
    }
}

proof fn lemma_entries_of<V>(es: Seq<(String, Layer<V>)>)
    ensures
        entries_of(es).len() == es.len(),
        forall|i: int| 0 <= i < es.len() ==> #[trigger] entries_of(es)[i] == (es[i].0@, tree_of(es[i].1)),
    decreases es.len(),
{
    if es.len() > 0 {
        lemma_entries_of(es.drop_last());
    }
}

proof fn lemma_find_key<V>(es: Seq<(Seq<char>, Tree<V>)>, k: Seq<char>)
    ensures
        match find_key(es, k) {
            Some(i) => 0 <= i < es.len() && es[i].0 == k && forall|j: int| 0 <= j < i ==> (#[trigger] es[j]).0 != k,
            None => forall|j: int| 0 <= j < es.len() ==> (#[trigger] es[j]).0 != k,
        },
    decreases es.len(),
{
    if es.len() > 0 {
        lemma_find_key(es.drop_first(), k);
        let t = es.drop_first();
        match find_key(es, k) {
            Some(i) => {
                if i > 0 {
                    assert forall|j: int| 0 <= j < i implies (#[trigger] es[j]).0 != k by {
                        if j > 0 {
                            assert(es[j] == t[j - 1]);
                        }
                    }
                }
            },
            None => {
                assert forall|j: int| 0 <= j < es.len() implies (#[trigger] es[j]).0 != k by {
                    if j > 0 {
                        assert(es[j] == t[j - 1]);
                    }
                }
            },
        }
    }
}

fn find_entry<V>(es: &Vec<(String, Layer<V>)>, k: &str) -> (r: Option<usize>)
    ensures
        match r {
            Some(i) => i < es@.len() && find_key(entries_of(es@), k@) == Some(i as int),
            None => find_key(entries_of(es@), k@) is None,
        },
{
    proof {
        lemma_entries_of(es@);
        lemma_find_key(entries_of(es@), k@);
    }
    let mut i: usize = 0;
    while i < es.len()
        invariant
            i <= es@.len(),
            entries_of(es@).len() == es@.len(),
            forall|j: int| 0 <= j < es@.len() ==> #[trigger] entries_of(es@)[j] == (es@[j].0@, tree_of(es@[j].1)),
            forall|j: int| 0 <= j < i ==> es@[j].0@ != k@,
        decreases es.len() - i,
    {
        if str_eq(es[i].0.as_str(), k) {
            proof {
                lemma_find_key(entries_of(es@), k@);
                assert(entries_of(es@)[i as int].0 == k@);
                match find_key(entries_of(es@), k@) {
                    Some(f) => {
                        assert(entries_of(es@)[f].0 == k@);
                        if f < i {
                            assert(es@[f].0@ == k@);
                        }
                    },
                    None => {},
                }
            }
            return Some(i);
        }
        i += 1;
    }
    proof {
        lemma_entries_of(es@);
        lemma_find_key(entries_of(es@), k@);
        match find_key(entries_of(es@), k@) {
            Some(f) => {
                assert(entries_of(es@)[f].0 == k@);
                assert(es@[f].0@ == k@);
            },
            None => {},
        }
    }
    None
}

/// Lay `over` on `base`; see [`merge_tree`].
pub fn merge_layers<V>(base: Layer<V>, over: Layer<V>) -> (r: Layer<V>)
    ensures
        tree_of(r) == merge_tree(tree_of(base), tree_of(over)),
    decreases over,
{
    let ghost o0 = over;
    match base {
        Layer::Table(mut be) => {
            match over {
                Layer::Table(oe) => {
                    let ghost bev = entries_of(be@);
                    let ghost oev = entries_of(oe@);
                    let ghost oe_all = oe@;
                    let ghost oe_vec = oe;
                    proof {
                        lemma_entries_of(oe@);
                    }
                    let mut rest = oe;
                    let mut i: usize = 0;
                    let n = rest.len();
                    assert(oe_all.skip(0) =~= oe_all);
                    assert(oev.take(0) =~= Seq::<(Seq<char>, Tree<V>)>::empty());
                    while rest.len() > 0
                        invariant
                            i + rest@.len() == n,
                            n == oe_all.len(),
                            rest@ == oe_all.skip(i as int),
                            oev == entries_of(oe_all),
                            oev.len() == oe_all.len(),
                            forall|j: int| 0 <= j < oe_all.len() ==> #[trigger] oev[j] == (oe_all[j].0@, tree_of(oe_all[j].1)),
                            entries_of(be@) == merge_entries(bev, oev.take(i as int)),
                            o0 == Layer::<V>::Table(oe_vec),
                            over == o0,
                            oe_vec@ == oe_all,
                        decreases rest@.len(),
                    {
                        let ghost rest0 = rest@;
                        let (k, v) = rest.remove(0);
                        assert(rest@ =~= oe_all.skip(i + 1));
                        let ghost kv = (k@, tree_of(v));
                        assert(oev[i as int] == kv);
                        let ghost acc = entries_of(be@);
                        assert(oev.take(i + 1).drop_last() =~= oev.take(i as int));
                        assert(oev.take(i + 1).last() == kv);
                        proof {
                            lemma_entries_of(be@);
                        }
                        match find_entry(&be, k.as_str()) {
                            Some(j) => {
                                let ghost be_before = be@;
                                let (_k0, old) = be.remove(j);
                                proof {
                                    assert(rest0[0] == oe_all[i as int]);
                                    assert(v == oe_all[i as int].1);
                                    assert(o0->Table_0 == oe_vec);
                                    assert(decreases_to!(o0 => o0->Table_0));
                                    assert(decreases_to!(oe_vec => oe_vec@));
                                    assert(decreases_to!(oe_vec@ => oe_vec@[i as int]));
                                    assert(decreases_to!(oe_vec@[i as int] => oe_vec@[i as int].1));
                                    assert(decreases_to!(over => v));
                                }
                                let m = merge_layers(old, v);
                                be.insert(j, (k, m));
                                proof {
                                    assert(be@ =~= be_before.update(j as int, be@[j as int]));
                                    lemma_entries_of(be@);
                                    assert(entries_of(be@) =~= acc.update(j as int, (kv.0, merge_tree(acc[j as int].1, kv.1))));
                                }
                            },
                            None => {
                                let ghost be_before = be@;
                                be.push((k, v));
                                proof {
                                    lemma_entries_of(be@);
                                    assert(entries_of(be@) =~= acc.push(kv));
                                }
                            },
                        }
                        i += 1;
                    }
                    assert(oev.take(i as int) =~= oev);
                    Layer::Table(be)
                },
                Layer::Leaf(v) => Layer::Leaf(v),
            }
        },
        Layer::Leaf(x) => over,
    }
}

} // verus!
