//! A repeat tree for constructing repeating structures with arbitrary leaf
//! values.  Workouts use it directly: intervals are repetitions, sections of
//! intervals repeat in turn, and warm-up and cool-down sit alongside them.
//! A ten-minute warm-up, five repeats of one minute on and two minutes off,
//! and a ten-minute cool-down is
//! `Node((1, vec![Leaf(10), Node((5, vec![Leaf(1), Leaf(2)])), Leaf(10)]))`.
//!
//! Flattening a node replays the concatenation of its flattened children as
//! a whole, repeat-count times; it does not repeat each child on its own.
use vstd::prelude::*;

verus! {

/// A tree of repeated sections: a leaf value, or a section of subtrees
/// replayed a fixed number of times.
#[derive(Debug, Eq, PartialEq)]
pub enum CycleTree<L> {
    Leaf(L),
    Node((usize, Vec<CycleTree<L>>)),
}

/// `s` repeated `n` times in order.
pub open spec fn spec_repeat<L>(s: Seq<L>, n: nat) -> Seq<L>
    decreases n,
{
    if n == 0 {
        Seq::empty()
    } else {
        spec_repeat(s, (n - 1) as nat) + s
    }
}

/// The flattening of a tree: a leaf contributes itself; a node contributes
/// its children's flattenings concatenated in order, the whole concatenation
/// repeated `count` times.
pub open spec fn spec_flatten<L>(t: CycleTree<L>) -> Seq<L>
    decreases t,
{
    match t {
        CycleTree::Leaf(l) => seq![l],
        CycleTree::Node((count, children)) => spec_repeat(
            spec_flatten_list(children@),
            count as nat,
        ),
    }
}

/// The concatenation of the flattenings of a sequence of trees, in order.
pub open spec fn spec_flatten_list<L>(ts: Seq<CycleTree<L>>) -> Seq<L>
    decreases ts,
{
    if ts.len() == 0 {
        Seq::empty()
    } else {
        spec_flatten(ts[0]) + spec_flatten_list(ts.subrange(1, ts.len() as int))
    }
}

/// Appending a tree to a sequence appends its flattening to the sequence's.
pub proof fn lemma_flatten_list_snoc<L>(ts: Seq<CycleTree<L>>, t: CycleTree<L>)
    ensures
        spec_flatten_list(ts.push(t)) == spec_flatten_list(ts) + spec_flatten(t),
    decreases ts.len(),
{
    if ts.len() == 0 {
        let ts2 = ts.push(t);
        assert(ts2[0] == t);
        assert(ts2.subrange(1, ts2.len() as int) =~= Seq::<CycleTree<L>>::empty());
        assert(spec_flatten_list(ts2) == spec_flatten(t) + spec_flatten_list(
            ts2.subrange(1, ts2.len() as int),
        ));
        assert(spec_flatten_list(ts.push(t)) =~= spec_flatten_list(ts) + spec_flatten(t));
    } else {
        let rest = ts.subrange(1, ts.len() as int);
        lemma_flatten_list_snoc(rest, t);
        assert(ts.push(t)[0] == ts[0]);
        assert(ts.push(t).subrange(1, ts.push(t).len() as int) =~= rest.push(t));
        assert(spec_flatten_list(ts.push(t)) =~= spec_flatten_list(ts) + spec_flatten(t));
    }
}

/// Repeating once yields the sequence itself.
pub proof fn lemma_repeat_once<L>(s: Seq<L>)
    ensures
        spec_repeat(s, 1) == s,
{
    reveal_with_fuel(spec_repeat, 2);
    assert(spec_repeat(s, 1) =~= s);
}

/// The flattening of a two-tree sequence, spelled out.
pub proof fn lemma_flatten_list2<L>(ts: Seq<CycleTree<L>>)
    requires
        ts.len() == 2,
    ensures
        spec_flatten_list(ts) == spec_flatten(ts[0]) + spec_flatten(ts[1]),
{
    reveal_with_fuel(spec_flatten_list, 3);
    let r1 = ts.subrange(1, 2);
    assert(r1.len() == 1);
    assert(r1[0] == ts[1]);
    assert(r1.subrange(1, 1) =~= Seq::<CycleTree<L>>::empty());
    assert(spec_flatten_list(r1) =~= spec_flatten(ts[1]));
    assert(spec_flatten_list(ts) =~= spec_flatten(ts[0]) + spec_flatten(ts[1]));
}

/// The flattening of a three-tree sequence, spelled out.
pub proof fn lemma_flatten_list3<L>(ts: Seq<CycleTree<L>>)
    requires
        ts.len() == 3,
    ensures
        spec_flatten_list(ts) == spec_flatten(ts[0]) + spec_flatten(ts[1]) + spec_flatten(ts[2]),
{
    let r1 = ts.subrange(1, 3);
    assert(r1.len() == 2);
    assert(r1[0] == ts[1]);
    assert(r1[1] == ts[2]);
    lemma_flatten_list2(r1);
    assert(spec_flatten_list(ts) =~= spec_flatten(ts[0]) + spec_flatten(ts[1]) + spec_flatten(
        ts[2],
    ));
}

/// Flattens a tree, appending its leaves to `v` in order.  Each call
/// contributes a fresh, independent copy of the flattening.
pub fn flatten<L: Copy>(cycle_tree: &CycleTree<L>, v: &mut Vec<L>)
    ensures
        final(v)@ == old(v)@ + spec_flatten(*cycle_tree),
    decreases *cycle_tree,
{
    match cycle_tree {
        CycleTree::Leaf(l) => {
            v.push(*l);
            assert(v@ =~= old(v)@ + spec_flatten(*cycle_tree));
        },
        CycleTree::Node((count, children)) => {
            let ghost v0 = v@;
            let ghost section = spec_flatten_list(children@);
            let mut round: usize = 0;
            while round < *count
                invariant
                    round <= *count,
                    *cycle_tree == CycleTree::Node::<L>((*count, *children)),
                    section == spec_flatten_list(children@),
                    v@ == v0 + spec_repeat(section, round as nat),
                decreases *count - round,
            {
                let ghost v_round = v@;
                let mut i: usize = 0;
                while i < children.len()
                    invariant
                        i <= children@.len(),
                        *cycle_tree == CycleTree::Node::<L>((*count, *children)),
                        v@ == v_round + spec_flatten_list(children@.take(i as int)),
                    decreases children@.len() - i,
                {
                    proof {
                        let tup = cycle_tree->Node_0;
                        assert(decreases_to!(*cycle_tree => tup));
                        assert(decreases_to!(tup => tup.1));
                        assert(decreases_to!(tup.1 => tup.1@));
                        assert(decreases_to!(tup.1@ => tup.1@[i as int]));
                        assert(tup.1@ == children@);
                        assert(decreases_to!(*cycle_tree => children@[i as int]));
                    }
                    flatten(&children[i], v);
                    proof {
                        lemma_flatten_list_snoc(children@.take(i as int), children@[i as int]);
                        assert(children@.take(i as int).push(children@[i as int]) =~= children@.take(
                            i + 1,
                        ));
                    }
                    i = i + 1;
                }
                proof {
                    assert(children@.take(children@.len() as int) =~= children@);
                }
                round = round + 1;
            }
            assert(v@ =~= old(v)@ + spec_flatten(*cycle_tree));
        },
    }
}

} // verus!
