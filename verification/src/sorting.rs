//! Ranking the direct children of a node by size.

use vstd::prelude::*;
use vstd::multiset::group_multiset_axioms;
use vstd::relations::{sorted_by, total_ordering};
use vstd::seq_lib::{
    group_to_multiset_ensures, lemma_multiset_commutative, lemma_sorted_unique, to_multiset_build,
};
use crate::sort_mode::SortMode;
use crate::tree::{entry_of, neighbors_of, tree_entries, tree_neighbors, EntryData, Tree, TreeIndex};

verus! {

/// Whether entry `a` may stand before entry `b` in a listing. An entry is a
/// node handle with the node's size. The size decides; among entries of one
/// size the smaller handle comes first, in both modes.
pub open spec fn ranks_before(a: (TreeIndex, u64), b: (TreeIndex, u64), mode: SortMode) -> bool {
    match mode {
        SortMode::SizeDescending => a.1 > b.1 || (a.1 == b.1 && a.0 <= b.0),
        SortMode::SizeAscending => a.1 < b.1 || (a.1 == b.1 && a.0 <= b.0),
    }
}

/// The ranking of a mode as a relation.
pub open spec fn ranking(mode: SortMode) -> spec_fn((TreeIndex, u64), (TreeIndex, u64)) -> bool {
    |a: (TreeIndex, u64), b: (TreeIndex, u64)| ranks_before(a, b, mode)
}

/// Whether every entry of `s` may stand before all entries after it.
pub open spec fn is_ranked(s: Seq<(TreeIndex, u64)>, mode: SortMode) -> bool {
    forall|i: int, j: int|
        0 <= i < j < s.len() ==> ranks_before(#[trigger] s[i], #[trigger] s[j], mode)
}

/// The entries of the given nodes, in the given order: each node that the
/// tree holds an entry for, with that entry's size.
pub open spec fn entries_of(entries: Map<TreeIndex, EntryData>, nodes: Seq<TreeIndex>) -> Seq<
    (TreeIndex, u64),
>
    decreases nodes.len(),
{
    if nodes.len() == 0 {
        Seq::empty()
    } else {
        let rest = entries_of(entries, nodes.drop_last());
        if entries.dom().contains(nodes.last()) {
            rest.push((nodes.last(), entries[nodes.last()].size))
        } else {
            rest
        }
    }
}

/// The direct children of `node` with their sizes, as the graph lists them.
pub open spec fn level_of(tree: Tree, node: TreeIndex) -> Seq<(TreeIndex, u64)> {
    entries_of(tree_entries(tree), tree_neighbors(tree, node, false))
}

/// Decides whether `a` may stand before `b`.
pub fn comes_first(a: (TreeIndex, u64), b: (TreeIndex, u64), mode: SortMode) -> (first: bool)
    ensures
        first == ranks_before(a, b, mode),
{
    match mode {
        SortMode::SizeDescending => a.1 > b.1 || (a.1 == b.1 && a.0 <= b.0),
        SortMode::SizeAscending => a.1 < b.1 || (a.1 == b.1 && a.0 <= b.0),
    }
}

/// Merges two ranked runs into one.
fn merge(left: &Vec<(TreeIndex, u64)>, right: &Vec<(TreeIndex, u64)>, mode: SortMode) -> (out: Vec<
    (TreeIndex, u64),
>)
    requires
        is_ranked(left@, mode),
        is_ranked(right@, mode),
        left.len() + right.len() <= usize::MAX,
    ensures
        is_ranked(out@, mode),
        out@.to_multiset() == left@.to_multiset().add(right@.to_multiset()),
        out.len() == left.len() + right.len(),
{
    broadcast use {group_to_multiset_ensures, group_multiset_axioms};

    let mut out: Vec<(TreeIndex, u64)> = Vec::new();
    let mut i: usize = 0;
    let mut j: usize = 0;
    assert(left@.take(0) =~= Seq::empty());
    assert(right@.take(0) =~= Seq::empty());
    while i < left.len() || j < right.len()
        invariant
            i <= left.len(),
            j <= right.len(),
            left.len() + right.len() <= usize::MAX,
            out.len() == i + j,
            is_ranked(left@, mode),
            is_ranked(right@, mode),
            is_ranked(out@, mode),
            out@.to_multiset() == left@.take(i as int).to_multiset().add(
                right@.take(j as int).to_multiset(),
            ),
            forall|k: int, p: int|
                0 <= k < out@.len() && i <= p < left@.len() ==> ranks_before(
                    #[trigger] out@[k],
                    #[trigger] left@[p],
                    mode,
                ),
            forall|k: int, q: int|
                0 <= k < out@.len() && j <= q < right@.len() ==> ranks_before(
                    #[trigger] out@[k],
                    #[trigger] right@[q],
                    mode,
                ),
        decreases left.len() - i + right.len() - j,
    {
        let from_left = if i == left.len() {
            false
        } else if j == right.len() {
            true
        } else {
            comes_first(left[i], right[j], mode)
        };
        let ghost before = out@;
        let ghost l = left@.take(i as int).to_multiset();
        let ghost r = right@.take(j as int).to_multiset();
        if from_left {
            let x = left[i];
            assert(left@.take(i + 1) =~= left@.take(i as int).push(x));
            out.push(x);
            i = i + 1;
            proof {
                assert(out@ == before.push(x));
                to_multiset_build(before, x);
                to_multiset_build(left@.take(i - 1), x);
                assert(left@.take(i as int).to_multiset() == l.insert(x));
                assert(l.add(r).insert(x) =~= l.insert(x).add(r));
            }
        } else {
            let x = right[j];
            assert(right@.take(j + 1) =~= right@.take(j as int).push(x));
            out.push(x);
            j = j + 1;
            proof {
                assert(out@ == before.push(x));
                to_multiset_build(before, x);
                to_multiset_build(right@.take(j - 1), x);
                assert(right@.take(j as int).to_multiset() == r.insert(x));
                assert(l.add(r).insert(x) =~= l.add(r.insert(x)));
            }
        }
    }
    assert(left@.take(i as int) =~= left@);
    assert(right@.take(j as int) =~= right@);
    out
}

/// Ranks the entries `v[lo..hi]` by repeated halving and merging.
fn merge_sort(v: &Vec<(TreeIndex, u64)>, lo: usize, hi: usize, mode: SortMode) -> (out: Vec<
    (TreeIndex, u64),
>)
    requires
        lo <= hi <= v.len(),
    ensures
        is_ranked(out@, mode),
        out@.to_multiset() == v@.subrange(lo as int, hi as int).to_multiset(),
        out.len() == hi - lo,
    decreases hi - lo,
{
    if hi - lo <= 1 {
        let mut out: Vec<(TreeIndex, u64)> = Vec::new();
        if hi - lo == 1 {
            out.push(v[lo]);
        }
        assert(out@ =~= v@.subrange(lo as int, hi as int));
        out
    } else {
        let mid = lo + (hi - lo) / 2;
        let left = merge_sort(v, lo, mid, mode);
        let right = merge_sort(v, mid, hi, mode);
        proof {
            let a = v@.subrange(lo as int, mid as int);
            let b = v@.subrange(mid as int, hi as int);
            assert(a + b =~= v@.subrange(lo as int, hi as int));
            lemma_multiset_commutative(a, b);
        }
        merge(&left, &right, mode)
    }
}

/// Ranks entries by size in the given mode. The result holds the same
/// entries, each as often as before, and every entry may stand before all
/// that follow it.
pub fn rank(entries: &Vec<(TreeIndex, u64)>, mode: SortMode) -> (out: Vec<(TreeIndex, u64)>)
    ensures
        is_ranked(out@, mode),
        out@.to_multiset() == entries@.to_multiset(),
        out.len() == entries.len(),
{
    assert(entries@.subrange(0, entries.len() as int) =~= entries@);
    merge_sort(entries, 0, entries.len(), mode)
}

/// The direct children of `node` with their sizes, ranked in the given mode.
/// Children without an entry in the tree are left out. The tree is only read,
/// and nothing below the children is looked at.
pub fn sorted_entries(tree: &Tree, node: TreeIndex, sorting: SortMode) -> (out: Vec<
    (TreeIndex, u64),
>)
    ensures
        is_ranked(out@, sorting),
        out@.to_multiset() == level_of(*tree, node).to_multiset(),
        out.len() == level_of(*tree, node).len(),
{
    let children = neighbors_of(tree, node, false);
    let mut listed: Vec<(TreeIndex, u64)> = Vec::new();
    let mut i: usize = 0;
    assert(children@.take(0) =~= Seq::empty());
    while i < children.len()
        invariant
            i <= children.len(),
            listed@ == entries_of(tree_entries(*tree), children@.take(i as int)),
        decreases children.len() - i,
    {
        let child = children[i];
        assert(children@.take(i + 1).drop_last() =~= children@.take(i as int));
        match entry_of(tree, child) {
            Some(entry) => {
                listed.push((child, entry.size));
            },
            None => {},
        }
        i = i + 1;
    }
    assert(children@.take(i as int) =~= children@);
    rank(&listed, sorting)
}

/// The ranking of either mode is a total order on entries.
pub proof fn ranking_is_total_order(mode: SortMode)
    ensures
        total_ordering(ranking(mode)),
{
    let r = ranking(mode);
    assert forall|x: (TreeIndex, u64), y: (TreeIndex, u64)| #[trigger] r(x, y) && #[trigger] r(
        y,
        x,
    ) implies x == y by {}
}

/// A level has one ranked listing per mode: two ranked sequences that hold the
/// same entries, each equally often, are the same sequence. Entries of equal
/// size therefore keep their places from one redraw to the next.
pub proof fn ranked_listing_is_unique(
    a: Seq<(TreeIndex, u64)>,
    b: Seq<(TreeIndex, u64)>,
    mode: SortMode,
)
    requires
        is_ranked(a, mode),
        is_ranked(b, mode),
        a.to_multiset() == b.to_multiset(),
    ensures
        a == b,
{
    ranking_is_total_order(mode);
    let r = ranking(mode);
    assert(sorted_by(a, r));
    assert(sorted_by(b, r));
    lemma_sorted_unique(a, b, r);
}

/// In a ranked listing sizes never grow from one row to the next when the
/// largest comes first, and never shrink when the smallest comes first.
pub proof fn ranked_sizes_are_monotonic(s: Seq<(TreeIndex, u64)>, mode: SortMode, i: int, j: int)
    requires
        is_ranked(s, mode),
        0 <= i <= j < s.len(),
    ensures
        mode == SortMode::SizeDescending ==> s[i].1 >= s[j].1,
        mode == SortMode::SizeAscending ==> s[i].1 <= s[j].1,
{
}

/// Whether no two entries of a level have the same size.
pub open spec fn has_distinct_sizes(s: Seq<(TreeIndex, u64)>) -> bool {
    forall|i: int, j: int| 0 <= i < j < s.len() ==> (#[trigger] s[i]).1 != (#[trigger] s[j]).1
}

/// Where no two entries have the same size, the listing of one mode read
/// backwards is the listing of the other mode.
pub proof fn orders_mirror(s: Seq<(TreeIndex, u64)>, mode: SortMode)
    requires
        is_ranked(s, mode),
        has_distinct_sizes(s),
    ensures
        is_ranked(s.reverse(), mode.toggled()),
        s.reverse().to_multiset() == s.to_multiset(),
{
    let r = s.reverse();
    assert forall|i: int, j: int| 0 <= i < j < r.len() implies ranks_before(
        #[trigger] r[i],
        #[trigger] r[j],
        mode.toggled(),
    ) by {
        let a = s.len() - 1 - j;
        let b = s.len() - 1 - i;
        assert(r[i] == s[b]);
        assert(r[j] == s[a]);
        assert(ranks_before(s[a], s[b], mode));
        assert(s[a].1 != s[b].1);
    }
    s.lemma_reverse_to_multiset();
}

/// A level depends on the entries of its nodes alone: two trees that agree
/// on those nodes give the same level.
pub proof fn level_reads_its_nodes_only(
    one: Map<TreeIndex, EntryData>,
    other: Map<TreeIndex, EntryData>,
    nodes: Seq<TreeIndex>,
)
    requires
        forall|k: int|
            0 <= k < nodes.len() ==> one.dom().contains(#[trigger] nodes[k])
                == other.dom().contains(nodes[k]) && (one.dom().contains(nodes[k]) ==> one[nodes[k]].size
                == other[nodes[k]].size),
    ensures
        entries_of(one, nodes) == entries_of(other, nodes),
    decreases nodes.len(),
{
    if nodes.len() > 0 {
        level_reads_its_nodes_only(one, other, nodes.drop_last());
        assert(nodes.last() == nodes[nodes.len() - 1]);
    }
}

/// Every entry of a level belongs to one of the nodes that it was listed
/// from.
pub proof fn level_holds_listed_nodes(
    entries: Map<TreeIndex, EntryData>,
    nodes: Seq<TreeIndex>,
    k: int,
)
    requires
        0 <= k < entries_of(entries, nodes).len(),
    ensures
        nodes.contains(entries_of(entries, nodes)[k].0),
        entries.dom().contains(entries_of(entries, nodes)[k].0),
        entries_of(entries, nodes)[k].1 == entries[entries_of(entries, nodes)[k].0].size,
    decreases nodes.len(),
{
    if nodes.len() > 0 {
        let rest = entries_of(entries, nodes.drop_last());
        if k < rest.len() {
            level_holds_listed_nodes(entries, nodes.drop_last(), k);
            let found = rest[k].0;
            let at = choose|at: int| 0 <= at < nodes.drop_last().len() && nodes.drop_last()[at] == found;
            assert(nodes[at] == found);
        } else {
            assert(nodes[nodes.len() - 1] == nodes.last());
        }
    }
}

} // verus!
