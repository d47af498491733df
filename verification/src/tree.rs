//! The tree of filesystem entries, kept in a `petgraph` stable graph.

use vstd::prelude::*;
use vstd::string::*;
use petgraph::stable_graph::StableGraph;
use petgraph::graph::NodeIndex;
use petgraph::Direction;

verus! {

/// What is known of one filesystem entry.
#[derive(Debug, Clone)]
pub struct EntryData {
    /// The segment that this entry adds to the path of its parent. It is also
    /// the name under which the entry is listed.
    pub name: String,
    /// The bytes used by the entry and everything below it.
    pub size: u64,
    /// Whether the entry is a directory.
    pub is_dir: bool,
}

/// The stable graph of `petgraph`, carried through as an opaque value.
#[verifier::external_type_specification]
#[verifier::external_body]
#[verifier::reject_recursive_types(N)]
#[verifier::reject_recursive_types(E)]
#[verifier::reject_recursive_types(Ty)]
#[verifier::reject_recursive_types(Ix)]
pub struct ExStableGraph<N, E, Ty, Ix>(StableGraph<N, E, Ty, Ix>);

/// The marker of `petgraph` for graphs whose edges have a direction.
#[verifier::external_type_specification]
#[verifier::external_body]
pub struct ExDirected(petgraph::Directed);

/// A handle to a node of the tree.
pub type TreeIndex = u32;

/// The tree: nodes carry entries, edges lead from a directory to its content.
pub type Tree = StableGraph<EntryData, ()>;

/// The entries of the tree by handle.
pub uninterp spec fn tree_entries(tree: Tree) -> Map<TreeIndex, EntryData>;

/// The nodes reached from a node by one edge, against the edge's direction
/// where `incoming` holds, in the order in which the graph hands them out.
pub uninterp spec fn tree_neighbors(tree: Tree, node: TreeIndex, incoming: bool) -> Seq<TreeIndex>;

/// Looks up the entry of a node with `StableGraph::node_weight`: the entry
/// that the tree holds under the handle, if it holds one.
#[verifier::external_body]
pub(crate) fn entry_of(tree: &Tree, node: TreeIndex) -> (entry: Option<&EntryData>)
    ensures
        entry == (if tree_entries(*tree).dom().contains(node) {
            Some(&tree_entries(*tree)[node])
        } else {
            None
        }),
{
    tree.node_weight(NodeIndex::new(node as usize))
}

/// Lists the neighbours of a node with `StableGraph::neighbors_directed`, in
/// the order of its iterator: the parents where `incoming` holds, else the
/// children.
#[verifier::external_body]
pub(crate) fn neighbors_of(tree: &Tree, node: TreeIndex, incoming: bool) -> (found: Vec<TreeIndex>)
    ensures
        found@ == tree_neighbors(*tree, node, incoming),
{
    let dir = if incoming { Direction::Incoming } else { Direction::Outgoing };
    tree.neighbors_directed(NodeIndex::new(node as usize), dir).map(|n| n.index() as u32).collect()
}

/// Counts the nodes of the tree with `StableGraph::node_count`: as many as
/// there are handles with an entry.
#[verifier::external_body]
pub(crate) fn node_count_of(tree: &Tree) -> (count: usize)
    ensures
        count == tree_entries(*tree).dom().len(),
{
    tree.node_count()
}

/// Whether no edge leads to the node: it is the top of the whole tree.
pub open spec fn is_top_node(tree: Tree, node: TreeIndex) -> bool {
    tree_neighbors(tree, node, true).len() == 0
}

/// The node one level up, if there is one.
pub open spec fn parent_of(tree: Tree, node: TreeIndex) -> Option<TreeIndex> {
    let up = tree_neighbors(tree, node, true);
    if up.len() == 0 {
        None
    } else {
        Some(up[0])
    }
}

/// The nodes from the top of the tree down to `node`, found by going up at
/// most `steps` levels.
pub open spec fn lineage(tree: Tree, node: TreeIndex, steps: nat) -> Seq<TreeIndex>
    decreases steps,
{
    match parent_of(tree, node) {
        Some(parent) if steps > 0 => lineage(tree, parent, (steps - 1) as nat).push(node),
        _ => seq![node],
    }
}

/// The path segment of a node: the name of its entry, and nothing for a node
/// without an entry.
pub open spec fn segment_of(entries: Map<TreeIndex, EntryData>, node: TreeIndex) -> Seq<char> {
    if entries.dom().contains(node) {
        entries[node].name@
    } else {
        Seq::empty()
    }
}

/// A path with one more segment. A segment that starts with `/` begins a new
/// path. Any other segment is put behind the path, after a `/` unless the path
/// is empty or ends with one.
pub open spec fn joined(path: Seq<char>, segment: Seq<char>) -> Seq<char> {
    if segment.len() > 0 && segment[0] == '/' {
        segment
    } else if path.len() == 0 || path.last() == '/' {
        path + segment
    } else {
        path + seq!['/'] + segment
    }
}

/// The segments of the given nodes joined into one path, first node first.
pub open spec fn path_through(entries: Map<TreeIndex, EntryData>, nodes: Seq<TreeIndex>) -> Seq<
    char,
>
    decreases nodes.len(),
{
    if nodes.len() == 0 {
        Seq::empty()
    } else {
        joined(path_through(entries, nodes.drop_last()), segment_of(entries, nodes.last()))
    }
}

/// The path of a node: the segments from the top of the tree down to it.
pub open spec fn node_path(tree: Tree, node: TreeIndex) -> Seq<char> {
    path_through(tree_entries(tree), lineage(tree, node, tree_entries(tree).dom().len()))
}

/// Tells whether the node is the top of the whole tree.
pub fn is_top(tree: &Tree, node: TreeIndex) -> (top: bool)
    ensures
        top == is_top_node(*tree, node),
{
    neighbors_of(tree, node, true).len() == 0
}

/// Lists the nodes from the top of the tree down to `node`.
pub fn lineage_of(tree: &Tree, node: TreeIndex) -> (nodes: Vec<TreeIndex>)
    ensures
        nodes@ == lineage(*tree, node, tree_entries(*tree).dom().len()),
{
    let mut steps = node_count_of(tree);
    let mut up: Vec<TreeIndex> = Vec::new();
    let mut current = node;
    let mut parents = neighbors_of(tree, current, true);
    let ghost whole = lineage(*tree, node, steps as nat);
    assert(up@.reverse() =~= Seq::empty());
    assert(whole =~= lineage(*tree, current, steps as nat) + up@.reverse());
    while steps > 0 && parents.len() > 0
        invariant
            parents@ == tree_neighbors(*tree, current, true),
            whole == lineage(*tree, current, steps as nat) + up@.reverse(),
        decreases steps,
    {
        let ghost before = up@;
        up.push(current);
        assert(up@.reverse() =~= seq![current] + before.reverse());
        assert(whole =~= lineage(*tree, parents@[0], (steps - 1) as nat) + up@.reverse());
        current = parents[0];
        steps = steps - 1;
        parents = neighbors_of(tree, current, true);
    }
    let ghost before = up@;
    up.push(current);
    assert(up@.reverse() =~= seq![current] + before.reverse());
    assert(whole =~= up@.reverse());
    let mut nodes: Vec<TreeIndex> = Vec::new();
    let mut taken: usize = 0;
    assert(up@.reverse().take(0) =~= nodes@);
    while taken < up.len()
        invariant
            taken <= up.len(),
            nodes@ == up@.reverse().take(taken as int),
        decreases up.len() - taken,
    {
        nodes.push(up[up.len() - 1 - taken]);
        taken = taken + 1;
        assert(nodes@ =~= up@.reverse().take(taken as int));
    }
    assert(up@.reverse().take(taken as int) =~= up@.reverse());
    nodes
}

/// Puts one more segment behind a path.
pub fn join(path: String, segment: &str) -> (longer: String)
    ensures
        longer@ == joined(path@, segment@),
{
    let path_len = path.as_str().unicode_len();
    let starts_anew = segment.unicode_len() > 0 && segment.get_char(0) == '/';
    if starts_anew {
        String::from_str(segment)
    } else if path_len == 0 || path.as_str().get_char(path_len - 1) == '/' {
        path.concat(segment)
    } else {
        proof {
            reveal_strlit("/");
            assert("/"@ =~= seq!['/']);
        }
        path.concat("/").concat(segment)
    }
}

/// Builds the path of a node from the segments of the nodes above it.
pub fn path_of(tree: &Tree, node: TreeIndex) -> (path: String)
    ensures
        path@ == node_path(*tree, node),
{
    let nodes = lineage_of(tree, node);
    let mut path = String::new();
    let mut i: usize = 0;
    assert(nodes@.take(0) =~= Seq::empty());
    while i < nodes.len()
        invariant
            i <= nodes.len(),
            path@ == path_through(tree_entries(*tree), nodes@.take(i as int)),
        decreases nodes.len() - i,
    {
        assert(nodes@.take(i + 1).drop_last() =~= nodes@.take(i as int));
        path = match entry_of(tree, nodes[i]) {
            Some(entry) => join(path, entry.name.as_str()),
            None => {
                proof {
                    reveal_strlit("");
                }
                join(path, "")
            },
        };
        i = i + 1;
    }
    assert(nodes@.take(i as int) =~= nodes@);
    path
}

/// Once the walk up from a node has reached the top, more steps do not
/// change the lineage: the nodes above a node do not depend on how many nodes
/// the tree holds elsewhere.
pub proof fn lineage_ignores_spare_steps(tree: Tree, node: TreeIndex, enough: nat, more: nat)
    requires
        lineage(tree, node, enough).len() <= enough,
        enough <= more,
    ensures
        lineage(tree, node, more) == lineage(tree, node, enough),
    decreases enough,
{
    match parent_of(tree, node) {
        Some(parent) => {
            if enough > 0 {
                lineage_ignores_spare_steps(tree, parent, (enough - 1) as nat, (more - 1) as nat);
            }
        },
        None => {},
    }
}

/// A path depends on the segments of its nodes alone: two trees that give
/// the nodes the same segments give them the same path.
pub proof fn path_reads_its_nodes_only(
    one: Map<TreeIndex, EntryData>,
    other: Map<TreeIndex, EntryData>,
    nodes: Seq<TreeIndex>,
)
    requires
        forall|k: int|
            0 <= k < nodes.len() ==> segment_of(one, #[trigger] nodes[k]) == segment_of(
                other,
                nodes[k],
            ),
    ensures
        path_through(one, nodes) == path_through(other, nodes),
    decreases nodes.len(),
{
    if nodes.len() > 0 {
        path_reads_its_nodes_only(one, other, nodes.drop_last());
        assert(nodes.last() == nodes[nodes.len() - 1]);
    }
}

} // verus!
