//! The panel that lists the children of the viewed directory.

use vstd::prelude::*;
use vstd::string::*;
use tui::buffer::Buffer;
use crate::format::{ByteFormat, DisplayOptions};
use vstd::multiset::group_multiset_axioms;
use vstd::seq_lib::{group_to_multiset_ensures, to_multiset_len};
use crate::percent::{
    level_total, percentage, percentage_text, share, share_is_at_most_hundred, share_text,
    shares_add_up, size_within_sum, sum_ignores_order, sum_shares, sum_sizes,
};
use crate::screen::{
    buffer_cells, buffer_region, cells_after_list, covers, lines_view, render_list, well_formed,
    Line, Rect, Style, ALL_BORDERS,
};
use crate::sort_mode::SortMode;
use crate::sorting::{
    has_distinct_sizes, is_ranked, level_of, orders_mirror, ranked_listing_is_unique,
    ranked_sizes_are_monotonic, ranks_before, sorted_entries,
};
use crate::sorting::{level_holds_listed_nodes, level_reads_its_nodes_only};
use crate::tree::{
    entry_of, is_top, is_top_node, node_path, path_of, segment_of, tree_entries, tree_neighbors,
    Tree, TreeIndex,
};

verus! {

/// One line of the panel, made anew for each frame.
#[derive(Debug, Clone)]
pub struct Row {
    /// The child that the row shows.
    pub node: TreeIndex,
    /// The size of the child in bytes.
    pub size: u64,
    /// The share of the child in its level, in hundredths of a percent.
    pub percentage: u64,
    /// The text of the row.
    pub label: String,
    /// Whether the row shows the selected child.
    pub highlighted: bool,
}

/// The panel of the children of `root`.
pub struct Entries<'a, F: ByteFormat> {
    pub tree: &'a Tree,
    /// The directory whose children are listed.
    pub root: TreeIndex,
    pub display: DisplayOptions<F>,
    pub sorting: SortMode,
    /// The child that is selected, if any.
    pub selected: Option<TreeIndex>,
}

/// The text of a row: the size as it was written out, the share, and the
/// name. A `/` stands before the name where the row is marked as a directory,
/// a blank elsewhere.
pub open spec fn row_label(size_text: Seq<char>, share: nat, marked: bool, name: Seq<char>) -> Seq<
    char,
> {
    size_text + " | "@ + share_text(share) + "% | "@ + (if marked {
        "/"@
    } else {
        " "@
    }) + name
}

/// Whether the row of `node` is marked as a directory while `root` is
/// viewed: the node is a directory, and the root is not the top of the whole
/// tree. At the top no row is marked.
pub open spec fn is_marked(tree: Tree, root: TreeIndex, node: TreeIndex) -> bool {
    &&& !is_top_node(tree, root)
    &&& tree_entries(tree).dom().contains(node)
    &&& tree_entries(tree)[node].is_dir
}

/// The title of the panel: the path of the viewed directory between two
/// blanks. For an empty path the working directory stands in, and a dot where
/// that is not known.
pub open spec fn panel_title(path: Seq<char>, working_dir: Option<Seq<char>>) -> Seq<char> {
    " "@ + (if path.len() > 0 {
        path
    } else {
        match working_dir {
            Some(dir) => dir,
            None => "."@,
        }
    }) + " "@
}

/// An optional text as plain values.
pub open spec fn text_of(text: Option<&str>) -> Option<Seq<char>> {
    match text {
        Some(t) => Some(t@),
        None => None,
    }
}

/// The rows as lines with their colours: the selected row in swapped
/// colours.
pub open spec fn row_lines(rows: Seq<Row>) -> Seq<(Seq<char>, Style)> {
    Seq::new(rows.len(), |i: int| (rows[i].label@, Style::of_row(rows[i].highlighted)))
}

/// The handles and sizes of the rows, in their order.
pub open spec fn listed(rows: Seq<Row>) -> Seq<(TreeIndex, u64)> {
    Seq::new(rows.len(), |i: int| (rows[i].node, rows[i].size))
}

/// Composes the text of a row.
pub fn format_row(size_text: &str, hundredths: u128, marked: bool, name: &str) -> (label: String)
    ensures
        label@ == row_label(size_text@, hundredths as nat, marked, name@),
{
    let mut label = String::from_str(size_text);
    label.append(" | ");
    let share = percentage_text(hundredths);
    label.append(share.as_str());
    label.append("% | ");
    if marked {
        label.append("/");
    } else {
        label.append(" ");
    }
    label.append(name);
    label
}

/// Composes the title of the panel.
pub fn title_for(path: &str, working_dir: Option<&str>) -> (title: String)
    ensures
        title@ == panel_title(path@, text_of(working_dir)),
{
    let mut title = String::from_str(" ");
    if path.unicode_len() > 0 {
        title.append(path);
    } else {
        match working_dir {
            Some(dir) => {
                title.append(dir);
            },
            None => {
                title.append(".");
            },
        }
    }
    title.append(" ");
    title
}

/// Draws the rows, top-down, in a bordered block with the given title.
/// Nothing outside `area` changes.
pub fn draw_panel(title: &str, rows: &Vec<Row>, area: Rect, buf: &mut Buffer)
    requires
        well_formed(*old(buf)),
        buffer_region(*old(buf)).contains(area),
    ensures
        well_formed(*final(buf)),
        buffer_region(*final(buf)) == buffer_region(*old(buf)),
        buffer_cells(*final(buf)) == cells_after_list(
            buffer_cells(*old(buf)),
            buffer_region(*old(buf)),
            area,
            title@,
            ALL_BORDERS,
            row_lines(rows@),
        ),
        buffer_cells(*final(buf)).len() == buffer_cells(*old(buf)).len(),
        forall|i: int|
            #![trigger buffer_cells(*final(buf))[i]]
            0 <= i < buffer_cells(*old(buf)).len() && !covers(buffer_region(*old(buf)), area, i)
                ==> buffer_cells(*final(buf))[i] == buffer_cells(*old(buf))[i],
{
    let mut lines: Vec<Line> = Vec::new();
    let mut i: usize = 0;
    while i < rows.len()
        invariant
            i <= rows.len(),
            lines.len() == i,
            forall|k: int| 0 <= k < i ==> (#[trigger] lines@[k]).view() == row_lines(rows@)[k],
        decreases rows.len() - i,
    {
        let line = Line { text: rows[i].label.clone(), style: Style::for_row(rows[i].highlighted) };
        lines.push(line);
        i = i + 1;
    }
    assert(lines_view(lines@) =~= row_lines(rows@));
    render_list(buf, area, title, ALL_BORDERS, &lines);
}

impl<'a, F: ByteFormat> Entries<'a, F> {
    /// Whether `row` is the row of its node: it has the node's share of the
    /// level and is highlighted exactly if the node is selected, and its text
    /// is that of a row with the size in the panel's notation.
    pub open spec fn describes(&self, row: Row) -> bool {
        &&& row.percentage == share(row.size as nat, sum_sizes(level_of(*self.tree, self.root)))
        &&& row.highlighted == (self.selected == Some(row.node))
        &&& row.label@ == row_label(
            self.display.byte_format.shown(row.size),
            row.percentage as nat,
            is_marked(*self.tree, self.root, row.node),
            segment_of(tree_entries(*self.tree), row.node),
        )
    }

    /// Whether `rows` are the rows of the panel: one for each child of the
    /// root that has an entry, ranked in the panel's mode.
    pub open spec fn lists(&self, rows: Seq<Row>) -> bool {
        &&& is_ranked(listed(rows), self.sorting)
        &&& listed(rows).to_multiset() == level_of(*self.tree, self.root).to_multiset()
        &&& forall|i: int| 0 <= i < rows.len() ==> self.describes(#[trigger] rows[i])
    }

    /// The title of the panel.
    pub open spec fn title_text(&self, working_dir: Option<Seq<char>>) -> Seq<char> {
        panel_title(node_path(*self.tree, self.root), working_dir)
    }

    /// Computes the rows of the panel, in the order in which they are shown.
    pub fn rows(&self) -> (rows: Vec<Row>)
        ensures
            self.lists(rows@),
    {
        let sorted = sorted_entries(self.tree, self.root, self.sorting);
        let total = level_total(&sorted);
        let at_top = is_top(self.tree, self.root);
        proof {
            sum_ignores_order(sorted@, level_of(*self.tree, self.root));
        }
        let mut rows: Vec<Row> = Vec::new();
        let mut i: usize = 0;
        while i < sorted.len()
            invariant
                i <= sorted.len(),
                rows.len() == i,
                total == sum_sizes(sorted@),
                total == sum_sizes(level_of(*self.tree, self.root)),
                at_top == is_top_node(*self.tree, self.root),
                forall|k: int|
                    0 <= k < i ==> (#[trigger] rows@[k]).node == sorted@[k].0 && rows@[k].size
                        == sorted@[k].1 && self.describes(rows@[k]),
            decreases sorted.len() - i,
        {
            let node: TreeIndex = sorted[i].0;
            let size: u64 = sorted[i].1;
            let hundredths = percentage(size, total);
            proof {
                size_within_sum(sorted@, i as int);
                share_is_at_most_hundred(size as nat, total as nat);
                reveal_strlit("");
            }
            let entry = entry_of(self.tree, node);
            let marked = match entry {
                Some(data) => data.is_dir && !at_top,
                None => false,
            };
            let name = match entry {
                Some(data) => data.name.as_str(),
                None => "",
            };
            let size_text = self.display.byte_format.display(size);
            let label = format_row(size_text.as_str(), hundredths, marked, name);
            let highlighted = match self.selected {
                Some(chosen) => chosen == node,
                None => false,
            };
            let row = Row { node, size, percentage: hundredths as u64, label, highlighted };
            assert(row.highlighted == (self.selected == Some(row.node)));
            assert(self.describes(row));
            rows.push(row);
            i = i + 1;
        }
        assert(listed(rows@) =~= sorted@);
        rows
    }

    /// Composes the title of the panel. `working_dir` is the working
    /// directory in canonical form, where it could be found out.
    pub fn title(&self, working_dir: Option<&str>) -> (title: String)
        ensures
            title@ == self.title_text(text_of(working_dir)),
    {
        let path = path_of(self.tree, self.root);
        title_for(path.as_str(), working_dir)
    }

    /// Draws the panel into `area`, which must lie in the buffer. Nothing
    /// outside the area changes.
    pub fn draw(&self, area: Rect, buf: &mut Buffer, working_dir: Option<&str>)
        requires
            well_formed(*old(buf)),
            buffer_region(*old(buf)).contains(area),
        ensures
            well_formed(*final(buf)),
            buffer_region(*final(buf)) == buffer_region(*old(buf)),
            exists|rows: Seq<Row>|
                self.lists(rows) && buffer_cells(*final(buf)) == cells_after_list(
                    buffer_cells(*old(buf)),
                    buffer_region(*old(buf)),
                    area,
                    self.title_text(text_of(working_dir)),
                    ALL_BORDERS,
                    #[trigger] row_lines(rows),
                ),
            buffer_cells(*final(buf)).len() == buffer_cells(*old(buf)).len(),
            forall|i: int|
                #![trigger buffer_cells(*final(buf))[i]]
                0 <= i < buffer_cells(*old(buf)).len() && !covers(
                    buffer_region(*old(buf)),
                    area,
                    i,
                ) ==> buffer_cells(*final(buf))[i] == buffer_cells(*old(buf))[i],
    {
        let rows = self.rows();
        let title = self.title(working_dir);
        draw_panel(title.as_str(), &rows, area, buf);
    }
}

/// Whether no node occurs twice among the entries of a level.
pub open spec fn has_distinct_nodes(level: Seq<(TreeIndex, u64)>) -> bool {
    forall|i: int, j: int|
        0 <= i < j < level.len() ==> (#[trigger] level[i]).0 != (#[trigger] level[j]).0
}

/// Every row of a panel shows a child of the root, and every child with an
/// entry has a row.
pub proof fn rows_are_children<F: ByteFormat>(panel: Entries<F>, rows: Seq<Row>)
    requires
        panel.lists(rows),
    ensures
        rows.len() == level_of(*panel.tree, panel.root).len(),
        forall|i: int|
            0 <= i < rows.len() ==> level_of(*panel.tree, panel.root).contains(
                #[trigger] listed(rows)[i],
            ),
        forall|k: int|
            0 <= k < level_of(*panel.tree, panel.root).len() ==> listed(rows).contains(
                #[trigger] level_of(*panel.tree, panel.root)[k],
            ),
{
    broadcast use {group_to_multiset_ensures, group_multiset_axioms};

    let shown = listed(rows);
    let level = level_of(*panel.tree, panel.root);
    to_multiset_len(shown);
    to_multiset_len(level);
    assert forall|i: int| 0 <= i < rows.len() implies level.contains(#[trigger] shown[i]) by {
        assert(shown.contains(shown[i]));
        assert(shown.to_multiset().count(shown[i]) > 0);
    }
    assert forall|k: int| 0 <= k < level.len() implies shown.contains(#[trigger] level[k]) by {
        assert(level.contains(level[k]));
        assert(level.to_multiset().count(level[k]) > 0);
    }
}

/// No row is highlighted if nothing is selected, or if the selected node is
/// no child of the root.
pub proof fn no_row_is_highlighted<F: ByteFormat>(panel: Entries<F>, rows: Seq<Row>)
    requires
        panel.lists(rows),
        panel.selected matches Some(chosen) ==> forall|k: int|
            0 <= k < level_of(*panel.tree, panel.root).len() ==> (#[trigger] level_of(
                *panel.tree,
                panel.root,
            )[k]).0 != chosen,
    ensures
        forall|j: int| 0 <= j < rows.len() ==> !(#[trigger] rows[j]).highlighted,
{
    let shown = listed(rows);
    let level = level_of(*panel.tree, panel.root);
    rows_are_children(panel, rows);
    assert forall|j: int| 0 <= j < rows.len() implies !(#[trigger] rows[j]).highlighted by {
        assert(panel.describes(rows[j]));
        assert(level.contains(shown[j]));
        let k = choose|k: int| 0 <= k < level.len() && level[k] == shown[j];
        assert(level[k].0 == rows[j].node);
    }
}

/// Where the children of the root are distinct nodes and the selected node
/// is one of them, exactly one row is highlighted, and it is the row of that
/// node.
pub proof fn one_row_is_highlighted<F: ByteFormat>(panel: Entries<F>, rows: Seq<Row>, chosen: TreeIndex)
    requires
        panel.lists(rows),
        has_distinct_nodes(level_of(*panel.tree, panel.root)),
        panel.selected == Some(chosen),
        exists|k: int|
            0 <= k < level_of(*panel.tree, panel.root).len() && (#[trigger] level_of(
                *panel.tree,
                panel.root,
            )[k]).0 == chosen,
    ensures
        exists|i: int|
            0 <= i < rows.len() && (#[trigger] rows[i]).highlighted && rows[i].node == chosen
                && forall|j: int|
                0 <= j < rows.len() && j != i ==> !(#[trigger] rows[j]).highlighted,
{
    broadcast use {group_to_multiset_ensures, group_multiset_axioms};

    let shown = listed(rows);
    let level = level_of(*panel.tree, panel.root);
    rows_are_children(panel, rows);
    assert(level.no_duplicates());
    level.lemma_multiset_has_no_duplicates();
    shown.lemma_multiset_has_no_duplicates_conv();
    assert forall|i: int, j: int| 0 <= i < rows.len() && 0 <= j < rows.len() && i != j implies (
    #[trigger] rows[i]).node != (#[trigger] rows[j]).node by {
        let a = choose|a: int| 0 <= a < level.len() && level[a] == shown[i];
        let b = choose|b: int| 0 <= b < level.len() && level[b] == shown[j];
        if rows[i].node == rows[j].node {
            assert(level[a].0 == level[b].0);
            assert(a == b);
            assert(shown[i] == shown[j]);
        }
    }
    let k = choose|k: int| 0 <= k < level.len() && (#[trigger] level[k]).0 == chosen;
    assert(shown.contains(level[k]));
    let i = choose|i: int| 0 <= i < shown.len() && shown[i] == level[k];
    assert(rows[i].node == chosen);
    assert(panel.describes(rows[i]));
    assert(rows[i].highlighted);
    assert forall|j: int| 0 <= j < rows.len() && j != i implies !(#[trigger] rows[j]).highlighted by {
        assert(panel.describes(rows[j]));
        assert(rows[j].node != rows[i].node);
    }
}

/// Whether two rows show the same: node, size, share, text and highlight.
pub open spec fn same_row(a: Row, b: Row) -> bool {
    &&& a.node == b.node
    &&& a.size == b.size
    &&& a.percentage == b.percentage
    &&& a.label@ == b.label@
    &&& a.highlighted == b.highlighted
}

/// Whether two panels differ in nothing but what is selected.
pub open spec fn same_but_selection<F: ByteFormat>(p: Entries<F>, q: Entries<F>) -> bool {
    &&& *p.tree == *q.tree
    &&& p.root == q.root
    &&& p.display == q.display
    &&& p.sorting == q.sorting
}

/// A panel has one listing: any two sequences of rows that it lists show the
/// same rows in the same order, so a second draw repeats the first.
pub proof fn rows_are_determined<F: ByteFormat>(panel: Entries<F>, a: Seq<Row>, b: Seq<Row>)
    requires
        panel.lists(a),
        panel.lists(b),
    ensures
        a.len() == b.len(),
        forall|i: int| 0 <= i < a.len() ==> same_row(#[trigger] a[i], b[i]),
        row_lines(a) == row_lines(b),
{
    selection_changes_colours_only(panel, panel, a, b);
    assert forall|i: int| 0 <= i < a.len() implies same_row(#[trigger] a[i], b[i]) by {
        assert(panel.describes(a[i]));
        assert(panel.describes(b[i]));
        assert(listed(a)[i] == listed(b)[i]);
    }
    assert(row_lines(a) =~= row_lines(b));
}

/// What is selected decides the colours of rows and nothing else: two panels
/// that differ only in the selection list the same nodes in the same order
/// with the same texts, and a row looks different in the two only if its
/// node is selected in one of them.
pub proof fn selection_changes_colours_only<F: ByteFormat>(
    p: Entries<F>,
    q: Entries<F>,
    a: Seq<Row>,
    b: Seq<Row>,
)
    requires
        same_but_selection(p, q),
        p.lists(a),
        q.lists(b),
    ensures
        a.len() == b.len(),
        listed(a) == listed(b),
        forall|i: int|
            0 <= i < a.len() ==> (#[trigger] a[i]).label@ == b[i].label@ && a[i].percentage
                == b[i].percentage,
        forall|i: int|
            0 <= i < a.len() && (#[trigger] a[i]).highlighted != b[i].highlighted ==> p.selected
                == Some(a[i].node) || q.selected == Some(a[i].node),
{
    ranked_listing_is_unique(listed(a), listed(b), p.sorting);
    assert(listed(a).len() == a.len());
    assert(listed(b).len() == b.len());
    assert forall|i: int| 0 <= i < a.len() implies (#[trigger] a[i]).label@ == b[i].label@
        && a[i].percentage == b[i].percentage && a[i].node == b[i].node by {
        assert(p.describes(a[i]));
        assert(q.describes(b[i]));
        assert(listed(a)[i] == listed(b)[i]);
    }
    assert forall|i: int|
        0 <= i < a.len() && (#[trigger] a[i]).highlighted != b[i].highlighted implies p.selected
        == Some(a[i].node) || q.selected == Some(a[i].node) by {
        assert(p.describes(a[i]));
        assert(q.describes(b[i]));
        assert(listed(a)[i] == listed(b)[i]);
    }
}

/// A selection that is no child of the root shows as no selection at all:
/// the rows are those of the panel with nothing selected.
pub proof fn stray_selection_shows_nothing<F: ByteFormat>(
    p: Entries<F>,
    q: Entries<F>,
    a: Seq<Row>,
    b: Seq<Row>,
)
    requires
        same_but_selection(p, q),
        p.lists(a),
        q.lists(b),
        q.selected is None,
        p.selected matches Some(chosen) ==> forall|k: int|
            0 <= k < level_of(*p.tree, p.root).len() ==> (#[trigger] level_of(
                *p.tree,
                p.root,
            )[k]).0 != chosen,
    ensures
        a.len() == b.len(),
        forall|i: int| 0 <= i < a.len() ==> same_row(#[trigger] a[i], b[i]),
        row_lines(a) == row_lines(b),
{
    selection_changes_colours_only(p, q, a, b);
    no_row_is_highlighted(p, a);
    no_row_is_highlighted(q, b);
    assert forall|i: int| 0 <= i < a.len() implies same_row(#[trigger] a[i], b[i]) by {
        assert(listed(a)[i] == listed(b)[i]);
    }
    assert(row_lines(a) =~= row_lines(b));
}

/// Where no two children have the same size, the panel in one order shows
/// the rows of the panel in the other order, last row first.
pub proof fn rows_mirror<F: ByteFormat>(p: Entries<F>, q: Entries<F>, a: Seq<Row>, b: Seq<Row>)
    requires
        *p.tree == *q.tree,
        p.root == q.root,
        p.display == q.display,
        p.selected == q.selected,
        q.sorting == p.sorting.toggled(),
        p.lists(a),
        q.lists(b),
        has_distinct_sizes(level_of(*p.tree, p.root)),
    ensures
        a.len() == b.len(),
        forall|i: int| 0 <= i < a.len() ==> same_row(#[trigger] b[i], a[a.len() - 1 - i]),
{
    broadcast use {group_to_multiset_ensures, group_multiset_axioms};

    let level = level_of(*p.tree, p.root);
    rows_are_children(p, a);
    assert forall|i: int, j: int| 0 <= i < j < listed(a).len() implies (#[trigger] listed(a)[i]).1
        != (#[trigger] listed(a)[j]).1 by {
        let x = choose|x: int| 0 <= x < level.len() && level[x] == listed(a)[i];
        let y = choose|y: int| 0 <= y < level.len() && level[y] == listed(a)[j];
        if listed(a)[i].1 == listed(a)[j].1 {
            assert(x == y);
            assert(listed(a)[i] == listed(a)[j]);
            assert(ranks_before(listed(a)[i], listed(a)[j], p.sorting));
            level.lemma_multiset_has_no_duplicates();
            listed(a).lemma_multiset_has_no_duplicates_conv();
        }
    }
    orders_mirror(listed(a), p.sorting);
    ranked_listing_is_unique(listed(b), listed(a).reverse(), q.sorting);
    assert(listed(a).len() == a.len());
    assert(listed(b).len() == b.len());
    assert forall|i: int| 0 <= i < a.len() implies same_row(#[trigger] b[i], a[a.len() - 1 - i]) by {
        let m = a.len() - 1 - i;
        assert(p.describes(a[m]));
        assert(q.describes(b[i]));
        assert(listed(b)[i] == listed(a).reverse()[i]);
        assert(listed(a).reverse()[i] == listed(a)[m]);
    }
}

/// From one row of a panel to the next, sizes never grow when the largest
/// comes first, and never shrink when the smallest comes first.
pub proof fn rows_are_in_order<F: ByteFormat>(panel: Entries<F>, rows: Seq<Row>, i: int)
    requires
        panel.lists(rows),
        0 <= i,
        i + 1 < rows.len(),
    ensures
        panel.sorting == SortMode::SizeDescending ==> rows[i].size >= rows[i + 1].size,
        panel.sorting == SortMode::SizeAscending ==> rows[i].size <= rows[i + 1].size,
{
    ranked_sizes_are_monotonic(listed(rows), panel.sorting, i, i + 1);
}

/// The shares of the rows, added up.
pub open spec fn sum_percentages(rows: Seq<Row>) -> nat
    decreases rows.len(),
{
    if rows.len() == 0 {
        0
    } else {
        sum_percentages(rows.drop_last()) + rows.last().percentage as nat
    }
}

/// The shares of the rows of a panel whose level has a total above zero add
/// up to a hundred percent, give or take half a hundredth of a percent for
/// each row.
pub proof fn rows_add_up<F: ByteFormat>(panel: Entries<F>, rows: Seq<Row>)
    requires
        panel.lists(rows),
        sum_sizes(level_of(*panel.tree, panel.root)) > 0,
    ensures
        20000 - rows.len() <= 2 * sum_percentages(rows) <= 20000 + rows.len(),
{
    let total = sum_sizes(level_of(*panel.tree, panel.root));
    sum_ignores_order(listed(rows), level_of(*panel.tree, panel.root));
    shares_add_up(listed(rows));
    rows_have_shares(panel, rows, rows.len() as int);
    assert(rows.take(rows.len() as int) =~= rows);
    assert(listed(rows).take(rows.len() as int) =~= listed(rows));
}

/// The shares of the first `n` rows of a panel are the shares of their
/// entries.
proof fn rows_have_shares<F: ByteFormat>(panel: Entries<F>, rows: Seq<Row>, n: int)
    requires
        panel.lists(rows),
        0 <= n <= rows.len(),
    ensures
        sum_percentages(rows.take(n)) == sum_shares(
            listed(rows).take(n),
            sum_sizes(level_of(*panel.tree, panel.root)),
        ),
    decreases n,
{
    if n > 0 {
        rows_have_shares(panel, rows, n - 1);
        assert(rows.take(n).drop_last() =~= rows.take(n - 1));
        assert(listed(rows).take(n).drop_last() =~= listed(rows).take(n - 1));
        assert(panel.describes(rows[n - 1]));
    }
}

/// In a level without a total above zero every row shows a share of zero.
pub proof fn rows_of_nothing<F: ByteFormat>(panel: Entries<F>, rows: Seq<Row>, i: int)
    requires
        panel.lists(rows),
        sum_sizes(level_of(*panel.tree, panel.root)) == 0,
        0 <= i < rows.len(),
    ensures
        rows[i].percentage == 0,
{
    assert(panel.describes(rows[i]));
}

/// The rows of a panel depend on the root's children alone: whether the
/// root is the top, which children it has, and their entries. Two trees that
/// agree in this, and may differ anywhere below the children, are listed by
/// the same rows.
pub proof fn deeper_levels_do_not_matter<F: ByteFormat>(p: Entries<F>, q: Entries<F>, rows: Seq<Row>)
    requires
        p.root == q.root,
        p.display == q.display,
        p.sorting == q.sorting,
        p.selected == q.selected,
        is_top_node(*p.tree, p.root) == is_top_node(*q.tree, q.root),
        tree_neighbors(*p.tree, p.root, false) == tree_neighbors(*q.tree, q.root, false),
        forall|k: int|
            #![trigger tree_neighbors(*p.tree, p.root, false)[k]]
            0 <= k < tree_neighbors(*p.tree, p.root, false).len() ==> {
                let child = tree_neighbors(*p.tree, p.root, false)[k];
                &&& tree_entries(*p.tree).dom().contains(child) == tree_entries(
                    *q.tree,
                ).dom().contains(child)
                &&& tree_entries(*p.tree).dom().contains(child) ==> tree_entries(*p.tree)[child]
                    == tree_entries(*q.tree)[child]
            },
        p.lists(rows),
    ensures
        q.lists(rows),
{
    let children = tree_neighbors(*p.tree, p.root, false);
    level_reads_its_nodes_only(tree_entries(*p.tree), tree_entries(*q.tree), children);
    rows_are_children(p, rows);
    let level = level_of(*p.tree, p.root);
    assert forall|i: int| 0 <= i < rows.len() implies q.describes(#[trigger] rows[i]) by {
        assert(p.describes(rows[i]));
        assert(level.contains(listed(rows)[i]));
        let k = choose|k: int| 0 <= k < level.len() && level[k] == listed(rows)[i];
        level_holds_listed_nodes(tree_entries(*p.tree), children, k);
        let at = choose|at: int| 0 <= at < children.len() && children[at] == rows[i].node;
        assert(tree_neighbors(*p.tree, p.root, false)[at] == rows[i].node);
    }
}

} // verus!
