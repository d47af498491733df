//! One frame: the entries panel above, the summary line below.

use vstd::prelude::*;
use tui::buffer::Buffer;
use crate::entries::{
    row_lines, rows_are_determined, stray_selection_shows_nothing, text_of, Entries, Row,
};
use crate::footer::{summary_cells, Footer};
use crate::format::{ByteFormat, DisplayOptions};
use crate::screen::{
    buffer_cells, buffer_region, cells_after_list, covers, fits, split_rows, well_formed, Cell, Rect,
    ALL_BORDERS,
};
use crate::sort_mode::SortMode;
use crate::sorting::level_of;
use crate::tree::{Tree, TreeIndex};

verus! {

/// The most rows that the entries panel is asked to take.
pub const PANEL_ROWS: u16 = 256;

/// The rows of the summary line.
pub const SUMMARY_ROWS: u16 = 1;

/// What a traversal of the filesystem has found.
pub struct Traversal {
    pub tree: Tree,
    /// The number of entries seen.
    pub entries_traversed: u64,
    /// The bytes in use, once the traversal has added them up.
    pub total_bytes: Option<u64>,
}

/// What is on view: kept by whoever handles the input, read when drawing.
#[derive(Debug, Clone, Copy)]
pub struct DisplayState {
    /// The directory whose children are listed.
    pub root: TreeIndex,
    /// The child that is selected, if any. It is meant to be a child of
    /// `root`; of any other node no row is shown, and none is highlighted.
    pub selected: Option<TreeIndex>,
    pub sorting: SortMode,
}

/// The whole window.
pub struct MainWindow<'a, 'b, F: ByteFormat> {
    pub traversal: &'a Traversal,
    pub display: DisplayOptions<F>,
    pub state: &'b DisplayState,
}

/// Why a frame was not drawn.
#[derive(Debug, Clone, Copy, PartialEq, Eq, Structural)]
pub enum DrawError {
    /// The buffer is not well formed, or the area does not lie in it.
    OutsideBuffer,
    /// The area was not split into a panel and a summary line of one row
    /// that both lie in it.
    Layout,
}

/// Whether the two parts can be drawn into: both lie in `area`, and the
/// lower one is one row high.
pub open spec fn usable(area: Rect, panel: Rect, summary: Rect) -> bool {
    &&& area.contains(panel)
    &&& area.contains(summary)
    &&& summary.height == 1
}

impl<'a, 'b, F: ByteFormat + Copy> MainWindow<'a, 'b, F> {
    /// The panel that this window shows.
    pub open spec fn panel(&self) -> Entries<'a, F> {
        Entries {
            tree: &self.traversal.tree,
            root: self.state.root,
            display: self.display,
            sorting: self.state.sorting,
            selected: self.state.selected,
        }
    }

    /// The summary line that this window shows.
    pub open spec fn footer(&self) -> Footer<F> {
        Footer {
            total_bytes: self.traversal.total_bytes,
            entries_traversed: self.traversal.entries_traversed,
            format: self.display.byte_format,
        }
    }

    /// Whether `after` are the cells of a buffer once the window has been
    /// drawn over `before`: first the panel, then the summary line.
    pub open spec fn composes(
        &self,
        before: Seq<Cell>,
        region: Rect,
        panel: Rect,
        summary: Rect,
        working_dir: Option<Seq<char>>,
        after: Seq<Cell>,
    ) -> bool {
        exists|rows: Seq<Row>|
            self.panel().lists(rows) && after == summary_cells(
                cells_after_list(
                    before,
                    region,
                    panel,
                    self.panel().title_text(working_dir),
                    ALL_BORDERS,
                    #[trigger] row_lines(rows),
                ),
                region,
                summary,
                self.footer().line(),
            )
    }

    /// Draws the panel into `panel` and the summary line into `summary`, two
    /// parts of `area`. Where the parts cannot be used nothing is drawn.
    /// Nothing outside `area` changes in either case.
    pub fn draw_parts(
        &self,
        area: Rect,
        panel: Rect,
        summary: Rect,
        buf: &mut Buffer,
        working_dir: Option<&str>,
    ) -> (done: Result<(), DrawError>)
        requires
            well_formed(*old(buf)),
            buffer_region(*old(buf)).contains(area),
        ensures
            well_formed(*final(buf)),
            buffer_region(*final(buf)) == buffer_region(*old(buf)),
            buffer_cells(*final(buf)).len() == buffer_cells(*old(buf)).len(),
            done is Ok <==> usable(area, panel, summary),
            done is Err ==> done == Err::<(), DrawError>(DrawError::Layout) && buffer_cells(
                *final(buf),
            ) == buffer_cells(*old(buf)),
            done is Ok ==> self.composes(
                buffer_cells(*old(buf)),
                buffer_region(*old(buf)),
                panel,
                summary,
                text_of(working_dir),
                buffer_cells(*final(buf)),
            ),
            forall|i: int|
                #![trigger buffer_cells(*final(buf))[i]]
                0 <= i < buffer_cells(*old(buf)).len() && !covers(
                    buffer_region(*old(buf)),
                    area,
                    i,
                ) ==> buffer_cells(*final(buf))[i] == buffer_cells(*old(buf))[i],
    {
        if !(area.encloses(&panel) && area.encloses(&summary) && summary.height == 1) {
            return Err(DrawError::Layout);
        }
        let entries = Entries {
            tree: &self.traversal.tree,
            root: self.state.root,
            display: self.display,
            sorting: self.state.sorting,
            selected: self.state.selected,
        };
        entries.draw(panel, buf, working_dir);
        let footer = Footer {
            total_bytes: self.traversal.total_bytes,
            entries_traversed: self.traversal.entries_traversed,
            format: self.display.byte_format,
        };
        footer.draw(summary, buf);
        Ok(())
    }

    /// Draws one frame into `area`: the panel in the upper part, the summary
    /// line in the lowest row. The split is left to `tui`; where its parts
    /// cannot be used, or the area does not lie in the buffer, nothing is
    /// drawn. Nothing outside `area` changes in any case.
    pub fn draw(&self, area: Rect, buf: &mut Buffer, working_dir: Option<&str>) -> (done: Result<
        (),
        DrawError,
    >)
        ensures
            buffer_region(*final(buf)) == buffer_region(*old(buf)),
            buffer_cells(*final(buf)).len() == buffer_cells(*old(buf)).len(),
            done == Err::<(), DrawError>(DrawError::OutsideBuffer) <==> !(well_formed(*old(buf))
                && buffer_region(*old(buf)).contains(area)),
            done is Err ==> buffer_cells(*final(buf)) == buffer_cells(*old(buf)),
            done is Ok ==> exists|panel: Rect, summary: Rect|
                usable(area, panel, summary) && #[trigger] self.composes(
                    buffer_cells(*old(buf)),
                    buffer_region(*old(buf)),
                    panel,
                    summary,
                    text_of(working_dir),
                    buffer_cells(*final(buf)),
                ),
            forall|i: int|
                #![trigger buffer_cells(*final(buf))[i]]
                0 <= i < buffer_cells(*old(buf)).len() && !covers(
                    buffer_region(*old(buf)),
                    area,
                    i,
                ) ==> buffer_cells(*final(buf))[i] == buffer_cells(*old(buf))[i],
    {
        if !fits(buf, &area) {
            return Err(DrawError::OutsideBuffer);
        }
        let parts = split_rows(area, PANEL_ROWS, SUMMARY_ROWS);
        self.draw_parts(area, parts[0], parts[1], buf, working_dir)
    }
}

/// A frame is decided by what the window shows, the cells before, and the
/// two parts: drawing it again over the same cells gives the same cells.
pub proof fn frame_is_determined<F: ByteFormat + Copy>(
    window: MainWindow<F>,
    before: Seq<Cell>,
    region: Rect,
    panel: Rect,
    summary: Rect,
    working_dir: Option<Seq<char>>,
    one: Seq<Cell>,
    other: Seq<Cell>,
)
    requires
        window.composes(before, region, panel, summary, working_dir, one),
        window.composes(before, region, panel, summary, working_dir, other),
    ensures
        one == other,
{
    let a = choose|rows: Seq<Row>|
        window.panel().lists(rows) && one == summary_cells(
            cells_after_list(
                before,
                region,
                panel,
                window.panel().title_text(working_dir),
                ALL_BORDERS,
                #[trigger] row_lines(rows),
            ),
            region,
            summary,
            window.footer().line(),
        );
    let b = choose|rows: Seq<Row>|
        window.panel().lists(rows) && other == summary_cells(
            cells_after_list(
                before,
                region,
                panel,
                window.panel().title_text(working_dir),
                ALL_BORDERS,
                #[trigger] row_lines(rows),
            ),
            region,
            summary,
            window.footer().line(),
        );
    rows_are_determined(window.panel(), a, b);
}

/// A selection that is no child of the viewed directory draws the frame
/// that is drawn with nothing selected.
pub proof fn stray_selection_draws_the_same_frame<F: ByteFormat + Copy>(
    window: MainWindow<F>,
    unselected: MainWindow<F>,
    before: Seq<Cell>,
    region: Rect,
    panel: Rect,
    summary: Rect,
    working_dir: Option<Seq<char>>,
    one: Seq<Cell>,
    other: Seq<Cell>,
)
    requires
        *window.traversal == *unselected.traversal,
        window.display == unselected.display,
        window.state.root == unselected.state.root,
        window.state.sorting == unselected.state.sorting,
        unselected.state.selected is None,
        window.state.selected matches Some(chosen) ==> forall|k: int|
            0 <= k < level_of(window.traversal.tree, window.state.root).len() ==> (
            #[trigger] level_of(window.traversal.tree, window.state.root)[k]).0 != chosen,
        window.composes(before, region, panel, summary, working_dir, one),
        unselected.composes(before, region, panel, summary, working_dir, other),
    ensures
        one == other,
{
    let a = choose|rows: Seq<Row>|
        window.panel().lists(rows) && one == summary_cells(
            cells_after_list(
                before,
                region,
                panel,
                window.panel().title_text(working_dir),
                ALL_BORDERS,
                #[trigger] row_lines(rows),
            ),
            region,
            summary,
            window.footer().line(),
        );
    let b = choose|rows: Seq<Row>|
        unselected.panel().lists(rows) && other == summary_cells(
            cells_after_list(
                before,
                region,
                panel,
                unselected.panel().title_text(working_dir),
                ALL_BORDERS,
                #[trigger] row_lines(rows),
            ),
            region,
            summary,
            unselected.footer().line(),
        );
    stray_selection_shows_nothing(window.panel(), unselected.panel(), a, b);
}

} // verus!
