//! The one-line summary below the entries.

use vstd::prelude::*;
use vstd::string::*;
use tui::buffer::Buffer;
use crate::format::ByteFormat;
use crate::screen::{
    buffer_cells, buffer_region, cell_index, cell_place, cells_after_text, covers, fill_background,
    painted, put_text, stays_within, well_formed, written, written_symbols, Cell, Color, Paint,
    Rect, Style,
};
use crate::text::{
    decimal, decimal_is_plain, has_no_empty_symbols, is_narrow, is_plain, is_plain_text,
    is_trimming, plain_stays_plain, push_decimal, text_symbols, trim, trimmed,
};

verus! {

/// The summary line: totals of the whole traversal.
pub struct Footer<F: ByteFormat> {
    /// The bytes in use, once the traversal has added them up.
    pub total_bytes: Option<u64>,
    /// The number of entries seen so far.
    pub entries_traversed: u64,
    /// The notation for the total.
    pub format: F,
}

/// The text of the summary line. A total that is not known yet is shown as a
/// dash.
pub open spec fn summary(total: Option<Seq<char>>, entries: nat) -> Seq<char> {
    "Total disk usage: "@ + (match total {
        Some(written_out) => written_out,
        None => "-"@,
    }) + "  Entries: "@ + decimal(entries)
}

/// The cells that the text of the summary line may take in an area that is
/// `width` cells wide: all but the first. Text with a symbol that takes no
/// cell is kept one cell short of that, so that no such symbol is written
/// behind the end of the area.
pub open spec fn summary_limit(text: Seq<char>, width: int) -> int {
    if stays_within(text) {
        width - 1
    } else {
        width - 2
    }
}

/// The cells of a buffer after the summary line has been drawn in `area`: the
/// background of the whole area is white, and the text stands in it from the
/// second column on, as far as there is room.
pub open spec fn summary_cells(cells: Seq<Cell>, region: Rect, area: Rect, text: Seq<char>) -> Seq<
    Cell,
> {
    let filled = painted(cells, region, area, Paint::White);
    let start = cell_index(region, area.x + 1, area.y as int);
    if area.width <= 1 {
        filled
    } else if is_plain(text) {
        written(
            filled,
            start,
            text.take(
                if text.len() <= area.width - 1 {
                    text.len() as int
                } else {
                    area.width - 1
                },
            ),
            Style::summary(),
        )
    } else if is_narrow(text) {
        written_symbols(
            filled,
            start,
            text_symbols(text).take(
                if text_symbols(text).len() <= area.width - 1 {
                    text_symbols(text).len() as int
                } else {
                    area.width - 1
                },
            ),
            Style::summary(),
        )
    } else {
        cells_after_text(
            filled,
            region,
            (area.x + 1) as u16,
            area.y,
            text,
            summary_limit(text, area.width as int) as usize,
            Style::summary(),
        )
    }
}

/// Composes the text of the summary line from the total as it is to be
/// shown, if it is known, and the number of entries.
pub fn summary_line(total: Option<&str>, entries: u64) -> (line: String)
    ensures
        line@ == summary(
            match total {
                Some(written_out) => Some(written_out@),
                None => None,
            },
            entries as nat,
        ),
{
    let mut line = String::from_str("Total disk usage: ");
    match total {
        Some(written_out) => {
            line.append(written_out);
        },
        None => {
            line.append("-");
        },
    }
    line.append("  Entries: ");
    push_decimal(&mut line, entries as u128);
    line
}

/// Draws the summary line into the one row of `area`.
pub fn draw_summary(text: &str, area: Rect, buf: &mut Buffer)
    requires
        area.height == 1,
        well_formed(*old(buf)),
        buffer_region(*old(buf)).contains(area),
    ensures
        well_formed(*final(buf)),
        buffer_region(*final(buf)) == buffer_region(*old(buf)),
        buffer_cells(*final(buf)) == summary_cells(
            buffer_cells(*old(buf)),
            buffer_region(*old(buf)),
            area,
            text@,
        ),
        buffer_cells(*final(buf)).len() == buffer_cells(*old(buf)).len(),
        forall|i: int|
            #![trigger buffer_cells(*final(buf))[i]]
            0 <= i < buffer_cells(*old(buf)).len() && !covers(buffer_region(*old(buf)), area, i)
                ==> buffer_cells(*final(buf))[i] == buffer_cells(*old(buf))[i],
{
    let ghost region = buffer_region(*buf);
    fill_background(buf, area, Color::White);
    if area.width > 1 {
        let x: u16 = area.x + 1;
        let y: u16 = area.y;
        let ghost start = cell_index(region, x as int, y as int);
        proof {
            cell_place(region, x as int, y as int);
            cell_place(region, x + area.width - 2, y as int);
            assert forall|i: int| start <= i <= start + area.width - 2 implies covers(
                region,
                area,
                i,
            ) by {
                cell_place(region, x + (i - start), y as int);
            }
        }
        let within = is_plain_text(text) || has_no_empty_symbols(text);
        let limit: u16 = if within {
            area.width - 1
        } else {
            area.width - 2
        };
        put_text(buf, x, y, text, limit as usize, Style::for_summary());
    }
}

impl<F: ByteFormat> Footer<F> {
    /// The text of the summary line of these totals: the total, where it is
    /// known, in the footer's notation and without white space around it.
    pub open spec fn line(&self) -> Seq<char> {
        summary(
            match self.total_bytes {
                Some(bytes) => Some(trimmed(self.format.shown(bytes))),
                None => None,
            },
            self.entries_traversed as nat,
        )
    }

    /// Whether the total, if it is known, is written in printable ASCII.
    pub open spec fn has_plain_total(&self) -> bool {
        match self.total_bytes {
            Some(bytes) => is_plain(self.format.shown(bytes)),
            None => true,
        }
    }

    /// Composes the text of the summary line. The total stands in it as a
    /// piece of what the notation gives, without a blank at either end.
    pub fn text(&self) -> (line: String)
        ensures
            line@ == self.line(),
            self.total_bytes matches Some(bytes) ==> is_trimming(
                self.format.shown(bytes),
                trimmed(self.format.shown(bytes)),
            ),
            self.has_plain_total() ==> is_plain(line@),
    {
        match self.total_bytes {
            Some(bytes) => {
                let written_out = self.format.display(bytes);
                let cut = trim(written_out.as_str());
                proof {
                    if is_plain(written_out@) {
                        plain_stays_plain(written_out@, cut@);
                        summary_is_plain(Some(cut@), self.entries_traversed as nat);
                    }
                }
                summary_line(Some(cut), self.entries_traversed)
            },
            None => {
                proof {
                    summary_is_plain(None, self.entries_traversed as nat);
                }
                summary_line(None, self.entries_traversed)
            },
        }
    }

    /// Draws the summary line into `area`, which must be one row high and lie
    /// in the buffer. Nothing outside the area changes.
    pub fn draw(&self, area: Rect, buf: &mut Buffer)
        requires
            area.height == 1,
            well_formed(*old(buf)),
            buffer_region(*old(buf)).contains(area),
        ensures
            well_formed(*final(buf)),
            buffer_region(*final(buf)) == buffer_region(*old(buf)),
            buffer_cells(*final(buf)) == summary_cells(
                buffer_cells(*old(buf)),
                buffer_region(*old(buf)),
                area,
                self.line(),
            ),
            buffer_cells(*final(buf)).len() == buffer_cells(*old(buf)).len(),
            forall|i: int|
                #![trigger buffer_cells(*final(buf))[i]]
                0 <= i < buffer_cells(*old(buf)).len() && !covers(
                    buffer_region(*old(buf)),
                    area,
                    i,
                ) ==> buffer_cells(*final(buf))[i] == buffer_cells(*old(buf))[i],
            self.has_plain_total() ==> is_plain(self.line()) && forall|i: int|
                #![trigger buffer_cells(*final(buf))[i]]
                0 <= i < buffer_cells(*old(buf)).len() && covers(buffer_region(*old(buf)), area, i)
                    ==> buffer_cells(*final(buf))[i].bg == Paint::White,
    {
        let line = self.text();
        draw_summary(line.as_str(), area, buf);
        proof {
            if self.has_plain_total() {
                assert forall|i: int|
                    0 <= i < buffer_cells(*old(buf)).len() && covers(
                        buffer_region(*old(buf)),
                        area,
                        i,
                    ) implies (#[trigger] buffer_cells(*buf)[i]).bg == Paint::White by {
                    summary_row_is_white(
                        buffer_cells(*old(buf)),
                        buffer_region(*old(buf)),
                        area,
                        line@,
                        i,
                    );
                }
            }
        }
    }
}

/// Printable ASCII behind printable ASCII is printable ASCII.
proof fn plain_joined(a: Seq<char>, b: Seq<char>)
    requires
        is_plain(a),
        is_plain(b),
    ensures
        is_plain(a + b),
{
    assert forall|i: int| 0 <= i < (a + b).len() implies 32 <= (#[trigger] (a + b)[i]) as u32
        <= 126 by {
        if i < a.len() {
            assert((a + b)[i] == a[i]);
        } else {
            assert((a + b)[i] == b[i - a.len()]);
        }
    }
}

/// The summary line of a total in printable ASCII, or of an unknown total,
/// is printable ASCII.
pub proof fn summary_is_plain(total: Option<Seq<char>>, entries: nat)
    requires
        total matches Some(written_out) ==> is_plain(written_out),
    ensures
        is_plain(summary(total, entries)),
{
    reveal_strlit("Total disk usage: ");
    reveal_strlit("-");
    reveal_strlit("  Entries: ");
    let shown = match total {
        Some(written_out) => written_out,
        None => "-"@,
    };
    assert(is_plain("Total disk usage: "@));
    assert(is_plain("  Entries: "@));
    assert(is_plain(shown));
    decimal_is_plain(entries);
    plain_joined("Total disk usage: "@, shown);
    plain_joined("Total disk usage: "@ + shown, "  Entries: "@);
    plain_joined("Total disk usage: "@ + shown + "  Entries: "@, decimal(entries));
}

/// Where the text of the summary line is printable ASCII, or takes one cell
/// for each symbol, every cell of the area has a white background once the
/// line is drawn: the margin, the text and what is right of it.
pub proof fn summary_row_is_white(
    cells: Seq<Cell>,
    region: Rect,
    area: Rect,
    text: Seq<char>,
    i: int,
)
    requires
        is_plain(text) || is_narrow(text),
        0 <= i < cells.len(),
        covers(region, area, i),
    ensures
        summary_cells(cells, region, area, text)[i].bg == Paint::White,
{
}

/// Where the text of the summary line is printable ASCII, the cell at place
/// `k` behind the margin holds character `k` of the text in black on white,
/// for as many characters as the row has cells behind the margin.
pub proof fn summary_text_is_shown(
    cells: Seq<Cell>,
    region: Rect,
    area: Rect,
    text: Seq<char>,
    k: int,
)
    requires
        is_plain(text),
        region.contains(area),
        area.height == 1,
        cells.len() == region.width * region.height,
        0 <= k < text.len(),
        k < area.width - 1,
    ensures
        0 <= cell_index(region, area.x + 1 + k, area.y as int) < cells.len(),
        summary_cells(cells, region, area, text)[cell_index(
            region,
            area.x + 1 + k,
            area.y as int,
        )] == (Cell {
            symbol: seq![text[k]],
            fg: Paint::Black,
            bg: Paint::White,
            modifier: 0,
        }),
{
    cell_place(region, area.x + 1 + k, area.y as int);
}

} // verus!
