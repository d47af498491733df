//! The terminal buffer that the widgets draw into, and the few drawing
//! operations of the `tui` crate that they are built from.

use vstd::prelude::*;
use vstd::arithmetic::div_mod::lemma_fundamental_div_mod_converse;
use tui::buffer::Buffer;
use tui::layout::{Constraint, Direction, Layout};
use tui::widgets::{Block, Borders, List, Text, Widget};
use crate::text::{has_no_empty_symbol, is_narrow, is_plain, text_symbols};

verus! {

/// A rectangle of terminal cells: its top-left corner and its extent.
#[derive(Debug, Clone, Copy, PartialEq, Eq, Structural)]
pub struct Rect {
    pub x: u16,
    pub y: u16,
    pub width: u16,
    pub height: u16,
}

/// The colours that the widgets paint with.
#[derive(Debug, Clone, Copy, PartialEq, Eq, Structural)]
pub enum Color {
    /// The terminal's own colour.
    Reset,
    Black,
    White,
}

/// The colours of a piece of text: of its characters and of what is behind
/// them.
#[derive(Debug, Clone, Copy, PartialEq, Eq, Structural)]
pub struct Style {
    pub fg: Color,
    pub bg: Color,
}

/// A line of text with its colours.
pub struct Line {
    pub text: String,
    pub style: Style,
}

/// Any colour that a cell of the buffer can have.
pub enum Paint {
    Reset,
    Black,
    Red,
    Green,
    Yellow,
    Blue,
    Magenta,
    Cyan,
    Gray,
    DarkGray,
    LightRed,
    LightGreen,
    LightYellow,
    LightBlue,
    LightMagenta,
    LightCyan,
    White,
    Rgb(u8, u8, u8),
    Indexed(u8),
}

/// What one cell of the buffer holds: a symbol, its two colours, and the bits
/// of its text attributes.
pub struct Cell {
    pub symbol: Seq<char>,
    pub fg: Paint,
    pub bg: Paint,
    pub modifier: u16,
}

/// All four sides of a border, as the bits that `tui` gives them.
pub const ALL_BORDERS: u32 = 30;

impl Color {
    /// The colour as a cell holds it.
    pub open spec fn paint(self) -> Paint {
        match self {
            Color::Reset => Paint::Reset,
            Color::Black => Paint::Black,
            Color::White => Paint::White,
        }
    }
}

impl Line {
    /// The line as plain values.
    pub open spec fn view(&self) -> (Seq<char>, Style) {
        (self.text@, self.style)
    }
}

/// The lines as plain values.
pub open spec fn lines_view(lines: Seq<Line>) -> Seq<(Seq<char>, Style)> {
    Seq::new(lines.len(), |i: int| lines[i].view())
}

impl Rect {
    /// Whether the cell at column `x` and row `y` lies in the rectangle.
    pub open spec fn holds(self, x: int, y: int) -> bool {
        self.x <= x < self.x + self.width && self.y <= y < self.y + self.height
    }

    /// Whether `inner` lies in the rectangle with all its cells. An empty
    /// rectangle must still start and end within it.
    pub open spec fn contains(self, inner: Rect) -> bool {
        &&& self.x <= inner.x
        &&& inner.x + inner.width <= self.x + self.width
        &&& self.y <= inner.y
        &&& inner.y + inner.height <= self.y + self.height
    }

    /// Tells whether `inner` lies in the rectangle with all its cells.
    pub fn encloses(&self, inner: &Rect) -> (inside: bool)
        ensures
            inside == self.contains(*inner),
    {
        self.x <= inner.x && inner.x as u32 + inner.width as u32 <= self.x as u32
            + self.width as u32 && self.y <= inner.y && inner.y as u32 + inner.height as u32
            <= self.y as u32 + self.height as u32
    }
}

/// The place of the cell at column `x` and row `y` among the cells of a
/// buffer that covers `region`: cells are kept row by row.
pub open spec fn cell_index(region: Rect, x: int, y: int) -> int {
    (y - region.y) * region.width + (x - region.x)
}

/// Whether the cell at place `i` of a buffer that covers `region` lies in
/// `area`.
pub open spec fn covers(region: Rect, area: Rect, i: int) -> bool {
    area.holds(region.x + i % (region.width as int), region.y + i / (region.width as int))
}

/// The cells with the background of those in `area` painted.
pub open spec fn painted(cells: Seq<Cell>, region: Rect, area: Rect, paint: Paint) -> Seq<Cell> {
    Seq::new(
        cells.len(),
        |i: int|
            if covers(region, area, i) {
                Cell { bg: paint, ..cells[i] }
            } else {
                cells[i]
            },
    )
}

/// The cells with the characters of `text` written from place `start` on, one
/// to a cell, each in the given colours and without text attributes.
pub open spec fn written(cells: Seq<Cell>, start: int, text: Seq<char>, style: Style) -> Seq<Cell> {
    Seq::new(
        cells.len(),
        |i: int|
            if start <= i < start + text.len() {
                Cell {
                    symbol: seq![text[i - start]],
                    fg: style.fg.paint(),
                    bg: style.bg.paint(),
                    modifier: 0,
                }
            } else {
                cells[i]
            },
    )
}

/// The cells with the given symbols written from place `start` on, one to a
/// cell, each in the given colours and without text attributes.
pub open spec fn written_symbols(
    cells: Seq<Cell>,
    start: int,
    symbols: Seq<Seq<char>>,
    style: Style,
) -> Seq<Cell> {
    Seq::new(
        cells.len(),
        |i: int|
            if start <= i < start + symbols.len() {
                Cell {
                    symbol: symbols[i - start],
                    fg: style.fg.paint(),
                    bg: style.bg.paint(),
                    modifier: 0,
                }
            } else {
                cells[i]
            },
    )
}

/// Whether a text is known to stay within the cells that it is given:
/// printable ASCII does, and so does any text without a symbol that takes no
/// cell.
pub open spec fn stays_within(text: Seq<char>) -> bool {
    is_plain(text) || has_no_empty_symbol(text)
}

/// The cells that `text` may take when it is written at column `x` of a
/// buffer that covers `region`: as many as `limit` allows and the row has.
pub open spec fn room(region: Rect, x: int, limit: int) -> int {
    if limit <= region.x + region.width - x {
        limit
    } else {
        region.x + region.width - x
    }
}

impl Style {
    /// The colours of a row that is not selected: white on the terminal's
    /// own background.
    pub open spec fn plain_row() -> Style {
        Style { fg: Color::White, bg: Color::Reset }
    }

    /// The colours of the selected row: those of the other rows swapped,
    /// black on white.
    pub open spec fn selected_row() -> Style {
        Style { fg: Color::Black, bg: Color::White }
    }

    /// The colours of the summary line: black on white.
    pub open spec fn summary() -> Style {
        Style { fg: Color::Black, bg: Color::White }
    }

    /// The colours of a row, selected or not.
    pub open spec fn of_row(selected: bool) -> Style {
        if selected {
            Style::selected_row()
        } else {
            Style::plain_row()
        }
    }

    /// Picks the colours of a row.
    pub fn for_row(selected: bool) -> (style: Style)
        ensures
            style == Style::of_row(selected),
    {
        if selected {
            Style { fg: Color::Black, bg: Color::White }
        } else {
            Style { fg: Color::White, bg: Color::Reset }
        }
    }

    /// Picks the colours of the summary line.
    pub fn for_summary() -> (style: Style)
        ensures
            style == Style::summary(),
    {
        Style { fg: Color::Black, bg: Color::White }
    }
}

/// A cell of the region has a place among the cells of the buffer, and that
/// place leads back to its column and row.
pub proof fn cell_place(region: Rect, x: int, y: int)
    requires
        region.holds(x, y),
    ensures
        0 <= cell_index(region, x, y) < region.width * region.height,
        cell_index(region, x, y) % (region.width as int) == x - region.x,
        cell_index(region, x, y) / (region.width as int) == y - region.y,
        forall|area: Rect| #[trigger]
            covers(region, area, cell_index(region, x, y)) == area.holds(x, y),
{
    let w = region.width as int;
    let h = region.height as int;
    let row = y - region.y;
    let col = x - region.x;
    lemma_fundamental_div_mod_converse(row * w + col, w, row, col);
    assert(row * w + col < h * w) by (nonlinear_arith)
        requires
            0 <= row < h,
            0 <= col < w,
    ;
    assert(0 <= row * w + col) by (nonlinear_arith)
        requires
            0 <= row,
            0 <= col,
            0 < w,
    ;
    assert(h * w == w * h) by (nonlinear_arith);
}

/// The terminal buffer of `tui`, carried through as an opaque value.
#[verifier::external_type_specification]
#[verifier::external_body]
pub struct ExBuffer(Buffer);

/// The rectangle of the terminal that a buffer covers.
pub uninterp spec fn buffer_region(buf: Buffer) -> Rect;

/// The cells of a buffer, row by row.
pub uninterp spec fn buffer_cells(buf: Buffer) -> Seq<Cell>;

/// The cells of a buffer after `Buffer::set_stringn` has written a text.
pub uninterp spec fn cells_after_text(
    cells: Seq<Cell>,
    region: Rect,
    x: u16,
    y: u16,
    text: Seq<char>,
    limit: usize,
    style: Style,
) -> Seq<Cell>;

/// The cells of a buffer after a `List` in a titled `Block` has been drawn.
pub uninterp spec fn cells_after_list(
    cells: Seq<Cell>,
    region: Rect,
    area: Rect,
    title: Seq<char>,
    borders: u32,
    lines: Seq<(Seq<char>, Style)>,
) -> Seq<Cell>;

/// Whether a buffer is as `tui` makes it: it covers a rectangle that ends
/// within the terminal's coordinates, and holds one cell for each place in
/// it, at most as many as such a coordinate can count.
pub open spec fn well_formed(buf: Buffer) -> bool {
    let region = buffer_region(buf);
    &&& region.x + region.width <= u16::MAX
    &&& region.y + region.height <= u16::MAX
    &&& region.width * region.height <= u16::MAX
    &&& buffer_cells(buf).len() == region.width * region.height
}

/// Reads the rectangle that the buffer covers, with `Buffer::area`.
#[verifier::external_body]
pub(crate) fn region_of(buf: &Buffer) -> (region: Rect)
    ensures
        region == buffer_region(*buf),
{
    let area = buf.area();
    Rect { x: area.x, y: area.y, width: area.width, height: area.height }
}

/// Counts the cells of the buffer, with `Buffer::content`.
#[verifier::external_body]
pub(crate) fn cell_count(buf: &Buffer) -> (count: usize)
    ensures
        count == buffer_cells(*buf).len(),
{
    buf.content().len()
}

/// Paints the background of every cell in `area` with `Widget::background`.
/// Nothing else of any cell changes. The area must lie in a well-formed
/// buffer: `tui` does not look whether a cell exists.
#[verifier::external_body]
pub(crate) fn fill_background(buf: &mut Buffer, area: Rect, color: Color)
    requires
        well_formed(*old(buf)),
        buffer_region(*old(buf)).contains(area),
    ensures
        buffer_region(*final(buf)) == buffer_region(*old(buf)),
        buffer_cells(*final(buf)) == painted(
            buffer_cells(*old(buf)),
            buffer_region(*old(buf)),
            area,
            color.paint(),
        ),
{
    let bg = match color {
        Color::Reset => tui::style::Color::Reset,
        Color::Black => tui::style::Color::Black,
        Color::White => tui::style::Color::White,
    };
    let area = tui::layout::Rect { x: area.x, y: area.y, width: area.width, height: area.height };
    Block::default().background(area, buf, bg);
}

/// Writes `text` from the cell at column `x` and row `y` on with
/// `Buffer::set_stringn`, at most `limit` cells wide and not beyond the end
/// of the row. The cell must be in a well-formed buffer.
///
/// `tui` writes symbol by symbol and stops at the first that does not fit.
/// Printable ASCII is written one character to a cell, and text whose
/// symbols take one cell each is written one symbol to a cell. A symbol that
/// takes no cell is written where the next symbol would start, also behind
/// the last permitted cell: for text with such a symbol that cell must exist,
/// and it may change. No cell before the first ever changes, and none
/// behind those named.
#[verifier::external_body]
pub(crate) fn put_text(buf: &mut Buffer, x: u16, y: u16, text: &str, limit: usize, style: Style)
    requires
        well_formed(*old(buf)),
        buffer_region(*old(buf)).holds(x as int, y as int),
        stays_within(text@) || cell_index(buffer_region(*old(buf)), x as int, y as int) + room(
            buffer_region(*old(buf)),
            x as int,
            limit as int,
        ) < buffer_cells(*old(buf)).len(),
    ensures
        buffer_region(*final(buf)) == buffer_region(*old(buf)),
        buffer_cells(*final(buf)) == cells_after_text(
            buffer_cells(*old(buf)),
            buffer_region(*old(buf)),
            x,
            y,
            text@,
            limit,
            style,
        ),
        buffer_cells(*final(buf)).len() == buffer_cells(*old(buf)).len(),
        forall|i: int|
            #![trigger buffer_cells(*final(buf))[i]]
            0 <= i < buffer_cells(*old(buf)).len() && (i < cell_index(
                buffer_region(*old(buf)),
                x as int,
                y as int,
            ) || i > cell_index(buffer_region(*old(buf)), x as int, y as int) + room(
                buffer_region(*old(buf)),
                x as int,
                limit as int,
            ) || (stays_within(text@) && i == cell_index(
                buffer_region(*old(buf)),
                x as int,
                y as int,
            ) + room(buffer_region(*old(buf)), x as int, limit as int))) ==> buffer_cells(
                *final(buf),
            )[i] == buffer_cells(*old(buf))[i],
        is_plain(text@) ==> buffer_cells(*final(buf)) == written(
            buffer_cells(*old(buf)),
            cell_index(buffer_region(*old(buf)), x as int, y as int),
            text@.take(
                if text@.len() <= room(buffer_region(*old(buf)), x as int, limit as int) {
                    text@.len() as int
                } else {
                    room(buffer_region(*old(buf)), x as int, limit as int)
                },
            ),
            style,
        ),
        is_narrow(text@) ==> buffer_cells(*final(buf)) == written_symbols(
            buffer_cells(*old(buf)),
            cell_index(buffer_region(*old(buf)), x as int, y as int),
            text_symbols(text@).take(
                if text_symbols(text@).len() <= room(
                    buffer_region(*old(buf)),
                    x as int,
                    limit as int,
                ) {
                    text_symbols(text@).len() as int
                } else {
                    room(buffer_region(*old(buf)), x as int, limit as int)
                },
            ),
            style,
        ),
{
    let paint = |c: Color| match c {
        Color::Reset => tui::style::Color::Reset,
        Color::Black => tui::style::Color::Black,
        Color::White => tui::style::Color::White,
    };
    let style = tui::style::Style { fg: paint(style.fg), bg: paint(style.bg), ..Default::default() };
    buf.set_stringn(x, y, text, limit, style);
}

/// Draws the lines top-down in `area` with `List` inside a `Block` that has
/// the given title and borders. The area must lie in a well-formed buffer and
/// the borders must be all four: then every cell that `tui` touches, the one
/// behind the end of a line included, lies in the area.
#[verifier::external_body]
pub(crate) fn render_list(buf: &mut Buffer, area: Rect, title: &str, borders: u32, lines: &Vec<Line>)
    requires
        well_formed(*old(buf)),
        buffer_region(*old(buf)).contains(area),
        borders == ALL_BORDERS,
    ensures
        buffer_region(*final(buf)) == buffer_region(*old(buf)),
        buffer_cells(*final(buf)) == cells_after_list(
            buffer_cells(*old(buf)),
            buffer_region(*old(buf)),
            area,
            title@,
            borders,
            lines_view(lines@),
        ),
        buffer_cells(*final(buf)).len() == buffer_cells(*old(buf)).len(),
        forall|i: int|
            #![trigger buffer_cells(*final(buf))[i]]
            0 <= i < buffer_cells(*old(buf)).len() && !covers(buffer_region(*old(buf)), area, i)
                ==> buffer_cells(*final(buf))[i] == buffer_cells(*old(buf))[i],
{
    let paint = |c: Color| match c {
        Color::Reset => tui::style::Color::Reset,
        Color::Black => tui::style::Color::Black,
        Color::White => tui::style::Color::White,
    };
    let items = lines.iter().map(|line| Text::Styled(line.text.as_str().into(),
        tui::style::Style { fg: paint(line.style.fg), bg: paint(line.style.bg), ..Default::default() }));
    let block = Block::default().borders(Borders::from_bits_truncate(borders)).title(title);
    let area = tui::layout::Rect { x: area.x, y: area.y, width: area.width, height: area.height };
    List::new(items).block(block).draw(area, buf);
}

/// Splits `area` into an upper and a lower part with `Layout::split`, asking
/// for at most `cap` rows above and for `tail` rows below. `tui` leaves the
/// outcome to a constraint solver: only the number of parts is claimed. The
/// area must end within the terminal's coordinates.
#[verifier::external_body]
pub(crate) fn split_rows(area: Rect, cap: u16, tail: u16) -> (parts: Vec<Rect>)
    requires
        area.x + area.width <= u16::MAX,
        area.y + area.height <= u16::MAX,
    ensures
        parts.len() == 2,
{
    let area = tui::layout::Rect { x: area.x, y: area.y, width: area.width, height: area.height };
    let layout = Layout::default().direction(Direction::Vertical);
    let parts = layout.constraints([Constraint::Max(cap), Constraint::Length(tail)].as_ref()).split(area);
    parts.iter().map(|r| Rect { x: r.x, y: r.y, width: r.width, height: r.height }).collect()
}

/// Tells whether the buffer is well formed and `area` lies in it.
pub fn fits(buf: &Buffer, area: &Rect) -> (ok: bool)
    ensures
        ok == (well_formed(*buf) && buffer_region(*buf).contains(*area)),
{
    let region = region_of(buf);
    let count = cell_count(buf);
    assert(region.width * region.height <= 0xffff * 0xffff) by (nonlinear_arith)
        requires
            region.width <= 0xffff,
            region.height <= 0xffff,
    ;
    let cells: u32 = region.width as u32 * region.height as u32;
    region.x as u32 + region.width as u32 <= 0xffff && region.y as u32 + region.height as u32
        <= 0xffff && cells <= 0xffff && count == cells as usize && region.encloses(area)
}

} // verus!
