use tui::buffer::{Buffer, Cell};
use tui::style::Color as TuiColor;
use usage_view::format::{ByteFormat, DisplayOptions};
use usage_view::screen::{fits, Rect};
use usage_view::sort_mode::SortMode;
use usage_view::tree::{EntryData, Tree};
use usage_view::window::{DisplayState, DrawError, MainWindow, Traversal};

#[derive(Clone, Copy)]
struct Plain;

impl ByteFormat for Plain {
    // Stands in contracts only and is never called.
    fn shown(&self, _bytes: u64) -> vstd::seq::Seq<char> {
        unreachable!()
    }

    fn display(&self, bytes: u64) -> String {
        format!("{:>6} b", bytes)
    }
}

fn traversal() -> (Traversal, u32, u32) {
    let mut tree = Tree::new();
    let top = tree.add_node(EntryData { name: String::new(), size: 1000, is_dir: true });
    let dir = tree.add_node(EntryData { name: "dir".to_string(), size: 1000, is_dir: true });
    let a = tree.add_node(EntryData { name: "a".to_string(), size: 750, is_dir: false });
    let b = tree.add_node(EntryData { name: "b".to_string(), size: 250, is_dir: true });
    tree.add_edge(top, dir, ());
    tree.add_edge(dir, a, ());
    tree.add_edge(dir, b, ());
    (
        Traversal { tree, entries_traversed: 4, total_bytes: Some(1000) },
        dir.index() as u32,
        b.index() as u32,
    )
}

fn frame_row_text(buf: &Buffer, y: u16) -> String {
    (buf.area.left()..buf.area.right()).map(|x| buf.get(x, y).symbol.clone()).collect()
}

#[test]
fn a_frame_is_the_panel_above_the_summary() {
    let (traversal, dir, b) = traversal();
    let state = DisplayState { root: dir, selected: Some(b), sorting: SortMode::SizeDescending };
    let window = MainWindow { traversal: &traversal, display: DisplayOptions { byte_format: Plain }, state: &state };
    let mut buf = Buffer::empty(tui::layout::Rect { x: 0, y: 0, width: 40, height: 6 });
    let done = window.draw(Rect { x: 0, y: 0, width: 40, height: 6 }, &mut buf, Some("/cwd"));
    assert_eq!(done, Ok(()));
    assert_eq!(frame_row_text(&buf, 0), "┌ dir ─────────────────────────────────┐");
    assert_eq!(frame_row_text(&buf, 1), "│   750 b | 75.00% |  a                │");
    assert_eq!(frame_row_text(&buf, 2), "│   250 b | 25.00% | /b                │");
    assert_eq!(frame_row_text(&buf, 3), "│                                      │");
    assert_eq!(frame_row_text(&buf, 4), "└──────────────────────────────────────┘");
    assert_eq!(frame_row_text(&buf, 5), " Total disk usage: 1000 b  Entries: 4   ");
    assert_eq!(buf.get(1, 2).style.bg, TuiColor::White);
    assert_eq!(buf.get(1, 2).style.fg, TuiColor::Black);
    assert_eq!(buf.get(1, 1).style.fg, TuiColor::White);
    assert_eq!(buf.get(0, 5).style.bg, TuiColor::White);
}

#[test]
fn toggling_the_order_turns_the_rows_around() {
    let (traversal, dir, _) = traversal();
    let mut state = DisplayState { root: dir, selected: None, sorting: SortMode::default() };
    state.sorting.toggle_size();
    let window = MainWindow { traversal: &traversal, display: DisplayOptions { byte_format: Plain }, state: &state };
    let mut buf = Buffer::empty(tui::layout::Rect { x: 0, y: 0, width: 40, height: 6 });
    assert_eq!(window.draw(Rect { x: 0, y: 0, width: 40, height: 6 }, &mut buf, None), Ok(()));
    assert_eq!(frame_row_text(&buf, 1), "│   250 b | 25.00% | /b                │");
    assert_eq!(frame_row_text(&buf, 2), "│   750 b | 75.00% |  a                │");
}

#[test]
fn a_frame_in_a_part_of_the_buffer_leaves_the_rest_alone() {
    let (traversal, dir, _) = traversal();
    let state = DisplayState { root: dir, selected: None, sorting: SortMode::SizeDescending };
    let window = MainWindow { traversal: &traversal, display: DisplayOptions { byte_format: Plain }, state: &state };
    let mut marker = Cell::default();
    marker.set_symbol("#").set_bg(TuiColor::Blue);
    let whole = tui::layout::Rect { x: 1, y: 1, width: 50, height: 12 };
    let mut buf = Buffer::filled(whole, &marker);
    let done = window.draw(Rect { x: 4, y: 2, width: 40, height: 8 }, &mut buf, None);
    assert_eq!(done, Ok(()));
    for y in whole.top()..whole.bottom() {
        for x in whole.left()..whole.right() {
            if !(x >= 4 && x < 44 && y >= 2 && y < 10) {
                assert_eq!(buf.get(x, y), &marker);
            }
        }
    }
    assert_eq!(buf.get(4, 2).symbol, "┌");
    assert_eq!(buf.get(5, 9).symbol, "T");
}

#[test]
fn an_area_outside_the_buffer_is_refused() {
    let (traversal, dir, _) = traversal();
    let state = DisplayState { root: dir, selected: None, sorting: SortMode::SizeDescending };
    let window = MainWindow { traversal: &traversal, display: DisplayOptions { byte_format: Plain }, state: &state };
    let mut buf = Buffer::empty(tui::layout::Rect { x: 0, y: 0, width: 20, height: 5 });
    let before = buf.clone();
    for area in [
        Rect { x: 0, y: 0, width: 21, height: 5 },
        Rect { x: 0, y: 1, width: 20, height: 5 },
        Rect { x: 30, y: 0, width: 2, height: 2 },
        Rect { x: 65535, y: 0, width: 10, height: 1 },
    ] {
        assert_eq!(window.draw(area, &mut buf, None), Err(DrawError::OutsideBuffer));
        assert!(buf == before);
    }
}

#[test]
fn a_buffer_with_missing_cells_is_refused() {
    let (traversal, dir, _) = traversal();
    let state = DisplayState { root: dir, selected: None, sorting: SortMode::SizeDescending };
    let window = MainWindow { traversal: &traversal, display: DisplayOptions { byte_format: Plain }, state: &state };
    let mut buf = Buffer::empty(tui::layout::Rect { x: 0, y: 0, width: 20, height: 5 });
    buf.content.truncate(50);
    let done = window.draw(Rect { x: 0, y: 0, width: 20, height: 2 }, &mut buf, None);
    assert_eq!(done, Err(DrawError::OutsideBuffer));
    assert_eq!(buf.content.len(), 50);
}

#[test]
fn a_summary_of_two_rows_is_refused() {
    let (traversal, dir, _) = traversal();
    let state = DisplayState { root: dir, selected: None, sorting: SortMode::SizeDescending };
    let window = MainWindow { traversal: &traversal, display: DisplayOptions { byte_format: Plain }, state: &state };
    let mut buf = Buffer::empty(tui::layout::Rect { x: 0, y: 0, width: 20, height: 6 });
    let before = buf.clone();
    let area = Rect { x: 0, y: 0, width: 20, height: 6 };
    let panel = Rect { x: 0, y: 0, width: 20, height: 4 };
    let summary = Rect { x: 0, y: 4, width: 20, height: 2 };
    assert_eq!(window.draw_parts(area, panel, summary, &mut buf, None), Err(DrawError::Layout));
    assert!(buf == before);
}

#[test]
fn parts_outside_the_area_are_refused() {
    let (traversal, dir, _) = traversal();
    let state = DisplayState { root: dir, selected: None, sorting: SortMode::SizeDescending };
    let window = MainWindow { traversal: &traversal, display: DisplayOptions { byte_format: Plain }, state: &state };
    let mut buf = Buffer::empty(tui::layout::Rect { x: 0, y: 0, width: 20, height: 6 });
    let before = buf.clone();
    let area = Rect { x: 0, y: 0, width: 20, height: 5 };
    let panel = Rect { x: 0, y: 0, width: 20, height: 5 };
    let summary = Rect { x: 0, y: 5, width: 20, height: 1 };
    assert_eq!(window.draw_parts(area, panel, summary, &mut buf, None), Err(DrawError::Layout));
    assert!(buf == before);
    let ok = window.draw_parts(
        Rect { x: 0, y: 0, width: 20, height: 6 },
        panel,
        summary,
        &mut buf,
        None,
    );
    assert_eq!(ok, Ok(()));
    assert_eq!(buf.get(1, 5).symbol, "T");
}

#[test]
fn a_frame_of_one_row_is_the_summary_alone() {
    let (traversal, dir, _) = traversal();
    let state = DisplayState { root: dir, selected: None, sorting: SortMode::SizeDescending };
    let window = MainWindow { traversal: &traversal, display: DisplayOptions { byte_format: Plain }, state: &state };
    let mut buf = Buffer::empty(tui::layout::Rect { x: 0, y: 0, width: 30, height: 1 });
    let done = window.draw(Rect { x: 0, y: 0, width: 30, height: 1 }, &mut buf, None);
    assert_eq!(done, Ok(()));
    assert_eq!(frame_row_text(&buf, 0), " Total disk usage: 1000 b  Ent");
}

#[test]
fn fits_tells_whether_an_area_lies_in_the_buffer() {
    let buf = Buffer::empty(tui::layout::Rect { x: 2, y: 3, width: 10, height: 4 });
    assert!(fits(&buf, &Rect { x: 2, y: 3, width: 10, height: 4 }));
    assert!(fits(&buf, &Rect { x: 5, y: 4, width: 0, height: 0 }));
    assert!(fits(&buf, &Rect { x: 12, y: 7, width: 0, height: 0 }));
    assert!(!fits(&buf, &Rect { x: 1, y: 3, width: 10, height: 4 }));
    assert!(!fits(&buf, &Rect { x: 2, y: 3, width: 11, height: 4 }));
    assert!(!fits(&buf, &Rect { x: 2, y: 3, width: 10, height: 5 }));
    let mut short = buf.clone();
    short.content.pop();
    assert!(!fits(&short, &Rect { x: 2, y: 3, width: 1, height: 1 }));
    let far = Buffer { area: tui::layout::Rect { x: 65530, y: 0, width: 10, height: 1 }, content: vec![Cell::default(); 10] };
    assert!(!fits(&far, &Rect { x: 65530, y: 0, width: 1, height: 1 }));
}

#[test]
fn encloses_compares_all_four_edges() {
    let outer = Rect { x: 2, y: 2, width: 4, height: 4 };
    assert!(outer.encloses(&outer));
    assert!(outer.encloses(&Rect { x: 3, y: 3, width: 3, height: 1 }));
    assert!(!outer.encloses(&Rect { x: 3, y: 3, width: 4, height: 1 }));
    assert!(!outer.encloses(&Rect { x: 3, y: 1, width: 1, height: 1 }));
    assert!(!outer.encloses(&Rect { x: 65535, y: 2, width: 65535, height: 1 }));
}

#[test]
fn an_area_without_rows_has_no_room_for_the_summary() {
    let (traversal, dir, _) = traversal();
    let state = DisplayState { root: dir, selected: None, sorting: SortMode::SizeDescending };
    let window = MainWindow { traversal: &traversal, display: DisplayOptions { byte_format: Plain }, state: &state };
    let mut buf = Buffer::empty(tui::layout::Rect { x: 0, y: 0, width: 30, height: 2 });
    let before = buf.clone();
    let done = window.draw(Rect { x: 0, y: 1, width: 30, height: 0 }, &mut buf, None);
    assert_eq!(done, Err(DrawError::Layout));
    assert!(buf == before);
}

#[test]
fn a_very_tall_area_is_drawn_or_refused_as_a_whole() {
    let (traversal, dir, _) = traversal();
    let state = DisplayState { root: dir, selected: None, sorting: SortMode::SizeDescending };
    let window = MainWindow { traversal: &traversal, display: DisplayOptions { byte_format: Plain }, state: &state };
    let mut buf = Buffer::empty(tui::layout::Rect { x: 0, y: 0, width: 40, height: 300 });
    let before = buf.clone();
    match window.draw(Rect { x: 0, y: 0, width: 40, height: 300 }, &mut buf, None) {
        Ok(()) => assert_eq!(buf.get(0, 0).symbol, "┌"),
        Err(error) => {
            assert_eq!(error, DrawError::Layout);
            assert!(buf == before);
        }
    }
}
