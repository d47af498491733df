use tui::buffer::{Buffer, Cell};
use tui::style::Color as TuiColor;
use usage_view::entries::{draw_panel, format_row, title_for, Entries, Row};
use usage_view::format::{DisplayOptions, RawBytes};
use usage_view::screen::Rect;
use usage_view::sort_mode::SortMode;
use usage_view::tree::{EntryData, Tree};


struct Sample {
    tree: Tree,
    top: u32,
    dir: u32,
    big: u32,
    mid: u32,
    sub: u32,
}

fn sample() -> Sample {
    let mut tree = Tree::new();
    let top = tree.add_node(EntryData { name: String::new(), size: 1000, is_dir: true });
    let dir = tree.add_node(EntryData { name: "dir".to_string(), size: 1000, is_dir: true });
    let mid = tree.add_node(EntryData { name: "mid".to_string(), size: 300, is_dir: false });
    let big = tree.add_node(EntryData { name: "big".to_string(), size: 600, is_dir: false });
    let sub = tree.add_node(EntryData { name: "sub".to_string(), size: 100, is_dir: true });
    tree.add_edge(top, dir, ());
    tree.add_edge(dir, mid, ());
    tree.add_edge(dir, big, ());
    tree.add_edge(dir, sub, ());
    Sample {
        tree,
        top: top.index() as u32,
        dir: dir.index() as u32,
        big: big.index() as u32,
        mid: mid.index() as u32,
        sub: sub.index() as u32,
    }
}

fn panel_of(sample: &Sample, root: u32, sorting: SortMode, selected: Option<u32>) -> Entries<'_, RawBytes> {
    Entries {
        tree: &sample.tree,
        root,
        display: DisplayOptions { byte_format: RawBytes },
        sorting,
        selected,
    }
}

fn panel_row_text(buf: &Buffer, y: u16) -> String {
    (buf.area.left()..buf.area.right()).map(|x| buf.get(x, y).symbol.clone()).collect()
}

#[test]
fn three_children_largest_first() {
    let s = sample();
    let rows = panel_of(&s, s.dir, SortMode::SizeDescending, None).rows();
    let shown: Vec<(u32, u64, u64)> = rows.iter().map(|r| (r.node, r.size, r.percentage)).collect();
    assert_eq!(shown, vec![(s.big, 600, 6000), (s.mid, 300, 3000), (s.sub, 100, 1000)]);
    let labels: Vec<&str> = rows.iter().map(|r| r.label.as_str()).collect();
    assert_eq!(
        labels,
        vec!["600 b | 60.00% |  big", "300 b | 30.00% |  mid", "100 b | 10.00% | /sub"]
    );
}

#[test]
fn three_children_smallest_first() {
    let s = sample();
    let rows = panel_of(&s, s.dir, SortMode::SizeAscending, None).rows();
    let shown: Vec<(u32, u64, u64)> = rows.iter().map(|r| (r.node, r.size, r.percentage)).collect();
    assert_eq!(shown, vec![(s.sub, 100, 1000), (s.mid, 300, 3000), (s.big, 600, 6000)]);
    let labels: Vec<&str> = rows.iter().map(|r| r.label.as_str()).collect();
    assert_eq!(
        labels,
        vec!["100 b | 10.00% | /sub", "300 b | 30.00% |  mid", "600 b | 60.00% |  big"]
    );
}

#[test]
fn a_directory_is_not_marked_at_the_top_of_the_tree() {
    let s = sample();
    let rows = panel_of(&s, s.top, SortMode::SizeDescending, None).rows();
    assert_eq!(rows.len(), 1);
    assert_eq!(rows[0].label, "1000 b | 100.00% |  dir");
}

#[test]
fn a_directory_is_marked_below_the_top() {
    let s = sample();
    let rows = panel_of(&s, s.dir, SortMode::SizeDescending, None).rows();
    assert_eq!(rows[2].node, s.sub);
    assert!(rows[2].label.ends_with("| /sub"));
    assert!(rows[0].label.ends_with("|  big"));
}

#[test]
fn exactly_the_selected_child_is_highlighted() {
    let s = sample();
    let rows = panel_of(&s, s.dir, SortMode::SizeDescending, Some(s.mid)).rows();
    let flags: Vec<bool> = rows.iter().map(|r| r.highlighted).collect();
    assert_eq!(flags, vec![false, true, false]);
}

#[test]
fn nothing_is_highlighted_without_a_selection() {
    let s = sample();
    let rows = panel_of(&s, s.dir, SortMode::SizeDescending, None).rows();
    assert!(rows.iter().all(|r| !r.highlighted));
}

#[test]
fn nothing_is_highlighted_when_the_selection_is_no_child() {
    let s = sample();
    for stray in [s.top, s.dir, 999] {
        let rows = panel_of(&s, s.dir, SortMode::SizeDescending, Some(stray)).rows();
        assert_eq!(rows.len(), 3);
        assert!(rows.iter().all(|r| !r.highlighted));
    }
}

#[test]
fn a_level_of_empty_entries_shows_zero_shares() {
    let mut tree = Tree::new();
    let top = tree.add_node(EntryData { name: String::new(), size: 0, is_dir: true });
    for name in ["one", "two"] {
        let node = tree.add_node(EntryData { name: name.to_string(), size: 0, is_dir: false });
        tree.add_edge(top, node, ());
    }
    let panel = Entries {
        tree: &tree,
        root: top.index() as u32,
        display: DisplayOptions { byte_format: RawBytes },
        sorting: SortMode::SizeDescending,
        selected: None,
    };
    let rows = panel.rows();
    let labels: Vec<&str> = rows.iter().map(|r| r.label.as_str()).collect();
    assert_eq!(labels, vec!["0 b |  0.00% |  one", "0 b |  0.00% |  two"]);
    assert!(rows.iter().all(|r| r.percentage == 0));
}

#[test]
fn a_directory_without_children_has_no_rows() {
    let s = sample();
    assert!(panel_of(&s, s.sub, SortMode::SizeDescending, None).rows().is_empty());
}

#[test]
fn row_text_is_size_share_and_name() {
    assert_eq!(format_row("1.50 MiB", 1234, true, "src"), "1.50 MiB | 12.34% | /src");
    assert_eq!(format_row("7 b", 500, false, "a b"), "7 b |  5.00% |  a b");
    assert_eq!(format_row("", 10000, false, ""), " | 100.00% |  ");
}

#[test]
fn title_is_the_path_between_blanks() {
    assert_eq!(title_for("src/lib", Some("/home/me")), " src/lib ");
    assert_eq!(title_for("src/lib", None), " src/lib ");
}

#[test]
fn title_of_an_empty_path_is_the_working_directory() {
    assert_eq!(title_for("", Some("/home/me")), " /home/me ");
}

#[test]
fn title_of_an_empty_path_is_a_dot_without_working_directory() {
    assert_eq!(title_for("", None), " . ");
}

#[test]
fn panel_title_follows_the_viewed_directory() {
    let s = sample();
    assert_eq!(panel_of(&s, s.dir, SortMode::SizeDescending, None).title(Some("/cwd")), " dir ");
    assert_eq!(panel_of(&s, s.sub, SortMode::SizeDescending, None).title(None), " dir/sub ");
    assert_eq!(panel_of(&s, s.top, SortMode::SizeDescending, None).title(Some("/cwd")), " /cwd ");
    assert_eq!(panel_of(&s, s.top, SortMode::SizeDescending, None).title(None), " . ");
}

#[test]
fn panel_is_drawn_with_border_title_and_rows() {
    let s = sample();
    let mut buf = Buffer::empty(tui::layout::Rect { x: 0, y: 0, width: 26, height: 6 });
    let area = Rect { x: 0, y: 0, width: 26, height: 6 };
    panel_of(&s, s.dir, SortMode::SizeDescending, Some(s.mid)).draw(area, &mut buf, None);
    assert_eq!(panel_row_text(&buf, 0), "┌ dir ───────────────────┐");
    assert_eq!(panel_row_text(&buf, 1), "│600 b | 60.00% |  big   │");
    assert_eq!(panel_row_text(&buf, 2), "│300 b | 30.00% |  mid   │");
    assert_eq!(panel_row_text(&buf, 3), "│100 b | 10.00% | /sub   │");
    assert_eq!(panel_row_text(&buf, 4), "│                        │");
    assert_eq!(panel_row_text(&buf, 5), "└────────────────────────┘");
}

#[test]
fn the_selected_row_has_swapped_colours() {
    let s = sample();
    let mut buf = Buffer::empty(tui::layout::Rect { x: 0, y: 0, width: 26, height: 6 });
    let area = Rect { x: 0, y: 0, width: 26, height: 6 };
    panel_of(&s, s.dir, SortMode::SizeDescending, Some(s.mid)).draw(area, &mut buf, None);
    for x in 1..22 {
        assert_eq!(buf.get(x, 1).style.fg, TuiColor::White);
        assert_eq!(buf.get(x, 1).style.bg, TuiColor::Reset);
        assert_eq!(buf.get(x, 2).style.fg, TuiColor::Black);
        assert_eq!(buf.get(x, 2).style.bg, TuiColor::White);
        assert_eq!(buf.get(x, 3).style.fg, TuiColor::White);
        assert_eq!(buf.get(x, 3).style.bg, TuiColor::Reset);
    }
}

#[test]
fn rows_that_do_not_fit_are_cut() {
    let s = sample();
    let mut buf = Buffer::empty(tui::layout::Rect { x: 0, y: 0, width: 12, height: 4 });
    let area = Rect { x: 0, y: 0, width: 12, height: 4 };
    panel_of(&s, s.dir, SortMode::SizeDescending, None).draw(area, &mut buf, None);
    assert_eq!(panel_row_text(&buf, 0), "┌ dir ─────┐");
    assert_eq!(panel_row_text(&buf, 1), "│600 b | 60│");
    assert_eq!(panel_row_text(&buf, 2), "│300 b | 30│");
    assert_eq!(panel_row_text(&buf, 3), "└──────────┘");
}

#[test]
fn the_panel_changes_nothing_outside_its_area() {
    let s = sample();
    let mut marker = Cell::default();
    marker.set_symbol("x").set_bg(TuiColor::Red);
    let whole = tui::layout::Rect { x: 3, y: 2, width: 30, height: 9 };
    let mut buf = Buffer::filled(whole, &marker);
    let area = Rect { x: 5, y: 3, width: 24, height: 5 };
    panel_of(&s, s.dir, SortMode::SizeDescending, Some(s.big)).draw(area, &mut buf, Some("/cwd"));
    let mut changed = 0;
    for y in whole.top()..whole.bottom() {
        for x in whole.left()..whole.right() {
            let inside = x >= 5 && x < 29 && y >= 3 && y < 8;
            if !inside {
                assert_eq!(buf.get(x, y), &marker);
            } else if buf.get(x, y) != &marker {
                changed += 1;
            }
        }
    }
    assert_eq!(changed, 24 * 5);
    assert_eq!(buf.get(5, 3).symbol, "┌");
    assert_eq!(buf.get(6, 4).symbol, "6");
}

#[test]
fn a_panel_too_small_for_a_border_draws_nothing() {
    let s = sample();
    let whole = tui::layout::Rect { x: 0, y: 0, width: 10, height: 4 };
    let mut buf = Buffer::empty(whole);
    let untouched = buf.clone();
    let panel = panel_of(&s, s.dir, SortMode::SizeDescending, None);
    panel.draw(Rect { x: 0, y: 0, width: 10, height: 1 }, &mut buf, None);
    panel.draw(Rect { x: 4, y: 1, width: 1, height: 3 }, &mut buf, None);
    panel.draw(Rect { x: 10, y: 4, width: 0, height: 0 }, &mut buf, None);
    assert!(buf == untouched);
}

#[test]
fn names_that_are_not_ascii_are_drawn() {
    let rows = vec![
        Row { node: 1, size: 2, percentage: 10000, label: "2 b | 100.00% |  größe".to_string(), highlighted: false },
        Row { node: 2, size: 0, percentage: 0, label: "0 b |  0.00% |  漢字漢字漢字漢字".to_string(), highlighted: true },
    ];
    let mut buf = Buffer::empty(tui::layout::Rect { x: 0, y: 0, width: 24, height: 4 });
    draw_panel(" t ", &rows, Rect { x: 0, y: 0, width: 24, height: 4 }, &mut buf);
    assert_eq!(buf.get(18, 1).symbol, "g");
    assert_eq!(buf.get(20, 1).symbol, "ö");
    assert_eq!(buf.get(17, 2).symbol, "漢");
    assert_eq!(buf.get(23, 1).symbol, "│");
    assert_eq!(buf.get(23, 2).symbol, "│");
}

#[test]
fn a_second_listing_has_the_same_rows() {
    let s = sample();
    let panel = panel_of(&s, s.dir, SortMode::SizeDescending, Some(s.big));
    let (first, second) = (panel.rows(), panel.rows());
    assert_eq!(first.len(), second.len());
    for (a, b) in first.iter().zip(second.iter()) {
        assert_eq!((a.node, a.size, a.percentage, &a.label, a.highlighted),
            (b.node, b.size, b.percentage, &b.label, b.highlighted));
    }
}

#[test]
fn a_stray_selection_draws_what_no_selection_draws() {
    let s = sample();
    let area = Rect { x: 0, y: 0, width: 26, height: 6 };
    let mut plain = Buffer::empty(tui::layout::Rect { x: 0, y: 0, width: 26, height: 6 });
    panel_of(&s, s.dir, SortMode::SizeDescending, None).draw(area, &mut plain, None);
    let mut stray = Buffer::empty(tui::layout::Rect { x: 0, y: 0, width: 26, height: 6 });
    panel_of(&s, s.dir, SortMode::SizeDescending, Some(s.top)).draw(area, &mut stray, None);
    assert!(plain == stray);
}

#[test]
fn the_two_orders_mirror_each_other() {
    let s = sample();
    let down = panel_of(&s, s.dir, SortMode::SizeDescending, Some(s.mid)).rows();
    let up = panel_of(&s, s.dir, SortMode::SizeAscending, Some(s.mid)).rows();
    assert_eq!(down.len(), up.len());
    for (a, b) in down.iter().zip(up.iter().rev()) {
        assert_eq!((a.node, a.size, a.percentage, &a.label, a.highlighted),
            (b.node, b.size, b.percentage, &b.label, b.highlighted));
    }
}

#[test]
fn what_lies_below_the_children_does_not_show() {
    let mut s = sample();
    let area = Rect { x: 0, y: 0, width: 26, height: 6 };
    let mut before = Buffer::empty(tui::layout::Rect { x: 0, y: 0, width: 26, height: 6 });
    panel_of(&s, s.dir, SortMode::SizeDescending, None).draw(area, &mut before, None);
    let deep = s.tree.add_node(EntryData { name: "deep".to_string(), size: 9999, is_dir: false });
    s.tree.add_edge(petgraph::graph::NodeIndex::new(s.sub as usize), deep, ());
    let mut after = Buffer::empty(tui::layout::Rect { x: 0, y: 0, width: 26, height: 6 });
    panel_of(&s, s.dir, SortMode::SizeDescending, None).draw(area, &mut after, None);
    assert!(before == after);
}
