use wctr_dem_engine::fm_page::{
    ColumnSizing, FmPage, PageControl, RenderFeedback, SortColumn, Style,
};
use wctr_dem_engine::path_sheet::{
    comes_before, decimal_text, text_before, FMError, FileTime, PathRecord, PathRecordType,
    PathSheet, SCROLL_PADDING,
};

fn rec(name: &str, kind: PathRecordType, size: u64, secs: i64) -> PathRecord {
    PathRecord {
        path: format!("/base/{}", name),
        file_name: name.to_string(),
        size,
        mtime: FileTime { secs, nanos: 0 },
        path_type: kind,
    }
}

fn file(name: &str, size: u64, secs: i64) -> PathRecord {
    rec(name, PathRecordType::File, size, secs)
}

fn dir(name: &str, size: u64, secs: i64) -> PathRecord {
    rec(name, PathRecordType::Dir, size, secs)
}

fn listing() -> Vec<PathRecord> {
    vec![
        file("zeta.txt", 30, 300),
        dir("Music", 10, 500),
        file("Alpha.txt", 20, 100),
        dir("docs", 40, 200),
        rec("link", PathRecordType::SymLink, 5, 400),
        file("beta.txt", 20, 100),
    ]
}

fn names(sheet: &PathSheet) -> Vec<String> {
    sheet.paths.iter().map(|p| p.file_name.clone()).collect()
}

fn sheet() -> PathSheet {
    PathSheet::read("/base", Ok(listing())).unwrap()
}

fn many(n: usize) -> PathSheet {
    let records = (0..n).map(|i| file(&format!("f{:04}", i), i as u64, i as i64)).collect();
    PathSheet::read("/base", Ok(records)).unwrap()
}

fn feedback(recent: usize) -> RenderFeedback {
    RenderFeedback {
        recent_line_count: recent,
        row_offset: 0,
        start_rows: (0, 0),
        row_height: 0,
        end_rows: (0, 0),
    }
}

#[test]
fn decimal_text_writes_digits_without_leading_zeros() {
    for n in [0u64, 1, 9, 10, 11, 99, 100, 101, 1234, 1_000_000, 9_007_199_254_740_993, u64::MAX] {
        assert_eq!(decimal_text(n), n.to_string());
    }
    assert_eq!(decimal_text(0), "0");
    assert_eq!(decimal_text(1070), "1070");
    assert_eq!(decimal_text(u64::MAX), "18446744073709551615");
}

#[test]
fn text_before_is_dictionary_order_on_bytes() {
    assert!(text_before("a", "b"));
    assert!(!text_before("b", "a"));
    assert!(!text_before("a", "a"));
    assert!(text_before("", "a"));
    assert!(!text_before("a", ""));
    assert!(!text_before("", ""));
    assert!(text_before("ab", "abc"));
    assert!(!text_before("abc", "ab"));
    assert!(text_before("Z", "a"));
    assert!(text_before("z", "\u{e9}"));
    assert!(text_before("\u{e9}", "\u{4e2d}"));
}

#[test]
fn comes_before_by_each_column() {
    let d = dir("zz", 9, 9);
    let f = file("aa", 1, 1);
    let g = file("AB", 1, 2);
    assert!(comes_before(&d, &f, 0));
    assert!(!comes_before(&f, &d, 0));
    assert!(comes_before(&f, &g, 0));
    assert!(!comes_before(&g, &f, 0));
    assert!(comes_before(&f, &g, 1));
    assert!(!comes_before(&g, &f, 1));
    assert!(!comes_before(&f, &g, 2));
    assert!(comes_before(&f, &d, 2));
    assert!(!comes_before(&f, &d, 3));
    assert!(!comes_before(&d, &f, 3));
}

#[test]
fn file_time_orders_by_seconds_then_nanos() {
    let a = FileTime { secs: 5, nanos: 10 };
    let b = FileTime { secs: 5, nanos: 11 };
    let c = FileTime { secs: 6, nanos: 0 };
    let d = FileTime { secs: -1, nanos: 999 };
    assert!(a.is_before(&b));
    assert!(!b.is_before(&a));
    assert!(b.is_before(&c));
    assert!(!a.is_before(&a));
    assert!(d.is_before(&a));
}

#[test]
fn read_orders_by_name_with_directories_first() {
    let s = sheet();
    assert_eq!(s.base, "/base");
    assert_eq!(names(&s), vec!["docs", "Music", "Alpha.txt", "beta.txt", "link", "zeta.txt"]);
    assert_eq!(s.sort_col_idx, 0);
    assert!(s.sort_col_dir);
    assert_eq!(s.scroll_offset, 0);
    assert!(s.paths_dirty);
    assert!(!s.state_dirty);
    assert!(s.selection.is_empty());
    assert!(s.highlight.is_empty());
    assert_eq!(s.len(), 6);
}

#[test]
fn read_keeps_cursor_on_first_listed_entry() {
    let s = sheet();
    assert_eq!(s.paths[s.cursor_idx].file_name, "zeta.txt");
    assert_eq!(s.cursor_idx, 5);
    assert!(s.is_cursor_idx(5));
    assert!(!s.is_cursor_idx(0));
}

#[test]
fn read_hands_back_the_error() {
    let failed = Err(FMError::from(std::io::Error::new(std::io::ErrorKind::NotFound, "gone")));
    match PathSheet::read("/nowhere", failed) {
        Err(FMError::IOError(e)) => assert_eq!(e.kind(), std::io::ErrorKind::NotFound),
        Ok(_) => panic!("expected the error"),
    }
}

#[test]
fn sort_by_time_is_stable() {
    let mut s = sheet();
    s.sort_by_column(1, true);
    assert_eq!(names(&s), vec!["Alpha.txt", "beta.txt", "docs", "zeta.txt", "link", "Music"]);
    assert_eq!(s.paths[s.cursor_idx].file_name, "zeta.txt");
    assert_eq!(s.sort_col_idx, 0);
}

#[test]
fn sort_by_size_descending_reverses() {
    let mut s = sheet();
    s.sort_by_column(2, false);
    assert_eq!(names(&s), vec!["docs", "zeta.txt", "beta.txt", "Alpha.txt", "Music", "link"]);
    assert_eq!(s.paths[s.cursor_idx].file_name, "zeta.txt");
}

#[test]
fn sort_by_unknown_column_keeps_order() {
    let mut s = sheet();
    let before = names(&s);
    s.sort_by_column(7, true);
    assert_eq!(names(&s), before);
    s.sort_by_column(7, false);
    let mut flipped = before.clone();
    flipped.reverse();
    assert_eq!(names(&s), flipped);
}

#[test]
fn toggle_sort_flips_direction_on_same_column() {
    let mut s = sheet();
    s.toggle_sort_by_column(0);
    assert_eq!((s.sort_col_idx, s.sort_col_dir), (0, false));
    assert_eq!(names(&s), vec!["zeta.txt", "link", "beta.txt", "Alpha.txt", "Music", "docs"]);
    s.toggle_sort_by_column(2);
    assert_eq!((s.sort_col_idx, s.sort_col_dir), (2, true));
    assert_eq!(names(&s), vec!["link", "Music", "beta.txt", "Alpha.txt", "zeta.txt", "docs"]);
    s.toggle_sort_by_column(2);
    assert_eq!((s.sort_col_idx, s.sort_col_dir), (2, false));
    FmPage::sort_by_column(&mut s, 2);
    assert_eq!((s.sort_col_idx, s.sort_col_dir), (2, true));
}

#[test]
fn index_refs_hold_cursor_and_marks() {
    let mut s = sheet();
    s.selection.insert(4);
    s.selection.insert(0);
    s.highlight.insert(2);
    let refs = s.get_index_refs();
    assert_eq!(refs.cursor.file_name, "zeta.txt");
    let picked: Vec<&str> = refs.selection.iter().map(|p| p.file_name.as_str()).collect();
    assert_eq!(picked, vec!["docs", "link"]);
    let lit: Vec<&str> = refs.highlight.iter().map(|p| p.file_name.as_str()).collect();
    assert_eq!(lit, vec!["Alpha.txt"]);
    assert!(s.is_selected(4) && s.is_selected(0) && !s.is_selected(1));
    assert!(s.is_highlighted(2) && !s.is_highlighted(4));
}

#[test]
fn select_index_refs_finds_path_or_first_row() {
    let mut s = sheet();
    let mut refs = s.get_index_refs();
    refs.cursor = file("Alpha.txt", 0, 0);
    s.select_index_refs(&refs);
    assert_eq!(s.cursor_idx, 2);
    refs.cursor = file("missing", 0, 0);
    s.select_index_refs(&refs);
    assert_eq!(s.cursor_idx, 0);
}

#[test]
fn update_keeps_cursor_on_its_path() {
    let mut s = sheet();
    s.toggle_sort_by_column(2);
    assert_eq!(s.cursor_idx, 4);
    let fresh = vec![
        file("new.txt", 1, 1),
        file("zeta.txt", 99, 2),
        dir("docs", 50, 3),
        file("a", 2, 4),
        file("b", 3, 5),
        file("c", 4, 6),
    ];
    assert!(s.update(Ok(fresh)).is_ok());
    assert_eq!(names(&s), vec!["new.txt", "a", "b", "c", "docs", "zeta.txt"]);
    assert_eq!(s.cursor_idx, 5);
    assert!(s.paths_dirty && s.state_dirty);
    assert!(s.needs_repage() && s.needs_redraw());
}

#[test]
fn update_puts_cursor_first_when_path_is_gone() {
    let mut s = sheet();
    let fresh = (0..6).map(|i| file(&format!("n{}", i), i, i as i64)).collect();
    assert!(s.update(Ok(fresh)).is_ok());
    assert_eq!(s.cursor_idx, 0);
}

#[test]
fn update_with_error_leaves_sheet() {
    let mut s = sheet();
    let before = names(&s);
    let failed = Err(FMError::IOError(std::io::Error::new(std::io::ErrorKind::Other, "x")));
    assert!(matches!(s.update(failed), Err(FMError::IOError(_))));
    assert_eq!(names(&s), before);
    assert_eq!(s.cursor_idx, 5);
    assert!(!s.state_dirty);
}

#[test]
fn cursor_moves_and_stays_on_sheet() {
    let mut s = sheet();
    s.do_control(PageControl::CursorDown);
    assert_eq!(s.cursor_idx, 5);
    s.do_control(PageControl::CursorUp);
    assert_eq!(s.cursor_idx, 4);
    assert_eq!(s.scroll_offset, 3);
    for _ in 0..10 {
        s.do_control(PageControl::CursorUp);
    }
    assert_eq!(s.cursor_idx, 0);
    assert_eq!(s.scroll_offset, 0);
    s.do_control(PageControl::CursorDown);
    assert_eq!((s.cursor_idx, s.scroll_offset), (1, 0));
    s.do_control(PageControl::Refresh);
    s.do_control(PageControl::Back);
    s.do_control(PageControl::Access);
    assert_eq!((s.cursor_idx, s.scroll_offset), (1, 0));
    assert_eq!(s.get_scroll_offs(), 0);
}

#[test]
fn view_follows_cursor_with_padding() {
    assert_eq!(SCROLL_PADDING, 5);
    let mut s = many(100);
    s.set_render_feedback(feedback(20));
    s.cursor_idx = 0;
    for _ in 0..14 {
        s.do_control(PageControl::CursorDown);
    }
    assert_eq!((s.cursor_idx, s.scroll_offset), (14, 0));
    s.do_control(PageControl::CursorDown);
    assert_eq!((s.cursor_idx, s.scroll_offset), (15, 1));
    s.cursor_idx = 98;
    s.do_control(PageControl::CursorDown);
    assert_eq!((s.cursor_idx, s.scroll_offset), (99, 80));
    s.do_control(PageControl::CursorDown);
    assert_eq!((s.cursor_idx, s.scroll_offset), (99, 80));
    s.cursor_idx = 83;
    s.do_control(PageControl::CursorUp);
    assert_eq!((s.cursor_idx, s.scroll_offset), (82, 77));
    s.cursor_idx = 3;
    s.do_control(PageControl::CursorUp);
    assert_eq!((s.cursor_idx, s.scroll_offset), (2, 0));
}

#[test]
fn view_larger_than_sheet_stays_at_top() {
    let mut s = many(12);
    s.set_render_feedback(feedback(30));
    s.cursor_idx = 10;
    s.scroll_offset = 4;
    s.do_control(PageControl::CursorDown);
    assert_eq!((s.cursor_idx, s.scroll_offset), (11, 0));
}

#[test]
fn scroll_moves_view_by_five_rows_a_notch() {
    let mut s = many(100);
    s.set_render_feedback(feedback(20));
    s.cursor_idx = 50;
    s.do_control(PageControl::Scroll(2));
    assert_eq!((s.cursor_idx, s.scroll_offset), (50, 10));
    s.do_control(PageControl::Scroll(-1));
    assert_eq!(s.scroll_offset, 5);
    s.do_control(PageControl::Scroll(-3));
    assert_eq!(s.scroll_offset, 0);
    s.do_control(PageControl::Scroll(100));
    assert_eq!(s.scroll_offset, 80);
    s.do_control(PageControl::Scroll(0));
    assert_eq!(s.scroll_offset, 80);
    s.set_render_feedback(feedback(100));
    s.do_control(PageControl::Scroll(1));
    assert_eq!(s.scroll_offset, 0);
}

#[test]
fn click_puts_cursor_on_the_row() {
    let mut s = many(100);
    s.set_render_feedback(RenderFeedback {
        recent_line_count: 20,
        row_offset: 30,
        start_rows: (10, 100),
        row_height: 16,
        end_rows: (400, 420),
    });
    s.cursor_idx = 35;
    s.scroll_offset = 30;
    s.do_control(PageControl::Click((50, 100 + 16 * 7 + 3)));
    assert_eq!((s.cursor_idx, s.scroll_offset), (37, 30));
    s.do_control(PageControl::Click((10, 100)));
    assert_eq!((s.cursor_idx, s.scroll_offset), (30, 25));
    s.do_control(PageControl::Click((400, 420)));
    assert_eq!((s.cursor_idx, s.scroll_offset), (50, 36));
}

#[test]
fn click_beside_the_rows_does_nothing() {
    let mut s = many(100);
    s.set_render_feedback(RenderFeedback {
        recent_line_count: 20,
        row_offset: 30,
        start_rows: (10, 100),
        row_height: 16,
        end_rows: (400, 420),
    });
    s.cursor_idx = 99;
    s.scroll_offset = 3;
    for at in [(9, 200), (401, 200), (50, 99), (50, 421)] {
        s.do_control(PageControl::Click(at));
        assert_eq!((s.cursor_idx, s.scroll_offset), (99, 3));
    }
}

#[test]
fn control_toggles_sort_and_updates() {
    let mut s = sheet();
    s.do_control(PageControl::ToggleSortBy(SortColumn::Size));
    assert_eq!((s.sort_col_idx, s.sort_col_dir), (2, true));
    assert_eq!(names(&s), vec!["link", "Music", "Alpha.txt", "beta.txt", "zeta.txt", "docs"]);
    assert_eq!((s.cursor_idx, s.scroll_offset), (4, 3));
    s.do_control(PageControl::ToggleSortBy(SortColumn::MTime));
    assert_eq!((s.sort_col_idx, s.sort_col_dir), (1, true));
    s.do_control(PageControl::ToggleSortBy(SortColumn::Name));
    assert_eq!(names(&s), vec!["docs", "Music", "Alpha.txt", "beta.txt", "link", "zeta.txt"]);
    let fresh = (0..6).map(|i| file(&format!("n{}", 5 - i), i, i as i64)).collect();
    s.do_control(PageControl::Update(fresh));
    assert_eq!(names(&s), vec!["n0", "n1", "n2", "n3", "n4", "n5"]);
    assert_eq!((s.cursor_idx, s.scroll_offset), (0, 0));
    assert!(s.state_dirty);
}

#[test]
fn draw_page_has_three_columns() {
    let mut s = PathSheet::read(
        "/base",
        Ok(vec![
            PathRecord {
                path: "/base/a.txt".to_string(),
                file_name: "a.txt".to_string(),
                size: 1234,
                mtime: FileTime { secs: 0, nanos: 0 },
                path_type: PathRecordType::File,
            },
            PathRecord {
                path: "/base/sub".to_string(),
                file_name: "sub".to_string(),
                size: 0,
                mtime: FileTime { secs: 1_000_000_000, nanos: 5 },
                path_type: PathRecordType::Dir,
            },
            PathRecord {
                path: "/base/ln".to_string(),
                file_name: "ln".to_string(),
                size: 18_446_744_073_709_551_615,
                mtime: FileTime { secs: -1, nanos: 0 },
                path_type: PathRecordType::SymLink,
            },
        ]),
    )
    .unwrap();
    s.set_render_feedback(feedback(3));
    let t = s.draw_page_with("/");
    assert_eq!(t.title, "/base");
    assert_eq!((t.row_gap, t.col_gap), (2, 4));
    assert_eq!(t.columns.len(), 3);
    let heads: Vec<&str> = t.columns.iter().map(|c| c.head.as_str()).collect();
    assert_eq!(heads, vec!["name", "time", "size"]);
    assert!(matches!(t.columns[0].size, ColumnSizing::ExpandFract(1)));
    match &t.columns[1].size {
        ColumnSizing::TextWidth(w) => assert_eq!(w, "MMMM-MM-MM MM:MM:MM"),
        _ => panic!("expected a sample width"),
    }
    match &t.columns[2].size {
        ColumnSizing::TextWidth(w) => assert_eq!(w, "MMMMMM"),
        _ => panic!("expected a sample width"),
    }
    assert!(t.columns.iter().all(|c| c.calc_size.is_none()));
    let cells = |i: usize| -> Vec<(String, Style)> {
        t.columns[i].rows.iter().map(|r| (r.text.clone(), r.style)).collect()
    };
    assert_eq!(
        cells(0),
        vec![
            ("sub/".to_string(), Style::Dir),
            ("a.txt".to_string(), Style::File),
            ("ln".to_string(), Style::Special),
        ]
    );
    assert_eq!(
        cells(1),
        vec![
            ("2001-09-09 01:46:40".to_string(), Style::Default),
            ("1970-01-01 00:00:00".to_string(), Style::Default),
            ("1969-12-31 23:59:59".to_string(), Style::Default),
        ]
    );
    assert_eq!(
        cells(2),
        vec![
            ("0".to_string(), Style::Default),
            ("1234".to_string(), Style::Default),
            ("18446744073709551615".to_string(), Style::Default),
        ]
    );
}

#[test]
fn draw_page_uses_the_machines_separator() {
    let s = PathSheet::read("/base", Ok(vec![dir("sub", 0, 0)])).unwrap();
    assert_eq!(std::path::MAIN_SEPARATOR.to_string().chars().count(), 1);
    let expected = format!("sub{}", std::path::MAIN_SEPARATOR);
    assert_eq!(s.as_draw_page().columns[0].rows[0].text, expected);
    assert_eq!(s.try_as_draw_page().unwrap().columns[0].rows[0].text, expected);
}

#[test]
fn try_draw_page_refuses_times_out_of_reach() {
    let s = PathSheet::read("/base", Ok(vec![file("a", 0, 0), file("b", 0, i64::MAX)])).unwrap();
    assert!(s.try_as_draw_page().is_none());
    let s = PathSheet::read("/base", Ok(vec![file("a", 0, 0), file("b", 0, 86_400)])).unwrap();
    let t = s.try_as_draw_page().unwrap();
    assert_eq!(t.columns[1].rows[1].text, "1970-01-02 00:00:00");
}
