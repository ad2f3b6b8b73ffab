//! The table model a page of the file browser shows, and the controls a
//! page answers to.

use vstd::prelude::*;
use crate::path_sheet::PathRecord;

verus! {

/// How a cell is painted.
#[derive(Debug, Clone, Copy, PartialEq, Eq)]
pub enum Style {
    Default,
    Dir,
    File,
    Special,
}

/// A cell: its text and how it is painted.
#[derive(Debug)]
pub struct StyleString {
    pub text: String,
    pub style: Style,
}

/// How wide a column is: as wide as a sample text, or a share of what
/// the other columns leave.
#[derive(Debug)]
pub enum ColumnSizing {
    TextWidth(String),
    ExpandFract(i32),
}

/// A column: its heading, its cells from the first row down, and its width.
#[derive(Debug)]
pub struct Column {
    pub head: String,
    pub rows: std::vec::Vec<StyleString>,
    pub size: ColumnSizing,
    pub calc_size: Option<i32>,
}

/// A table ready to be drawn.
#[derive(Debug)]
pub struct Table {
    pub title: String,
    pub columns: std::vec::Vec<Column>,
    pub row_gap: u32,
    pub col_gap: u32,
}

/// The column a page is ordered by.
#[derive(Debug, Clone, Copy, PartialEq, Eq)]
pub enum SortColumn {
    Name,
    MTime,
    Size,
}

/// What the user can ask of a page.
#[derive(Debug)]
pub enum PageControl {
    Refresh,
    Back,
    Access,
    CursorDown,
    CursorUp,
    /// A click at the pixel `(x, y)`.
    Click((i32, i32)),
    /// A turn of the wheel by so many notches, down if positive.
    Scroll(i32),
    /// Orders the page by the column; asked again of the same column it
    /// turns the order round.
    ToggleSortBy(SortColumn),
    /// Takes up a fresh listing of the directory.
    Update(std::vec::Vec<PathRecord>),
}

/// What the renderer reports back after drawing a page: how many rows it
/// showed, which row came first, and where the rows lie on the screen.
#[derive(Debug, Clone, Copy)]
pub struct RenderFeedback {
    pub recent_line_count: usize,
    pub row_offset: usize,
    pub start_rows: (i32, i32),
    pub row_height: i32,
    pub end_rows: (i32, i32),
}

/// A page of the browser: rows under a cursor, with a scroll position,
/// marks, and an order. `drawable`, `controllable` and `sortable` say when
/// the page can be drawn, given a control, and ordered.
pub trait FmPage {
    spec fn drawable(&self) -> bool;

    spec fn controllable(&self, ctrl: PageControl) -> bool;

    spec fn sortable(&self) -> bool;

    /// The number of rows.
    fn len(&self) -> usize;

    /// The page as a table.
    fn as_draw_page(&self) -> Table
        requires
            self.drawable(),
    ;

    /// The first row in view.
    fn get_scroll_offs(&self) -> usize;

    /// Carries out what the user asked.
    fn do_control(&mut self, ctrl: PageControl)
        requires
            old(self).controllable(ctrl),
    ;

    /// Whether the cursor is on row `idx`.
    fn is_cursor_idx(&self, idx: usize) -> bool;

    /// Whether row `idx` is selected.
    fn is_selected(&self, idx: usize) -> bool;

    /// Whether row `idx` is highlighted.
    fn is_highlighted(&self, idx: usize) -> bool;

    /// Whether the rows have changed since the page was last laid out.
    fn needs_repage(&self) -> bool;

    /// Whether the page has changed since it was last drawn.
    fn needs_redraw(&self) -> bool;

    /// Orders the page by column `col_idx`; asked again of the same
    /// column it turns the order round.
    fn sort_by_column(&mut self, col_idx: usize)
        requires
            old(self).sortable(),
    ;

    /// Takes note of what the renderer reports.
    fn set_render_feedback(&mut self, fb: RenderFeedback);
}

} // verus!
