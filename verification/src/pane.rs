//! An output pane showing one service's logs.
//!
//! The emulator screen is drawn cell by cell rather than as text, so the
//! container's own colours survive.
use vstd::prelude::*;

use crate::emulator::{CellColor, CellView, ScreenCell};
use crate::layout::Rect;
use crate::paint::{block_inner, Span, SpanView, Tone};
use crate::service::ServiceStatus;
use crate::store::{LogStore, LogView};
use crate::text::copied;

verus! {

/// Columns of padding at either side of a pane.
pub const H_PADDING: u16 = 2;

/// Rows of padding above and below in a pane.
pub const V_PADDING: u16 = 1;

/// Border plus the padding inside a pane, left and right.
pub const H_CHROME: u16 = 6;

/// Border plus the padding inside a pane, above and below.
pub const V_CHROME: u16 = 4;

/// The one row of grid the pane is given beyond what it draws.
///
/// Container output ends every line in `\n`, so the cursor comes to rest on an
/// empty row after every write. One row of slack lets the pane leave the
/// cursor's row out of the frame without leaving a hole.
pub const CURSOR_ROW: u16 = 1;

/// Below this the pane is too small to show anything useful.
pub const MIN_PANE: u16 = 5;

/// Rows that a pane of this size draws into.
pub open spec fn rows_drawn(area: Rect) -> u16 {
    crate::store::floored(crate::paint::less(area.height, V_CHROME), 3)
}

/// The grid that a pane of this size is given: rows, then columns.
pub open spec fn grid_size(area: Rect) -> (u16, u16) {
    (
        if rows_drawn(area) == u16::MAX {
            u16::MAX
        } else {
            (rows_drawn(area) + CURSOR_ROW) as u16
        },
        crate::store::floored(crate::paint::less(area.width, H_CHROME), 20),
    )
}

/// Rows of a pane of this size that are drawn into.
fn drawn_rows(area: Rect) -> (rows: u16)
    ensures
        rows == rows_drawn(area),
{
    let rows: u16 = area.height.saturating_sub(V_CHROME);
    if rows < 3 {
        3
    } else {
        rows
    }
}

/// Emulator grid size for a pane of this size.
///
/// One row taller than the pane draws. The columns are the pane's own, since
/// nothing is held back horizontally.
pub fn emulator_size(area: Rect) -> (size: (u16, u16))
    ensures
        size == grid_size(area),
{
    let rows: u16 = drawn_rows(area).saturating_add(CURSOR_ROW);
    let cols: u16 = area.width.saturating_sub(H_CHROME);
    (
        rows,
        if cols < 20 {
            20
        } else {
            cols
        },
    )
}

/// The row of the grid that the pane's top line shows: the window ends at the
/// bottom of the grid, or one row above it while the last row is blank.
pub open spec fn top_row(rows: u16, height: u16, tail_blank: bool) -> u16 {
    let window = height + if tail_blank {
        1int
    } else {
        0
    };
    if rows <= window {
        0
    } else {
        (rows - window) as u16
    }
}

/// The emulator row the pane's top line shows.
///
/// The window is anchored to the bottom of the grid, one row short of it while
/// the last row is blank: the cursor's row falls off the end of the window
/// instead of occupying a line of the pane.
pub fn first_drawn_row(rows: u16, height: u16, tail_blank: bool) -> (first: u16)
    ensures
        first == top_row(rows, height, tail_blank),
{
    let window: u16 = if tail_blank {
        height.saturating_add(1)
    } else {
        height
    };
    rows.saturating_sub(window)
}

/// A colour to draw in.
#[derive(Clone, Copy, Debug, PartialEq, Eq, Structural)]
pub enum PaintColor {
    /// The terminal's own colour.
    Reset,
    /// A colour of the terminal's palette.
    Indexed(u8),
    /// A colour by its red, green and blue parts.
    Rgb(u8, u8, u8),
}

/// What a cell is drawn with.
#[derive(Clone, Copy, Debug, PartialEq, Eq, Structural)]
pub struct CellStyle {
    pub fg: PaintColor,
    pub bg: PaintColor,
    pub bold: bool,
    pub italic: bool,
    pub underlined: bool,
    pub reversed: bool,
}

/// The colour a cell's colour is drawn in.
pub open spec fn drawn_color(color: CellColor) -> PaintColor {
    match color {
        CellColor::Default => PaintColor::Reset,
        CellColor::Idx(i) => PaintColor::Indexed(i),
        CellColor::Rgb(r, g, b) => PaintColor::Rgb(r, g, b),
    }
}

/// What a cell is drawn with.
pub open spec fn drawn_style(cell: CellView) -> CellStyle {
    CellStyle {
        fg: drawn_color(cell.fg),
        bg: drawn_color(cell.bg),
        bold: cell.bold,
        italic: cell.italic,
        underlined: cell.underline,
        reversed: cell.inverse,
    }
}

/// Colours keep their kind: indexed colours stay indexed, so they follow the
/// user's terminal palette.
pub fn convert_color(color: CellColor) -> (drawn: PaintColor)
    ensures
        drawn == drawn_color(color),
{
    match color {
        CellColor::Default => PaintColor::Reset,
        CellColor::Idx(i) => PaintColor::Indexed(i),
        CellColor::Rgb(r, g, b) => PaintColor::Rgb(r, g, b),
    }
}

/// What a cell is drawn with.
fn cell_style(cell: &ScreenCell) -> (style: CellStyle)
    ensures
        style == drawn_style(cell@),
{
    CellStyle {
        fg: convert_color(cell.fg),
        bg: convert_color(cell.bg),
        bold: cell.bold,
        italic: cell.italic,
        underlined: cell.underline,
        reversed: cell.inverse,
    }
}

/// A cell of the frame to draw.
#[derive(Clone, Debug)]
pub struct PaintedCell {
    pub x: u16,
    pub y: u16,
    pub symbol: String,
    pub style: CellStyle,
}

/// A [`PaintedCell`] as a plain value.
pub struct PaintedView {
    pub x: u16,
    pub y: u16,
    pub symbol: Seq<char>,
    pub style: CellStyle,
}

impl View for PaintedCell {
    type V = PaintedView;

    open spec fn view(&self) -> PaintedView {
        PaintedView { x: self.x, y: self.y, symbol: self.symbol@, style: self.style }
    }
}

/// Cells as plain values.
pub open spec fn painted_views(cells: Seq<PaintedCell>) -> Seq<PaintedView> {
    Seq::new(cells.len(), |i: int| cells[i]@)
}

/// A cell of the screen at its place in the frame. An empty cell is drawn as a
/// space.
pub open spec fn painted_cell(cell: CellView, inner: Rect, row: int, col: int) -> PaintedView {
    PaintedView {
        x: (inner.x + col) as u16,
        y: (inner.y + row) as u16,
        symbol: if cell.text.len() == 0 {
            seq![' ']
        } else {
            cell.text
        },
        style: drawn_style(cell),
    }
}

/// The first `cols` cells of a line of the pane, where the screen has them.
pub open spec fn painted_line(
    store: LogView,
    inner: Rect,
    first: u16,
    row: int,
    cols: int,
) -> Seq<PaintedView>
    decreases cols,
{
    if cols <= 0 {
        Seq::empty()
    } else {
        let before = painted_line(store, inner, first, row, cols - 1);
        match store.visible_cell((first + row) as u16, (cols - 1) as u16) {
            Some(cell) => before.push(painted_cell(cell, inner, row, cols - 1)),
            None => before,
        }
    }
}

/// The first `rows` lines of the pane, one after another.
pub open spec fn painted_lines(
    store: LogView,
    inner: Rect,
    first: u16,
    rows: int,
    cols: int,
) -> Seq<PaintedView>
    decreases rows,
{
    if rows <= 0 {
        Seq::empty()
    } else {
        painted_lines(store, inner, first, rows - 1, cols) + painted_line(
            store,
            inner,
            first,
            rows - 1,
            cols,
        )
    }
}

/// The smaller of two lengths.
pub open spec fn at_most(a: u16, b: u16) -> u16 {
    if a < b {
        a
    } else {
        b
    }
}

/// The cells of the screen that a pane shows, each at its place: as many lines
/// and columns as the pane has room for and the grid has, from the top row on.
pub open spec fn painted(store: LogView, inner: Rect, tail_blank: bool) -> Seq<PaintedView> {
    let (rows, cols) = store.size();
    let first = top_row(rows, inner.height, tail_blank);
    painted_lines(
        store,
        inner,
        first,
        at_most(inner.height, (rows - first) as u16) as int,
        at_most(cols, inner.width) as int,
    )
}

/// Gives the emulator's visible cells at their places in the frame.
///
/// The grid is taller than the pane draws, so one row of it is always left out,
/// and `first_drawn_row` picks which.
pub fn blit_screen(store: &LogStore, inner: Rect, tail_blank: bool) -> (cells: Vec<PaintedCell>)
    requires
        store.wf(),
        !store@.released,
        crate::paint::countable(inner),
    ensures
        painted_views(cells@) == painted(store@, inner, tail_blank),
{
    let (rows, cols): (u16, u16) = store.size();
    let first: u16 = first_drawn_row(rows, inner.height, tail_blank);
    let left: u16 = rows - first;
    let lines: u16 = if inner.height < left { inner.height } else { left };
    let columns: u16 = if cols < inner.width { cols } else { inner.width };
    let mut cells: Vec<PaintedCell> = Vec::new();
    let mut row: u16 = 0;
    assert(painted_views(cells@) =~= Seq::<PaintedView>::empty());
    while row < lines
        invariant
            !store@.released,
            crate::paint::countable(inner),
            row <= lines <= inner.height,
            lines <= rows - first,
            columns <= inner.width,
            painted_views(cells@) == painted_lines(
                store@,
                inner,
                first,
                row as int,
                columns as int,
            ),
        decreases lines - row,
    {
        let ghost above = painted_views(cells@);
        let mut col: u16 = 0;
        assert(above + painted_line(store@, inner, first, row as int, 0) =~= above);
        while col < columns
            invariant
                !store@.released,
                crate::paint::countable(inner),
                row < lines <= inner.height,
                lines <= rows - first,
                col <= columns <= inner.width,
                painted_views(cells@) == above + painted_line(
                    store@,
                    inner,
                    first,
                    row as int,
                    col as int,
                ),
            decreases columns - col,
        {
            let ghost before = cells@;
            match store.cell(first + row, col) {
                Some(cell) => {
                    let symbol: String = if cell.text.as_str().is_empty() {
                        let mut space: String = String::new();
                        space.push(' ');
                        space
                    } else {
                        copied(&cell.text)
                    };
                    assert(cell.text@.len() == 0 ==> symbol@ =~= seq![' ']);
                    cells.push(
                        PaintedCell {
                            x: inner.x + col,
                            y: inner.y + row,
                            symbol,
                            style: cell_style(&cell),
                        },
                    );
                    proof {
                        let view = painted_cell(cell@, inner, row as int, col as int);
                        assert(painted_views(cells@) =~= painted_views(before).push(view));
                    }
                },
                None => {},
            }
            col += 1;
            assert(painted_views(cells@) =~= above + painted_line(
                store@,
                inner,
                first,
                row as int,
                col as int,
            ));
        }
        row += 1;
    }
    cells
}

/// What a scrollbar shows.
#[derive(Clone, Copy, Debug, PartialEq, Eq, Structural)]
pub struct Scrollbar {
    pub content_length: usize,
    pub viewport_length: usize,
    pub position: usize,
}

/// How many rows a pane can be scrolled over: those of the grid, without the
/// cursor's, and those it is scrolled back, less the ones it shows.
pub open spec fn scrollable(rows: u16, offset: nat, height: u16) -> nat {
    let total = crate::store::least(
        crate::paint::less(rows, CURSOR_ROW) as nat + offset,
        usize::MAX as nat,
    );
    if total <= height {
        0
    } else {
        (total - height) as nat
    }
}

/// The scrollbar of a pane; none where there is nothing to scroll over. The
/// offset counts up from the bottom, so it is inverted for the track.
pub open spec fn scrollbar(rows: u16, offset: nat, height: u16) -> Option<Scrollbar> {
    let over = scrollable(rows, offset, height);
    if over == 0 {
        None
    } else {
        Some(
            Scrollbar {
                content_length: over as usize,
                viewport_length: height as usize,
                position: if offset >= over {
                    0
                } else {
                    (over - offset) as usize
                },
            },
        )
    }
}

/// The scrollbar of a pane that shows `height` rows of a store.
pub fn pane_scrollbar(store: &LogStore, height: u16) -> (bar: Option<Scrollbar>)
    requires
        !store@.released,
    ensures
        bar == scrollbar(store@.size().0, store@.offset, height),
{
    let offset: usize = store.scroll_offset();
    let (rows, _cols): (u16, u16) = store.size();
    let total: usize = (rows.saturating_sub(CURSOR_ROW) as usize).saturating_add(offset);
    let over: usize = total.saturating_sub(height as usize);
    if over == 0 {
        return None;
    }
    Some(
        Scrollbar {
            content_length: over,
            viewport_length: height as usize,
            position: over.saturating_sub(offset),
        },
    )
}

/// What a pane is drawn from.
pub struct PaneRender<'a> {
    pub title: &'a str,
    pub status: ServiceStatus,
    /// The sign for the service's state.
    pub glyph: char,
    pub focused: bool,
    pub store: Option<&'a LogStore>,
    pub uptime: Option<String>,
    /// Shown when this pane is the next `tab` target.
    pub tab_hint: bool,
    /// Whether the last row of the store's grid is blank.
    pub tail_blank: bool,
}

/// A [`PaneRender`] as a plain value.
pub struct PaneView {
    pub title: Seq<char>,
    pub status: ServiceStatus,
    pub glyph: char,
    pub focused: bool,
    pub store: Option<LogView>,
    pub uptime: Option<Seq<char>>,
    pub tab_hint: bool,
    pub tail_blank: bool,
}

impl<'a> View for PaneRender<'a> {
    type V = PaneView;

    open spec fn view(&self) -> PaneView {
        PaneView {
            title: self.title@,
            status: self.status,
            glyph: self.glyph,
            focused: self.focused,
            store: match self.store {
                Some(store) => Some(store@),
                None => None,
            },
            uptime: match self.uptime {
                Some(uptime) => Some(uptime@),
                None => None,
            },
            tab_hint: self.tab_hint,
            tail_blank: self.tail_blank,
        }
    }
}

/// What stands inside a pane.
pub enum PaneBody {
    /// A note that there is no output yet.
    Waiting(Span),
    /// The screen.
    Screen { cells: Vec<PaintedCell>, scrollbar: Option<Scrollbar> },
}

/// A pane, ready to be drawn.
pub enum PanePlan {
    /// There is no room for more than a mark.
    TooSmall(Span),
    /// A bordered pane. The border carries the service's status colour, dimmed
    /// when unfocused and thick when focused.
    Framed {
        title: Vec<Span>,
        status: ServiceStatus,
        focused: bool,
        uptime: Option<Span>,
        inner: Rect,
        body: PaneBody,
    },
}

/// A [`PaneBody`] as a plain value.
pub enum BodyView {
    Waiting(SpanView),
    Screen { cells: Seq<PaintedView>, scrollbar: Option<Scrollbar> },
}

/// A [`PanePlan`] as a plain value.
pub enum PlanView {
    TooSmall(SpanView),
    Framed {
        title: Seq<SpanView>,
        status: ServiceStatus,
        focused: bool,
        uptime: Option<SpanView>,
        inner: Rect,
        body: BodyView,
    },
}

impl View for PaneBody {
    type V = BodyView;

    open spec fn view(&self) -> BodyView {
        match *self {
            PaneBody::Waiting(span) => BodyView::Waiting(span@),
            PaneBody::Screen { cells, scrollbar } => BodyView::Screen {
                cells: painted_views(cells@),
                scrollbar,
            },
        }
    }
}

impl View for PanePlan {
    type V = PlanView;

    open spec fn view(&self) -> PlanView {
        match *self {
            PanePlan::TooSmall(span) => PlanView::TooSmall(span@),
            PanePlan::Framed { title, status, focused, uptime, inner, body } => PlanView::Framed {
                title: crate::paint::span_views(title@),
                status,
                focused,
                uptime: match uptime {
                    Some(span) => Some(span@),
                    None => None,
                },
                inner,
                body: body@,
            },
        }
    }
}

/// The title: the sign of the state, the name, and where there is room for it
/// and the pane is the next target, how to focus it.
pub open spec fn pane_title(pane: PaneView, width: u16) -> Seq<SpanView> {
    let named = seq![
        SpanView {
            text: seq![' ', pane.glyph, ' '],
            tone: Tone::Status(pane.status),
            bold: true,
            dim: false,
        },
        SpanView {
            text: pane.title + "  "@,
            tone: if pane.focused {
                Tone::Primary
            } else {
                Tone::Secondary
            },
            bold: pane.focused,
            dim: false,
        },
    ];
    if pane.tab_hint && width > 40 {
        named.push(SpanView::toned("Press <tab> to focus output"@, Tone::Secondary))
    } else {
        named
    }
}

/// What stands at the right of the title: the uptime, where there is room.
pub open spec fn pane_uptime(pane: PaneView, width: u16) -> Option<SpanView> {
    match pane.uptime {
        Some(uptime) => if width > 20 {
            Some(SpanView::toned("  "@ + uptime + "  "@, Tone::Secondary))
        } else {
            None
        },
        None => None,
    }
}

/// What stands inside: the screen, or a note where there is no output. A service
/// can have a stream that is silent so far, so an empty buffer is reported like
/// none at all.
pub open spec fn pane_body(pane: PaneView, inner: Rect) -> BodyView {
    match pane.store {
        Some(store) => if store.has_output {
            BodyView::Screen {
                cells: painted(store, inner, pane.tail_blank),
                scrollbar: scrollbar(store.size().0, store.offset, inner.height),
            }
        } else {
            BodyView::Waiting(SpanView::toned("Waiting for output..."@, Tone::Secondary))
        },
        None => BodyView::Waiting(SpanView::toned("Waiting for output..."@, Tone::Secondary)),
    }
}

/// A pane in an area.
pub open spec fn pane_plan(pane: PaneView, area: Rect) -> PlanView {
    if area.width < MIN_PANE || area.height < MIN_PANE {
        PlanView::TooSmall(SpanView::toned("..."@, Tone::Secondary))
    } else {
        PlanView::Framed {
            title: pane_title(pane, area.width),
            status: pane.status,
            focused: pane.focused,
            uptime: pane_uptime(pane, area.width),
            inner: crate::paint::inside(area, H_PADDING, V_PADDING),
            body: pane_body(pane, crate::paint::inside(area, H_PADDING, V_PADDING)),
        }
    }
}

/// Lays out a pane in an area.
pub fn render(pane: &PaneRender, area: Rect) -> (plan: PanePlan)
    requires
        crate::paint::countable(area),
        pane.store matches Some(store) ==> store.wf() && !store@.released,
    ensures
        plan@ == pane_plan(pane@, area),
{
    if area.width < MIN_PANE || area.height < MIN_PANE {
        return PanePlan::TooSmall(Span::new("...", Tone::Secondary));
    }
    let title: Vec<Span> = title_line(pane, area.width);
    let uptime: Option<Span> = match &pane.uptime {
        Some(uptime) => if area.width > 20 {
            let mut text: String = "  ".to_owned();
            text.append(uptime.as_str());
            text.append("  ");
            Some(Span::of(text, Tone::Secondary))
        } else {
            None
        },
        None => None,
    };
    let inner: Rect = block_inner(area, H_PADDING, V_PADDING);
    let body: PaneBody = match pane.store {
        Some(store) => if store.has_output() {
            PaneBody::Screen {
                cells: blit_screen(store, inner, pane.tail_blank),
                scrollbar: pane_scrollbar(store, inner.height),
            }
        } else {
            PaneBody::Waiting(Span::new("Waiting for output...", Tone::Secondary))
        },
        None => PaneBody::Waiting(Span::new("Waiting for output...", Tone::Secondary)),
    };
    PanePlan::Framed {
        title,
        status: pane.status,
        focused: pane.focused,
        uptime,
        inner,
        body,
    }
}

/// The title of a pane.
fn title_line(pane: &PaneRender, width: u16) -> (spans: Vec<Span>)
    ensures
        crate::paint::span_views(spans@) == pane_title(pane@, width),
{
    let mut sign: String = String::new();
    sign.push(' ');
    sign.push(pane.glyph);
    sign.push(' ');
    assert(sign@ =~= seq![' ', pane.glyph, ' ']);
    let mut name: String = pane.title.to_owned();
    name.append("  ");
    let tone: Tone = if pane.focused { Tone::Primary } else { Tone::Secondary };
    let mut spans: Vec<Span> = vec![
        Span { text: sign, tone: Tone::Status(pane.status), bold: true, dim: false },
        Span { text: name, tone, bold: pane.focused, dim: false },
    ];
    if pane.tab_hint && width > 40 {
        spans.push(Span::new("Press <tab> to focus output", Tone::Secondary));
    }
    assert(crate::paint::span_views(spans@) =~= pane_title(pane@, width));
    spans
}

/// The window of a pane ends at the bottom of the grid, or just above a blank
/// last row, wherever the grid is tall enough for it.
pub proof fn law_window(rows: u16, height: u16, tail_blank: bool)
    ensures
        top_row(rows, height, tail_blank) <= rows,
        tail_blank && rows > height ==> top_row(rows, height, tail_blank) + height == rows - 1,
        !tail_blank && rows >= height ==> top_row(rows, height, tail_blank) + height == rows,
        rows <= height ==> top_row(rows, height, tail_blank) == 0,
{
}

/// The grid of a pane is what the pane draws into, and the cursor's row.
pub proof fn law_grid(area: Rect)
    requires
        area.height >= V_CHROME + 3,
        area.width >= H_CHROME + 20,
    ensures
        grid_size(area).0 == crate::paint::inside(area, H_PADDING, V_PADDING).height + CURSOR_ROW,
        grid_size(area).1 == crate::paint::inside(area, H_PADDING, V_PADDING).width,
{
}

/// Whether a cell lies in an area.
pub open spec fn cell_in(cell: PaintedView, area: Rect) -> bool {
    &&& area.x <= cell.x < area.x + area.width
    &&& area.y <= cell.y < area.y + area.height
}

proof fn lemma_painted_line(store: LogView, inner: Rect, first: u16, row: int, cols: int, i: int)
    requires
        crate::paint::countable(inner),
        0 <= row < inner.height,
        cols <= inner.width,
        0 <= i < painted_line(store, inner, first, row, cols).len(),
    ensures
        cell_in(painted_line(store, inner, first, row, cols)[i], inner),
    decreases cols,
{
    if cols > 0 {
        let before = painted_line(store, inner, first, row, cols - 1);
        if i < before.len() {
            lemma_painted_line(store, inner, first, row, cols - 1, i);
        }
    }
}

proof fn lemma_painted_lines(store: LogView, inner: Rect, first: u16, rows: int, cols: int, i: int)
    requires
        crate::paint::countable(inner),
        rows <= inner.height,
        cols <= inner.width,
        0 <= i < painted_lines(store, inner, first, rows, cols).len(),
    ensures
        cell_in(painted_lines(store, inner, first, rows, cols)[i], inner),
    decreases rows,
{
    if rows > 0 {
        let above = painted_lines(store, inner, first, rows - 1, cols);
        if i < above.len() {
            lemma_painted_lines(store, inner, first, rows - 1, cols, i);
        } else {
            lemma_painted_line(store, inner, first, rows - 1, cols, i - above.len());
        }
    }
}

/// A pane draws its screen inside of its border and nowhere else.
pub proof fn law_cells_stay_inside(store: LogView, inner: Rect, tail_blank: bool, i: int)
    requires
        crate::paint::countable(inner),
        0 <= i < painted(store, inner, tail_blank).len(),
    ensures
        cell_in(painted(store, inner, tail_blank)[i], inner),
{
    let (rows, cols) = store.size();
    let first = top_row(rows, inner.height, tail_blank);
    lemma_painted_lines(
        store,
        inner,
        first,
        at_most(inner.height, (rows - first) as u16) as int,
        at_most(cols, inner.width) as int,
        i,
    );
}

/// A scrollbar's position is on its track, and at its end while the pane tails.
pub proof fn law_scrollbar(rows: u16, offset: nat, height: u16)
    ensures
        scrollbar(rows, offset, height) matches Some(bar) ==> {
            &&& bar.position <= bar.content_length
            &&& offset == 0 ==> bar.position == bar.content_length
        },
{
}

/// Whether a colour is drawn as what it is: the terminal's own stays that, one of
/// its palette keeps its number, and one by its parts keeps them.
pub open spec fn same_color(drawn: PaintColor, color: CellColor) -> bool {
    match color {
        CellColor::Default => drawn == PaintColor::Reset,
        CellColor::Idx(n) => drawn == PaintColor::Indexed(n),
        CellColor::Rgb(r, g, b) => drawn == PaintColor::Rgb(r, g, b),
    }
}

/// Whether a cell of the frame looks as a cell of the screen does: what is written
/// in it, both of its colours, and each of its attributes on its own.
pub open spec fn looks_like(drawn: PaintedView, cell: CellView) -> bool {
    &&& drawn.symbol == if cell.text.len() == 0 {
        seq![' ']
    } else {
        cell.text
    }
    &&& same_color(drawn.style.fg, cell.fg)
    &&& same_color(drawn.style.bg, cell.bg)
    &&& drawn.style.bold == cell.bold
    &&& drawn.style.italic == cell.italic
    &&& drawn.style.underlined == cell.underline
    &&& drawn.style.reversed == cell.inverse
}

/// A cell is drawn as what it is, with the colours and attributes that the container
/// wrote it with.
pub proof fn law_cell_style(cell: CellView, inner: Rect, row: int, col: int)
    requires
        crate::paint::countable(inner),
        0 <= row < inner.height,
        0 <= col < inner.width,
    ensures
        looks_like(painted_cell(cell, inner, row, col), cell),
        painted_cell(cell, inner, row, col).x == inner.x + col,
        painted_cell(cell, inner, row, col).y == inner.y + row,
{
}

/// Whether a cell of the frame is the cell of the screen that is that many rows and
/// columns into the window, which begins at row `first`.
pub open spec fn shows(
    drawn: PaintedView,
    store: LogView,
    inner: Rect,
    first: u16,
    row: int,
    col: int,
) -> bool {
    &&& drawn.x == inner.x + col
    &&& drawn.y == inner.y + row
    &&& store.visible_cell((first + row) as u16, col as u16) matches Some(cell) && looks_like(
        drawn,
        cell,
    )
}

/// Which column a cell of a line shows.
proof fn lemma_line_shows(
    store: LogView,
    inner: Rect,
    first: u16,
    row: int,
    cols: int,
    i: int,
) -> (col: int)
    requires
        crate::paint::countable(inner),
        0 <= row < inner.height,
        0 <= cols <= inner.width,
        0 <= i < painted_line(store, inner, first, row, cols).len(),
    ensures
        0 <= col < cols,
        shows(painted_line(store, inner, first, row, cols)[i], store, inner, first, row, col),
    decreases cols,
{
    let before = painted_line(store, inner, first, row, cols - 1);
    if i < before.len() {
        lemma_line_shows(store, inner, first, row, cols - 1, i)
    } else {
        let there = store.visible_cell((first + row) as u16, (cols - 1) as u16);
        law_cell_style(there->0, inner, row, cols - 1);
        cols - 1
    }
}

/// Where in a line a column is shown.
proof fn lemma_shown_in_line(
    store: LogView,
    inner: Rect,
    first: u16,
    row: int,
    cols: int,
    col: int,
) -> (i: int)
    requires
        crate::paint::countable(inner),
        0 <= row < inner.height,
        0 <= col < cols <= inner.width,
        store.visible_cell((first + row) as u16, col as u16) is Some,
    ensures
        0 <= i < painted_line(store, inner, first, row, cols).len(),
        shows(painted_line(store, inner, first, row, cols)[i], store, inner, first, row, col),
    decreases cols,
{
    let before = painted_line(store, inner, first, row, cols - 1);
    if col < cols - 1 {
        lemma_shown_in_line(store, inner, first, row, cols - 1, col)
    } else {
        let there = store.visible_cell((first + row) as u16, col as u16);
        law_cell_style(there->0, inner, row, col);
        before.len() as int
    }
}

/// Which row and column a cell of the lines shows.
proof fn lemma_lines_show(
    store: LogView,
    inner: Rect,
    first: u16,
    rows: int,
    cols: int,
    i: int,
) -> (at: (int, int))
    requires
        crate::paint::countable(inner),
        0 <= rows <= inner.height,
        0 <= cols <= inner.width,
        0 <= i < painted_lines(store, inner, first, rows, cols).len(),
    ensures
        0 <= at.0 < rows,
        0 <= at.1 < cols,
        shows(
            painted_lines(store, inner, first, rows, cols)[i],
            store,
            inner,
            first,
            at.0,
            at.1,
        ),
    decreases rows,
{
    let above = painted_lines(store, inner, first, rows - 1, cols);
    if i < above.len() {
        lemma_lines_show(store, inner, first, rows - 1, cols, i)
    } else {
        (rows - 1, lemma_line_shows(store, inner, first, rows - 1, cols, i - above.len()))
    }
}

/// Where in the lines a row and column are shown.
proof fn lemma_shown_in_lines(
    store: LogView,
    inner: Rect,
    first: u16,
    rows: int,
    cols: int,
    row: int,
    col: int,
) -> (i: int)
    requires
        crate::paint::countable(inner),
        0 <= row < rows <= inner.height,
        0 <= col < cols <= inner.width,
        store.visible_cell((first + row) as u16, col as u16) is Some,
    ensures
        0 <= i < painted_lines(store, inner, first, rows, cols).len(),
        shows(painted_lines(store, inner, first, rows, cols)[i], store, inner, first, row, col),
    decreases rows,
{
    let above = painted_lines(store, inner, first, rows - 1, cols);
    if row < rows - 1 {
        lemma_shown_in_lines(store, inner, first, rows - 1, cols, row, col)
    } else {
        above.len() + lemma_shown_in_line(store, inner, first, rows - 1, cols, col)
    }
}

/// Every cell that a pane draws is one of the screen's, in the window that the pane
/// has room for, at its place and as it looks there. The window begins at the row
/// that [`law_window`] speaks of.
pub proof fn law_drawn_is_on_screen(store: LogView, inner: Rect, tail_blank: bool, i: int)
    requires
        crate::paint::countable(inner),
        0 <= i < painted(store, inner, tail_blank).len(),
    ensures
        ({
            let (rows, cols) = store.size();
            let first = top_row(rows, inner.height, tail_blank);
            exists|row: int, col: int|
                {
                    &&& 0 <= row < inner.height && first + row < rows
                    &&& 0 <= col < inner.width && col < cols
                    &&& #[trigger] shows(
                        painted(store, inner, tail_blank)[i],
                        store,
                        inner,
                        first,
                        row,
                        col,
                    )
                }
        }),
{
    let (rows, cols) = store.size();
    let first = top_row(rows, inner.height, tail_blank);
    let (row, col) = lemma_lines_show(
        store,
        inner,
        first,
        at_most(inner.height, (rows - first) as u16) as int,
        at_most(cols, inner.width) as int,
        i,
    );
    assert(shows(painted(store, inner, tail_blank)[i], store, inner, first, row, col));
}

/// Every cell of the screen in the window that a pane has room for is drawn.
pub proof fn law_screen_is_drawn(
    store: LogView,
    inner: Rect,
    tail_blank: bool,
    row: int,
    col: int,
)
    requires
        crate::paint::countable(inner),
        0 <= row < inner.height,
        0 <= col < inner.width,
        ({
            let first = top_row(store.size().0, inner.height, tail_blank);
            &&& first + row < store.size().0
            &&& col < store.size().1
            &&& store.visible_cell((first + row) as u16, col as u16) is Some
        }),
    ensures
        exists|i: int|
            0 <= i < painted(store, inner, tail_blank).len() && #[trigger] shows(
                painted(store, inner, tail_blank)[i],
                store,
                inner,
                top_row(store.size().0, inner.height, tail_blank),
                row,
                col,
            ),
{
    let (rows, cols) = store.size();
    let first = top_row(rows, inner.height, tail_blank);
    let i = lemma_shown_in_lines(
        store,
        inner,
        first,
        at_most(inner.height, (rows - first) as u16) as int,
        at_most(cols, inner.width) as int,
        row,
        col,
    );
    assert(shows(painted(store, inner, tail_blank)[i], store, inner, first, row, col));
}

/// A scrollbar is there exactly where there is more than the pane shows, the cursor's
/// row not counted. Its track is as long as what there is beyond that, and its
/// position is as far from the end of the track as the view is scrolled back.
pub proof fn law_scrollbar_track(rows: u16, offset: nat, height: u16)
    requires
        rows >= 1,
        rows + offset <= usize::MAX,
    ensures
        scrollbar(rows, offset, height) is Some <==> rows - 1 + offset > height,
        scrollbar(rows, offset, height) matches Some(bar) ==> {
            &&& bar.content_length == rows - 1 + offset - height
            &&& bar.viewport_length == height
            &&& offset <= bar.content_length ==> bar.content_length - bar.position == offset
            &&& offset > bar.content_length ==> bar.position == 0
        },
{
}

/// What a pane says of its service. It is only a mark where there is no room for a
/// frame. Else its title has the sign of the state and the name; it says how to
/// focus the pane where `tab` would and there is room; and the uptime stands beside
/// it where it is known and there is room. A focused pane is bright.
pub proof fn law_pane_head(pane: PaneView, area: Rect)
    ensures
        pane_plan(pane, area) is TooSmall <==> area.width < 5 || area.height < 5,
        pane_plan(pane, area) matches PlanView::Framed {
            title,
            status,
            focused,
            uptime,
            ..
        } ==> {
            &&& status == pane.status
            &&& focused == pane.focused
            &&& title.len() == if pane.tab_hint && area.width > 40 {
                3
            } else {
                2int
            }
            &&& title[0].text == seq![' ', pane.glyph, ' ']
            &&& title[0].tone == Tone::Status(pane.status)
            &&& title[0].bold
            &&& title[1].text == pane.title + "  "@
            &&& title[1].bold == pane.focused
            &&& title[1].tone == if pane.focused {
                Tone::Primary
            } else {
                Tone::Secondary
            }
            &&& title.len() == 3 ==> title[2].text == "Press <tab> to focus output"@
            &&& uptime is Some <==> pane.uptime is Some && area.width > 20
            &&& uptime matches Some(span) ==> span.text == "  "@ + pane.uptime->0 + "  "@
        },
{
}

/// What stands inside of a pane: the screen of its store once there has been any
/// output, with the scrollbar of where its view is, and until then a note.
pub proof fn law_pane_body(pane: PaneView, area: Rect)
    requires
        area.width >= 5,
        area.height >= 5,
        crate::paint::countable(area),
    ensures
        pane_plan(pane, area) matches PlanView::Framed { inner, body, .. } && {
            &&& match pane.store {
                Some(store) => if store.has_output {
                    body == (BodyView::Screen {
                        cells: painted(store, inner, pane.tail_blank),
                        scrollbar: scrollbar(store.size().0, store.offset, inner.height),
                    })
                } else {
                    body is Waiting
                },
                None => body is Waiting,
            }
            &&& body matches BodyView::Waiting(note) ==> note.text == "Waiting for output..."@
            &&& inner.width == if area.width > 6 {
                area.width - 6
            } else {
                0
            }
            &&& inner.height == if area.height > 4 {
                area.height - 4
            } else {
                0
            }
            &&& inner.x == area.x + 3
            &&& inner.y == area.y + 2
        },
{
}

/// The grid of a pane is never smaller than the emulator can take, and has a row for
/// the cursor beyond those the pane draws.
pub proof fn law_grid_floor(area: Rect)
    ensures
        grid_size(area).0 >= 4,
        grid_size(area).1 >= 20,
        area.height >= 7 ==> grid_size(area).0 == area.height - 3,
        area.width >= 26 ==> grid_size(area).1 == area.width - 6,
        area.height < 7 ==> grid_size(area).0 == 4,
        area.width < 26 ==> grid_size(area).1 == 20,
{
}

} // verus!
