//! The bottom bar: progress on the left, context in the middle, keys on the right.
use vstd::prelude::*;

use crate::app::App;
use crate::app_model::AppView;
use crate::filter::FilterState;
use crate::focus::Focus;
use crate::layout::Rect;
use crate::paint::{line_width, split_area, Division, Part, Span, SpanView, Tone};
use crate::service::{Row, RowView, ServiceStatus};
use crate::text::push_decimal;

verus! {

/// Room between the progress and the context.
pub const BOTTOM_SPACING: u16 = 4;

/// Room at the right of the hints.
pub const RIGHT_MARGIN: u16 = 1;

/// The most room the progress is given.
pub const STATUS_MIN_WIDTH: u16 = 25;

/// The least room the hints ask for.
pub const MIN_HELP_WIDTH: u16 = 16;

/// How many rows the bar takes up.
pub const HEIGHT: u16 = 1;

/// A hint: what a key does, and the key.
pub type Hint = (&'static str, &'static str);

/// Hints as plain values.
pub open spec fn hint_views(hints: Seq<Hint>) -> Seq<(Seq<char>, Seq<char>)> {
    Seq::new(hints.len(), |i: int| (hints[i].0@, hints[i].1@))
}

/// The hints in drop order: the leftmost goes first as space runs out. They are
/// those of what has the focus; a pane with the whole frame tells how to leave.
pub open spec fn hints(app: AppView) -> Seq<(Seq<char>, Seq<char>)> {
    if app.focus.current() is Pane {
        seq![
            ("scroll: "@, "↑ ↓"@),
            ("copy: "@, "c"@),
            if app.full_screen is Some {
                ("exit: "@, "esc"@)
            } else {
                ("full screen: "@, "<enter>"@)
            },
            ("quit: "@, "q"@),
            ("help: "@, "?"@),
        ]
    } else {
        seq![
            ("pin output: "@, "1 or 2"@),
            ("show output: "@, "<enter>"@),
            ("filter: "@, "/"@),
            ("navigate: "@, "↑ ↓"@),
            ("quit: "@, "q"@),
            ("help: "@, "?"@),
        ]
    }
}

/// Right-hand key hints, in drop order: the leftmost goes first as space runs out.
pub fn help_items(app: &App) -> (items: Vec<Hint>)
    ensures
        hint_views(items@) == hints(app@),
{
    let items: Vec<Hint> = match app.focus() {
        Focus::Pane(_) => {
            let way: Hint = if app.full_screen_pane().is_some() {
                ("exit: ", "esc")
            } else {
                ("full screen: ", "<enter>")
            };
            vec![("scroll: ", "↑ ↓"), ("copy: ", "c"), way, ("quit: ", "q"), ("help: ", "?")]
        },
        _ => vec![
            ("pin output: ", "1 or 2"),
            ("show output: ", "<enter>"),
            ("filter: ", "/"),
            ("navigate: ", "↑ ↓"),
            ("quit: ", "q"),
            ("help: ", "?"),
        ],
    };
    assert(hint_views(items@) =~= hints(app@));
    items
}

/// The spans of hints, with room between them.
pub open spec fn hint_spans(items: Seq<(Seq<char>, Seq<char>)>) -> Seq<SpanView>
    decreases items.len(),
{
    if items.len() == 0 {
        Seq::empty()
    } else {
        let before = hint_spans(items.drop_last());
        let spaced = if items.len() == 1 {
            before
        } else {
            before.push(SpanView::toned("  "@, Tone::Plain))
        };
        spaced.push(SpanView::toned(items.last().0, Tone::Secondary)).push(
            SpanView::toned(items.last().1, Tone::Info),
        )
    }
}

/// The spans of as many of the last hints as fit; none where not even one does.
pub open spec fn fitting(items: Seq<(Seq<char>, Seq<char>)>, available: u16) -> Seq<SpanView>
    decreases items.len(),
{
    if items.len() == 0 {
        Seq::empty()
    } else if crate::paint::characters_in(hint_spans(items)) <= available {
        hint_spans(items)
    } else {
        fitting(items.drop_first(), available)
    }
}

/// The spans of the hints from `start` on.
fn render_items(items: &Vec<Hint>, start: usize) -> (spans: Vec<Span>)
    requires
        start <= items@.len(),
    ensures
        crate::paint::span_views(spans@) == hint_spans(hint_views(items@).skip(start as int)),
{
    let ghost views = hint_views(items@).skip(start as int);
    let mut spans: Vec<Span> = Vec::new();
    let mut i: usize = start;
    assert(crate::paint::span_views(spans@) =~= Seq::<SpanView>::empty());
    assert(views.take(0) =~= Seq::<(Seq<char>, Seq<char>)>::empty());
    while i < items.len()
        invariant
            start <= i <= items@.len(),
            views == hint_views(items@).skip(start as int),
            crate::paint::span_views(spans@) == hint_spans(views.take(i - start)),
        decreases items@.len() - i,
    {
        assert(views.take(i - start + 1).drop_last() =~= views.take(i - start));
        assert(views.take(i - start + 1).last() == (items@[i as int].0@, items@[i as int].1@));
        if i > start {
            spans.push(Span::new("  ", Tone::Plain));
        }
        let (label, key): Hint = items[i];
        spans.push(Span::new(label, Tone::Secondary));
        spans.push(Span::new(key, Tone::Info));
        assert(crate::paint::span_views(spans@) =~= hint_spans(views.take(i - start + 1)));
        i += 1;
    }
    assert(views.take(i - start) =~= views);
    spans
}

/// Whether spans hold no more characters than that.
fn fits(spans: &Vec<Span>, available: u16) -> (fits: bool)
    ensures
        fits == (crate::paint::characters_in(crate::paint::span_views(spans@)) <= available),
{
    let ghost views = crate::paint::span_views(spans@);
    let mut left: usize = available as usize;
    let mut i: usize = 0;
    while i < spans.len()
        invariant
            i <= spans@.len(),
            views == crate::paint::span_views(spans@),
            crate::paint::characters_in(views.take(i as int)) == available - left,
            left <= available,
        decreases spans@.len() - i,
    {
        assert(views.take(i + 1).drop_last() =~= views.take(i as int));
        let count: usize = spans[i].text.as_str().unicode_len();
        if count > left {
            proof {
                lemma_characters_in(views, i + 1);
            }
            return false;
        }
        left -= count;
        i += 1;
    }
    assert(views.take(i as int) =~= views);
    true
}

/// More spans hold no fewer characters.
proof fn lemma_characters_in(spans: Seq<SpanView>, n: int)
    requires
        0 <= n <= spans.len(),
    ensures
        crate::paint::characters_in(spans.take(n)) <= crate::paint::characters_in(spans),
    decreases spans.len(),
{
    if n == spans.len() {
        assert(spans.take(n) =~= spans);
    } else {
        assert(spans.drop_last().take(n) =~= spans.take(n));
        lemma_characters_in(spans.drop_last(), n);
    }
}

/// Builds the hint line, dropping leading items until it fits.
pub fn help_line(app: &App, available: u16) -> (spans: Vec<Span>)
    ensures
        crate::paint::span_views(spans@) == fitting(hints(app@), available),
{
    let items: Vec<Hint> = help_items(app);
    let ghost views = hint_views(items@);
    let mut start: usize = 0;
    assert(views.skip(0) =~= views);
    while start < items.len()
        invariant
            start <= items@.len(),
            views == hint_views(items@),
            views == hints(app@),
            fitting(views, available) == fitting(views.skip(start as int), available),
        decreases items@.len() - start,
    {
        assert(views.skip(start as int).drop_first() =~= views.skip(start + 1));
        let spans: Vec<Span> = render_items(&items, start);
        if fits(&spans, available) {
            return spans;
        }
        start += 1;
    }
    let none: Vec<Span> = Vec::new();
    assert(crate::paint::span_views(none@) =~= Seq::<SpanView>::empty());
    none
}

/// How many rows are of services that are up.
pub open spec fn up_count(rows: Seq<RowView>) -> nat
    decreases rows.len(),
{
    if rows.len() == 0 {
        0
    } else {
        up_count(rows.drop_last()) + if rows.last().service.status.up() {
            1nat
        } else {
            0
        }
    }
}

/// Left slot: how many services are up, of those on screen, and the project name.
/// With no services there is nothing to say.
pub open spec fn status_spans(project: Seq<char>, rows: Seq<RowView>) -> Seq<SpanView> {
    if rows.len() == 0 {
        Seq::empty()
    } else {
        seq![
            SpanView::toned(" "@, Tone::Plain),
            SpanView::toned(
                crate::text::decimal(up_count(rows)) + seq!['/'] + crate::text::decimal(
                    rows.len(),
                ),
                Tone::Secondary,
            ),
            SpanView { text: " up"@, tone: Tone::Plain, bold: false, dim: true },
            SpanView::toned("  "@, Tone::Plain),
            SpanView::toned(project, Tone::Secondary),
        ]
    }
}

/// Left slot: how many services are up, and the project name.
pub fn status_line(app: &App) -> (spans: Vec<Span>)
    ensures
        crate::paint::span_views(spans@) == status_spans(app@.project, app@.visible),
{
    let rows: &[Row] = app.rows();
    let ghost views = crate::service::row_views(rows@);
    let total: usize = rows.len();
    if total == 0 {
        let none: Vec<Span> = Vec::new();
        assert(crate::paint::span_views(none@) =~= Seq::<SpanView>::empty());
        return none;
    }
    let mut running: usize = 0;
    let mut i: usize = 0;
    while i < rows.len()
        invariant
            i <= rows@.len(),
            running <= i,
            views == crate::service::row_views(rows@),
            running == up_count(views.take(i as int)),
        decreases rows@.len() - i,
    {
        assert(views.take(i + 1).drop_last() =~= views.take(i as int));
        if rows[i].service.status.is_up() {
            running += 1;
        }
        i += 1;
    }
    assert(views.take(i as int) =~= views);
    let mut count: String = String::new();
    push_decimal(&mut count, running as u64);
    count.push('/');
    push_decimal(&mut count, total as u64);
    assert(count@ =~= crate::text::decimal(running as nat) + seq!['/'] + crate::text::decimal(
        total as nat,
    ));
    let spans: Vec<Span> = vec![
        Span::new(" ", Tone::Plain),
        Span::of(count, Tone::Secondary),
        Span { text: " up".to_owned(), tone: Tone::Plain, bold: false, dim: true },
        Span::new("  ", Tone::Plain),
        Span::new(app.project.as_str(), Tone::Secondary),
    ];
    assert(crate::paint::span_views(spans@) =~= status_spans(app@.project, views));
    spans
}

/// Middle slot, in precedence order: transient message, countdown, then filter.
pub open spec fn context_spans(app: AppView) -> Seq<SpanView> {
    let hidden = crate::text::decimal((app.all.len() - app.visible.len()) as nat);
    let query = SpanView::toned(seq!['/'] + app.filter.query, Tone::Info);
    match (app.status_message, app.countdown()) {
        (Some((message, _)), _) => seq![SpanView::toned(message, Tone::Info)],
        (None, Some(seconds)) => seq![
            SpanView::toned(
                "All services exited - closing in "@ + crate::text::decimal(seconds)
                    + "s (any key cancels)"@,
                Tone::Warning,
            ),
        ],
        (None, None) => match app.filter.state {
            FilterState::Editing => seq![
                query,
                SpanView::toned(
                    "  "@ + hidden + " filtered out   <enter> confirm, <esc> cancel"@,
                    Tone::Secondary,
                ),
            ],
            FilterState::Persisted => seq![
                query,
                SpanView::toned("  "@ + hidden + " hidden (/ to edit)"@, Tone::Secondary),
            ],
            FilterState::Off => Seq::empty(),
        },
    }
}

/// A number with text before and behind it.
fn number_in(before: &str, n: u64, behind: &str) -> (text: String)
    ensures
        text@ == before@ + crate::text::decimal(n as nat) + behind@,
{
    let mut text: String = before.to_owned();
    push_decimal(&mut text, n);
    text.append(behind);
    text
}

/// Middle slot, in precedence order: transient message, countdown, then filter.
pub fn context_line(app: &App) -> (spans: Vec<Span>)
    requires
        app.wf(),
    ensures
        crate::paint::span_views(spans@) == context_spans(app@),
{
    let mut spans: Vec<Span> = Vec::new();
    if let Some(message) = app.status_message() {
        spans.push(Span::new(message, Tone::Info));
        assert(crate::paint::span_views(spans@) =~= context_spans(app@));
        return spans;
    }
    if let Some(seconds) = app.countdown_remaining() {
        let text: String = number_in(
            "All services exited - closing in ",
            seconds,
            "s (any key cancels)",
        );
        spans.push(Span::of(text, Tone::Warning));
        assert(crate::paint::span_views(spans@) =~= context_spans(app@));
        return spans;
    }
    let hidden: u64 = app.hidden_count() as u64;
    let mut query: String = String::new();
    query.push('/');
    query.append(app.filter().query());
    assert(query@ =~= seq!['/'] + app@.filter.query);
    match app.filter().state() {
        FilterState::Editing => {
            spans.push(Span::of(query, Tone::Info));
            let text: String = number_in(
                "  ",
                hidden,
                " filtered out   <enter> confirm, <esc> cancel",
            );
            spans.push(Span::of(text, Tone::Secondary));
        },
        FilterState::Persisted => {
            spans.push(Span::of(query, Tone::Info));
            let text: String = number_in("  ", hidden, " hidden (/ to edit)");
            spans.push(Span::of(text, Tone::Secondary));
        },
        FilterState::Off => {},
    }
    assert(crate::paint::span_views(spans@) =~= context_spans(app@));
    spans
}

/// How many columns the progress is given, where it takes up `width`.
pub open spec fn status_columns(width: nat) -> u16 {
    let low = (width % 65536) as u16;
    if low < 1 {
        1
    } else if low > STATUS_MIN_WIDTH {
        STATUS_MIN_WIDTH
    } else {
        low
    }
}

/// How many columns the hints may take up in a bar, beside the progress. There
/// is always room for one, and never more than there is.
pub open spec fn hint_budget(bar: u16, status: u16) -> u16 {
    let available = crate::paint::less(bar, (status + BOTTOM_SPACING + RIGHT_MARGIN) as u16);
    if available == 0 {
        1
    } else {
        available
    }
}

/// Divides up a bar that is `bar` columns wide: how many of them the progress is
/// given, which takes up `width`, and how many the hints may take up.
pub fn budgets(bar: u16, width: usize) -> (columns: (u16, u16))
    ensures
        columns.0 == status_columns(width as nat),
        columns.1 == hint_budget(bar, columns.0),
{
    let low: u16 = (width % 65536) as u16;
    let status: u16 = if low < 1 {
        1
    } else if low > STATUS_MIN_WIDTH {
        STATUS_MIN_WIDTH
    } else {
        low
    };
    let available: u16 = bar.saturating_sub(status + BOTTOM_SPACING + RIGHT_MARGIN);
    let wanted: u16 = if available < MIN_HELP_WIDTH { MIN_HELP_WIDTH } else { available };
    let there: u16 = if available < 1 { 1 } else { available };
    (
        status,
        if wanted < there {
            wanted
        } else {
            there
        },
    )
}

/// The parts of the bar: the progress, some room, the context with what is left,
/// and the hints with their margin.
pub open spec fn bar_parts(status: u16, help: u16) -> Seq<Part> {
    seq![Part::Length(status), Part::Length(BOTTOM_SPACING), Part::Fill(1), Part::Length(help)]
}

/// The parts of the bar, where the progress and the hints are given that many
/// columns.
pub fn parts(status: u16, help: u16) -> (parts: Vec<Part>)
    ensures
        parts@ == bar_parts(status, help),
{
    let parts: Vec<Part> = vec![
        Part::Length(status),
        Part::Length(BOTTOM_SPACING),
        Part::Fill(1),
        Part::Length(help),
    ];
    assert(parts@ =~= bar_parts(status, help));
    parts
}

/// The bar, ready to be drawn. The hints are aligned to the right.
pub struct StatusBar {
    pub status: Vec<Span>,
    pub status_area: Rect,
    pub context: Vec<Span>,
    pub context_area: Rect,
    pub help: Vec<Span>,
    pub help_area: Rect,
}

/// How many columns the progress is given in the bar.
pub open spec fn status_room(app: AppView) -> u16 {
    status_columns(
        crate::paint::width_of(crate::paint::span_texts(status_spans(app.project, app.visible))),
    )
}

/// The spans of the hints in a bar of that width.
pub open spec fn bar_hints(app: AppView, bar: u16) -> Seq<SpanView> {
    fitting(hints(app), hint_budget(bar, status_room(app)))
}

/// How many columns the hints are given in a bar of that width: one for each of
/// their characters, and their margin.
pub open spec fn hint_room(app: AppView, bar: u16) -> u16 {
    (crate::paint::characters_in(bar_hints(app, bar)) + RIGHT_MARGIN) as u16
}

/// The hints are narrow characters, and within their budget.
proof fn lemma_hints(app: AppView, available: u16)
    ensures
        crate::paint::all_narrow(fitting(hints(app), available)),
        crate::paint::characters_in(fitting(hints(app), available)) <= available,
{
    reveal_strlit("scroll: ");
    reveal_strlit("↑ ↓");
    reveal_strlit("copy: ");
    reveal_strlit("c");
    reveal_strlit("exit: ");
    reveal_strlit("esc");
    reveal_strlit("full screen: ");
    reveal_strlit("<enter>");
    reveal_strlit("quit: ");
    reveal_strlit("q");
    reveal_strlit("help: ");
    reveal_strlit("?");
    reveal_strlit("pin output: ");
    reveal_strlit("1 or 2");
    reveal_strlit("show output: ");
    reveal_strlit("filter: ");
    reveal_strlit("/");
    reveal_strlit("navigate: ");
    let items = hints(app);
    assert forall|i: int| 0 <= i < items.len() implies crate::paint::narrow(
        (#[trigger] items[i]).0,
    ) && crate::paint::narrow(items[i].1) by {}
    lemma_narrow_fitting(items, available);
    law_hints_fit(items, available);
}

/// Hints of narrow characters have narrow spans.
proof fn lemma_narrow_spans(items: Seq<(Seq<char>, Seq<char>)>)
    requires
        forall|i: int|
            0 <= i < items.len() ==> crate::paint::narrow((#[trigger] items[i]).0)
                && crate::paint::narrow(items[i].1),
    ensures
        crate::paint::all_narrow(hint_spans(items)),
    decreases items.len(),
{
    reveal_strlit("  ");
    if items.len() > 0 {
        let init = items.drop_last();
        assert forall|i: int| 0 <= i < init.len() implies crate::paint::narrow(
            (#[trigger] init[i]).0,
        ) && crate::paint::narrow(init[i].1) by {
            assert(init[i] == items[i]);
        }
        lemma_narrow_spans(init);
        assert(items.last() == items[items.len() - 1]);
        let before = hint_spans(init);
        let all = hint_spans(items);
        assert forall|i: int| 0 <= i < all.len() implies crate::paint::narrow(
            (#[trigger] all[i]).text,
        ) by {
            if i < before.len() {
                assert(all[i] == before[i]);
            }
        }
    }
}

/// As many of them as fit do too.
proof fn lemma_narrow_fitting(items: Seq<(Seq<char>, Seq<char>)>, available: u16)
    requires
        forall|i: int|
            0 <= i < items.len() ==> crate::paint::narrow((#[trigger] items[i]).0)
                && crate::paint::narrow(items[i].1),
    ensures
        crate::paint::all_narrow(fitting(items, available)),
    decreases items.len(),
{
    lemma_narrow_spans(items);
    if items.len() > 0 {
        let rest = items.drop_first();
        assert forall|i: int| 0 <= i < rest.len() implies crate::paint::narrow(
            (#[trigger] rest[i]).0,
        ) && crate::paint::narrow(rest[i].1) by {
            assert(rest[i] == items[i + 1]);
        }
        lemma_narrow_fitting(rest, available);
    }
}

/// Whether `bar` is the bar laid out in an area. It says what it should, the
/// progress on the left, the context in the middle and the hints on the right.
/// Where there is room for them the progress and the hints are as wide as they
/// ask to be, the hints end where the area does, and the context has all that is
/// left between them.
pub open spec fn laid_out(bar: StatusBar, app: AppView, area: Rect) -> bool {
    let status = status_room(app);
    let help = hint_room(app, area.width);
    &&& crate::paint::span_views(bar.status@) == status_spans(app.project, app.visible)
    &&& crate::paint::span_views(bar.context@) == context_spans(app)
    &&& crate::paint::span_views(bar.help@) == bar_hints(app, area.width)
    &&& crate::paint::lies_in(bar.status_area, area)
    &&& crate::paint::lies_in(bar.context_area, area)
    &&& crate::paint::lies_in(bar.help_area, area)
    &&& bar.status_area.height == area.height
    &&& bar.context_area.height == area.height
    &&& bar.help_area.height == area.height
    &&& bar.status_area.x == area.x
    &&& bar.status_area.x + bar.status_area.width <= bar.context_area.x
    &&& bar.context_area.x + bar.context_area.width == bar.help_area.x
    &&& status + BOTTOM_SPACING + help <= area.width ==> {
        &&& bar.status_area.width == status
        &&& bar.context_area.x == area.x + status + BOTTOM_SPACING
        &&& bar.context_area.width == area.width - status - BOTTOM_SPACING - help
        &&& bar.help_area.width == help
        &&& bar.help_area.x + bar.help_area.width == area.x + area.width
    }
}

/// Where the parts of the bar start, where there is room for them.
proof fn lemma_bar_parts(status: u16, help: u16, width: u16)
    ensures
        crate::paint::modest(bar_parts(status, help), width),
        crate::paint::fit(bar_parts(status, help), width) <==> status + BOTTOM_SPACING + help
            <= width,
        status + BOTTOM_SPACING + help <= width ==> {
            let parts = bar_parts(status, help);
            &&& crate::paint::start_of(parts, width, 0) == 0
            &&& crate::paint::start_of(parts, width, 1) == 100 * status
            &&& crate::paint::start_of(parts, width, 2) == 100 * (status + BOTTOM_SPACING)
            &&& crate::paint::start_of(parts, width, 3) == 100 * (width - help)
            &&& crate::paint::start_of(parts, width, 4) == 100 * width
        },
{
    let parts = bar_parts(status, help);
    reveal_with_fuel(crate::paint::asked_by, 5);
    reveal_with_fuel(crate::paint::start_of, 5);
    let three = parts.drop_last();
    assert(three =~= seq![Part::Length(status), Part::Length(BOTTOM_SPACING), Part::Fill(1)]);
    let two = three.drop_last();
    assert(two =~= seq![Part::Length(status), Part::Length(BOTTOM_SPACING)]);
    let one = two.drop_last();
    assert(one =~= seq![Part::Length(status)]);
    assert(one.drop_last() =~= Seq::<Part>::empty());
    assert(crate::paint::asked_by(parts, width) == 100 * (status + BOTTOM_SPACING + help));
}

/// Lays out the bar in an area.
pub fn render(app: &App, area: Rect) -> (bar: StatusBar)
    requires
        app.wf(),
        crate::paint::countable(area),
    ensures
        laid_out(bar, app@, area),
{
    let status: Vec<Span> = status_line(app);
    let (status_columns, budget): (u16, u16) = budgets(area.width, line_width(&status));
    let help: Vec<Span> = help_line(app, budget);
    proof {
        lemma_hints(app@, budget);
    }
    let help_columns: u16 = line_width(&help) as u16 + RIGHT_MARGIN;
    proof {
        lemma_bar_parts(status_columns, help_columns, area.width);
    }
    let chunks: Vec<Rect> = split_area(
        Division::Horizontal,
        &parts(status_columns, help_columns),
        area,
    );
    proof {
        assert forall|i: int| 0 <= i < 4 implies crate::paint::lies_in(#[trigger] chunks@[i], area)
            && chunks@[i].height == area.height by {
            assert(crate::paint::breadth(chunks@[i], Division::Horizontal) == (
                area.y,
                area.height,
            ));
        }
        assert(crate::paint::extent(chunks@[0], Division::Horizontal).0 == area.x);
        assert(crate::paint::extent(chunks@[1], Division::Horizontal).0 == chunks@[0].x
            + chunks@[0].width);
        assert(crate::paint::extent(chunks@[2], Division::Horizontal).0 == chunks@[1].x
            + chunks@[1].width);
        assert(crate::paint::extent(chunks@[3], Division::Horizontal).0 == chunks@[2].x
            + chunks@[2].width);
    }
    StatusBar {
        status,
        status_area: chunks[0],
        context: context_line(app),
        context_area: chunks[2],
        help,
        help_area: chunks[3],
    }
}

/// Wherever the bar has room for the progress, the spacing and the margin, with a
/// column to spare, it has room for the hints that are shown.
pub proof fn law_bar_has_room(app: AppView, bar: u16)
    requires
        status_room(app) + BOTTOM_SPACING + RIGHT_MARGIN < bar,
    ensures
        status_room(app) + BOTTOM_SPACING + hint_room(app, bar) <= bar,
{
    lemma_hints(app, hint_budget(bar, status_room(app)));
}

/// The progress names how many services are up of how many, and the project.
pub proof fn law_progress(project: Seq<char>, rows: Seq<RowView>)
    requires
        rows.len() > 0,
    ensures
        crate::paint::line_text(status_spans(project, rows)) == seq![' '] + crate::text::decimal(
            up_count(rows),
        ) + seq!['/'] + crate::text::decimal(rows.len()) + " up  "@ + project,
        up_count(rows) <= rows.len(),
{
    let spans = status_spans(project, rows);
    reveal_with_fuel(crate::paint::line_text, 6);
    reveal_strlit(" ");
    reveal_strlit("  ");
    reveal_strlit(" up");
    reveal_strlit(" up  ");
    let (a, b, c, d, e) = (spans[0], spans[1], spans[2], spans[3], spans[4]);
    assert(spans.drop_last() =~= seq![a, b, c, d]);
    assert(spans.drop_last().drop_last() =~= seq![a, b, c]);
    assert(spans.drop_last().drop_last().drop_last() =~= seq![a, b]);
    assert(spans.drop_last().drop_last().drop_last().drop_last() =~= seq![a]);
    assert(seq![a].drop_last() =~= Seq::<SpanView>::empty());
    assert(crate::paint::line_text(spans) =~= a.text + b.text + c.text + d.text + e.text);
    assert(c.text + d.text =~= " up  "@);
    assert(crate::paint::line_text(spans) =~= seq![' '] + crate::text::decimal(up_count(rows))
        + seq!['/'] + crate::text::decimal(rows.len()) + " up  "@ + project);
    lemma_up_count(rows);
}

/// No more services are up than there are.
proof fn lemma_up_count(rows: Seq<RowView>)
    ensures
        up_count(rows) <= rows.len(),
    decreases rows.len(),
{
    if rows.len() > 0 {
        lemma_up_count(rows.drop_last());
    }
}

/// The hints never take up more characters than there is room for; they are the
/// last ones of the list, and where all of them fit all are there.
pub proof fn law_hints_fit(items: Seq<(Seq<char>, Seq<char>)>, available: u16)
    ensures
        crate::paint::characters_in(fitting(items, available)) <= available,
        crate::paint::characters_in(hint_spans(items)) <= available ==> fitting(items, available) == hint_spans(
            items,
        ),
        exists|start: int|
            0 <= start <= items.len() && fitting(items, available) == #[trigger] hint_spans(
                items.skip(start),
            ),
    decreases items.len(),
{
    if items.len() == 0 {
        assert(items.skip(0) =~= items);
        assert(hint_spans(items.skip(0)) == Seq::<SpanView>::empty());
    } else if crate::paint::characters_in(hint_spans(items)) <= available {
        assert(items.skip(0) =~= items);
        assert(hint_spans(items.skip(0)) == hint_spans(items));
    } else {
        let rest = items.drop_first();
        law_hints_fit(rest, available);
        let start = choose|start: int|
            0 <= start <= rest.len() && fitting(rest, available) == #[trigger] hint_spans(
                rest.skip(start),
            );
        assert(items.skip(start + 1) =~= rest.skip(start));
        assert(hint_spans(items.skip(start + 1)) == fitting(items, available));
    }
}

/// A message outranks the countdown and the filter in the middle of the bar, and
/// the countdown outranks the filter.
pub proof fn law_precedence(app: AppView)
    ensures
        app.status_message matches Some((message, _)) ==> context_spans(app) == seq![
            SpanView::toned(message, Tone::Info),
        ],
        app.status_message is None && app.countdown() is Some ==> context_spans(app).len() == 1
            && context_spans(app)[0].tone == Tone::Warning,
        app.status_message is None && app.countdown() is None && app.filter.state
            == FilterState::Off ==> context_spans(app).len() == 0,
{
}

/// The services that are up are those that are running, healthy or not.
pub proof fn law_up_count(rows: Seq<RowView>)
    ensures
        up_count(rows) == rows.filter(
            |row: RowView|
                row.service.status == ServiceStatus::Running || row.service.status
                    == ServiceStatus::Unhealthy,
        ).len(),
    decreases rows.len(),
{
    let up = |row: RowView|
        row.service.status == ServiceStatus::Running || row.service.status
            == ServiceStatus::Unhealthy;
    reveal(Seq::filter);
    if rows.len() > 0 {
        law_up_count(rows.drop_last());
    }
}

/// What the middle of the bar says while a countdown runs, and while a filter is typed
/// or applied: the seconds that are left, the search term, and how many services it
/// hides.
pub proof fn law_context(app: AppView)
    requires
        app.status_message is None,
    ensures
        app.countdown() matches Some(n) ==> crate::paint::line_text(context_spans(app))
            == "All services exited - closing in "@ + crate::text::decimal(n)
            + "s (any key cancels)"@,
        app.countdown() is None && app.filter.state == FilterState::Editing
            ==> crate::paint::line_text(context_spans(app)) == seq!['/'] + app.filter.query + (
        "  "@ + crate::text::decimal((app.all.len() - app.visible.len()) as nat)
            + " filtered out   <enter> confirm, <esc> cancel"@),
        app.countdown() is None && app.filter.state == FilterState::Persisted
            ==> crate::paint::line_text(context_spans(app)) == seq!['/'] + app.filter.query + (
        "  "@ + crate::text::decimal((app.all.len() - app.visible.len()) as nat)
            + " hidden (/ to edit)"@),
        app.countdown() is None && app.filter.state == FilterState::Off ==> context_spans(app)
            == Seq::<SpanView>::empty(),
{
    let spans = context_spans(app);
    reveal_with_fuel(crate::paint::line_text, 3);
    if spans.len() == 2 {
        let (a, b) = (spans[0], spans[1]);
        assert(spans.drop_last() =~= seq![a]);
        assert(seq![a].drop_last() =~= Seq::<SpanView>::empty());
        assert(Seq::<char>::empty() + a.text =~= a.text);
    } else if spans.len() == 1 {
        assert(spans.drop_last() =~= Seq::<SpanView>::empty());
        assert(Seq::<char>::empty() + spans[0].text =~= spans[0].text);
    }
}

/// The progress is given the columns it takes up, at least one and at most
/// twenty-five.
pub proof fn law_status_columns(width: nat)
    requires
        width < 65536,
    ensures
        width == 0 ==> status_columns(width) == 1,
        1 <= width <= 25 ==> status_columns(width) == width,
        width > 25 ==> status_columns(width) == 25,
{
}

/// The hints may take up what the progress, the spacing and the margin leave of the
/// bar, and one column where they leave nothing.
pub proof fn law_hint_budget(bar: u16, status: u16)
    requires
        status <= 25,
    ensures
        bar > status + 5 ==> hint_budget(bar, status) == bar - status - 5,
        bar <= status + 5 ==> hint_budget(bar, status) == 1,
{
}

/// A hint reads as its label and its key, and stands two spaces behind the one before
/// it. The label is dim, the key in the accent.
pub proof fn law_hint_text(items: Seq<(Seq<char>, Seq<char>)>, item: (Seq<char>, Seq<char>))
    ensures
        crate::paint::line_text(hint_spans(items.push(item))) == if items.len() == 0 {
            item.0 + item.1
        } else {
            crate::paint::line_text(hint_spans(items)) + "  "@ + item.0 + item.1
        },
        ({
            let spans = hint_spans(items.push(item));
            &&& spans.len() >= 2
            &&& spans[spans.len() - 2].tone == Tone::Secondary
            &&& spans[spans.len() - 1].tone == Tone::Info
        }),
{
    let all = items.push(item);
    assert(all.drop_last() =~= items);
    let label = SpanView::toned(item.0, Tone::Secondary);
    let key = SpanView::toned(item.1, Tone::Info);
    let space = SpanView::toned("  "@, Tone::Plain);
    let before = hint_spans(items);
    if items.len() == 0 {
        crate::paint::lemma_line_text_push(before, label);
        crate::paint::lemma_line_text_push(before.push(label), key);
        assert(Seq::<char>::empty() + item.0 + item.1 =~= item.0 + item.1);
    } else {
        crate::paint::lemma_line_text_push(before, space);
        crate::paint::lemma_line_text_push(before.push(space), label);
        crate::paint::lemma_line_text_push(before.push(space).push(label), key);
    }
}

/// Which hints there are: a pane tells how to scroll and copy, and how to have the whole
/// frame or, where it does, how to leave; anything else tells how to open output,
/// filter and navigate. How to quit and where help is comes last everywhere.
pub proof fn law_hints(app: AppView)
    ensures
        ({
            let items = hints(app);
            &&& items[items.len() - 1] == ("help: "@, "?"@)
            &&& items[items.len() - 2] == ("quit: "@, "q"@)
            &&& app.focus.current() is Pane ==> {
                &&& items.len() == 5
                &&& items[0] == ("scroll: "@, "↑ ↓"@)
                &&& items[1] == ("copy: "@, "c"@)
                &&& app.full_screen is Some ==> items[2] == ("exit: "@, "esc"@)
                &&& app.full_screen is None ==> items[2] == ("full screen: "@, "<enter>"@)
            }
            &&& !(app.focus.current() is Pane) ==> {
                &&& items.len() == 6
                &&& items[0] == ("pin output: "@, "1 or 2"@)
                &&& items[1] == ("show output: "@, "<enter>"@)
                &&& items[2] == ("filter: "@, "/"@)
                &&& items[3] == ("navigate: "@, "↑ ↓"@)
            }
        }),
{
}

/// In what the parts of the bar are drawn: the search term in the accent and what is
/// said of it dim, and of the progress the count alone stands out.
pub proof fn law_bar_tones(app: AppView)
    ensures
        app.status_message is None && app.countdown() is None && app.filter.state
            != FilterState::Off ==> {
            &&& context_spans(app).len() == 2
            &&& context_spans(app)[0].tone == Tone::Info
            &&& context_spans(app)[1].tone == Tone::Secondary
        },
        app.visible.len() > 0 ==> {
            &&& status_spans(app.project, app.visible).len() == 5
            &&& status_spans(app.project, app.visible)[1].tone == Tone::Secondary
            &&& status_spans(app.project, app.visible)[2].dim
        },
        app.visible.len() == 0 ==> status_spans(app.project, app.visible).len() == 0,
{
}

/// What a bar that is laid out is like. The progress is at the left edge; where there
/// is room, it has its width, the hints have theirs and a margin and end at the right
/// edge, and the context has the rest but for four columns behind the progress. The
/// hints take up no more than is left to them, and all of them are there where all
/// fit.
pub proof fn law_laid_out(bar: StatusBar, app: AppView, area: Rect)
    requires
        laid_out(bar, app, area),
    ensures
        ({
            let shown = crate::paint::characters_in(crate::paint::span_views(bar.help@));
            let room = status_columns(
                crate::paint::width_of(
                    crate::paint::span_texts(crate::paint::span_views(bar.status@)),
                ),
            );
            &&& bar.status_area.x == area.x
            &&& area.width > room + 5 ==> {
                &&& bar.status_area.width == room
                &&& bar.context_area.x == area.x + room + 4
                &&& bar.help_area.width == shown + 1
                &&& bar.help_area.x + bar.help_area.width == area.x + area.width
                &&& bar.context_area.x + bar.context_area.width == bar.help_area.x
                &&& shown <= area.width - room - 5
                &&& crate::paint::characters_in(hint_spans(hints(app))) <= area.width - room - 5
                    ==> crate::paint::span_views(bar.help@) == hint_spans(hints(app))
            }
        }),
{
    let budget = hint_budget(area.width, status_room(app));
    lemma_hints(app, budget);
    law_hints_fit(hints(app), budget);
    if area.width > status_room(app) + 5 {
        law_bar_has_room(app, area.width);
    }
}

} // verus!
