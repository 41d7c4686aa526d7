//! What is drawn, as plain values: styled text, and the measures and divisions
//! that the `ratatui` crate computes.
use vstd::prelude::*;

use crate::layout::Rect;
use crate::service::ServiceStatus;

verus! {

/// What a piece of text is drawn in.
#[derive(Clone, Copy, Debug, PartialEq, Eq, Structural)]
pub enum Tone {
    /// The terminal's own style.
    Plain,
    /// The theme's main foreground.
    Primary,
    /// The theme's second foreground.
    Secondary,
    /// The theme's accent.
    Info,
    /// The theme's warning.
    Warning,
    /// The style of a service in that state.
    Status(ServiceStatus),
    /// The theme's main foreground on its accent.
    Badge,
}

/// A piece of text in one style.
#[derive(Clone, Debug)]
pub struct Span {
    pub text: String,
    pub tone: Tone,
    pub bold: bool,
    pub dim: bool,
}

/// A [`Span`] as a plain value.
pub struct SpanView {
    pub text: Seq<char>,
    pub tone: Tone,
    pub bold: bool,
    pub dim: bool,
}

impl View for Span {
    type V = SpanView;

    open spec fn view(&self) -> SpanView {
        SpanView { text: self.text@, tone: self.tone, bold: self.bold, dim: self.dim }
    }
}

impl SpanView {
    /// Text in a tone, with nothing added.
    pub open spec fn toned(text: Seq<char>, tone: Tone) -> SpanView {
        SpanView { text, tone, bold: false, dim: false }
    }
}

impl Span {
    /// Text in a tone, with nothing added.
    pub fn new(text: &str, tone: Tone) -> (span: Span)
        ensures
            span@ == SpanView::toned(text@, tone),
    {
        Span { text: text.to_owned(), tone, bold: false, dim: false }
    }

    /// Text in a tone, with nothing added.
    pub fn of(text: String, tone: Tone) -> (span: Span)
        ensures
            span@ == SpanView::toned(text@, tone),
    {
        Span { text, tone, bold: false, dim: false }
    }
}

/// Spans as plain values.
pub open spec fn span_views(spans: Seq<Span>) -> Seq<SpanView> {
    Seq::new(spans.len(), |i: int| spans[i]@)
}

/// The text of each span.
pub open spec fn span_texts(spans: Seq<SpanView>) -> Seq<Seq<char>> {
    Seq::new(spans.len(), |i: int| spans[i].text)
}

/// The whole text of a line.
pub open spec fn line_text(spans: Seq<SpanView>) -> Seq<char>
    decreases spans.len(),
{
    if spans.len() == 0 {
        Seq::empty()
    } else {
        line_text(spans.drop_last()) + spans.last().text
    }
}

/// A span at the end of a line adds its text.
pub proof fn lemma_line_text_push(spans: Seq<SpanView>, span: SpanView)
    ensures
        line_text(spans.push(span)) == line_text(spans) + span.text,
{
    assert(spans.push(span).drop_last() =~= spans);
}

/// The whole text of a line.
pub fn text_of_line(spans: &Vec<Span>) -> (text: String)
    ensures
        text@ == line_text(span_views(spans@)),
{
    let ghost views = span_views(spans@);
    let mut text: String = String::new();
    let mut i: usize = 0;
    while i < spans.len()
        invariant
            i <= spans@.len(),
            views == span_views(spans@),
            text@ == line_text(views.take(i as int)),
        decreases spans@.len() - i,
    {
        assert(views.take(i + 1).drop_last() =~= views.take(i as int));
        text.append(spans[i].text.as_str());
        i += 1;
    }
    assert(views.take(i as int) =~= views);
    text
}

/// How many columns a text takes up.
pub uninterp spec fn text_width(text: Seq<char>) -> nat;

/// How many columns a line takes up that is made of those texts.
pub open spec fn width_of(texts: Seq<Seq<char>>) -> nat
    decreases texts.len(),
{
    if texts.len() == 0 {
        0
    } else {
        width_of(texts.drop_last()) + text_width(texts.last())
    }
}

/// How many characters spans hold.
pub open spec fn characters_in(spans: Seq<SpanView>) -> nat
    decreases spans.len(),
{
    if spans.len() == 0 {
        0
    } else {
        characters_in(spans.drop_last()) + spans.last().text.len()
    }
}

/// Whether a text is printable ASCII, and arrows up and down.
pub open spec fn narrow(text: Seq<char>) -> bool {
    forall|i: int|
        0 <= i < text.len() ==> ' ' <= #[trigger] text[i] <= '~' || text[i] == '↑' || text[i]
            == '↓'
}

/// Whether every span is printable ASCII, and arrows up and down.
pub open spec fn all_narrow(spans: Seq<SpanView>) -> bool {
    forall|i: int| 0 <= i < spans.len() ==> narrow((#[trigger] spans[i]).text)
}

/// `ratatui::text::Line::width`: how many columns a line takes up, which is what
/// its texts do together. What that is for one text goes by tables of the
/// `unicode-width` crate and is named here. Printable ASCII, and the arrows up and
/// down, take up a column each.
#[verifier::external_body]
pub(crate) fn line_width(spans: &Vec<Span>) -> (width: usize)
    ensures
        width == width_of(span_texts(span_views(spans@))),
        spans@.len() == 1 ==> width == text_width(spans@[0]@.text),
        all_narrow(span_views(spans@)) ==> width == characters_in(span_views(spans@)),
{
    let texts = spans.iter().map(|span| ratatui::text::Span::raw(span.text.as_str()));
    ratatui::text::Line::from(texts.collect::<Vec<_>>()).width()
}

/// How an area is divided.
#[derive(Clone, Copy, Debug, PartialEq, Eq, Structural)]
pub enum Division {
    /// Side by side.
    Horizontal,
    /// One above another.
    Vertical,
}

/// How much of an area a part of it asks for.
#[derive(Clone, Copy, Debug, PartialEq, Eq, Structural)]
pub enum Part {
    Length(u16),
    Percentage(u16),
    Fill(u16),
}

/// Whether `part` lies in `area`.
pub open spec fn lies_in(part: Rect, area: Rect) -> bool {
    &&& area.x <= part.x
    &&& part.x + part.width <= area.x + area.width
    &&& area.y <= part.y
    &&& part.y + part.height <= area.y + area.height
}

/// Whether an area ends where its coordinates can be counted.
pub open spec fn countable(area: Rect) -> bool {
    area.x + area.width <= u16::MAX && area.y + area.height <= u16::MAX
}

/// How much a part asks for of a length, in hundredths of a cell. What fills up
/// asks for nothing.
pub open spec fn asked(part: Part, length: u16) -> nat {
    match part {
        Part::Length(n) => 100 * n as nat,
        Part::Percentage(percent) => percent as nat * length as nat,
        Part::Fill(_) => 0,
    }
}

/// How much parts ask for together.
pub open spec fn asked_by(parts: Seq<Part>, length: u16) -> nat
    decreases parts.len(),
{
    if parts.len() == 0 {
        0
    } else {
        asked_by(parts.drop_last(), length) + asked(parts.last(), length)
    }
}

/// Whether a length has what the parts ask for.
pub open spec fn fit(parts: Seq<Part>, length: u16) -> bool {
    asked_by(parts, length) <= 100 * length
}

/// What a part is given of a length that has what the parts ask for: that, and
/// what is left where it fills up.
pub open spec fn given(parts: Seq<Part>, length: u16, i: int) -> nat {
    if parts[i] is Fill {
        (100 * length - asked_by(parts, length)) as nat
    } else {
        asked(parts[i], length)
    }
}

/// Where a part starts, in hundredths of a cell.
pub open spec fn start_of(parts: Seq<Part>, length: u16, i: int) -> nat
    decreases i,
{
    if i <= 0 {
        0
    } else {
        start_of(parts, length, i - 1) + given(parts, length, i - 1)
    }
}

/// The nearest cell to a place in hundredths of one.
pub open spec fn nearest(hundredths: nat) -> nat {
    (hundredths + 50) / 100
}

/// Whether parts are of a kind whose division is relied upon: there are few, one
/// fills up at most, and percentages are not asked for beyond what there is.
pub open spec fn modest(parts: Seq<Part>, length: u16) -> bool {
    &&& parts.len() <= 4
    &&& forall|i: int, j: int|
        0 <= i < j < parts.len() ==> !(#[trigger] parts[i] is Fill && #[trigger] parts[j] is Fill)
    &&& fit(parts, length) || forall|i: int|
        0 <= i < parts.len() ==> !(#[trigger] parts[i] is Percentage)
}

/// Where a rect starts along a division, and where it ends.
pub open spec fn extent(rect: Rect, division: Division) -> (int, int) {
    match division {
        Division::Horizontal => (rect.x as int, rect.x + rect.width),
        Division::Vertical => (rect.y as int, rect.y + rect.height),
    }
}

/// How long an area is along a division.
pub open spec fn length_of(area: Rect, division: Division) -> u16 {
    match division {
        Division::Horizontal => area.width,
        Division::Vertical => area.height,
    }
}

/// Where a rect stands across a division, and how large it is there.
pub open spec fn breadth(rect: Rect, division: Division) -> (u16, u16) {
    match division {
        Division::Horizontal => (rect.y, rect.height),
        Division::Vertical => (rect.x, rect.width),
    }
}

/// Whether `rects` divide an area into parts. There is one for each part, it lies
/// in the area, and across the division it is as the area is. The first starts
/// where the area does and each of the others where the one before it ends. Where
/// there is room for what the parts ask for, each is given that, to the nearest
/// cell.
pub open spec fn divides(rects: Seq<Rect>, division: Division, parts: Seq<Part>, area: Rect) -> bool {
    &&& rects.len() == parts.len()
    &&& forall|i: int| 0 <= i < rects.len() ==> lies_in(#[trigger] rects[i], area)
    &&& forall|i: int|
        0 <= i < rects.len() ==> breadth(#[trigger] rects[i], division) == breadth(area, division)
    &&& forall|i: int|
        0 <= i < rects.len() ==> extent(#[trigger] rects[i], division).0 == if i == 0 {
            extent(area, division).0
        } else {
            extent(rects[i - 1], division).1
        }
    &&& fit(parts, length_of(area, division)) ==> forall|i: int|
        0 <= i < rects.len() ==> extent(#[trigger] rects[i], division) == (
            extent(area, division).0 + nearest(start_of(parts, length_of(area, division), i)),
            extent(area, division).0 + nearest(start_of(parts, length_of(area, division), i + 1)),
        )
}

/// `ratatui::layout::Layout::split`: divides an area into parts, one behind the
/// other. Where they ask for more than there is, how they share it is not stated:
/// a constraint solver finds it, over tables that are hashed with a random seed.
#[verifier::external_body]
pub(crate) fn split_area(division: Division, parts: &Vec<Part>, area: Rect) -> (rects: Vec<Rect>)
    requires
        countable(area),
        modest(parts@, length_of(area, division)),
    ensures
        divides(rects@, division, parts@, area),
{
    let direction = match division {
        Division::Horizontal => ratatui::layout::Direction::Horizontal,
        Division::Vertical => ratatui::layout::Direction::Vertical,
    };
    let constraints = parts.iter().map(|part| match *part {
        Part::Length(n) => ratatui::layout::Constraint::Length(n),
        Part::Percentage(n) => ratatui::layout::Constraint::Percentage(n),
        Part::Fill(n) => ratatui::layout::Constraint::Fill(n),
    });
    let layout = ratatui::layout::Layout::new(direction, constraints);
    let rects = layout.split(ratatui::layout::Rect::new(area.x, area.y, area.width, area.height));
    rects.iter().map(|r| Rect { x: r.x, y: r.y, width: r.width, height: r.height }).collect()
}

/// What is left of a length once something is taken away.
pub open spec fn less(length: u16, taken: u16) -> u16 {
    if length < taken {
        0
    } else {
        (length - taken) as u16
    }
}

/// What is inside of a bordered block with a padding of `beside` columns at
/// either side and `above` rows above and below.
pub open spec fn inside(area: Rect, beside: u16, above: u16) -> Rect {
    Rect {
        x: (area.x + beside + if area.width == 0 {
            0int
        } else {
            1
        }) as u16,
        y: (area.y + above + if area.height == 0 {
            0int
        } else {
            1
        }) as u16,
        width: less(area.width, (2 + 2 * beside) as u16),
        height: less(area.height, (2 + 2 * above) as u16),
    }
}

/// `ratatui::widgets::Block::inner`: what is inside of a block with a border all
/// round and that padding.
#[verifier::external_body]
pub(crate) fn block_inner(area: Rect, beside: u16, above: u16) -> (inner: Rect)
    requires
        countable(area),
        area.x + beside + 1 <= u16::MAX,
        area.y + above + 1 <= u16::MAX,
        2 + 2 * beside <= u16::MAX,
        2 + 2 * above <= u16::MAX,
    ensures
        inner == inside(area, beside, above),
{
    let padding = ratatui::widgets::Padding::new(beside, beside, above, above);
    let block = ratatui::widgets::Block::default()
        .borders(ratatui::widgets::Borders::ALL)
        .padding(padding);
    let r = block.inner(ratatui::layout::Rect::new(area.x, area.y, area.width, area.height));
    Rect { x: r.x, y: r.y, width: r.width, height: r.height }
}

/// A text in capitals.
pub uninterp spec fn uppercase(text: Seq<char>) -> Seq<char>;

/// `str::to_uppercase`: a text in capitals, by tables of the Unicode standard
/// that are named here and not written out.
#[verifier::external_body]
pub(crate) fn to_uppercase(text: &str) -> (upper: String)
    ensures
        upper@ == uppercase(text@),
{
    text.to_uppercase()
}

} // verus!
