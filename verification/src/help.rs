//! The popup listing every binding.
use vstd::prelude::*;

use crate::layout::Rect;
use crate::paint::{split_area, to_uppercase, Division, Part, Span, SpanView, Tone};
use crate::text::{push_spaces, split_text};

verus! {

/// Key/description pairs. An empty pair is a spacer.
pub const BINDINGS: [(&'static str, &'static str); 25] = [
    ("?", "Toggle this popup"),
    ("q or <ctrl>+c", "Quit"),
    ("", ""),
    ("↑ or k", "Navigate/scroll output up"),
    ("↓ or j", "Navigate/scroll output down"),
    ("<ctrl>+u", "Scroll output up"),
    ("<ctrl>+d", "Scroll output down"),
    ("Home or End", "Jump to the start or end of output"),
    ("", ""),
    ("/", "Filter services based on search term"),
    ("<esc>", "Clear filter"),
    ("", ""),
    ("<enter>", "Open and focus output for service"),
    ("<enter>", "Full screen the focused output pane"),
    ("<esc>", "Leave full screen"),
    ("<esc>", "Set focus back to service list"),
    ("<space>", "Quick toggle a single output pane"),
    ("b", "Toggle service list visibility"),
    ("m", "Toggle between vertical and horizontal layouts"),
    ("1", "Pin service to output pane 1"),
    ("2", "Pin service to output pane 2"),
    ("0", "Clear all output panes"),
    ("<tab>", "Move focus between list and output panes"),
    ("c", "Copy output to clipboard"),
    ("F10", "Toggle mouse capture"),
];

/// The binding with that number, as plain values.
pub open spec fn binding_at(i: int) -> (Seq<char>, Seq<char>) {
    (BINDINGS[i].0@, BINDINGS[i].1@)
}

/// How wide the column of the keys is.
pub const KEY_COLUMN: usize = 14;

/// The parts that leave the middle one with `percent` of a length, and share
/// what is left of it.
pub open spec fn around(percent: u16) -> Seq<Part> {
    seq![
        Part::Percentage(beside(percent)),
        Part::Percentage(percent),
        Part::Percentage(beside(percent)),
    ]
}

/// The parts that leave the middle one with `percent` of a length.
pub fn parts_around(percent: u16) -> (parts: Vec<Part>)
    requires
        percent <= 100,
    ensures
        parts@ == around(percent),
{
    let beside: u16 = (100 - percent) / 2;
    let parts: Vec<Part> = vec![
        Part::Percentage(beside),
        Part::Percentage(percent),
        Part::Percentage(beside),
    ];
    assert(parts@ =~= around(percent));
    parts
}

/// What is asked for around a middle part fits, and where that part comes to lie.
proof fn lemma_around(percent: u16, length: u16)
    requires
        percent <= 100,
    ensures
        crate::paint::modest(around(percent), length),
        crate::paint::fit(around(percent), length),
        crate::paint::start_of(around(percent), length, 1) == beside(percent) * length,
        crate::paint::start_of(around(percent), length, 2) == (beside(percent) + percent) * length,
        crate::paint::nearest((beside(percent) * length) as nat) <= crate::paint::nearest(
            ((beside(percent) + percent) * length) as nat,
        ) <= length,
{
    let parts = around(percent);
    let b = beside(percent) as int;
    reveal_with_fuel(crate::paint::asked_by, 4);
    reveal_with_fuel(crate::paint::start_of, 3);
    assert(parts.drop_last() =~= seq![Part::Percentage(b as u16), Part::Percentage(percent)]);
    assert(parts.drop_last().drop_last() =~= seq![Part::Percentage(b as u16)]);
    assert(parts.drop_last().drop_last().drop_last() =~= Seq::<Part>::empty());
    assert(crate::paint::asked_by(parts, length) == b * length + percent * length + b * length);
    assert(b * length + percent * length == (b + percent) * length) by (nonlinear_arith);
    assert((b + percent) * length + b * length == (2 * b + percent) * length) by (nonlinear_arith);
    assert((2 * b + percent) * length <= 100 * length) by (nonlinear_arith)
        requires
            2 * b + percent <= 100,
            0 <= length,
    ;
    assert(b * length <= (b + percent) * length <= 100 * length) by (nonlinear_arith)
        requires
            0 <= b,
            0 <= percent,
            b + percent <= 100,
            0 <= length,
    ;
}

/// The percentage at either side of a middle part that has `percent`.
pub open spec fn beside(percent: u16) -> u16 {
    ((100 - percent) / 2) as u16
}

/// Where the middle part of a length comes to lie, which has `percent` of it:
/// where it starts and where it ends, to the nearest cell.
pub open spec fn middle(percent: u16, length: u16) -> (nat, nat) {
    (
        crate::paint::nearest((beside(percent) * length) as nat),
        crate::paint::nearest(((beside(percent) + percent) * length) as nat),
    )
}

/// A box of the given proportions, in percent, in the middle of an area.
pub open spec fn centred(percent_x: u16, percent_y: u16, area: Rect) -> Rect {
    let (left, right) = middle(percent_x, area.width);
    let (top, bottom) = middle(percent_y, area.height);
    Rect {
        x: (area.x + left) as u16,
        y: (area.y + top) as u16,
        width: (right - left) as u16,
        height: (bottom - top) as u16,
    }
}

/// Centres a box of the given proportions, in percent, inside `area`.
pub fn centered(percent_x: u16, percent_y: u16, area: Rect) -> (popup: Rect)
    requires
        percent_x <= 100,
        percent_y <= 100,
        crate::paint::countable(area),
    ensures
        popup == centred(percent_x, percent_y, area),
        crate::paint::lies_in(popup, area),
{
    proof {
        lemma_around(percent_y, area.height);
        lemma_around(percent_x, area.width);
    }
    let rows: Vec<Rect> = split_area(Division::Vertical, &parts_around(percent_y), area);
    assert(crate::paint::lies_in(rows@[1], area));
    assert(crate::paint::breadth(rows@[1], Division::Vertical) == (area.x, area.width));
    assert(crate::paint::extent(rows@[1], Division::Vertical).0 == area.y + middle(
        percent_y,
        area.height,
    ).0);
    let columns: Vec<Rect> = split_area(Division::Horizontal, &parts_around(percent_x), rows[1]);
    assert(crate::paint::lies_in(columns@[1], rows@[1]));
    assert(crate::paint::breadth(columns@[1], Division::Horizontal) == (
        rows@[1].y,
        rows@[1].height,
    ));
    assert(crate::paint::extent(columns@[1], Division::Horizontal).0 == area.x + middle(
        percent_x,
        area.width,
    ).0);
    columns[1]
}

/// A centred box lies in the area and has its share of it, to within a cell. It
/// starts where half of what is left over ends, to within half a cell.
pub proof fn law_centred(percent_x: u16, percent_y: u16, area: Rect)
    requires
        percent_x <= 100,
        percent_y <= 100,
        crate::paint::countable(area),
    ensures
        ({
            let popup = centred(percent_x, percent_y, area);
            &&& crate::paint::lies_in(popup, area)
            &&& -100 <= 100 * popup.width - percent_x * area.width <= 100
            &&& -100 <= 100 * popup.height - percent_y * area.height <= 100
            &&& -50 <= 100 * (popup.x - area.x) - beside(percent_x) * area.width <= 50
            &&& -50 <= 100 * (popup.y - area.y) - beside(percent_y) * area.height <= 50
        }),
{
    lemma_around(percent_x, area.width);
    lemma_around(percent_y, area.height);
    lemma_middle(percent_x, area.width);
    lemma_middle(percent_y, area.height);
}

/// How far off the edges of a middle part are.
proof fn lemma_middle(percent: u16, length: u16)
    requires
        percent <= 100,
    ensures
        ({
            let (start, end) = middle(percent, length);
            &&& -100 <= 100 * (end - start) - percent * length <= 100
            &&& -50 <= 100 * start - beside(percent) * length <= 50
        }),
{
    let b = beside(percent) as int;
    assert((b + percent) * length == b * length + percent * length) by (nonlinear_arith);
}

/// The spans of a key: each alternative in the accent colour, with "or" between
/// them.
pub open spec fn key_spans(alternatives: Seq<Seq<char>>) -> Seq<SpanView>
    decreases alternatives.len(),
{
    if alternatives.len() == 0 {
        Seq::empty()
    } else {
        let before = key_spans(alternatives.drop_last());
        let part = SpanView::toned(alternatives.last(), Tone::Info);
        if alternatives.len() == 1 {
            before.push(part)
        } else {
            before.push(SpanView::toned(" or "@, Tone::Secondary)).push(part)
        }
    }
}

/// The spans of a binding: the key, padded to a column, then `=` and the
/// description. A spacer has none.
pub open spec fn binding_spans(key: Seq<char>, description: Seq<char>) -> Seq<SpanView> {
    if key.len() == 0 && description.len() == 0 {
        Seq::empty()
    } else {
        key_spans(crate::text::split_at_each(key, " or "@)).push(
            SpanView::toned(padding(key), Tone::Plain),
        ).push(SpanView::toned("=   "@, Tone::Secondary)).push(
            SpanView::toned(description, Tone::Primary),
        )
    }
}

/// What pads a key to its column.
pub open spec fn padding(key: Seq<char>) -> Seq<char> {
    crate::text::spaces(
        if key.len() < KEY_COLUMN {
            (KEY_COLUMN - key.len()) as nat
        } else {
            0
        },
    )
}

/// `<key>` in the accent colour, padded to a column, then `=` and the description.
pub fn binding_line(key: &str, description: &str) -> (spans: Vec<Span>)
    ensures
        crate::paint::span_views(spans@) == binding_spans(key@, description@),
{
    let mut spans: Vec<Span> = Vec::new();
    assert(crate::paint::span_views(spans@) =~= Seq::<SpanView>::empty());
    if key.is_empty() && description.is_empty() {
        return spans;
    }
    proof {
        reveal_strlit(" or ");
    }
    let parts: Vec<String> = split_text(key, " or ");
    let ghost texts = crate::text::texts(parts@);
    let mut i: usize = 0;
    while i < parts.len()
        invariant
            i <= parts@.len(),
            texts == crate::text::texts(parts@),
            crate::paint::span_views(spans@) == key_spans(texts.take(i as int)),
        decreases parts@.len() - i,
    {
        let ghost before = spans@;
        assert(texts.take(i + 1).drop_last() =~= texts.take(i as int));
        if i > 0 {
            spans.push(Span::new(" or ", Tone::Secondary));
        }
        spans.push(Span::new(parts[i].as_str(), Tone::Info));
        assert(crate::paint::span_views(spans@) =~= key_spans(texts.take(i + 1)));
        i += 1;
    }
    assert(texts.take(i as int) =~= texts);
    let visible: usize = key.unicode_len();
    let mut pad: String = String::new();
    push_spaces(&mut pad, KEY_COLUMN.saturating_sub(visible));
    assert(pad@ =~= padding(key@));
    spans.push(Span::of(pad, Tone::Plain));
    spans.push(Span::new("=   ", Tone::Secondary));
    spans.push(Span::new(description, Tone::Primary));
    assert(crate::paint::span_views(spans@) =~= binding_spans(key@, description@));
    spans
}

/// Lines as plain values.
pub open spec fn line_views(lines: Seq<Vec<Span>>) -> Seq<Seq<SpanView>> {
    Seq::new(lines.len(), |i: int| crate::paint::span_views(lines[i]@))
}

/// The popup, ready to be drawn.
pub struct HelpPopup {
    pub area: Rect,
    pub title: Vec<Span>,
    /// What stands at the right of the title.
    pub dismiss: Vec<Span>,
    pub lines: Vec<Vec<Span>>,
}

/// The title: the project's name in capitals, as a badge.
pub open spec fn title_spans(project: Seq<char>) -> Seq<SpanView> {
    seq![
        SpanView::toned("  "@, Tone::Plain),
        SpanView {
            text: seq![' '] + crate::paint::uppercase(project) + seq![' '],
            tone: Tone::Badge,
            bold: true,
            dim: false,
        },
        SpanView::toned("  Help  "@, Tone::Primary),
    ]
}

/// What stands at the right of the title: how to close the popup.
pub open spec fn dismiss_spans() -> Seq<SpanView> {
    seq![
        SpanView::toned(" (esc) "@, Tone::Secondary),
        SpanView::toned("✕  "@, Tone::Info),
    ]
}

/// A line for each binding.
pub open spec fn all_lines() -> Seq<Seq<SpanView>> {
    Seq::new(
        BINDINGS@.len(),
        |i: int| binding_spans(binding_at(i).0, binding_at(i).1),
    )
}

/// The title of the popup.
fn title_line(project: &str) -> (spans: Vec<Span>)
    ensures
        crate::paint::span_views(spans@) == title_spans(project@),
{
    let mut badge: String = String::new();
    badge.push(' ');
    badge.append(to_uppercase(project).as_str());
    badge.push(' ');
    assert(badge@ =~= seq![' '] + crate::paint::uppercase(project@) + seq![' ']);
    let spans: Vec<Span> = vec![
        Span::new("  ", Tone::Plain),
        Span { text: badge, tone: Tone::Badge, bold: true, dim: false },
        Span::new("  Help  ", Tone::Primary),
    ];
    assert(crate::paint::span_views(spans@) =~= title_spans(project@));
    spans
}

/// Lays out the popup over a frame.
pub fn popup(project: &str, area: Rect) -> (popup: HelpPopup)
    requires
        crate::paint::countable(area),
    ensures
        popup.area == centred(70, 85, area),
        crate::paint::lies_in(popup.area, area),
        crate::paint::span_views(popup.title@) == title_spans(project@),
        crate::paint::span_views(popup.dismiss@) == dismiss_spans(),
        line_views(popup.lines@) == all_lines(),
{
    let title: Vec<Span> = title_line(project);
    let dismiss: Vec<Span> = vec![
        Span::new(" (esc) ", Tone::Secondary),
        Span::new("✕  ", Tone::Info),
    ];
    assert(crate::paint::span_views(dismiss@) =~= dismiss_spans());
    let mut lines: Vec<Vec<Span>> = Vec::new();
    let mut i: usize = 0;
    assert(line_views(lines@) =~= all_lines().take(0));
    while i < BINDINGS.len()
        invariant
            i <= BINDINGS@.len(),
            line_views(lines@) == all_lines().take(i as int),
        decreases BINDINGS@.len() - i,
    {
        let ghost before = lines@;
        let line: Vec<Span> = binding_line(BINDINGS[i].0, BINDINGS[i].1);
        let ghost view = crate::paint::span_views(line@);
        lines.push(line);
        proof {
            assert(line_views(lines@) =~= line_views(before).push(view));
            assert(all_lines().take(i + 1) =~= all_lines().take(i as int).push(view));
        }
        i += 1;
    }
    assert(all_lines().take(i as int) =~= all_lines());
    HelpPopup { area: centered(70, 85, area), title, dismiss, lines }
}

/// The text of a key's spans is the key.
proof fn lemma_key_text(alternatives: Seq<Seq<char>>)
    ensures
        crate::paint::line_text(key_spans(alternatives)) == crate::text::joined_by(
            alternatives,
            " or "@,
        ),
    decreases alternatives.len(),
{
    if alternatives.len() > 0 {
        let init = alternatives.drop_last();
        lemma_key_text(init);
        let before = key_spans(init);
        let part = SpanView::toned(alternatives.last(), Tone::Info);
        let or = SpanView::toned(" or "@, Tone::Secondary);
        if alternatives.len() == 1 {
            crate::paint::lemma_line_text_push(before, part);
            assert(init =~= Seq::<Seq<char>>::empty());
            assert(Seq::<char>::empty() + alternatives.last() =~= alternatives[0]);
        } else {
            crate::paint::lemma_line_text_push(before, or);
            crate::paint::lemma_line_text_push(before.push(or), part);
        }
    }
}

/// Splitting a key into its alternatives and padding it changes nothing of the
/// text that is read: a line says the key, the equals sign and the description.
pub proof fn law_binding_text(key: Seq<char>, description: Seq<char>)
    requires
        key.len() > 0 || description.len() > 0,
    ensures
        crate::paint::line_text(binding_spans(key, description)) == key + padding(key) + "=   "@
            + description,
{
    reveal_strlit(" or ");
    let alternatives = crate::text::split_at_each(key, " or "@);
    crate::text::law_split_and_join(key, " or "@);
    lemma_key_text(alternatives);
    let keys = key_spans(alternatives);
    let pad = SpanView::toned(padding(key), Tone::Plain);
    let equals = SpanView::toned("=   "@, Tone::Secondary);
    let said = SpanView::toned(description, Tone::Primary);
    crate::paint::lemma_line_text_push(keys, pad);
    crate::paint::lemma_line_text_push(keys.push(pad), equals);
    crate::paint::lemma_line_text_push(keys.push(pad).push(equals), said);
}

/// The popup has a line for each binding, in their order, and none for anything else.
pub proof fn law_help_lines(i: int)
    requires
        0 <= i < BINDINGS@.len(),
    ensures
        all_lines().len() == BINDINGS@.len(),
        BINDINGS[i].0@.len() > 0 || BINDINGS[i].1@.len() > 0 ==> crate::paint::line_text(
            all_lines()[i],
        ) == BINDINGS[i].0@ + padding(BINDINGS[i].0@) + "=   "@ + BINDINGS[i].1@,
        BINDINGS[i].0@.len() == 0 && BINDINGS[i].1@.len() == 0 ==> all_lines()[i].len() == 0,
{
    if BINDINGS[i].0@.len() > 0 || BINDINGS[i].1@.len() > 0 {
        law_binding_text(BINDINGS[i].0@, BINDINGS[i].1@);
    }
}

/// A key is padded with spaces to a column of fourteen, and not at all where it is
/// longer.
pub proof fn law_padding(key: Seq<char>)
    ensures
        key.len() <= 14 ==> key.len() + padding(key).len() == 14,
        key.len() > 14 ==> padding(key).len() == 0,
        forall|i: int| 0 <= i < padding(key).len() ==> #[trigger] padding(key)[i] == ' ',
{
}

/// The popup is titled by the project's name in capitals, as a badge, and says how to
/// close it.
pub proof fn law_title(project: Seq<char>)
    ensures
        title_spans(project).len() == 3,
        title_spans(project)[1].text == seq![' '] + crate::paint::uppercase(project) + seq![' '],
        title_spans(project)[1].tone == Tone::Badge,
        title_spans(project)[1].bold,
        title_spans(project)[2].text == "  Help  "@,
        dismiss_spans()[0].text == " (esc) "@,
{
}

/// The alternatives of a key are in the accent colour, and what stands between them is
/// not.
pub proof fn law_key_tones(alternatives: Seq<Seq<char>>, last: Seq<char>)
    ensures
        ({
            let spans = key_spans(alternatives.push(last));
            &&& spans.len() > 0
            &&& spans.last() == SpanView::toned(last, Tone::Info)
            &&& alternatives.len() > 0 ==> spans.len() >= 2 && spans[spans.len() - 2]
                == SpanView::toned(" or "@, Tone::Secondary)
            &&& alternatives.len() > 0 ==> spans.take(spans.len() - 2) == key_spans(alternatives)
            &&& alternatives.len() == 0 ==> spans.len() == 1
        }),
{
    reveal_with_fuel(key_spans, 2);
    assert(alternatives.push(last).drop_last() =~= alternatives);
    let spans = key_spans(alternatives.push(last));
    if alternatives.len() > 0 {
        assert(spans.take(spans.len() - 2) =~= key_spans(alternatives));
    }
}

/// What the popup says of the keys, group by group.
pub proof fn law_bindings()
    ensures
        BINDINGS@.len() == 25,
        binding_at(0) == ("?"@, "Toggle this popup"@),
        binding_at(1) == ("q or <ctrl>+c"@, "Quit"@),
        binding_at(2) == (""@, ""@),
        binding_at(3) == ("↑ or k"@, "Navigate/scroll output up"@),
        binding_at(4) == ("↓ or j"@, "Navigate/scroll output down"@),
        binding_at(5) == ("<ctrl>+u"@, "Scroll output up"@),
        binding_at(6) == ("<ctrl>+d"@, "Scroll output down"@),
        binding_at(7) == ("Home or End"@, "Jump to the start or end of output"@),
        binding_at(8) == (""@, ""@),
        binding_at(9) == ("/"@, "Filter services based on search term"@),
        binding_at(10) == ("<esc>"@, "Clear filter"@),
        binding_at(11) == (""@, ""@),
        binding_at(12) == ("<enter>"@, "Open and focus output for service"@),
        binding_at(13) == ("<enter>"@, "Full screen the focused output pane"@),
        binding_at(14) == ("<esc>"@, "Leave full screen"@),
        binding_at(15) == ("<esc>"@, "Set focus back to service list"@),
        binding_at(16) == ("<space>"@, "Quick toggle a single output pane"@),
        binding_at(17) == ("b"@, "Toggle service list visibility"@),
        binding_at(18) == ("m"@, "Toggle between vertical and horizontal layouts"@),
        binding_at(19) == ("1"@, "Pin service to output pane 1"@),
        binding_at(20) == ("2"@, "Pin service to output pane 2"@),
        binding_at(21) == ("0"@, "Clear all output panes"@),
        binding_at(22) == ("<tab>"@, "Move focus between list and output panes"@),
        binding_at(23) == ("c"@, "Copy output to clipboard"@),
        binding_at(24) == ("F10"@, "Toggle mouse capture"@),
{
}

} // verus!
