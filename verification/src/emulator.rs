//! The terminal emulator that container output is fed to.
//!
//! The emulator itself is the `vt100` crate. This module declares its types and
//! the calls that the library makes into it, each with what is relied upon.
//!
//! An emulator is modelled by the inputs it has been given since it was made,
//! and by how many rows its view is scrolled back. Whatever can be read from it
//! is a function of the two.
use vstd::prelude::*;

verus! {

/// Floor on the rows of an emulated screen.
pub const MIN_ROWS: u16 = 3;

/// Floor on the columns of an emulated screen. The emulator underflows when it
/// wraps on very narrow grids, so this is a crash guard rather than a cosmetic
/// minimum.
pub const MIN_COLS: u16 = 20;

/// Ceiling on the columns of an emulated screen. The emulator looks for the next
/// tab stop eight columns further on, which has to fit its column type.
pub const MAX_COLS: u16 = 65_527;

/// One thing an emulator has been given.
pub enum EmulatorInput {
    /// It was made.
    Start { rows: u16, cols: u16, scrollback: usize },
    /// A run of bytes was parsed. How many calls it came in is left out, except
    /// where the emulator drops a byte because of a cut.
    Bytes(Seq<u8>),
    /// Its screen was resized in place.
    Resize { rows: u16, cols: u16 },
}

/// The size, rows first, of an emulator that has been given `inputs`.
pub open spec fn size(inputs: Seq<EmulatorInput>) -> (u16, u16)
    decreases inputs.len(),
{
    if inputs.len() == 0 {
        (0, 0)
    } else {
        match inputs.last() {
            EmulatorInput::Start { rows, cols, .. } => (rows, cols),
            EmulatorInput::Resize { rows, cols } => (rows, cols),
            EmulatorInput::Bytes(_) => size(inputs.drop_last()),
        }
    }
}

/// Whether a size is one that the emulator can parse at.
pub open spec fn workable(rows: u16, cols: u16) -> bool {
    &&& MIN_ROWS <= rows
    &&& MIN_COLS <= cols <= MAX_COLS
}

/// Whether an emulator that has been given `inputs` can be given bytes: it was
/// made at a workable size and has never been made narrower, which would leave
/// half of a wide character at the edge.
pub open spec fn feedable(inputs: Seq<EmulatorInput>) -> bool
    decreases inputs.len(),
{
    if inputs.len() == 0 {
        false
    } else {
        match inputs.last() {
            EmulatorInput::Start { rows, cols, .. } => workable(rows, cols),
            EmulatorInput::Resize { rows, cols } => {
                &&& feedable(inputs.drop_last())
                &&& workable(rows, cols)
                &&& size(inputs.drop_last()).1 <= cols
            },
            EmulatorInput::Bytes(_) => feedable(inputs.drop_last()),
        }
    }
}

/// What an emulator holds that has just been made.
pub open spec fn started(rows: u16, cols: u16, scrollback: usize) -> Seq<EmulatorInput> {
    seq![EmulatorInput::Start { rows, cols, scrollback }]
}

/// Whether the last character of `bytes` is whole, in UTF-8.
pub open spec fn ends_whole(bytes: Seq<u8>) -> bool {
    bytes.len() > 0 && (bytes.last() < 128 || exists|n: int| #[trigger] last_is_whole(bytes, n))
}

/// Whether the last `n` bytes are one character.
pub open spec fn last_is_whole(bytes: Seq<u8>, n: int) -> bool {
    &&& 1 <= n <= bytes.len()
    &&& vstd::utf8::valid_first_scalar(bytes.skip(bytes.len() - n))
    &&& vstd::utf8::length_of_first_scalar(bytes.skip(bytes.len() - n)) == n
}

/// Whether an emulator that was given `inputs` is not waiting for the rest of a
/// character.
pub open spec fn settled(inputs: Seq<EmulatorInput>) -> bool
    decreases inputs.len(),
{
    if inputs.len() == 0 {
        false
    } else {
        match inputs.last() {
            EmulatorInput::Start { .. } => true,
            EmulatorInput::Resize { .. } => settled(inputs.drop_last()),
            EmulatorInput::Bytes(bytes) => ends_whole(bytes),
        }
    }
}

/// Whether the emulator drops a byte where output is cut between `before` and
/// `bytes`. It does where the cut goes through a character of two bytes and one
/// ASCII byte comes behind it, followed by one that is not ASCII: it decodes what
/// is left of the character together with those two, finds it and the ASCII byte
/// to be sound, writes the first and passes over both.
pub open spec fn swallows(before: Seq<u8>, bytes: Seq<u8>) -> bool {
    &&& before.len() > 0
    &&& 0xC2 <= before.last() <= 0xDF
    &&& bytes.len() >= 3
    &&& 0x80 <= bytes[0] <= 0xBF
    &&& bytes[1] < 0x80
    &&& bytes[2] >= 0x80
}

/// Whether an emulator that was given `inputs` takes what comes next as it would
/// if it had come with the last of them. What is left of a character that was cut
/// off is looked for in the three bytes after the cut: those have come, or no
/// character was cut off before them.
pub open spec fn steady(inputs: Seq<EmulatorInput>) -> bool {
    inputs.len() > 0 && match inputs.last() {
        EmulatorInput::Start { .. } => true,
        EmulatorInput::Resize { .. } => settled(inputs),
        EmulatorInput::Bytes(bytes) => bytes.len() >= 3 || settled(inputs.drop_last()),
    }
}

/// Whether `bytes` go on from the last ones that were given.
pub open spec fn goes_on(inputs: Seq<EmulatorInput>, bytes: Seq<u8>) -> bool {
    &&& inputs.len() > 0
    &&& inputs.last() is Bytes
    &&& steady(inputs)
    &&& !swallows(inputs.last()->Bytes_0, bytes)
}

/// Whether an emulator that was given `inputs` takes `a` and then `b` as it takes
/// both at once: it drops no byte between the two, nor where `a` begins.
pub open spec fn seamless(inputs: Seq<EmulatorInput>, a: Seq<u8>, b: Seq<u8>) -> bool {
    &&& steady(inputs)
    &&& !swallows(a, b)
    &&& inputs.last() is Bytes ==> !swallows(inputs.last()->Bytes_0, a + b)
}

/// What an emulator that was given `inputs` holds once it is fed `bytes`.
pub open spec fn fed(inputs: Seq<EmulatorInput>, bytes: Seq<u8>) -> Seq<EmulatorInput> {
    if bytes.len() == 0 {
        inputs
    } else if goes_on(inputs, bytes) {
        inputs.drop_last().push(EmulatorInput::Bytes(inputs.last()->Bytes_0 + bytes))
    } else {
        inputs.push(EmulatorInput::Bytes(bytes))
    }
}

/// What an emulator that was given `inputs` holds once it is resized in place.
pub open spec fn resized(inputs: Seq<EmulatorInput>, rows: u16, cols: u16) -> Seq<EmulatorInput> {
    inputs.push(EmulatorInput::Resize { rows, cols })
}

/// How many rows the scrollback of an emulator that was given `inputs` can hold.
pub open spec fn capacity(inputs: Seq<EmulatorInput>) -> nat {
    match inputs[0] {
        EmulatorInput::Start { scrollback, .. } => scrollback as nat,
        _ => 0,
    }
}

/// Feeding bytes changes neither the size nor whether more can be fed, and leaves
/// what is steady so.
pub broadcast proof fn lemma_fed(inputs: Seq<EmulatorInput>, bytes: Seq<u8>)
    ensures
        size(#[trigger] fed(inputs, bytes)) == size(inputs),
        feedable(fed(inputs, bytes)) == feedable(inputs),
        feedable(inputs) ==> capacity(fed(inputs, bytes)) == capacity(inputs),
        steady(inputs) ==> steady(fed(inputs, bytes)),
{
    if bytes.len() > 0 {
        if goes_on(inputs, bytes) {
            assert(fed(inputs, bytes).drop_last() =~= inputs.drop_last());
        } else {
            assert(fed(inputs, bytes).drop_last() =~= inputs);
        }
    }
}

/// Output that is cut where no byte is dropped is fed as if it had not been cut.
pub proof fn lemma_fed_twice(inputs: Seq<EmulatorInput>, a: Seq<u8>, b: Seq<u8>)
    requires
        a.len() == 0 || b.len() == 0 || seamless(inputs, a, b),
    ensures
        fed(fed(inputs, a), b) == fed(inputs, a + b),
{
    if a.len() == 0 {
        assert(a + b =~= b);
    } else if b.len() == 0 {
        assert(a + b =~= a);
    } else {
        let first = fed(inputs, a);
        lemma_fed(inputs, a);
        if inputs.last() is Bytes {
            let earlier = inputs.last()->Bytes_0;
            if swallows(earlier, a) {
                assert((a + b)[0] == a[0] && (a + b)[1] == a[1] && (a + b)[2] == a[2]);
            }
            assert(goes_on(inputs, a));
            assert(goes_on(inputs, a + b));
            assert(first.last()->Bytes_0 == earlier + a);
            assert((earlier + a).last() == a.last());
            assert(first.drop_last() =~= inputs.drop_last());
            assert(earlier + a + b =~= earlier + (a + b));
        } else {
            assert(first.drop_last() =~= inputs);
        }
        assert(goes_on(first, b));
    }
}

/// Where a run of bytes leaves a parser that was reading text.
pub enum Reading {
    /// In text.
    Text,
    /// Behind an `ESC`.
    Escape,
    /// In a sequence that begins with `CSI` and may set the pen.
    Sequence,
    /// Anywhere else.
    Elsewhere,
}

/// How a parser reads on: sequences that set the pen (`CSI`, numbers with `;` or
/// `:` between them, and `m`) and, where `text` says so, text and other sequences
/// of that form between them, none of which moves the pen.
pub open spec fn reads(at: Reading, byte: u8, text: bool) -> Reading {
    match at {
        Reading::Text => if byte == 27 {
            Reading::Escape
        } else if text {
            Reading::Text
        } else {
            Reading::Elsewhere
        },
        Reading::Escape => if byte == 91 {
            Reading::Sequence
        } else {
            Reading::Elsewhere
        },
        Reading::Sequence => if 48 <= byte <= 57 || byte == 58 || byte == 59 {
            Reading::Sequence
        } else if byte == 109 || (text && 64 <= byte <= 126) {
            Reading::Text
        } else {
            Reading::Elsewhere
        },
        Reading::Elsewhere => Reading::Elsewhere,
    }
}

/// Where `bytes` leave a parser that was reading text.
pub open spec fn reading(bytes: Seq<u8>, text: bool) -> Reading
    decreases bytes.len(),
{
    if bytes.len() == 0 {
        Reading::Text
    } else {
        reads(reading(bytes.drop_last(), text), bytes.last(), text)
    }
}

/// Whether `bytes` are whole sequences that set the pen, and nothing else.
pub open spec fn only_styles(bytes: Seq<u8>) -> bool {
    reading(bytes, false) is Text
}

/// Whether `bytes` are text and whole sequences of the form that set the pen, and do
/// not end inside of a character.
pub open spec fn styled_text(bytes: Seq<u8>) -> bool {
    reading(bytes, true) is Text && (bytes.len() > 0 ==> bytes.last() < 128)
}

/// Whether `bytes` are ASCII text and nothing else.
pub open spec fn plain_text(bytes: Seq<u8>) -> bool {
    forall|i: int| 0 <= i < bytes.len() ==> #[trigger] bytes[i] != 27 && bytes[i] < 128
}

/// Sequences that set the pen are styled text without the text.
pub proof fn lemma_only_styles(bytes: Seq<u8>)
    ensures
        reading(bytes, false) is Elsewhere || reading(bytes, false) == reading(bytes, true),
        only_styles(bytes) && bytes.len() > 0 ==> bytes.last() == 109,
        only_styles(bytes) ==> styled_text(bytes),
    decreases bytes.len(),
{
    if bytes.len() > 0 {
        lemma_only_styles(bytes.drop_last());
    }
}

/// A parser reads on from where it was.
proof fn lemma_reading_on(a: Seq<u8>, b: Seq<u8>)
    requires
        reading(a, true) is Text,
    ensures
        reading(a + b, true) == reading(b, true),
    decreases b.len(),
{
    if b.len() == 0 {
        assert(a + b =~= a);
    } else {
        assert((a + b).drop_last() =~= a + b.drop_last());
        lemma_reading_on(a, b.drop_last());
    }
}

/// Styled text with styled text behind it is styled text.
pub proof fn lemma_styled_on(a: Seq<u8>, b: Seq<u8>)
    requires
        styled_text(a),
        styled_text(b),
    ensures
        styled_text(a + b),
{
    lemma_reading_on(a, b);
    if b.len() == 0 {
        assert(a + b =~= a);
    }
}

/// Plain text is styled text.
pub proof fn lemma_plain_is_styled(bytes: Seq<u8>)
    requires
        plain_text(bytes),
    ensures
        styled_text(bytes),
    decreases bytes.len(),
{
    if bytes.len() > 0 {
        assert forall|i: int| 0 <= i < bytes.drop_last().len() implies #[trigger] bytes.drop_last()[i]
            != 27 && bytes.drop_last()[i] < 128 by {
            assert(bytes[i] != 27 && bytes[i] < 128);
        }
        lemma_plain_is_styled(bytes.drop_last());
        assert(bytes[bytes.len() - 1] != 27);
    }
}

/// Styled text may be cut behind styled text.
pub proof fn lemma_fed_styled(start: Seq<EmulatorInput>, a: Seq<u8>, b: Seq<u8>)
    requires
        start.len() > 0,
        start.last() is Start,
        styled_text(a),
    ensures
        fed(fed(start, a), b) == fed(start, a + b),
{
    lemma_fed_twice(start, a, b);
}

/// How styled text moves the pen of an emulator that was given `start` and then
/// that text. Plain text leaves the pen. What styled text makes of it depends on
/// the pen there was alone. And the sequence that stands for a pen sets that pen,
/// and does nothing else.
pub open spec fn pens_hold(start: Seq<EmulatorInput>) -> bool {
    &&& forall|text: Seq<u8>, plain: Seq<u8>|
        styled_text(text) && plain_text(plain) ==> pen_of(fed(start, #[trigger] (text + plain)))
            == pen_of(fed(start, text))
    &&& forall|a: Seq<u8>, b: Seq<u8>, text: Seq<u8>|
        styled_text(a) && styled_text(b) && styled_text(text) && pen_of(fed(start, a)) == pen_of(
            fed(start, b),
        ) ==> pen_of(fed(start, #[trigger] (a + text))) == pen_of(fed(start, #[trigger] (b + text)))
    &&& forall|text: Seq<u8>|
        styled_text(text) ==> {
            let pen = #[trigger] pen_of(fed(start, text));
            only_styles(pen) && pen_of(fed(start, pen)) == pen
        }
}

/// Emulators that styled text gives the same pens hold them alike.
pub proof fn lemma_pens_alike(one: Seq<EmulatorInput>, other: Seq<EmulatorInput>)
    requires
        pens_hold(one),
        forall|text: Seq<u8>|
            styled_text(text) ==> #[trigger] pen_of(fed(other, text)) == pen_of(fed(one, text)),
    ensures
        pens_hold(other),
{
    assert forall|text: Seq<u8>, plain: Seq<u8>| styled_text(text) && plain_text(plain) implies
        pen_of(fed(other, #[trigger] (text + plain))) == pen_of(fed(other, text)) by {
        lemma_plain_is_styled(plain);
        lemma_styled_on(text, plain);
        assert(pen_of(fed(one, text + plain)) == pen_of(fed(one, text)));
        assert(pen_of(fed(other, text)) == pen_of(fed(one, text)));
    }
    assert forall|a: Seq<u8>, b: Seq<u8>, text: Seq<u8>|
        styled_text(a) && styled_text(b) && styled_text(text) && pen_of(fed(other, a)) == pen_of(
            fed(other, b),
        ) implies pen_of(fed(other, #[trigger] (a + text))) == pen_of(
        fed(other, #[trigger] (b + text)),
    ) by {
        lemma_styled_on(a, text);
        lemma_styled_on(b, text);
        assert(pen_of(fed(one, a)) == pen_of(fed(one, b)));
        assert(pen_of(fed(one, a + text)) == pen_of(fed(one, b + text)));
    }
    assert forall|text: Seq<u8>| styled_text(text) implies ({
        let pen = #[trigger] pen_of(fed(other, text));
        only_styles(pen) && pen_of(fed(other, pen)) == pen
    }) by {
        let pen = pen_of(fed(one, text));
        assert(only_styles(pen) && pen_of(fed(one, pen)) == pen);
        lemma_only_styles(pen);
        assert(pen_of(fed(other, pen)) == pen_of(fed(one, pen)));
    }
}

/// Whether an emulator that was given `inputs` has been given styled text alone,
/// and so is reading text.
pub open spec fn at_rest(inputs: Seq<EmulatorInput>) -> bool
    decreases inputs.len(),
{
    if inputs.len() == 0 {
        false
    } else {
        match inputs.last() {
            EmulatorInput::Start { rows, cols, .. } => workable(rows, cols),
            EmulatorInput::Resize { .. } => at_rest(inputs.drop_last()),
            EmulatorInput::Bytes(bytes) => styled_text(bytes) && at_rest(inputs.drop_last()),
        }
    }
}

/// Whether an emulator that was given `inputs` has nothing written on it: it was
/// made, and has been given nothing but sequences that set the pen.
pub open spec fn unwritten(inputs: Seq<EmulatorInput>) -> bool {
    &&& 1 <= inputs.len() <= 2
    &&& inputs[0] matches EmulatorInput::Start { rows, cols, .. } && workable(rows, cols)
    &&& inputs.len() == 2 ==> (inputs[1] matches EmulatorInput::Bytes(bytes) && only_styles(bytes))
}

/// Resizing in place sets the size.
pub broadcast proof fn lemma_resized(inputs: Seq<EmulatorInput>, rows: u16, cols: u16)
    ensures
        size(#[trigger] resized(inputs, rows, cols)) == (rows, cols),
        feedable(resized(inputs, rows, cols)) == (feedable(inputs) && workable(rows, cols)
            && size(inputs).1 <= cols),
        feedable(inputs) ==> capacity(resized(inputs, rows, cols)) == capacity(inputs),
{
    assert(resized(inputs, rows, cols).drop_last() =~= inputs);
}

/// A colour of a cell.
#[derive(Clone, Copy, Debug, PartialEq, Eq, Structural)]
pub enum CellColor {
    /// The terminal's own colour.
    Default,
    /// A colour of the terminal's palette.
    Idx(u8),
    /// A colour by its red, green and blue parts.
    Rgb(u8, u8, u8),
}

/// A cell of the screen, as it can be drawn.
#[derive(Clone, Debug)]
pub struct ScreenCell {
    /// What is written in the cell; empty where nothing is.
    pub text: String,
    pub fg: CellColor,
    pub bg: CellColor,
    pub bold: bool,
    pub dim: bool,
    pub italic: bool,
    pub underline: bool,
    pub inverse: bool,
}

/// A [`ScreenCell`] as a plain value.
pub struct CellView {
    pub text: Seq<char>,
    pub fg: CellColor,
    pub bg: CellColor,
    pub bold: bool,
    pub dim: bool,
    pub italic: bool,
    pub underline: bool,
    pub inverse: bool,
}

impl View for ScreenCell {
    type V = CellView;

    open spec fn view(&self) -> CellView {
        CellView {
            text: self.text@,
            fg: self.fg,
            bg: self.bg,
            bold: self.bold,
            dim: self.dim,
            italic: self.italic,
            underline: self.underline,
            inverse: self.inverse,
        }
    }
}

/// A cell that nothing is written in.
pub open spec fn blank_cell() -> CellView {
    CellView {
        text: Seq::empty(),
        fg: CellColor::Default,
        bg: CellColor::Default,
        bold: false,
        dim: false,
        italic: false,
        underline: false,
        inverse: false,
    }
}

/// A terminal emulator: a `vt100::Parser`, which parses the bytes it is given
/// onto a screen with a scrollback behind it.
#[verifier::external_body]
pub struct Emulator {
    parser: vt100::Parser,
}

/// The part of an emulator that can be read: a `vt100::Screen`.
#[verifier::external_type_specification]
#[verifier::external_body]
pub struct ExScreen(vt100::Screen);

/// What `emulator` has been given, oldest first.
pub uninterp spec fn emulated(emulator: Emulator) -> Seq<EmulatorInput>;

/// How many rows the view of `emulator` is scrolled back.
pub uninterp spec fn scrolled_back(emulator: Emulator) -> nat;

/// What the emulator that `screen` belongs to has been given, oldest first.
pub uninterp spec fn screen_inputs(screen: vt100::Screen) -> Seq<EmulatorInput>;

/// How many rows the view of `screen` is scrolled back.
pub uninterp spec fn screen_offset(screen: vt100::Screen) -> nat;

/// How many rows lie in the scrollback of an emulator that was given `inputs`.
pub uninterp spec fn scrollback_depth(inputs: Seq<EmulatorInput>) -> nat;

/// How far the view of an emulator that was given `inputs` is scrolled back
/// once it is fed `bytes`, when it was scrolled back `offset` rows before.
pub uninterp spec fn offset_after(inputs: Seq<EmulatorInput>, offset: nat, bytes: Seq<u8>) -> nat;

/// How far the view of an emulator that was given `inputs` is scrolled back once
/// it is fed `bytes`: a view of the live screen stays there.
pub open spec fn offset_then(inputs: Seq<EmulatorInput>, offset: nat, bytes: Seq<u8>) -> nat {
    if offset == 0 {
        0
    } else {
        offset_after(inputs, offset, bytes)
    }
}

/// The text of a row of an emulator that was given `inputs`. Rows count from the
/// top of the scrollback, through it and on through the screen.
pub uninterp spec fn row_text(inputs: Seq<EmulatorInput>, row: int) -> Seq<char>;

/// A cell of an emulator that was given `inputs`, with rows counted as for
/// `row_text`; `None` where the row has no such column.
pub uninterp spec fn cell_at(inputs: Seq<EmulatorInput>, row: int, col: u16) -> Option<CellView>;

/// The escape sequence that sets the pen an emulator that was given `inputs`
/// writes with.
pub uninterp spec fn pen_of(inputs: Seq<EmulatorInput>) -> Seq<u8>;

/// What parsing does to a view that stays scrolled back. Rows enter the
/// scrollback at its bottom and, once it is full, leave it at its top; those in
/// between keep what is written in them. The view moves with them, and no
/// further than to the top.
pub open spec fn advanced(
    before: Seq<EmulatorInput>,
    offset: nat,
    after: Seq<EmulatorInput>,
    new_offset: nat,
    entered: nat,
    left: nat,
) -> bool {
    &&& scrollback_depth(after) + left == scrollback_depth(before) + entered
    &&& left > 0 ==> scrollback_depth(after) == capacity(after)
    &&& new_offset == if offset + entered <= scrollback_depth(after) {
        offset + entered
    } else {
        scrollback_depth(after)
    }
    &&& forall|i: int|
        left <= i < scrollback_depth(before) ==> row_text(after, i - left) == #[trigger] row_text(
            before,
            i,
        )
    &&& forall|i: int, col: u16|
        left <= i < scrollback_depth(before) ==> cell_at(after, i - left, col)
            == #[trigger] cell_at(before, i, col)
}

/// Whether nothing is to be seen of an emulator that was given `inputs`: there is
/// nothing in its scrollback and its screen is blank.
pub open spec fn blank(inputs: Seq<EmulatorInput>) -> bool {
    &&& scrollback_depth(inputs) == 0
    &&& forall|row: int| 0 <= row < size(inputs).0 ==> #[trigger] row_text(inputs, row) == Seq::<
        char,
    >::empty()
    &&& forall|row: int, col: u16|
        0 <= row < size(inputs).0 ==> #[trigger] cell_at(inputs, row, col) == if col < size(
            inputs,
        ).1 {
            Some(blank_cell())
        } else {
            None
        }
}

impl Emulator {
    /// `vt100::Parser::new`: an emulator of the given size that has been given
    /// nothing, has nothing in its scrollback and shows the live screen, which is
    /// blank. Styled text moves its pen as it does that of an emulator of any other
    /// size, and as [`pens_hold`] says.
    #[verifier::external_body]
    pub(crate) fn new(rows: u16, cols: u16, scrollback: usize) -> (emulator: Emulator)
        requires
            workable(rows, cols),
        ensures
            emulated(emulator) == started(rows, cols, scrollback),
            scrolled_back(emulator) == 0,
            blank(emulated(emulator)),
            pens_hold(emulated(emulator)),
            forall|r: u16, c: u16, s: usize, text: Seq<u8>|
                workable(r, c) && styled_text(text) ==> #[trigger] pen_of(fed(started(r, c, s), text))
                    == pen_of(fed(emulated(emulator), text)),
    {
        Emulator { parser: vt100::Parser::new(rows, cols, scrollback) }
    }

    /// `vt100::Parser::process`: parses `bytes`. The scrollback holds no more rows
    /// than it was made for. A view of the live screen stays there, and no view
    /// is left scrolled back further than the scrollback reaches. A view that is
    /// still scrolled back afterwards has moved with the rows that entered the
    /// scrollback; escape sequences that replace the screen put it back to the
    /// live one instead. Which of the two it is, and how many rows enter, is
    /// named rather than stated; it is the same however the bytes are cut into
    /// calls, as long as no byte is dropped at a cut. Where the view is
    /// scrolled back, the bytes that hand a store over let no row enter the
    /// scrollback or leave it.
    #[verifier::external_body]
    pub(crate) fn process(&mut self, bytes: &[u8])
        requires
            feedable(emulated(*old(self))),
        ensures
            emulated(*final(self)) == fed(emulated(*old(self)), bytes@),
            scrolled_back(*old(self)) == 0 ==> scrolled_back(*final(self)) == 0,
            scrolled_back(*old(self)) > 0 ==> scrolled_back(*final(self)) == offset_after(
                emulated(*old(self)),
                scrolled_back(*old(self)),
                bytes@,
            ),
            forall|a: Seq<u8>, b: Seq<u8>|
                bytes@ == #[trigger] (a + b) && a.len() > 0 && seamless(
                    emulated(*old(self)),
                    a,
                    b,
                ) ==> scrolled_back(*final(self)) == offset_then(
                    fed(emulated(*old(self)), a),
                    offset_then(emulated(*old(self)), scrolled_back(*old(self)), a),
                    b,
                ),
            scrolled_back(*final(self)) <= scrollback_depth(emulated(*final(self))),
            scrollback_depth(emulated(*final(self))) <= capacity(emulated(*final(self))),
            bytes@ == crate::store::handover() && scrolled_back(*old(self)) > 0
                ==> scrollback_depth(emulated(*final(self))) == scrollback_depth(
                emulated(*old(self)),
            ),
            scrolled_back(*final(self)) > 0 ==> exists|entered: nat, left: nat|
                advanced(
                    emulated(*old(self)),
                    scrolled_back(*old(self)),
                    emulated(*final(self)),
                    scrolled_back(*final(self)),
                    entered,
                    left,
                ),
    {
        self.parser.process(bytes);
    }

    /// `vt100::Parser::screen`: the emulator's own screen.
    #[verifier::external_body]
    pub(crate) fn screen(&self) -> (screen: &vt100::Screen)
        ensures
            screen_inputs(*screen) == emulated(*self),
            screen_offset(*screen) == scrolled_back(*self),
    {
        self.parser.screen()
    }

    /// `vt100::Screen::set_scrollback`: scrolls the view back, as far as there
    /// are rows to scroll to. The rows are held in memory, so a `usize` counts
    /// them.
    #[verifier::external_body]
    pub(crate) fn set_scrollback(&mut self, rows: usize)
        ensures
            emulated(*final(self)) == emulated(*old(self)),
            scrolled_back(*final(self)) == if rows <= scrollback_depth(emulated(*old(self))) {
                rows as nat
            } else {
                scrollback_depth(emulated(*old(self)))
            },
            scrollback_depth(emulated(*final(self))) <= usize::MAX,
    {
        self.parser.screen_mut().set_scrollback(rows);
    }

    /// `vt100::Screen::set_size`: resizes the screen in place, and leaves the
    /// scrollback and the view as they were.
    #[verifier::external_body]
    pub(crate) fn set_size(&mut self, rows: u16, cols: u16)
        requires
            workable(rows, cols),
        ensures
            emulated(*final(self)) == resized(emulated(*old(self)), rows, cols),
            scrolled_back(*final(self)) == scrolled_back(*old(self)),
            scrollback_depth(emulated(*final(self))) == scrollback_depth(emulated(*old(self))),
    {
        self.parser.screen_mut().set_size(rows, cols);
    }
}

/// `vt100::Screen::size`: rows, then columns.
#[verifier::external_body]
pub(crate) fn screen_size(screen: &vt100::Screen) -> (s: (u16, u16))
    ensures
        s == size(screen_inputs(*screen)),
{
    screen.size()
}

/// `vt100::Screen::scrollback`: how many rows the view is scrolled back.
#[verifier::external_body]
pub(crate) fn screen_scrollback(screen: &vt100::Screen) -> (rows: usize)
    ensures
        rows == screen_offset(*screen),
{
    screen.scrollback()
}

/// `vt100::Screen::rows`: the text of the rows in view, over the whole width of
/// the screen. They are the rows of the scrollback and the screen behind it
/// that start as many rows above the screen as the view is scrolled back.
#[verifier::external_body]
pub(crate) fn screen_rows(screen: &vt100::Screen, cols: u16) -> (rows: Vec<String>)
    requires
        cols == size(screen_inputs(*screen)).1,
    ensures
        rows@.len() == size(screen_inputs(*screen)).0,
        forall|i: int|
            0 <= i < rows@.len() ==> (#[trigger] rows@[i])@ == row_text(
                screen_inputs(*screen),
                scrollback_depth(screen_inputs(*screen)) - screen_offset(*screen) + i,
            ),
{
    screen.rows(0, cols).collect()
}

/// `vt100::Screen::cell`: a cell in view, with what it is drawn with.
#[verifier::external_body]
pub(crate) fn screen_cell(screen: &vt100::Screen, row: u16, col: u16) -> (cell: Option<ScreenCell>)
    ensures
        row >= size(screen_inputs(*screen)).0 ==> cell is None,
        row < size(screen_inputs(*screen)).0 ==> (match cell {
            Some(c) => Some(c@),
            None => None,
        }) == cell_at(
            screen_inputs(*screen),
            scrollback_depth(screen_inputs(*screen)) - screen_offset(*screen) + row,
            col,
        ),
{
    let color = |c| match c {
        vt100::Color::Default => CellColor::Default,
        vt100::Color::Idx(i) => CellColor::Idx(i),
        vt100::Color::Rgb(r, g, b) => CellColor::Rgb(r, g, b),
    };
    let cell = screen.cell(row, col)?;
    let (text, fg, bg) = (cell.contents().to_owned(), color(cell.fgcolor()), color(cell.bgcolor()));
    let (bold, dim, italic) = (cell.bold(), cell.dim(), cell.italic());
    let (underline, inverse) = (cell.underline(), cell.inverse());
    Some(ScreenCell { text, fg, bg, bold, dim, italic, underline, inverse })
}

/// `vt100::Screen::attributes_formatted`: the escape sequences that set the pen
/// the screen writes with, whatever pen they are parsed after. They do nothing
/// else, and an emulator that reads text has that pen once it has parsed them:
/// what it writes then, with nothing on its screen, looks as what this one would
/// write. Plain text leaves the pen as it was.
#[verifier::external_body]
pub(crate) fn screen_pen(screen: &vt100::Screen) -> (pen: Vec<u8>)
    ensures
        pen@ == pen_of(screen_inputs(*screen)),
        only_styles(pen@),
        forall|before: Seq<EmulatorInput>, plain: Seq<u8>|
            screen_inputs(*screen) == #[trigger] fed(before, plain) && at_rest(before)
                && plain_text(plain) ==> pen@ == pen_of(before),
        forall|before: Seq<EmulatorInput>|
            at_rest(before) ==> #[trigger] pen_of(fed(before, pen@)) == pen@,
        forall|before: Seq<EmulatorInput>, c: u8|
            unwritten(screen_inputs(*screen)) && unwritten(before) && 32 < c < 127
                ==> #[trigger] cell_at(fed(fed(before, pen@), seq![c]), 0, 0) == cell_at(
                fed(screen_inputs(*screen), seq![c]),
                0,
                0,
            ),
{
    screen.attributes_formatted()
}

} // verus!
