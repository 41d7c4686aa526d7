//! Per-service log buffer.
//!
//! Container output is fed straight into a terminal emulator. That gets colour,
//! `\r` progress rewrites and cursor motion handled correctly, plus access to
//! single cells.
//!
//! The scroll offset counts rows back from the bottom, so `0` means "tailing
//! live output".
use vstd::prelude::*;

use crate::emulator::{screen_cell, screen_pen, screen_rows, screen_scrollback, screen_size};
use crate::emulator::{CellView, Emulator, EmulatorInput, ScreenCell};
use crate::emulator::{MAX_COLS, MIN_COLS, MIN_ROWS};

verus! {

/// Rows of scrollback retained per service.
pub const DEFAULT_SCROLLBACK: usize = 1_000;

/// Hard ceiling on the retained buffer, per service.
///
/// The line budget is what keeps the buffer correct; this only guards against
/// enormous lines, or output with no newlines at all, where a line count says
/// nothing about size.
pub const MAX_RAW_BYTES: usize = 8_388_608;

/// Size used before the first layout pass tells the real pane geometry.
pub const INITIAL_ROWS: u16 = 24;

pub const INITIAL_COLS: u16 = 80;

/// `\n`
pub const LF: u8 = 10;

/// `\r`
pub const CR: u8 = 13;

/// `ESC`
pub const ESC: u8 = 27;

/// How many newlines `bytes` holds.
pub open spec fn newlines(bytes: Seq<u8>) -> nat
    decreases bytes.len(),
{
    if bytes.len() == 0 {
        0
    } else {
        newlines(bytes.drop_last()) + if bytes.last() == LF { 1nat } else { 0 }
    }
}

/// Whether the byte before the end of `bytes` is a carriage return, where `cr`
/// says it of the byte before their beginning.
pub open spec fn ends_on_cr(bytes: Seq<u8>, cr: bool) -> bool {
    if bytes.len() == 0 {
        cr
    } else {
        bytes.last() == CR
    }
}

/// `bytes` with a carriage return put before each newline that has none, where
/// `cr` says whether one came just before `bytes`.
pub open spec fn normalised(bytes: Seq<u8>, cr: bool) -> Seq<u8>
    decreases bytes.len(),
{
    if bytes.len() == 0 {
        Seq::empty()
    } else {
        let before = bytes.drop_last();
        if bytes.last() == LF && !ends_on_cr(before, cr) {
            normalised(before, cr).push(CR).push(LF)
        } else {
            normalised(before, cr).push(bytes.last())
        }
    }
}

/// Whether `dropped` can have moved the pen away from wherever it stood: only an
/// escape sequence does, and below `0x80` nothing but `ESC` starts one.
pub open spec fn moves_the_pen(dropped: Seq<u8>) -> bool {
    exists|i: int| 0 <= i < dropped.len() && (#[trigger] dropped[i] == ESC || dropped[i] >= 128)
}

/// The pen left active after `prefix` and then `dropped` are parsed.
pub open spec fn pen_left_by(prefix: Seq<u8>, dropped: Seq<u8>) -> Seq<u8> {
    crate::emulator::pen_of(
        crate::emulator::fed(
            crate::emulator::fed(crate::emulator::started(MIN_ROWS, MIN_COLS, 0), prefix),
            dropped,
        ),
    )
}

/// How a character looks that is written on an empty screen after `prefix` and
/// then `dropped` are parsed.
pub open spec fn written_after(prefix: Seq<u8>, dropped: Seq<u8>, c: u8) -> Option<CellView> {
    crate::emulator::cell_at(
        crate::emulator::fed(
            crate::emulator::fed(
                crate::emulator::fed(crate::emulator::started(MIN_ROWS, MIN_COLS, 0), prefix),
                dropped,
            ),
            seq![c],
        ),
        0,
        0,
    )
}

/// The lines to keep for a scrollback of that many rows behind a screen of
/// `rows` rows: enough to fill both, and always one.
pub open spec fn lines_to_keep(scrollback: nat, rows: u16) -> nat {
    if scrollback + rows > usize::MAX {
        usize::MAX as nat
    } else if scrollback + rows == 0 {
        1
    } else {
        scrollback + rows as nat
    }
}

/// Where `raw` has to be cut to leave its last `keep` newlines and nothing
/// before the line that the first of them ends.
pub open spec fn line_cut(raw: Seq<u8>, keep: nat) -> nat
    decreases raw.len(),
{
    if raw.len() == 0 {
        0
    } else if raw.last() != LF {
        line_cut(raw.drop_last(), keep)
    } else if keep == 0 {
        raw.len()
    } else {
        line_cut(raw.drop_last(), (keep - 1) as nat)
    }
}

/// Where the first line boundary at or after `from` is: just behind a newline,
/// or the end of `raw` where no newline follows.
pub open spec fn next_line(raw: Seq<u8>, from: nat) -> nat
    decreases raw.len() - from,
{
    if from >= raw.len() {
        raw.len()
    } else if raw[from as int] == LF {
        from + 1
    } else {
        next_line(raw, from + 1)
    }
}

/// Where `raw` is cut: so that its newest `keep` lines survive, or, where that
/// leaves more than the ceiling, at the first line boundary under the ceiling.
/// Where there is no such boundary short of the end it is cut at the ceiling.
pub open spec fn cut_point(raw: Seq<u8>, keep: nat) -> nat {
    let cut = line_cut(raw, keep);
    if raw.len() - cut <= MAX_RAW_BYTES {
        cut
    } else {
        let floor = (raw.len() - MAX_RAW_BYTES) as nat;
        let boundary = next_line(raw, floor);
        if boundary < raw.len() {
            boundary
        } else {
            floor
        }
    }
}

/// Counting newlines goes over a concatenation.
pub proof fn lemma_newlines_add(a: Seq<u8>, b: Seq<u8>)
    ensures
        newlines(a + b) == newlines(a) + newlines(b),
    decreases b.len(),
{
    if b.len() == 0 {
        assert(a + b =~= a);
    } else {
        assert((a + b).drop_last() =~= a + b.drop_last());
        lemma_newlines_add(a, b.drop_last());
    }
}

/// There are no more newlines than bytes.
pub proof fn lemma_newlines_bound(bytes: Seq<u8>)
    ensures
        newlines(bytes) <= bytes.len(),
    decreases bytes.len(),
{
    if bytes.len() > 0 {
        lemma_newlines_bound(bytes.drop_last());
    }
}

/// What a cut by lines leaves: the last `keep` newlines, or all where there are
/// no more, from the start of a line.
pub proof fn lemma_line_cut(raw: Seq<u8>, keep: nat)
    ensures
        line_cut(raw, keep) <= raw.len(),
        keep > 0 && raw.len() > 0 ==> line_cut(raw, keep) < raw.len(),
        newlines(raw) <= keep <==> line_cut(raw, keep) == 0,
        line_cut(raw, keep) > 0 ==> raw[line_cut(raw, keep) - 1] == LF,
        newlines(raw.skip(line_cut(raw, keep) as int)) == if newlines(raw) <= keep {
            newlines(raw)
        } else {
            keep
        },
    decreases raw.len(),
{
    if raw.len() > 0 {
        let init = raw.drop_last();
        if raw.last() == LF && keep == 0 {
            assert(raw.skip(raw.len() as int) =~= Seq::<u8>::empty());
        } else {
            let rest = if raw.last() == LF { (keep - 1) as nat } else { keep };
            lemma_line_cut(init, rest);
            let cut = line_cut(raw, keep) as int;
            if cut < raw.len() {
                assert(raw.skip(cut).drop_last() =~= init.skip(cut));
                assert(raw.skip(cut).last() == raw.last());
            } else {
                assert(init.skip(cut) =~= Seq::<u8>::empty() || cut > init.len());
            }
        }
    } else {
        assert(raw.skip(0) =~= raw);
    }
}

pub proof fn lemma_next_line(raw: Seq<u8>, from: nat)
    requires
        from <= raw.len(),
    ensures
        from <= next_line(raw, from) <= raw.len(),
        next_line(raw, from) < raw.len() ==> next_line(raw, from) > from,
    decreases raw.len() - from,
{
    if from < raw.len() && raw[from as int] != LF {
        lemma_next_line(raw, from + 1);
    }
}

/// A trim cuts only from the front, leaves something, and leaves no more than
/// the ceiling and, where it is the lines that bind, no more than the line
/// budget.
pub proof fn lemma_cut_point(raw: Seq<u8>, keep: nat)
    requires
        keep > 0,
        raw.len() > 0,
    ensures
        cut_point(raw, keep) < raw.len(),
        raw.len() - cut_point(raw, keep) <= MAX_RAW_BYTES,
        newlines(raw.skip(cut_point(raw, keep) as int)) <= keep,
        cut_point(raw, keep) >= line_cut(raw, keep),
{
    lemma_line_cut(raw, keep);
    let cut = line_cut(raw, keep);
    if raw.len() - cut > MAX_RAW_BYTES {
        let floor = (raw.len() - MAX_RAW_BYTES) as nat;
        lemma_next_line(raw, floor);
        let last = cut_point(raw, keep);
        let kept = raw.skip(cut as int);
        assert(kept =~= kept.take(last - cut) + raw.skip(last as int));
        lemma_newlines_add(kept.take(last - cut), raw.skip(last as int));
    }
}

/// Feeding a stream in two chunks gives what feeding it in one does.
pub proof fn lemma_normalised_add(a: Seq<u8>, b: Seq<u8>, cr: bool)
    ensures
        normalised(a + b, cr) == normalised(a, cr) + normalised(b, ends_on_cr(a, cr)),
        ends_on_cr(a + b, cr) == ends_on_cr(b, ends_on_cr(a, cr)),
    decreases b.len(),
{
    if b.len() == 0 {
        assert(a + b =~= a);
        assert(normalised(a, cr) + normalised(b, ends_on_cr(a, cr)) =~= normalised(a, cr));
    } else {
        let init = b.drop_last();
        assert((a + b).drop_last() =~= a + init);
        lemma_normalised_add(a, init, cr);
        assert(normalised(a + b, cr) =~= normalised(a, cr) + normalised(b, ends_on_cr(a, cr)));
    }
}

/// What the store writes when it changes hands, ahead of the row break, to keep
/// a dead container's emulator state off its successor.
///
/// The leading `ESC` aborts whatever sequence was left half written. Then, in
/// order: leave the alternate screen (`CSI ? 47 l`), reset the pen (`CSI m`),
/// and reset the scroll region (`CSI r`) with the cursor saved before (`ESC 7`)
/// and restored after it (`ESC 8`), because the reset homes the cursor; enter
/// and leave the alternate screen once more (`CSI ? 1049 h`, `CSI ? 1049 l`),
/// which clears it.
///
/// The pen is reset before the cursor is saved, because a save covers the pen;
/// and the save comes after the alternate screen is left, because each screen
/// has its own.
pub const HANDOVER: [u8; 32] = [
    27, 91, 63, 52, 55, 108,
    27, 91, 109,
    27, 55,
    27, 91, 114,
    27, 56,
    27, 91, 63, 49, 48, 52, 57, 104,
    27, 91, 63, 49, 48, 52, 57, 108,
];

/// The bytes of the handover.
pub open spec fn handover() -> Seq<u8> {
    HANDOVER@
}

/// A log store as a plain value.
#[verifier::ext_equal]
pub struct LogView {
    /// What the store's emulator has been given.
    pub inputs: Seq<EmulatorInput>,
    /// How many rows the view is scrolled back.
    pub offset: nat,
    /// Rows of scrollback that the store's screen retains.
    pub scrollback: nat,
    /// The normalised bytes that a rebuild replays.
    pub raw: Seq<u8>,
    /// Complete lines to keep of them.
    pub keep_lines: nat,
    /// Newlines in them.
    pub lines: nat,
    /// Whether the output so far ended on a carriage return.
    pub pending_cr: bool,
    /// The container whose output the store is holding.
    pub container: Seq<char>,
    /// Which attach to it the output is coming from.
    pub attach: u64,
    /// Whether the next resize must replay even at an unchanged size.
    pub replay_pending: bool,
    /// The styling active where `raw` begins.
    pub pen: Seq<u8>,
    /// Whether any output at all has been received.
    pub has_output: bool,
    /// Whether the emulator is the placeholder a release left behind.
    pub released: bool,
}

/// The smaller of two counts.
pub open spec fn least(a: nat, b: nat) -> nat {
    if a <= b {
        a
    } else {
        b
    }
}

impl LogView {
    /// What holds of every store.
    pub open spec fn wf(self) -> bool {
        self.sound() && self.carries()
    }

    /// Whether the carry says what the kept bytes do: whether they end on a
    /// carriage return.
    pub open spec fn carries(self) -> bool {
        self.pending_cr == ends_on_cr(self.raw, false)
    }

    /// What holds of every store, even between the handover to a new container
    /// and the row break behind it, where the carry is ahead of the kept bytes.
    pub open spec fn sound(self) -> bool {
        &&& crate::emulator::feedable(self.inputs)
        &&& self.offset <= self.depth() <= self.scrollback
        &&& !self.released ==> {
            &&& crate::emulator::capacity(self.inputs) == self.scrollback
            &&& self.keep_lines == lines_to_keep(self.scrollback, self.size().0)
        }
        &&& self.lines == newlines(self.raw)
        &&& self.raw.len() <= MAX_RAW_BYTES
        &&& self.keep_lines > 0
        &&& crate::emulator::only_styles(self.pen)
        &&& crate::emulator::pens_hold(crate::emulator::started(MIN_ROWS, MIN_COLS, 0))
        &&& self.replay_pending || crate::emulator::steady(self.inputs)
        &&& self.released ==> {
            &&& self.inputs == crate::emulator::started(MIN_ROWS, MIN_COLS, 0)
            &&& crate::emulator::blank(self.inputs)
            &&& self.offset == 0
            &&& self.replay_pending
            &&& self.replayable()
        }
    }

    /// Whether what the store was given can be brought back from its bytes.
    pub open spec fn replayable(self) -> bool {
        self.has_output ==> self.raw.len() > 0
    }

    /// How many rows lie in the scrollback.
    pub open spec fn depth(self) -> nat {
        crate::emulator::scrollback_depth(self.inputs)
    }

    /// The size of the screen, rows first.
    pub open spec fn size(self) -> (u16, u16) {
        crate::emulator::size(self.inputs)
    }

    /// An empty store with that much scrollback.
    pub open spec fn empty(scrollback: nat) -> LogView {
        LogView {
            inputs: crate::emulator::started(INITIAL_ROWS, INITIAL_COLS, scrollback as usize),
            offset: 0,
            scrollback,
            raw: Seq::empty(),
            keep_lines: lines_to_keep(scrollback, INITIAL_ROWS),
            lines: 0,
            pending_cr: false,
            container: Seq::empty(),
            attach: 0,
            replay_pending: false,
            pen: Seq::empty(),
            has_output: false,
            released: false,
        }
    }

    /// The store once `bytes` are added to what a rebuild replays. It is trimmed
    /// only where twice the line budget, or the ceiling, is passed.
    pub open spec fn retaining(self, bytes: Seq<u8>) -> LogView {
        let raw = self.raw + bytes;
        let lines = self.lines + newlines(bytes);
        if lines <= 2 * self.keep_lines && raw.len() <= MAX_RAW_BYTES {
            LogView { raw, lines, ..self }
        } else {
            let cut = cut_point(raw, self.keep_lines) as int;
            LogView {
                raw: raw.skip(cut),
                lines: (lines - newlines(raw.take(cut))) as nat,
                pen: if moves_the_pen(raw.take(cut)) {
                    pen_left_by(self.pen, raw.take(cut))
                } else {
                    self.pen
                },
                ..self
            }
        }
    }

    /// The store once it is given `bytes`.
    pub open spec fn processed(self, bytes: Seq<u8>) -> LogView {
        if bytes.len() == 0 {
            self
        } else {
            let text = normalised(bytes, self.pending_cr);
            let kept = LogView {
                pending_cr: ends_on_cr(bytes, self.pending_cr),
                has_output: true,
                ..self.retaining(text)
            };
            if self.released {
                kept
            } else {
                LogView {
                    inputs: crate::emulator::fed(self.inputs, text),
                    offset: crate::emulator::offset_then(self.inputs, self.offset, text),
                    ..kept
                }
            }
        }
    }

    /// The store with its view scrolled back `target` rows, or to the top.
    pub open spec fn scrolled_to(self, target: nat) -> LogView {
        LogView { offset: least(target, self.depth()), ..self }
    }

    /// The store once the handover is written: the carry and, where there is a
    /// screen to read, the reader's position are put back as they were.
    pub open spec fn handed_over(self) -> LogView {
        let written = LogView { pending_cr: self.pending_cr, ..self.processed(handover()) };
        if self.released {
            written
        } else {
            written.scrolled_to(self.offset)
        }
    }

    /// The store once it belongs to an attach to a container.
    pub open spec fn adopted(self, container: Seq<char>, attach: u64) -> LogView {
        if self.container == container && self.attach == attach {
            self
        } else {
            let named = LogView { container, attach, ..self };
            if self.raw.len() == 0 {
                named
            } else if self.raw.last() == LF {
                named.handed_over()
            } else {
                named.handed_over().processed(seq![LF])
            }
        }
    }

    /// What the emulator has been given that a rebuild at that size makes.
    pub open spec fn rebuilt(self, rows: u16, cols: u16) -> Seq<EmulatorInput> {
        crate::emulator::fed(
            crate::emulator::fed(
                crate::emulator::started(rows, cols, self.scrollback as usize),
                self.pen,
            ),
            self.raw,
        )
    }

    /// Whether a resize to a size, which is brought up to the floors, leaves the
    /// store as it is.
    pub open spec fn holds_size(self, rows: u16, cols: u16) -> bool {
        self.size() == (floored(rows, MIN_ROWS), floored(cols, MIN_COLS)) && !self.replay_pending
    }

    /// The store once it has the given size, brought up to the floors.
    pub open spec fn resized(self, rows: u16, cols: u16) -> LogView {
        let to_rows = floored(rows, MIN_ROWS);
        let to_cols = floored(cols, MIN_COLS);
        if self.holds_size(rows, cols) {
            self
        } else {
            let lost = self.size().0 - to_rows;
            let target = if lost <= 0 {
                self.offset
            } else if self.offset <= lost {
                0
            } else {
                (self.offset - lost) as nat
            };
            LogView {
                inputs: if self.replayable() {
                    self.rebuilt(to_rows, to_cols)
                } else {
                    crate::emulator::resized(self.inputs, to_rows, to_cols)
                },
                keep_lines: lines_to_keep(self.scrollback, to_rows),
                replay_pending: !self.replayable(),
                released: false,
                ..self
            }.scrolled_to(target)
        }
    }

    /// The store once its emulator is dropped.
    pub open spec fn without_screen(self) -> LogView {
        if self.released || !self.replayable() {
            self
        } else {
            LogView {
                inputs: crate::emulator::started(MIN_ROWS, MIN_COLS, 0),
                offset: 0,
                released: true,
                replay_pending: true,
                ..self
            }
        }
    }

    /// The text of each row from the top of the scrollback to the bottom of the
    /// screen.
    pub open spec fn row_texts(self) -> Seq<Seq<char>> {
        Seq::new(
            self.depth() + self.size().0 as nat,
            |i: int| crate::emulator::row_text(self.inputs, i),
        )
    }

    /// The whole text: the rows without the blank ones at the end, each with a
    /// newline behind it.
    pub open spec fn text(self) -> Seq<char> {
        as_text(without_blank_tail(self.row_texts()))
    }

    /// A cell in view; `None` where the screen has no such cell.
    pub open spec fn visible_cell(self, row: u16, col: u16) -> Option<CellView> {
        if row >= self.size().0 {
            None
        } else {
            crate::emulator::cell_at(self.inputs, self.depth() - self.offset + row, col)
        }
    }

    /// The text of each row in view.
    pub open spec fn visible_texts(self) -> Seq<Seq<char>> {
        Seq::new(
            self.size().0 as nat,
            |i: int| crate::emulator::row_text(self.inputs, self.depth() - self.offset + i),
        )
    }
}

/// What can be fed has rows to show.
pub proof fn lemma_feedable_rows(inputs: Seq<EmulatorInput>)
    requires
        crate::emulator::feedable(inputs),
    ensures
        crate::emulator::size(inputs).0 >= MIN_ROWS,
        MIN_COLS <= crate::emulator::size(inputs).1 <= MAX_COLS,
    decreases inputs.len(),
{
    if inputs.last() is Bytes {
        lemma_feedable_rows(inputs.drop_last());
    }
}

/// Whether a view that is scrolled back has stayed on what it showed while
/// output came in, `entered` rows of which have gone into the scrollback. The
/// offset absorbs them. What the view showed of the scrollback it still shows,
/// unless that has fallen out of a scrollback that is full.
pub open spec fn stays_put(before: LogView, after: LogView, entered: nat) -> bool {
    &&& after.offset == least(before.offset + entered, after.depth())
    &&& after.offset < before.offset + entered ==> after.depth() == after.scrollback
    &&& after.offset == before.offset + entered ==> forall|row: u16|
        row < before.size().0 && row < before.offset ==> {
            &&& #[trigger] after.visible_texts()[row as int] == before.visible_texts()[row as int]
            &&& forall|col: u16|
                after.visible_cell(row, col) == #[trigger] before.visible_cell(row, col)
        }
}

/// A view that has moved with the rows that entered the scrollback shows what it
/// showed.
proof fn lemma_stays_put(before: LogView, after: LogView, entered: nat, left: nat)
    requires
        before.offset <= before.depth(),
        crate::emulator::advanced(
            before.inputs,
            before.offset,
            after.inputs,
            after.offset,
            entered,
            left,
        ),
        crate::emulator::capacity(after.inputs) == after.scrollback,
        after.size() == before.size(),
    ensures
        stays_put(before, after, entered),
{
    if after.offset == before.offset + entered {
        assert forall|row: u16| row < before.size().0 && row < before.offset implies {
            &&& #[trigger] after.visible_texts()[row as int] == before.visible_texts()[row as int]
            &&& forall|col: u16|
                after.visible_cell(row, col) == #[trigger] before.visible_cell(row, col)
        } by {
            let i = before.depth() - before.offset + row;
            assert(left <= i < before.depth());
            assert(i - left == after.depth() - after.offset + row);
            assert(crate::emulator::row_text(after.inputs, i - left)
                == crate::emulator::row_text(before.inputs, i));
            assert forall|col: u16|
                after.visible_cell(row, col) == #[trigger] before.visible_cell(row, col) by {
                assert(crate::emulator::cell_at(after.inputs, i - left, col)
                    == crate::emulator::cell_at(before.inputs, i, col));
            }
        }
    }
}

/// Whether a store takes `a` and then `b` as it takes both at once. It does, be the
/// cut inside of a line, of a line break, of an escape sequence or of a character,
/// unless the emulator drops a byte of what it is fed because of the cut. A store
/// without a screen feeds nothing.
pub open spec fn clean_cut(store: LogView, a: Seq<u8>, b: Seq<u8>) -> bool {
    ||| a.len() == 0
    ||| b.len() == 0
    ||| store.released
    ||| crate::emulator::seamless(
        store.inputs,
        normalised(a, store.pending_cr),
        normalised(b, ends_on_cr(a, store.pending_cr)),
    )
}

/// Whether two stores look the same: they have the same screen and scrollback,
/// the same view of it, and say the same of whether there was any output. They
/// carry the same into the next write.
pub open spec fn same_screen(one: LogView, other: LogView) -> bool {
    &&& one.inputs == other.inputs
    &&& one.offset == other.offset
    &&& one.released == other.released
    &&& one.has_output == other.has_output
    &&& one.pending_cr == other.pending_cr
    &&& one.text() == other.text()
    &&& one.visible_texts() == other.visible_texts()
    &&& forall|row: u16, col: u16| #[trigger]
        one.visible_cell(row, col) == other.visible_cell(row, col)
}

/// Bytes with no newline among them are normalised to themselves.
pub proof fn lemma_plain(bytes: Seq<u8>, cr: bool, n: int)
    requires
        forall|i: int| 0 <= i < bytes.len() ==> bytes[i] != LF,
        0 <= n <= bytes.len(),
    ensures
        normalised(bytes.take(n), cr) == bytes.take(n),
        newlines(bytes.take(n)) == 0,
    decreases n,
{
    if n > 0 {
        lemma_plain(bytes, cr, n - 1);
        assert(bytes.take(n).drop_last() =~= bytes.take(n - 1));
        assert(bytes.take(n) =~= bytes.take(n - 1).push(bytes[n - 1]));
    } else {
        assert(bytes.take(0) =~= Seq::<u8>::empty());
    }
}

/// The handover is normalised to itself.
proof fn lemma_handover_text(cr: bool)
    ensures
        normalised(handover(), cr) == handover(),
{
    lemma_plain(handover(), cr, handover().len() as int);
    assert(handover().take(handover().len() as int) =~= handover());
}

/// Normalising leaves the last byte, and so whether it is a carriage return.
pub proof fn lemma_normalised_ends(bytes: Seq<u8>, cr: bool)
    ensures
        ends_on_cr(normalised(bytes, cr), cr) == ends_on_cr(bytes, cr),
        bytes.len() > 0 ==> normalised(bytes, cr).len() > 0 && normalised(bytes, cr).last()
            == bytes.last(),
{
    if bytes.len() > 0 {
        assert(normalised(bytes, cr).last() == bytes.last());
    }
}

/// Output that is cut cleanly gives the screen, the carry and the word of any
/// output that it gives in one write.
pub proof fn lemma_cut_screen(store: LogView, a: Seq<u8>, b: Seq<u8>)
    requires
        clean_cut(store, a, b),
    ensures
        store.processed(a).processed(b).inputs == store.processed(a + b).inputs,
        store.processed(a).processed(b).released == store.processed(a + b).released,
        store.processed(a).processed(b).has_output == store.processed(a + b).has_output,
        store.processed(a).processed(b).pending_cr == store.processed(a + b).pending_cr,
        store.offset == 0 ==> store.processed(a).processed(b).offset == 0 && store.processed(
            a + b,
        ).offset == 0,
{
    let cr = store.pending_cr;
    lemma_normalised_add(a, b, cr);
    if a.len() == 0 {
        assert(a + b =~= b);
    } else if b.len() == 0 {
        assert(a + b =~= a);
    } else if !store.released {
        crate::emulator::lemma_fed_twice(
            store.inputs,
            normalised(a, cr),
            normalised(b, ends_on_cr(a, cr)),
        );
    }
}

/// What a write leaves of the kept bytes, whatever the screen is.
pub proof fn lemma_process_kept(store: LogView, bytes: Seq<u8>)
    requires
        store.lines == newlines(store.raw),
        store.keep_lines > 0,
        bytes.len() > 0,
    ensures
        store.processed(bytes).raw.len() > 0,
        store.processed(bytes).raw.last() == bytes.last(),
        store.processed(bytes).lines == newlines(store.processed(bytes).raw),
        store.processed(bytes).carries(),
{
    let text = normalised(bytes, store.pending_cr);
    let raw = store.raw + text;
    lemma_normalised_ends(bytes, store.pending_cr);
    lemma_newlines_add(store.raw, text);
    if !(store.lines + newlines(text) <= 2 * store.keep_lines && raw.len() <= MAX_RAW_BYTES) {
        lemma_cut_point(raw, store.keep_lines);
        let cut = cut_point(raw, store.keep_lines) as int;
        assert(raw.take(cut) + raw.skip(cut) =~= raw);
        lemma_newlines_add(raw.take(cut), raw.skip(cut));
    }
}

/// A length brought up to a floor.
pub open spec fn floored(length: u16, floor: u16) -> u16 {
    if length < floor {
        floor
    } else {
        length
    }
}

/// Whether a character has the Unicode property `White_Space`.
pub open spec fn is_space(c: char) -> bool {
    ||| '\u{9}' <= c <= '\u{d}'
    ||| c == '\u{20}'
    ||| c == '\u{85}'
    ||| c == '\u{a0}'
    ||| c == '\u{1680}'
    ||| '\u{2000}' <= c <= '\u{200a}'
    ||| c == '\u{2028}'
    ||| c == '\u{2029}'
    ||| c == '\u{202f}'
    ||| c == '\u{205f}'
    ||| c == '\u{3000}'
}

/// Whether a character has the Unicode property `White_Space`.
fn char_is_space(c: char) -> (space: bool)
    ensures
        space == is_space(c),
{
    match c {
        '\u{9}'..='\u{d}' => true,
        '\u{20}' | '\u{85}' | '\u{a0}' | '\u{1680}' => true,
        '\u{2000}'..='\u{200a}' => true,
        '\u{2028}' | '\u{2029}' | '\u{202f}' | '\u{205f}' | '\u{3000}' => true,
        _ => false,
    }
}

/// Whether a line has nothing but white space on it.
pub open spec fn is_blank(line: Seq<char>) -> bool {
    forall|i: int| 0 <= i < line.len() ==> is_space(#[trigger] line[i])
}

/// `lines` without the blank ones at the end.
pub open spec fn without_blank_tail(lines: Seq<Seq<char>>) -> Seq<Seq<char>>
    decreases lines.len(),
{
    if lines.len() > 0 && is_blank(lines.last()) {
        without_blank_tail(lines.drop_last())
    } else {
        lines
    }
}

/// `lines` one after another, each with a newline behind it.
pub open spec fn as_text(lines: Seq<Seq<char>>) -> Seq<char>
    decreases lines.len(),
{
    if lines.len() == 0 {
        Seq::empty()
    } else {
        as_text(lines.drop_last()) + lines.last() + seq!['\n']
    }
}

/// Whether a line has nothing but white space on it.
fn line_is_blank(line: &String) -> (blank: bool)
    ensures
        blank == is_blank(line@),
{
    for c in chars: line.as_str().chars()
        invariant
            chars.seq() == line@,
            forall|i: int| 0 <= i < chars.index() ==> is_space(#[trigger] line@[i]),
    {
        if !char_is_space(c) {
            assert(!is_space(line@[chars.index()]));
            return false;
        }
    }
    true
}

/// `lines` one after another, each with a newline behind it.
fn lines_text(lines: &Vec<String>) -> (text: String)
    ensures
        text@ == as_text(lines@.map_values(|l: String| l@)),
{
    let ghost texts = lines@.map_values(|l: String| l@);
    let mut text: String = String::new();
    let mut i: usize = 0;
    while i < lines.len()
        invariant
            i <= lines@.len(),
            texts == lines@.map_values(|l: String| l@),
            text@ == as_text(texts.take(i as int)),
        decreases lines@.len() - i,
    {
        proof {
            reveal_strlit("\n");
            assert("\n"@ =~= seq!['\n']);
            assert(texts.take(i + 1).drop_last() =~= texts.take(i as int));
        }
        text.append(lines[i].as_str());
        text.append("\n");
        i += 1;
    }
    assert(texts.take(i as int) =~= texts);
    text
}

/// Whether `dropped` can have moved the pen away from wherever it stood.
///
/// Only an escape sequence changes the pen, and below `0x80` nothing but `ESC`
/// starts one. Bytes at or above `0x80` are left to the emulator.
pub fn can_move_the_pen(dropped: &[u8]) -> (moves: bool)
    ensures
        moves == moves_the_pen(dropped@),
{
    let mut i: usize = 0;
    while i < dropped.len()
        invariant
            i <= dropped@.len(),
            forall|j: int| 0 <= j < i ==> dropped@[j] != ESC && dropped@[j] < 128,
        decreases dropped@.len() - i,
    {
        if dropped[i] == ESC || dropped[i] >= 128 {
            assert(dropped@[i as int] == ESC || dropped@[i as int] >= 128);
            return true;
        }
        i += 1;
    }
    false
}

/// The escape sequence reproducing the styling left active after `prefix` and
/// then `dropped` are parsed.
///
/// It does nothing but set the styling, and stands for itself when it is parsed
/// in turn. Dropped bytes that cannot move the pen leave it where `prefix` put
/// it. Where `prefix` and `dropped` together do nothing but set the styling, what
/// is written after it looks as what is written after them.
pub fn pen_after(prefix: &[u8], dropped: &[u8]) -> (pen: Vec<u8>)
    ensures
        pen@ == pen_left_by(prefix@, dropped@),
        crate::emulator::only_styles(pen@),
        crate::emulator::styled_text(pen@),
        pen_left_by(pen@, Seq::empty()) == pen@,
        crate::emulator::styled_text(prefix@) && !moves_the_pen(dropped@) ==> pen@ == pen_left_by(
            prefix@,
            Seq::empty(),
        ),
        crate::emulator::only_styles(prefix@ + dropped@) ==> forall|c: u8|
            32 < c < 127 ==> #[trigger] written_after(pen@, Seq::empty(), c) == written_after(
                prefix@,
                dropped@,
                c,
            ),
{
    broadcast use crate::emulator::lemma_fed;

    let mut scratch = Emulator::new(MIN_ROWS, MIN_COLS, 0);
    let ghost start = crate::emulator::started(MIN_ROWS, MIN_COLS, 0);
    scratch.process(prefix);
    scratch.process(dropped);
    let pen: Vec<u8> = screen_pen(scratch.screen());
    proof {
        crate::emulator::lemma_only_styles(pen@);
        lemma_styled_start(prefix@);
        assert(crate::emulator::at_rest(start));
        assert(crate::emulator::fed(
            crate::emulator::fed(start, pen@),
            Seq::empty(),
        ) == crate::emulator::fed(start, pen@));
        if crate::emulator::styled_text(prefix@) && !moves_the_pen(dropped@) {
            assert(crate::emulator::plain_text(dropped@));
        }
        if crate::emulator::only_styles(prefix@ + dropped@) {
            lemma_styles_joined(prefix@, dropped@);
            assert(crate::emulator::unwritten(start));
        }
    }
    pen
}

/// A small emulator that is fed styled text is at rest.
proof fn lemma_styled_start(text: Seq<u8>)
    ensures
        crate::emulator::styled_text(text) ==> crate::emulator::at_rest(
            crate::emulator::fed(crate::emulator::started(MIN_ROWS, MIN_COLS, 0), text),
        ),
{
    let start = crate::emulator::started(MIN_ROWS, MIN_COLS, 0);
    assert(crate::emulator::at_rest(start));
    if text.len() > 0 {
        assert(crate::emulator::fed(start, text).drop_last() =~= start);
    }
}

/// Styles are ASCII.
proof fn lemma_styles_ascii(bytes: Seq<u8>)
    requires
        !(crate::emulator::reading(bytes, false) is Elsewhere),
    ensures
        forall|i: int| 0 <= i < bytes.len() ==> #[trigger] bytes[i] < 128,
    decreases bytes.len(),
{
    if bytes.len() > 0 {
        lemma_styles_ascii(bytes.drop_last());
        assert forall|i: int| 0 <= i < bytes.len() implies #[trigger] bytes[i] < 128 by {
            if i < bytes.len() - 1 {
                assert(bytes.drop_last()[i] < 128);
            }
        }
    }
}

/// Styles leave nothing written wherever they are cut.
proof fn lemma_styles_joined(prefix: Seq<u8>, dropped: Seq<u8>)
    requires
        crate::emulator::only_styles(prefix + dropped),
    ensures
        crate::emulator::unwritten(
            crate::emulator::fed(
                crate::emulator::fed(crate::emulator::started(MIN_ROWS, MIN_COLS, 0), prefix),
                dropped,
            ),
        ),
{
    let start = crate::emulator::started(MIN_ROWS, MIN_COLS, 0);
    lemma_styles_ascii(prefix + dropped);
    if prefix.len() > 0 {
        assert((prefix + dropped)[prefix.len() - 1] == prefix.last());
    }
    crate::emulator::lemma_fed_twice(start, prefix, dropped);
}

/// How many newlines `bytes` holds.
pub fn bytecount(bytes: &[u8]) -> (count: usize)
    ensures
        count == newlines(bytes@),
{
    let mut count: usize = 0;
    let mut i: usize = 0;
    while i < bytes.len()
        invariant
            i <= bytes@.len(),
            count <= i,
            count == newlines(bytes@.take(i as int)),
        decreases bytes@.len() - i,
    {
        assert(bytes@.take(i + 1).drop_last() =~= bytes@.take(i as int));
        if bytes[i] == LF {
            count += 1;
        }
        i += 1;
    }
    assert(bytes@.take(i as int) =~= bytes@);
    count
}

/// The lines to keep for that much scrollback behind a screen of `rows` rows.
pub fn keep_lines_for(scrollback: usize, rows: u16) -> (lines: usize)
    ensures
        lines == lines_to_keep(scrollback as nat, rows),
{
    let lines: usize = scrollback.saturating_add(rows as usize);
    if lines == 0 {
        1
    } else {
        lines
    }
}

/// What is kept of one service's output.
pub struct LogStore {
    pub emulator: Emulator,
    /// Rows of scrollback the emulator retains; needed to rebuild it.
    pub scrollback_len: usize,
    /// Normalised bytes as fed to the emulator, replayed when the size changes.
    pub raw: Vec<u8>,
    /// Complete lines to keep in `raw`.
    pub keep_lines: usize,
    /// Newlines currently in `raw`, tracked so trimming does not rescan.
    pub lines: usize,
    /// Whether the previous chunk ended on a carriage return, so a `\r\n` split
    /// across chunks isn't mistaken for a bare newline.
    pub pending_cr: bool,
    /// ID of the container whose output the store is currently holding; empty
    /// until the first adoption.
    pub container: String,
    /// Which attach to that container the output is coming from; zero until the
    /// first adoption.
    pub attach: u64,
    /// Set when the emulator holds a size it was never given content at, so the
    /// next resize replays instead of short-circuiting on the size.
    pub replay_pending: bool,
    /// The styling active where `raw` begins. Trimming drops the bytes that set
    /// it, so without this a replay would render in default colours.
    pub pen: Vec<u8>,
    /// True once any output at all has been received.
    pub has_output: bool,
    /// Whether the emulator is the placeholder a release left behind rather than
    /// this store's screen.
    pub released: bool,
}

impl View for LogStore {
    type V = LogView;

    open spec fn view(&self) -> LogView {
        LogView {
            inputs: crate::emulator::emulated(self.emulator),
            offset: crate::emulator::scrolled_back(self.emulator),
            scrollback: self.scrollback_len as nat,
            raw: self.raw@,
            keep_lines: self.keep_lines as nat,
            lines: self.lines as nat,
            pending_cr: self.pending_cr,
            container: self.container@,
            attach: self.attach,
            replay_pending: self.replay_pending,
            pen: self.pen@,
            has_output: self.has_output,
            released: self.released,
        }
    }
}

impl LogStore {
    /// Whether the store is in a state that its methods leave it in.
    pub open spec fn wf(&self) -> bool {
        self@.wf()
    }

    /// An empty store, at the size used before the first layout pass.
    pub fn new(scrollback: usize) -> (store: LogStore)
        ensures
            store.wf(),
            store@ == LogView::empty(scrollback as nat),
    {
        let emulator = Emulator::new(INITIAL_ROWS, INITIAL_COLS, scrollback);
        proof {
            crate::emulator::lemma_pens_alike(
                crate::emulator::emulated(emulator),
                crate::emulator::started(MIN_ROWS, MIN_COLS, 0),
            );
        }
        LogStore {
            emulator,
            scrollback_len: scrollback,
            raw: Vec::new(),
            keep_lines: keep_lines_for(scrollback, INITIAL_ROWS),
            lines: 0,
            pending_cr: false,
            container: String::new(),
            attach: 0,
            replay_pending: false,
            pen: Vec::new(),
            has_output: false,
            released: false,
        }
    }

    /// Whether any output has been received.
    pub fn has_output(&self) -> (has_output: bool)
        ensures
            has_output == self@.has_output,
    {
        self.has_output
    }

    /// The screen. A released store has none to read: what it holds is empty
    /// until a resize replays the store's bytes into it.
    pub fn screen(&self) -> (screen: &vt100::Screen)
        requires
            !self@.released,
        ensures
            crate::emulator::screen_inputs(*screen) == self@.inputs,
            crate::emulator::screen_offset(*screen) == self@.offset,
    {
        self.emulator.screen()
    }

    /// Turns a lone `\n` into `\r\n`, the way a terminal driver would.
    ///
    /// Output arrives in arbitrary chunks, so a `\r` can end one and its `\n`
    /// begin the next; the carry keeps that from gaining a second `\r`. This is
    /// the first step of a write: the carry is ahead of what is kept until the
    /// bytes are retained.
    pub fn normalise_newlines(&mut self, input: &[u8]) -> (out: Vec<u8>)
        ensures
            out@ == normalised(input@, old(self)@.pending_cr),
            final(self)@ == (LogView {
                pending_cr: ends_on_cr(input@, old(self)@.pending_cr),
                ..old(self)@
            }),
    {
        let mut out: Vec<u8> = Vec::new();
        let mut prev_cr: bool = self.pending_cr;
        let mut i: usize = 0;
        while i < input.len()
            invariant
                i <= input@.len(),
                *self == *old(self),
                out@ == normalised(input@.take(i as int), old(self).pending_cr),
                prev_cr == ends_on_cr(input@.take(i as int), old(self).pending_cr),
            decreases input@.len() - i,
        {
            assert(input@.take(i + 1).drop_last() =~= input@.take(i as int));
            let byte: u8 = input[i];
            if byte == LF && !prev_cr {
                out.push(CR);
            }
            out.push(byte);
            prev_cr = byte == CR;
            i += 1;
        }
        assert(input@.take(i as int) =~= input@);
        self.pending_cr = prev_cr;
        out
    }

    /// Where to cut so the newest `keep_lines` lines survive, without letting
    /// the buffer past its ceiling.
    fn trim_point(&self) -> (cut: usize)
        ensures
            cut == cut_point(self.raw@, self.keep_lines as nat),
    {
        let len: usize = self.raw.len();
        let mut cut: usize = 0;
        let mut keep: usize = self.keep_lines;
        let mut index: usize = len;
        assert(self.raw@.take(len as int) =~= self.raw@);
        while index > 0
            invariant_except_break
                cut == 0,
                line_cut(self.raw@, self.keep_lines as nat) == line_cut(
                    self.raw@.take(index as int),
                    keep as nat,
                ),
            invariant
                index <= len,
                len == self.raw@.len(),
            ensures
                cut == line_cut(self.raw@, self.keep_lines as nat),
            decreases index,
        {
            let ghost before = self.raw@.take(index as int);
            assert(before.drop_last() =~= self.raw@.take(index - 1));
            if self.raw[index - 1] == LF {
                if keep == 0 {
                    cut = index;
                    break;
                }
                keep -= 1;
            }
            index -= 1;
        }
        proof {
            lemma_line_cut(self.raw@, self.keep_lines as nat);
        }
        if len - cut <= MAX_RAW_BYTES {
            return cut;
        }
        let floor: usize = len - MAX_RAW_BYTES;
        let mut at: usize = floor;
        while at < len
            invariant
                floor <= at <= len,
                len == self.raw@.len(),
                next_line(self.raw@, floor as nat) == next_line(self.raw@, at as nat),
                len - line_cut(self.raw@, self.keep_lines as nat) > MAX_RAW_BYTES,
                floor == len - MAX_RAW_BYTES,
            decreases len - at,
        {
            if self.raw[at] == LF {
                return if at + 1 < len {
                    at + 1
                } else {
                    floor
                };
            }
            at += 1;
        }
        floor
    }

    /// Keeps the output needed to rewrap on resize.
    ///
    /// Trimming scans the buffer, so it runs once the surplus is worth the scan
    /// rather than on every write. This is the second step of a write.
    pub fn retain(&mut self, bytes: &[u8])
        requires
            old(self)@.lines == newlines(old(self)@.raw),
            old(self)@.keep_lines > 0,
        ensures
            final(self)@ == old(self)@.retaining(bytes@),
            crate::emulator::only_styles(old(self)@.pen) ==> crate::emulator::only_styles(
                final(self)@.pen,
            ),
            old(self)@.raw.len() + bytes@.len() > 0 ==> final(self)@.raw.len() > 0,
            final(self)@.raw.len() <= MAX_RAW_BYTES,
            final(self)@.lines == newlines(final(self)@.raw),
            final(self)@.lines <= 2 * final(self)@.keep_lines,
            final(self)@.raw.is_suffix_of(old(self)@.raw + bytes@),
    {
        proof {
            crate::store_laws::law_retaining(self@, bytes@);
        }
        self.raw.extend_from_slice(bytes);
        assert(self.raw@ =~= old(self).raw@ + bytes@);
        assert(self.raw.len() == self.raw@.len());
        proof {
            lemma_newlines_add(old(self).raw@, bytes@);
            lemma_newlines_bound(self.raw@);
        }
        self.lines += bytecount(bytes);

        let comfortable: bool = self.lines <= self.keep_lines || self.lines - self.keep_lines
            <= self.keep_lines;
        if comfortable && self.raw.len() <= MAX_RAW_BYTES {
            return;
        }
        let cut: usize = self.trim_point();
        let ghost raw = self.raw@;
        proof {
            lemma_cut_point(raw, self.keep_lines as nat);
            assert(raw.take(cut as int) + raw.skip(cut as int) =~= raw);
            lemma_newlines_add(raw.take(cut as int), raw.skip(cut as int));
        }
        if cut == 0 {
            assert(raw.skip(0) =~= raw);
            return;
        }
        let tail: Vec<u8> = self.raw.split_off(cut);
        assert(self.raw@ =~= raw.take(cut as int));
        assert(tail@ =~= raw.skip(cut as int));
        if can_move_the_pen(&self.raw) {
            self.pen = pen_after(&self.pen, &self.raw);
        }
        self.lines -= bytecount(&self.raw);
        self.raw = tail;
    }

    /// Feeds raw container output to the emulator, or past it while released.
    ///
    /// A view at offset 0 keeps tailing. A view that stays scrolled up stays on
    /// the content it is showing, because the emulator advances the offset as
    /// rows enter the scrollback.
    ///
    /// Where the output was cut into writes makes no difference to the screen,
    /// nor to where the view is, unless the emulator drops a byte at a cut.
    pub fn process(&mut self, bytes: &[u8])
        requires
            old(self).wf(),
        ensures
            final(self).wf(),
            final(self)@ == old(self)@.processed(bytes@),
            old(self)@.offset == 0 ==> final(self)@.offset == 0,
            final(self)@.offset > 0 ==> exists|entered: nat|
                stays_put(old(self)@, final(self)@, entered),
            forall|a: Seq<u8>, b: Seq<u8>|
                bytes@ == #[trigger] (a + b) && clean_cut(old(self)@, a, b) ==> same_screen(
                    old(self)@.processed(a).processed(b),
                    final(self)@,
                ),
            old(self)@.replayable() ==> final(self)@.replayable(),
    {
        self.absorb(bytes);
        proof {
            if bytes@.len() > 0 {
                lemma_process_kept(old(self)@, bytes@);
            }
        }
    }

    /// Feeds raw container output to the emulator, whatever the carry is.
    fn absorb(&mut self, bytes: &[u8])
        requires
            old(self)@.sound(),
        ensures
            final(self)@.sound(),
            bytes@ == handover() && old(self)@.offset > 0 ==> final(self)@.depth()
                == old(self)@.depth(),
            final(self)@ == old(self)@.processed(bytes@),
            old(self)@.offset == 0 ==> final(self)@.offset == 0,
            final(self)@.offset > 0 ==> exists|entered: nat|
                stays_put(old(self)@, final(self)@, entered),
            forall|a: Seq<u8>, b: Seq<u8>|
                bytes@ == #[trigger] (a + b) && clean_cut(old(self)@, a, b) ==> same_screen(
                    old(self)@.processed(a).processed(b),
                    final(self)@,
                ),
            old(self)@.replayable() ==> final(self)@.replayable(),
    {
        broadcast use crate::emulator::lemma_fed;

        // An empty write is not output: marking it as such would replace the
        // "waiting" placeholder with a blank pane.
        if bytes.len() == 0 {
            assert(stays_put(self@, self@, 0));
            assert forall|a: Seq<u8>, b: Seq<u8>|
                bytes@ == #[trigger] (a + b) && clean_cut(old(self)@, a, b) implies same_screen(
                old(self)@.processed(a).processed(b),
                self@,
            ) by {
                assert(a.len() == 0 && b.len() == 0);
            }
            return;
        }
        let text: Vec<u8> = self.normalise_newlines(bytes);
        proof {
            lemma_normalised_len(bytes@, old(self)@.pending_cr);
            lemma_handover_text(old(self)@.pending_cr);
        }
        self.retain(&text);
        if !self.released {
            self.emulator.process(&text);
        }
        self.has_output = true;
        assert(self@ =~= old(self)@.processed(bytes@));
        proof {
            if self@.offset > 0 {
                let (entered, left) = choose|entered: nat, left: nat|
                    crate::emulator::advanced(
                        old(self)@.inputs,
                        old(self)@.offset,
                        self@.inputs,
                        self@.offset,
                        entered,
                        left,
                    );
                lemma_stays_put(old(self)@, self@, entered, left);
            }
            assert forall|a: Seq<u8>, b: Seq<u8>|
                bytes@ == #[trigger] (a + b) && clean_cut(old(self)@, a, b) implies same_screen(
                old(self)@.processed(a).processed(b),
                self@,
            ) by {
                lemma_cut_screen(old(self)@, a, b);
                let cr = old(self)@.pending_cr;
                lemma_normalised_add(a, b, cr);
                if a.len() == 0 {
                    assert(a + b =~= b);
                } else if b.len() == 0 {
                    assert(a + b =~= a);
                } else if !old(self)@.released {
                    let first = normalised(a, cr);
                    let second = normalised(b, ends_on_cr(a, cr));
                    lemma_normalised_len(a, cr);
                    assert(text@ == first + second);
                }
            }
        }
    }

    /// Hands the store to one attach to one container, ending the row and the
    /// emulator state the previous one left behind.
    ///
    /// A store outlives the container it was filled from, so that a pane keeps
    /// its history when the container behind it is recreated; and the same
    /// container can be attached to again while a row is part way along. Nothing
    /// is discarded: what resets the emulator, and the row break, are written
    /// into the stream like any output, so that a replay repeats them.
    ///
    /// A store nothing has been written to has no row to end and is given
    /// nothing. The reader's scroll position and the carriage return carry are
    /// not the container's, and stay.
    pub fn adopt(&mut self, container: &str, attach: u64)
        requires
            old(self).wf(),
        ensures
            final(self).wf(),
            final(self)@ == old(self)@.adopted(container@, attach),
            old(self)@.offset == 0 ==> final(self)@.offset == 0,
            old(self)@.raw.len() == 0 || old(self)@.raw.last() == LF ==> final(self)@.offset
                == old(self)@.offset,
            old(self)@.raw.len() > 0 && !(old(self)@.container == container@ && old(self)@.attach
                == attach) ==> {
                let handed = (LogView { container: container@, attach, ..old(self)@ }).handed_over();
                &&& handed.offset == old(self)@.offset
                &&& final(self)@.offset > 0 ==> exists|entered: nat|
                    stays_put(handed, final(self)@, entered)
            },
            old(self)@.replayable() ==> final(self)@.replayable(),
    {
        let container: String = container.to_owned();
        if self.container == container && self.attach == attach {
            return;
        }
        self.container = container;
        self.attach = attach;
        if self.raw.len() == 0 {
            assert(self@ =~= old(self)@.adopted(container@, attach));
            return;
        }
        // Read before anything is written, because the handover appends.
        let last: u8 = self.raw[self.raw.len() - 1];
        let carry: bool = self.pending_cr;
        let ghost named = self@;
        if self.released {
            self.absorb(&HANDOVER);
        } else {
            let offset: usize = self.scroll_offset();
            self.absorb(&HANDOVER);
            self.emulator.set_scrollback(offset);
        }
        self.pending_cr = carry;
        assert(self@ =~= named.handed_over());
        assert(self@.offset == old(self)@.offset);
        assert(stays_put(self@, self@, 0));
        proof {
            lemma_process_kept(named, handover());
        }
        if last != LF {
            let row_break: Vec<u8> = vec![LF];
            assert(row_break@ =~= seq![LF]);
            proof {
                lemma_process_kept(self@, seq![LF]);
            }
            self.absorb(&row_break);
        }
    }

    /// Resizes the emulated terminal to the pane's inner area.
    ///
    /// Any size change rebuilds the emulator and replays the retained bytes: it
    /// keeps rows at the width they arrived at, and loses the newest lines when
    /// it is made shorter in place. Where there is output but nothing retained
    /// to replay, the screen is kept and resized in place; that must not make it
    /// narrower.
    pub fn resize(&mut self, rows: u16, cols: u16)
        requires
            old(self).wf(),
            cols <= MAX_COLS,
            old(self)@.replayable() || old(self)@.size().1 <= floored(cols, MIN_COLS),
        ensures
            final(self).wf(),
            final(self)@ == old(self)@.resized(rows, cols),
            final(self)@.size() == (floored(rows, MIN_ROWS), floored(cols, MIN_COLS)),
            !final(self)@.released,
    {
        broadcast use {crate::emulator::lemma_fed, crate::emulator::lemma_resized};

        let rows: u16 = if rows < MIN_ROWS { MIN_ROWS } else { rows };
        let cols: u16 = if cols < MIN_COLS { MIN_COLS } else { cols };
        let (cur_rows, cur_cols): (u16, u16) = screen_size(self.emulator.screen());

        // A pending replay has to defeat this, or a resize back to a size that
        // was applied without one would never replay at all.
        if cur_rows == rows && cur_cols == cols && !self.replay_pending {
            return;
        }
        // More visible rows means more history to be able to reproduce.
        self.keep_lines = keep_lines_for(self.scrollback_len, rows);

        let old_offset: usize = screen_scrollback(self.emulator.screen());

        if self.raw.len() == 0 && self.has_output {
            self.emulator.set_size(rows, cols);
            self.replay_pending = true;
        } else {
            let mut rebuilt = Emulator::new(rows, cols, self.scrollback_len);
            rebuilt.process(&self.pen);
            rebuilt.process(&self.raw);
            self.emulator = rebuilt;
            self.replay_pending = false;
        }
        self.released = false;

        // Losing height moves the bottom of the window up under a scrolled-up
        // reader, so pull the offset back by the rows lost.
        let target: usize = if rows < cur_rows && old_offset > 0 {
            old_offset.saturating_sub((cur_rows - rows) as usize)
        } else {
            old_offset
        };
        self.emulator.set_scrollback(target);
        assert(self@ =~= old(self)@.resized(rows, cols));
    }

    /// Drops the emulator, keeping the bytes needed to rebuild it.
    ///
    /// A filled grid is many times the size of the bytes it was built from, and
    /// a service no pane is showing holds it for nobody. The scroll position
    /// does not survive; everything else is left alone. The grid that is left is
    /// the smallest there is, and blank.
    pub fn release(&mut self)
        requires
            old(self).wf(),
        ensures
            final(self).wf(),
            final(self)@ == old(self)@.without_screen(),
            final(self)@.released <==> old(self)@.released || old(self)@.replayable(),
            final(self)@.released ==> final(self)@.size() == (MIN_ROWS, MIN_COLS)
                && crate::emulator::blank(final(self)@.inputs),
    {
        // Most calls land on a store that is already released.
        if self.released {
            return;
        }
        // Rebuilding from nothing would blank a pane that has content.
        if self.raw.len() == 0 && self.has_output {
            return;
        }
        self.emulator = Emulator::new(MIN_ROWS, MIN_COLS, 0);
        self.released = true;
        // A pane at the minimum geometry would otherwise short-circuit the
        // resize and show this empty grid as the service's output.
        self.replay_pending = true;
    }

    /// Rows scrolled back from the bottom. `0` means tailing.
    pub fn scroll_offset(&self) -> (offset: usize)
        requires
            !self@.released,
        ensures
            offset == self@.offset,
    {
        screen_scrollback(self.screen())
    }

    /// Scrolls up by `lines` rows, or to the top.
    pub fn scroll_up(&mut self, lines: u16)
        requires
            old(self).wf(),
            !old(self)@.released,
        ensures
            final(self).wf(),
            final(self)@ == old(self)@.scrolled_to(old(self)@.offset + lines as nat),
    {
        let target: usize = self.scroll_offset().saturating_add(lines as usize);
        self.emulator.set_scrollback(target);
        assert(self@ =~= old(self)@.scrolled_to(old(self)@.offset + lines as nat));
    }

    /// Scrolls down by `lines` rows, or to the bottom.
    pub fn scroll_down(&mut self, lines: u16)
        requires
            old(self).wf(),
            !old(self)@.released,
        ensures
            final(self).wf(),
            final(self)@ == old(self)@.scrolled_to(
                if old(self)@.offset <= lines {
                    0
                } else {
                    (old(self)@.offset - lines) as nat
                },
            ),
    {
        let target: usize = self.scroll_offset().saturating_sub(lines as usize);
        self.emulator.set_scrollback(target);
    }

    /// Scrolls to the oldest row retained.
    pub fn scroll_to_top(&mut self)
        requires
            old(self).wf(),
            !old(self)@.released,
        ensures
            final(self).wf(),
            final(self)@ == old(self)@.scrolled_to(old(self)@.depth()),
    {
        self.emulator.set_scrollback(usize::MAX);
    }

    /// Scrolls to the live output.
    pub fn scroll_to_bottom(&mut self)
        requires
            old(self).wf(),
            !old(self)@.released,
        ensures
            final(self).wf(),
            final(self)@ == old(self)@.scrolled_to(0),
    {
        self.emulator.set_scrollback(0);
    }

    /// The full retained buffer as plain text, for clipboard copy.
    ///
    /// Walks the scrollback from the top down. Each window overlaps the next by
    /// all but `advance` rows, so only the first `advance` rows of each window
    /// are new.
    pub fn all_text(&mut self) -> (text: String)
        requires
            old(self).wf(),
            !old(self)@.released,
        ensures
            text@ == old(self)@.text(),
            final(self).wf(),
            final(self)@ == old(self)@,
    {
        let saved: usize = self.scroll_offset();
        let (rows, cols): (u16, u16) = screen_size(self.screen());
        let ghost view = old(self)@;
        let ghost depth = view.depth();
        proof {
            lemma_feedable_rows(view.inputs);
        }
        self.emulator.set_scrollback(usize::MAX);
        let mut offset: usize = self.scroll_offset();
        let mut lines: Vec<String> = Vec::new();
        while offset > 0
            invariant
                rows >= MIN_ROWS,
                view.size() == (rows, cols),
                depth == view.depth(),
                offset <= depth <= usize::MAX,
                lines@.len() == depth - offset,
                forall|i: int|
                    0 <= i < lines@.len() ==> (#[trigger] lines@[i])@ == view.row_texts()[i],
                self@ == (LogView { offset: self@.offset, ..view }),
                !view.released,
            decreases offset,
        {
            self.emulator.set_scrollback(offset);
            let mut window: Vec<String> = screen_rows(self.screen(), cols);
            let advance: usize = if (rows as usize) < offset { rows as usize } else { offset };
            window.truncate(advance);
            lines.append(&mut window);
            offset -= advance;
        }
        self.emulator.set_scrollback(0);
        let mut window: Vec<String> = screen_rows(self.screen(), cols);
        lines.append(&mut window);
        self.emulator.set_scrollback(saved);
        assert(self@ =~= old(self)@);

        let ghost texts = view.row_texts();
        assert(lines@.map_values(|l: String| l@) =~= texts);
        assert(texts.take(lines@.len() as int) =~= texts);
        while lines.len() > 0 && line_is_blank(&lines[lines.len() - 1])
            invariant
                lines@.len() <= texts.len(),
                lines@.map_values(|l: String| l@) == texts.take(lines@.len() as int),
                without_blank_tail(texts) == without_blank_tail(texts.take(lines@.len() as int)),
            decreases lines@.len(),
        {
            assert(texts.take(lines@.len() as int).drop_last() =~= texts.take(lines@.len() - 1));
            let _blank = lines.pop();
            assert(lines@.map_values(|l: String| l@) =~= texts.take(lines@.len() as int));
        }
        lines_text(&lines)
    }

    /// Whether the last row of the screen is blank: the cursor rests there after
    /// output that ended its line.
    pub fn tail_row_blank(&mut self) -> (blank: bool)
        requires
            old(self).wf(),
            !old(self)@.released,
        ensures
            blank == is_blank(old(self)@.row_texts().last()),
            final(self).wf(),
            final(self)@ == old(self)@,
    {
        proof {
            lemma_feedable_rows(self@.inputs);
        }
        let saved: usize = self.scroll_offset();
        let (rows, cols): (u16, u16) = screen_size(self.screen());
        self.emulator.set_scrollback(0);
        let window: Vec<String> = screen_rows(self.screen(), cols);
        let blank: bool = line_is_blank(&window[rows as usize - 1]);
        self.emulator.set_scrollback(saved);
        assert(self@ =~= old(self)@);
        blank
    }

    /// The size of the screen, rows first.
    pub fn size(&self) -> (size: (u16, u16))
        requires
            !self@.released,
        ensures
            size == self@.size(),
    {
        screen_size(self.screen())
    }

    /// A cell in view, where the screen has it.
    pub fn cell(&self, row: u16, col: u16) -> (cell: Option<ScreenCell>)
        requires
            !self@.released,
        ensures
            (match cell {
                Some(c) => Some(c@),
                None => None,
            }) == self@.visible_cell(row, col),
    {
        screen_cell(self.screen(), row, col)
    }

    /// Visible rows as plain strings.
    pub fn visible_lines(&self) -> (lines: Vec<String>)
        requires
            !self@.released,
        ensures
            lines@.len() == self@.visible_texts().len(),
            forall|i: int|
                0 <= i < lines@.len() ==> (#[trigger] lines@[i])@ == self@.visible_texts()[i],
    {
        let screen = self.screen();
        let (_rows, cols): (u16, u16) = screen_size(screen);
        screen_rows(screen, cols)
    }

    /// The emulator's grid whatever state it is in, released included.
    pub fn released_grid(&self) -> (screen: &vt100::Screen)
        ensures
            crate::emulator::screen_inputs(*screen) == self@.inputs,
            crate::emulator::screen_offset(*screen) == self@.offset,
    {
        self.emulator.screen()
    }
}

/// Normalising drops nothing.
pub proof fn lemma_normalised_len(bytes: Seq<u8>, cr: bool)
    ensures
        bytes.len() <= normalised(bytes, cr).len() <= 2 * bytes.len(),
    decreases bytes.len(),
{
    if bytes.len() > 0 {
        lemma_normalised_len(bytes.drop_last(), cr);
    }
}

} // verus!
