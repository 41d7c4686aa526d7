//! What holds of a log store over several of its operations.
use vstd::prelude::*;

use crate::emulator::{MIN_COLS, MIN_ROWS};
use crate::store::{LogView, CR, LF, MAX_RAW_BYTES};

verus! {

/// Every newline that reaches the emulator has a carriage return in front of it,
/// the one carried over from the chunk before counted in; and the newlines are
/// those of the output.
pub proof fn law_no_bare_newline(bytes: Seq<u8>, cr: bool)
    ensures
        forall|i: int|
            0 <= i < crate::store::normalised(bytes, cr).len() && #[trigger] crate::store::normalised(
                bytes,
                cr,
            )[i] == LF ==> crate::store::ends_on_cr(
                crate::store::normalised(bytes, cr).take(i),
                cr,
            ),
        crate::store::newlines(crate::store::normalised(bytes, cr)) == crate::store::newlines(
            bytes,
        ),
    decreases bytes.len(),
{
    crate::store::lemma_normalised_ends(bytes, cr);
    if bytes.len() > 0 {
        let before = bytes.drop_last();
        law_no_bare_newline(before, cr);
        crate::store::lemma_normalised_ends(before, cr);
        let old = crate::store::normalised(before, cr);
        let new = crate::store::normalised(bytes, cr);
        assert forall|i: int| 0 <= i < new.len() && #[trigger] new[i] == LF implies
            crate::store::ends_on_cr(new.take(i), cr) by {
            if i < old.len() {
                assert(new.take(i) =~= old.take(i));
                assert(old[i] == LF);
            } else if bytes.last() == LF && !crate::store::ends_on_cr(before, cr) {
                assert(i == old.len() + 1);
                assert(new.take(i) =~= old.push(CR));
            } else {
                assert(new.take(i) =~= old);
            }
        }
        if bytes.last() == LF && !crate::store::ends_on_cr(before, cr) {
            assert(new.drop_last() =~= old.push(CR));
            assert(old.push(CR).drop_last() =~= old);
            assert(crate::store::newlines(old.push(CR)) == crate::store::newlines(old));
        } else {
            assert(new.drop_last() =~= old);
        }
    }
}

/// What has been normalised is left alone when it is normalised again.
pub proof fn law_normalising_twice(bytes: Seq<u8>, cr: bool)
    ensures
        crate::store::normalised(crate::store::normalised(bytes, cr), cr)
            == crate::store::normalised(bytes, cr),
    decreases bytes.len(),
{
    if bytes.len() > 0 {
        let before = bytes.drop_last();
        law_normalising_twice(before, cr);
        crate::store::lemma_normalised_ends(before, cr);
        let old = crate::store::normalised(before, cr);
        let new = crate::store::normalised(bytes, cr);
        if bytes.last() == LF && !crate::store::ends_on_cr(before, cr) {
            assert(new.drop_last() =~= old.push(CR));
            assert(old.push(CR).drop_last() =~= old);
            assert(crate::store::normalised(old.push(CR), cr) == old.push(CR));
        } else {
            assert(new.drop_last() =~= old);
        }
    }
}

/// Where output is cut makes no difference to what it is normalised to, be it
/// between a carriage return and its newline.
pub proof fn law_cut_newline(a: Seq<u8>, b: Seq<u8>, cr: bool)
    ensures
        crate::store::normalised(a, cr) + crate::store::normalised(
            b,
            crate::store::ends_on_cr(a, cr),
        ) == crate::store::normalised(a + b, cr),
        crate::store::ends_on_cr(b, crate::store::ends_on_cr(a, cr)) == crate::store::ends_on_cr(
            a + b,
            cr,
        ),
{
    crate::store::lemma_normalised_add(a, b, cr);
}

/// A store that has been given several chunks, one after another.
pub open spec fn given_all(store: LogView, chunks: Seq<Seq<u8>>) -> LogView
    decreases chunks.len(),
{
    if chunks.len() == 0 {
        store
    } else {
        given_all(store.processed(chunks[0]), chunks.drop_first())
    }
}

/// Whether a store can take `bytes` without being trimmed.
pub open spec fn has_room(store: LogView, bytes: Seq<u8>) -> bool {
    let text = crate::store::normalised(bytes, store.pending_cr);
    &&& store.lines + crate::store::newlines(text) <= 2 * store.keep_lines
    &&& store.raw.len() + text.len() <= MAX_RAW_BYTES
}

/// Whether a store takes the chunks of a stream one after another as it takes them
/// at once: each of them goes on cleanly from those before it.
pub open spec fn clean_cuts(store: LogView, chunks: Seq<Seq<u8>>) -> bool {
    forall|i: int|
        0 < i < chunks.len() ==> #[trigger] crate::store::clean_cut(
            store,
            crate::stream::joined(chunks.take(i)),
            chunks[i],
        )
}

/// Where a stream is cut into chunks makes no difference to the carry, nor to
/// whether there was any output. It makes none to the bytes that are kept of it,
/// as long as none of them is trimmed. And it makes none to the screen and the
/// text on it, nor to a view that is tailing it, trimmed or not, be a cut inside
/// of a line break, of an escape sequence or of a character, as long as the
/// emulator drops no byte at a cut.
pub proof fn law_chunks(store: LogView, chunks: Seq<Seq<u8>>)
    requires
        store.sound(),
    ensures
        ({
            let cut = given_all(store, chunks);
            let whole = store.processed(crate::stream::joined(chunks));
            &&& cut.pending_cr == whole.pending_cr
            &&& cut.has_output == whole.has_output
            &&& has_room(store, crate::stream::joined(chunks)) ==> {
                &&& cut.raw == whole.raw
                &&& cut.lines == whole.lines
                &&& cut.pen == whole.pen
            }
            &&& clean_cuts(store, chunks) ==> {
                &&& cut.inputs == whole.inputs
                &&& cut.row_texts() == whole.row_texts()
                &&& cut.text() == whole.text()
                &&& store.offset == 0 ==> crate::store::same_screen(cut, whole)
            }
        }),
{
    lemma_given_all(store, chunks);
    if clean_cuts(store, chunks) {
        lemma_clean_cuts(store, chunks);
    }
}

/// A cut drops nothing unless it goes through a character of two bytes: a stream
/// whose chunks end on none of their first bytes is cut cleanly, where what came
/// before it does not either.
pub proof fn law_clean_cuts(store: LogView, chunks: Seq<Seq<u8>>)
    requires
        store.wf(),
        !store.replay_pending,
        forall|i: int|
            0 <= i < chunks.len() && (#[trigger] chunks[i]).len() > 0 ==> !(0xC2
                <= chunks[i].last() <= 0xDF),
        store.inputs.last() matches crate::emulator::EmulatorInput::Bytes(bytes) ==> !(bytes.len()
            > 0 && 0xC2 <= bytes.last() <= 0xDF),
    ensures
        clean_cuts(store, chunks),
{
    assert forall|i: int| 0 < i < chunks.len() implies #[trigger] crate::store::clean_cut(
        store,
        crate::stream::joined(chunks.take(i)),
        chunks[i],
    ) by {
        let before = crate::stream::joined(chunks.take(i));
        if before.len() > 0 {
            lemma_joined_last(chunks.take(i));
            crate::store::lemma_normalised_ends(before, store.pending_cr);
        }
    }
}

/// The last byte of a stream is that of one of its chunks.
proof fn lemma_joined_last(chunks: Seq<Seq<u8>>)
    requires
        crate::stream::joined(chunks).len() > 0,
    ensures
        exists|i: int|
            0 <= i < chunks.len() && (#[trigger] chunks[i]).len() > 0 && chunks[i].last()
                == crate::stream::joined(chunks).last(),
    decreases chunks.len(),
{
    let rest = chunks.drop_first();
    if crate::stream::joined(rest).len() > 0 {
        lemma_joined_last(rest);
        let i = choose|i: int|
            0 <= i < rest.len() && (#[trigger] rest[i]).len() > 0 && rest[i].last()
                == crate::stream::joined(rest).last();
        assert(chunks[i + 1] == rest[i]);
    } else {
        assert(chunks[0].len() > 0);
    }
}

/// The last chunk comes last.
proof fn lemma_last_chunk(store: LogView, chunks: Seq<Seq<u8>>)
    requires
        chunks.len() > 0,
    ensures
        given_all(store, chunks) == given_all(store, chunks.drop_last()).processed(chunks.last()),
        crate::stream::joined(chunks) == crate::stream::joined(chunks.drop_last()) + chunks.last(),
    decreases chunks.len(),
{
    let rest = chunks.drop_first();
    if rest.len() > 0 {
        lemma_last_chunk(store.processed(chunks[0]), rest);
        assert(rest.drop_last() =~= chunks.drop_last().drop_first());
        assert(chunks[0] + (crate::stream::joined(rest.drop_last()) + chunks.last()) =~= chunks[0]
            + crate::stream::joined(rest.drop_last()) + chunks.last());
    } else {
        let none = chunks.drop_last();
        assert(none.len() == 0);
        assert(crate::stream::joined(rest) =~= Seq::<u8>::empty());
        assert(chunks[0] + Seq::<u8>::empty() =~= Seq::<u8>::empty() + chunks.last());
        assert(given_all(store.processed(chunks[0]), rest) == store.processed(chunks[0]));
    }
}

/// What the chunks of a stream that is cut cleanly leave of the screen.
proof fn lemma_clean_cuts(store: LogView, chunks: Seq<Seq<u8>>)
    requires
        clean_cuts(store, chunks),
    ensures
        given_all(store, chunks).inputs == store.processed(crate::stream::joined(chunks)).inputs,
        given_all(store, chunks).released == store.processed(
            crate::stream::joined(chunks),
        ).released,
        given_all(store, chunks).pending_cr == store.processed(
            crate::stream::joined(chunks),
        ).pending_cr,
        store.offset == 0 ==> given_all(store, chunks).offset == 0 && store.processed(
            crate::stream::joined(chunks),
        ).offset == 0,
    decreases chunks.len(),
{
    if chunks.len() > 0 {
        let init = chunks.drop_last();
        let before = crate::stream::joined(init);
        let n = chunks.len() - 1;
        assert forall|i: int| 0 < i < init.len() implies #[trigger] crate::store::clean_cut(
            store,
            crate::stream::joined(init.take(i)),
            init[i],
        ) by {
            assert(init.take(i) =~= chunks.take(i));
            assert(crate::store::clean_cut(
                store,
                crate::stream::joined(chunks.take(i)),
                chunks[i],
            ));
        }
        lemma_clean_cuts(store, init);
        lemma_last_chunk(store, chunks);
        assert(chunks.take(n) =~= init);
        if n == 0 {
            assert(before =~= Seq::<u8>::empty());
            assert(before + chunks.last() =~= chunks.last());
        } else {
            assert(crate::store::clean_cut(
                store,
                crate::stream::joined(chunks.take(n)),
                chunks[n],
            ));
            crate::store::lemma_cut_screen(store, before, chunks.last());
        }
    }
}

/// What the chunks of a stream leave of what is kept, however they are cut.
proof fn lemma_given_all(store: LogView, chunks: Seq<Seq<u8>>)
    ensures
        given_all(store, chunks).pending_cr == store.processed(
            crate::stream::joined(chunks),
        ).pending_cr,
        given_all(store, chunks).has_output == store.processed(
            crate::stream::joined(chunks),
        ).has_output,
        has_room(store, crate::stream::joined(chunks)) ==> {
            &&& given_all(store, chunks).raw == store.processed(crate::stream::joined(chunks)).raw
            &&& given_all(store, chunks).lines == store.processed(
                crate::stream::joined(chunks),
            ).lines
            &&& given_all(store, chunks).pen == store.processed(crate::stream::joined(chunks)).pen
        },
    decreases chunks.len(),
{
    if chunks.len() > 0 {
        let first = chunks[0];
        let others = chunks.drop_first();
        let rest = crate::stream::joined(others);
        let cr = store.pending_cr;
        let whole = crate::stream::joined(chunks);
        crate::store::lemma_normalised_add(first, rest, cr);
        let a = crate::store::normalised(first, cr);
        let b = crate::store::normalised(rest, crate::store::ends_on_cr(first, cr));
        crate::store::lemma_newlines_add(a, b);
        assert(whole == first + rest);
        let next = store.processed(first);
        lemma_given_all(next, others);
        if first.len() == 0 {
            assert(first + rest =~= rest);
        } else if rest.len() == 0 {
            assert(first + rest =~= first);
        } else {
            assert(store.raw + a + b =~= store.raw + (a + b));
        }
    }
}

/// Output is kept within its bounds: no more bytes than the ceiling and no more
/// than twice the lines to keep. Only its front is ever cut away, and never all
/// of it.
pub proof fn law_bounds(store: LogView, bytes: Seq<u8>)
    requires
        store.wf(),
        bytes.len() > 0,
    ensures
        0 < store.processed(bytes).raw.len() <= MAX_RAW_BYTES,
        store.processed(bytes).lines <= 2 * store.keep_lines,
        store.processed(bytes).lines == crate::store::newlines(store.processed(bytes).raw),
        store.processed(bytes).raw.is_suffix_of(
            store.raw + crate::store::normalised(bytes, store.pending_cr),
        ),
        store.processed(bytes).raw.last() == bytes.last(),
{
    let text = crate::store::normalised(bytes, store.pending_cr);
    let raw = store.raw + text;
    crate::store::lemma_normalised_ends(bytes, store.pending_cr);
    crate::store::lemma_newlines_add(store.raw, text);
    if !(store.lines + crate::store::newlines(text) <= 2 * store.keep_lines && raw.len()
        <= MAX_RAW_BYTES) {
        crate::store::lemma_cut_point(raw, store.keep_lines);
        let cut = crate::store::cut_point(raw, store.keep_lines) as int;
        assert(raw.take(cut) + raw.skip(cut) =~= raw);
        crate::store::lemma_newlines_add(raw.take(cut), raw.skip(cut));
        assert(raw.skip(cut) =~= raw.subrange(raw.len() - (raw.len() - cut), raw.len() as int));
    } else {
        assert(raw =~= raw.subrange(0, raw.len() as int));
    }
}

/// Where it is the line budget that binds and not the ceiling, the newest lines
/// that the budget asks for survive a write.
pub proof fn law_newest_lines_survive(store: LogView, bytes: Seq<u8>)
    requires
        store.wf(),
        bytes.len() > 0,
        ({
            let raw = store.raw + crate::store::normalised(bytes, store.pending_cr);
            raw.len() - crate::store::line_cut(raw, store.keep_lines) <= MAX_RAW_BYTES
        }),
    ensures
        ({
            let raw = store.raw + crate::store::normalised(bytes, store.pending_cr);
            store.processed(bytes).lines >= crate::store::least(
                crate::store::newlines(raw),
                store.keep_lines,
            )
        }),
{
    let text = crate::store::normalised(bytes, store.pending_cr);
    let raw = store.raw + text;
    crate::store::lemma_newlines_add(store.raw, text);
    crate::store::lemma_line_cut(raw, store.keep_lines);
    let cut = crate::store::line_cut(raw, store.keep_lines) as int;
    assert(raw.take(cut) + raw.skip(cut) =~= raw);
    crate::store::lemma_newlines_add(raw.take(cut), raw.skip(cut));
}

/// A store with output can always be brought back from its bytes: no operation
/// empties them again.
pub proof fn law_replayable(
    store: LogView,
    bytes: Seq<u8>,
    container: Seq<char>,
    attach: u64,
    rows: u16,
    cols: u16,
    target: nat,
)
    requires
        store.wf(),
        store.replayable(),
    ensures
        store.processed(bytes).replayable(),
        store.adopted(container, attach).replayable(),
        store.resized(rows, cols).replayable(),
        store.without_screen().replayable(),
        store.scrolled_to(target).replayable(),
{
    if bytes.len() > 0 {
        law_bounds(store, bytes);
    }
    lemma_adopted(store, container, attach);
}

/// What an adoption that is not of the same attach does to the kept bytes.
proof fn lemma_adopted(store: LogView, container: Seq<char>, attach: u64)
    requires
        store.wf(),
    ensures
        store.raw.len() > 0 ==> store.adopted(container, attach).raw.len() > 0,
        store.raw.len() > 0 && !(store.container == container && store.attach == attach) ==> {
            &&& store.adopted(container, attach).raw.last() == if store.raw.last() == LF {
                108
            } else {
                LF
            }
            &&& store.adopted(container, attach).pending_cr == (store.raw.last() == LF
                && store.pending_cr)
        },
        store.adopted(container, attach).container == container,
        store.adopted(container, attach).attach == attach,
{
    if store.raw.len() > 0 && !(store.container == container && store.attach == attach) {
        let named = LogView { container, attach, ..store };
        crate::store::lemma_process_kept(named, crate::store::handover());
        let handed = named.handed_over();
        assert(handed.raw == named.processed(crate::store::handover()).raw);
        if store.raw.last() != LF {
            crate::store::lemma_process_kept(handed, seq![LF]);
        }
    }
}

/// Adopting writes nothing when the attach has not changed, and nothing into a
/// store that holds nothing. Otherwise it resets the emulator and ends the row
/// that was open, if one was: the row break is the last byte then.
pub proof fn law_adopting(store: LogView, container: Seq<char>, attach: u64)
    requires
        store.wf(),
    ensures
        store.container == container && store.attach == attach ==> store.adopted(container, attach)
            == store,
        store.raw.len() == 0 ==> store.adopted(container, attach) == (LogView {
            container,
            attach,
            ..store
        }),
        store.raw.len() > 0 && !(store.container == container && store.attach == attach) ==> (
        store.adopted(container, attach).raw.last() == LF <==> store.raw.last() != LF),
        store.adopted(container, attach).adopted(container, attach) == store.adopted(
            container,
            attach,
        ),
{
    lemma_adopted(store, container, attach);
}

/// What a handover adds to the kept bytes is the reset and nothing else, and the
/// row break behind it makes use of a carriage return that the container wrote.
pub proof fn law_handover_bytes(store: LogView)
    requires
        store.wf(),
        store.raw.len() > 0,
        store.lines < 2 * store.keep_lines,
        store.raw.len() + crate::store::handover().len() + 2 <= MAX_RAW_BYTES,
    ensures
        store.handed_over().raw == store.raw + crate::store::handover(),
        store.handed_over().pending_cr == store.pending_cr,
        store.handed_over().processed(seq![LF]).raw == store.raw + crate::store::handover() + if
        store.pending_cr {
            seq![LF]
        } else {
            seq![CR, LF]
        },
{
    let bytes = crate::store::handover();
    crate::store::lemma_plain(bytes, store.pending_cr, bytes.len() as int);
    assert(bytes.take(bytes.len() as int) =~= bytes);
    crate::store::lemma_newlines_add(store.raw, bytes);
    let handed = store.handed_over();
    let one = seq![LF];
    assert(one.drop_last() =~= Seq::<u8>::empty());
    reveal_with_fuel(crate::store::normalised, 2);
    reveal_with_fuel(crate::store::newlines, 3);
    let text = crate::store::normalised(one, handed.pending_cr);
    assert(text =~= if store.pending_cr {
        seq![LF]
    } else {
        seq![CR, LF]
    });
    assert(seq![CR, LF].drop_last() =~= seq![CR]);
    assert(seq![CR].drop_last() =~= Seq::<u8>::empty());
    assert(crate::store::newlines(text) == 1);
}

/// Whether two stores keep the same of their output, whatever they show of it.
pub open spec fn keeps_the_same(one: LogView, other: LogView) -> bool {
    &&& one.raw == other.raw
    &&& one.pen == other.pen
    &&& one.lines == other.lines
    &&& one.keep_lines == other.keep_lines
    &&& one.scrollback == other.scrollback
    &&& one.pending_cr == other.pending_cr
    &&& one.has_output == other.has_output
    &&& one.container == other.container
    &&& one.attach == other.attach
}

/// A released store takes output as one that was never released does, but for
/// its screen, which stays as the release left it.
proof fn lemma_away(store: LogView, away: LogView, writes: Seq<Seq<u8>>)
    requires
        keeps_the_same(store, away),
        !store.released,
        away.released,
        store.lines == crate::store::newlines(store.raw),
        store.keep_lines > 0,
        store.replayable(),
    ensures
        keeps_the_same(given_all(store, writes), given_all(away, writes)),
        given_all(store, writes).replayable(),
        given_all(store, writes).replay_pending == store.replay_pending,
        !given_all(store, writes).released,
        given_all(away, writes).inputs == away.inputs,
        given_all(away, writes).offset == away.offset,
        given_all(away, writes).released,
        given_all(away, writes).replay_pending == away.replay_pending,
    decreases writes.len(),
{
    if writes.len() > 0 {
        if writes[0].len() > 0 {
            crate::store::lemma_process_kept(store, writes[0]);
        }
        lemma_away(store.processed(writes[0]), away.processed(writes[0]), writes.drop_first());
    }
}

/// Releasing a store costs nothing that a resize would have brought back: a
/// released store that takes output, in however many writes, and is then resized
/// keeps what a store that was never released and takes the same output keeps.
/// It shows what that one would be rebuilt to, from the same bytes, and tails it;
/// where the resize changes that one's size, both show the same.
pub proof fn law_release_and_return(store: LogView, writes: Seq<Seq<u8>>, rows: u16, cols: u16)
    requires
        store.wf(),
        store.replayable(),
        !store.released,
    ensures
        ({
            let kept = given_all(store, writes);
            let back = given_all(store.without_screen(), writes).resized(rows, cols);
            let resized = kept.resized(rows, cols);
            &&& back.inputs == kept.rebuilt(
                crate::store::floored(rows, MIN_ROWS),
                crate::store::floored(cols, MIN_COLS),
            )
            &&& back.offset == 0
            &&& !back.released
            &&& back.raw == kept.raw
            &&& back.pen == kept.pen
            &&& back.lines == kept.lines
            &&& back.pending_cr == kept.pending_cr
            &&& back.has_output == kept.has_output
            &&& !kept.holds_size(rows, cols) ==> {
                &&& keeps_the_same(back, resized)
                &&& back.inputs == resized.inputs
                &&& back.row_texts() == resized.row_texts()
                &&& kept.offset == 0 ==> back == resized
            }
        }),
{
    let away = store.without_screen();
    lemma_away(store, away, writes);
    let kept = given_all(store, writes);
    let back = given_all(away, writes).resized(rows, cols);
    if !kept.holds_size(rows, cols) && kept.offset == 0 {
        assert(back =~= kept.resized(rows, cols));
    }
}

/// A released store has nothing to see: its grid is the smallest there is and
/// blank, and stays so however much is written, until the next resize. What it
/// keeps of its output is what it kept.
pub proof fn law_released_is_blank(store: LogView, writes: Seq<Seq<u8>>, row: u16, col: u16)
    requires
        store.wf(),
        store.released,
    ensures
        store.size() == (MIN_ROWS, MIN_COLS),
        store.depth() == 0,
        row < MIN_ROWS ==> store.visible_texts()[row as int] == Seq::<char>::empty(),
        row < MIN_ROWS && col < MIN_COLS ==> store.visible_cell(row, col) == Some(
            crate::emulator::blank_cell(),
        ),
        given_all(store, writes).inputs == store.inputs,
        given_all(store, writes).offset == store.offset,
        given_all(store, writes).visible_texts() == store.visible_texts(),
        given_all(store, writes).visible_cell(row, col) == store.visible_cell(row, col),
        given_all(store, writes).released,
    decreases writes.len(),
{
    reveal_with_fuel(crate::emulator::size, 2);
    lemma_still_released(store, writes);
    assert(given_all(store, writes).visible_texts() =~= store.visible_texts());
}

/// Writing to a released store leaves its screen.
proof fn lemma_still_released(store: LogView, writes: Seq<Seq<u8>>)
    requires
        store.released,
    ensures
        given_all(store, writes).inputs == store.inputs,
        given_all(store, writes).offset == store.offset,
        given_all(store, writes).released,
    decreases writes.len(),
{
    if writes.len() > 0 {
        lemma_still_released(store.processed(writes[0]), writes.drop_first());
    }
}

/// Releasing changes the screen and where its view is, and that it has to be
/// replayed, and nothing else.
pub proof fn law_releasing(store: LogView)
    ensures
        keeps_the_same(store.without_screen(), store),
        !store.has_output || store.raw.len() > 0 ==> store.without_screen().released,
        !store.released && store.has_output && store.raw.len() == 0 ==> store.without_screen()
            == store,
{
}

/// What is kept of the output is the end of it, never nothing of something, and
/// within the bounds; where all of it is within them, all is kept.
pub proof fn law_retaining(store: LogView, bytes: Seq<u8>)
    requires
        store.lines == crate::store::newlines(store.raw),
        store.keep_lines > 0,
    ensures
        ({
            let kept = store.retaining(bytes);
            let all = store.raw + bytes;
            &&& kept.raw.is_suffix_of(all)
            &&& all.len() > 0 ==> kept.raw.len() > 0
            &&& kept.raw.len() <= MAX_RAW_BYTES
            &&& kept.lines == crate::store::newlines(kept.raw)
            &&& kept.lines <= 2 * store.keep_lines
            &&& crate::store::newlines(all) <= 2 * store.keep_lines && all.len() <= MAX_RAW_BYTES
                ==> kept.raw == all
        }),
{
    let all = store.raw + bytes;
    crate::store::lemma_newlines_add(store.raw, bytes);
    if !(store.lines + crate::store::newlines(bytes) <= 2 * store.keep_lines && all.len()
        <= MAX_RAW_BYTES) {
        if all.len() == 0 {
            assert(crate::store::newlines(all) == 0);
        }
        crate::store::lemma_cut_point(all, store.keep_lines);
        let cut = crate::store::cut_point(all, store.keep_lines) as int;
        assert(all.take(cut) + all.skip(cut) =~= all);
        crate::store::lemma_newlines_add(all.take(cut), all.skip(cut));
        assert(all.skip(cut) =~= all.subrange(all.len() - (all.len() - cut), all.len() as int));
    } else {
        assert(all =~= all.subrange(0, all.len() as int));
    }
}

/// The pen that a terminal has once it has parsed `text` from its beginning.
pub open spec fn pen_behind(text: Seq<u8>) -> Seq<u8> {
    crate::emulator::pen_of(
        crate::emulator::fed(crate::emulator::started(MIN_ROWS, MIN_COLS, 0), text),
    )
}

/// What a write cuts away of the bytes that were kept: what comes before those
/// that still are.
pub open spec fn cut_away(store: LogView, bytes: Seq<u8>) -> Seq<u8> {
    let all = store.raw + crate::store::normalised(bytes, store.pending_cr);
    all.take(all.len() - store.processed(bytes).raw.len())
}

/// All that several writes cut away, in order.
pub open spec fn all_cut_away(store: LogView, writes: Seq<Seq<u8>>) -> Seq<u8>
    decreases writes.len(),
{
    if writes.len() == 0 {
        Seq::empty()
    } else {
        cut_away(store, writes[0]) + all_cut_away(store.processed(writes[0]), writes.drop_first())
    }
}

/// Whether what each write cuts away is styled text: it cuts through no escape
/// sequence and no character, and holds no sequence but those that begin with
/// `CSI` and have numbers alone.
pub open spec fn cuts_styled(store: LogView, writes: Seq<Seq<u8>>) -> bool
    decreases writes.len(),
{
    writes.len() > 0 ==> crate::emulator::styled_text(cut_away(store, writes[0])) && cuts_styled(
        store.processed(writes[0]),
        writes.drop_first(),
    )
}

/// What a write leaves, and what it cuts away: together they are what was kept and
/// what came in.
proof fn lemma_cut_away(store: LogView, bytes: Seq<u8>)
    requires
        store.lines == crate::store::newlines(store.raw),
        store.keep_lines > 0,
    ensures
        cut_away(store, bytes) + store.processed(bytes).raw == store.raw
            + crate::store::normalised(bytes, store.pending_cr),
{
    let text = crate::store::normalised(bytes, store.pending_cr);
    let all = store.raw + text;
    let after = store.processed(bytes).raw;
    if bytes.len() == 0 {
        assert(all =~= store.raw);
        assert(cut_away(store, bytes) + after =~= all);
    } else {
        law_retaining(store, text);
        assert(after == store.retaining(text).raw);
        assert(cut_away(store, bytes) + after =~= all);
    }
}

/// What one write makes of a pen that stands for what was cut away before.
proof fn lemma_pen_carried(store: LogView, gone: Seq<u8>, bytes: Seq<u8>)
    requires
        store.lines == crate::store::newlines(store.raw),
        store.keep_lines > 0,
        crate::emulator::only_styles(store.pen),
        crate::emulator::pens_hold(crate::emulator::started(MIN_ROWS, MIN_COLS, 0)),
        crate::emulator::styled_text(gone),
        crate::emulator::styled_text(cut_away(store, bytes)),
        pen_behind(store.pen) == pen_behind(gone),
    ensures
        pen_behind(store.processed(bytes).pen) == pen_behind(gone + cut_away(store, bytes)),
        crate::emulator::only_styles(store.processed(bytes).pen),
        crate::emulator::styled_text(gone + cut_away(store, bytes)),
{
    let start = crate::emulator::started(MIN_ROWS, MIN_COLS, 0);
    let cut = cut_away(store, bytes);
    let after = store.processed(bytes);
    let all = store.raw + crate::store::normalised(bytes, store.pending_cr);
    lemma_cut_away(store, bytes);
    crate::emulator::lemma_styled_on(gone, cut);
    crate::emulator::lemma_only_styles(store.pen);
    if after.raw == all || bytes.len() == 0 {
        if bytes.len() == 0 {
            assert(all =~= store.raw);
        }
        assert(gone + cut =~= gone);
    }
    if bytes.len() > 0 && after.pen != store.pen {
        crate::emulator::lemma_fed_styled(start, store.pen, cut);
        let at = crate::store::cut_point(all, store.keep_lines) as int;
        crate::store::lemma_cut_point(all, store.keep_lines);
        assert(after.raw =~= all.skip(at));
        assert(cut =~= all.take(at));
        crate::emulator::lemma_styled_on(store.pen, cut);
        assert(after.pen == pen_behind(store.pen + cut));
        assert(pen_behind(store.pen + cut) == pen_behind(gone + cut));
        assert(pen_behind(after.pen) == after.pen);
    } else if bytes.len() > 0 && after.raw != all {
        let at = crate::store::cut_point(all, store.keep_lines) as int;
        if all.len() > 0 {
            crate::store::lemma_cut_point(all, store.keep_lines);
        }
        assert(after.raw =~= all.skip(at));
        assert(cut =~= all.take(at));
        if crate::store::moves_the_pen(cut) {
            crate::emulator::lemma_fed_styled(start, store.pen, cut);
            crate::emulator::lemma_styled_on(store.pen, cut);
            assert(after.pen == pen_behind(store.pen + cut));
            assert(pen_behind(store.pen + cut) == pen_behind(gone + cut));
            assert(pen_behind(after.pen) == after.pen);
        } else {
            assert forall|i: int| 0 <= i < cut.len() implies #[trigger] cut[i] != 27 && cut[i]
                < 128 by {}
            assert(crate::emulator::plain_text(cut));
            assert(pen_behind(gone + cut) == pen_behind(gone));
        }
    }
}

/// The styling that is carried over a trim is that of all the output that was ever
/// cut away: after any writes, a terminal that parses the carried pen has the pen
/// that one has which parses everything that is no longer kept, from the very
/// first byte. What is kept follows on it: the two together are all the output
/// there was. So a replay writes in the styling that the output was written in.
pub proof fn law_pen_is_carried(store: LogView, gone: Seq<u8>, writes: Seq<Seq<u8>>)
    requires
        store.wf(),
        crate::emulator::styled_text(gone),
        pen_behind(store.pen) == pen_behind(gone),
        cuts_styled(store, writes),
    ensures
        pen_behind(given_all(store, writes).pen) == pen_behind(gone + all_cut_away(store, writes)),
        all_cut_away(store, writes) + given_all(store, writes).raw == store.raw
            + crate::store::normalised(crate::stream::joined(writes), store.pending_cr),
{
    lemma_pens_carried(store, gone, writes);
    lemma_all_cut_away(store, writes);
}

proof fn lemma_pens_carried(store: LogView, gone: Seq<u8>, writes: Seq<Seq<u8>>)
    requires
        store.lines == crate::store::newlines(store.raw),
        store.keep_lines > 0,
        crate::emulator::only_styles(store.pen),
        crate::emulator::pens_hold(crate::emulator::started(MIN_ROWS, MIN_COLS, 0)),
        crate::emulator::styled_text(gone),
        pen_behind(store.pen) == pen_behind(gone),
        cuts_styled(store, writes),
    ensures
        pen_behind(given_all(store, writes).pen) == pen_behind(gone + all_cut_away(store, writes)),
    decreases writes.len(),
{
    if writes.len() == 0 {
        assert(gone + all_cut_away(store, writes) =~= gone);
    } else {
        let first = writes[0];
        let rest = writes.drop_first();
        let next = store.processed(first);
        let cut = cut_away(store, first);
        lemma_pen_carried(store, gone, first);
        lemma_lines_kept(store, first);
        lemma_pens_carried(next, gone + cut, rest);
        assert((gone + cut) + all_cut_away(next, rest) =~= gone + (cut + all_cut_away(next, rest)));
    }
}

/// The count of lines stays right, and the lines to keep stay as they are.
proof fn lemma_lines_kept(store: LogView, bytes: Seq<u8>)
    requires
        store.lines == crate::store::newlines(store.raw),
        store.keep_lines > 0,
    ensures
        store.processed(bytes).lines == crate::store::newlines(store.processed(bytes).raw),
        store.processed(bytes).keep_lines == store.keep_lines,
{
    if bytes.len() > 0 {
        crate::store::lemma_process_kept(store, bytes);
    }
}

/// What several writes leave, and what they cut away.
proof fn lemma_all_cut_away(store: LogView, writes: Seq<Seq<u8>>)
    requires
        store.lines == crate::store::newlines(store.raw),
        store.keep_lines > 0,
    ensures
        all_cut_away(store, writes) + given_all(store, writes).raw == store.raw
            + crate::store::normalised(crate::stream::joined(writes), store.pending_cr),
    decreases writes.len(),
{
    if writes.len() == 0 {
        assert(crate::stream::joined(writes) =~= Seq::<u8>::empty());
        assert(all_cut_away(store, writes) + store.raw =~= store.raw + Seq::<u8>::empty());
    } else {
        let first = writes[0];
        let rest = writes.drop_first();
        let next = store.processed(first);
        let cut = cut_away(store, first);
        lemma_cut_away(store, first);
        lemma_lines_kept(store, first);
        lemma_all_cut_away(next, rest);
        let later = all_cut_away(next, rest);
        let joined = crate::stream::joined(rest);
        crate::store::lemma_normalised_add(first, joined, store.pending_cr);
        let a = crate::store::normalised(first, store.pending_cr);
        let b = crate::store::normalised(joined, next.pending_cr);
        let end = given_all(next, rest).raw;
        assert((cut + later) + end =~= cut + (later + end));
        assert(cut + (next.raw + b) =~= (cut + next.raw) + b);
        assert((store.raw + a) + b =~= store.raw + (a + b));
    }
}

/// Releasing twice is releasing once.
pub proof fn law_releasing_twice(store: LogView)
    ensures
        store.without_screen().without_screen() == store.without_screen(),
{
}

/// What a resize shows depends on the kept bytes and the size alone, not on the
/// sizes in between; resizing to the size a store has changes nothing.
pub proof fn law_resizing(store: LogView, rows: u16, cols: u16, via_rows: u16, via_cols: u16)
    requires
        store.wf(),
        store.replayable(),
        !store.holds_size(via_rows, via_cols),
        !store.resized(via_rows, via_cols).holds_size(rows, cols),
    ensures
        store.resized(via_rows, via_cols).resized(rows, cols).inputs == store.rebuilt(
            crate::store::floored(rows, MIN_ROWS),
            crate::store::floored(cols, MIN_COLS),
        ),
        store.resized(rows, cols).resized(rows, cols) == store.resized(rows, cols),
{
    broadcast use crate::emulator::lemma_fed;

    let via = store.resized(via_rows, via_cols);
    assert(via.replayable());
    let there = store.resized(rows, cols);
    if !store.holds_size(rows, cols) {
        assert(there.size() == (
            crate::store::floored(rows, MIN_ROWS),
            crate::store::floored(cols, MIN_COLS),
        ));
    }
}

/// A resize keeps the reader's place. Only losing rows moves the offset, by as many
/// as are lost and no further than to the bottom; anything else leaves it, as far
/// as the scrollback that comes out of the resize reaches.
pub proof fn law_resize_keeps_the_place(store: LogView, rows: u16, cols: u16)
    requires
        store.wf(),
    ensures
        ({
            let to = if rows < MIN_ROWS {
                MIN_ROWS
            } else {
                rows
            };
            let after = store.resized(rows, cols);
            let lost = store.size().0 - to;
            let wanted = if lost <= 0 {
                store.offset as int
            } else if store.offset > lost {
                store.offset - lost
            } else {
                0
            };
            after.offset == if wanted <= after.depth() {
                wanted
            } else {
                after.depth() as int
            }
        }),
{
    let after = store.resized(rows, cols);
    if !store.holds_size(rows, cols) {
        assert(after.depth() == crate::emulator::scrollback_depth(after.inputs));
    }
}

/// A resize gives the screen the size that was asked for, brought up to the floors,
/// and room in what is kept for the scrollback and all of the rows. It leaves
/// everything that is kept of the output as it was.
pub proof fn law_resize_leaves_the_output(store: LogView, rows: u16, cols: u16)
    requires
        store.wf(),
    ensures
        ({
            let after = store.resized(rows, cols);
            &&& after.size() == (
                if rows < MIN_ROWS {
                    MIN_ROWS
                } else {
                    rows
                },
                if cols < MIN_COLS {
                    MIN_COLS
                } else {
                    cols
                },
            )
            &&& after.raw == store.raw
            &&& after.pen == store.pen
            &&& after.lines == store.lines
            &&& after.pending_cr == store.pending_cr
            &&& after.has_output == store.has_output
            &&& after.scrollback == store.scrollback
            &&& after.container == store.container
            &&& after.attach == store.attach
            &&& store.scrollback + after.size().0 <= usize::MAX ==> after.keep_lines
                == store.scrollback + after.size().0
            &&& !after.released
            &&& after.replay_pending <==> store.has_output && store.raw.len() == 0 && (
            store.replay_pending || after.size() != store.size())
        }),
{
    broadcast use {crate::emulator::lemma_fed, crate::emulator::lemma_resized};

    reveal_with_fuel(crate::emulator::size, 2);
    if !store.released {
        crate::store::lemma_feedable_rows(store.inputs);
    }
}

/// A resize replays the output: a terminal of the new size, with the store's scrollback,
/// is given the carried pen and then all that is kept, in this order and from its
/// beginning. A store that has nothing left to replay of its output keeps its screen,
/// which is resized in place.
pub proof fn law_replay(store: LogView, rows: u16, cols: u16)
    requires
        store.wf(),
        !store.holds_size(rows, cols),
    ensures
        ({
            let after = store.resized(rows, cols);
            let (to_rows, to_cols) = after.size();
            &&& !store.has_output || store.raw.len() > 0 ==> after.inputs == crate::emulator::fed(
                crate::emulator::fed(
                    crate::emulator::started(to_rows, to_cols, store.scrollback as usize),
                    store.pen,
                ),
                store.raw,
            )
            &&& store.has_output && store.raw.len() == 0 ==> after.inputs == store.inputs.push(
                crate::emulator::EmulatorInput::Resize { rows: to_rows, cols: to_cols },
            )
        }),
{
    broadcast use {crate::emulator::lemma_fed, crate::emulator::lemma_resized};

    reveal_with_fuel(crate::emulator::size, 2);
}

/// Rewrapping: a store that takes output at one size and is then resized shows what
/// a store shows that had the new size from the start and took the same output,
/// as long as nothing had to be cut away.
pub proof fn law_resize_rewraps(
    scrollback: nat,
    before: (u16, u16),
    rows: u16,
    cols: u16,
    bytes: Seq<u8>,
)
    requires
        scrollback <= usize::MAX,
        bytes.len() > 0,
        ({
            let text = crate::store::normalised(bytes, false);
            &&& crate::store::newlines(text) <= scrollback
            &&& text.len() <= MAX_RAW_BYTES
        }),
    ensures
        ({
            let there = LogView::empty(scrollback).resized(before.0, before.1).processed(bytes);
            let fresh = LogView::empty(scrollback).resized(rows, cols).processed(bytes);
            let moved = there.resized(rows, cols);
            &&& moved.inputs == fresh.inputs
            &&& moved.row_texts() == fresh.row_texts()
            &&& moved.text() == fresh.text()
            &&& moved.raw == fresh.raw
            &&& moved.offset == 0
        }),
{
    broadcast use crate::emulator::lemma_fed;

    reveal_with_fuel(crate::emulator::size, 2);
    let text = crate::store::normalised(bytes, false);
    crate::store::lemma_normalised_len(bytes, false);
    let empty = LogView::empty(scrollback);
    let one = empty.resized(before.0, before.1);
    let other = empty.resized(rows, cols);
    assert(crate::store::newlines(Seq::<u8>::empty()) == 0);
    assert(Seq::<u8>::empty() + text =~= text);
    assert(one.keep_lines >= scrollback && other.keep_lines >= scrollback);
    assert(one.processed(bytes).raw == text);
    assert(other.processed(bytes).raw == text);
    assert(one.processed(bytes).pen =~= Seq::<u8>::empty());
    assert(other.inputs == crate::emulator::started(other.size().0, other.size().1, scrollback as usize));
    assert(one.inputs == crate::emulator::started(one.size().0, one.size().1, scrollback as usize));
}

/// A write is output, whatever it holds, and changes nothing but what is kept of the
/// output and what is shown of it.
pub proof fn law_write(store: LogView, bytes: Seq<u8>)
    ensures
        bytes.len() == 0 ==> store.processed(bytes) == store,
        bytes.len() > 0 ==> store.processed(bytes).has_output,
        bytes.len() > 0 ==> store.processed(bytes).pending_cr == (bytes.last() == CR),
        store.processed(bytes).container == store.container,
        store.processed(bytes).attach == store.attach,
        store.processed(bytes).scrollback == store.scrollback,
        store.processed(bytes).keep_lines == store.keep_lines,
        store.processed(bytes).released == store.released,
        store.processed(bytes).replay_pending == store.replay_pending,
        store.released ==> store.processed(bytes).inputs == store.inputs,
        !store.released ==> store.processed(bytes).inputs == crate::emulator::fed(
            store.inputs,
            crate::store::normalised(bytes, store.pending_cr),
        ),
{
    if bytes.len() == 0 {
        assert(crate::store::normalised(bytes, store.pending_cr) =~= Seq::<u8>::empty());
    }
}

/// `bytes` without their carriage returns.
pub open spec fn without_returns(bytes: Seq<u8>) -> Seq<u8>
    decreases bytes.len(),
{
    if bytes.len() == 0 {
        Seq::empty()
    } else if bytes.last() == CR {
        without_returns(bytes.drop_last())
    } else {
        without_returns(bytes.drop_last()).push(bytes.last())
    }
}

/// Normalising puts in carriage returns and does nothing else: without them, what
/// comes out is what went in. One is put in for each newline that has none before
/// it, and for nothing else.
pub proof fn law_only_returns_are_added(bytes: Seq<u8>, cr: bool)
    ensures
        without_returns(crate::store::normalised(bytes, cr)) == without_returns(bytes),
        (forall|i: int|
            0 <= i < bytes.len() && #[trigger] bytes[i] == LF ==> if i == 0 {
                cr
            } else {
                bytes[i - 1] == CR
            }) ==> crate::store::normalised(bytes, cr) == bytes,
    decreases bytes.len(),
{
    if bytes.len() > 0 {
        let before = bytes.drop_last();
        law_only_returns_are_added(before, cr);
        let old = crate::store::normalised(before, cr);
        let new = crate::store::normalised(bytes, cr);
        if bytes.last() == LF && !crate::store::ends_on_cr(before, cr) {
            assert(new.drop_last() =~= old.push(CR));
            assert(old.push(CR).drop_last() =~= old);
            assert(without_returns(old.push(CR)) == without_returns(old));
        } else {
            assert(new.drop_last() =~= old);
        }
        if forall|i: int|
            0 <= i < bytes.len() && #[trigger] bytes[i] == LF ==> if i == 0 {
                cr
            } else {
                bytes[i - 1] == CR
            } {
            assert forall|i: int| 0 <= i < before.len() && #[trigger] before[i] == LF implies if i
                == 0 {
                cr
            } else {
                before[i - 1] == CR
            } by {
                assert(bytes[i] == LF);
            }
            if bytes.last() == LF {
                assert(bytes[bytes.len() - 1] == LF);
            }
            assert(new =~= bytes);
        }
    }
}

/// Where the ceiling is not reached, what a write cuts away is whole lines, and a
/// store that had to be trimmed keeps as many lines as it is to keep.
pub proof fn law_trims_by_lines(store: LogView, bytes: Seq<u8>)
    requires
        store.wf(),
        bytes.len() > 0,
        store.raw.len() + crate::store::normalised(bytes, store.pending_cr).len() <= MAX_RAW_BYTES,
    ensures
        cut_away(store, bytes).len() > 0 ==> cut_away(store, bytes).last() == LF,
        store.lines + crate::store::newlines(bytes) > 2 * store.keep_lines ==> store.processed(
            bytes,
        ).lines == store.keep_lines,
        store.lines + crate::store::newlines(bytes) <= 2 * store.keep_lines ==> cut_away(
            store,
            bytes,
        ).len() == 0,
{
    let text = crate::store::normalised(bytes, store.pending_cr);
    let all = store.raw + text;
    law_no_bare_newline(bytes, store.pending_cr);
    crate::store::lemma_newlines_add(store.raw, text);
    crate::store::lemma_line_cut(all, store.keep_lines);
    law_retaining(store, text);
    lemma_cut_away(store, bytes);
    if store.lines + crate::store::newlines(text) > 2 * store.keep_lines {
        let at = crate::store::line_cut(all, store.keep_lines) as int;
        assert(store.processed(bytes).raw =~= all.skip(at));
        assert(cut_away(store, bytes) =~= all.take(at));
    }
}

/// The whole text is the rows from the top of the scrollback on, each with a
/// newline behind it, up to the last one that is not blank.
pub proof fn law_text(store: LogView)
    ensures
        exists|n: int|
            {
                &&& 0 <= n <= store.row_texts().len()
                &&& n > 0 ==> !crate::store::is_blank(store.row_texts()[n - 1])
                &&& forall|i: int|
                    n <= i < store.row_texts().len() ==> crate::store::is_blank(
                        #[trigger] store.row_texts()[i],
                    )
                &&& store.text() == #[trigger] crate::store::as_text(store.row_texts().take(n))
            },
{
    lemma_without_blank_tail(store.row_texts());
}

proof fn lemma_without_blank_tail(lines: Seq<Seq<char>>)
    ensures
        exists|n: int|
            {
                &&& 0 <= n <= lines.len()
                &&& n > 0 ==> !crate::store::is_blank(lines[n - 1])
                &&& forall|i: int|
                    n <= i < lines.len() ==> crate::store::is_blank(#[trigger] lines[i])
                &&& crate::store::as_text(crate::store::without_blank_tail(lines))
                    == #[trigger] crate::store::as_text(lines.take(n))
            },
    decreases lines.len(),
{
    if lines.len() > 0 && crate::store::is_blank(lines.last()) {
        let init = lines.drop_last();
        lemma_without_blank_tail(init);
        let n = choose|n: int|
            {
                &&& 0 <= n <= init.len()
                &&& n > 0 ==> !crate::store::is_blank(init[n - 1])
                &&& forall|i: int|
                    n <= i < init.len() ==> crate::store::is_blank(#[trigger] init[i])
                &&& crate::store::as_text(crate::store::without_blank_tail(init))
                    == #[trigger] crate::store::as_text(init.take(n))
            };
        assert(init.take(n) =~= lines.take(n));
        assert forall|i: int| n <= i < lines.len() implies crate::store::is_blank(
            #[trigger] lines[i],
        ) by {
            if i < init.len() {
                assert(init[i] == lines[i]);
            }
        }
        assert(crate::store::as_text(crate::store::without_blank_tail(lines))
            == crate::store::as_text(lines.take(n)));
    } else {
        let n = lines.len() as int;
        assert(lines.take(n) =~= lines);
        assert(crate::store::as_text(crate::store::without_blank_tail(lines))
            == crate::store::as_text(lines.take(n)));
    }
}

/// Rows one after another are their texts one after another, and one row is its
/// text and a newline.
pub proof fn law_rows_as_text(above: Seq<Seq<char>>, row: Seq<char>)
    ensures
        crate::store::as_text(above.push(row)) == crate::store::as_text(above) + row + seq!['\n'],
        crate::store::as_text(Seq::empty()) == Seq::<char>::empty(),
{
    assert(above.push(row).drop_last() =~= above);
}

/// The lines to keep fill the scrollback and the screen; there is always one.
pub proof fn law_lines_to_keep(scrollback: nat, rows: u16)
    ensures
        crate::store::lines_to_keep(scrollback, rows) >= 1,
        0 < scrollback + rows <= usize::MAX ==> crate::store::lines_to_keep(scrollback, rows)
            == scrollback + rows,
        scrollback + rows > usize::MAX ==> crate::store::lines_to_keep(scrollback, rows)
            == usize::MAX,
{
}

/// Scrolling moves the view and nothing else, within the rows that are there;
/// scrolling back by as much as was scrolled up returns to where the view was.
pub proof fn law_scrolling(store: LogView, target: nat, lines: nat)
    requires
        store.wf(),
        store.offset + lines <= store.depth(),
    ensures
        store.scrolled_to(target).wf() || store.released,
        store.scrolled_to(target).offset <= store.depth(),
        store.scrolled_to(target).row_texts() == store.row_texts(),
        store.scrolled_to(store.offset + lines).scrolled_to(store.offset) == store,
{
    assert(store.scrolled_to(target).row_texts() =~= store.row_texts());
    assert(store.scrolled_to(store.offset + lines).scrolled_to(store.offset) =~= store);
}

/// The rows in view are a window of the rows that are there; a view that is
/// tailing shows the last of them.
pub proof fn law_window(store: LogView)
    requires
        store.wf(),
    ensures
        store.visible_texts() == store.row_texts().subrange(
            store.depth() - store.offset,
            store.depth() - store.offset + store.size().0,
        ),
        store.offset == 0 ==> store.visible_texts() == store.row_texts().skip(store.depth() as int),
{
    assert(store.visible_texts() =~= store.row_texts().subrange(
        store.depth() - store.offset,
        store.depth() - store.offset + store.size().0,
    ));
    if store.offset == 0 {
        assert(store.visible_texts() =~= store.row_texts().skip(store.depth() as int));
    }
}

/// A cell in view is the cell of the row that is as far above the live screen as the
/// view is scrolled back; rows count from the top of the scrollback.
pub proof fn law_visible_cell(store: LogView, row: u16, col: u16)
    ensures
        row < store.size().0 ==> store.visible_cell(row, col) == crate::emulator::cell_at(
            store.inputs,
            crate::emulator::scrollback_depth(store.inputs) - store.offset + row,
            col,
        ),
        row >= store.size().0 ==> store.visible_cell(row, col) is None,
        store.row_texts().len() == crate::emulator::scrollback_depth(store.inputs)
            + store.size().0,
        forall|i: int|
            0 <= i < store.row_texts().len() ==> #[trigger] store.row_texts()[i]
                == crate::emulator::row_text(store.inputs, i),
{
}

/// Where the ceiling binds, what is cut away ends with the first line that can, so that
/// no line is cut in two that need not be: at the first newline that leaves no more
/// than the ceiling and leaves something. Where there is none, as much is kept as the
/// ceiling lets.
pub proof fn law_trims_to_the_ceiling(store: LogView, bytes: Seq<u8>, at: int)
    requires
        store.wf(),
        bytes.len() > 0,
        ({
            let all = store.raw + crate::store::normalised(bytes, store.pending_cr);
            &&& all.len() > MAX_RAW_BYTES
            &&& crate::store::newlines(all) <= store.keep_lines
            &&& 0 <= at < all.len() - 1
        }),
    ensures
        ({
            let all = store.raw + crate::store::normalised(bytes, store.pending_cr);
            let floor = all.len() - MAX_RAW_BYTES;
            let cut = cut_away(store, bytes);
            &&& cut.len() >= floor
            &&& at >= floor && all[at] == LF ==> cut.len() <= at + 1 && cut.last() == LF
            &&& (forall|i: int| floor <= i < all.len() - 1 ==> #[trigger] all[i] != LF)
                ==> cut.len() == floor
        }),
{
    let all = store.raw + crate::store::normalised(bytes, store.pending_cr);
    let floor = (all.len() - MAX_RAW_BYTES) as nat;
    crate::store::lemma_line_cut(all, store.keep_lines);
    crate::store::lemma_cut_point(all, store.keep_lines);
    lemma_cut_away(store, bytes);
    let point = crate::store::cut_point(all, store.keep_lines) as int;
    assert(store.processed(bytes).raw =~= all.skip(point));
    assert(cut_away(store, bytes) =~= all.take(point));
    crate::store::lemma_next_line(all, floor);
    lemma_next_line_is_first(all, floor, at);
    if forall|i: int| floor <= i < all.len() - 1 ==> #[trigger] all[i] != LF {
        lemma_no_next_line(all, floor);
    }
}

proof fn lemma_next_line_is_first(raw: Seq<u8>, from: nat, at: int)
    requires
        from <= raw.len(),
    ensures
        from <= at < raw.len() && raw[at] == LF ==> crate::store::next_line(raw, from) <= at + 1,
        from < crate::store::next_line(raw, from) < raw.len() ==> raw[crate::store::next_line(
            raw,
            from,
        ) - 1] == LF,
    decreases raw.len() - from,
{
    if from < raw.len() && raw[from as int] != LF {
        lemma_next_line_is_first(raw, from + 1, at);
        if crate::store::next_line(raw, from) == from + 1 && from + 1 < raw.len() {
            crate::store::lemma_next_line(raw, from + 1);
        }
    }
}

proof fn lemma_no_next_line(raw: Seq<u8>, from: nat)
    requires
        from <= raw.len(),
        forall|i: int| from <= i < raw.len() - 1 ==> #[trigger] raw[i] != LF,
    ensures
        crate::store::next_line(raw, from) == raw.len(),
    decreases raw.len() - from,
{
    if from < raw.len() && raw[from as int] != LF {
        lemma_no_next_line(raw, from + 1);
    }
}

/// Of the ASCII characters, the space and those from tab to carriage return are blank,
/// and no others.
pub proof fn law_blank_ascii(c: char)
    requires
        c <= '\u{7f}',
    ensures
        crate::store::is_space(c) <==> c == ' ' || ('\u{9}' <= c <= '\u{d}'),
{
}

/// What a handover writes: it leaves the alternate screen, resets the pen, resets the
/// scroll region with the cursor saved before and restored after, and enters and leaves
/// the alternate screen once more. It begins with an `ESC`, holds no newline and nothing
/// that is printed.
pub proof fn law_handover()
    ensures
        crate::store::handover() == seq![27u8, 91u8, 63u8, 52u8, 55u8, 108u8] + seq![
            27u8,
            91u8,
            109u8,
        ] + seq![27u8, 55u8] + seq![27u8, 91u8, 114u8] + seq![27u8, 56u8] + seq![
            27u8,
            91u8,
            63u8,
            49u8,
            48u8,
            52u8,
            57u8,
            104u8,
        ] + seq![27u8, 91u8, 63u8, 49u8, 48u8, 52u8, 57u8, 108u8],
{
    assert(crate::store::handover() =~= seq![27u8, 91u8, 63u8, 52u8, 55u8, 108u8] + seq![
        27u8,
        91u8,
        109u8,
    ] + seq![27u8, 55u8] + seq![27u8, 91u8, 114u8] + seq![27u8, 56u8] + seq![
        27u8,
        91u8,
        63u8,
        49u8,
        48u8,
        52u8,
        57u8,
        104u8,
    ] + seq![27u8, 91u8, 63u8, 49u8, 48u8, 52u8, 57u8, 108u8]);
}

/// The limits: eight mebibytes of output are kept of a service at most, a thousand rows
/// of scrollback unless more are configured, and no screen is smaller than three rows of
/// twenty columns. A fresh store has a screen of twenty-four rows of eighty columns.
pub proof fn law_limits(scrollback: nat)
    requires
        scrollback <= usize::MAX,
    ensures
        MAX_RAW_BYTES == 8 * 1024 * 1024,
        crate::store::DEFAULT_SCROLLBACK == 1000,
        MIN_ROWS == 3,
        MIN_COLS == 20,
        LogView::empty(scrollback).size() == (24u16, 80u16),
        LogView::empty(scrollback).inputs.len() == 1,
        LogView::empty(scrollback).scrollback == scrollback,
        LogView::empty(scrollback).container.len() == 0,
        LogView::empty(scrollback).attach == 0,
        crate::stream::MAX_CHUNK_BYTES == 64 * 1024,
{
    reveal_with_fuel(crate::emulator::size, 2);
}

} // verus!
