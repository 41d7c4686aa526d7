use composemux::emulator::{MIN_COLS, MIN_ROWS};
use composemux::store::{can_move_the_pen, keep_lines_for, pen_after, LogStore};
use composemux::store::{DEFAULT_SCROLLBACK, HANDOVER, INITIAL_COLS, INITIAL_ROWS, MAX_RAW_BYTES};

fn tailing(store: &LogStore) -> bool {
    store.scroll_offset() == 0
}

fn non_empty(store: &LogStore) -> Vec<String> {
    store
        .visible_lines()
        .iter()
        .map(|l| l.trim_end().to_string())
        .filter(|l| !l.is_empty())
        .collect()
}

fn store_with(lines: usize) -> LogStore {
    let mut s = LogStore::new(DEFAULT_SCROLLBACK);
    s.resize(10, 40);
    for i in 0..lines {
        s.process(format!("line {i}\r\n").as_bytes());
    }
    s
}

#[test]
fn output_renders_the_same_however_it_was_cut_up() {
    let mut whole = LogStore::new(DEFAULT_SCROLLBACK);
    whole.resize(10, 40);
    let mut split = LogStore::new(DEFAULT_SCROLLBACK);
    split.resize(10, 40);

    let mut input = Vec::new();
    for i in 0..200 {
        let colour = 31 + i % 7;
        input.extend_from_slice(format!("\x1b[{colour}mrow {i} k\u{e9}\r\n").as_bytes());
    }

    whole.process(&input);
    for piece in input.chunks(7) {
        split.process(piece);
    }

    assert_eq!(
        split.screen().contents_formatted(),
        whole.screen().contents_formatted(),
        "the pane renders differently when the output arrives cut up"
    );
    assert_eq!(split.all_text(), whole.all_text());
}

#[test]
fn a_bare_newline_starting_a_write_still_returns_to_column_zero() {
    let mut s = LogStore::new(DEFAULT_SCROLLBACK);
    s.resize(6, 40);

    s.process(b"first line");
    s.process(b"\nsecond line\n");

    assert_eq!(non_empty(&s), ["first line", "second line"]);
}

#[test]
fn an_empty_write_is_not_output() {
    let mut s = LogStore::new(DEFAULT_SCROLLBACK);
    s.resize(5, 40);
    s.process(b"");
    assert!(
        !s.has_output(),
        "an empty write should leave the pane waiting"
    );
}

#[test]
fn a_new_store_reports_no_output() {
    let s = LogStore::new(DEFAULT_SCROLLBACK);
    assert!(!s.has_output());
}

#[test]
fn processing_marks_output_and_tails() {
    let s = store_with(3);
    assert!(s.has_output());
    assert!(tailing(&s), "a fresh store should be pinned to the bottom");
}

#[test]
fn newest_lines_are_visible_when_tailing() {
    let s = store_with(50);
    let visible = s.visible_lines();
    assert!(
        visible.iter().any(|l| l.contains("line 49")),
        "expected the newest line, got: {visible:?}"
    );
    assert!(!visible.iter().any(|l| l.contains("line 0")));
}

#[test]
fn scrolling_up_then_down_returns_to_tailing() {
    let mut s = store_with(50);
    s.scroll_up(5);
    assert_eq!(s.scroll_offset(), 5);
    assert!(!tailing(&s));
    s.scroll_down(5);
    assert!(tailing(&s));
}

#[test]
fn scrolling_down_past_the_bottom_clamps() {
    let mut s = store_with(50);
    s.scroll_up(3);
    s.scroll_down(999);
    assert_eq!(s.scroll_offset(), 0);
}

#[test]
fn scrolling_up_past_the_top_clamps_to_retained_rows() {
    let mut s = store_with(50);
    s.scroll_up(u16::MAX);
    let max = s.scroll_offset();
    assert!(max > 0 && max < 50, "expected a bounded top, got {max}");
    s.scroll_up(10);
    assert_eq!(s.scroll_offset(), max);
}

#[test]
fn top_and_bottom_helpers_reach_the_extremes() {
    let mut s = store_with(50);
    s.scroll_to_top();
    assert!(!tailing(&s));
    s.scroll_to_bottom();
    assert!(tailing(&s));
}

#[test]
fn a_tailing_view_keeps_tailing_as_output_arrives() {
    let mut s = store_with(20);
    s.process(b"newest\r\n");
    assert!(tailing(&s));
    assert!(s.visible_lines().iter().any(|l| l.contains("newest")));
}

#[test]
fn a_scrolled_view_stays_on_the_same_content_as_output_arrives() {
    let mut s = store_with(20);
    s.scroll_up(4);
    let before: Vec<String> = s
        .visible_lines()
        .iter()
        .map(|l| l.trim_end().to_string())
        .collect();

    s.process(b"newest\r\n");

    let after: Vec<String> = s
        .visible_lines()
        .iter()
        .map(|l| l.trim_end().to_string())
        .collect();
    assert_eq!(
        before, after,
        "a scrolled-up reader should not be dragged along by new output"
    );
    assert_eq!(s.scroll_offset(), 5, "the offset absorbs the new row");
}

#[test]
fn a_scrolled_view_holds_still_even_once_the_buffer_is_full() {
    let mut s = LogStore::new(64);
    s.resize(10, 40);
    for i in 0..500 {
        s.process(format!("line {i}\n").as_bytes());
    }
    s.scroll_up(5);
    let before = non_empty(&s);
    for i in 0..20 {
        s.process(format!("burst {i}\n").as_bytes());
    }
    assert_eq!(
        before,
        non_empty(&s),
        "a scrolled-up reader should not be dragged along by new output"
    );
}

#[test]
fn a_scrolled_view_absorbs_a_burst_of_output() {
    let mut s = store_with(30);
    s.scroll_up(6);
    let before: Vec<String> = s
        .visible_lines()
        .iter()
        .map(|l| l.trim_end().to_string())
        .collect();
    for i in 0..25 {
        s.process(format!("burst {i}\r\n").as_bytes());
    }
    let after: Vec<String> = s
        .visible_lines()
        .iter()
        .map(|l| l.trim_end().to_string())
        .collect();
    assert_eq!(before, after, "content should hold still through a burst");
}

#[test]
fn bare_line_feeds_start_at_column_zero() {
    let mut s = LogStore::new(DEFAULT_SCROLLBACK);
    s.resize(6, 40);
    s.process(b"first line\nsecond line\nthird line\n");
    let lines: Vec<String> = s
        .visible_lines()
        .iter()
        .map(|l| l.trim_end().to_string())
        .filter(|l| !l.is_empty())
        .collect();
    assert_eq!(lines, ["first line", "second line", "third line"]);
}

#[test]
fn carriage_return_line_feed_is_left_alone() {
    let mut s = LogStore::new(DEFAULT_SCROLLBACK);
    s.resize(6, 40);
    s.process(b"alpha\r\nbeta\r\n");
    let lines: Vec<String> = s
        .visible_lines()
        .iter()
        .map(|l| l.trim_end().to_string())
        .filter(|l| !l.is_empty())
        .collect();
    assert_eq!(lines, ["alpha", "beta"]);
}

#[test]
fn a_crlf_split_across_chunks_is_not_treated_as_a_bare_newline() {
    let mut s = LogStore::new(DEFAULT_SCROLLBACK);
    s.resize(6, 40);
    s.process(b"alpha\r");
    s.process(b"\nbeta\r\n");
    let lines: Vec<String> = s
        .visible_lines()
        .iter()
        .map(|l| l.trim_end().to_string())
        .filter(|l| !l.is_empty())
        .collect();
    assert_eq!(lines, ["alpha", "beta"]);
}

#[test]
fn a_line_split_mid_word_across_chunks_still_reads_correctly() {
    let mut s = LogStore::new(DEFAULT_SCROLLBACK);
    s.resize(6, 40);
    s.process(b"data");
    s.process(b"base ready\n");
    assert!(s
        .visible_lines()
        .iter()
        .any(|l| l.trim_end() == "database ready"));
}

#[test]
fn widening_rewraps_existing_output() {
    let mut s = LogStore::new(DEFAULT_SCROLLBACK);
    s.resize(10, 40);
    let long = "A".repeat(30) + &"B".repeat(30);
    s.process(format!("{long}\n").as_bytes());
    assert_eq!(non_empty(&s).len(), 2);

    s.resize(10, 100);
    let after = non_empty(&s);
    assert_eq!(after.len(), 1, "history should rewrap, got {after:?}");
    assert_eq!(after[0], long);
}

#[test]
fn narrowing_rewraps_existing_output() {
    let mut s = LogStore::new(DEFAULT_SCROLLBACK);
    s.resize(10, 100);
    let long = "A".repeat(30) + &"B".repeat(30);
    s.process(format!("{long}\n").as_bytes());
    assert_eq!(non_empty(&s).len(), 1);

    s.resize(10, 40);
    assert_eq!(non_empty(&s).len(), 2, "narrowing should rewrap too");
}

#[test]
fn shrinking_height_keeps_the_newest_lines_reachable() {
    let mut s = LogStore::new(DEFAULT_SCROLLBACK);
    s.resize(24, 100);
    for i in 0..400 {
        s.process(format!("L{i:03}\n").as_bytes());
    }
    assert_eq!(non_empty(&s).last().map(String::as_str), Some("L399"));

    s.resize(12, 100);
    s.scroll_to_bottom();
    assert_eq!(
        non_empty(&s).last().map(String::as_str),
        Some("L399"),
        "the tail must survive a height reduction"
    );
}

#[test]
fn growing_height_reveals_more_without_losing_the_tail() {
    let mut s = LogStore::new(DEFAULT_SCROLLBACK);
    s.resize(10, 100);
    for i in 0..400 {
        s.process(format!("L{i:03}\n").as_bytes());
    }
    s.resize(30, 100);
    let visible = non_empty(&s);
    assert_eq!(visible.last().map(String::as_str), Some("L399"));
    assert!(visible.len() > 10, "a taller pane should show more rows");
}

#[test]
fn a_height_only_change_keeps_the_content() {
    let mut s = LogStore::new(DEFAULT_SCROLLBACK);
    s.resize(10, 40);
    s.process(b"stable line\n");
    let before = non_empty(&s);
    s.resize(20, 40);
    assert_eq!(before, non_empty(&s));
}

#[test]
fn scroll_position_survives_a_widen() {
    let mut s = store_with(60);
    s.scroll_up(5);
    s.resize(10, 100);
    assert_eq!(s.scroll_offset(), 5, "widening should not move the reader");
}

#[test]
fn losing_height_pulls_a_scrolled_reader_back_by_the_rows_lost() {
    let mut s = store_with(60);
    s.scroll_up(10);
    s.resize(6, 40);
    assert_eq!(s.scroll_offset(), 6);
}

#[test]
fn a_tailing_reader_keeps_tailing_across_a_resize() {
    let mut s = store_with(60);
    assert!(tailing(&s));
    s.resize(10, 100);
    assert!(tailing(&s), "a reader at the bottom should stay there");
}

#[test]
fn the_retained_buffer_is_bounded_and_cut_at_a_line_boundary() {
    let mut s = LogStore::new(16);
    s.resize(5, 40);
    for i in 0..5_000 {
        s.process(format!("line {i} with some padding to take up room\n").as_bytes());
    }
    assert!(
        s.lines <= s.keep_lines * 2,
        "retained lines must stay bounded"
    );
    assert!(
        s.raw.starts_with(b"line "),
        "a trim must land on a line boundary, not mid-sequence"
    );
    s.resize(5, 100);
    assert!(non_empty(&s).iter().any(|l| l.contains("line 4999")));
}

#[test]
fn output_without_newlines_survives_a_resize() {
    let mut s = LogStore::new(16);
    s.resize(5, 40);
    s.process(b"visible content\n");
    let blob = vec![b'X'; MAX_RAW_BYTES + 1];
    s.process(&blob);

    assert!(
        !s.raw.is_empty(),
        "an oversized record must not discard every retained byte"
    );
    s.resize(5, 100);
    assert!(
        !non_empty(&s).is_empty(),
        "the pane went blank after a resize"
    );
}

#[test]
fn a_skipped_replay_is_retried_rather_than_lost() {
    let mut s = LogStore::new(DEFAULT_SCROLLBACK);
    s.resize(10, 40);
    let long = "A".repeat(30) + &"B".repeat(30);
    s.process(format!("{long}\n").as_bytes());

    s.raw.clear();
    s.lines = 0;
    s.resize(10, 100);
    assert!(s.replay_pending, "the replay should be recorded as owed");
    assert_eq!(non_empty(&s).len(), 2, "old wrapping is kept, not blanked");

    s.process(format!("{long}\n").as_bytes());
    s.resize(10, 100);
    assert!(!s.replay_pending);
    assert!(
        non_empty(&s).iter().any(|l| l == &long),
        "the retried rewrap should have unwrapped the line"
    );
}

#[test]
fn a_resize_never_blanks_a_pane_that_has_content() {
    let mut s = LogStore::new(DEFAULT_SCROLLBACK);
    s.resize(5, 40);
    s.process(b"still here\n");
    s.raw.clear();
    s.lines = 0;
    s.resize(5, 100);
    assert!(non_empty(&s).iter().any(|l| l.contains("still here")));
}

fn trim_then_resize(setup: &[u8]) -> LogStore {
    let mut s = LogStore::new(16);
    s.resize(5, 40);
    s.process(setup);
    let filler = "y".repeat(4096);
    for _ in 0..200 {
        s.process(format!("{filler}\n").as_bytes());
    }
    assert!(!s.pen.is_empty(), "a trim should have happened");
    s.resize(5, 100);
    s
}

#[test]
fn styling_set_before_the_retained_window_survives_a_resize() {
    let s = trim_then_resize(b"\x1b[31m");
    assert_eq!(
        s.screen().cell(0, 0).unwrap().fgcolor(),
        vt100::Color::Idx(1)
    );
}

#[test]
fn a_carried_pen_covers_attributes_and_backgrounds() {
    let s = trim_then_resize(b"\x1b[1m\x1b[4m\x1b[44m");
    let cell = s.screen().cell(0, 0).unwrap();
    assert!(cell.bold(), "bold should survive");
    assert!(cell.underline(), "underline should survive");
    assert_eq!(cell.bgcolor(), vt100::Color::Idx(4));
}

#[test]
fn a_carried_pen_covers_dim() {
    let s = trim_then_resize(b"\x1b[2m");
    assert!(s.screen().cell(0, 0).unwrap().dim(), "dim should survive");
}

#[test]
fn a_carried_pen_covers_bright_indexed_and_rgb_colours() {
    let bright = trim_then_resize(b"\x1b[91m");
    assert_eq!(
        bright.screen().cell(0, 0).unwrap().fgcolor(),
        vt100::Color::Idx(9)
    );

    let indexed = trim_then_resize(b"\x1b[38;5;200m");
    assert_eq!(
        indexed.screen().cell(0, 0).unwrap().fgcolor(),
        vt100::Color::Idx(200)
    );

    let rgb = trim_then_resize(b"\x1b[38;2;10;20;30m");
    assert_eq!(
        rgb.screen().cell(0, 0).unwrap().fgcolor(),
        vt100::Color::Rgb(10, 20, 30)
    );
}

#[test]
fn styling_set_part_way_through_the_dropped_prefix_survives_a_trim() {
    let mut s = LogStore::new(16);
    s.resize(5, 40);
    let filler = "y".repeat(4096);
    for _ in 0..10 {
        s.process(format!("{filler}\n").as_bytes());
    }
    s.process(b"\x1b[31m");
    for _ in 0..200 {
        s.process(format!("{filler}\n").as_bytes());
    }
    assert!(!s.pen.is_empty(), "a trim should have happened");
    s.resize(5, 100);
    assert_eq!(
        s.screen().cell(0, 0).unwrap().fgcolor(),
        vt100::Color::Idx(1),
        "a colour set inside the dropped prefix was lost"
    );
}

#[test]
fn styling_that_was_reset_before_the_trim_is_not_resurrected() {
    let s = trim_then_resize(b"\x1b[31m\x1b[0m");
    assert_eq!(
        s.screen().cell(0, 0).unwrap().fgcolor(),
        vt100::Color::Default
    );
}

#[test]
fn no_seven_bit_byte_but_escape_moves_the_pen() {
    let bold = b"\x1b[1;3;4;7;31;46m".as_slice();
    let dim = b"\x1b[2;3;4;7;31;46m".as_slice();

    let attrs = |seq: &[u8]| {
        let mut scratch = vt100::Parser::new(MIN_ROWS, MIN_COLS, 0);
        scratch.process(seq);
        scratch.process(b"x");
        let cell = scratch.screen().cell(0, 0).unwrap();
        (
            cell.bold(),
            cell.dim(),
            cell.italic(),
            cell.underline(),
            cell.inverse(),
            cell.fgcolor(),
            cell.bgcolor(),
        )
    };
    let colours = (vt100::Color::Idx(1), vt100::Color::Idx(6));
    assert_eq!(
        attrs(bold),
        (true, false, true, true, true, colours.0, colours.1),
        "the bold half of the pair is not set, so the loop below does not cover it"
    );
    assert_eq!(
        attrs(dim),
        (false, true, true, true, true, colours.0, colours.1),
        "the dim half of the pair is not set, so the loop below does not cover it"
    );

    for set in [bold, dim] {
        for byte in 0u8..=0x7f {
            if byte == 0x1b {
                continue;
            }
            let mut scratch = vt100::Parser::new(MIN_ROWS, MIN_COLS, 0);
            scratch.process(set);
            let before = scratch.screen().attributes_formatted();
            for _ in 0..4 {
                scratch.process(&[byte]);
                scratch.process(b"text");
                scratch.process(&[byte, byte]);
            }
            assert_eq!(
                scratch.screen().attributes_formatted(),
                before,
                "byte {byte:#04x} moved the pen set by {:?}, which the guard in `retain` \
                 says it cannot",
                String::from_utf8_lossy(set).escape_debug().to_string()
            );
        }
    }
}

#[test]
fn a_dropped_prefix_that_cannot_move_the_pen_leaves_it_alone() {
    let pens: [&[u8]; 6] = [
        b"",
        b"\x1b[31m",
        b"\x1b[1;2;3;4;7m",
        b"\x1b[38;5;200m",
        b"\x1b[48;2;10;20;30m",
        b"\x1b[91;42m",
    ];
    let plain: [&[u8]; 4] = [
        b"",
        b"plain output\r\n",
        b"a line\r\nand another one\r\n",
        b"\x07\x08\x09\x0b\x0c\x0d\x0e\x0f\x7f",
    ];
    for pen in pens {
        let carried = if pen.is_empty() {
            Vec::new()
        } else {
            pen_after(pen, &[])
        };
        for dropped in plain {
            assert!(
                !can_move_the_pen(dropped),
                "the guard flagged {:?}, so this case proves nothing",
                String::from_utf8_lossy(dropped).escape_debug().to_string()
            );
            assert_eq!(
                pen_after(&carried, dropped),
                pen_after(&carried, &[]),
                "pen {:?} moved across dropped bytes {:?}",
                String::from_utf8_lossy(&carried).escape_debug().to_string(),
                String::from_utf8_lossy(dropped).escape_debug().to_string(),
            );
        }
    }
}

#[test]
fn anything_with_an_escape_byte_in_it_still_reaches_the_parse() {
    let cases: [&[u8]; 4] = [
        b"\x1b[32m",
        b"\x1b[0mplain output\r\n",
        b"line\r\n\x1b[1mline\r\n",
        b"text \xc3\xa9 with a non-ascii byte\r\n",
    ];
    for dropped in cases {
        assert!(
            can_move_the_pen(dropped),
            "{:?} skipped the parse",
            String::from_utf8_lossy(dropped).escape_debug().to_string()
        );
    }
}

#[test]
fn colour_dense_lines_are_not_lost_by_a_rewrap() {
    let scrollback = 500;
    let mut s = LogStore::new(scrollback);
    s.resize(20, 80);
    for i in 0..scrollback {
        let mut line = format!("L{i:05} ");
        for c in 0..70 {
            line.push_str(&format!("\x1b[38;5;{}m", 16 + (c % 216)));
            line.push('x');
        }
        s.process(format!("{line}\n").as_bytes());
    }

    s.resize(20, 100);
    s.scroll_to_top();
    let after = non_empty(&s);
    assert!(
        after.iter().any(|l| l.trim_start().starts_with("L00000")),
        "the oldest retained line was lost by the rewrap: {:?}",
        after.first()
    );
}

#[test]
fn a_wide_pane_keeps_its_oldest_row_across_a_width_change() {
    let scrollback = 200;
    let mut s = LogStore::new(scrollback);
    s.resize(20, 1000);
    for i in 0..scrollback {
        s.process(format!("{i:04} {}\n", "w".repeat(980)).as_bytes());
    }

    s.scroll_to_top();
    let oldest = non_empty(&s)
        .first()
        .cloned()
        .expect("something should be on screen at the top");

    s.resize(20, 1100);
    s.scroll_to_top();
    let after = non_empty(&s);
    assert!(
        after.iter().any(|l| l.starts_with(&oldest[..8])),
        "oldest retained row was lost by the rewrap: {:?}",
        after.first()
    );
}

#[test]
fn the_retention_budget_grows_with_the_pane() {
    let mut s = LogStore::new(1000);
    s.resize(20, 80);
    let shallow = s.keep_lines;
    s.resize(60, 1000);
    assert!(
        s.keep_lines > shallow,
        "more visible rows means more history to reproduce: {shallow} -> {}",
        s.keep_lines
    );
}

#[test]
fn an_oversized_chunk_does_not_leave_its_allocation_behind() {
    let mut s = LogStore::new(16);
    s.resize(5, 40);
    s.process(&vec![b'z'; MAX_RAW_BYTES * 2]);
    assert!(
        s.raw.capacity() <= MAX_RAW_BYTES + MAX_RAW_BYTES / 2,
        "retained {} bytes of capacity for a {MAX_RAW_BYTES} byte ceiling",
        s.raw.capacity()
    );
}

#[test]
fn ansi_colour_is_interpreted_not_printed() {
    let mut s = LogStore::new(DEFAULT_SCROLLBACK);
    s.resize(10, 40);
    s.process(b"\x1b[31mRED\x1b[0m\r\n");
    let visible = s.visible_lines();
    assert!(visible.iter().any(|l| l.contains("RED")));
    assert!(
        !visible.iter().any(|l| l.contains("\x1b")),
        "escape sequences should be consumed by the emulator"
    );
    let cell = s.screen().cell(0, 0).unwrap();
    assert_eq!(cell.fgcolor(), vt100::Color::Idx(1));
}

#[test]
fn carriage_returns_rewrite_the_line() {
    let mut s = LogStore::new(DEFAULT_SCROLLBACK);
    s.resize(10, 40);
    s.process(b"50%\r100%\r\n");
    let visible = s.visible_lines();
    assert!(visible.iter().any(|l| l.starts_with("100%")));
}

#[test]
fn resizing_is_idempotent_and_clamps_to_a_safe_floor() {
    let mut s = store_with(5);
    s.resize(20, 60);
    assert_eq!(s.screen().size(), (20, 60));
    s.resize(0, 0);
    assert_eq!(s.screen().size(), (MIN_ROWS, MIN_COLS));
}

#[test]
fn collapsing_to_nothing_does_not_panic_while_replaying() {
    let mut s = store_with(40);
    for cols in [1, 2, 5, 19, 20, 21, 200, 1] {
        s.resize(1, cols);
    }
    assert!(s.screen().size().1 >= MIN_COLS);
}

#[test]
fn all_text_does_not_duplicate_lines_at_an_uneven_scrollback_depth() {
    let mut s = LogStore::new(DEFAULT_SCROLLBACK);
    s.resize(10, 40);
    for i in 0..45 {
        s.process(format!("line {i}\r\n").as_bytes());
    }
    let text = s.all_text();
    for i in 0..45 {
        let needle = format!("line {i}");
        let hits = text.lines().filter(|l| l.trim_end() == needle).count();
        assert_eq!(hits, 1, "expected exactly one 'line {i}', found {hits}");
    }
}

#[test]
fn all_text_covers_more_than_the_retained_window() {
    let mut s = LogStore::new(DEFAULT_SCROLLBACK);
    s.resize(10, 40);
    for i in 0..1500 {
        s.process(format!("line {i}\r\n").as_bytes());
    }
    let text = s.all_text();
    assert!(
        !text.contains("line 0\n"),
        "oldest lines should have been evicted"
    );
    assert!(text.contains("line 1499"), "newest line must be present");
    assert_eq!(
        text.lines().filter(|l| l.trim_end() == "line 1400").count(),
        1
    );
    assert_eq!(s.scroll_offset(), 0, "copying must not move the view");
}

#[test]
fn all_text_includes_scrolled_off_lines() {
    let mut s = store_with(40);
    let text = s.all_text();
    assert!(text.contains("line 0"), "expected scrollback in the copy");
    assert!(text.contains("line 39"), "expected the newest line too");
    assert!(tailing(&s), "copying must not disturb the scroll position");
}

#[test]
fn releasing_shrinks_the_grid_to_nothing() {
    let mut s = store_with(200);
    assert_eq!(s.screen().size(), (10, 40));

    s.release();

    assert_eq!(
        s.released_grid().size(),
        (MIN_ROWS, MIN_COLS),
        "the emulator was kept at its pane size"
    );
}

#[test]
fn a_released_store_comes_back_with_the_same_content() {
    let mut s = store_with(200);
    let before = non_empty(&s);
    let deep = {
        let mut probe = store_with(200);
        probe.scroll_to_top();
        non_empty(&probe)
    };

    s.release();
    s.resize(10, 40);

    assert_eq!(non_empty(&s), before, "the visible rows changed");
    s.scroll_to_top();
    assert_eq!(non_empty(&s), deep, "the scrollback did not come back");
}

#[test]
fn a_release_is_replayed_even_back_to_the_minimum_size() {
    let mut s = LogStore::new(DEFAULT_SCROLLBACK);
    s.resize(MIN_ROWS, MIN_COLS);
    s.process(b"hello\r\n");
    let before = non_empty(&s);

    s.release();
    s.resize(MIN_ROWS, MIN_COLS);

    assert_eq!(non_empty(&s), before, "the pane came back empty");

    s.process(b"and more\r\n");
    assert!(
        non_empty(&s).iter().any(|l| l == "and more"),
        "a reopened store never resumed parsing"
    );
}

#[test]
fn a_released_store_still_rewraps_at_the_width_it_reopens_at() {
    let line = "x".repeat(70);
    let mut released = LogStore::new(DEFAULT_SCROLLBACK);
    released.resize(10, 80);
    let mut resized = LogStore::new(DEFAULT_SCROLLBACK);
    resized.resize(10, 80);
    for i in 0..40 {
        let bytes = format!("\x1b[3{}m{i:03} {line}\r\n", 1 + i % 7);
        released.process(bytes.as_bytes());
        resized.process(bytes.as_bytes());
    }

    released.release();
    released.resize(10, 30);
    resized.resize(10, 30);

    assert_eq!(non_empty(&released), non_empty(&resized));
    assert_eq!(
        released.screen().contents_formatted(),
        resized.screen().contents_formatted()
    );
}

#[test]
fn a_store_that_has_never_had_output_still_releases() {
    let mut s = LogStore::new(DEFAULT_SCROLLBACK);
    assert_eq!(s.screen().size(), (INITIAL_ROWS, INITIAL_COLS));

    s.release();

    assert_eq!(s.released_grid().size(), (MIN_ROWS, MIN_COLS));
}

#[test]
fn output_arriving_while_released_is_retained_for_the_pane_it_returns_to() {
    let mut s = LogStore::new(2);
    s.resize(20, 40);
    s.process(b"before\r\n");

    s.release();
    for i in 0..30 {
        s.process(format!("while closed {i}\r\n").as_bytes());
    }
    s.resize(20, 40);

    let text = s.all_text();
    let kept = text.lines().filter(|l| l.contains("while closed")).count();
    assert!(
        kept >= 15,
        "only {kept} lines survived the closed period, of 30:\n{text}"
    );
}

#[test]
fn a_released_store_parses_nothing_while_off_screen() {
    let mut s = store_with(200);
    s.release();
    for i in 0..500 {
        s.process(format!("after {i}\r\n").as_bytes());
    }

    let grid = s.released_grid().contents();
    assert!(
        grid.trim().is_empty(),
        "the released emulator parsed output nothing can read:\n{grid}"
    );
}

#[test]
fn a_reopened_store_parses_again() {
    let mut s = store_with(200);
    s.release();
    s.resize(10, 40);

    s.process(b"after the reopen\r\n");

    let rows = non_empty(&s);
    assert!(
        rows.iter().any(|l| l == "after the reopen"),
        "a reopened store never resumed parsing:\n{rows:#?}"
    );
}

#[test]
fn the_first_output_after_a_release_survives_the_reopen() {
    let mut s = LogStore::new(DEFAULT_SCROLLBACK);
    s.release();

    s.process(b"first words\r\n");

    assert!(
        !s.released_grid().contents().contains("first words"),
        "the store parsed its first output while released"
    );

    s.resize(10, 40);

    let rows = non_empty(&s);
    assert!(
        rows.iter().any(|l| l == "first words"),
        "the first output a released store took in was lost:\n{rows:#?}"
    );
}

#[test]
fn output_arriving_while_released_reopens_identically() {
    let feed = |s: &mut LogStore, from: usize| {
        for i in from..from + 20 {
            s.process(format!("line {i}\r\n").as_bytes());
        }
    };
    let raw_of = |s: &LogStore| String::from_utf8_lossy(&s.raw).escape_debug().to_string();

    let mut released = LogStore::new(DEFAULT_SCROLLBACK);
    let mut kept = LogStore::new(DEFAULT_SCROLLBACK);
    for s in [&mut released, &mut kept] {
        s.resize(10, 40);
        s.process(b"\x1b[31mred from here on\r\n");
        feed(s, 0);
        s.process(b"line 20\r");
    }

    released.release();
    for s in [&mut released, &mut kept] {
        s.process(b"\n");
        feed(s, 21);
    }
    released.resize(10, 40);

    assert_eq!(
        raw_of(&released),
        raw_of(&kept),
        "the release changed what the store took in, not just what it parsed"
    );
    assert_eq!(
        released.screen().contents_formatted(),
        kept.screen().contents_formatted(),
        "a reopened pane differs from one that never closed"
    );
}

#[test]
fn the_carried_pen_survives_a_release() {
    let build = || {
        let mut s = LogStore::new(2);
        s.resize(4, 20);
        for i in 0..40 {
            let bytes = if i == 0 {
                format!("\x1b[31mline {i}\r\n")
            } else {
                format!("line {i}\r\n")
            };
            s.process(bytes.as_bytes());
        }
        s
    };
    let mut released = build();
    let resized = build();
    assert!(
        !released.pen.is_empty(),
        "the test is not exercising a trim, so it proves nothing"
    );

    released.release();
    released.resize(4, 20);

    assert_eq!(
        released.screen().contents_formatted(),
        resized.screen().contents_formatted(),
        "the styling carried across the trim was lost"
    );
}

#[test]
fn under_the_byte_ceiling_a_release_costs_history_a_reopen_used_to_keep() {
    let payload = {
        let padding = "\r".repeat(15_000);
        let mut v = Vec::new();
        for i in 0..600 {
            v.extend_from_slice(format!("line {i}{padding}\r\n").as_bytes());
        }
        v
    };
    let build = || {
        let mut s = LogStore::new(DEFAULT_SCROLLBACK);
        s.resize(10, 40);
        s.process(&payload);
        s
    };
    let oldest = |s: &mut LogStore| {
        let text = s.all_text();
        text.lines()
            .find_map(|l| l.trim().strip_prefix("line ").map(str::to_string))
            .and_then(|n| n.parse::<usize>().ok())
            .expect("some retained line")
    };

    let mut reopened = build();
    let mut released = build();
    assert!(
        reopened.lines < reopened.keep_lines,
        "the byte ceiling never bound: {} lines against a budget of {}",
        reopened.lines,
        reopened.keep_lines
    );
    let live = oldest(&mut reopened);

    reopened.resize(10, 40);
    assert_eq!(
        oldest(&mut reopened),
        live,
        "an unchanged resize lost history"
    );

    released.release();
    released.resize(10, 40);

    assert!(
        oldest(&mut released) > live,
        "expected the byte ceiling to cost history across a release"
    );
}

#[test]
fn crossing_the_byte_ceiling_while_released_reopens_on_the_newest_content() {
    let mut s = LogStore::new(DEFAULT_SCROLLBACK);
    s.resize(10, 40);
    s.process(b"before the release\r\n");
    s.release();

    let padding = "\r".repeat(15_000);
    let mut payload = Vec::new();
    for i in 0..600 {
        payload.extend_from_slice(format!("line {i}{padding}\r\n").as_bytes());
    }
    s.process(&payload);

    assert!(
        s.lines < s.keep_lines,
        "the byte ceiling never bound: {} lines against a budget of {}",
        s.lines,
        s.keep_lines
    );
    assert!(
        s.raw.len() <= MAX_RAW_BYTES,
        "retained {} bytes against a {MAX_RAW_BYTES} byte ceiling",
        s.raw.len()
    );
    assert!(
        s.raw.starts_with(b"line "),
        "the ceiling cut ignored the line boundary on offer: {:?}",
        String::from_utf8_lossy(&s.raw[..20.min(s.raw.len())])
    );

    s.resize(10, 40);
    let visible = non_empty(&s);
    assert!(
        visible.iter().any(|l| l == "line 599"),
        "the newest line did not come back: {visible:?}"
    );
}

#[test]
fn a_ceiling_cut_at_the_very_end_does_not_empty_a_released_buffer() {
    let mut s = LogStore::new(DEFAULT_SCROLLBACK);
    s.resize(10, 40);
    s.process(b"before the release\r\n");
    s.release();

    let mut payload = vec![b'\r'; MAX_RAW_BYTES];
    payload.extend_from_slice(b"tail line\r\n");
    s.process(&payload);

    assert!(!s.raw.is_empty(), "the ceiling cut took the whole buffer");

    s.resize(10, 40);
    assert_eq!(
        non_empty(&s),
        vec!["tail line".to_string()],
        "the newest line did not come back"
    );
}

#[test]
fn a_store_that_cannot_be_rebuilt_keeps_its_grid() {
    let mut s = store_with(200);
    s.raw.clear();
    s.lines = 0;

    s.release();

    assert_eq!(s.screen().size(), (10, 40));
    assert!(!non_empty(&s).is_empty(), "the pane was blanked");
}

#[test]
fn a_recreated_container_does_not_inherit_the_dead_one_s_held_row() {
    let mut s = LogStore::new(DEFAULT_SCROLLBACK);
    s.resize(10, 40);

    s.adopt("web-1-first", 1);
    s.process(b"Error: shutting");
    s.adopt("web-1-second", 1);
    s.process(b"listening on 8080\n");

    assert_eq!(
        non_empty(&s),
        vec!["Error: shutting", "listening on 8080"],
        "the dead container's row ran on into its replacement's first chunk"
    );
}

#[test]
fn the_break_a_recreate_makes_costs_exactly_one_row() {
    let mut s = LogStore::new(DEFAULT_SCROLLBACK);
    s.resize(10, 40);

    s.adopt("web-1-first", 1);
    s.process(b"Error: shutting");
    s.adopt("web-1-second", 1);
    s.process(b"listening on 8080\n");

    let rows = s.visible_lines();
    assert_eq!(rows[0].trim_end(), "Error: shutting");
    assert_eq!(
        rows[1].trim_end(),
        "listening on 8080",
        "a blank row was pushed between the two containers"
    );
    assert_eq!(
        s.raw.iter().filter(|b| **b == b'\n').count(),
        2,
        "the break spent more than one line of the retention budget"
    );
}

#[test]
fn the_break_is_the_stream_s_own_newline() {
    let mut s = LogStore::new(DEFAULT_SCROLLBACK);
    s.resize(10, 40);

    s.adopt("web-1-first", 1);
    s.process(b"downloading 50%\r");
    s.adopt("web-1-second", 1);

    let mut expected = b"downloading 50%\r".to_vec();
    expected.extend_from_slice(&HANDOVER);
    expected.push(b'\n');
    assert_eq!(
        s.raw, expected,
        "the break wrote a carriage return no container sent"
    );
    assert!(
        !s.pending_cr,
        "the break left the carry claiming a carriage return is still open"
    );

    s.process(b"\nlistening on 8080\n");
    expected.extend_from_slice(b"\r\nlistening on 8080\r\n");
    assert_eq!(
        s.raw, expected,
        "the carry the break left behind ate the next chunk's carriage return"
    );
}

#[test]
fn the_break_a_recreate_makes_survives_a_replay() {
    let mut s = LogStore::new(DEFAULT_SCROLLBACK);
    s.resize(10, 80);

    s.adopt("web-1-first", 1);
    s.process(b"Error: shutting");
    s.adopt("web-1-second", 1);
    s.process(b"listening on 8080\n");

    s.resize(10, 40);

    assert_eq!(
        non_empty(&s),
        vec!["Error: shutting", "listening on 8080"],
        "the replay spliced the two containers back together"
    );
}

#[test]
fn a_recreate_while_released_still_breaks_the_row() {
    let mut s = LogStore::new(DEFAULT_SCROLLBACK);
    s.resize(10, 40);
    s.adopt("web-1-first", 1);
    s.process(b"Error: shutting");

    s.release();
    assert_eq!(
        s.released_grid().size(),
        (MIN_ROWS, MIN_COLS),
        "the store was never released, so this is only the replay test again"
    );

    s.adopt("web-1-second", 1);
    s.process(b"listening on 8080\n");
    s.resize(10, 40);

    assert_eq!(
        non_empty(&s),
        vec!["Error: shutting", "listening on 8080"],
        "a recreate that happened off-screen was spliced by the replay"
    );
}

#[test]
fn one_container_s_row_is_still_joined_across_chunks() {
    let mut s = LogStore::new(DEFAULT_SCROLLBACK);
    s.resize(10, 40);

    s.adopt("web-1-first", 1);
    s.process(b"GET /one");
    s.adopt("web-1-first", 1);
    s.process(b" 200\n");

    assert_eq!(non_empty(&s), vec!["GET /one 200"]);
    assert_eq!(
        s.raw, b"GET /one 200\r\n",
        "an unchanged identity wrote a break into the retained buffer"
    );
}

#[test]
fn a_recreate_on_a_line_boundary_adds_no_blank_row() {
    let mut s = LogStore::new(DEFAULT_SCROLLBACK);
    s.resize(10, 40);

    s.adopt("web-1-first", 1);
    s.process(b"clean exit\n");
    s.adopt("web-1-second", 1);
    s.process(b"listening on 8080\n");

    let rows = s.visible_lines();
    assert_eq!(rows[0].trim_end(), "clean exit");
    assert_eq!(
        rows[1].trim_end(),
        "listening on 8080",
        "a blank row was pushed between the two containers"
    );
    assert_eq!(
        s.raw.iter().filter(|b| **b == b'\n').count(),
        2,
        "a blank line was written into the retained buffer"
    );
}

#[test]
fn the_first_container_to_write_gets_no_leading_break() {
    let mut s = LogStore::new(DEFAULT_SCROLLBACK);
    s.resize(10, 40);

    s.adopt("web-1-first", 1);
    s.process(b"listening on 8080\n");

    assert_eq!(
        s.visible_lines()[0].trim_end(),
        "listening on 8080",
        "the pane's first row was given away to a blank"
    );
    assert_eq!(
        s.raw.iter().filter(|b| **b == b'\n').count(),
        1,
        "a leading blank line was written into the retained buffer"
    );
}

#[test]
fn a_recreate_part_way_through_a_progress_rewrite_still_breaks_the_row() {
    let mut s = LogStore::new(DEFAULT_SCROLLBACK);
    s.resize(10, 40);

    s.adopt("web-1-first", 1);
    s.process(b"downloading 50%\r");
    s.adopt("web-1-second", 1);
    s.process(b"listening on 8080\n");

    assert_eq!(
        non_empty(&s),
        vec!["downloading 50%", "listening on 8080"],
        "the replacement overwrote the dead container's progress row"
    );
}

#[test]
fn a_recreate_after_the_buffer_has_been_trimmed_still_breaks_the_row() {
    let mut s = LogStore::new(1);
    s.resize(MIN_ROWS, MIN_COLS);

    s.adopt("web-1-first", 1);
    for i in 0..40 {
        s.process(format!("line {i}\n").as_bytes());
    }
    let before = s.raw.len();
    s.process(b"a\nb\nc\nd\ne\nf\ng\nh\ni\nj\nheld tail");
    assert!(
        s.raw.len() < before,
        "the write that left the tail did not trim: {before} bytes -> {}",
        s.raw.len()
    );

    s.adopt("web-1-second", 1);
    s.process(b"new container\n");

    assert_eq!(
        non_empty(&s),
        vec!["held tail", "new container"],
        "a trimmed buffer lost the break"
    );
}

#[test]
fn a_reattach_of_the_same_container_does_not_continue_the_held_row() {
    let mut s = LogStore::new(DEFAULT_SCROLLBACK);
    s.resize(10, 40);

    s.adopt("web-1", 1);
    s.process(b"GET /one");
    s.adopt("web-1", 2);
    s.process(b"GET /one 200\n");

    assert_eq!(
        non_empty(&s),
        vec!["GET /one", "GET /one 200"],
        "the reattach's replay ran on into the row the first attach held"
    );
}

#[test]
fn an_attach_id_that_goes_backwards_still_ends_the_row() {
    let mut s = LogStore::new(DEFAULT_SCROLLBACK);
    s.resize(10, 40);

    s.adopt("web-1", 2);
    s.process(b"GET /one");
    s.adopt("web-1", 1);
    s.process(b"GET /one 200\n");

    assert_eq!(
        non_empty(&s),
        vec!["GET /one", "GET /one 200"],
        "the row was held because the new attach id was not larger"
    );
}

#[test]
fn a_recreate_does_not_leave_the_replacement_inside_a_half_written_sequence() {
    for (state, tail) in [
        ("a CSI part way through its parameters", &b"tail\x1b[3"[..]),
        ("a bare ESC", &b"tail\x1b"[..]),
        ("an ESC that has taken an intermediate", &b"tail\x1b("[..]),
    ] {
        let mut s = LogStore::new(DEFAULT_SCROLLBACK);
        s.resize(10, 40);

        s.adopt("web-1-first", 1);
        s.process(tail);
        s.adopt("web-1-second", 1);
        s.process(b"new line\n");

        assert_eq!(
            non_empty(&s),
            vec!["tail", "new line"],
            "{state}: the dead container's unfinished sequence ate the \
             replacement's output"
        );
    }
}

#[test]
fn a_recreate_inside_a_string_sequence_does_not_swallow_the_replacement() {
    for (introducer, tail) in [
        ("OSC", &b"tail\x1b]0;serv"[..]),
        ("DCS", &b"tail\x1bPq#0"[..]),
        ("APC", &b"tail\x1b_data"[..]),
        ("PM", &b"tail\x1b^msg"[..]),
    ] {
        let mut s = LogStore::new(DEFAULT_SCROLLBACK);
        s.resize(10, 40);

        s.adopt("web-1-first", 1);
        s.process(tail);
        s.adopt("web-1-second", 1);
        s.process(b"new line\nand another\n");

        assert_eq!(
            non_empty(&s),
            vec!["tail", "new line", "and another"],
            "{introducer}: the dead container's unterminated string \
             swallowed the replacement"
        );
    }
}

#[test]
fn a_recreate_does_not_render_the_replacement_in_the_dead_container_s_pen() {
    let mut s = LogStore::new(DEFAULT_SCROLLBACK);
    s.resize(10, 40);

    s.adopt("web-1-first", 1);
    s.process(b"\x1b[31mError: exiting\n");
    s.adopt("web-1-second", 1);
    s.process(b"listening on 8080\n");

    let dead = s.screen().cell(0, 0).expect("the dead container's row");
    assert_ne!(
        dead.fgcolor(),
        vt100::Color::Default,
        "the dead container never set a colour, so nothing here is under test"
    );
    let replacement = s.screen().cell(1, 0).expect("the replacement's row");
    assert_eq!(
        replacement.fgcolor(),
        vt100::Color::Default,
        "the replacement is rendering in the dead container's colour"
    );
}

#[test]
fn a_recreate_brings_a_pane_back_from_the_alternate_screen() {
    let mut s = LogStore::new(DEFAULT_SCROLLBACK);
    s.resize(10, 40);

    s.adopt("web-1-first", 1);
    s.process(b"serving requests\n");
    s.process(b"\x1b[?1049h");
    assert!(
        non_empty(&s).is_empty(),
        "the switch to the alternate screen did nothing, so nothing is under test"
    );

    s.adopt("web-1-second", 1);
    s.process(b"listening on 8080\n");

    assert_eq!(
        non_empty(&s),
        vec!["serving requests", "listening on 8080"],
        "the pane is still showing the dead container's alternate screen"
    );
}

#[test]
fn the_handover_saves_the_cursor_on_the_grid_it_puts_it_back_on() {
    let mut s = LogStore::new(DEFAULT_SCROLLBACK);
    s.resize(10, 40);

    s.adopt("web-1-first", 1);
    s.process(b"serving requests\nstill serving\n");
    s.process(b"\x1b[?47h");
    assert!(
        non_empty(&s).is_empty(),
        "the switch to the alternate screen did nothing, so nothing is under test"
    );

    s.adopt("web-1-second", 1);
    s.process(b"listening on 8080\n");

    assert_eq!(
        non_empty(&s),
        vec!["serving requests", "still serving", "listening on 8080"],
        "the handover saved the cursor on the alternate grid and restored it \
         on the primary one"
    );
}

#[test]
fn a_recreate_is_not_confined_to_the_dead_container_s_scroll_region() {
    let mut s = LogStore::new(DEFAULT_SCROLLBACK);
    s.resize(10, 40);

    s.adopt("web-1-first", 1);
    s.process(b"\x1b[1;4r");
    for i in 0..20 {
        s.process(format!("dead {i}\n").as_bytes());
    }
    s.scroll_to_top();
    assert_eq!(
        s.scroll_offset(),
        0,
        "the scroll region never bound, so nothing here is under test"
    );
    s.scroll_to_bottom();

    s.adopt("web-1-second", 1);
    for i in 0..20 {
        s.process(format!("live {i}\n").as_bytes());
    }

    s.scroll_to_top();
    assert!(
        s.scroll_offset() > 0,
        "the replacement is still scrolling inside the dead container's \
         region, so the pane retains no history"
    );
    assert!(
        s.all_text().contains("live 0"),
        "the replacement's earliest output fell out of the dead \
         container's region and was lost"
    );
}

#[test]
fn a_recreate_is_not_confined_to_a_region_on_the_alternate_grid() {
    let mut s = LogStore::new(DEFAULT_SCROLLBACK);
    s.resize(10, 40);

    s.adopt("web-1-first", 1);
    s.process(b"serving requests\n");
    s.process(b"\x1b[?47h");
    s.process(b"\x1b[3;5r");
    for i in 0..8 {
        if i > 0 {
            s.process(b"\r\n");
        }
        s.process(format!("dead {i}").as_bytes());
    }
    assert_eq!(
        non_empty(&s),
        vec!["dead 5", "dead 6", "dead 7"],
        "the dead container's region did not bind on the alternate grid, \
         so there is nothing here to inherit"
    );

    s.adopt("web-1-second", 1);
    s.process(b"\x1b[?47h");
    for i in 0..12 {
        s.process(format!("live {i}\r\n").as_bytes());
    }

    let mut control = LogStore::new(DEFAULT_SCROLLBACK);
    control.resize(10, 40);
    control.adopt("web-1-second", 1);
    control.process(b"\x1b[?47h");
    for i in 0..12 {
        control.process(format!("live {i}\r\n").as_bytes());
    }

    assert_eq!(
        non_empty(&s),
        non_empty(&control),
        "the replacement is confined to a scroll region the dead container \
         left on the alternate grid"
    );
}

#[test]
fn a_recreate_does_not_continue_a_row_left_on_the_alternate_grid() {
    let mut s = LogStore::new(DEFAULT_SCROLLBACK);
    s.resize(10, 40);

    s.adopt("web-1-first", 1);
    s.process(b"serving requests\n");
    s.process(b"\x1b[?47h");
    s.process(b"\x1b[1;1HDEAD TOP");
    s.process(b"\x1b[2;1HDEAD MID");
    assert_eq!(
        non_empty(&s),
        vec!["DEAD TOP", "DEAD MID"],
        "the dead container wrote nothing to the alternate grid, so there \
         is nothing here to inherit"
    );

    s.adopt("web-1-second", 1);
    s.process(b"\x1b[?47h");
    s.process(b"live 1\r\nlive 2\r\n");

    let mut control = LogStore::new(DEFAULT_SCROLLBACK);
    control.resize(10, 40);
    control.adopt("web-1-second", 1);
    control.process(b"\x1b[?47h");
    control.process(b"live 1\r\nlive 2\r\n");

    assert_eq!(
        non_empty(&s),
        non_empty(&control),
        "the replacement inherited the dead container's alternate grid"
    );
}

#[test]
fn a_recreate_leaves_a_scrolled_up_reader_s_offset_where_it_found_it() {
    let mut s = LogStore::new(DEFAULT_SCROLLBACK);
    s.resize(10, 40);
    s.adopt("web-1-first", 1);
    for i in 0..50 {
        s.process(format!("line {i}\n").as_bytes());
    }
    s.scroll_up(20);
    let before = s.scroll_offset();
    assert!(before > 0, "the reader never left the bottom");
    assert_eq!(
        s.raw.last().copied(),
        Some(b'\n'),
        "`raw` does not end on a newline, so the handover writes a break \
         and the offset is entitled to move"
    );

    s.adopt("web-1-second", 1);

    assert_eq!(
        s.scroll_offset(),
        before,
        "the handover moved a scrolled-up reader's offset"
    );
}

#[test]
fn the_scroll_region_reset_survives_a_replay() {
    let mut control = LogStore::new(DEFAULT_SCROLLBACK);
    control.resize(10, 80);
    control.adopt("web-1-first", 1);
    control.process(b"\x1b[1;4rdead output\n");
    control.resize(10, 40);
    for i in 0..20 {
        control.process(format!("live {i}\n").as_bytes());
    }
    control.scroll_to_top();
    assert_eq!(
        control.scroll_offset(),
        0,
        "the region did not survive the replay on its own, so nothing here \
         is under test"
    );

    let mut s = LogStore::new(DEFAULT_SCROLLBACK);
    s.resize(10, 80);
    s.adopt("web-1-first", 1);
    s.process(b"\x1b[1;4rdead output\n");
    s.adopt("web-1-second", 1);
    s.resize(10, 40);
    for i in 0..20 {
        s.process(format!("live {i}\n").as_bytes());
    }
    s.scroll_to_top();
    assert!(
        s.scroll_offset() > 0,
        "the replay put the dead container's scroll region back"
    );
}

#[test]
fn resetting_the_scroll_region_does_not_move_the_cursor() {
    let mut s = LogStore::new(DEFAULT_SCROLLBACK);
    s.resize(10, 40);

    s.adopt("web-1-first", 1);
    s.process(b"\x1b[1;4rfirst\nsecond\nthird\n");

    s.adopt("web-1-second", 1);
    s.process(b"listening on 8080\n");

    assert_eq!(
        non_empty(&s),
        vec!["first", "second", "third", "listening on 8080"],
        "the dead container's output did not survive the handover intact"
    );
}

#[test]
fn a_recreate_does_not_leave_the_dead_container_s_pen_where_a_restore_finds_it() {
    let mut s = LogStore::new(DEFAULT_SCROLLBACK);
    s.resize(10, 40);

    s.adopt("web-1-first", 1);
    s.process(b"\x1b[31mError: exiting\n");
    s.adopt("web-1-second", 1);
    s.process(b"\x1b8listening on 8080\n");

    assert_eq!(
        non_empty(&s),
        vec!["Error: exiting", "listening on 8080"],
        "the successor's restore put the cursor on the dead container's row"
    );
    let dead = s.screen().cell(0, 0).expect("the dead container's row");
    assert_ne!(
        dead.fgcolor(),
        vt100::Color::Default,
        "the dead container never set a colour, so nothing here is under test"
    );
    let replacement = s.screen().cell(1, 0).expect("the replacement's row");
    assert_eq!(
        replacement.fgcolor(),
        vt100::Color::Default,
        "the successor's restore handed back the dead container's pen"
    );
}

#[test]
fn a_trim_that_orphans_the_handover_s_cursor_restore_changes_nothing() {
    let mut s = LogStore::new(16);
    s.resize(5, 40);
    s.adopt("web-1-first", 1);
    s.process(b"\x1b[1;3rgoodbye\n");
    s.adopt("web-1-second", 1);

    let blob = vec![b'X'; MAX_RAW_BYTES - 21];
    s.process(&blob);
    assert!(
        s.raw.starts_with(b"\x1b[r\x1b8\x1b[?1049h\x1b[?1049l"),
        "the cut did not orphan a cursor restore, so nothing is under test"
    );

    let tail = s.raw.clone();
    s.resize(5, 100);

    let mut control = LogStore::new(16);
    control.resize(5, 40);
    control.process(&tail[..3]);
    control.process(&tail[5..]);
    control.resize(5, 100);

    assert_eq!(
        non_empty(&s),
        non_empty(&control),
        "the orphaned cursor restore moved the replay's cursor"
    );
}

#[test]
fn the_handover_a_recreate_makes_survives_a_replay() {
    let mut s = LogStore::new(DEFAULT_SCROLLBACK);
    s.resize(10, 80);

    s.adopt("web-1-first", 1);
    s.process(b"\x1b[31mtail\x1b[3");
    s.adopt("web-1-second", 1);
    s.process(b"new line\n");

    s.resize(10, 40);

    assert_eq!(
        non_empty(&s),
        vec!["tail", "new line"],
        "the replay put the replacement back inside the dead container's sequence"
    );
    let replacement = s.screen().cell(1, 0).expect("the replacement's row");
    assert_eq!(
        replacement.fgcolor(),
        vt100::Color::Default,
        "the replay put the dead container's colour back on the replacement"
    );
}

#[test]
fn a_recreate_while_released_still_resets_the_emulator() {
    let mut s = LogStore::new(DEFAULT_SCROLLBACK);
    s.resize(10, 40);
    s.adopt("web-1-first", 1);
    s.process(b"\x1b[31mtail\x1b[3");

    s.release();
    assert_eq!(
        s.released_grid().size(),
        (MIN_ROWS, MIN_COLS),
        "the store was never released, so this is only the replay test again"
    );

    s.adopt("web-1-second", 1);
    s.process(b"new line\n");
    s.resize(10, 40);

    assert_eq!(
        non_empty(&s),
        vec!["tail", "new line"],
        "a recreate that happened off-screen left the sequence open"
    );
    let replacement = s.screen().cell(1, 0).expect("the replacement's row");
    assert_eq!(
        replacement.fgcolor(),
        vt100::Color::Default,
        "a recreate that happened off-screen left the pen set"
    );
}

#[test]
fn adopting_a_store_nothing_has_written_to_writes_nothing() {
    let mut s = LogStore::new(DEFAULT_SCROLLBACK);
    s.resize(10, 40);

    s.adopt("web-1-first", 1);

    assert!(
        s.raw.is_empty(),
        "the handover was written before any container had"
    );
    assert!(
        !s.has_output(),
        "the pane's waiting placeholder was replaced by a blank screen"
    );
}

#[test]
fn a_recreate_does_not_move_a_scrolled_up_reader() {
    let mut s = LogStore::new(DEFAULT_SCROLLBACK);
    s.resize(10, 40);
    s.adopt("web-1-first", 1);
    for i in 0..50 {
        s.process(format!("line {i}\n").as_bytes());
    }
    s.process(b"held tail");
    s.scroll_up(20);
    assert!(s.scroll_offset() > 0, "the reader never left the bottom");

    let before = s.visible_lines();
    s.adopt("web-1-second", 1);

    assert_eq!(
        s.visible_lines(),
        before,
        "a recreate moved a scrolled-up reader's view"
    );
}

#[test]
fn the_carried_pen_reproduces_every_attribute() {
    let sgr = [
        "\x1b[0m",
        "\x1b[1m",
        "\x1b[2m",
        "\x1b[3m",
        "\x1b[4m",
        "\x1b[7m",
        "\x1b[31m",
        "\x1b[42m",
        "\x1b[38;5;200m",
        "\x1b[48;2;10;20;30m",
        "\x1b[91m",
    ];
    let attrs = |parser: &vt100::Parser| {
        let cell = parser.screen().cell(0, 0).unwrap();
        (
            cell.bold(),
            cell.dim(),
            cell.italic(),
            cell.underline(),
            cell.inverse(),
            cell.fgcolor(),
            cell.bgcolor(),
        )
    };
    for first in 0..sgr.len() {
        for second in 0..sgr.len() {
            let bytes = [sgr[first], sgr[second], sgr[(first + 5) % sgr.len()]].concat();
            for split in 0..=bytes.len() {
                let (prefix, dropped) = bytes.as_bytes().split_at(split);
                let mut reference = vt100::Parser::new(MIN_ROWS, MIN_COLS, 0);
                reference.process(prefix);
                reference.process(dropped);
                reference.process(b"x");
                let mut replayed = vt100::Parser::new(MIN_ROWS, MIN_COLS, 0);
                replayed.process(&pen_after(prefix, dropped));
                replayed.process(b"x");
                assert_eq!(attrs(&replayed), attrs(&reference), "{bytes:?} at {split}");
            }
        }
    }
}
