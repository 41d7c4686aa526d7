use composemux::app::App;
use composemux::app_model::{ExitReason, SelectionMode};
use composemux::config::{AutoExit, Config};
use composemux::filter::{Filter, FilterState};
use composemux::focus::{Focus, FocusStack};
use composemux::keys::{command_for, Command, KeyCode, KeyEvent, KeyTarget, ScrollDirection};
use composemux::layout::{LayoutManager, LayoutMode, ListVisibility, PaneArrangement};
use composemux::service::{Service, ServiceKey, ServiceStatus};
use composemux::store::{
    bytecount, can_move_the_pen, keep_lines_for, pen_after, LogStore, HANDOVER, MAX_RAW_BYTES,
};
use composemux::stream::{frame_events, ContainerDesc, SourceEvent, MAX_CHUNK_BYTES};
use composemux::text::{split_text, text_contains};

const SECOND: u128 = 1_000_000_000;

fn svc(name: &str, status: ServiceStatus) -> Service {
    Service {
        name: name.to_string(),
        replica: 1,
        status,
    }
}

fn app_with(names: &[&str]) -> App {
    let cfg = Config::default();
    let mut app = App::new("test", &cfg, 0);
    app.set_services(
        names
            .iter()
            .map(|n| svc(n, ServiceStatus::Running))
            .collect(),
    );
    app
}

fn press(app: &mut App, code: KeyCode) {
    app.handle_key(KeyEvent::new(code, false), 0, 1);
}

fn store_at(scrollback: usize, rows: u16, cols: u16) -> LogStore {
    let mut store = LogStore::new(scrollback);
    store.resize(rows, cols);
    store
}

// ---- the store ----

#[test]
fn every_newline_that_is_kept_follows_a_carriage_return() {
    let mut store = store_at(100, 10, 40);
    store.process(b"a\nb\r\nc\r");
    store.process(b"\nd\n\n");
    assert_eq!(store.raw, b"a\r\nb\r\nc\r\nd\r\n\r\n");
    assert_eq!(store.lines, 5);
    assert_eq!(bytecount(&store.raw), 5);
}

#[test]
fn where_a_stream_is_cut_makes_no_difference_to_what_is_kept() {
    let input = b"one\ntwo\r\nthree\r\r\nfour \x1b[31mred\x1b[m\n\n";
    let mut whole = store_at(100, 10, 40);
    whole.process(input);
    for cut in 0..input.len() {
        let mut split = store_at(100, 10, 40);
        split.process(&input[..cut]);
        split.process(&input[cut..]);
        assert_eq!(split.raw, whole.raw, "cut at {cut}");
        assert_eq!(split.pending_cr, whole.pending_cr);
    }
}

/// Whether the emulator drops a byte where output is cut there: a newline has a
/// carriage return put before it on the way.
fn swallows(before: &[u8], after: &[u8]) -> bool {
    matches!(before.last(), Some(0xc2..=0xdf))
        && after.len() >= 3
        && (0x80..=0xbf).contains(&after[0])
        && after[1] < 0x80
        && after[1] != b'\n'
        && after[2] >= 0x80
}

/// What a store shows, and how it goes on.
fn shown(store: &mut LogStore) -> (Vec<u8>, String, usize, bool, bool) {
    (
        store.screen().contents_formatted(),
        store.all_text(),
        store.scroll_offset(),
        store.has_output(),
        store.pending_cr,
    )
}

#[test]
fn a_cut_makes_no_difference_to_the_screen() {
    let mut dice = Dice(23);
    let fragments: [&[u8]; 16] = [
        b"a",
        b"plain text",
        b"\r\n",
        b"\n",
        b"\r",
        b"\x1b[31m",
        b"\x1b[1;38;5;200m",
        b"\x1b[2A",
        b"\x1b]0;title\x07",
        b"\x1bPq\xe2\x9c\x94",
        b"\x18",
        "\u{e9}".as_bytes(),
        "\u{20ac}\u{4e2d}".as_bytes(),
        "\u{1f600}".as_bytes(),
        b"\xc3",
        b"\x9b\xff",
    ];
    let mut through_characters = 0;
    for _ in 0..60 {
        let mut input = Vec::new();
        for _ in 0..24 {
            input.extend_from_slice(fragments[dice.below(16) as usize]);
        }
        let scrolled = dice.below(4) as u16;
        let start = || {
            let mut store = store_at(3, 4, 20);
            store.process(b"1\n2\n3\n4\n5\n6\n7\n8\n");
            store.scroll_up(scrolled);
            store
        };
        let mut whole = start();
        whole.process(&input);
        let whole = shown(&mut whole);
        for cut in 1..input.len() {
            if !swallows(&input[..cut], &input[cut..]) {
                let mut split = start();
                split.process(&input[..cut]);
                split.process(&input[cut..]);
                assert_eq!(shown(&mut split), whole, "{input:?} cut at {cut}");
                if input[cut - 1] >= 0x80 && (0x80..=0xbf).contains(&input[cut]) {
                    through_characters += 1;
                }
            }
        }
        for size in [1, 2, 3, 5, 7] {
            let mut at = 0;
            let mut split = start();
            let mut clean = true;
            for piece in input.chunks(size) {
                clean = clean && !swallows(&input[..at], piece);
                split.process(piece);
                at += piece.len();
            }
            if clean {
                assert_eq!(shown(&mut split), whole, "{input:?} in pieces of {size}");
            }
        }
    }
    assert!(through_characters > 100, "the cuts went round the characters");
}

#[test]
fn a_cut_inside_any_character_reads_like_none() {
    for c in ['\u{e9}', '\u{20ac}', '\u{1f600}'] {
        let text = format!("k{c}\r\nq{c}{c} and {c}x\n");
        let bytes = text.as_bytes();
        let mut whole = store_at(100, 10, 40);
        whole.process(bytes);
        for cut in 0..bytes.len() {
            let mut split = store_at(100, 10, 40);
            split.process(&bytes[..cut]);
            split.process(&bytes[cut..]);
            assert_eq!(shown(&mut split), shown(&mut whole), "{text:?} at {cut}");
        }
    }
}

#[test]
fn plain_text_leaves_the_pen_where_it_was() {
    let plain = b"text\r\n\tand more\x07\x7f";
    assert!(!can_move_the_pen(plain));
    for carried in [&b""[..], b"\x1b[31m", b"\x1b[1;4mbold", b"\x1b[m\x1b[48;2;1;2;3m"] {
        let kept = pen_after(carried, b"");
        assert_eq!(pen_after(carried, plain), kept);
        assert_eq!(pen_after(&kept, b""), kept, "a pen stands for itself");
        assert_eq!(pen_after(&kept, plain), kept);
    }
    assert_eq!(pen_after(b"\x1b[31m", b"x"), b"\x1b[m\x1b[31m");
}

#[test]
fn a_released_grid_is_blank_and_stays_so() {
    let mut store = store_at(20, 6, 40);
    store.process(b"one\ntwo \x1b[31mred\n");
    store.release();
    let fresh = vt100::Parser::new(3, 20, 0);
    for _ in 0..3 {
        assert_eq!(store.released_grid().size(), (3, 20));
        assert_eq!(store.released_grid().contents(), "");
        for row in 0..3 {
            for col in 0..20 {
                assert_eq!(
                    store.released_grid().cell(row, col),
                    fresh.screen().cell(row, col)
                );
            }
        }
        assert!(store.released_grid().rows(0, 20).all(|row| row.is_empty()));
        store.process(b"more output\n");
    }
    store.resize(6, 40);
    assert!(store.all_text().contains("more output"));
}

#[test]
fn the_carry_says_how_the_kept_bytes_end() {
    let mut store = store_at(20, 6, 40);
    for chunk in [&b"a\r"[..], b"\n", b"b\r\r", b"", b"c", b"\r"] {
        store.process(chunk);
        assert_eq!(store.pending_cr, store.raw.last() == Some(&b'\r'));
    }
    store.adopt("next", 1);
    assert_eq!(store.raw.last(), Some(&b'\n'));
    assert!(!store.pending_cr);
}

#[test]
fn a_handover_leaves_the_reader_where_they_were() {
    let left: [&[u8]; 5] = [b"", b"\x1b[", b"\x1b]0;half", b"\xe2\x82", b"\x1b[2;3r"];
    for open in left {
        let mut store = store_at(20, 4, 40);
        for i in 0..12 {
            store.process(format!("line {i}\n").as_bytes());
        }
        store.process(open);
        if open.is_empty() {
            store.scroll_up(3);
            let before = store.visible_lines();
            store.adopt("next", 1);
            assert_eq!(store.scroll_offset(), 3);
            assert_eq!(store.visible_lines(), before);
        } else {
            store.scroll_up(4);
            let before = store.visible_lines();
            store.adopt("next", 1);
            assert!(store.scroll_offset() >= 4, "after {open:?}");
            assert_eq!(store.visible_lines(), before, "after {open:?}");
        }
    }
}

#[test]
fn every_kind_of_white_space_is_blank() {
    for c in ['\u{20}', '\u{a0}', '\u{2003}', '\u{202f}', '\u{3000}'] {
        let mut store = store_at(20, 3, 20);
        store.process(format!("top\n{c}{c}").as_bytes());
        assert_eq!(store.all_text(), "top\n", "{c:?}");
    }
    let mut store = store_at(20, 3, 20);
    store.process("top\n\u{b7}".as_bytes());
    assert_eq!(store.all_text(), "top\n\u{b7}\n");
}

#[test]
fn the_newest_lines_survive_a_trim_and_the_oldest_go() {
    let mut store = store_at(4, 3, 40);
    assert_eq!(store.keep_lines, 7);
    for i in 0..15 {
        store.process(format!("{i}\n").as_bytes());
    }
    assert_eq!(store.lines, 7, "the surplus was worth a trim");
    assert!(store.raw.starts_with(b"8\r\n"), "{:?}", store.raw);
    assert!(store.raw.ends_with(b"14\r\n"));
}

#[test]
fn a_trim_under_the_ceiling_prefers_a_line_boundary() {
    let mut store = store_at(1_000, 10, 40);
    store.process(&vec![b'a'; 1_000]);
    store.process(b"\n");
    store.process(&vec![b'b'; MAX_RAW_BYTES - 500]);
    assert_eq!(store.raw.len(), MAX_RAW_BYTES - 500, "cut behind the newline");
    assert_eq!(store.raw[0], b'b');
    assert_eq!(store.lines, 0);
}

#[test]
fn a_boundary_at_the_very_end_is_no_place_to_cut() {
    let mut store = store_at(1_000, 10, 40);
    store.process(&vec![b'a'; MAX_RAW_BYTES + 10]);
    store.process(b"\n");
    assert_eq!(store.raw.len(), MAX_RAW_BYTES);
    assert_eq!(store.raw.last(), Some(&b'\n'));
}

#[test]
fn the_line_budget_is_the_scrollback_and_the_screen() {
    assert_eq!(keep_lines_for(1_000, 24), 1_024);
    assert_eq!(keep_lines_for(0, 0), 1);
    assert_eq!(keep_lines_for(usize::MAX, 3), usize::MAX);
}

#[test]
fn adopting_the_same_attach_or_an_empty_store_writes_nothing() {
    let mut store = store_at(100, 10, 40);
    store.adopt("web", 1);
    assert!(store.raw.is_empty());
    assert!(!store.has_output());
    store.process(b"half a line");
    store.adopt("web", 1);
    assert_eq!(store.raw, b"half a line");
    assert_eq!((store.container.as_str(), store.attach), ("web", 1));
}

#[test]
fn adopting_resets_the_emulator_and_ends_an_open_row() {
    let mut open = store_at(100, 10, 40);
    open.process(b"tail");
    open.adopt("web", 1);
    let mut expected = b"tail".to_vec();
    expected.extend_from_slice(&HANDOVER);
    expected.extend_from_slice(b"\r\n");
    assert_eq!(open.raw, expected);

    let mut closed = store_at(100, 10, 40);
    closed.process(b"tail\n");
    closed.adopt("web", 1);
    let mut expected = b"tail\r\n".to_vec();
    expected.extend_from_slice(&HANDOVER);
    assert_eq!(closed.raw, expected);

    let mut carried = store_at(100, 10, 40);
    carried.process(b"tail\r");
    carried.adopt("web", 1);
    let mut expected = b"tail\r".to_vec();
    expected.extend_from_slice(&HANDOVER);
    expected.push(b'\n');
    assert_eq!(carried.raw, expected, "the container wrote the return itself");
    assert!(!carried.pending_cr);
}

#[test]
fn a_release_costs_nothing_that_a_resize_brings_back() {
    let feed = |store: &mut LogStore| {
        for i in 0..40 {
            store.process(format!("\x1b[3{}mline {i}\n", 1 + i % 7).as_bytes());
        }
    };
    let mut away = store_at(20, 6, 40);
    feed(&mut away);
    away.release();
    away.release();
    assert!(away.released);
    feed(&mut away);
    away.resize(8, 50);

    let mut kept = store_at(20, 6, 40);
    feed(&mut kept);
    feed(&mut kept);
    kept.resize(8, 50);

    assert_eq!(away.raw, kept.raw);
    assert_eq!(away.pen, kept.pen);
    assert_eq!(away.scroll_offset(), 0);
    assert_eq!(
        away.screen().contents_formatted(),
        kept.screen().contents_formatted()
    );
}

#[test]
fn the_sizes_in_between_leave_no_trace() {
    let mut direct = store_at(50, 10, 40);
    let mut round = store_at(50, 10, 40);
    for store in [&mut direct, &mut round] {
        for i in 0..30 {
            store.process(format!("a rather long line number {i}\n").as_bytes());
        }
    }
    round.resize(3, 20);
    round.resize(30, 90);
    round.resize(12, 33);
    direct.resize(12, 33);
    assert_eq!(round.all_text(), direct.all_text());
    let again = direct.visible_lines();
    direct.resize(12, 33);
    assert_eq!(direct.visible_lines(), again);
}

#[test]
fn what_is_in_view_is_a_window_of_what_is_there() {
    let mut store = store_at(100, 5, 40);
    for i in 0..23 {
        store.process(format!("row {i}\n").as_bytes());
    }
    let text = store.all_text();
    let all: Vec<&str> = text.lines().map(str::trim_end).collect();
    assert_eq!(all.len(), 23);
    store.scroll_up(7);
    let top = all.len() + 1 - 5 - 7;
    let seen: Vec<String> = store
        .visible_lines()
        .iter()
        .map(|l| l.trim_end().to_string())
        .collect();
    assert_eq!(seen, &all[top..top + 5]);
    assert_eq!(store.all_text(), text, "the whole text does not scroll");
    store.scroll_down(7);
    assert_eq!(store.scroll_offset(), 0);
    assert!(store.tail_row_blank());
    store.process(b"open");
    assert!(!store.tail_row_blank());
    store.scroll_up(3);
    assert!(!store.tail_row_blank());
    assert_eq!(store.scroll_offset(), 3, "looking did not move the view");
}

#[test]
fn only_blank_rows_at_the_end_are_left_out_of_the_text() {
    let mut store = store_at(100, 6, 40);
    assert_eq!(store.all_text(), "");
    store.process(b"\n\none\n\ntwo\n\xe2\x80\x83 \n");
    let text = store.all_text();
    let lines: Vec<&str> = text.lines().map(str::trim_end).collect();
    assert_eq!(lines, ["", "", "one", "", "two"]);
    assert!(text.ends_with('\n'));
}

#[test]
fn a_cell_is_read_where_the_screen_has_one() {
    let mut store = store_at(10, 4, 20);
    store.process(b"\x1b[2mx\x1b[m");
    let cell = store.cell(0, 0).expect("the screen has a first cell");
    assert_eq!(cell.text, "x");
    assert!(cell.dim && !cell.bold);
    assert_eq!(store.cell(0, 1).expect("and a second").text, "");
    assert!(store.cell(4, 0).is_none());
    assert!(store.cell(0, 20).is_none());
    assert_eq!(store.size(), (4, 20));
}

/// A small generator, so that the same inputs come up in every run.
struct Dice(u64);

impl Dice {
    fn below(&mut self, n: u64) -> u64 {
        self.0 = self
            .0
            .wrapping_mul(6_364_136_223_846_793_005)
            .wrapping_add(1_442_695_040_888_963_407);
        (self.0 >> 33) % n
    }

    fn bytes(&mut self, most: u64) -> Vec<u8> {
        (0..self.below(most)).map(|_| self.below(256) as u8).collect()
    }
}

#[test]
fn the_retained_buffer_stays_bounded() {
    let mut dice = Dice(1);
    for _ in 0..8 {
        let mut store = LogStore::new(4 + dice.below(44) as usize);
        store.resize(3 + dice.below(21) as u16, 20 + dice.below(100) as u16);
        for _ in 0..12 {
            let chunk = dice.bytes(2_000);
            store.process(&chunk);
            assert!(store.raw.len() <= MAX_RAW_BYTES);
            assert!(
                !store.raw.is_empty() || !store.has_output(),
                "replay data was discarded wholesale"
            );
            assert!(store.lines <= 2 * store.keep_lines);
            assert_eq!(store.lines, bytecount(&store.raw));
        }
    }
}

#[test]
fn arbitrary_input_and_geometry_never_panics() {
    let mut dice = Dice(7);
    for _ in 0..6 {
        let mut store = LogStore::new(dice.below(64) as usize);
        for _ in 0..4 {
            store.resize(dice.below(200) as u16, dice.below(200) as u16);
            for _ in 0..6 {
                let chunk = dice.bytes(600);
                store.process(&chunk);
            }
            let _ = store.all_text();
        }
    }
}

#[test]
fn widening_never_drops_content_that_was_still_present() {
    let mut dice = Dice(3);
    for round in 0..6 {
        let lines = 5 + dice.below(200);
        let filler = 1 + dice.below(119);
        let cols = 20 + dice.below(100) as u16;
        let wider = cols + dice.below(80) as u16;
        let mut store = store_at(20 + dice.below(200) as usize, 24, cols);
        for i in 0..lines {
            let mut line = format!("MARK{i:05} ");
            for c in 0..filler {
                if round % 2 == 0 {
                    line.push_str(if c % 2 == 0 { "\x1b[31m" } else { "\x1b[32m" });
                }
                line.push('x');
            }
            store.process(format!("{line}\n").as_bytes());
        }
        let before = store.all_text();
        store.resize(24, wider);
        let after = store.all_text();
        for i in 0..lines {
            let marker = format!("MARK{i:05}");
            if before.contains(&marker) {
                assert!(after.contains(&marker), "widening dropped {marker}");
            }
        }
        let newest = format!("MARK{:05}", lines - 1);
        assert!(after.contains(&newest), "newest line lost: {newest}");
    }
}

#[test]
fn the_view_is_a_window_of_the_rows_whatever_was_written() {
    let mut dice = Dice(11);
    for _ in 0..5 {
        let mut store = store_at(1 + dice.below(30) as usize, 4, 24);
        for _ in 0..30 {
            let chunk = dice.bytes(120);
            store.process(&chunk);
            store.process(b"\n");
            assert_eq!(store.scroll_offset(), 0, "a tailing view left the bottom");
        }
        store.scroll_to_top();
        let depth = store.scroll_offset();
        let mut rows = Vec::new();
        for back in (1..=depth).rev() {
            store.scroll_to_bottom();
            store.scroll_up(back as u16);
            rows.push(store.visible_lines()[0].clone());
        }
        store.scroll_to_bottom();
        rows.extend(store.visible_lines());
        for back in 0..=depth {
            store.scroll_to_bottom();
            store.scroll_up(back as u16);
            assert_eq!(store.scroll_offset(), back);
            assert_eq!(store.visible_lines(), &rows[depth - back..depth - back + 4]);
        }
        let mut text: Vec<&str> = rows.iter().map(String::as_str).collect();
        while text.last().is_some_and(|l| l.trim().is_empty()) {
            text.pop();
        }
        let copied = store.all_text();
        assert_eq!(copied.lines().collect::<Vec<_>>(), text);

        store.scroll_up(2);
        let chunk = dice.bytes(200);
        store.process(&chunk);
        let after = store.scroll_offset();
        store.scroll_to_top();
        assert!(after <= store.scroll_offset(), "scrolled past the top");
    }
}

#[test]
fn a_scrolled_view_keeps_what_it_shows_of_the_scrollback() {
    let mut dice = Dice(23);
    for _ in 0..6 {
        let mut store = store_at(500, 4, 30);
        for i in 0..60 {
            store.process(format!("line {i}\n").as_bytes());
        }
        store.scroll_to_top();
        let depth = store.scroll_offset();
        store.scroll_to_bottom();
        store.scroll_up(20);
        let shown = store.visible_lines();
        for _ in 0..20 {
            let chunk: Vec<u8> = dice.bytes(80).iter().map(|b| b % 128).collect();
            store.process(&chunk);
        }
        let offset = store.scroll_offset();
        if offset > 0 {
            assert_eq!(store.visible_lines(), shown);
            store.scroll_to_top();
            assert_eq!(offset - 20, store.scroll_offset() - depth);
        }
    }
    let mut full = store_at(30, 4, 30);
    for i in 0..60 {
        full.process(format!("line {i}\n").as_bytes());
    }
    full.scroll_up(28);
    for i in 0..10 {
        full.process(format!("more {i}\n").as_bytes());
    }
    assert_eq!(full.scroll_offset(), 30, "the view is held at the top");
}

// ---- the application ----

#[test]
fn going_on_and_back_returns_to_the_same_row() {
    let mut app = app_with(&["a", "b", "c"]);
    for _ in 0..3 {
        let before = app.selected_index();
        app.select_next();
        app.select_previous();
        assert_eq!(app.selected_index(), before);
        app.select_previous();
        app.select_next();
        assert_eq!(app.selected_index(), before);
        app.select_next();
    }
    assert_eq!(app.selected_index(), 0);
}

#[test]
fn going_on_and_back_returns_to_the_same_focus() {
    let mut app = app_with(&["a", "b"]);
    press(&mut app, KeyCode::Char('1'));
    press(&mut app, KeyCode::Char('j'));
    press(&mut app, KeyCode::Char('2'));
    for list in [ListVisibility::Visible, ListVisibility::Hidden] {
        if list == ListVisibility::Hidden {
            press(&mut app, KeyCode::Char('b'));
        }
        for _ in 0..3 {
            let before = app.focus();
            app.focus_next();
            app.focus_previous();
            assert_eq!(app.focus(), before);
            app.focus_previous();
            app.focus_next();
            assert_eq!(app.focus(), before);
            app.focus_next();
        }
    }
}

#[test]
fn the_interrupt_wins_over_everything() {
    let interrupt = KeyEvent::new(KeyCode::Char('c'), true);
    let mut helped = app_with(&["a"]);
    press(&mut helped, KeyCode::Char('?'));
    let mut focused = app_with(&["a"]);
    press(&mut focused, KeyCode::Enter);
    press(&mut focused, KeyCode::Enter);
    for app in [&mut helped, &mut focused] {
        let focus = app.focus();
        app.handle_key(interrupt, 5, 1);
        assert_eq!(app.exit_reason(), Some(ExitReason::Interrupt));
        assert_eq!(app.focus(), focus);
    }
}

#[test]
fn a_key_cancels_the_countdown_for_good() {
    let cfg = Config::default();
    let mut app = App::new("test", &cfg, 0);
    app.set_services(vec![svc("a", ServiceStatus::Success)]);
    app.handle_key(KeyEvent::new(KeyCode::Other, false), 0, 1);
    app.tick(1_000 * SECOND);
    assert_eq!(app.exit_reason(), None);
    assert_eq!(app.countdown_remaining(), None);
    assert_eq!(app.focus(), Focus::ServiceList);

    app.set_services(vec![svc("a", ServiceStatus::Running)]);
    app.tick(2_000 * SECOND);
    app.set_services(vec![svc("a", ServiceStatus::Success)]);
    for seconds in 2_001..2_100 {
        app.tick(seconds * SECOND);
        assert_eq!(app.exit_reason(), None);
        assert_eq!(app.countdown_remaining(), None);
        assert_eq!(app.focus(), Focus::ServiceList);
    }
}

#[test]
fn pressing_enter_again_and_again_is_undone_by_one_escape() {
    let mut app = app_with(&["a", "b"]);
    press(&mut app, KeyCode::Char('1'));
    press(&mut app, KeyCode::Char('j'));
    press(&mut app, KeyCode::Char('2'));
    press(&mut app, KeyCode::Tab);
    press(&mut app, KeyCode::Tab);
    let split = *app.layout();
    for now in [3, 5, 900] {
        app.handle_key(KeyEvent::new(KeyCode::Enter, false), now * SECOND, 1);
        assert_eq!(app.full_screen_pane(), Some(1));
        assert_eq!(app.occupied_panes(), [1]);
        assert_eq!(app.layout().visibility(), ListVisibility::Hidden);
        assert_eq!(app.layout().arrangement(), PaneArrangement::Single);
        assert_eq!(app.focus(), Focus::Pane(1));
    }
    app.handle_key(KeyEvent::new(KeyCode::Esc, false), 1_000 * SECOND, 1);
    assert_eq!(*app.layout(), split);
    assert_eq!(app.full_screen_pane(), None);
    assert_eq!(app.occupied_panes(), [0, 1]);
    assert_eq!(app.focus(), Focus::Pane(1));
    app.handle_key(KeyEvent::new(KeyCode::Esc, false), 1_001 * SECOND, 1);
    assert_eq!(app.focus(), Focus::ServiceList);
}

#[test]
fn the_focus_goes_round_the_list_and_the_panes() {
    let mut app = app_with(&["a", "b"]);
    assert_eq!(app.next_focus(), None);
    app.focus_next();
    assert_eq!(app.focus(), Focus::ServiceList);
    app.focus_previous();
    assert_eq!(app.focus(), Focus::ServiceList);
    press(&mut app, KeyCode::Char('1'));
    press(&mut app, KeyCode::Char('j'));
    press(&mut app, KeyCode::Char('2'));
    let round = [Focus::Pane(0), Focus::Pane(1), Focus::ServiceList];
    for stop in round.iter().chain(&round) {
        assert_eq!(app.next_focus(), Some(*stop));
        app.focus_next();
        assert_eq!(app.focus(), *stop);
    }
    for stop in [Focus::Pane(1), Focus::Pane(0), Focus::ServiceList] {
        app.focus_previous();
        assert_eq!(app.focus(), stop);
    }
}

#[test]
fn a_selection_with_something_pinned_follows_its_service() {
    let mut app = app_with(&["a", "b", "c"]);
    press(&mut app, KeyCode::Char('j'));
    press(&mut app, KeyCode::Char('1'));
    press(&mut app, KeyCode::Char('2'));
    app.set_services(vec![
        svc("c", ServiceStatus::Running),
        svc("a", ServiceStatus::Running),
        svc("z", ServiceStatus::Running),
        svc("b", ServiceStatus::Running),
    ]);
    assert_eq!(app.selected_index(), 3);
}

#[test]
fn the_countdown_ends_when_its_time_is_up_and_not_before() {
    let cfg = Config {
        auto_exit: AutoExit::Seconds(10),
        ..Config::default()
    };
    let mut app = App::new("test", &cfg, 7);
    app.set_services(vec![svc("a", ServiceStatus::Success)]);
    assert_eq!(app.countdown_remaining(), Some(10));
    app.tick(7 + 10 * SECOND - 1);
    assert_eq!(app.countdown_remaining(), Some(1));
    assert_eq!(app.exit_reason(), None);
    app.tick(7 + 10 * SECOND);
    assert_eq!(app.countdown_remaining(), Some(0));
    assert_eq!(app.exit_reason(), Some(ExitReason::AutoExit));
}

#[test]
fn a_service_that_has_not_exited_keeps_the_application_open() {
    for status in [
        ServiceStatus::NotStarted,
        ServiceStatus::Running,
        ServiceStatus::Unhealthy,
        ServiceStatus::Paused,
        ServiceStatus::Failure,
    ] {
        let cfg = Config::default();
        let mut app = App::new("test", &cfg, 0);
        app.set_services(vec![svc("a", ServiceStatus::Success), svc("b", status)]);
        app.tick(1_000 * SECOND);
        assert_eq!(app.exit_reason(), None, "{status:?}");
    }
}

#[test]
fn a_message_stays_for_its_time() {
    let mut app = app_with(&["a"]);
    app.set_status_message("copied");
    app.tick(3 * SECOND);
    assert_eq!(app.status_message(), Some("copied"));
    app.tick(3 * SECOND + 1);
    assert_eq!(app.status_message(), None);
}

#[test]
fn the_mouse_is_given_and_taken_with_a_message() {
    let mut app = app_with(&["a"]);
    assert!(app.mouse_capture);
    press(&mut app, KeyCode::F(10));
    assert!(!app.mouse_capture);
    assert_eq!(
        app.status_message(),
        Some("Mouse capture off - drag to select text with your terminal")
    );
    press(&mut app, KeyCode::F(10));
    assert!(app.mouse_capture);
    assert_eq!(app.status_message(), Some("Mouse capture on"));
}

#[test]
fn a_service_is_never_in_both_panes() {
    let mut app = app_with(&["a", "b"]);
    for code in "112j12 1j2 21jj12".chars() {
        press(&mut app, KeyCode::Char(code));
        let (one, two) = (app.pane_key(0), app.pane_key(1));
        assert!(one.is_none() || one != two, "after {code}");
        let open = match app.layout().arrangement() {
            PaneArrangement::Empty => 0,
            PaneArrangement::Single => 1,
            PaneArrangement::Double => 2,
        };
        assert_eq!(app.occupied_panes().len(), open, "after {code}");
    }
}

#[test]
fn buffers_are_kept_for_what_is_listed_or_pinned() {
    let mut app = app_with(&["a", "b", "c"]);
    for name in ["a", "b", "c"] {
        app.ingest(ServiceKey::new(name, 1), b"x\n");
    }
    press(&mut app, KeyCode::Char('1'));
    app.set_services(vec![svc("b", ServiceStatus::Running)]);
    assert!(app.store(&ServiceKey::new("a", 1)).is_some(), "a is pinned");
    assert!(app.store(&ServiceKey::new("b", 1)).is_some(), "b is listed");
    assert!(app.store(&ServiceKey::new("c", 1)).is_none());
    assert_eq!(app.pane_key(0), Some(ServiceKey::new("a", 1)));
}

#[test]
fn a_tracked_selection_follows_its_service() {
    let mut app = app_with(&["a", "b", "c"]);
    press(&mut app, KeyCode::Char('j'));
    press(&mut app, KeyCode::Char('1'));
    assert_eq!(app.selection_mode, SelectionMode::TrackByName);
    app.set_services(vec![
        svc("x", ServiceStatus::Running),
        svc("a", ServiceStatus::Running),
        svc("b", ServiceStatus::Running),
    ]);
    assert_eq!(app.selected_index(), 2);
    app.set_services(vec![svc("x", ServiceStatus::Running)]);
    assert_eq!(app.selected_index(), 0, "a row is selected wherever there is one");
}

#[test]
fn a_positional_selection_keeps_its_row() {
    let mut app = app_with(&["a", "b", "c"]);
    press(&mut app, KeyCode::Char('j'));
    app.set_services(vec![
        svc("x", ServiceStatus::Running),
        svc("a", ServiceStatus::Running),
        svc("b", ServiceStatus::Running),
    ]);
    assert_eq!(app.selected_index(), 1);
    assert_eq!(app.selected_key(), Some(ServiceKey::new("a", 1)));
}

#[test]
fn configured_pins_are_applied_once_and_by_either_name() {
    let cfg = Config {
        pinned: vec!["nope".into(), "api-2".into(), "db".into()],
        ..Config::default()
    };
    let mut app = App::new("test", &cfg, 0);
    let replica = |n: u32| Service {
        name: "api".to_string(),
        replica: n,
        status: ServiceStatus::Running,
    };
    app.set_services(vec![
        replica(1),
        replica(2),
        replica(10),
        svc("db", ServiceStatus::Running),
    ]);
    app.apply_startup_pins();
    assert_eq!(app.pane_key(0), None);
    assert_eq!(app.pane_key(1), Some(ServiceKey::new("api", 2)));
    press(&mut app, KeyCode::Char('0'));
    app.apply_startup_pins();
    assert_eq!(app.pane_key(1), None, "the pins were for the start");
    let names: Vec<&str> = app.rows().iter().map(|r| r.display_name.as_str()).collect();
    assert_eq!(names, ["api-1", "api-2", "api-10", "db"]);
}

#[test]
fn scrolling_moves_by_as_much_as_the_key_was_held() {
    let mut app = app_with(&["a"]);
    let key = ServiceKey::new("a", 1);
    for i in 0..100 {
        app.ingest(key.clone(), format!("line {i}\n").as_bytes());
    }
    let up = KeyEvent::new(KeyCode::Up, false);
    assert_eq!(app.scroll_request(up), None, "the list has the focus");
    press(&mut app, KeyCode::Enter);
    assert_eq!(app.scroll_request(up), Some(ScrollDirection::Up));
    app.handle_key(up, 0, 4);
    assert_eq!(app.store(&key).unwrap().scroll_offset(), 4);
    app.handle_key(up, 0, 0);
    assert_eq!(app.store(&key).unwrap().scroll_offset(), 4);
    app.handle_key(KeyEvent::new(KeyCode::Char('j'), false), 0, 3);
    assert_eq!(app.store(&key).unwrap().scroll_offset(), 1);
}

#[test]
fn the_layout_turns_from_what_it_is() {
    let mut layout = LayoutManager::new();
    layout.toggle_mode(true);
    assert_eq!(layout.mode, LayoutMode::Horizontal);
    layout.toggle_mode(true);
    assert_eq!(layout.mode, LayoutMode::Vertical);
    let mut layout = LayoutManager::new();
    layout.toggle_mode(false);
    assert_eq!(layout.mode, LayoutMode::Vertical);
    let mut app = app_with(&["a"]);
    app.toggle_layout_mode(true);
    assert_eq!(app.layout().mode, LayoutMode::Horizontal);
}

#[test]
fn popups_close_in_turn() {
    let mut stack = FocusStack::new();
    stack.set_base(Focus::Pane(1));
    stack.push_popup(Focus::HelpPopup);
    stack.push_popup(Focus::CountdownPopup);
    assert_eq!(stack.current(), Focus::CountdownPopup);
    stack.close_popup();
    assert_eq!(stack.popup(), Some(Focus::HelpPopup));
    stack.close_popup();
    stack.close_popup();
    assert_eq!(stack.current(), Focus::Pane(1));
}

#[test]
fn a_filter_lets_through_what_holds_its_term() {
    let mut filter = Filter::new();
    assert!(filter.matches(""));
    assert!(filter.matches("anything"));
    filter.enter_edit();
    for c in "ana".chars() {
        filter.push(c);
    }
    assert!(filter.matches("banana") && filter.matches("ana"));
    assert!(!filter.matches("an") && !filter.matches("Ana"));
    filter.pop();
    assert!(filter.matches("an"));
    filter.persist();
    assert_eq!(filter.state(), FilterState::Persisted);
    filter.clear();
    filter.pop();
    assert_eq!((filter.query(), filter.state()), ("", FilterState::Off));
}

#[test]
fn each_key_asks_for_what_its_target_has_bound_it_to() {
    let key = |code| KeyEvent::new(code, false);
    let held = |code| KeyEvent::new(code, true);
    let pane = KeyTarget::Pane { full_screen: false };
    let full = KeyTarget::Pane { full_screen: true };
    let list = KeyTarget::List { focused: true };
    for (target, event, command) in [
        (KeyTarget::Filter, key(KeyCode::Char('q')), Command::TypeFilter('q')),
        (KeyTarget::Filter, held(KeyCode::Char('q')), Command::Nothing),
        (KeyTarget::Filter, key(KeyCode::Backspace), Command::EraseFilter),
        (KeyTarget::Help, key(KeyCode::Char('j')), Command::Nothing),
        (KeyTarget::Help, key(KeyCode::Char('q')), Command::Quit),
        (pane, held(KeyCode::Char('u')), Command::ScrollHalfPage(ScrollDirection::Up)),
        (pane, key(KeyCode::Char('u')), Command::Nothing),
        (pane, key(KeyCode::Char('1')), Command::TogglePane(0)),
        (full, key(KeyCode::Char('1')), Command::Nothing),
        (full, key(KeyCode::Esc), Command::LeavePane),
        (full, key(KeyCode::Char('?')), Command::OpenHelp),
        (list, key(KeyCode::Char('/')), Command::EditFilter),
        (KeyTarget::List { focused: false }, key(KeyCode::Char('/')), Command::Nothing),
        (list, key(KeyCode::Home), Command::Nothing),
        (list, key(KeyCode::BackTab), Command::FocusPrevious),
        (list, key(KeyCode::F(9)), Command::Nothing),
    ] {
        assert_eq!(command_for(target, event), command, "{target:?} {event:?}");
    }
}

// ---- text and frames ----

#[test]
fn splitting_keeps_what_lies_between() {
    assert_eq!(split_text("a or b or c", " or "), ["a", "b", "c"]);
    assert_eq!(split_text(" or ", " or "), ["", ""]);
    assert_eq!(split_text("", " or "), [""]);
    assert_eq!(split_text("aaa", "aa"), ["", "a"]);
    assert!(text_contains("für", "ü") && !text_contains("fur", "ü"));
}

#[test]
fn a_frame_in_pieces_reads_like_one_that_was_not_cut() {
    let desc = ContainerDesc {
        id: "a".to_string(),
        service: "web".to_string(),
        replica: 3,
        running: true,
    };
    let mut frame = vec![b'x'; MAX_CHUNK_BYTES - 1];
    frame.extend_from_slice(b"\r\nafter the cut\n");
    let mut whole = store_at(100, 10, 40);
    whole.process(&frame);
    let mut pieces = store_at(100, 10, 40);
    let events = frame_events(&desc, &frame);
    assert_eq!(events.len(), 2);
    for event in events {
        match event {
            SourceEvent::Output {
                service,
                replica,
                bytes,
            } => {
                assert_eq!((service.as_str(), replica), ("web", 3));
                pieces.process(&bytes);
            }
            SourceEvent::Topology => panic!("a frame changes no topology"),
        }
    }
    assert_eq!(pieces.raw, whole.raw);
    assert_eq!(pieces.all_text(), whole.all_text());
}
