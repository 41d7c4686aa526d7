use composemux::app::App;
use composemux::config::Config;
use composemux::emulator::CellColor;
use composemux::help::{binding_line, centered, BINDINGS};
use composemux::keys::{KeyCode, KeyEvent};
use composemux::layout::Rect;
use composemux::paint::{text_of_line, Span, Tone};
use composemux::pane::{blit_screen, convert_color, emulator_size, first_drawn_row, pane_scrollbar};
use composemux::pane::{render, CellStyle, PaintColor, PaneBody, PanePlan, PaneRender, Scrollbar};
use composemux::service::{Service, ServiceStatus};
use composemux::status_bar::{budgets, context_line, help_line, status_line};
use composemux::store::LogStore;

fn app_with(names: &[&str]) -> App {
    let cfg = Config::default();
    let mut app = App::new("demo", &cfg, 0);
    app.set_services(
        names
            .iter()
            .map(|n| Service {
                name: n.to_string(),
                replica: 1,
                status: ServiceStatus::Running,
            })
            .collect(),
    );
    app
}

fn press(app: &mut App, code: KeyCode) {
    app.handle_key(KeyEvent::new(code, false), 0, 1);
}

fn width(spans: &Vec<Span>) -> usize {
    text_of_line(spans).chars().count()
}

#[test]
fn the_popup_is_centred() {
    let area = Rect::new(0, 0, 100, 100);
    let popup = centered(70, 85, area);
    assert_eq!(popup.width, 70);
    assert_eq!(popup.height, 85);
    assert_eq!(popup.x, 15);
}

#[test]
fn a_centred_box_is_placed_to_the_nearest_cell() {
    let nearest = |hundredths: u32| ((hundredths + 50) / 100) as u16;
    for length in (0..=40).chain([79, 80, 99, 133, 255, 1_001, 65_000]) {
        for percent in [0, 1, 2, 7, 33, 50, 51, 70, 85, 98, 99, 100] {
            let beside = (100 - percent) / 2;
            let start = nearest(u32::from(beside) * u32::from(length));
            let end = nearest(u32::from(beside + percent) * u32::from(length));
            let wide = centered(percent, 85, Rect::new(5, 3, length, 100));
            assert_eq!(wide, Rect::new(5 + start, 10, end - start, 85), "{percent}% of {length}");
            let tall = centered(70, percent, Rect::new(5, 3, 100, length));
            assert_eq!(tall, Rect::new(20, 3 + start, 70, end - start), "{percent}% of {length}");
        }
    }
}

#[test]
fn spacer_entries_render_as_blank_lines() {
    assert_eq!(width(&binding_line("", "")), 0);
}

#[test]
fn alternative_keys_are_split_on_or() {
    let line = binding_line("↑ or k", "Up");
    let text = text_of_line(&line);
    assert!(text.starts_with("↑ or k"));
    assert!(text.ends_with("Up"));
    assert_eq!(text, "↑ or k        =   Up");
    let tones: Vec<Tone> = line.iter().map(|s| s.tone).collect();
    assert_eq!(
        tones,
        [
            Tone::Info,
            Tone::Secondary,
            Tone::Info,
            Tone::Plain,
            Tone::Secondary,
            Tone::Primary
        ]
    );
}

#[test]
fn a_key_wider_than_its_column_is_not_padded() {
    let text = text_of_line(&binding_line("a very long key", "does it"));
    assert_eq!(text, "a very long key=   does it");
}

#[test]
fn the_full_screen_binding_and_its_exit_are_both_documented() {
    assert!(
        BINDINGS
            .iter()
            .any(|(k, d)| *k == "<enter>" && d.contains("Full screen")),
        "the popup should list how to full screen a pane"
    );
    assert!(
        BINDINGS
            .iter()
            .any(|(k, d)| *k == "<esc>" && d.contains("Leave full screen")),
        "a binding with no advertised way out is a trap"
    );
}

#[test]
fn every_binding_has_a_description() {
    for (key, desc) in BINDINGS {
        assert_eq!(
            key.is_empty(),
            desc.is_empty(),
            "binding {key:?} is half-populated"
        );
    }
}

#[test]
fn the_hint_line_drops_items_from_the_left_when_cramped() {
    let app = app_with(&["a"]);
    let wide = help_line(&app, 200);
    let narrow = help_line(&app, 20);
    assert!(width(&narrow) < width(&wide));
    let text = text_of_line(&narrow);
    assert!(text.contains("help: ?"), "the last items survive: {text}");
    assert_eq!(text, "quit: q  help: ?");
}

#[test]
fn an_impossibly_narrow_bar_renders_nothing_rather_than_overflowing() {
    let app = app_with(&["a"]);
    assert_eq!(width(&help_line(&app, 1)), 0);
}

#[test]
fn pane_focus_shows_pane_specific_hints() {
    let mut app = app_with(&["a"]);
    app.open_and_focus_selection();
    let text = text_of_line(&help_line(&app, 200));
    assert!(text.contains("scroll"));
    assert!(text.contains("copy"));
    assert!(!text.contains("pin output"));
}

#[test]
fn a_focused_pane_advertises_full_screen() {
    let mut app = app_with(&["a"]);
    app.open_and_focus_selection();
    let text = text_of_line(&help_line(&app, 200));
    assert!(text.contains("full screen: <enter>"), "got: {text}");
}

#[test]
fn a_full_screen_pane_advertises_the_way_out() {
    let mut app = app_with(&["a"]);
    app.open_and_focus_selection();
    press(&mut app, KeyCode::Enter);
    let text = text_of_line(&help_line(&app, 200));
    assert!(text.contains("exit: esc"), "got: {text}");
    assert!(
        !text.contains("full screen: <enter>"),
        "the pane is already full screen: {text}"
    );
}

#[test]
fn the_status_slot_counts_running_services() {
    let app = app_with(&["a", "b"]);
    let text = text_of_line(&status_line(&app));
    assert!(text.contains("2/2 up"), "got {text}");
}

#[test]
fn only_services_that_are_up_are_counted() {
    let cfg = Config::default();
    let mut app = App::new("demo", &cfg, 0);
    app.set_services(
        [
            ServiceStatus::NotStarted,
            ServiceStatus::Running,
            ServiceStatus::Unhealthy,
            ServiceStatus::Paused,
            ServiceStatus::Success,
            ServiceStatus::Failure,
        ]
        .iter()
        .enumerate()
        .map(|(i, status)| Service {
            name: format!("svc{i}"),
            replica: 1,
            status: *status,
        })
        .collect(),
    );
    assert_eq!(text_of_line(&status_line(&app)), " 2/6 up  demo");
}

#[test]
fn an_empty_stack_shows_no_status() {
    let cfg = Config::default();
    let app = App::new("demo", &cfg, 0);
    assert_eq!(width(&status_line(&app)), 0);
}

#[test]
fn the_filter_query_appears_in_the_context_slot() {
    let mut app = app_with(&["api", "worker"]);
    press(&mut app, KeyCode::Char('/'));
    press(&mut app, KeyCode::Char('a'));
    let text = text_of_line(&context_line(&app));
    assert!(text.starts_with("/a"), "got {text}");
    assert!(text.contains("filtered out"));
    assert_eq!(text, "/a  1 filtered out   <enter> confirm, <esc> cancel");
    press(&mut app, KeyCode::Enter);
    assert_eq!(text_of_line(&context_line(&app)), "/a  1 hidden (/ to edit)");
}

#[test]
fn a_transient_message_outranks_the_filter() {
    let mut app = app_with(&["a"]);
    app.set_status_message("Output copied");
    let text = text_of_line(&context_line(&app));
    assert_eq!(text, "Output copied");
}

#[test]
fn the_hints_get_what_the_status_leaves() {
    assert_eq!(budgets(120, 7), (7, 108));
    assert_eq!(budgets(120, 40), (25, 90), "the status is held to its room");
    assert_eq!(budgets(10, 0), (1, 4));
    assert_eq!(budgets(3, 7), (7, 1), "there is always room for one column");
}

#[test]
fn the_emulator_is_the_pane_plus_the_cursor_row() {
    let (rows, cols) = emulator_size(Rect::new(0, 0, 100, 40));
    assert_eq!(cols, 100 - 6);
    assert_eq!(
        rows,
        40 - 4 + 1,
        "the grid is the drawn rows plus the row the cursor rests on"
    );
}

#[test]
fn emulator_size_never_goes_below_the_minimum() {
    let (rows, cols) = emulator_size(Rect::new(0, 0, 6, 4));
    assert_eq!(rows, 3 + 1);
    assert_eq!(cols, 20);
}

#[test]
fn a_blank_last_row_falls_off_the_bottom_of_the_window() {
    assert_eq!(
        first_drawn_row(37, 36, true),
        0,
        "with nothing on the last row the window ends above it"
    );
    assert_eq!(
        first_drawn_row(37, 36, false),
        1,
        "a line still being written pulls the window down onto it"
    );
}

#[test]
fn the_window_stays_anchored_to_the_bottom_of_a_grid_it_cannot_fill() {
    assert_eq!(first_drawn_row(4, 1, true), 2);
    assert_eq!(first_drawn_row(4, 1, false), 3);
}

#[test]
fn a_window_taller_than_the_grid_starts_at_the_top() {
    assert_eq!(first_drawn_row(4, 40, true), 0);
    assert_eq!(first_drawn_row(4, 40, false), 0);
}

#[test]
fn colours_pass_through_by_kind() {
    assert_eq!(convert_color(CellColor::Default), PaintColor::Reset);
    assert_eq!(convert_color(CellColor::Idx(1)), PaintColor::Indexed(1));
    assert_eq!(
        convert_color(CellColor::Rgb(1, 2, 3)),
        PaintColor::Rgb(1, 2, 3)
    );
}

#[test]
fn cells_are_placed_and_styled_as_the_screen_has_them() {
    let mut store = LogStore::new(10);
    store.resize(4, 20);
    store.process(b"\x1b[1;3;4;7;31;48;2;1;2;3mA\x1b[m b\n");
    let inner = Rect::new(10, 5, 3, 3);
    let cells = blit_screen(&store, inner, true);
    assert_eq!(cells.len(), 9, "three rows of three columns");
    assert_eq!((cells[0].x, cells[0].y), (10, 5));
    assert_eq!(cells[0].symbol, "A");
    assert_eq!(
        cells[0].style,
        CellStyle {
            fg: PaintColor::Indexed(1),
            bg: PaintColor::Rgb(1, 2, 3),
            bold: true,
            italic: true,
            underlined: true,
            reversed: true,
        }
    );
    assert_eq!(cells[1].symbol, " ");
    assert_eq!((cells[2].x, cells[2].y), (12, 5));
    assert_eq!(cells[2].symbol, "b");
    assert_eq!(
        cells[2].style,
        CellStyle {
            fg: PaintColor::Reset,
            bg: PaintColor::Reset,
            bold: false,
            italic: false,
            underlined: false,
            reversed: false,
        }
    );
    assert_eq!((cells[8].x, cells[8].y), (12, 7));
    assert_eq!(cells[8].symbol, " ", "an empty cell is drawn as a space");
}

#[test]
fn the_scrollbar_follows_the_offset() {
    let mut store = LogStore::new(100);
    store.resize(11, 40);
    store.process(b"one line\n");
    assert_eq!(pane_scrollbar(&store, 10), None, "there is nothing to scroll");
    for i in 0..30 {
        store.process(format!("line {i}\n").as_bytes());
    }
    assert_eq!(pane_scrollbar(&store, 10), None);
    store.scroll_up(5);
    assert_eq!(
        pane_scrollbar(&store, 10),
        Some(Scrollbar {
            content_length: 5,
            viewport_length: 10,
            position: 0
        })
    );
}

fn pane<'a>(store: Option<&'a LogStore>) -> PaneRender<'a> {
    PaneRender {
        title: "api",
        status: ServiceStatus::Running,
        glyph: '*',
        focused: true,
        store,
        uptime: Some("2m".to_string()),
        tab_hint: true,
        tail_blank: true,
    }
}

#[test]
fn a_pane_shows_what_it_has_room_for() {
    match render(&pane(None), Rect::new(0, 0, 4, 40)) {
        PanePlan::TooSmall(span) => {
            assert_eq!(span.text, "...");
            assert_eq!(span.tone, Tone::Secondary);
        }
        PanePlan::Framed { .. } => panic!("four columns are not enough"),
    }
    for (width, title, shows_uptime) in [
        (20, " * api  ", false),
        (40, " * api  ", true),
        (41, " * api  Press <tab> to focus output", true),
    ] {
        match render(&pane(None), Rect::new(7, 9, width, 12)) {
            PanePlan::Framed {
                title: spans,
                uptime,
                inner,
                body,
                ..
            } => {
                assert_eq!(text_of_line(&spans), title);
                assert_eq!(uptime.is_some(), shows_uptime, "at {width}");
                assert_eq!(inner, Rect::new(10, 11, width - 6, 8));
                assert!(matches!(body, PaneBody::Waiting(_)));
            }
            PanePlan::TooSmall(_) => panic!("there is room at {width}"),
        }
    }
}

#[test]
fn a_silent_store_is_reported_like_none_at_all() {
    let silent = LogStore::new(10);
    for store in [None, Some(&silent)] {
        match render(&pane(store), Rect::new(0, 0, 60, 12)) {
            PanePlan::Framed {
                body: PaneBody::Waiting(note),
                uptime: Some(uptime),
                ..
            } => {
                assert_eq!(note.text, "Waiting for output...");
                assert_eq!(uptime.text, "  2m  ");
            }
            _ => panic!("a pane without output should say so"),
        }
    }
}
