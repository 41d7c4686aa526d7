use composemux::app::App;
use composemux::app_model::{Action, ExitReason, SelectionMode};
use composemux::config::{AutoExit, Config, DEFAULT_AUTO_EXIT_SECONDS};
use composemux::filter::FilterState;
use composemux::focus::Focus;
use composemux::keys::{KeyCode, KeyEvent};
use composemux::layout::{ListVisibility, PaneArrangement};
use composemux::service::{Service, ServiceKey, ServiceStatus};

const T0: u128 = 1_000_000_000_000;

fn secs(n: u64) -> u128 {
    n as u128 * 1_000_000_000
}

fn millis(n: u64) -> u128 {
    n as u128 * 1_000_000
}

fn svc(name: &str, status: ServiceStatus) -> Service {
    Service { name: name.to_string(), replica: 1, status }
}

fn app_with(names: &[&str]) -> App {
    let cfg = Config::default();
    let mut app = App::new("test", &cfg, T0);
    app.set_services(names.iter().map(|n| svc(n, ServiceStatus::Running)).collect());
    app
}

fn press(app: &mut App, code: KeyCode) {
    app.handle_key(KeyEvent::new(code, false), T0, 1);
}

fn press_ctrl(app: &mut App, code: KeyCode) {
    app.handle_key(KeyEvent::new(code, true), T0, 1);
}

#[test]
fn navigation_wraps_in_both_directions() {
    let mut app = app_with(&["a", "b", "c"]);
    assert_eq!(app.selected_index(), 0);
    press(&mut app, KeyCode::Char('j'));
    assert_eq!(app.selected_index(), 1);
    press(&mut app, KeyCode::Up);
    assert_eq!(app.selected_index(), 0);
    press(&mut app, KeyCode::Char('k'));
    assert_eq!(
        app.selected_index(),
        2,
        "up from the top wraps to the bottom"
    );
    press(&mut app, KeyCode::Down);
    assert_eq!(app.selected_index(), 0);
}

#[test]
fn navigating_an_empty_list_is_safe() {
    let cfg = Config::default();
    let mut app = App::new("test", &cfg, T0);
    press(&mut app, KeyCode::Char('j'));
    press(&mut app, KeyCode::Char('k'));
    assert_eq!(app.selected_index(), 0);
    assert!(app.selected_key().is_none());
}

#[test]
fn pinning_opens_a_pane_without_stealing_focus() {
    let mut app = app_with(&["a", "b"]);
    press(&mut app, KeyCode::Char('1'));
    assert_eq!(app.pane_key(0), Some(ServiceKey::new("a", 1)));
    assert_eq!(app.layout().arrangement(), PaneArrangement::Single);
    assert_eq!(
        app.focus(),
        Focus::ServiceList,
        "pinning should leave focus on the list"
    );
}

#[test]
fn pinning_the_same_service_again_unpins_it() {
    let mut app = app_with(&["a", "b"]);
    press(&mut app, KeyCode::Char('1'));
    press(&mut app, KeyCode::Char('1'));
    assert_eq!(app.pane_key(0), None);
    assert_eq!(app.layout().arrangement(), PaneArrangement::Empty);
}

#[test]
fn two_services_can_be_pinned_at_once() {
    let mut app = app_with(&["a", "b"]);
    press(&mut app, KeyCode::Char('1'));
    press(&mut app, KeyCode::Char('j'));
    press(&mut app, KeyCode::Char('2'));
    assert_eq!(app.pane_key(0), Some(ServiceKey::new("a", 1)));
    assert_eq!(app.pane_key(1), Some(ServiceKey::new("b", 1)));
    assert_eq!(app.layout().arrangement(), PaneArrangement::Double);
}

#[test]
fn pinning_a_service_already_in_the_other_pane_moves_it() {
    let mut app = app_with(&["a", "b"]);
    press(&mut app, KeyCode::Char('1'));
    press(&mut app, KeyCode::Char('2'));
    assert_eq!(app.pane_key(0), None);
    assert_eq!(app.pane_key(1), Some(ServiceKey::new("a", 1)));
    assert_eq!(
        app.layout().arrangement(),
        PaneArrangement::Single,
        "moving must not leave two panes open"
    );
}

#[test]
fn a_fresh_pin_silently_replaces_the_pane_contents() {
    let mut app = app_with(&["a", "b"]);
    press(&mut app, KeyCode::Char('1'));
    press(&mut app, KeyCode::Char('j'));
    press(&mut app, KeyCode::Char('1'));
    assert_eq!(app.pane_key(0), Some(ServiceKey::new("b", 1)));
    assert_eq!(app.layout().arrangement(), PaneArrangement::Single);
}

#[test]
fn zero_clears_every_pane() {
    let mut app = app_with(&["a", "b"]);
    press(&mut app, KeyCode::Char('1'));
    press(&mut app, KeyCode::Char('j'));
    press(&mut app, KeyCode::Char('2'));
    press(&mut app, KeyCode::Char('0'));
    assert_eq!(app.pane_key(0), None);
    assert_eq!(app.pane_key(1), None);
    assert_eq!(app.layout().arrangement(), PaneArrangement::Empty);
    assert_eq!(app.focus(), Focus::ServiceList);
}

#[test]
fn pinning_switches_selection_tracking_to_follow_the_service() {
    let mut app = app_with(&["a", "b"]);
    press(&mut app, KeyCode::Char('1'));
    assert_eq!(app.selection_mode, SelectionMode::TrackByName);
    press(&mut app, KeyCode::Char('1'));
    assert_eq!(
        app.selection_mode,
        SelectionMode::TrackByPosition,
        "unpinning the last pane returns to positional tracking"
    );
}

#[test]
fn space_opens_a_pane_that_follows_the_selection() {
    let mut app = app_with(&["a", "b"]);
    press(&mut app, KeyCode::Char(' '));
    assert_eq!(app.pane_key(0), Some(ServiceKey::new("a", 1)));
    press(&mut app, KeyCode::Char('j'));
    assert_eq!(
        app.pane_key(0),
        Some(ServiceKey::new("b", 1)),
        "the pane should follow the selection in spacebar mode"
    );
}

#[test]
fn spacebar_mode_shows_no_pin_indicators() {
    let mut app = app_with(&["a"]);
    press(&mut app, KeyCode::Char(' '));
    assert!(app.pane_indicators(&ServiceKey::new("a", 1)).is_empty());
}

#[test]
fn space_again_closes_the_pane() {
    let mut app = app_with(&["a"]);
    press(&mut app, KeyCode::Char(' '));
    press(&mut app, KeyCode::Char(' '));
    assert_eq!(app.layout().arrangement(), PaneArrangement::Empty);
    assert!(!app.spacebar_mode);
}

#[test]
fn pinning_from_spacebar_mode_converts_to_a_real_pin() {
    let mut app = app_with(&["a", "b"]);
    press(&mut app, KeyCode::Char(' '));
    press(&mut app, KeyCode::Char('j'));
    press(&mut app, KeyCode::Char('2'));
    assert!(!app.spacebar_mode);
    assert_eq!(app.pane_key(1), Some(ServiceKey::new("b", 1)));
    assert_eq!(app.layout().arrangement(), PaneArrangement::Single);
    assert_eq!(app.pane_indicators(&ServiceKey::new("b", 1)), vec![1]);
}

#[test]
fn tab_cycles_list_to_pane_and_back() {
    let mut app = app_with(&["a", "b"]);
    press(&mut app, KeyCode::Char('1'));
    press(&mut app, KeyCode::Tab);
    assert_eq!(app.focus(), Focus::Pane(0));
    press(&mut app, KeyCode::Tab);
    assert_eq!(app.focus(), Focus::ServiceList);
}

#[test]
fn tab_visits_both_panes_in_order() {
    let mut app = app_with(&["a", "b"]);
    press(&mut app, KeyCode::Char('1'));
    press(&mut app, KeyCode::Char('j'));
    press(&mut app, KeyCode::Char('2'));
    press(&mut app, KeyCode::Tab);
    assert_eq!(app.focus(), Focus::Pane(0));
    press(&mut app, KeyCode::Tab);
    assert_eq!(app.focus(), Focus::Pane(1));
    press(&mut app, KeyCode::Tab);
    assert_eq!(app.focus(), Focus::ServiceList);
}

#[test]
fn shift_tab_cycles_the_other_way() {
    let mut app = app_with(&["a", "b"]);
    press(&mut app, KeyCode::Char('1'));
    press(&mut app, KeyCode::Char('j'));
    press(&mut app, KeyCode::Char('2'));
    press(&mut app, KeyCode::BackTab);
    assert_eq!(app.focus(), Focus::Pane(1));
    press(&mut app, KeyCode::BackTab);
    assert_eq!(app.focus(), Focus::Pane(0));
}

#[test]
fn tab_does_nothing_with_no_panes_open() {
    let mut app = app_with(&["a"]);
    press(&mut app, KeyCode::Tab);
    assert_eq!(app.focus(), Focus::ServiceList);
}

#[test]
fn enter_opens_and_focuses_the_pane() {
    let mut app = app_with(&["a"]);
    press(&mut app, KeyCode::Enter);
    assert_eq!(app.focus(), Focus::Pane(0));
    assert_eq!(app.pane_key(0), Some(ServiceKey::new("a", 1)));
}

#[test]
fn enter_on_an_already_pinned_service_just_focuses_it() {
    let mut app = app_with(&["a", "b"]);
    press(&mut app, KeyCode::Char('j'));
    press(&mut app, KeyCode::Char('2'));
    press(&mut app, KeyCode::Enter);
    assert_eq!(app.focus(), Focus::Pane(1));
    assert_eq!(app.pane_key(0), None, "no second pane should be opened");
}

#[test]
fn escape_from_a_pane_returns_to_the_list() {
    let mut app = app_with(&["a"]);
    press(&mut app, KeyCode::Enter);
    assert_eq!(app.focus(), Focus::Pane(0));
    press(&mut app, KeyCode::Esc);
    assert_eq!(app.focus(), Focus::ServiceList);
}

#[test]
fn unpinning_the_focused_pane_moves_focus_back_to_the_list() {
    let mut app = app_with(&["a", "b"]);
    press(&mut app, KeyCode::Char('1'));
    press(&mut app, KeyCode::Char('j'));
    press(&mut app, KeyCode::Char('2'));
    press(&mut app, KeyCode::Tab);
    press(&mut app, KeyCode::Tab);
    assert_eq!(app.focus(), Focus::Pane(1));
    press(&mut app, KeyCode::Char('2'));
    assert_eq!(app.focus(), Focus::ServiceList);
}

#[test]
fn b_does_nothing_without_panes() {
    let mut app = app_with(&["a"]);
    press(&mut app, KeyCode::Char('b'));
    assert_eq!(app.layout().visibility(), ListVisibility::Visible);
}

#[test]
fn b_hides_the_list_and_moves_focus_to_a_pane() {
    let mut app = app_with(&["a"]);
    press(&mut app, KeyCode::Char('1'));
    press(&mut app, KeyCode::Char('b'));
    assert_eq!(app.layout().visibility(), ListVisibility::Hidden);
    assert_eq!(app.focus(), Focus::Pane(0));
    press(&mut app, KeyCode::Char('b'));
    assert_eq!(app.layout().visibility(), ListVisibility::Visible);
}

fn app_with_two_panes() -> App {
    let mut app = app_with(&["a", "b"]);
    press(&mut app, KeyCode::Char('1'));
    press(&mut app, KeyCode::Char('j'));
    press(&mut app, KeyCode::Char('2'));
    press(&mut app, KeyCode::Tab);
    app
}

#[test]
fn enter_on_a_focused_pane_gives_it_the_whole_frame() {
    let mut app = app_with_two_panes();
    assert_eq!(app.focus(), Focus::Pane(0));
    press(&mut app, KeyCode::Enter);
    assert_eq!(app.layout().arrangement(), PaneArrangement::Single);
    assert_eq!(app.layout().visibility(), ListVisibility::Hidden);
    assert_eq!(
        app.occupied_panes(),
        vec![0],
        "the other pane should go too, not just the list"
    );
    assert_eq!(app.focus(), Focus::Pane(0));
}

#[test]
fn escape_puts_back_the_arrangement_full_screen_replaced() {
    let mut app = app_with_two_panes();
    press(&mut app, KeyCode::Enter);
    press(&mut app, KeyCode::Esc);
    assert_eq!(app.layout().arrangement(), PaneArrangement::Double);
    assert_eq!(app.layout().visibility(), ListVisibility::Visible);
    assert_eq!(app.occupied_panes(), vec![0, 1]);
    assert_eq!(
        app.focus(),
        Focus::Pane(0),
        "leaving full screen is not leaving the pane"
    );
}

#[test]
fn a_second_escape_hands_focus_back_to_the_list() {
    let mut app = app_with_two_panes();
    press(&mut app, KeyCode::Enter);
    press(&mut app, KeyCode::Esc);
    assert_eq!(
        app.focus(),
        Focus::Pane(0),
        "the first esc spends itself on the full screen"
    );
    press(&mut app, KeyCode::Esc);
    assert_eq!(app.focus(), Focus::ServiceList);
}

#[test]
fn full_screen_restores_a_list_that_was_already_hidden() {
    let mut app = app_with_two_panes();
    press(&mut app, KeyCode::Char('b'));
    assert_eq!(app.layout().visibility(), ListVisibility::Hidden);
    press(&mut app, KeyCode::Enter);
    assert_eq!(app.layout().arrangement(), PaneArrangement::Single);
    press(&mut app, KeyCode::Esc);
    assert_eq!(app.layout().arrangement(), PaneArrangement::Double);
    assert_eq!(
        app.layout().visibility(),
        ListVisibility::Hidden,
        "esc should restore what b left, not force the list back on"
    );
}

#[test]
fn a_pane_pinned_only_to_slot_two_goes_full_screen_as_itself() {
    let mut app = app_with(&["a", "b"]);
    press(&mut app, KeyCode::Char('j'));
    press(&mut app, KeyCode::Char('2'));
    press(&mut app, KeyCode::Tab);
    assert_eq!(app.focus(), Focus::Pane(1));
    press(&mut app, KeyCode::Enter);
    assert_eq!(app.layout().arrangement(), PaneArrangement::Single);
    assert_eq!(app.layout().visibility(), ListVisibility::Hidden);
    assert_eq!(
        app.occupied_panes(),
        vec![1],
        "the frame belongs to the focused slot, not to slot 0"
    );
    assert_eq!(app.pane_key(1), Some(ServiceKey::new("b", 1)));
}

#[test]
fn full_screen_ignores_the_keys_that_would_split_the_frame_again() {
    for code in [
        KeyCode::Char('1'),
        KeyCode::Char('2'),
        KeyCode::Char('0'),
        KeyCode::Char(' '),
        KeyCode::Char('b'),
        KeyCode::Char('m'),
        KeyCode::Tab,
        KeyCode::BackTab,
    ] {
        let mut app = app_with_two_panes();
        press(&mut app, KeyCode::Enter);
        press(&mut app, code);
        assert_eq!(
            app.layout().arrangement(),
            PaneArrangement::Single,
            "{code:?} changed the arrangement"
        );
        assert_eq!(
            app.layout().visibility(),
            ListVisibility::Hidden,
            "{code:?} put the service list back"
        );
        assert_eq!(app.occupied_panes(), vec![0], "{code:?} put a pane back");
        assert_eq!(app.focus(), Focus::Pane(0), "{code:?} moved focus");
        assert_eq!(
            app.pane_key(1),
            Some(ServiceKey::new("b", 1)),
            "{code:?} disturbed the pin full screen is hiding"
        );
        assert!(
            app.take_action().is_none(),
            "{code:?} queued a deferred action"
        );
    }
}

#[test]
fn enter_does_not_leave_full_screen() {
    let mut app = app_with_two_panes();
    press(&mut app, KeyCode::Enter);
    press(&mut app, KeyCode::Enter);
    assert_eq!(app.layout().arrangement(), PaneArrangement::Single);
    assert_eq!(app.layout().visibility(), ListVisibility::Hidden);
    assert_eq!(app.occupied_panes(), vec![0]);
}

#[test]
fn a_second_enter_does_not_move_the_restore_point() {
    let mut app = app_with_two_panes();
    press(&mut app, KeyCode::Enter);
    press(&mut app, KeyCode::Enter);
    press(&mut app, KeyCode::Esc);
    assert_eq!(app.layout().arrangement(), PaneArrangement::Double);
    assert_eq!(app.layout().visibility(), ListVisibility::Visible);
}

#[test]
fn enter_is_inert_when_the_focused_pane_has_lost_its_service() {
    let mut app = app_with(&["a"]);
    press(&mut app, KeyCode::Char(' '));
    press(&mut app, KeyCode::Tab);
    assert_eq!(app.focus(), Focus::Pane(0));
    app.set_services(Vec::new());
    assert_eq!(app.pane_key(0), None);
    press(&mut app, KeyCode::Enter);
    assert_eq!(
        app.full_screen_pane(),
        None,
        "a pane that cannot draw should not be handed the frame"
    );
    assert_eq!(app.layout().visibility(), ListVisibility::Visible);
}

#[test]
fn an_enter_that_dismisses_the_countdown_still_goes_full_screen() {
    let cfg = Config::default();
    let mut app = App::new("test", &cfg, T0);
    app.set_services(vec![svc("a", ServiceStatus::Success)]);
    app.open_and_focus_selection();
    assert_eq!(app.focus(), Focus::Pane(0));
    app.tick(T0);
    assert_eq!(app.focus(), Focus::CountdownPopup);

    press(&mut app, KeyCode::Enter);
    assert_eq!(app.focus(), Focus::Pane(0), "popup dismissed");
    assert_eq!(app.full_screen_pane(), Some(0));
}

#[test]
fn full_screen_still_scrolls_copies_and_quits() {
    let mut app = app_with(&["a"]);
    let key = ServiceKey::new("a", 1);
    for i in 0..100 {
        app.ingest(key.clone(), format!("line {i}\r\n").as_bytes());
    }
    press(&mut app, KeyCode::Enter);
    press(&mut app, KeyCode::Enter);
    assert_eq!(app.layout().visibility(), ListVisibility::Hidden);
    app.resize_panes(&[(0, 10, 40)]);
    press_ctrl(&mut app, KeyCode::Char('u'));
    assert_eq!(app.store(&key).unwrap().scroll_offset(), 12);
    press(&mut app, KeyCode::Char('c'));
    assert_eq!(app.take_action(), Some(Action::CopyOutput));
    press(&mut app, KeyCode::Char('q'));
    assert_eq!(app.exit_reason(), Some(ExitReason::Quit));
}

#[test]
fn help_opens_over_full_screen_and_leaves_it_intact() {
    let mut app = app_with_two_panes();
    press(&mut app, KeyCode::Enter);
    press(&mut app, KeyCode::Char('?'));
    assert_eq!(app.focus(), Focus::HelpPopup);
    press(&mut app, KeyCode::Esc);
    assert_eq!(
        app.focus(),
        Focus::Pane(0),
        "esc closed the popup, not the full screen under it"
    );
    assert_eq!(app.layout().visibility(), ListVisibility::Hidden);
    assert_eq!(app.occupied_panes(), vec![0]);
}

#[test]
fn a_spacebar_pane_can_go_full_screen_and_come_back() {
    let mut app = app_with(&["a", "b"]);
    press(&mut app, KeyCode::Char(' '));
    press(&mut app, KeyCode::Tab);
    assert_eq!(app.focus(), Focus::Pane(0));
    press(&mut app, KeyCode::Enter);
    assert_eq!(app.layout().visibility(), ListVisibility::Hidden);
    press(&mut app, KeyCode::Esc);
    assert_eq!(app.layout().visibility(), ListVisibility::Visible);
    assert_eq!(
        app.pane_key(0),
        app.selected_key(),
        "the pane should still be following the selection"
    );
}

#[test]
fn slash_opens_the_filter_and_typing_narrows_the_list() {
    let mut app = app_with(&["api", "worker", "db"]);
    press(&mut app, KeyCode::Char('/'));
    press(&mut app, KeyCode::Char('a'));
    assert_eq!(app.rows().len(), 1);
    assert_eq!(app.rows()[0].display_name, "api");
    assert_eq!(app.hidden_count(), 2);
}

#[test]
fn while_filtering_command_keys_are_literal_text() {
    let mut app = app_with(&["q1", "b2"]);
    press(&mut app, KeyCode::Char('/'));
    for c in ['q', '1'] {
        press(&mut app, KeyCode::Char(c));
    }
    assert_eq!(app.filter().query(), "q1");
    assert!(
        app.exit_reason().is_none(),
        "q must not quit while filtering"
    );
    assert_eq!(app.pane_key(0), None, "1 must not pin while filtering");
}

#[test]
fn a_slash_typed_into_the_filter_is_literal() {
    let mut app = app_with(&["api/v2"]);
    press(&mut app, KeyCode::Char('/'));
    for c in "api/".chars() {
        press(&mut app, KeyCode::Char(c));
    }
    assert_eq!(app.filter().query(), "api/");
    assert_eq!(app.rows().len(), 1);
}

#[test]
fn enter_persists_the_filter_and_hands_keys_back() {
    let mut app = app_with(&["api", "worker"]);
    press(&mut app, KeyCode::Char('/'));
    press(&mut app, KeyCode::Char('a'));
    press(&mut app, KeyCode::Enter);
    assert_eq!(
        app.filter().state(),
        FilterState::Persisted
    );
    assert_eq!(app.rows().len(), 1, "the filter stays applied");
    press(&mut app, KeyCode::Char('q'));
    assert_eq!(app.exit_reason(), Some(ExitReason::Quit));
}

#[test]
fn slash_does_not_open_the_filter_from_a_focused_pane() {
    let mut app = app_with(&["a"]);
    press(&mut app, KeyCode::Enter);
    press(&mut app, KeyCode::Char('/'));
    assert!(!app.filter().is_editing());
    press(&mut app, KeyCode::Char('c'));
    assert_eq!(
        app.take_action(),
        Some(Action::CopyOutput),
        "pane bindings should still work after /"
    );
}

#[test]
fn escape_clears_the_filter() {
    let mut app = app_with(&["api", "worker"]);
    press(&mut app, KeyCode::Char('/'));
    press(&mut app, KeyCode::Char('a'));
    press(&mut app, KeyCode::Esc);
    assert_eq!(app.rows().len(), 2);
    assert_eq!(app.filter().query(), "");
}

#[test]
fn arrows_still_navigate_while_filtering() {
    let mut app = app_with(&["api", "apex"]);
    press(&mut app, KeyCode::Char('/'));
    press(&mut app, KeyCode::Char('a'));
    assert_eq!(app.rows().len(), 2);
    press(&mut app, KeyCode::Down);
    assert_eq!(app.selected_index(), 1);
}

#[test]
fn filtering_keeps_the_selection_on_the_same_service_when_pinned() {
    let mut app = app_with(&["api", "worker"]);
    press(&mut app, KeyCode::Char('j'));
    press(&mut app, KeyCode::Char('1'));
    press(&mut app, KeyCode::Char('/'));
    press(&mut app, KeyCode::Char('w'));
    assert_eq!(app.selected_row().unwrap().display_name, "worker");
}

#[test]
fn pins_survive_the_filter_hiding_the_service() {
    let mut app = app_with(&["api", "worker"]);
    press(&mut app, KeyCode::Char('1'));
    press(&mut app, KeyCode::Char('/'));
    press(&mut app, KeyCode::Char('w'));
    assert_eq!(
        app.pane_key(0),
        Some(ServiceKey::new("api", 1)),
        "a pinned pane keeps its service even when filtered out of the list"
    );
}

#[test]
fn q_quits_with_status_zero() {
    let mut app = app_with(&["a"]);
    press(&mut app, KeyCode::Char('q'));
    assert_eq!(app.exit_reason(), Some(ExitReason::Quit));
    assert_eq!(app.exit_reason().unwrap().code(), 0);
}

#[test]
fn a_signal_exit_follows_the_128_plus_signo_convention() {
    assert_eq!(ExitReason::Signal(2).code(), 130);
    assert_eq!(ExitReason::Signal(15).code(), 143);
    assert_eq!(ExitReason::Signal(1).code(), 129);
}

#[test]
fn ctrl_c_quits_with_status_one_hundred_thirty() {
    let mut app = app_with(&["a"]);
    press_ctrl(&mut app, KeyCode::Char('c'));
    assert_eq!(app.exit_reason(), Some(ExitReason::Interrupt));
    assert_eq!(app.exit_reason().unwrap().code(), 130);
}

#[test]
fn ctrl_c_interrupts_even_while_filtering() {
    let mut app = app_with(&["a"]);
    press(&mut app, KeyCode::Char('/'));
    press_ctrl(&mut app, KeyCode::Char('c'));
    assert_eq!(app.exit_reason(), Some(ExitReason::Interrupt));
}

#[test]
fn question_mark_toggles_the_help_popup() {
    let mut app = app_with(&["a"]);
    press(&mut app, KeyCode::Char('?'));
    assert_eq!(app.focus(), Focus::HelpPopup);
    press(&mut app, KeyCode::Char('?'));
    assert_eq!(app.focus(), Focus::ServiceList);
}

#[test]
fn q_quits_from_the_help_popup_as_the_popup_says_it_does() {
    let mut app = app_with(&["a"]);
    press(&mut app, KeyCode::Char('?'));
    assert_eq!(app.focus(), Focus::HelpPopup);
    press(&mut app, KeyCode::Char('q'));
    assert_eq!(app.exit_reason(), Some(ExitReason::Quit));
}

#[test]
fn escape_still_only_closes_the_help_popup() {
    let mut app = app_with(&["a"]);
    press(&mut app, KeyCode::Char('?'));
    press(&mut app, KeyCode::Esc);
    assert_eq!(app.focus(), Focus::ServiceList);
    assert!(
        app.exit_reason().is_none(),
        "esc dismisses, it does not quit"
    );
}

#[test]
fn the_help_popup_swallows_other_keys() {
    let mut app = app_with(&["a", "b"]);
    press(&mut app, KeyCode::Char('?'));
    press(&mut app, KeyCode::Char('j'));
    assert_eq!(
        app.selected_index(),
        0,
        "navigation should not leak through"
    );
    press(&mut app, KeyCode::Esc);
    assert_eq!(app.focus(), Focus::ServiceList);
}

#[test]
fn help_restores_the_pane_that_had_focus() {
    let mut app = app_with(&["a"]);
    press(&mut app, KeyCode::Enter);
    press(&mut app, KeyCode::Char('?'));
    press(&mut app, KeyCode::Esc);
    assert_eq!(app.focus(), Focus::Pane(0));
}

#[test]
fn scrolling_a_focused_pane_moves_its_buffer() {
    let mut app = app_with(&["a"]);
    let key = ServiceKey::new("a", 1);
    for i in 0..100 {
        app.ingest(key.clone(), format!("line {i}\r\n").as_bytes());
    }
    press(&mut app, KeyCode::Enter);
    app.resize_panes(&[(0, 10, 40)]);
    assert_eq!(app.store(&key).unwrap().scroll_offset(), 0);
    press_ctrl(&mut app, KeyCode::Char('u'));
    assert_eq!(app.store(&key).unwrap().scroll_offset(), 12);
    press_ctrl(&mut app, KeyCode::Char('d'));
    assert_eq!(app.store(&key).unwrap().scroll_offset(), 0);
}

#[test]
fn home_and_end_jump_to_the_extremes() {
    let mut app = app_with(&["a"]);
    let key = ServiceKey::new("a", 1);
    for i in 0..100 {
        app.ingest(key.clone(), format!("line {i}\r\n").as_bytes());
    }
    press(&mut app, KeyCode::Enter);
    app.resize_panes(&[(0, 10, 40)]);
    press(&mut app, KeyCode::Home);
    assert!(app.store(&key).unwrap().scroll_offset() > 0);
    press(&mut app, KeyCode::End);
    assert_eq!(app.store(&key).unwrap().scroll_offset(), 0);
}

#[test]
fn navigation_keys_scroll_the_pane_rather_than_the_list_when_it_has_focus() {
    let mut app = app_with(&["a", "b"]);
    press(&mut app, KeyCode::Enter);
    let before = app.selected_index();
    press(&mut app, KeyCode::Char('j'));
    assert_eq!(
        app.selected_index(),
        before,
        "j should scroll the pane, not move the selection"
    );
}

#[test]
fn the_countdown_starts_once_every_service_has_exited_cleanly() {
    let cfg = Config::default();
    let mut app = App::new("test", &cfg, T0);
    app.set_services(vec![svc("a", ServiceStatus::Running)]);
    assert!(app.countdown_remaining().is_none());

    app.set_services(vec![svc("a", ServiceStatus::Success)]);
    assert!(app.countdown_remaining().is_some());
}

#[test]
fn a_failed_service_suppresses_auto_exit() {
    let cfg = Config::default();
    let mut app = App::new("test", &cfg, T0);
    app.set_services(vec![
        svc("a", ServiceStatus::Success),
        svc("b", ServiceStatus::Failure),
    ]);
    assert!(app.countdown_remaining().is_none());

    let t0: u128 = T0;
    app.tick(t0 + secs(60));
    assert_eq!(
        app.exit_reason(),
        None,
        "a crashed stack must not auto-exit"
    );
}

#[test]
fn auto_exit_fires_once_the_countdown_elapses() {
    let cfg = Config::default();
    let mut app = App::new("test", &cfg, T0);
    let t0: u128 = T0;
    app.tick(t0);
    app.set_services(vec![svc("a", ServiceStatus::Success)]);

    app.tick(t0 + millis(500));
    assert_eq!(app.exit_reason(), None, "still counting down");
    assert_eq!(app.focus(), Focus::CountdownPopup, "the popup should be up");

    app.tick(t0 + secs(DEFAULT_AUTO_EXIT_SECONDS));
    assert_eq!(app.exit_reason(), Some(ExitReason::AutoExit));
    assert_eq!(app.exit_reason().unwrap().code(), 0);
}

#[test]
fn the_countdown_counts_down() {
    let cfg = Config::default();
    let mut app = App::new("test", &cfg, T0);
    let t0: u128 = T0;
    app.tick(t0);
    app.set_services(vec![svc("a", ServiceStatus::Success)]);
    assert_eq!(app.countdown_remaining(), Some(DEFAULT_AUTO_EXIT_SECONDS));
    app.tick(t0 + millis(1500));
    assert_eq!(app.countdown_remaining(), Some(2));
}

#[test]
fn a_keypress_cancels_the_countdown() {
    let cfg = Config::default();
    let mut app = App::new("test", &cfg, T0);
    app.set_services(vec![svc("a", ServiceStatus::Success)]);
    assert!(app.countdown_remaining().is_some());
    press(&mut app, KeyCode::Char('j'));
    assert!(
        app.countdown_remaining().is_none(),
        "interacting should cancel auto-exit"
    );
}

#[test]
fn a_key_dismisses_the_countdown_popup_and_still_acts() {
    let cfg = Config::default();
    let mut app = App::new("test", &cfg, T0);
    app.set_services(vec![
        svc("a", ServiceStatus::Success),
        svc("b", ServiceStatus::Success),
    ]);
    let t0: u128 = T0;
    app.tick(t0);
    assert_eq!(app.focus(), Focus::CountdownPopup);

    press(&mut app, KeyCode::Char('j'));
    assert_ne!(app.focus(), Focus::CountdownPopup, "popup dismissed");
    assert_eq!(
        app.selected_index(),
        1,
        "and the key still moved the selection"
    );
}

#[test]
fn escape_dismisses_the_countdown_without_acting() {
    let cfg = Config::default();
    let mut app = App::new("test", &cfg, T0);
    app.set_services(vec![svc("a", ServiceStatus::Success)]);
    app.tick(T0);
    assert_eq!(app.focus(), Focus::CountdownPopup);

    press(&mut app, KeyCode::Esc);
    assert_ne!(app.focus(), Focus::CountdownPopup, "the popup closes");
    assert!(app.exit_reason().is_none(), "and Esc does not quit");
}

#[test]
fn a_service_coming_back_up_cancels_the_countdown() {
    let cfg = Config::default();
    let mut app = App::new("test", &cfg, T0);
    app.set_services(vec![svc("a", ServiceStatus::Success)]);
    assert!(app.countdown_remaining().is_some());
    app.set_services(vec![svc("a", ServiceStatus::Running)]);
    assert!(app.countdown_remaining().is_none());
}

#[test]
fn auto_exit_can_be_disabled() {
    let cfg = Config {
        auto_exit: AutoExit::Enabled(false),
        ..Config::default()
    };
    let mut app = App::new("test", &cfg, T0);
    app.set_services(vec![svc("a", ServiceStatus::Success)]);
    assert!(app.countdown_remaining().is_none());
    app.tick(T0 + secs(60));
    assert!(app.exit_reason().is_none());
}

#[test]
fn an_empty_stack_does_not_trigger_auto_exit() {
    let cfg = Config::default();
    let mut app = App::new("test", &cfg, T0);
    app.set_services(vec![]);
    assert!(app.countdown_remaining().is_none());
}

#[test]
fn output_is_routed_to_the_matching_service() {
    let mut app = app_with(&["a", "b"]);
    app.ingest(ServiceKey::new("a", 1), b"hello from a\r\n");
    let store = app.store(&ServiceKey::new("a", 1)).unwrap();
    assert!(store
        .visible_lines()
        .iter()
        .any(|l| l.contains("hello from a")));
    assert!(app.store(&ServiceKey::new("b", 1)).is_none());
}

#[test]
fn configured_pins_are_applied_once_services_arrive() {
    let cfg = Config {
        pinned: vec!["b".to_string(), "a".to_string()],
        ..Config::default()
    };
    let mut app = App::new("test", &cfg, T0);
    app.set_services(vec![
        svc("a", ServiceStatus::Running),
        svc("b", ServiceStatus::Running),
    ]);
    app.apply_startup_pins();
    assert_eq!(app.pane_key(0), Some(ServiceKey::new("b", 1)));
    assert_eq!(app.pane_key(1), Some(ServiceKey::new("a", 1)));
    assert_eq!(app.layout().arrangement(), PaneArrangement::Double);
}

#[test]
fn unknown_pinned_names_are_ignored() {
    let cfg = Config {
        pinned: vec!["nope".to_string()],
        ..Config::default()
    };
    let mut app = App::new("test", &cfg, T0);
    app.set_services(vec![svc("a", ServiceStatus::Running)]);
    app.apply_startup_pins();
    assert_eq!(app.pane_key(0), None);
    assert_eq!(app.layout().arrangement(), PaneArrangement::Empty);
}

#[test]
fn only_the_first_two_configured_pins_are_used() {
    let cfg = Config {
        pinned: vec!["a".into(), "b".into(), "c".into()],
        ..Config::default()
    };
    let mut app = App::new("test", &cfg, T0);
    app.set_services(vec![
        svc("a", ServiceStatus::Running),
        svc("b", ServiceStatus::Running),
        svc("c", ServiceStatus::Running),
    ]);
    app.apply_startup_pins();
    assert_eq!(app.pane_key(0), Some(ServiceKey::new("a", 1)));
    assert_eq!(app.pane_key(1), Some(ServiceKey::new("b", 1)));
}

#[test]
fn c_queues_a_copy_only_when_a_pane_has_focus() {
    let mut app = app_with(&["a"]);
    press(&mut app, KeyCode::Char('c'));
    assert_eq!(app.take_action(), None, "no pane focused, nothing to copy");
    press(&mut app, KeyCode::Enter);
    press(&mut app, KeyCode::Char('c'));
    assert_eq!(app.take_action(), Some(Action::CopyOutput));
}

#[test]
fn m_queues_a_layout_toggle() {
    let mut app = app_with(&["a"]);
    press(&mut app, KeyCode::Char('m'));
    assert_eq!(app.take_action(), Some(Action::ToggleLayout));
    assert_eq!(app.take_action(), None, "the action is consumed once");
}

#[test]
fn focused_output_returns_the_panes_buffer() {
    let mut app = app_with(&["a"]);
    app.ingest(ServiceKey::new("a", 1), b"hello\r\n");
    press(&mut app, KeyCode::Enter);
    let text = app.focused_output().expect("a pane is focused");
    assert!(text.contains("hello"), "got {text:?}");
}

#[test]
fn replicas_are_listed_separately_with_suffixed_names() {
    let cfg = Config::default();
    let mut app = App::new("test", &cfg, T0);
    let mut a1 = svc("api", ServiceStatus::Running);
    let mut a2 = svc("api", ServiceStatus::Running);
    a1.replica = 1;
    a2.replica = 2;
    app.set_services(vec![a1, a2, svc("db", ServiceStatus::Running)]);
    let names: Vec<_> = app.rows().iter().map(|r| r.display_name.as_str()).collect();
    assert!(names.contains(&"api-1"));
    assert!(names.contains(&"api-2"));
    assert!(names.contains(&"db"), "unscaled services keep a plain name");
}
