//! What holds of the application over several of its operations.
use vstd::prelude::*;

use crate::app_model::{Action, AppView, ExitReason, SelectionMode, STATUS_MESSAGE_TTL};
use crate::filter::FilterState;
use crate::focus::{Focus, MAX_PANES};
use crate::keys::{Command, KeyCode, KeyEvent, KeyTarget};
use crate::layout::{ListVisibility, PaneArrangement};
use crate::service::{KeyView, RowView, ServiceStatus, ServiceView};
use crate::stores::Motion;

verus! {

/// Selecting the next row and then the previous one, or the other way round,
/// comes back to where it was: navigation wraps in both directions.
pub proof fn law_navigation(app: AppView)
    requires
        app.wf(),
    ensures
        app.next_selected().previous_selected() == app,
        app.previous_selected().next_selected() == app,
        app.next_selected().selection_in_range(),
        app.previous_selected().selection_in_range(),
{
}

/// The interrupt wins in every state, and changes nothing else.
pub proof fn law_interrupt(app: AppView, key: KeyEvent, now: u128, held: u16)
    requires
        key.interrupts(),
    ensures
        app.after_key(key, now, held) == (AppView {
            exit: Some(ExitReason::Interrupt),
            clock: now,
            ..app
        }),
{
}

/// What a key asks for leaves what only the clock and the services drive.
proof fn lemma_done_keeps(app: AppView, command: Command, held: u16)
    ensures
        app.done(command, held).user_interacted == app.user_interacted,
        app.done(command, held).all_finished_since == app.all_finished_since,
        app.done(command, held).auto_exit_after == app.auto_exit_after,
        app.done(command, held).all == app.all,
        app.done(command, held).clock == app.clock,
        app.done(command, held).exit == if command is Quit {
            Some(ExitReason::Quit)
        } else {
            app.exit
        },
        app.done(command, held).focus.popups == if command is OpenHelp {
            app.focus.popups.push(Focus::HelpPopup)
        } else if command is CloseHelp {
            app.focus.closed().popups
        } else {
            app.focus.popups
        },
{
    match command {
        Command::TogglePane(idx) => {
            assert(app.done(Command::TogglePane(idx), held) == app.pane_toggled(idx));
        },
        Command::ToggleOutput => {},
        Command::OpenSelection => {},
        Command::ToggleList => {},
        Command::FocusNext => {},
        Command::FocusPrevious => {},
        Command::EnterFullScreen => {},
        Command::LeavePane => {},
        Command::ClearPanes => {},
        Command::Scroll(direction) => {},
        Command::ScrollHalfPage(direction) => {},
        Command::ScrollToTop => {},
        Command::ScrollToBottom => {},
        Command::EditFilter => {},
        Command::ClearFilter => {},
        Command::ConfirmFilter => {},
        Command::EraseFilter => {},
        Command::TypeFilter(c) => {},
        Command::ToggleMouse => {},
        _ => {},
    }
}

/// Something that happens without a key being pressed.
pub enum Event {
    /// Time goes by.
    Tick(u128),
    /// The services are known to be these.
    Services(Seq<ServiceView>),
    /// Output comes in for a service.
    Output(KeyView, Seq<u8>),
}

/// The state once something has happened.
pub open spec fn happened(app: AppView, event: Event) -> AppView {
    match event {
        Event::Tick(now) => app.ticked(now),
        Event::Services(services) => app.with_services(services),
        Event::Output(key, bytes) => app.ingested(key, bytes),
    }
}

/// The state once all of `events` have happened, one after another.
pub open spec fn all_happened(app: AppView, events: Seq<Event>) -> AppView
    decreases events.len(),
{
    if events.len() == 0 {
        app
    } else {
        happened(all_happened(app, events.drop_last()), events.last())
    }
}

/// Once the user has done something, events neither end the application nor
/// bring up the countdown.
proof fn lemma_no_countdown(app: AppView, events: Seq<Event>)
    requires
        app.user_interacted,
    ensures
        all_happened(app, events).user_interacted,
        all_happened(app, events).exit == app.exit,
        all_happened(app, events).countdown() is None,
        app.focus.popup() != Some(Focus::CountdownPopup) ==> all_happened(app, events).focus
            == app.focus,
    decreases events.len(),
{
    if events.len() > 0 {
        lemma_no_countdown(app, events.drop_last());
    }
}

/// Any key but the interrupt cancels the automatic exit for good: no countdown
/// runs afterwards, whatever becomes of the services and however much time goes
/// by, nor does its popup come up again, and the application does not end by it.
pub proof fn law_any_key_cancels(
    app: AppView,
    key: KeyEvent,
    now: u128,
    held: u16,
    events: Seq<Event>,
)
    requires
        !key.interrupts(),
    ensures
        ({
            let pressed = app.after_key(key, now, held);
            let later = all_happened(pressed, events);
            &&& pressed.countdown() is None
            &&& later.countdown() is None
            &&& later.exit == pressed.exit
            &&& app.exit != Some(ExitReason::AutoExit) ==> later.exit != Some(ExitReason::AutoExit)
            &&& consistent(app) ==> pressed.focus.current() != Focus::CountdownPopup
                && later.focus == pressed.focus
        }),
{
    let awake = AppView { clock: now, ..app }.awake();
    lemma_done_keeps(awake, crate::keys::binding(awake.key_target(), key), held);
    lemma_no_countdown(app.after_key(key, now, held), events);
    if consistent(app) {
        assert(awake.focus.popup() != Some(Focus::CountdownPopup));
        lemma_done_base(awake, crate::keys::binding(awake.key_target(), key), held);
    }
}

/// What a key asks for leaves the focus under the popups on the list or a pane.
proof fn lemma_done_base(app: AppView, command: Command, held: u16)
    requires
        app.focus.base == Focus::ServiceList || app.focus.base is Pane,
    ensures
        app.done(command, held).focus.base == Focus::ServiceList || app.done(
            command,
            held,
        ).focus.base is Pane,
{
    match command {
        Command::TogglePane(idx) => {
            assert(app.done(Command::TogglePane(idx), held) == app.pane_toggled(idx));
        },
        Command::ToggleOutput => {},
        Command::OpenSelection => {},
        Command::FocusNext => {},
        Command::FocusPrevious => {},
        _ => {},
    }
}

/// An `esc` that dismisses the countdown does nothing more; any other key that
/// dismisses it acts as well.
pub proof fn law_dismissing(app: AppView, key: KeyEvent, now: u128, held: u16)
    requires
        app.focus.popup() == Some(Focus::CountdownPopup),
        app.focus.closed().popup() != Some(Focus::CountdownPopup),
        !key.interrupts(),
    ensures
        key.code == KeyCode::Esc ==> app.after_key(key, now, held) == (AppView {
            clock: now,
            user_interacted: true,
            focus: app.focus.closed(),
            ..app
        }),
        key.code != KeyCode::Esc ==> app.after_key(key, now, held) == (AppView {
            user_interacted: true,
            focus: app.focus.closed(),
            ..app
        }).after_key(key, now, held),
{
}

/// The status of a row of the list is that of its service.
proof fn lemma_list_status(services: Seq<ServiceView>, i: int)
    requires
        0 <= i < services.len(),
    ensures
        crate::app_model::list_of(services)[i].service == services[i],
{
}

/// A failed service, or one that has not exited, keeps the application open: no
/// countdown runs and none ends it.
pub proof fn law_failure_keeps_open(
    app: AppView,
    services: Seq<ServiceView>,
    i: int,
    now: u128,
)
    requires
        0 <= i < services.len(),
        services[i].status == ServiceStatus::Failure || !services[i].status.finished(),
    ensures
        app.with_services(services).countdown() is None,
        app.with_services(services).ticked(now).exit == app.exit,
{
    lemma_list_status(services, i);
    assert(app.with_services(services).all[i].service == services[i]);
    assert(!app.with_services(services).exited_cleanly());
    assert(app.with_services(services).all_finished_since is None);
}

/// With no services there is no stack to have gone down.
pub proof fn law_empty_stack_stays_open(app: AppView, now: u128)
    ensures
        app.with_services(Seq::empty()).countdown() is None,
        app.with_services(Seq::empty()).ticked(now).exit == app.exit,
{
    assert(!app.with_services(Seq::empty()).exited_cleanly());
}

/// Once every service has exited cleanly the countdown runs from that moment,
/// and ends the application when its time is up and not before.
pub proof fn law_countdown(app: AppView, services: Seq<ServiceView>, after: u128, now: u128)
    requires
        services.len() > 0,
        forall|i: int|
            0 <= i < services.len() ==> (#[trigger] services[i]).status == ServiceStatus::Success,
        !app.user_interacted,
        app.auto_exit_after == Some(after),
        app.all_finished_since is None,
    ensures
        app.with_services(services).countdown() is Some,
        app.with_services(services).ticked(now).exit == if crate::app_model::since(app.clock, now)
            >= after {
            Some(ExitReason::AutoExit)
        } else {
            app.exit
        },
        app.with_services(services).ticked(now).focus.popup() == Some(Focus::CountdownPopup),
{
    let down = app.with_services(services);
    assert forall|i: int| 0 <= i < down.all.len() implies (
    #[trigger] down.all[i]).service.status.finished() && down.all[i].service.status
        != ServiceStatus::Failure by {
        assert(services[i].status == ServiceStatus::Success);
    }
    assert(down.exited_cleanly());
}

/// A message stays up for its time and is gone after it.
pub proof fn law_message(app: AppView, message: Seq<char>, now: u128)
    ensures
        app.with_message(message).ticked(now).status_message == if crate::app_model::since(
            app.clock,
            now,
        ) > STATUS_MESSAGE_TTL {
            None
        } else {
            Some((message, app.clock))
        },
{
}

/// Whether no service is pinned to both slots.
pub open spec fn pinned_once(app: AppView) -> bool {
    app.panes[0] is Some ==> app.panes[0] != app.panes[1]
}

/// No service comes to be shown in both panes: pinning one that the other pane
/// holds moves it.
pub proof fn law_pinned_once(app: AppView, idx: usize)
    requires
        app.wf(),
        pinned_once(app),
    ensures
        pinned_once(app.pane_toggled(idx)),
        pinned_once(app.selection_opened()),
        pinned_once(app.output_toggled()),
        pinned_once(app.panes_cleared()),
{
}

/// Pinning opens a pane with the selection and leaves the focus on the list;
/// pinning it there again closes the pane.
pub proof fn law_pin_and_unpin(app: AppView, idx: usize, key: KeyView)
    requires
        app.wf(),
        idx < MAX_PANES,
        !app.spacebar_mode,
        app.selected_key() == Some(key),
        app.panes[0] != Some(key),
        app.panes[1] != Some(key),
    ensures
        app.pane_toggled(idx).pane_key(idx) == Some(key),
        app.pane_toggled(idx).focus.base == Focus::ServiceList,
        app.pane_toggled(idx).selection_mode == SelectionMode::TrackByName,
        app.pane_toggled(idx).pane_toggled(idx).pane_key(idx) is None,
        app.pane_toggled(idx).pane_toggled(idx).panes[AppView::other_slot(idx) as int]
            == app.panes[AppView::other_slot(idx) as int],
{
    assert(app.pane_toggled(idx).selected_key() == app.selected_key());
}

/// Pinning to one slot what the other holds moves it: the other is left empty
/// and one pane is open.
pub proof fn law_moving(app: AppView, idx: usize, key: KeyView)
    requires
        app.wf(),
        idx < MAX_PANES,
        !app.spacebar_mode,
        app.selected_key() == Some(key),
        app.panes[AppView::other_slot(idx) as int] == Some(key),
        app.panes[idx as int] != Some(key),
    ensures
        app.pane_toggled(idx).pane_key(idx) == Some(key),
        app.pane_toggled(idx).pane_key(AppView::other_slot(idx)) is None,
        app.pane_toggled(idx).layout.arrangement == PaneArrangement::Single,
{
}

/// Clearing the panes leaves nothing pinned and the focus on the list.
pub proof fn law_clearing(app: AppView, idx: usize)
    ensures
        app.panes_cleared().pane_key(idx) is None,
        app.panes_cleared().layout.arrangement == PaneArrangement::Empty,
        app.panes_cleared().focus.base == Focus::ServiceList,
        app.panes_cleared().panes_cleared() == app.panes_cleared(),
{
    assert(app.panes_cleared().panes_cleared() =~= app.panes_cleared());
}

/// In spacebar mode the pane follows the selection, and shows no indicators.
pub proof fn law_spacebar(app: AppView, key: KeyView)
    requires
        app.wf(),
        !app.has_panes(),
        app.selected_key() is Some,
    ensures
        app.output_toggled().pane_key(0) == app.selected_key(),
        app.output_toggled().next_selected().pane_key(0)
            == app.output_toggled().next_selected().selected_key(),
        app.output_toggled().indicators(key) == Seq::<usize>::empty(),
        !app.output_toggled().output_toggled().has_panes(),
        !app.output_toggled().output_toggled().spacebar_mode,
{
}

/// Going full screen and leaving it again restores everything, the split and the
/// hidden list included; entering once more does not move what is restored.
pub proof fn law_full_screen(app: AppView)
    requires
        app.full_screen is None,
    ensures
        app.full_screen_entered().full_screen_left() == app,
        app.full_screen_entered().full_screen_entered() == app.full_screen_entered(),
        app.focused_key() is Some ==> {
            let full = app.full_screen_entered();
            &&& full.full_screen is Some
            &&& full.slots() == seq![(app.focus.current()->0) as usize]
            &&& full.layout.arrangement == PaneArrangement::Single
            &&& full.layout.visibility == ListVisibility::Hidden
        },
        app.focused_key() is None ==> app.full_screen_entered() == app,
{
}

/// The state once a key is pressed several times, each at its moment and with the
/// rows that a scroll key moves by then.
pub open spec fn pressed_all(app: AppView, key: KeyEvent, presses: Seq<(u128, u16)>) -> AppView
    decreases presses.len(),
{
    if presses.len() == 0 {
        app
    } else {
        pressed_all(app, key, presses.drop_last()).after_key(
            key,
            presses.last().0,
            presses.last().1,
        )
    }
}

/// However often `enter` is pressed on a focused pane, it gives it the frame once.
proof fn lemma_entered(app: AppView, presses: Seq<(u128, u16)>)
    requires
        app.full_screen is None,
        app.focus.popups.len() == 0,
        app.focused_key() is Some,
        presses.len() > 0,
    ensures
        pressed_all(app, KeyEvent { code: KeyCode::Enter, ctrl: false }, presses) == (AppView {
            clock: presses.last().0,
            user_interacted: true,
            ..app
        }).full_screen_entered(),
    decreases presses.len(),
{
    let enter = KeyEvent { code: KeyCode::Enter, ctrl: false };
    let (now, held) = presses.last();
    let seen = AppView { clock: now, user_interacted: true, ..app };
    let before = presses.drop_last();
    if before.len() == 0 {
        assert(AppView { clock: now, ..app }.awake() =~= seen);
    } else {
        lemma_entered(app, before);
        let full = pressed_all(app, enter, before);
        let then = AppView { clock: now, ..full };
        assert(then.awake() =~= then);
        assert(then.full_screen is Some);
        assert(then.key_target() == KeyTarget::Pane { full_screen: true });
        assert(then =~= seen.full_screen_entered());
        assert(full.after_key(enter, now, held) == then.full_screen_entered());
    }
}

/// `enter` on a focused pane gives it the frame, however often and at whatever
/// moments it is pressed: the pane is alone, the list is hidden and the focus is
/// on the pane. The first `esc` puts back the arrangement exactly as it was and
/// keeps the focus on the pane; the second one hands the focus to the list,
/// unless the list is hidden.
pub proof fn law_enter_and_escape(
    app: AppView,
    presses: Seq<(u128, u16)>,
    first: (u128, u16),
    second: (u128, u16),
)
    requires
        app.full_screen is None,
        app.focus.popups.len() == 0,
        app.focused_key() is Some,
        presses.len() > 0,
    ensures
        ({
            let enter = KeyEvent { code: KeyCode::Enter, ctrl: false };
            let esc = KeyEvent { code: KeyCode::Esc, ctrl: false };
            let full = pressed_all(app, enter, presses);
            let back = full.after_key(esc, first.0, first.1);
            let out = back.after_key(esc, second.0, second.1);
            &&& full.full_screen is Some
            &&& full.layout.arrangement == PaneArrangement::Single
            &&& full.layout.visibility == ListVisibility::Hidden
            &&& app.focus.current().slot() matches Some(i) && full.slots() == seq![i]
            &&& full.focus == app.focus
            &&& back == (AppView { clock: first.0, user_interacted: true, ..app })
            &&& out == (if app.layout.visibility == ListVisibility::Visible {
                AppView { clock: second.0, ..back }.with_base(Focus::ServiceList)
            } else {
                AppView { clock: second.0, ..back }
            })
        }),
{
    lemma_entered(app, presses);
    let seen = AppView { clock: presses.last().0, user_interacted: true, ..app };
    let full = seen.full_screen_entered();
    law_full_screen(seen);
    let leaving = AppView { clock: first.0, ..full };
    assert(leaving.awake() =~= leaving);
    assert(leaving.key_target() == KeyTarget::Pane { full_screen: true });
    let back = AppView { clock: first.0, user_interacted: true, ..app };
    assert(leaving.full_screen_left() =~= back);
    let then = AppView { clock: second.0, ..back };
    assert(then.awake() =~= then);
}

/// Full screen is modal: while a pane holds the frame and has the focus, no key
/// but `esc` changes the layout, what is pinned, which pane holds the frame or
/// what has the focus under the popups. None of them queues a change of the
/// layout.
pub proof fn law_full_screen_is_modal(app: AppView, key: KeyEvent, now: u128, held: u16)
    requires
        app.full_screen is Some,
        app.focus.current() is Pane,
        key.code != KeyCode::Esc,
        app.pending != Some(Action::ToggleLayout),
    ensures
        app.after_key(key, now, held).layout == app.layout,
        app.after_key(key, now, held).panes == app.panes,
        app.after_key(key, now, held).spacebar_mode == app.spacebar_mode,
        app.after_key(key, now, held).full_screen == app.full_screen,
        app.after_key(key, now, held).focus.base == app.focus.base,
        app.after_key(key, now, held).selected == app.selected,
        app.after_key(key, now, held).pending != Some(Action::ToggleLayout),
{
}

/// The help popup swallows every key but its own: `esc` and `?` close it, `q`
/// quits as the popup says, and nothing leaks through.
pub proof fn law_help_swallows(app: AppView, key: KeyEvent, now: u128, held: u16)
    requires
        app.focus.current() == Focus::HelpPopup,
        app.focus.popups.len() > 0,
        !key.interrupts(),
    ensures
        ({
            let seen = AppView { clock: now, user_interacted: true, ..app };
            app.after_key(key, now, held) == if key.code == KeyCode::Char('q') {
                AppView { exit: Some(ExitReason::Quit), ..seen }
            } else if key.code == KeyCode::Esc || key.code == KeyCode::Char('?') {
                AppView { focus: app.focus.closed(), ..seen }
            } else {
                seen
            }
        }),
{
    let seen = AppView { clock: now, user_interacted: true, ..app };
    assert(AppView { clock: now, ..app }.awake() =~= seen);
}

/// While a filter is typed, a character is text and no command: it is added to
/// the search term, and nothing is pinned, opened or ended by it.
pub proof fn law_typing(app: AppView, c: char, now: u128, held: u16)
    requires
        app.filter.state == FilterState::Editing,
        app.focus.current() == Focus::ServiceList,
        app.focus.popups.len() == 0,
    ensures
        ({
            let typed = app.after_key(
                KeyEvent { code: KeyCode::Char(c), ctrl: false },
                now,
                held,
            );
            &&& typed.filter.query == app.filter.query.push(c)
            &&& typed.filter.state == FilterState::Editing
            &&& typed.visible == crate::app_model::filtered(app.all, typed.filter)
            &&& typed.exit == app.exit
            &&& typed.panes == app.panes
            &&& typed.layout == app.layout
            &&& typed.focus == app.focus
            &&& typed.stores == app.stores
        }),
{
}

/// The rows on screen are those of the list that the filter lets through.
pub proof fn law_filtered(rows: Seq<RowView>, filter: crate::filter::FilterView, row: RowView)
    ensures
        crate::app_model::filtered(rows, filter).contains(row) <==> rows.contains(row)
            && filter.lets(row.display_name),
    decreases rows.len(),
{
    let out = crate::app_model::filtered(rows, filter);
    if rows.len() > 0 {
        let init = rows.drop_last();
        law_filtered(init, filter, row);
        let sub = crate::app_model::filtered(init, filter);
        if rows.contains(row) {
            let i = choose|i: int| 0 <= i < rows.len() && rows[i] == row;
            if i < init.len() {
                assert(init[i] == row);
            }
        }
        if init.contains(row) {
            let i = choose|i: int| 0 <= i < init.len() && init[i] == row;
            assert(rows[i] == row);
        }
        assert(rows[rows.len() - 1] == rows.last());
        if filter.lets(rows.last().display_name) {
            assert(out == sub.push(rows.last()));
            assert(out[sub.len() as int] == rows.last());
            if sub.contains(row) {
                let i = choose|i: int| 0 <= i < sub.len() && sub[i] == row;
                assert(out[i] == row);
            }
            if out.contains(row) {
                let i = choose|i: int| 0 <= i < out.len() && out[i] == row;
                if i < sub.len() {
                    assert(sub[i] == row);
                }
            }
        }
    }
}

/// A row that is found under a key has that key.
pub proof fn lemma_row_with_key(rows: Seq<RowView>, key: KeyView)
    ensures
        crate::app_model::row_with_key(rows, key) matches Some(i) ==> 0 <= i < rows.len()
            && rows[i].key == key,
    decreases rows.len(),
{
    if rows.len() > 0 {
        lemma_row_with_key(rows.drop_last(), key);
    }
}

/// A selection that is tracked by name stays on its service for as long as the
/// service is on screen; and whatever the mode, a row stays selected wherever
/// there is one.
pub proof fn law_selection_follows(app: AppView)
    ensures
        app.refiltered().selection_in_range(),
        app.selection_mode == SelectionMode::TrackByName && app.selected_key() is Some
            && crate::app_model::row_with_key(
            crate::app_model::filtered(app.all, app.filter),
            app.selected_key()->0,
        ) is Some ==> app.refiltered().selected_key() == app.selected_key(),
{
    if app.selected_key() is Some {
        lemma_row_with_key(
            crate::app_model::filtered(app.all, app.filter),
            app.selected_key()->0,
        );
    }
}

/// With something pinned, the selection stays on its service when the services
/// change, for as long as the service is on screen.
pub proof fn law_pinned_selection_follows(app: AppView, services: Seq<ServiceView>)
    requires
        consistent(app),
        app.pinned_count() > 0,
        !app.spacebar_mode,
        app.selected_key() is Some,
        crate::app_model::row_with_key(
            crate::app_model::filtered(crate::app_model::list_of(services), app.filter),
            app.selected_key()->0,
        ) is Some,
    ensures
        app.with_services(services).selected_key() == app.selected_key(),
{
    law_selection_follows(AppView { all: crate::app_model::list_of(services), ..app });
}

/// Output goes to the buffer of its own service and to no other.
pub proof fn law_routing(app: AppView, key: KeyView, bytes: Seq<u8>, other: KeyView)
    requires
        other != key,
    ensures
        app.ingested(key, bytes).stores.contains_key(key),
        app.ingested(key, bytes).stores.contains_key(other) == app.stores.contains_key(other),
        app.stores.contains_key(other) ==> app.ingested(key, bytes).stores[other]
            == app.stores[other],
{
}

/// Buffers are kept for the services in the list and the pinned ones, and
/// dropped for all others; pins survive a change of the list.
pub proof fn law_pruning(app: AppView, services: Seq<ServiceView>, key: KeyView)
    ensures
        ({
            let after = app.with_services(services);
            &&& after.panes == app.panes
            &&& after.stores.contains_key(key) <==> app.stores.contains_key(key)
                && crate::stores::in_use(crate::app_model::list_of(services), app.panes, key)
            &&& after.stores.contains_key(key) ==> after.stores[key] == app.stores[key]
        }),
{
}

/// A buffer is kept exactly where its service is one of those that there are, or is
/// pinned to a pane.
pub proof fn law_kept_buffers(app: AppView, services: Seq<ServiceView>, key: KeyView)
    requires
        app.panes.len() == MAX_PANES,
    ensures
        app.with_services(services).stores.contains_key(key) <==> {
            &&& app.stores.contains_key(key)
            &&& app.panes[0] == Some(key) || app.panes[1] == Some(key) || exists|i: int|
                0 <= i < services.len() && (#[trigger] services[i]).name == key.name
                    && services[i].replica == key.replica
        },
{
    let rows = crate::app_model::list_of(services);
    if exists|i: int|
        0 <= i < services.len() && (#[trigger] services[i]).name == key.name && services[i].replica
            == key.replica {
        let i = choose|i: int|
            0 <= i < services.len() && (#[trigger] services[i]).name == key.name
                && services[i].replica == key.replica;
        assert(rows[i].key == key);
        assert(crate::stores::in_use(rows, app.panes, key));
    }
    if crate::stores::in_use(rows, app.panes, key) {
        if exists|i: int| 0 <= i < rows.len() && #[trigger] rows[i].key == key {
            let i = choose|i: int| 0 <= i < rows.len() && #[trigger] rows[i].key == key;
            assert(services[i].name == key.name);
        } else {
            let i = choose|i: int| 0 <= i < app.panes.len() && #[trigger] app.panes[i] == Some(key);
            assert(i == 0 || i == 1);
        }
    }
    if app.panes[0] == Some(key) || app.panes[1] == Some(key) {
        assert(crate::stores::in_use(rows, app.panes, key));
    }
    assert(app.with_services(services).stores.contains_key(key) <==> app.stores.contains_key(key)
        && crate::stores::in_use(rows, app.panes, key));
}

/// Scrolling reaches the focused pane's buffer and no other, and moves neither
/// the selection nor the focus.
pub proof fn law_scroll_reaches_one(app: AppView, motion: Motion, other: KeyView)
    requires
        app.focused_key() != Some(other),
    ensures
        app.scrolled(motion).stores.contains_key(other) == app.stores.contains_key(other),
        app.stores.contains_key(other) ==> app.scrolled(motion).stores[other]
            == app.stores[other],
        app.scrolled(motion).selected == app.selected,
        app.scrolled(motion).focus == app.focus,
{
}

/// The first names configured are pinned, each to the slot of its place; names
/// of no service are passed over, and so is all that comes after the slots. Doing
/// it again changes nothing.
pub proof fn law_startup_pins(app: AppView, i: int)
    requires
        app.wf(),
        0 <= i < MAX_PANES,
    ensures
        i < app.startup_pins.len() ==> match crate::app_model::row_named(
            app.all,
            app.startup_pins[i],
        ) {
            Some(row) => app.startup_pinned().panes[i] == Some(app.all[row].key),
            None => app.startup_pinned().panes[i] == app.panes[i],
        },
        i >= app.startup_pins.len() ==> app.startup_pinned().panes[i] == app.panes[i],
        app.startup_pinned().startup_pinned() == app.startup_pinned(),
{
    reveal_with_fuel(AppView::names_pinned, 3);
    let once = app.startup_pinned();
    assert(once.startup_pins =~= Seq::<Seq<char>>::empty());
    assert(once.startup_pinned() =~= once);
}

/// Whether the focus is somewhere that is drawn.
pub open spec fn focus_is_drawn(app: AppView) -> bool {
    match app.focus.base {
        Focus::ServiceList => app.layout.visibility == ListVisibility::Visible,
        Focus::Pane(i) => app.slots().contains(i),
        _ => false,
    }
}

/// Where the focus stops on its way round: the list, where it is drawn, and then
/// the panes that are.
pub open spec fn stops(app: AppView) -> Seq<Focus> {
    let panes = Seq::new(app.slots().len(), |i: int| Focus::Pane(app.slots()[i]));
    if app.layout.visibility == ListVisibility::Visible {
        seq![Focus::ServiceList] + panes
    } else {
        panes
    }
}

/// The focus goes on from each stop to the next one and from the last to the
/// first, and back the other way; without panes it stays where it is.
pub proof fn law_focus_order(app: AppView, i: int)
    requires
        app.wf(),
        0 <= i < stops(app).len(),
        app.focus.base == stops(app)[i],
    ensures
        !app.has_panes() ==> app.focus_moved(app.next_focus()) == app && app.focus_moved(
            app.previous_focus(),
        ) == app,
        app.has_panes() && app.slots().len() > 0 ==> {
            let n = stops(app).len() as int;
            &&& app.focus_moved(app.next_focus()).focus.base == stops(app)[if i + 1 == n {
                0
            } else {
                i + 1
            }]
            &&& app.focus_moved(app.previous_focus()).focus.base == stops(app)[if i == 0 {
                n - 1
            } else {
                i - 1
            }]
        },
{
    reveal_with_fuel(crate::app_model::first_after, 3);
    reveal_with_fuel(crate::app_model::last_before, 3);
    let slots = app.slots();
    assert(slots.len() <= 2);
    if slots.len() == 2 {
        assert(slots[0] == 0 && slots[1] == 1);
        assert(slots.drop_first()[0] == 1);
        assert(slots.drop_last().last() == 0);
        assert(slots.drop_first().drop_first().len() == 0);
        assert(slots.drop_last().drop_last().len() == 0);
    } else if slots.len() == 1 {
        assert(slots.drop_first().len() == 0);
        assert(slots.drop_last().len() == 0);
    }
}

/// Moving the focus on and then back returns it to where it was, all the way
/// round the list and the panes, and where there are none.
pub proof fn law_focus_round(app: AppView)
    requires
        app.wf(),
        focus_is_drawn(app),
    ensures
        ({
            let on = app.focus_moved(app.next_focus());
            on.focus_moved(on.previous_focus()) == app && focus_is_drawn(on)
        }),
        ({
            let back = app.focus_moved(app.previous_focus());
            back.focus_moved(back.next_focus()) == app && focus_is_drawn(back)
        }),
{
    reveal_with_fuel(crate::app_model::first_after, 3);
    reveal_with_fuel(crate::app_model::last_before, 3);
    let slots = app.slots();
    assert(slots.len() <= 2);
    let on = app.focus_moved(app.next_focus());
    let back = app.focus_moved(app.previous_focus());
    assert(on.slots() == slots);
    assert(back.slots() == slots);
    if slots.len() > 0 {
        assert(slots.contains(slots[0]));
        assert(slots.contains(slots.last()));
    }
    if slots.len() == 0 {
        assert(on == app && back == app);
    } else if slots.len() == 2 {
        assert(slots[0] == 0 && slots[1] == 1);
        assert(slots.drop_first()[0] == 1);
        assert(slots.drop_last().last() == 0);
        assert(slots.drop_first().drop_first().len() == 0);
        assert(slots.drop_last().drop_last().len() == 0);
    } else {
        assert(slots.drop_first().len() == 0);
        assert(slots.drop_last().len() == 0);
    }
    assert(on.focus_moved(on.previous_focus()) =~= app);
    assert(back.focus_moved(back.next_focus()) =~= app);
}

/// Whether what is drawn agrees with what is pinned. The panes that are open are
/// as many as there are pins, or one that holds the whole frame and has noted
/// that to put back; a pane that follows the selection is the only one; the
/// selection is tracked by name wherever something is pinned; and at most one
/// popup is up, help only once a key has been pressed.
pub open spec fn consistent(app: AppView) -> bool {
    &&& match app.full_screen {
        None => app.layout.arrangement == PaneArrangement::of(app.pinned_count()),
        Some(full) => {
            &&& full.arrangement == PaneArrangement::of(app.pinned_count())
            &&& app.layout.arrangement == PaneArrangement::Single
            &&& app.layout.visibility == ListVisibility::Hidden
            &&& app.focus.base == Focus::Pane(full.pane)
        },
    }
    &&& app.spacebar_mode ==> app.panes[0] is Some && app.panes[1] is None
    &&& app.pinned_count() > 0 && !app.spacebar_mode ==> app.selection_mode
        == SelectionMode::TrackByName
    &&& app.focus.popups.len() <= 1
    &&& app.focus.popup() matches Some(popup) ==> popup == Focus::CountdownPopup || (popup
        == Focus::HelpPopup && app.user_interacted)
    &&& app.focus.base == Focus::ServiceList || app.focus.base is Pane
}

/// What may be asked for where keys go to `target`.
proof fn lemma_bindings(target: KeyTarget, key: KeyEvent)
    ensures
        target is Help ==> match crate::keys::binding(target, key) {
            Command::Nothing => true,
            Command::Quit => true,
            Command::CloseHelp => true,
            _ => false,
        },
        target !is Help ==> crate::keys::binding(target, key) !is CloseHelp,
        target == (KeyTarget::Pane { full_screen: true }) ==> match crate::keys::binding(
            target,
            key,
        ) {
            Command::Nothing => true,
            Command::Quit => true,
            Command::OpenHelp => true,
            Command::ToggleMouse => true,
            Command::Scroll(_) => true,
            Command::ScrollHalfPage(_) => true,
            Command::ScrollToTop => true,
            Command::ScrollToBottom => true,
            Command::Copy => true,
            Command::EnterFullScreen => true,
            Command::LeavePane => true,
            _ => false,
        },
        crate::keys::binding(target, key) matches Command::EnterFullScreen ==> target is Pane,
        crate::keys::binding(target, key) matches Command::LeavePane ==> target is Pane,
{
}

/// Every key keeps what is drawn in agreement with what is pinned.
pub proof fn law_consistent_keys(app: AppView, key: KeyEvent, now: u128, held: u16)
    requires
        app.wf(),
        consistent(app),
    ensures
        consistent(app.after_key(key, now, held)),
{
    let awake = AppView { clock: now, ..app }.awake();
    if !key.interrupts() {
        assert(consistent(awake));
        let target = awake.key_target();
        lemma_bindings(target, key);
        lemma_consistent_command(awake, target, crate::keys::binding(target, key), held);
    }
}

/// Doing what a key asks for keeps what is drawn in agreement.
proof fn lemma_consistent_command(app: AppView, target: KeyTarget, command: Command, held: u16)
    requires
        app.panes.len() == MAX_PANES,
        consistent(app),
        app.user_interacted,
        app.focus.popup() != Some(Focus::CountdownPopup),
        target == app.key_target(),
        target is Help <==> app.focus.popups.len() > 0,
        target is Help ==> command is Nothing || command is Quit || command is CloseHelp,
        target !is Help ==> command !is CloseHelp,
        app.full_screen is Some ==> target is Help || command is Nothing || command is Quit
            || command is OpenHelp || command is ToggleMouse || command is Scroll || command
            is ScrollHalfPage || command is ScrollToTop || command is ScrollToBottom || command
            is Copy || command is EnterFullScreen || command is LeavePane,
    ensures
        consistent(app.done(command, held)),
{
    match command {
        Command::TogglePane(idx) => {
            lemma_consistent_panes(app, idx);
            assert(app.done(Command::TogglePane(idx), held) == app.pane_toggled(idx));
        },
        Command::ToggleOutput => {
            lemma_consistent_panes(app, 0);
            assert(app.done(Command::ToggleOutput, held) == app.output_toggled());
        },
        Command::OpenSelection => {
            lemma_consistent_panes(app, 0);
            assert(app.done(Command::OpenSelection, held) == app.selection_opened());
        },
        Command::ToggleList => {},
        Command::FocusNext => {},
        Command::FocusPrevious => {},
        Command::EnterFullScreen => {},
        Command::LeavePane => {},
        Command::ClearPanes => {},
        Command::Scroll(direction) => {},
        Command::ScrollHalfPage(direction) => {},
        Command::ScrollToTop => {},
        Command::ScrollToBottom => {},
        Command::EditFilter => {},
        Command::ClearFilter => {},
        Command::ConfirmFilter => {},
        Command::EraseFilter => {},
        Command::TypeFilter(c) => {},
        Command::ToggleMouse => {},
        _ => {},
    }
}

/// Opening and closing panes keeps what is drawn in agreement.
proof fn lemma_consistent_panes(app: AppView, idx: usize)
    requires
        app.panes.len() == MAX_PANES,
        consistent(app),
        app.full_screen is None,
    ensures
        consistent(app.pane_toggled(idx)),
        consistent(app.output_toggled()),
        consistent(app.selection_opened()),
{
}

/// Time, output, a change of the services and the configured pins keep what is
/// drawn in agreement with what is pinned. The pins are for the start, before
/// any pane holds the frame.
pub proof fn law_consistent_events(
    app: AppView,
    now: u128,
    key: KeyView,
    bytes: Seq<u8>,
    services: Seq<ServiceView>,
)
    requires
        app.wf(),
        consistent(app),
    ensures
        consistent(app.ticked(now)),
        consistent(app.ingested(key, bytes)),
        consistent(app.with_services(services)),
        app.full_screen is None ==> consistent(app.startup_pinned()),
{
    reveal_with_fuel(AppView::names_pinned, 3);
    let names = app.startup_pins;
    let placed = app.names_pinned(
        names,
        if names.len() < MAX_PANES {
            names.len()
        } else {
            MAX_PANES as nat
        },
    );
    assert(placed.focus == app.focus && placed.layout == app.layout);
    assert(placed.panes.len() == MAX_PANES);
}

/// A fresh application is in agreement with itself.
pub proof fn law_consistent_start(
    project: Seq<char>,
    scrollback: nat,
    auto_exit: crate::config::AutoExit,
    pinned: Seq<Seq<char>>,
    now: u128,
)
    ensures
        consistent(AppView::fresh(project, scrollback, auto_exit, pinned, now)),
        pinned_once(AppView::fresh(project, scrollback, auto_exit, pinned, now)),
{
}

} // verus!
