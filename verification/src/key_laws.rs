//! What each key does, wherever it goes to.
use vstd::prelude::*;

use crate::app_model::{Action, AppView, ExitReason};
use crate::filter::{FilterState, FilterView};
use crate::focus::Focus;
use crate::keys::{KeyCode, KeyEvent};
use crate::service::KeyView;

verus! {

/// A press of a key without the control key.
pub open spec fn plain(code: KeyCode) -> KeyEvent {
    KeyEvent { code, ctrl: false }
}

/// A press of a key with the control key.
pub open spec fn with_ctrl(code: KeyCode) -> KeyEvent {
    KeyEvent { code, ctrl: true }
}

/// The state with a key noted: the clock is set, and the countdown is off.
pub open spec fn noted(app: AppView, now: u128) -> AppView {
    AppView { clock: now, user_interacted: true, ..app }
}

/// Whether keys go to the service list, with no popup over it and no filter being
/// typed.
pub open spec fn in_list(app: AppView) -> bool {
    &&& app.focus.popups.len() == 0
    &&& app.focus.base == Focus::ServiceList
    &&& app.filter.state != FilterState::Editing
}

/// Whether keys go to a pane, with no popup over it.
pub open spec fn in_pane(app: AppView, idx: usize) -> bool {
    &&& app.focus.popups.len() == 0
    &&& app.focus.base == Focus::Pane(idx)
}

proof fn lemma_noted(app: AppView, now: u128)
    requires
        app.focus.popups.len() == 0,
    ensures
        (AppView { clock: now, ..app }).awake() == noted(app, now),
{
    assert((AppView { clock: now, ..app }).awake() =~= noted(app, now));
}

/// Which keys of the service list move the selection and the focus.
pub proof fn law_list_keys_move(app: AppView, now: u128, held: u16)
    requires
        in_list(app),
    ensures
        app.after_key(plain(KeyCode::Down), now, held) == noted(app, now).next_selected(),
        app.after_key(plain(KeyCode::Char('j')), now, held) == noted(app, now).next_selected(),
        app.after_key(plain(KeyCode::Up), now, held) == noted(app, now).previous_selected(),
        app.after_key(plain(KeyCode::Char('k')), now, held) == noted(app, now).previous_selected(),
        app.after_key(plain(KeyCode::Tab), now, held) == noted(app, now).focus_moved(
            noted(app, now).next_focus(),
        ),
        app.after_key(plain(KeyCode::BackTab), now, held) == noted(app, now).focus_moved(
            noted(app, now).previous_focus(),
        ),
{
    lemma_noted(app, now);
}

/// Which keys of the service list open and close panes.
pub proof fn law_list_keys_open(app: AppView, now: u128, held: u16)
    requires
        in_list(app),
    ensures
        app.after_key(plain(KeyCode::Char('1')), now, held) == noted(app, now).pane_toggled(0),
        app.after_key(plain(KeyCode::Char('2')), now, held) == noted(app, now).pane_toggled(1),
        app.after_key(plain(KeyCode::Char('0')), now, held) == noted(app, now).panes_cleared(),
        app.after_key(plain(KeyCode::Char(' ')), now, held) == noted(app, now).output_toggled(),
        app.after_key(plain(KeyCode::Enter), now, held) == noted(app, now).selection_opened(),
        app.after_key(plain(KeyCode::Char('b')), now, held) == noted(app, now).list_toggled(),
{
    lemma_noted(app, now);
}

/// Which keys of the service list have to do with the filter and the layout, and
/// which do nothing there.
pub proof fn law_list_keys_set(app: AppView, now: u128, held: u16)
    requires
        in_list(app),
    ensures
        app.after_key(plain(KeyCode::Char('m')), now, held) == (AppView {
            pending: Some(Action::ToggleLayout),
            ..noted(app, now)
        }),
        app.after_key(plain(KeyCode::Char('/')), now, held) == (AppView {
            filter: FilterView { state: FilterState::Editing, ..app.filter },
            ..noted(app, now)
        }),
        app.after_key(plain(KeyCode::Esc), now, held) == (AppView {
            filter: FilterView { query: Seq::empty(), state: FilterState::Off },
            ..noted(app, now)
        }).refiltered(),
        app.after_key(plain(KeyCode::Char('c')), now, held) == noted(app, now),
        app.after_key(plain(KeyCode::Home), now, held) == noted(app, now),
        app.after_key(plain(KeyCode::End), now, held) == noted(app, now),
        app.after_key(plain(KeyCode::Other), now, held) == noted(app, now),
{
    lemma_noted(app, now);
}

/// What the keys do that work in the list and in a pane alike.
pub proof fn law_keys_everywhere(app: AppView, now: u128, held: u16)
    requires
        in_list(app) || exists|idx: usize| in_pane(app, idx),
    ensures
        app.after_key(plain(KeyCode::Char('q')), now, held) == (AppView {
            exit: Some(ExitReason::Quit),
            ..noted(app, now)
        }),
        app.after_key(plain(KeyCode::Char('?')), now, held).focus.popups == seq![Focus::HelpPopup],
        app.after_key(plain(KeyCode::Char('?')), now, held) == (AppView {
            focus: app.after_key(plain(KeyCode::Char('?')), now, held).focus,
            ..noted(app, now)
        }),
        app.after_key(plain(KeyCode::F(10)), now, held).mouse_capture == !app.mouse_capture,
        app.after_key(plain(KeyCode::F(10)), now, held).status_message == Some(
            (
                if app.mouse_capture {
                    "Mouse capture off - drag to select text with your terminal"@
                } else {
                    "Mouse capture on"@
                },
                now,
            ),
        ),
        app.after_key(with_ctrl(KeyCode::Char('c')), now, held) == (AppView {
            exit: Some(ExitReason::Interrupt),
            clock: now,
            ..app
        }),
{
    lemma_noted(app, now);
    assert(app.focus.opened(Focus::HelpPopup).popups =~= seq![Focus::HelpPopup]);
}

/// How far the buffer of a service is scrolled back, where it is scrolled by `by` rows
/// from where it was: up for a positive number, down for a negative one.
pub open spec fn place_after(depth: nat, offset: nat, by: int) -> int {
    if offset + by < 0 {
        0
    } else if offset + by > depth {
        depth as int
    } else {
        offset + by
    }
}

/// Whether of two states the second is the first with one buffer scrolled, by `by`
/// rows.
pub open spec fn scrolled_by(before: AppView, after: AppView, key: KeyView, by: int) -> bool {
    &&& after.stores.contains_key(key)
    &&& after.stores[key] == (crate::store::LogView {
        offset: place_after(before.stores[key].depth(), before.stores[key].offset, by) as nat,
        ..before.stores[key]
    })
    &&& forall|other: KeyView|
        other != key ==> #[trigger] after.stores.contains_key(other) == before.stores.contains_key(
            other,
        ) && after.stores[other] == before.stores[other]
    &&& after == (AppView { stores: after.stores, ..before })
}

/// What the keys of a focused pane do to the buffer it shows: they scroll it, by as
/// many rows as the key was held for, by half a page, or all the way.
pub proof fn law_scroll_keys(app: AppView, idx: usize, key: KeyView, now: u128, held: u16)
    requires
        in_pane(app, idx),
        app.pane_key(idx) == Some(key),
        app.stores.contains_key(key),
        app.stores[key].offset <= app.stores[key].depth(),
    ensures
        scrolled_by(
            noted(app, now),
            app.after_key(plain(KeyCode::Up), now, held),
            key,
            held as int,
        ),
        scrolled_by(
            noted(app, now),
            app.after_key(plain(KeyCode::Char('k')), now, held),
            key,
            held as int,
        ),
        scrolled_by(
            noted(app, now),
            app.after_key(plain(KeyCode::Down), now, held),
            key,
            -held,
        ),
        scrolled_by(
            noted(app, now),
            app.after_key(plain(KeyCode::Char('j')), now, held),
            key,
            -held,
        ),
        scrolled_by(
            noted(app, now),
            app.after_key(with_ctrl(KeyCode::Char('u')), now, held),
            key,
            12,
        ),
        scrolled_by(
            noted(app, now),
            app.after_key(with_ctrl(KeyCode::Char('d')), now, held),
            key,
            -12,
        ),
        scrolled_by(
            noted(app, now),
            app.after_key(plain(KeyCode::Home), now, held),
            key,
            app.stores[key].depth() as int,
        ),
        scrolled_by(
            noted(app, now),
            app.after_key(plain(KeyCode::End), now, held),
            key,
            -app.stores[key].depth(),
        ),
{
    lemma_noted(app, now);
    let seen = noted(app, now);
    assert(seen.focused_key() == Some(key));
    let store = app.stores[key];
    assert(store.scrolled_to(store.offset) =~= store);
    if held == 0 {
        assert(seen.stores.insert(key, store) =~= seen.stores);
        assert(scrolled_by(seen, seen, key, 0));
    }
}

/// What the other keys of a focused pane do: they copy, give the pane the frame and
/// take it away again, or leave it.
pub proof fn law_pane_keys(app: AppView, idx: usize, now: u128, held: u16)
    requires
        in_pane(app, idx),
    ensures
        app.after_key(plain(KeyCode::Char('c')), now, held) == (AppView {
            pending: Some(Action::CopyOutput),
            ..noted(app, now)
        }),
        app.after_key(plain(KeyCode::Enter), now, held) == noted(app, now).full_screen_entered(),
        app.after_key(plain(KeyCode::Esc), now, held) == noted(app, now).pane_left(),
        app.full_screen is None ==> {
            &&& app.after_key(plain(KeyCode::Tab), now, held) == noted(app, now).focus_moved(
                noted(app, now).next_focus(),
            )
            &&& app.after_key(plain(KeyCode::BackTab), now, held) == noted(app, now).focus_moved(
                noted(app, now).previous_focus(),
            )
            &&& app.after_key(plain(KeyCode::Char('b')), now, held) == noted(
                app,
                now,
            ).list_toggled()
            &&& app.after_key(plain(KeyCode::Char('0')), now, held) == noted(
                app,
                now,
            ).panes_cleared()
            &&& app.after_key(plain(KeyCode::Char('1')), now, held) == noted(
                app,
                now,
            ).pane_toggled(0)
            &&& app.after_key(plain(KeyCode::Char('2')), now, held) == noted(
                app,
                now,
            ).pane_toggled(1)
            &&& app.after_key(plain(KeyCode::Char('m')), now, held) == (AppView {
                pending: Some(Action::ToggleLayout),
                ..noted(app, now)
            })
        },
        app.full_screen is Some ==> {
            &&& app.after_key(plain(KeyCode::Tab), now, held) == noted(app, now)
            &&& app.after_key(plain(KeyCode::Char('b')), now, held) == noted(app, now)
            &&& app.after_key(plain(KeyCode::Char('0')), now, held) == noted(app, now)
            &&& app.after_key(plain(KeyCode::Char('1')), now, held) == noted(app, now)
            &&& app.after_key(plain(KeyCode::Char('2')), now, held) == noted(app, now)
            &&& app.after_key(plain(KeyCode::Char(' ')), now, held) == noted(app, now)
            &&& app.after_key(plain(KeyCode::Char('m')), now, held) == noted(app, now)
        },
{
    lemma_noted(app, now);
}

/// What keys do while a filter is typed: they are text, but for those that move the
/// selection, erase, confirm and give up.
pub proof fn law_filter_keys(app: AppView, c: char, now: u128, held: u16)
    requires
        app.focus.popups.len() == 0,
        app.focus.base == Focus::ServiceList,
        app.filter.state == FilterState::Editing,
    ensures
        app.after_key(plain(KeyCode::Char(c)), now, held) == (AppView {
            filter: FilterView { query: app.filter.query.push(c), state: FilterState::Editing },
            ..noted(app, now)
        }).refiltered(),
        app.after_key(plain(KeyCode::Backspace), now, held) == (AppView {
            filter: FilterView {
                query: if app.filter.query.len() == 0 {
                    app.filter.query
                } else {
                    app.filter.query.drop_last()
                },
                state: FilterState::Editing,
            },
            ..noted(app, now)
        }).refiltered(),
        app.after_key(plain(KeyCode::Enter), now, held) == (AppView {
            filter: FilterView { state: FilterState::Persisted, ..app.filter },
            ..noted(app, now)
        }),
        app.after_key(plain(KeyCode::Esc), now, held) == (AppView {
            filter: FilterView { query: Seq::empty(), state: FilterState::Off },
            ..noted(app, now)
        }).refiltered(),
        app.after_key(plain(KeyCode::Down), now, held) == noted(app, now).next_selected(),
        app.after_key(plain(KeyCode::Up), now, held) == noted(app, now).previous_selected(),
        app.after_key(plain(KeyCode::Tab), now, held) == noted(app, now),
{
    lemma_noted(app, now);
    if app.filter.query.len() == 0 {
        assert(app.filter.query =~= Seq::<char>::empty());
    }
}

/// Leaving a pane that does not hold the frame hands the focus to the list, where it
/// is shown, and otherwise does nothing.
pub proof fn law_leaving(app: AppView)
    requires
        app.full_screen is None,
    ensures
        app.pane_left().focus.popups == app.focus.popups,
        app.layout.visibility == crate::layout::ListVisibility::Visible
            ==> app.pane_left().focus.base == Focus::ServiceList,
        app.layout.visibility == crate::layout::ListVisibility::Hidden ==> app.pane_left() == app,
        app.pane_left() == (AppView { focus: app.pane_left().focus, ..app }),
{
}

/// Whether a key has a meaning in the service list.
pub open spec fn means_something(code: KeyCode) -> bool {
    match code {
        KeyCode::Char(c) => c == 'q' || c == '?' || c == 'j' || c == 'k' || c == '0' || c == '1'
            || c == '2' || c == ' ' || c == 'b' || c == 'm' || c == '/',
        KeyCode::F(n) => n == 10,
        KeyCode::Backspace => false,
        KeyCode::Home => false,
        KeyCode::End => false,
        KeyCode::Other => false,
        _ => true,
    }
}

/// In the list, a key with no meaning there does nothing, and the control key makes no
/// difference but for the interrupt.
pub proof fn law_other_keys(app: AppView, code: KeyCode, now: u128, held: u16)
    requires
        in_list(app),
    ensures
        !means_something(code) ==> app.after_key(plain(code), now, held) == noted(app, now),
        code != KeyCode::Char('c') ==> app.after_key(with_ctrl(code), now, held) == app.after_key(
            plain(code),
            now,
            held,
        ),
{
    lemma_noted(app, now);
}

/// What the rest of the keys do in a pane that does not hold the frame, and while a
/// filter is typed with the control key held.
pub proof fn law_keys_left(app: AppView, idx: usize, c: char, now: u128, held: u16)
    ensures
        in_pane(app, idx) && app.full_screen is None ==> {
            &&& app.after_key(plain(KeyCode::Char(' ')), now, held) == noted(
                app,
                now,
            ).output_toggled()
            &&& app.after_key(plain(KeyCode::Char('/')), now, held) == noted(app, now)
            &&& app.after_key(plain(KeyCode::Char('u')), now, held) == noted(app, now)
            &&& app.after_key(plain(KeyCode::Char('d')), now, held) == noted(app, now)
        },
        app.focus.popups.len() == 0 && app.focus.base == Focus::ServiceList && app.filter.state
            == FilterState::Editing && c != 'c' ==> app.after_key(
            with_ctrl(KeyCode::Char(c)),
            now,
            held,
        ) == noted(app, now),
{
    if app.focus.popups.len() == 0 {
        lemma_noted(app, now);
    }
}

} // verus!
