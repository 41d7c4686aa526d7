//! What holds of the panes: what is pinned to which, which of them has the focus, and
//! how the frame is split.
use vstd::prelude::*;

use crate::app_model::{AppView, SelectionMode};
use crate::focus::{Focus, FocusView};
use crate::layout::{LayoutManager, LayoutMode, ListVisibility, PaneArrangement};
use crate::service::KeyView;

verus! {

/// There are as many panes as services are pinned, and no more than two.
pub proof fn law_arrangement(count: nat)
    ensures
        PaneArrangement::of(count) == PaneArrangement::Empty <==> count == 0,
        PaneArrangement::of(count) == PaneArrangement::Single <==> count == 1,
        PaneArrangement::of(count) == PaneArrangement::Double <==> count >= 2,
{
}

/// The slot that is not that one.
pub open spec fn beside(idx: int) -> int {
    1 - idx
}

/// Pinning puts the selection into the slot, in place of what was there, and leaves
/// the other slot. The focus goes to the list, and the selection is tracked by name
/// from then on. Nothing else changes.
pub proof fn law_pinning(app: AppView, idx: usize, key: KeyView)
    requires
        app.panes.len() == 2,
        idx < 2,
        !app.spacebar_mode,
        app.selected_key() == Some(key),
        app.panes[0] != Some(key),
        app.panes[1] != Some(key),
    ensures
        ({
            let after = app.pane_toggled(idx);
            &&& after.panes.len() == 2
            &&& after.panes[idx as int] == Some(key)
            &&& after.panes[beside(idx as int)] == app.panes[beside(idx as int)]
            &&& after.layout.arrangement == if app.panes[beside(idx as int)] is Some {
                PaneArrangement::Double
            } else {
                PaneArrangement::Single
            }
            &&& after.layout.visibility == app.layout.visibility
            &&& after.layout.mode == app.layout.mode
            &&& after.focus == (FocusView { base: Focus::ServiceList, ..app.focus })
            &&& after.selection_mode == SelectionMode::TrackByName
            &&& !after.spacebar_mode
            &&& after == (AppView {
                panes: after.panes,
                layout: after.layout,
                focus: after.focus,
                selection_mode: after.selection_mode,
                ..app
            })
        }),
{
}

/// Pinning a service to a slot that holds it takes it away again and leaves the other
/// slot. The focus does not stay on the pane that is gone. With nothing pinned any
/// more the focus is on the list and the selection keeps its row.
pub proof fn law_unpinning(app: AppView, idx: usize, key: KeyView)
    requires
        app.panes.len() == 2,
        idx < 2,
        !app.spacebar_mode,
        app.selected_key() == Some(key),
        app.panes[idx as int] == Some(key),
    ensures
        ({
            let after = app.pane_toggled(idx);
            let other = app.panes[beside(idx as int)];
            &&& after.panes[idx as int] is None
            &&& after.panes[beside(idx as int)] == other
            &&& after.layout.arrangement == if other is Some {
                PaneArrangement::Single
            } else {
                PaneArrangement::Empty
            }
            &&& after.layout.visibility == app.layout.visibility
            &&& after.focus.popups == app.focus.popups
            &&& after.focus.base != Focus::Pane(idx)
            &&& other is None ==> after.focus.base == Focus::ServiceList && after.selection_mode
                == SelectionMode::TrackByPosition
            &&& other is Some && app.focus.base != Focus::Pane(idx) ==> after.focus == app.focus
            &&& other is Some ==> after.selection_mode == app.selection_mode
            &&& after == (AppView {
                panes: after.panes,
                layout: after.layout,
                focus: after.focus,
                selection_mode: after.selection_mode,
                ..app
            })
        }),
{
}

/// Pinning a service to the slot that does not hold it, while the other does, moves
/// it, and a focus on it moves along.
pub proof fn law_moving_keeps_the_focus(app: AppView, idx: usize, key: KeyView)
    requires
        app.panes.len() == 2,
        idx < 2,
        !app.spacebar_mode,
        app.selected_key() == Some(key),
        app.panes[idx as int] != Some(key),
        app.panes[beside(idx as int)] == Some(key),
    ensures
        ({
            let after = app.pane_toggled(idx);
            &&& after.panes[idx as int] == Some(key)
            &&& after.panes[beside(idx as int)] is None
            &&& after.layout.arrangement == PaneArrangement::Single
            &&& after.focus.popups == app.focus.popups
            &&& after.focus.base == if app.focus.base == Focus::Pane(beside(idx as int) as usize) {
                Focus::Pane(idx)
            } else {
                app.focus.base
            }
            &&& after == (AppView {
                panes: after.panes,
                layout: after.layout,
                focus: after.focus,
                ..app
            })
        }),
{
}

/// Pinning while a pane follows the selection pins what it shows to the slot, which
/// is then the only one.
pub proof fn law_pinning_what_is_followed(app: AppView, idx: usize, key: KeyView)
    requires
        idx < 2,
        app.spacebar_mode,
        app.selected_key() == Some(key),
    ensures
        ({
            let after = app.pane_toggled(idx);
            &&& !after.spacebar_mode
            &&& after.panes[idx as int] == Some(key)
            &&& after.panes[beside(idx as int)] is None
            &&& after.layout.arrangement == PaneArrangement::Single
            &&& after.selection_mode == SelectionMode::TrackByName
            &&& after.focus == app.focus
        }),
{
}

/// With nothing selected there is nothing to pin, to open or to show.
pub proof fn law_nothing_selected(app: AppView, idx: usize)
    requires
        app.selected_key() is None,
    ensures
        app.pane_toggled(idx) == app,
        app.selection_opened() == app,
        app.output_toggled().panes == app.panes,
        app.output_toggled().spacebar_mode == app.spacebar_mode,
{
}

/// Opening the selection puts the focus on its pane. A service that is pinned keeps
/// its slot, and one that is not gets the first one; the other slot is left.
pub proof fn law_opening(app: AppView, key: KeyView)
    requires
        app.panes.len() == 2,
        !app.spacebar_mode,
        app.selected_key() == Some(key),
    ensures
        ({
            let after = app.selection_opened();
            &&& after.focus.popups == app.focus.popups
            &&& app.panes[0] == Some(key) ==> after.panes == app.panes && after.focus.base
                == Focus::Pane(0)
            &&& app.panes[0] != Some(key) && app.panes[1] == Some(key) ==> after.panes == app.panes
                && after.focus.base == Focus::Pane(1)
            &&& app.panes[0] != Some(key) && app.panes[1] != Some(key) ==> {
                &&& after.panes[0] == Some(key)
                &&& after.panes[1] == app.panes[1]
                &&& after.focus.base == Focus::Pane(0)
                &&& after.selection_mode == SelectionMode::TrackByName
                &&& after.layout.arrangement == if app.panes[1] is Some {
                    PaneArrangement::Double
                } else {
                    PaneArrangement::Single
                }
            }
        }),
{
}

/// The pane that follows the selection is opened where no pane is, with the list
/// shown beside it and the focus left; where panes are open, they are closed.
pub proof fn law_following(app: AppView, key: KeyView)
    requires
        app.selected_key() == Some(key),
    ensures
        app.output_toggled().layout.visibility == ListVisibility::Visible,
        app.layout.arrangement == PaneArrangement::Empty ==> {
            let after = app.output_toggled();
            &&& after.spacebar_mode
            &&& after.panes[0] == Some(key)
            &&& after.panes[1] is None
            &&& after.layout.arrangement == PaneArrangement::Single
            &&& after.focus == app.focus
            &&& after.selection_mode == SelectionMode::TrackByName
        },
        app.layout.arrangement != PaneArrangement::Empty ==> {
            let after = app.output_toggled();
            &&& !after.spacebar_mode
            &&& after.panes[0] is None
            &&& after.panes[1] is None
            &&& after.layout.arrangement == PaneArrangement::Empty
            &&& after.focus.base == Focus::ServiceList
            &&& after.selection_mode == SelectionMode::TrackByPosition
        },
{
}

/// What a pane shows: what is pinned to it, or, in the first one, the selection that
/// it follows.
pub proof fn law_shown(app: AppView, idx: usize)
    requires
        app.panes.len() == 2,
    ensures
        !app.spacebar_mode && idx < 2 ==> app.pane_key(idx) == app.panes[idx as int],
        app.spacebar_mode && app.selected < app.visible.len() ==> app.pane_key(0) == Some(
            app.visible[app.selected as int].key,
        ),
        app.spacebar_mode ==> app.pane_key(1) is None,
        idx >= 2 ==> app.pane_key(idx) is None,
{
}

/// The indicators of a service are the slots it is pinned to; a pane that follows the
/// selection pins nothing.
pub proof fn law_indicators(app: AppView, key: KeyView, idx: usize)
    requires
        app.panes.len() == 2,
    ensures
        app.indicators(key).contains(idx) <==> !app.spacebar_mode && idx < 2
            && app.panes[idx as int] == Some(key),
{
    let slots = app.indicators(key);
    assert(seq![0usize, 1usize][0] == 0 && seq![0usize, 1usize][1] == 1);
    assert(seq![0usize][0] == 0);
    assert(seq![1usize][0] == 1);
}

/// The slots that are drawn: the one with the whole frame, or the first where it
/// follows the selection, or those that something is pinned to.
pub proof fn law_slots(app: AppView, idx: usize)
    requires
        app.panes.len() == 2,
    ensures
        app.full_screen matches Some(full) ==> (app.slots().contains(idx) <==> idx == full.pane),
        app.full_screen is None && app.spacebar_mode ==> (app.slots().contains(idx) <==> idx == 0),
        app.full_screen is None && !app.spacebar_mode ==> (app.slots().contains(idx) <==> idx < 2
            && app.panes[idx as int] is Some),
        app.slots().len() == 2 ==> app.slots()[0] < app.slots()[1],
{
    assert(seq![0usize, 1usize][0] == 0 && seq![0usize, 1usize][1] == 1);
    assert(seq![0usize][0] == 0);
    assert(seq![1usize][0] == 1);
    if app.full_screen is Some {
        assert(seq![(app.full_screen->0).pane][0] == (app.full_screen->0).pane);
    }
}

/// The list is shown where it was hidden and hidden where it was shown, and only while
/// a pane is open. The focus does not stay on a list that is hidden: it goes to the
/// first pane.
pub proof fn law_list_toggled(app: AppView)
    ensures
        app.layout.arrangement == PaneArrangement::Empty ==> app.list_toggled() == app,
        app.layout.arrangement != PaneArrangement::Empty ==> {
            let after = app.list_toggled();
            &&& after.layout.visibility != app.layout.visibility
            &&& after.layout.arrangement == app.layout.arrangement
            &&& after.layout.mode == app.layout.mode
            &&& after.focus.popups == app.focus.popups
            &&& after.layout.visibility == ListVisibility::Hidden && app.focus.base
                == Focus::ServiceList && app.slots().len() > 0 ==> after.focus.base == Focus::Pane(
                app.slots()[0],
            )
            &&& after.layout.visibility == ListVisibility::Visible || app.focus.base
                != Focus::ServiceList ==> after.focus == app.focus
            &&& after.panes == app.panes
            &&& after.selected == app.selected
        },
{
}

/// Showing and hiding are each other's undoing, and the layout turns from what it is
/// and back; what the frame makes of a choice that was left to it counts as what it
/// is.
pub proof fn law_layout(layout: LayoutManager, auto_is_vertical: bool)
    ensures
        layout.toggled().toggled() == layout,
        layout.toggled().visibility != layout.visibility,
        layout.mode == LayoutMode::Vertical ==> layout.turned(auto_is_vertical).mode
            == LayoutMode::Horizontal,
        layout.mode == LayoutMode::Horizontal ==> layout.turned(auto_is_vertical).mode
            == LayoutMode::Vertical,
        layout.mode == LayoutMode::Auto ==> layout.turned(auto_is_vertical).mode == if
        auto_is_vertical {
            LayoutMode::Horizontal
        } else {
            LayoutMode::Vertical
        },
        layout.turned(auto_is_vertical).arrangement == layout.arrangement,
        layout.turned(auto_is_vertical).visibility == layout.visibility,
        layout.toggled().arrangement == layout.arrangement,
        layout.toggled().mode == layout.mode,
{
}

/// Closing the panes leaves everything else: what is selected, what is known, what is
/// shown of it and whether the list is.
pub proof fn law_closing_panes(app: AppView)
    ensures
        ({
            let after = app.panes_cleared();
            &&& after.panes[0] is None && after.panes[1] is None
            &&& !after.spacebar_mode
            &&& after.selection_mode == SelectionMode::TrackByPosition
            &&& after.focus == (FocusView { base: Focus::ServiceList, ..app.focus })
            &&& after.layout == (LayoutManager {
                arrangement: PaneArrangement::Empty,
                ..app.layout
            })
            &&& after == (AppView {
                panes: after.panes,
                spacebar_mode: after.spacebar_mode,
                selection_mode: after.selection_mode,
                focus: after.focus,
                layout: after.layout,
                ..app
            })
        }),
{
}

/// Only a pane that has the focus and shows a service is given the whole frame; the
/// focus stays on it, and what is pinned stays pinned.
pub proof fn law_full_screen_is_for_the_focus(app: AppView)
    requires
        app.full_screen is None,
    ensures
        app.full_screen_entered().full_screen matches Some(full) ==> {
            &&& app.focus.current() == Focus::Pane(full.pane)
            &&& app.pane_key(full.pane) is Some
            &&& full.arrangement == app.layout.arrangement
            &&& full.visibility == app.layout.visibility
        },
        app.full_screen_entered().full_screen is Some <==> (app.focus.current() matches Focus::Pane(
            idx,
        ) && app.pane_key(idx) is Some),
        app.full_screen_entered().focus == app.focus,
        app.full_screen_entered().panes == app.panes,
{
}

} // verus!
