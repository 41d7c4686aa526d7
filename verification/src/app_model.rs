//! The application's state as a plain value, and what each operation does to it.
use vstd::prelude::*;

use crate::config::AutoExit;
use crate::filter::{FilterState, FilterView};
use crate::focus::{Focus, FocusView, MAX_PANES};
use crate::keys::{Command, KeyCode, KeyEvent, KeyTarget, ScrollDirection};
use crate::layout::{LayoutManager, ListVisibility, PaneArrangement};
use crate::service::{KeyView, RowView, ServiceStatus, ServiceView};
use crate::store::LogView;
use crate::stores::Motion;

verus! {

/// Fixed scroll step for half a page.
pub const HALF_PAGE_LINES: u16 = 12;

/// Nanoseconds to a second.
pub const SECOND: u128 = 1_000_000_000;

/// How long a transient status message stays in the bar, in nanoseconds.
pub const STATUS_MESSAGE_TTL: u128 = 3_000_000_000;

/// How the selection survives the list being re-sorted or re-filtered.
#[derive(Debug, Clone, Copy, PartialEq, Eq, Structural)]
pub enum SelectionMode {
    /// Keep the same row index.
    TrackByPosition,
    /// Keep the same service, wherever it moves to.
    TrackByName,
}

/// Work that needs resources the application does not own.
#[derive(Debug, Clone, Copy, PartialEq, Eq, Structural)]
pub enum Action {
    CopyOutput,
    ToggleLayout,
}

/// Why the application ends.
#[derive(Debug, Clone, Copy, PartialEq, Eq, Structural)]
pub enum ExitReason {
    Quit,
    Interrupt,
    AutoExit,
    /// Terminated by a signal, carrying its number so the exit status can follow
    /// the `128 + signo` convention a supervisor expects.
    Signal(i32),
}

impl ExitReason {
    /// The exit status. An interrupt gives the status that the signal would.
    pub open spec fn status(self) -> int {
        match self {
            ExitReason::Interrupt => 130,
            ExitReason::Signal(signo) => 128 + signo,
            ExitReason::Quit => 0,
            ExitReason::AutoExit => 0,
        }
    }

    /// Exit status handed back to the wrapping program.
    pub fn code(self) -> (code: i32)
        requires
            self.status() <= i32::MAX,
        ensures
            code == self.status(),
    {
        match self {
            ExitReason::Interrupt => 130,
            ExitReason::Signal(signo) => 128 + signo,
            ExitReason::Quit | ExitReason::AutoExit => 0,
        }
    }
}

/// A pane holding the whole frame, and the layout to put back when it lets go.
#[derive(Debug, Clone, Copy, PartialEq, Eq, Structural)]
pub struct FullScreen {
    /// The pane slot holding the frame.
    pub pane: usize,
    /// The split to put back on the way out.
    pub arrangement: PaneArrangement,
    /// Whether the list was on before, so a list that was hidden stays hidden.
    pub visibility: ListVisibility,
}

/// How many of `services` have that name.
pub open spec fn count_named(services: Seq<ServiceView>, name: Seq<char>) -> nat
    decreases services.len(),
{
    if services.len() == 0 {
        0
    } else {
        count_named(services.drop_last(), name) + if services.last().name == name {
            1nat
        } else {
            0
        }
    }
}

/// What a container is called in the list: its service's name, with the replica
/// behind it where the service has more than one container.
pub open spec fn display_name(services: Seq<ServiceView>, service: ServiceView) -> Seq<char> {
    if count_named(services, service.name) > 1 {
        service.name + seq!['-'] + crate::text::decimal(service.replica as nat)
    } else {
        service.name
    }
}

/// The list of `services`, in their order.
pub open spec fn list_of(services: Seq<ServiceView>) -> Seq<RowView> {
    Seq::new(
        services.len(),
        |i: int|
            RowView {
                key: KeyView { name: services[i].name, replica: services[i].replica },
                display_name: display_name(services, services[i]),
                service: services[i],
            },
    )
}

/// The rows that the filter lets through, in their order.
pub open spec fn filtered(rows: Seq<RowView>, filter: FilterView) -> Seq<RowView>
    decreases rows.len(),
{
    if rows.len() == 0 {
        Seq::empty()
    } else if filter.lets(rows.last().display_name) {
        filtered(rows.drop_last(), filter).push(rows.last())
    } else {
        filtered(rows.drop_last(), filter)
    }
}

/// Where the first row with that key is.
pub open spec fn row_with_key(rows: Seq<RowView>, key: KeyView) -> Option<int>
    decreases rows.len(),
{
    if rows.len() == 0 {
        None
    } else if row_with_key(rows.drop_last(), key) is Some {
        row_with_key(rows.drop_last(), key)
    } else if rows.last().key == key {
        Some(rows.len() - 1)
    } else {
        None
    }
}

/// Whether a row is the one that a name in the configuration stands for.
pub open spec fn answers_to(row: RowView, name: Seq<char>) -> bool {
    row.display_name == name || row.key.name == name
}

/// Where the first row is that answers to a name.
pub open spec fn row_named(rows: Seq<RowView>, name: Seq<char>) -> Option<int>
    decreases rows.len(),
{
    if rows.len() == 0 {
        None
    } else if row_named(rows.drop_last(), name) is Some {
        row_named(rows.drop_last(), name)
    } else if answers_to(rows.last(), name) {
        Some(rows.len() - 1)
    } else {
        None
    }
}

/// The first of `slots` that comes after `slot`.
pub open spec fn first_after(slots: Seq<usize>, slot: usize) -> Option<usize>
    decreases slots.len(),
{
    if slots.len() == 0 {
        None
    } else if slots[0] > slot {
        Some(slots[0])
    } else {
        first_after(slots.drop_first(), slot)
    }
}

/// The last of `slots` that comes before `slot`.
pub open spec fn last_before(slots: Seq<usize>, slot: usize) -> Option<usize>
    decreases slots.len(),
{
    if slots.len() == 0 {
        None
    } else if slots.last() < slot {
        Some(slots.last())
    } else {
        last_before(slots.drop_last(), slot)
    }
}

/// How long it is from one moment to another, and nothing where that one has not
/// come yet.
pub open spec fn since(moment: u128, now: u128) -> nat {
    if now <= moment {
        0
    } else {
        (now - moment) as nat
    }
}

/// Nanoseconds in whole seconds, rounded up.
pub open spec fn whole_seconds(nanos: nat) -> nat {
    (nanos + (SECOND - 1) as nat) / (SECOND as nat)
}

/// The application's state.
#[verifier::ext_equal]
pub struct AppView {
    pub project: Seq<char>,
    /// Every known container, unfiltered.
    pub all: Seq<RowView>,
    /// The rows on screen.
    pub visible: Seq<RowView>,
    pub stores: Map<KeyView, LogView>,
    /// Rows of scrollback for a new store.
    pub scrollback: nat,
    pub selected: nat,
    /// The service pinned to each pane slot.
    pub panes: Seq<Option<KeyView>>,
    /// Whether one pane follows the selection.
    pub spacebar_mode: bool,
    pub selection_mode: SelectionMode,
    pub focus: FocusView,
    pub filter: FilterView,
    pub layout: LayoutManager,
    pub full_screen: Option<FullScreen>,
    pub throbber: usize,
    pub exit: Option<ExitReason>,
    /// Whether the user has pressed anything, which cancels the automatic exit.
    pub user_interacted: bool,
    /// How long the countdown runs, in nanoseconds.
    pub auto_exit_after: Option<u128>,
    pub all_finished_since: Option<u128>,
    /// A message, and when it was set.
    pub status_message: Option<(Seq<char>, u128)>,
    pub clock: u128,
    pub startup_pins: Seq<Seq<char>>,
    pub pending: Option<Action>,
    pub mouse_capture: bool,
}

impl AppView {
    /// What holds in every state.
    pub open spec fn wf(self) -> bool {
        &&& self.visible == filtered(self.all, self.filter)
        &&& self.selection_in_range()
        &&& self.panes.len() == MAX_PANES
        &&& crate::stores::all_live(self.stores)
        &&& self.auto_exit_after matches Some(after) ==> after <= u64::MAX * SECOND
    }

    /// Whether a row is selected wherever there is one.
    pub open spec fn selection_in_range(self) -> bool {
        if self.visible.len() == 0 {
            self.selected == 0
        } else {
            self.selected < self.visible.len()
        }
    }

    /// A fresh application.
    pub open spec fn fresh(
        project: Seq<char>,
        scrollback: nat,
        auto_exit: AutoExit,
        pinned: Seq<Seq<char>>,
        now: u128,
    ) -> AppView {
        AppView {
            project,
            all: Seq::empty(),
            visible: Seq::empty(),
            stores: Map::empty(),
            scrollback,
            selected: 0,
            panes: seq![None, None],
            spacebar_mode: false,
            selection_mode: SelectionMode::TrackByPosition,
            focus: FocusView { base: Focus::ServiceList, popups: Seq::empty() },
            filter: FilterView::off(),
            layout: LayoutManager::initial(),
            full_screen: None,
            throbber: 0,
            exit: None,
            user_interacted: false,
            auto_exit_after: match auto_exit.delay() {
                Some(seconds) => Some((seconds * SECOND) as u128),
                None => None,
            },
            all_finished_since: None,
            status_message: None,
            clock: now,
            startup_pins: pinned,
            pending: None,
            mouse_capture: true,
        }
    }

    // ---- what is shown -----------------------------------------------------

    /// The selected service.
    pub open spec fn selected_key(self) -> Option<KeyView> {
        if self.selected < self.visible.len() {
            Some(self.visible[self.selected as int].key)
        } else {
            None
        }
    }

    /// The service shown in a pane. In spacebar mode the first pane follows the
    /// selection rather than holding a pinned entry.
    pub open spec fn pane_key(self, idx: usize) -> Option<KeyView> {
        if self.spacebar_mode {
            if idx == 0 {
                self.selected_key()
            } else {
                None
            }
        } else if idx < self.panes.len() {
            self.panes[idx as int]
        } else {
            None
        }
    }

    /// The slots a service is pinned to; none in spacebar mode.
    pub open spec fn indicators(self, key: KeyView) -> Seq<usize> {
        if self.spacebar_mode {
            Seq::empty()
        } else {
            self.slots_where(self.panes[0] == Some(key), self.panes[1] == Some(key))
        }
    }

    /// The two slots, each where it is asked for.
    pub open spec fn slots_where(self, first: bool, second: bool) -> Seq<usize> {
        if first && second {
            seq![0, 1]
        } else if first {
            seq![0]
        } else if second {
            seq![1]
        } else {
            Seq::empty()
        }
    }

    /// The pane slots that are drawn, in order.
    pub open spec fn slots(self) -> Seq<usize> {
        match self.full_screen {
            Some(full) => seq![full.pane],
            None => if self.spacebar_mode {
                seq![0]
            } else {
                self.slots_where(self.panes[0] is Some, self.panes[1] is Some)
            },
        }
    }

    /// How many slots hold a service.
    pub open spec fn pinned_count(self) -> nat {
        (if self.panes[0] is Some {
            1nat
        } else {
            0
        }) + (if self.panes[1] is Some {
            1nat
        } else {
            0
        })
    }

    /// Whether any pane is open.
    pub open spec fn has_panes(self) -> bool {
        self.layout.arrangement != PaneArrangement::Empty
    }

    /// Whether every service has exited, and all of them cleanly.
    pub open spec fn exited_cleanly(self) -> bool {
        &&& self.all.len() > 0
        &&& forall|i: int|
            0 <= i < self.all.len() ==> (#[trigger] self.all[i]).service.status.finished()
                && self.all[i].service.status != ServiceStatus::Failure
    }

    /// Seconds left before the automatic exit; `None` when no countdown runs.
    pub open spec fn countdown(self) -> Option<nat> {
        match (self.auto_exit_after, self.all_finished_since) {
            (Some(after), Some(finished)) => if self.user_interacted {
                None
            } else if since(finished, self.clock) >= after {
                Some(0)
            } else {
                Some(whole_seconds((after - since(finished, self.clock)) as nat))
            },
            _ => None,
        }
    }

    // ---- the list ----------------------------------------------------------

    /// The state with the rows on screen recomputed, and the selection kept on
    /// its service or its row as the selection mode says.
    pub open spec fn refiltered(self) -> AppView {
        let visible = filtered(self.all, self.filter);
        let followed = match self.selected_key() {
            Some(key) => row_with_key(visible, key),
            None => None,
        };
        AppView {
            visible,
            selected: if self.selection_mode == SelectionMode::TrackByName && followed is Some {
                followed->0 as nat
            } else if visible.len() == 0 {
                0
            } else if self.selected >= visible.len() {
                (visible.len() - 1) as nat
            } else {
                self.selected
            },
            ..self
        }
    }

    /// The state without the stores that no row and no pane has a use for.
    pub open spec fn pruned(self) -> AppView {
        AppView {
            stores: self.stores.restrict(crate::stores::kept_keys(self.all, self.panes)),
            ..self
        }
    }

    /// The state with the countdown started where the stack has just gone down,
    /// and stopped, with its popup, where it no longer is.
    pub open spec fn finish_noted(self) -> AppView {
        if self.exited_cleanly() {
            if self.all_finished_since is None {
                AppView { all_finished_since: Some(self.clock), ..self }
            } else {
                self
            }
        } else if self.all_finished_since is Some {
            AppView {
                all_finished_since: None,
                focus: if self.focus.popup() == Some(Focus::CountdownPopup) {
                    self.focus.closed()
                } else {
                    self.focus
                },
                ..self
            }
        } else {
            self
        }
    }

    /// The state once the services are known to be `services`.
    pub open spec fn with_services(self, services: Seq<ServiceView>) -> AppView {
        AppView { all: list_of(services), ..self }.refiltered().pruned().finish_noted()
    }

    /// The state with the next row selected, the first after the last.
    pub open spec fn next_selected(self) -> AppView {
        if self.visible.len() == 0 {
            self
        } else {
            AppView {
                selected: if self.selected + 1 == self.visible.len() {
                    0
                } else {
                    self.selected + 1
                },
                ..self
            }
        }
    }

    /// The state with the previous row selected, the last before the first.
    pub open spec fn previous_selected(self) -> AppView {
        if self.visible.len() == 0 {
            self
        } else {
            AppView {
                selected: if self.selected == 0 {
                    (self.visible.len() - 1) as nat
                } else {
                    (self.selected - 1) as nat
                },
                ..self
            }
        }
    }

    pub open spec fn with_filter(self, filter: FilterView) -> AppView {
        AppView { filter, ..self }
    }

    // ---- panes -------------------------------------------------------------

    pub open spec fn with_base(self, base: Focus) -> AppView {
        AppView { focus: self.focus.with_base(base), ..self }
    }

    pub open spec fn with_arrangement(self, arrangement: PaneArrangement) -> AppView {
        AppView { layout: LayoutManager { arrangement, ..self.layout }, ..self }
    }

    pub open spec fn with_visibility(self, visibility: ListVisibility) -> AppView {
        AppView { layout: LayoutManager { visibility, ..self.layout }, ..self }
    }

    pub open spec fn with_pane(self, idx: int, slot: Option<KeyView>) -> AppView {
        AppView { panes: self.panes.update(idx, slot), ..self }
    }

    /// The pane for which one pin is the other's: the slot that is not `idx`.
    pub open spec fn other_slot(idx: usize) -> usize {
        if idx == 0 {
            1
        } else {
            0
        }
    }

    /// The state with every pane closed.
    pub open spec fn panes_cleared(self) -> AppView {
        AppView {
            panes: seq![None, None],
            spacebar_mode: false,
            selection_mode: SelectionMode::TrackByPosition,
            ..self
        }.with_arrangement(PaneArrangement::Empty).with_base(Focus::ServiceList)
    }

    /// The state with nothing pinned to `idx` any more. The focus does not stay
    /// on a pane without content.
    pub open spec fn unpinned(self, idx: usize) -> AppView {
        let left = self.with_pane(idx as int, None);
        let arranged = left.with_arrangement(PaneArrangement::of(left.pinned_count()));
        if left.pinned_count() == 0 {
            AppView {
                selection_mode: SelectionMode::TrackByPosition,
                ..arranged.with_base(Focus::ServiceList)
            }
        } else if arranged.focus.base == Focus::Pane(idx) {
            arranged.with_base(Focus::ServiceList)
        } else {
            arranged
        }
    }

    /// The state with a service pinned to `idx`: moved there, with the focus,
    /// where the other slot held it, and otherwise put in place of what was
    /// there.
    pub open spec fn pinned(self, key: KeyView, idx: usize) -> AppView {
        let other = AppView::other_slot(idx);
        if self.panes[other as int] == Some(key) {
            let moved = self.with_pane(other as int, None).with_pane(
                idx as int,
                Some(key),
            ).with_arrangement(PaneArrangement::Single);
            if moved.focus.base == Focus::Pane(other) {
                moved.with_base(Focus::Pane(idx))
            } else {
                moved
            }
        } else {
            let placed = AppView {
                spacebar_mode: false,
                selection_mode: SelectionMode::TrackByName,
                ..self.with_pane(idx as int, Some(key)).with_base(Focus::ServiceList)
            };
            placed.with_arrangement(PaneArrangement::of(placed.pinned_count()))
        }
    }

    /// The state once the selection is pinned to `idx`, or unpinned where it was
    /// pinned there.
    pub open spec fn pane_toggled(self, idx: usize) -> AppView {
        if idx >= MAX_PANES {
            self
        } else {
            match self.selected_key() {
                None => self,
                Some(key) => if self.spacebar_mode {
                    AppView {
                        panes: seq![None, None].update(idx as int, Some(key)),
                        spacebar_mode: false,
                        selection_mode: SelectionMode::TrackByName,
                        ..self
                    }.with_arrangement(PaneArrangement::Single)
                } else if self.panes[idx as int] == Some(key) {
                    self.unpinned(idx)
                } else {
                    self.pinned(key, idx)
                },
            }
        }
    }

    /// The state with a single pane opened that follows the selection, or with
    /// the panes closed where there are any.
    pub open spec fn output_toggled(self) -> AppView {
        let shown = self.with_visibility(ListVisibility::Visible);
        match self.selected_key() {
            None => shown,
            Some(key) => if self.has_panes() {
                shown.panes_cleared()
            } else {
                AppView {
                    panes: seq![Some(key), None],
                    spacebar_mode: true,
                    selection_mode: SelectionMode::TrackByName,
                    ..shown
                }.with_arrangement(PaneArrangement::Single)
            },
        }
    }

    /// The state with the focus on the selection's pane, which is opened if
    /// there was none.
    pub open spec fn selection_opened(self) -> AppView {
        match self.selected_key() {
            None => self,
            Some(key) => if self.panes[0] == Some(key) {
                self.with_base(Focus::Pane(0))
            } else if self.panes[1] == Some(key) {
                self.with_base(Focus::Pane(1))
            } else {
                self.pinned(key, 0).with_base(Focus::Pane(0))
            },
        }
    }

    /// The state with the focused pane holding the whole frame. A pane that
    /// shows nothing is not given it, and what it replaces is noted once.
    pub open spec fn full_screen_entered(self) -> AppView {
        match self.focus.current().slot() {
            Some(idx) => if self.full_screen is Some || self.pane_key(idx) is None {
                self
            } else {
                AppView {
                    full_screen: Some(
                        FullScreen {
                            pane: idx,
                            arrangement: self.layout.arrangement,
                            visibility: self.layout.visibility,
                        },
                    ),
                    ..self
                }.with_arrangement(PaneArrangement::Single).with_visibility(ListVisibility::Hidden)
            },
            None => self,
        }
    }

    /// The state with the layout put back that the full screen replaced.
    pub open spec fn full_screen_left(self) -> AppView {
        match self.full_screen {
            Some(full) => AppView { full_screen: None, ..self }.with_arrangement(
                full.arrangement,
            ).with_visibility(full.visibility),
            None => self,
        }
    }

    /// The state once `esc` is pressed on a pane: out of the full screen, or else
    /// back to the list where there is one.
    pub open spec fn pane_left(self) -> AppView {
        if self.full_screen is Some {
            self.full_screen_left()
        } else if self.layout.visibility == ListVisibility::Visible {
            self.with_base(Focus::ServiceList)
        } else {
            self
        }
    }

    /// What the focus moves on to: through the drawn panes and then back to the
    /// list, or to the first pane where the list is hidden.
    pub open spec fn next_focus(self) -> Option<Focus> {
        let slots = self.slots();
        let first = if slots.len() == 0 {
            None
        } else {
            Some(Focus::Pane(slots[0]))
        };
        match self.focus.base {
            Focus::ServiceList => first,
            Focus::Pane(i) => match first_after(slots, i) {
                Some(slot) => Some(Focus::Pane(slot)),
                None => if self.layout.visibility == ListVisibility::Visible {
                    Some(Focus::ServiceList)
                } else {
                    first
                },
            },
            _ => None,
        }
    }

    /// What the focus moves back to.
    pub open spec fn previous_focus(self) -> Option<Focus> {
        let slots = self.slots();
        let last = if slots.len() == 0 {
            None
        } else {
            Some(Focus::Pane(slots.last()))
        };
        match self.focus.base {
            Focus::ServiceList => last,
            Focus::Pane(i) => match last_before(slots, i) {
                Some(slot) => Some(Focus::Pane(slot)),
                None => if self.layout.visibility == ListVisibility::Visible {
                    Some(Focus::ServiceList)
                } else {
                    last
                },
            },
            _ => None,
        }
    }

    /// The state with the focus moved, where a pane is open and there is
    /// somewhere to move it.
    pub open spec fn focus_moved(self, to: Option<Focus>) -> AppView {
        match to {
            Some(focus) => if self.has_panes() {
                self.with_base(focus)
            } else {
                self
            },
            None => self,
        }
    }

    /// The state with the list shown or hidden. Without panes that would leave a
    /// blank screen; and the focus does not stay on a list that is not drawn.
    pub open spec fn list_toggled(self) -> AppView {
        if !self.has_panes() {
            self
        } else {
            let toggled = AppView { layout: self.layout.toggled(), ..self };
            if toggled.layout.visibility == ListVisibility::Hidden && toggled.focus.base
                == Focus::ServiceList && toggled.slots().len() > 0 {
                toggled.with_base(Focus::Pane(toggled.slots()[0]))
            } else {
                toggled
            }
        }
    }

    // ---- scrolling and time ------------------------------------------------

    /// The service in the focused pane.
    pub open spec fn focused_key(self) -> Option<KeyView> {
        match self.focus.current().slot() {
            Some(idx) => self.pane_key(idx),
            None => None,
        }
    }

    /// The state with the focused pane scrolled.
    pub open spec fn scrolled(self, motion: Motion) -> AppView {
        match self.focused_key() {
            Some(key) => AppView {
                stores: crate::stores::moved_in(self.stores, key, motion),
                ..self
            },
            None => self,
        }
    }

    /// The state once output has come in for a service.
    pub open spec fn ingested(self, key: KeyView, bytes: Seq<u8>) -> AppView {
        AppView {
            stores: self.stores.insert(
                key,
                crate::stores::store_or_new(self.stores, key, self.scrollback).processed(bytes),
            ),
            ..self
        }
    }

    /// The state once each slot named in `sizes` has the size given there.
    pub open spec fn panes_resized(self, sizes: Seq<(usize, u16, u16)>) -> AppView
        decreases sizes.len(),
    {
        if sizes.len() == 0 {
            self
        } else {
            let before = self.panes_resized(sizes.drop_last());
            let (idx, rows, cols) = sizes.last();
            match before.pane_key(idx) {
                Some(key) => AppView {
                    stores: before.stores.insert(
                        key,
                        crate::stores::store_or_new(
                            before.stores,
                            key,
                            before.scrollback,
                        ).resized(rows, cols),
                    ),
                    ..before
                },
                None => before,
            }
        }
    }

    pub open spec fn with_message(self, message: Seq<char>) -> AppView {
        AppView { status_message: Some((message, self.clock)), ..self }
    }

    /// The state at a later moment: a message that has been up for long enough
    /// goes, and a countdown that runs shows its popup and ends.
    pub open spec fn ticked(self, now: u128) -> AppView {
        let later = AppView {
            clock: now,
            throbber: if self.throbber == usize::MAX {
                0
            } else {
                (self.throbber + 1) as usize
            },
            status_message: match self.status_message {
                Some((_, at)) => if since(at, now) > STATUS_MESSAGE_TTL {
                    None
                } else {
                    self.status_message
                },
                None => None,
            },
            ..self
        };
        match (self.auto_exit_after, self.all_finished_since) {
            (Some(after), Some(finished)) => if self.user_interacted {
                later
            } else {
                AppView {
                    focus: if self.focus.popup() == Some(Focus::CountdownPopup) {
                        self.focus
                    } else {
                        self.focus.opened(Focus::CountdownPopup)
                    },
                    exit: if since(finished, now) >= after {
                        Some(ExitReason::AutoExit)
                    } else {
                        self.exit
                    },
                    ..later
                }
            },
            _ => later,
        }
    }

    // ---- configured pins ---------------------------------------------------

    /// The state with the services that the first `n` of `names` stand for
    /// pinned, each to the slot of its place; names of no service are passed
    /// over.
    pub open spec fn names_pinned(self, names: Seq<Seq<char>>, n: nat) -> AppView
        decreases n,
    {
        if n == 0 {
            self
        } else {
            let before = self.names_pinned(names, (n - 1) as nat);
            match row_named(self.all, names[n - 1]) {
                Some(i) => before.with_pane(n - 1, Some(self.all[i].key)),
                None => before,
            }
        }
    }

    /// The state once the configured pins are applied, which is done once.
    pub open spec fn startup_pinned(self) -> AppView {
        let n = if self.startup_pins.len() < MAX_PANES {
            self.startup_pins.len()
        } else {
            MAX_PANES as nat
        };
        let placed = AppView {
            startup_pins: Seq::empty(),
            ..self.names_pinned(self.startup_pins, n)
        };
        if placed.pinned_count() > 0 {
            AppView {
                spacebar_mode: false,
                selection_mode: SelectionMode::TrackByName,
                ..placed
            }.with_arrangement(PaneArrangement::of(placed.pinned_count()))
        } else {
            placed
        }
    }

    // ---- keys --------------------------------------------------------------

    /// What a key press is for, where keys go to `focus`.
    pub open spec fn target_at(self, focus: Focus) -> KeyTarget {
        if self.filter.state == FilterState::Editing && focus == Focus::ServiceList {
            KeyTarget::Filter
        } else if focus == Focus::HelpPopup {
            KeyTarget::Help
        } else if focus is Pane {
            KeyTarget::Pane { full_screen: self.full_screen is Some }
        } else {
            KeyTarget::List { focused: focus == Focus::ServiceList }
        }
    }

    /// What a key press is for.
    pub open spec fn key_target(self) -> KeyTarget {
        self.target_at(self.focus.current())
    }

    /// The state once what a key asks for is done. `held` is how many rows a
    /// scroll key moves by.
    pub open spec fn done(self, command: Command, held: u16) -> AppView {
        match command {
            Command::Nothing => self,
            Command::Quit => AppView { exit: Some(ExitReason::Quit), ..self },
            Command::OpenHelp => AppView { focus: self.focus.opened(Focus::HelpPopup), ..self },
            Command::CloseHelp => AppView { focus: self.focus.closed(), ..self },
            Command::ToggleMouse => AppView {
                mouse_capture: !self.mouse_capture,
                ..self
            }.with_message(
                if self.mouse_capture {
                    "Mouse capture off - drag to select text with your terminal"@
                } else {
                    "Mouse capture on"@
                },
            ),
            Command::EditFilter => self.with_filter(
                FilterView { state: FilterState::Editing, ..self.filter },
            ),
            Command::ClearFilter => self.with_filter(FilterView::off()).refiltered(),
            Command::ConfirmFilter => self.with_filter(
                FilterView { state: FilterState::Persisted, ..self.filter },
            ),
            Command::EraseFilter => self.with_filter(
                FilterView {
                    query: if self.filter.query.len() == 0 {
                        Seq::empty()
                    } else {
                        self.filter.query.drop_last()
                    },
                    ..self.filter
                },
            ).refiltered(),
            Command::TypeFilter(c) => self.with_filter(
                FilterView { query: self.filter.query.push(c), ..self.filter },
            ).refiltered(),
            Command::SelectNext => self.next_selected(),
            Command::SelectPrevious => self.previous_selected(),
            Command::Scroll(direction) => if held == 0 {
                self
            } else {
                self.scrolled(motion(direction, held))
            },
            Command::ScrollHalfPage(direction) => self.scrolled(
                motion(direction, HALF_PAGE_LINES),
            ),
            Command::ScrollToTop => self.scrolled(Motion::Top),
            Command::ScrollToBottom => self.scrolled(Motion::Bottom),
            Command::Copy => AppView { pending: Some(Action::CopyOutput), ..self },
            Command::EnterFullScreen => self.full_screen_entered(),
            Command::LeavePane => self.pane_left(),
            Command::TogglePane(idx) => self.pane_toggled(idx),
            Command::ClearPanes => self.panes_cleared(),
            Command::ToggleOutput => self.output_toggled(),
            Command::OpenSelection => self.selection_opened(),
            Command::ToggleList => self.list_toggled(),
            Command::ToggleLayout => AppView { pending: Some(Action::ToggleLayout), ..self },
            Command::FocusNext => self.focus_moved(self.next_focus()),
            Command::FocusPrevious => self.focus_moved(self.previous_focus()),
        }
    }

    /// The state with the countdown cancelled and its popup closed.
    pub open spec fn awake(self) -> AppView {
        AppView {
            user_interacted: true,
            focus: if self.focus.popup() == Some(Focus::CountdownPopup) {
                self.focus.closed()
            } else {
                self.focus
            },
            ..self
        }
    }

    /// The state once a key is pressed. The interrupt always wins; any other key
    /// cancels the countdown, and then acts, but for an `esc` that dismissed the
    /// countdown's popup.
    pub open spec fn after_key(self, key: KeyEvent, now: u128, held: u16) -> AppView {
        let then = AppView { clock: now, ..self };
        if key.interrupts() {
            AppView { exit: Some(ExitReason::Interrupt), ..then }
        } else if self.focus.popup() == Some(Focus::CountdownPopup) && key.code == KeyCode::Esc {
            then.awake()
        } else {
            let awake = then.awake();
            awake.done(crate::keys::binding(awake.key_target(), key), held)
        }
    }
}

/// A scroll by that many rows.
pub open spec fn motion(direction: ScrollDirection, lines: u16) -> Motion {
    match direction {
        ScrollDirection::Up => Motion::Up(lines),
        ScrollDirection::Down => Motion::Down(lines),
    }
}

} // verus!
