//! Application state and key dispatch.
use vstd::prelude::*;

use crate::app_model::{Action, AppView, ExitReason, FullScreen, SelectionMode};
use crate::app_model::{HALF_PAGE_LINES, SECOND, STATUS_MESSAGE_TTL};
use crate::config::Config;
use crate::emulator::MAX_COLS;
use crate::filter::Filter;
use crate::focus::{Focus, FocusStack, MAX_PANES};
use crate::keys::{command_for, Command, KeyCode, KeyEvent, KeyTarget, ScrollDirection};
use crate::layout::{LayoutManager, ListVisibility, PaneArrangement};
use crate::service::{copy_slot, slot_holds, KeyView, Row, Service, ServiceKey, ServiceStatus};
use crate::store::LogStore;
use crate::stores::{Motion, Stores};
use crate::text::{copied, push_decimal};

verus! {

/// The application's state. Time is given in nanoseconds, from any fixed moment.
pub struct App {
    pub project: String,
    /// Every known container, unfiltered.
    pub all: Vec<Row>,
    /// The filtered rows actually on screen.
    pub visible: Vec<Row>,
    pub stores: Stores,
    pub scrollback: usize,
    pub selected: usize,
    pub pane_one: Option<ServiceKey>,
    pub pane_two: Option<ServiceKey>,
    pub spacebar_mode: bool,
    pub selection_mode: SelectionMode,
    pub focus: FocusStack,
    pub filter: Filter,
    pub layout: LayoutManager,
    /// Set while one pane owns the whole frame; also the restore point, so
    /// re-entering must not overwrite it.
    pub full_screen: Option<FullScreen>,
    pub throbber: usize,
    pub exit: Option<ExitReason>,
    /// Set once the user presses anything, cancelling the automatic exit.
    pub user_interacted: bool,
    pub auto_exit_after: Option<u128>,
    pub all_finished_since: Option<u128>,
    pub status_message: Option<(String, u128)>,
    /// Advanced by `tick` and `handle_key`.
    pub clock: u128,
    pub startup_pins: Vec<String>,
    pub pending: Option<Action>,
    pub mouse_capture: bool,
}

impl View for App {
    type V = AppView;

    open spec fn view(&self) -> AppView {
        AppView {
            project: self.project@,
            all: crate::service::row_views(self.all@),
            visible: crate::service::row_views(self.visible@),
            stores: self.stores@,
            scrollback: self.scrollback as nat,
            selected: self.selected as nat,
            panes: seq![
                crate::service::slot_view(self.pane_one),
                crate::service::slot_view(self.pane_two),
            ],
            spacebar_mode: self.spacebar_mode,
            selection_mode: self.selection_mode,
            focus: self.focus@,
            filter: self.filter@,
            layout: self.layout,
            full_screen: self.full_screen,
            throbber: self.throbber,
            exit: self.exit,
            user_interacted: self.user_interacted,
            auto_exit_after: self.auto_exit_after,
            all_finished_since: self.all_finished_since,
            status_message: match self.status_message {
                Some((message, at)) => Some((message@, at)),
                None => None,
            },
            clock: self.clock,
            startup_pins: crate::text::texts(self.startup_pins@),
            pending: self.pending,
            mouse_capture: self.mouse_capture,
        }
    }
}

/// How many of `services` have that name.
fn named_count(services: &Vec<Service>, name: &String) -> (count: usize)
    ensures
        count == crate::app_model::count_named(
            crate::service::service_views(services@),
            name@,
        ),
{
    let ghost views = crate::service::service_views(services@);
    let mut count: usize = 0;
    let mut i: usize = 0;
    while i < services.len()
        invariant
            i <= services@.len(),
            count <= i,
            views == crate::service::service_views(services@),
            count == crate::app_model::count_named(views.take(i as int), name@),
        decreases services@.len() - i,
    {
        assert(views.take(i + 1).drop_last() =~= views.take(i as int));
        if services[i].name == *name {
            count += 1;
        }
        i += 1;
    }
    assert(views.take(i as int) =~= views);
    count
}

/// The list of `services`, in their order.
fn build_list(services: &Vec<Service>) -> (rows: Vec<Row>)
    ensures
        crate::service::row_views(rows@) == crate::app_model::list_of(
            crate::service::service_views(services@),
        ),
{
    let ghost views = crate::service::service_views(services@);
    let mut rows: Vec<Row> = Vec::new();
    let mut i: usize = 0;
    while i < services.len()
        invariant
            i <= services@.len(),
            views == crate::service::service_views(services@),
            crate::service::row_views(rows@) == crate::app_model::list_of(views).take(i as int),
        decreases services@.len() - i,
    {
        let service: &Service = &services[i];
        let mut display_name: String = copied(&service.name);
        if named_count(services, &service.name) > 1 {
            display_name.push('-');
            push_decimal(&mut display_name, service.replica as u64);
        }
        proof {
            assert(views[i as int] == service@);
            assert(service.name@.push('-') =~= service.name@ + seq!['-']);
            assert(display_name@ =~= crate::app_model::display_name(views, service@));
        }
        let ghost before = rows@;
        let row = Row {
            key: ServiceKey::new(service.name.as_str(), service.replica),
            display_name,
            service: service.copy(),
        };
        let ghost view = row@;
        rows.push(row);
        proof {
            let list = crate::app_model::list_of(views);
            assert(view == list[i as int]);
            assert(crate::service::row_views(rows@) =~= crate::service::row_views(before).push(
                view,
            ));
            assert(list.take(i + 1) =~= list.take(i as int).push(list[i as int]));
        }
        i += 1;
    }
    assert(crate::app_model::list_of(views).take(i as int) =~= crate::app_model::list_of(views));
    rows
}

/// Where the first row with that key is.
fn find_key(rows: &Vec<Row>, key: &ServiceKey) -> (at: Option<usize>)
    ensures
        (match at {
            Some(i) => Some(i as int),
            None => None,
        }) == crate::app_model::row_with_key(crate::service::row_views(rows@), key@),
        at matches Some(i) ==> i < rows@.len(),
{
    let ghost views = crate::service::row_views(rows@);
    let mut i: usize = 0;
    while i < rows.len()
        invariant
            i <= rows@.len(),
            views == crate::service::row_views(rows@),
            crate::app_model::row_with_key(views.take(i as int), key@) is None,
        decreases rows@.len() - i,
    {
        assert(views.take(i + 1).drop_last() =~= views.take(i as int));
        if rows[i].key.same(key) {
            proof {
                lemma_row_with_key(views, key@, i + 1);
            }
            return Some(i);
        }
        i += 1;
    }
    assert(views.take(i as int) =~= views);
    None
}

/// The first row with a key stays the first when more rows follow.
proof fn lemma_row_with_key(rows: Seq<crate::service::RowView>, key: KeyView, n: int)
    requires
        0 <= n <= rows.len(),
        crate::app_model::row_with_key(rows.take(n), key) is Some,
    ensures
        crate::app_model::row_with_key(rows, key) == crate::app_model::row_with_key(
            rows.take(n),
            key,
        ),
    decreases rows.len(),
{
    if n == rows.len() {
        assert(rows.take(n) =~= rows);
    } else {
        assert(rows.drop_last().take(n) =~= rows.take(n));
        lemma_row_with_key(rows.drop_last(), key, n);
    }
}

/// Where the first row is that answers to a name.
fn find_named(rows: &Vec<Row>, name: &String) -> (at: Option<usize>)
    ensures
        (match at {
            Some(i) => Some(i as int),
            None => None,
        }) == crate::app_model::row_named(crate::service::row_views(rows@), name@),
        at matches Some(i) ==> i < rows@.len(),
{
    let ghost views = crate::service::row_views(rows@);
    let mut i: usize = 0;
    while i < rows.len()
        invariant
            i <= rows@.len(),
            views == crate::service::row_views(rows@),
            crate::app_model::row_named(views.take(i as int), name@) is None,
        decreases rows@.len() - i,
    {
        assert(views.take(i + 1).drop_last() =~= views.take(i as int));
        if rows[i].display_name == *name || rows[i].key.name == *name {
            proof {
                lemma_row_named(views, name@, i + 1);
            }
            return Some(i);
        }
        i += 1;
    }
    assert(views.take(i as int) =~= views);
    None
}

/// The first row that answers to a name stays the first when more rows follow.
proof fn lemma_row_named(rows: Seq<crate::service::RowView>, name: Seq<char>, n: int)
    requires
        0 <= n <= rows.len(),
        crate::app_model::row_named(rows.take(n), name) is Some,
    ensures
        crate::app_model::row_named(rows, name) == crate::app_model::row_named(rows.take(n), name),
    decreases rows.len(),
{
    if n == rows.len() {
        assert(rows.take(n) =~= rows);
    } else {
        assert(rows.drop_last().take(n) =~= rows.take(n));
        lemma_row_named(rows.drop_last(), name, n);
    }
}

impl App {
    /// Whether the state is one that the methods leave it in.
    pub open spec fn wf(&self) -> bool {
        self@.wf() && self.stores.wf()
    }

    /// A fresh application for `project`, with nothing pinned and nothing full
    /// screen.
    pub fn new(project: &str, config: &Config, now: u128) -> (app: App)
        ensures
            app.wf(),
            app@ == AppView::fresh(
                project@,
                config.scrollback as nat,
                config.auto_exit,
                crate::text::texts(config.pinned@),
                now,
            ),
    {
        let mut startup_pins: Vec<String> = Vec::new();
        let mut i: usize = 0;
        while i < config.pinned.len()
            invariant
                i <= config.pinned@.len(),
                crate::text::texts(startup_pins@) == crate::text::texts(config.pinned@).take(i as int),
            decreases config.pinned@.len() - i,
        {
            let ghost before = startup_pins@;
            startup_pins.push(copied(&config.pinned[i]));
            proof {
                let pins = crate::text::texts(config.pinned@);
                assert(crate::text::texts(startup_pins@) =~= crate::text::texts(before).push(pins[i as int]));
                assert(pins.take(i + 1) =~= pins.take(i as int).push(pins[i as int]));
            }
            i += 1;
        }
        let auto_exit_after: Option<u128> = match config.auto_exit.seconds() {
            Some(seconds) => Some(seconds as u128 * SECOND),
            None => None,
        };
        let app = App {
            project: project.to_owned(),
            all: Vec::new(),
            visible: Vec::new(),
            stores: Stores::new(),
            scrollback: config.scrollback,
            selected: 0,
            pane_one: None,
            pane_two: None,
            spacebar_mode: false,
            selection_mode: SelectionMode::TrackByPosition,
            focus: FocusStack::new(),
            filter: Filter::new(),
            layout: LayoutManager::new(),
            full_screen: None,
            throbber: 0,
            exit: None,
            user_interacted: false,
            auto_exit_after,
            all_finished_since: None,
            status_message: None,
            clock: now,
            startup_pins,
            pending: None,
            mouse_capture: true,
        };
        assert(crate::text::texts(config.pinned@).take(i as int) =~= crate::text::texts(config.pinned@));
        assert(app@.all =~= Seq::empty());
        assert(app@.visible =~= Seq::empty());
        app
    }

    // ---- accessors -------------------------------------------------------

    /// The rows on screen.
    pub fn rows(&self) -> (rows: &[Row])
        ensures
            crate::service::row_views(rows@) == self@.visible,
    {
        self.visible.as_slice()
    }

    /// Which row is selected.
    pub fn selected_index(&self) -> (selected: usize)
        ensures
            selected == self@.selected,
    {
        self.selected
    }

    /// The selected row.
    pub fn selected_row(&self) -> (row: Option<&Row>)
        ensures
            row is Some <==> self@.selected < self@.visible.len(),
            row matches Some(r) ==> r@ == self@.visible[self@.selected as int],
    {
        if self.selected < self.visible.len() {
            Some(&self.visible[self.selected])
        } else {
            None
        }
    }

    /// The selected service.
    pub fn selected_key(&self) -> (key: Option<ServiceKey>)
        ensures
            crate::service::slot_view(key) == self@.selected_key(),
    {
        match self.selected_row() {
            Some(row) => Some(row.key.copy()),
            None => None,
        }
    }

    /// What keys go to.
    pub fn focus(&self) -> (focus: Focus)
        ensures
            focus == self@.focus.current(),
    {
        self.focus.current()
    }

    /// The filter over the list.
    pub fn filter(&self) -> (filter: &Filter)
        ensures
            filter@ == self@.filter,
    {
        &self.filter
    }

    /// What the user has chosen of the layout.
    pub fn layout(&self) -> (layout: &LayoutManager)
        ensures
            *layout == self@.layout,
    {
        &self.layout
    }

    /// The pane currently holding the whole frame, if any.
    pub fn full_screen_pane(&self) -> (pane: Option<usize>)
        ensures
            pane == match self@.full_screen {
                Some(full) => Some(full.pane),
                None => None,
            },
    {
        match self.full_screen {
            Some(full) => Some(full.pane),
            None => None,
        }
    }

    /// The animation's step.
    pub fn throbber(&self) -> (throbber: usize)
        ensures
            throbber == self@.throbber,
    {
        self.throbber
    }

    /// Why the application ends, once it does.
    pub fn exit_reason(&self) -> (exit: Option<ExitReason>)
        ensures
            exit == self@.exit,
    {
        self.exit
    }

    /// Takes any action queued by the last keypress.
    pub fn take_action(&mut self) -> (action: Option<Action>)
        ensures
            action == old(self)@.pending,
            final(self)@ == (AppView { pending: None, ..old(self)@ }),
            old(self).wf() ==> final(self).wf(),
    {
        let action: Option<Action> = self.pending;
        self.pending = None;
        action
    }

    /// The transient message in the bar.
    pub fn status_message(&self) -> (message: Option<&str>)
        ensures
            message is Some <==> self@.status_message is Some,
            message matches Some(m) ==> m@ == (self@.status_message->0).0,
    {
        match &self.status_message {
            Some((message, _)) => Some(message.as_str()),
            None => None,
        }
    }

    /// The service shown in a pane. In spacebar mode the first pane follows the
    /// selection rather than holding a pinned entry.
    pub fn pane_key(&self, idx: usize) -> (key: Option<ServiceKey>)
        ensures
            crate::service::slot_view(key) == self@.pane_key(idx),
    {
        if self.spacebar_mode {
            if idx == 0 {
                self.selected_key()
            } else {
                None
            }
        } else if idx == 0 {
            copy_slot(&self.pane_one)
        } else if idx == 1 {
            copy_slot(&self.pane_two)
        } else {
            None
        }
    }

    /// Pane slots a service is pinned to, for the indicators in the list. Empty
    /// in spacebar mode.
    pub fn pane_indicators(&self, key: &ServiceKey) -> (slots: Vec<usize>)
        ensures
            slots@ == self@.indicators(key@),
    {
        let mut slots: Vec<usize> = Vec::new();
        if !self.spacebar_mode {
            if slot_holds(&self.pane_one, key) {
                slots.push(0);
            }
            if slot_holds(&self.pane_two, key) {
                slots.push(1);
            }
        }
        assert(slots@ =~= self@.indicators(key@));
        slots
    }

    /// The log store of a service.
    pub fn store(&self, key: &ServiceKey) -> (store: Option<&LogStore>)
        requires
            self.wf(),
        ensures
            store is Some <==> self@.stores.contains_key(key@),
            store matches Some(s) ==> s@ == self@.stores[key@],
    {
        self.stores.get(key)
    }

    /// How many slots hold a service.
    fn pinned_count(&self) -> (count: usize)
        ensures
            count == self@.pinned_count(),
    {
        let first: usize = if self.pane_one.is_some() { 1 } else { 0 };
        let second: usize = if self.pane_two.is_some() { 1 } else { 0 };
        first + second
    }

    /// Whether any pane is open.
    pub fn has_visible_panes(&self) -> (open: bool)
        ensures
            open == self@.has_panes(),
    {
        self.layout.arrangement() != PaneArrangement::Empty
    }

    /// Puts a service, or nothing, into a slot.
    fn set_pane(&mut self, idx: usize, slot: Option<ServiceKey>)
        requires
            idx < MAX_PANES,
        ensures
            final(self)@ == old(self)@.with_pane(idx as int, crate::service::slot_view(slot)),
            final(self).stores == old(self).stores,
    {
        if idx == 0 {
            self.pane_one = slot;
        } else {
            self.pane_two = slot;
        }
        assert(self@ =~= old(self)@.with_pane(idx as int, crate::service::slot_view(slot)));
    }

    /// Whether a slot holds a service.
    fn pane_holds(&self, idx: usize, key: &ServiceKey) -> (holds: bool)
        requires
            idx < MAX_PANES,
        ensures
            holds == (self@.panes[idx as int] == Some(key@)),
    {
        if idx == 0 {
            slot_holds(&self.pane_one, key)
        } else {
            slot_holds(&self.pane_two, key)
        }
    }

    /// Pins the services named in the configuration to the panes, once the list
    /// is first populated. Names that don't match any service are ignored.
    pub fn apply_startup_pins(&mut self)
        requires
            old(self).wf(),
        ensures
            final(self).wf(),
            final(self)@ == old(self)@.startup_pinned(),
    {
        let mut wanted: Vec<String> = Vec::new();
        std::mem::swap(&mut wanted, &mut self.startup_pins);
        assert(crate::text::texts(self.startup_pins@) =~= Seq::<Seq<char>>::empty());
        let ghost names = crate::text::texts(wanted@);
        let n: usize = if wanted.len() < MAX_PANES { wanted.len() } else { MAX_PANES };
        let mut idx: usize = 0;
        while idx < n
            invariant
                idx <= n <= MAX_PANES,
                n <= wanted@.len(),
                names == crate::text::texts(wanted@),
                self@ == (AppView {
                    startup_pins: Seq::empty(),
                    ..old(self)@.names_pinned(names, idx as nat)
                }),
                self@.all == old(self)@.all,
                self.stores == old(self).stores,
            decreases n - idx,
        {
            match find_named(&self.all, &wanted[idx]) {
                Some(at) => {
                    let key: ServiceKey = self.all[at].key.copy();
                    self.set_pane(idx, Some(key));
                },
                None => {},
            }
            assert(self@ =~= (AppView {
                startup_pins: Seq::empty(),
                ..old(self)@.names_pinned(names, (idx + 1) as nat)
            }));
            idx += 1;
        }
        proof {
            lemma_names_pinned(old(self)@, names, n as nat);
        }
        let count: usize = self.pinned_count();
        if count > 0 {
            self.spacebar_mode = false;
            self.selection_mode = SelectionMode::TrackByName;
            self.layout.set_arrangement(PaneArrangement::for_count(count));
        }
    }
}

/// The rows that the filter lets through, in their order.
fn filter_rows(rows: &Vec<Row>, filter: &Filter) -> (visible: Vec<Row>)
    ensures
        crate::service::row_views(visible@) == crate::app_model::filtered(
            crate::service::row_views(rows@),
            filter@,
        ),
{
    let ghost views = crate::service::row_views(rows@);
    let mut visible: Vec<Row> = Vec::new();
    let mut i: usize = 0;
    while i < rows.len()
        invariant
            i <= rows@.len(),
            views == crate::service::row_views(rows@),
            crate::service::row_views(visible@) == crate::app_model::filtered(
                views.take(i as int),
                filter@,
            ),
        decreases rows@.len() - i,
    {
        assert(views.take(i + 1).drop_last() =~= views.take(i as int));
        if filter.matches(rows[i].display_name.as_str()) {
            let ghost before = visible@;
            visible.push(rows[i].copy());
            assert(crate::service::row_views(visible@) =~= crate::service::row_views(before).push(
                views[i as int],
            ));
        }
        i += 1;
    }
    assert(views.take(i as int) =~= views);
    assert(crate::service::row_views(visible@) =~= crate::app_model::filtered(views, filter@));
    visible
}

/// A filter lets no more rows through than there are, and which it lets through
/// depends on its search term alone.
pub proof fn lemma_filtered(
    rows: Seq<crate::service::RowView>,
    filter: crate::filter::FilterView,
    other: crate::filter::FilterView,
)
    ensures
        crate::app_model::filtered(rows, filter).len() <= rows.len(),
        filter.query == other.query ==> crate::app_model::filtered(rows, filter)
            == crate::app_model::filtered(rows, other),
    decreases rows.len(),
{
    if rows.len() > 0 {
        lemma_filtered(rows.drop_last(), filter, other);
    }
}

impl App {
    // ---- data ------------------------------------------------------------

    /// Feeds container output into the right service's buffer.
    pub fn ingest(&mut self, key: ServiceKey, bytes: &[u8])
        requires
            old(self).wf(),
        ensures
            final(self).wf(),
            final(self)@ == old(self)@.ingested(key@, bytes@),
            crate::stores::follows_output(
                crate::stores::store_or_new(old(self)@.stores, key@, old(self)@.scrollback),
                final(self)@.stores[key@],
            ),
    {
        self.stores.process(&key, self.scrollback, bytes);
    }

    /// Replaces the known service list, preserving selection and pins. The list
    /// keeps the order that the services come in: sorting them is the caller's
    /// task.
    pub fn set_services(&mut self, services: Vec<Service>)
        requires
            old(self).wf(),
        ensures
            final(self).wf(),
            final(self)@ == old(self)@.with_services(crate::service::service_views(services@)),
    {
        self.all = build_list(&services);
        self.reapply_filter();
        self.prune_stores();
        self.note_finished_state();
    }

    /// Drops log buffers for containers that no longer exist, so a long session
    /// with service churn doesn't accumulate them. Pinned panes keep theirs.
    fn prune_stores(&mut self)
        requires
            old(self).wf(),
        ensures
            final(self).wf(),
            final(self)@ == old(self)@.pruned(),
    {
        self.stores.retain(&self.all, &self.pane_one, &self.pane_two);
    }

    /// Recomputes the visible rows, keeping the selection anchored per the
    /// current selection mode.
    fn reapply_filter(&mut self)
        requires
            old(self).stores.wf(),
            old(self)@.auto_exit_after matches Some(after) ==> after <= u64::MAX * SECOND,
        ensures
            final(self).wf(),
            final(self)@ == old(self)@.refiltered(),
    {
        let previous: Option<ServiceKey> = self.selected_key();
        self.visible = filter_rows(&self.all, &self.filter);
        if self.selection_mode == SelectionMode::TrackByName {
            match &previous {
                Some(key) => match find_key(&self.visible, key) {
                    Some(at) => {
                        self.selected = at;
                        return;
                    },
                    None => {},
                },
                None => {},
            }
        }
        self.clamp_selection();
    }

    /// Brings the selection back onto a row.
    fn clamp_selection(&mut self)
        ensures
            final(self)@ == (AppView {
                selected: if old(self)@.visible.len() == 0 {
                    0
                } else if old(self)@.selected >= old(self)@.visible.len() {
                    (old(self)@.visible.len() - 1) as nat
                } else {
                    old(self)@.selected
                },
                ..old(self)@
            }),
            final(self).stores == old(self).stores,
    {
        if self.visible.len() == 0 {
            self.selected = 0;
        } else if self.selected >= self.visible.len() {
            self.selected = self.visible.len() - 1;
        }
    }

    /// Number of services hidden by the filter, for the status bar.
    pub fn hidden_count(&self) -> (hidden: usize)
        requires
            self.wf(),
        ensures
            hidden == self@.all.len() - self@.visible.len(),
    {
        proof {
            lemma_filtered(self@.all, self@.filter, self@.filter);
        }
        self.all.len() - self.visible.len()
    }

    /// True when every service exited, and all of them exited cleanly.
    ///
    /// A failed service suppresses the automatic exit: closing would let the
    /// wrapping program tear the project down before anyone read the crash.
    fn stack_exited_cleanly(&self) -> (clean: bool)
        ensures
            clean == self@.exited_cleanly(),
    {
        if self.all.len() == 0 {
            return false;
        }
        let mut i: usize = 0;
        while i < self.all.len()
            invariant
                i <= self.all@.len(),
                forall|j: int|
                    0 <= j < i ==> (#[trigger] self@.all[j]).service.status.finished()
                        && self@.all[j].service.status != ServiceStatus::Failure,
            decreases self.all@.len() - i,
        {
            let status: ServiceStatus = self.all[i].service.status;
            assert(self@.all[i as int].service.status == status);
            if !status.is_finished() || status == ServiceStatus::Failure {
                return false;
            }
            i += 1;
        }
        true
    }

    /// Starts (or cancels) the countdown when the stack goes down.
    fn note_finished_state(&mut self)
        requires
            old(self).wf(),
        ensures
            final(self).wf(),
            final(self)@ == old(self)@.finish_noted(),
    {
        let all_finished: bool = self.stack_exited_cleanly();
        if all_finished {
            if self.all_finished_since.is_none() {
                self.all_finished_since = Some(self.clock);
            }
        } else if self.all_finished_since.is_some() {
            self.all_finished_since = None;
            if self.focus.popup() == Some(Focus::CountdownPopup) {
                self.focus.close_popup();
            }
        }
    }

    /// Seconds left before the automatic exit, or `None` when no countdown is
    /// running.
    pub fn countdown_remaining(&self) -> (seconds: Option<u64>)
        requires
            self.wf(),
        ensures
            (match seconds {
                Some(s) => Some(s as nat),
                None => None,
            }) == self@.countdown(),
    {
        if self.user_interacted {
            return None;
        }
        match (self.auto_exit_after, self.all_finished_since) {
            (Some(after), Some(finished)) => {
                let elapsed: u128 = self.clock.saturating_sub(finished);
                if elapsed >= after {
                    return Some(0);
                }
                let left: u128 = after - elapsed;
                let seconds: u128 = (left + (SECOND - 1)) / SECOND;
                Some(seconds as u64)
            },
            _ => None,
        }
    }

    /// Advances animation and time-based state. Called once per tick.
    pub fn tick(&mut self, now: u128)
        requires
            old(self).wf(),
        ensures
            final(self).wf(),
            final(self)@ == old(self)@.ticked(now),
    {
        self.clock = now;
        self.throbber = if self.throbber == usize::MAX { 0 } else { self.throbber + 1 };

        let expired: bool = match &self.status_message {
            Some((_, at)) => now.saturating_sub(*at) > STATUS_MESSAGE_TTL,
            None => false,
        };
        if expired {
            self.status_message = None;
        }
        if !self.user_interacted {
            match (self.auto_exit_after, self.all_finished_since) {
                (Some(after), Some(finished)) => {
                    if self.focus.popup() != Some(Focus::CountdownPopup) {
                        self.focus.push_popup(Focus::CountdownPopup);
                    }
                    if now.saturating_sub(finished) >= after {
                        self.exit = Some(ExitReason::AutoExit);
                    }
                },
                _ => {},
            }
        }
    }

    /// Shows a transient message in the bar.
    pub fn set_status_message(&mut self, message: &str)
        ensures
            final(self)@ == old(self)@.with_message(message@),
            old(self).wf() ==> final(self).wf(),
    {
        self.status_message = Some((message.to_owned(), self.clock));
    }

    // ---- selection -------------------------------------------------------

    /// Selects the next row, the first after the last.
    pub fn select_next(&mut self)
        requires
            old(self).wf(),
        ensures
            final(self).wf(),
            final(self)@ == old(self)@.next_selected(),
    {
        if self.visible.len() == 0 {
            return;
        }
        self.selected = if self.selected + 1 == self.visible.len() { 0 } else { self.selected + 1 };
    }

    /// Selects the previous row, the last before the first.
    pub fn select_previous(&mut self)
        requires
            old(self).wf(),
        ensures
            final(self).wf(),
            final(self)@ == old(self)@.previous_selected(),
    {
        if self.visible.len() == 0 {
            return;
        }
        self.selected = if self.selected == 0 {
            self.visible.len() - 1
        } else {
            self.selected - 1
        };
    }
}

impl App {
    // ---- panes -----------------------------------------------------------

    /// Opens a single pane that follows the selection, or closes it.
    fn set_spacebar_mode(&mut self, enabled: bool, mode: Option<SelectionMode>)
        ensures
            final(self)@ == (AppView {
                spacebar_mode: enabled,
                selection_mode: match mode {
                    Some(m) => m,
                    None => if enabled {
                        SelectionMode::TrackByName
                    } else {
                        SelectionMode::TrackByPosition
                    },
                },
                ..old(self)@
            }).with_arrangement(
                if enabled {
                    PaneArrangement::Single
                } else {
                    PaneArrangement::Empty
                },
            ),
            final(self).stores == old(self).stores,
    {
        self.spacebar_mode = enabled;
        self.selection_mode = match mode {
            Some(m) => m,
            None => if enabled {
                SelectionMode::TrackByName
            } else {
                SelectionMode::TrackByPosition
            },
        };
        self.layout.set_arrangement(
            if enabled {
                PaneArrangement::Single
            } else {
                PaneArrangement::Empty
            },
        );
    }

    /// Closes every pane.
    pub fn clear_all_panes(&mut self)
        requires
            old(self).wf(),
        ensures
            final(self).wf(),
            final(self)@ == old(self)@.panes_cleared(),
    {
        self.pane_one = None;
        self.pane_two = None;
        self.spacebar_mode = false;
        self.selection_mode = SelectionMode::TrackByPosition;
        self.layout.set_arrangement(PaneArrangement::Empty);
        self.focus.set_base(Focus::ServiceList);
    }

    /// `1` / `2`. Unpins if the selection already occupies that pane, moves it
    /// if it sits in the other one, otherwise pins it there.
    pub fn toggle_pane(&mut self, idx: usize)
        requires
            old(self).wf(),
        ensures
            final(self).wf(),
            final(self)@ == old(self)@.pane_toggled(idx),
    {
        if idx >= MAX_PANES {
            return;
        }
        let selection: ServiceKey = match self.selected_key() {
            Some(key) => key,
            None => {
                return;
            },
        };
        if self.spacebar_mode {
            self.pane_one = None;
            self.pane_two = None;
            self.spacebar_mode = false;
            self.selection_mode = SelectionMode::TrackByName;
            self.set_pane(idx, Some(selection));
            self.layout.set_arrangement(PaneArrangement::Single);
            return;
        }
        if self.pane_holds(idx, &selection) {
            self.set_pane(idx, None);
            let count: usize = self.pinned_count();
            self.layout.set_arrangement(PaneArrangement::for_count(count));
            if count == 0 {
                self.focus.set_base(Focus::ServiceList);
                self.selection_mode = SelectionMode::TrackByPosition;
            } else if self.focus.base() == Focus::Pane(idx) {
                // Don't leave focus on a pane that no longer has content.
                self.focus.set_base(Focus::ServiceList);
            }
            return;
        }
        self.move_or_pin(selection, idx);
    }

    /// Pins a service to a slot, moving it there from the other one.
    fn move_or_pin(&mut self, selection: ServiceKey, idx: usize)
        requires
            old(self).wf(),
            idx < MAX_PANES,
        ensures
            final(self).wf(),
            final(self)@ == old(self)@.pinned(selection@, idx),
    {
        let other: usize = (idx + 1) % MAX_PANES;
        if self.pane_holds(other, &selection) {
            // Move between panes; the total stays at one.
            self.set_pane(other, None);
            self.set_pane(idx, Some(selection));
            self.layout.set_arrangement(PaneArrangement::Single);
            if self.focus.base() == Focus::Pane(other) {
                self.focus.set_base(Focus::Pane(idx));
            }
        } else {
            // Fresh pin, silently replacing whatever was there.
            self.set_pane(idx, Some(selection));
            self.focus.set_base(Focus::ServiceList);
            self.spacebar_mode = false;
            self.selection_mode = SelectionMode::TrackByName;
            self.layout.set_arrangement(PaneArrangement::for_count(self.pinned_count()));
        }
    }

    /// `space`. Opens a single pane that follows the selection, or closes
    /// whatever panes are open.
    pub fn toggle_output_visibility(&mut self)
        requires
            old(self).wf(),
        ensures
            final(self).wf(),
            final(self)@ == old(self)@.output_toggled(),
    {
        self.layout.set_visibility(ListVisibility::Visible);
        let selection: ServiceKey = match self.selected_key() {
            Some(key) => key,
            None => {
                return;
            },
        };
        if self.has_visible_panes() {
            self.clear_all_panes();
        } else {
            self.pane_one = Some(selection);
            self.pane_two = None;
            self.set_spacebar_mode(true, None);
        }
    }

    /// `enter`. Focuses the selection's pane, opening one if needed.
    pub fn open_and_focus_selection(&mut self)
        requires
            old(self).wf(),
        ensures
            final(self).wf(),
            final(self)@ == old(self)@.selection_opened(),
    {
        let selection: ServiceKey = match self.selected_key() {
            Some(key) => key,
            None => {
                return;
            },
        };
        let mut idx: usize = 0;
        while idx < MAX_PANES
            invariant
                idx <= MAX_PANES,
                *self == *old(self),
                self.wf(),
                self@.selected_key() == Some(selection@),
                forall|i: int| 0 <= i < idx ==> #[trigger] self@.panes[i] != Some(selection@),
            decreases MAX_PANES - idx,
        {
            if self.pane_holds(idx, &selection) {
                self.focus.set_base(Focus::Pane(idx));
                assert(idx == 1 ==> old(self)@.panes[0] != Some(selection@));
                return;
            }
            idx += 1;
        }
        assert(self@.panes[0] != Some(selection@) && self@.panes[1] != Some(selection@));
        self.move_or_pin(selection, 0);
        if self.has_visible_panes() {
            self.focus.set_base(Focus::Pane(0));
        }
    }

    /// `enter` on a focused pane: this pane alone, with neither the list nor its
    /// sibling.
    fn full_screen_focused_pane(&mut self)
        requires
            old(self).wf(),
        ensures
            final(self).wf(),
            final(self)@ == old(self)@.full_screen_entered(),
    {
        if self.full_screen.is_some() {
            return;
        }
        let idx: usize = match self.focus.current().pane_index() {
            Some(idx) => idx,
            None => {
                return;
            },
        };
        // An empty slot would fill the frame with a pane that never draws.
        if self.pane_key(idx).is_none() {
            return;
        }
        self.full_screen = Some(
            FullScreen {
                pane: idx,
                arrangement: self.layout.arrangement(),
                visibility: self.layout.visibility(),
            },
        );
        self.layout.set_arrangement(PaneArrangement::Single);
        self.layout.set_visibility(ListVisibility::Hidden);
    }

    /// Puts back the arrangement and list visibility full screen replaced.
    /// Reports whether there was a full screen to leave.
    fn leave_full_screen(&mut self) -> (left: bool)
        requires
            old(self).wf(),
        ensures
            final(self).wf(),
            final(self)@ == old(self)@.full_screen_left(),
            left == old(self)@.full_screen is Some,
    {
        match self.full_screen {
            Some(saved) => {
                self.full_screen = None;
                self.layout.set_arrangement(saved.arrangement);
                self.layout.set_visibility(saved.visibility);
                true
            },
            None => false,
        }
    }

    /// Pane slots that are drawn, in order.
    ///
    /// There is one rect per drawn slot, so a renderer has to map rect position
    /// to slot through this rather than assuming they match.
    pub fn occupied_panes(&self) -> (slots: Vec<usize>)
        ensures
            slots@ == self@.slots(),
    {
        self.panes_with_content()
    }

    /// Looks a service up regardless of the filter: a pinned pane keeps
    /// streaming a service the filter has hidden.
    pub fn service_row(&self, key: &ServiceKey) -> (row: Option<&Row>)
        ensures
            row is Some <==> crate::app_model::row_with_key(self@.all, key@) is Some,
            row matches Some(r) ==> r@ == self@.all[crate::app_model::row_with_key(
                self@.all,
                key@,
            )->0],
    {
        match find_key(&self.all, key) {
            Some(at) => Some(&self.all[at]),
            None => None,
        }
    }

    /// The pane slots the layout should be asked to place.
    fn panes_with_content(&self) -> (slots: Vec<usize>)
        ensures
            slots@ == self@.slots(),
    {
        let mut slots: Vec<usize> = Vec::new();
        if let Some(full) = self.full_screen {
            slots.push(full.pane);
        } else if self.spacebar_mode {
            slots.push(0);
        } else {
            if self.pane_one.is_some() {
                slots.push(0);
            }
            if self.pane_two.is_some() {
                slots.push(1);
            }
        }
        assert(slots@ =~= self@.slots());
        slots
    }

    /// What the focus would move on to.
    pub fn next_focus(&self) -> (next: Option<Focus>)
        ensures
            next == self@.next_focus(),
    {
        let occupied: Vec<usize> = self.panes_with_content();
        let list_visible: bool = self.layout.visibility() == ListVisibility::Visible;
        let first: Option<Focus> = if occupied.len() == 0 {
            None
        } else {
            Some(Focus::Pane(occupied[0]))
        };
        match self.focus.base() {
            Focus::ServiceList => first,
            Focus::Pane(i) => match slot_after(&occupied, i) {
                Some(slot) => Some(Focus::Pane(slot)),
                None => if list_visible {
                    Some(Focus::ServiceList)
                } else {
                    first
                },
            },
            _ => None,
        }
    }

    /// Moves the focus on, from the list through the panes and back.
    pub fn focus_next(&mut self)
        requires
            old(self).wf(),
        ensures
            final(self).wf(),
            final(self)@ == old(self)@.focus_moved(old(self)@.next_focus()),
    {
        if !self.has_visible_panes() {
            return;
        }
        if let Some(focus) = self.next_focus() {
            self.focus.set_base(focus);
        }
    }

    /// Moves the focus back.
    pub fn focus_previous(&mut self)
        requires
            old(self).wf(),
        ensures
            final(self).wf(),
            final(self)@ == old(self)@.focus_moved(old(self)@.previous_focus()),
    {
        if !self.has_visible_panes() {
            return;
        }
        let occupied: Vec<usize> = self.panes_with_content();
        let list_visible: bool = self.layout.visibility() == ListVisibility::Visible;
        let last: Option<Focus> = if occupied.len() == 0 {
            None
        } else {
            Some(Focus::Pane(occupied[occupied.len() - 1]))
        };
        let previous: Option<Focus> = match self.focus.base() {
            Focus::ServiceList => last,
            Focus::Pane(i) => match slot_before(&occupied, i) {
                Some(slot) => Some(Focus::Pane(slot)),
                None => if list_visible {
                    Some(Focus::ServiceList)
                } else {
                    last
                },
            },
            _ => None,
        };
        if let Some(focus) = previous {
            self.focus.set_base(focus);
        }
    }

    /// `b`. No-op with no panes open, as hiding the list would leave a blank
    /// screen.
    pub fn toggle_list_visibility(&mut self)
        requires
            old(self).wf(),
        ensures
            final(self).wf(),
            final(self)@ == old(self)@.list_toggled(),
    {
        if !self.has_visible_panes() {
            return;
        }
        self.layout.toggle_visibility();
        if self.layout.visibility() == ListVisibility::Hidden && self.focus.base()
            == Focus::ServiceList {
            let slots: Vec<usize> = self.panes_with_content();
            if slots.len() > 0 {
                self.focus.set_base(Focus::Pane(slots[0]));
            }
        }
    }

    // ---- scrolling -------------------------------------------------------

    /// Scrolls the focused pane by as much as a key has been held for.
    fn scroll_focused_pane(&mut self, direction: ScrollDirection, held: u16)
        requires
            old(self).wf(),
        ensures
            final(self).wf(),
            final(self)@ == if held == 0 {
                old(self)@
            } else {
                old(self)@.scrolled(crate::app_model::motion(direction, held))
            },
    {
        if held == 0 {
            return;
        }
        self.scroll_focused_pane_by(direction, held);
    }

    /// Scrolls the focused pane by that many rows.
    fn scroll_focused_pane_by(&mut self, direction: ScrollDirection, lines: u16)
        requires
            old(self).wf(),
        ensures
            final(self).wf(),
            final(self)@ == old(self)@.scrolled(crate::app_model::motion(direction, lines)),
    {
        let motion: Motion = match direction {
            ScrollDirection::Up => Motion::Up(lines),
            ScrollDirection::Down => Motion::Down(lines),
        };
        self.with_focused_store(motion);
    }

    /// Scrolls the store of the focused pane, if there is one.
    fn with_focused_store(&mut self, motion: Motion)
        requires
            old(self).wf(),
        ensures
            final(self).wf(),
            final(self)@ == old(self)@.scrolled(motion),
    {
        match self.focused_key() {
            Some(key) => self.stores.scroll(&key, motion),
            None => {},
        }
    }

    /// The service in the focused pane.
    fn focused_key(&self) -> (key: Option<ServiceKey>)
        ensures
            crate::service::slot_view(key) == self@.focused_key(),
    {
        match self.focus.current().pane_index() {
            Some(idx) => self.pane_key(idx),
            None => None,
        }
    }

    /// The focused pane's full buffer, for the clipboard.
    pub fn focused_output(&mut self) -> (text: Option<String>)
        requires
            old(self).wf(),
        ensures
            final(self).wf(),
            final(self)@ == old(self)@,
            text is Some <==> (old(self)@.focused_key() matches Some(key)
                && old(self)@.stores.contains_key(key)),
            text matches Some(t) ==> t@ == old(self)@.stores[old(self)@.focused_key()->0].text(),
    {
        match self.focused_key() {
            Some(key) => self.stores.all_text(&key),
            None => None,
        }
    }

    /// Resizes each visible pane's emulator to match its rendered area. The
    /// sizes are given as slot, rows and columns.
    pub fn resize_panes(&mut self, sizes: &[(usize, u16, u16)])
        requires
            old(self).wf(),
            forall|i: int| 0 <= i < sizes@.len() ==> (#[trigger] sizes@[i]).2 <= MAX_COLS,
        ensures
            final(self).wf(),
            final(self)@ == old(self)@.panes_resized(sizes@),
    {
        let mut i: usize = 0;
        assert(sizes@.take(0) =~= Seq::<(usize, u16, u16)>::empty());
        while i < sizes.len()
            invariant
                i <= sizes@.len(),
                self.wf(),
                self@ == old(self)@.panes_resized(sizes@.take(i as int)),
                forall|i: int| 0 <= i < sizes@.len() ==> (#[trigger] sizes@[i]).2 <= MAX_COLS,
            decreases sizes@.len() - i,
        {
            let (idx, rows, cols): (usize, u16, u16) = sizes[i];
            assert(sizes@[i as int].2 <= MAX_COLS);
            assert(sizes@.take(i + 1).drop_last() =~= sizes@.take(i as int));
            match self.pane_key(idx) {
                Some(key) => self.stores.resize(&key, self.scrollback, rows, cols),
                None => {},
            }
            i += 1;
        }
        assert(sizes@.take(i as int) =~= sizes@);
    }

    /// `m`. What the layout is, where nothing was chosen, depends on the frame:
    /// `auto_is_vertical` says it.
    pub fn toggle_layout_mode(&mut self, auto_is_vertical: bool)
        requires
            old(self).wf(),
        ensures
            final(self).wf(),
            final(self)@ == (AppView {
                layout: old(self)@.layout.turned(auto_is_vertical),
                ..old(self)@
            }),
    {
        self.layout.toggle_mode(auto_is_vertical);
    }
}

/// The first of `slots` that comes after `slot`.
fn slot_after(slots: &Vec<usize>, slot: usize) -> (found: Option<usize>)
    ensures
        found == crate::app_model::first_after(slots@, slot),
{
    let mut i: usize = 0;
    assert(slots@.skip(0) =~= slots@);
    while i < slots.len()
        invariant
            i <= slots@.len(),
            crate::app_model::first_after(slots@, slot) == crate::app_model::first_after(
                slots@.skip(i as int),
                slot,
            ),
        decreases slots@.len() - i,
    {
        assert(slots@.skip(i as int).drop_first() =~= slots@.skip(i + 1));
        if slots[i] > slot {
            return Some(slots[i]);
        }
        i += 1;
    }
    None
}

/// The last of `slots` that comes before `slot`.
fn slot_before(slots: &Vec<usize>, slot: usize) -> (found: Option<usize>)
    ensures
        found == crate::app_model::last_before(slots@, slot),
{
    let mut n: usize = slots.len();
    assert(slots@.take(n as int) =~= slots@);
    while n > 0
        invariant
            n <= slots@.len(),
            crate::app_model::last_before(slots@, slot) == crate::app_model::last_before(
                slots@.take(n as int),
                slot,
            ),
        decreases n,
    {
        assert(slots@.take(n as int).drop_last() =~= slots@.take(n - 1));
        if slots[n - 1] < slot {
            return Some(slots[n - 1]);
        }
        n -= 1;
    }
    None
}

impl App {
    // ---- key handling ----------------------------------------------------

    /// What a key press is for, where keys go to `focus`.
    fn target_at(&self, focus: Focus) -> (target: KeyTarget)
        ensures
            target == self@.target_at(focus),
    {
        if self.filter.is_editing() && focus == Focus::ServiceList {
            KeyTarget::Filter
        } else if focus == Focus::HelpPopup {
            KeyTarget::Help
        } else if focus.pane_index().is_some() {
            KeyTarget::Pane { full_screen: self.full_screen.is_some() }
        } else {
            KeyTarget::List { focused: focus == Focus::ServiceList }
        }
    }

    /// What keys go to once the countdown is dismissed.
    fn awake_focus(&self) -> (focus: Focus)
        ensures
            focus == self@.awake().focus.current(),
    {
        if self.focus.popup() != Some(Focus::CountdownPopup) {
            return self.focus.current();
        }
        let left: usize = self.focus.popups.len() - 1;
        if left == 0 {
            self.focus.base()
        } else {
            self.focus.popups[left - 1]
        }
    }

    /// Which way `key` scrolls the focused pane by as much as it has been held
    /// for, if it does.
    pub fn scroll_request(&self, key: KeyEvent) -> (direction: Option<ScrollDirection>)
        ensures
            direction == match crate::keys::binding(self@.awake().key_target(), key) {
                Command::Scroll(direction) => Some(direction),
                _ => None,
            },
    {
        let target: KeyTarget = self.target_at(self.awake_focus());
        match command_for(target, key) {
            Command::Scroll(direction) => Some(direction),
            _ => None,
        }
    }

    /// Dispatches a key press. The interrupt always wins, then the filter
    /// swallows text, then popups, then focus-specific bindings. `held` is how
    /// many rows a scroll key moves by, which grows while it is held.
    pub fn handle_key(&mut self, key: KeyEvent, now: u128, held: u16)
        requires
            old(self).wf(),
        ensures
            final(self).wf(),
            final(self)@ == old(self)@.after_key(key, now, held),
    {
        self.clock = now;

        // Interrupt, unconditionally.
        if key.ctrl && key.code == KeyCode::Char('c') {
            self.exit = Some(ExitReason::Interrupt);
            return;
        }
        // Any key cancels a pending automatic exit and dismisses its popup.
        let had_countdown: bool = self.focus.popup() == Some(Focus::CountdownPopup);
        self.user_interacted = true;
        if had_countdown {
            self.focus.close_popup();
            // A key whose only job was to dismiss it does not act as well.
            if key.code == KeyCode::Esc {
                return;
            }
        }
        let target: KeyTarget = self.target_at(self.focus.current());
        let command: Command = command_for(target, key);
        self.perform(command, held);
    }

    /// `F10`. Gives the mouse to the application, or back to the terminal.
    fn toggle_mouse(&mut self)
        requires
            old(self).wf(),
        ensures
            final(self).wf(),
            final(self)@ == old(self)@.done(Command::ToggleMouse, 0),
    {
        self.mouse_capture = !self.mouse_capture;
        self.set_status_message(
            if self.mouse_capture {
                "Mouse capture on"
            } else {
                "Mouse capture off - drag to select text with your terminal"
            },
        );
    }

    /// Starts typing a filter.
    fn edit_filter(&mut self)
        requires
            old(self).wf(),
        ensures
            final(self).wf(),
            final(self)@ == old(self)@.done(Command::EditFilter, 0),
    {
        self.filter.enter_edit();
        proof {
            lemma_filtered(self@.all, old(self)@.filter, self@.filter);
        }
    }

    /// Confirms the filter, which hands the keys back.
    fn confirm_filter(&mut self)
        requires
            old(self).wf(),
        ensures
            final(self).wf(),
            final(self)@ == old(self)@.done(Command::ConfirmFilter, 0),
    {
        self.filter.persist();
        proof {
            lemma_filtered(self@.all, old(self)@.filter, self@.filter);
        }
    }

    /// Drops the filter.
    fn clear_filter(&mut self)
        requires
            old(self).wf(),
        ensures
            final(self).wf(),
            final(self)@ == old(self)@.done(Command::ClearFilter, 0),
    {
        self.filter.clear();
        self.reapply_filter();
    }

    /// Erases the last character of the filter.
    fn erase_filter(&mut self)
        requires
            old(self).wf(),
        ensures
            final(self).wf(),
            final(self)@ == old(self)@.done(Command::EraseFilter, 0),
    {
        self.filter.pop();
        self.reapply_filter();
    }

    /// Types a character into the filter.
    fn type_filter(&mut self, c: char)
        requires
            old(self).wf(),
        ensures
            final(self).wf(),
            final(self)@ == old(self)@.done(Command::TypeFilter(c), 0),
    {
        self.filter.push(c);
        self.reapply_filter();
    }

    /// `esc` on a focused pane. Leaving full screen spends the press: it does
    /// not also give up the focus.
    fn leave_pane(&mut self)
        requires
            old(self).wf(),
        ensures
            final(self).wf(),
            final(self)@ == old(self)@.pane_left(),
    {
        if !self.leave_full_screen() && self.layout.visibility() == ListVisibility::Visible {
            self.focus.set_base(Focus::ServiceList);
        }
    }

    /// Does what a key asks for.
    fn perform(&mut self, command: Command, held: u16)
        requires
            old(self).wf(),
        ensures
            final(self).wf(),
            final(self)@ == old(self)@.done(command, held),
    {
        match command {
            Command::Nothing => {},
            Command::Quit => {
                self.exit = Some(ExitReason::Quit);
            },
            Command::OpenHelp => self.focus.push_popup(Focus::HelpPopup),
            Command::CloseHelp => self.focus.close_popup(),
            Command::ToggleMouse => self.toggle_mouse(),
            Command::Copy => {
                self.pending = Some(Action::CopyOutput);
            },
            Command::ToggleLayout => {
                self.pending = Some(Action::ToggleLayout);
            },
            _ => self.perform_in_list(command, held),
        }
    }

    /// Does what a key asks of the service list and its filter.
    fn perform_in_list(&mut self, command: Command, held: u16)
        requires
            old(self).wf(),
            !(command is Nothing || command is Quit || command is OpenHelp || command is CloseHelp
                || command is ToggleMouse || command is Copy || command is ToggleLayout),
        ensures
            final(self).wf(),
            final(self)@ == old(self)@.done(command, held),
    {
        match command {
            Command::EditFilter => self.edit_filter(),
            Command::ConfirmFilter => self.confirm_filter(),
            Command::ClearFilter => self.clear_filter(),
            Command::EraseFilter => self.erase_filter(),
            Command::TypeFilter(c) => self.type_filter(c),
            Command::SelectNext => self.select_next(),
            Command::SelectPrevious => self.select_previous(),
            Command::Scroll(direction) => self.scroll_focused_pane(direction, held),
            Command::ScrollHalfPage(direction) => self.scroll_focused_pane_by(
                direction,
                HALF_PAGE_LINES,
            ),
            Command::ScrollToTop => self.with_focused_store(Motion::Top),
            Command::ScrollToBottom => self.with_focused_store(Motion::Bottom),
            _ => self.perform_on_panes(command),
        }
    }

    /// Does what a key asks of the panes: opening, closing and focusing them.
    fn perform_on_panes(&mut self, command: Command)
        requires
            old(self).wf(),
            command is EnterFullScreen || command is LeavePane || command is TogglePane || command
                is ClearPanes || command is ToggleOutput || command is OpenSelection || command
                is ToggleList || command is FocusNext || command is FocusPrevious,
        ensures
            final(self).wf(),
            forall|held: u16| final(self)@ == #[trigger] old(self)@.done(command, held),
    {
        match command {
            Command::EnterFullScreen => self.full_screen_focused_pane(),
            Command::LeavePane => self.leave_pane(),
            Command::TogglePane(idx) => self.toggle_pane(idx),
            Command::ClearPanes => self.clear_all_panes(),
            Command::ToggleOutput => self.toggle_output_visibility(),
            Command::OpenSelection => self.open_and_focus_selection(),
            Command::ToggleList => self.toggle_list_visibility(),
            Command::FocusNext => self.focus_next(),
            _ => self.focus_previous(),
        }
    }
}

/// Pinning by name changes the slots and nothing else.
proof fn lemma_names_pinned(app: AppView, names: Seq<Seq<char>>, n: nat)
    requires
        n <= MAX_PANES,
        app.panes.len() == MAX_PANES,
    ensures
        app.names_pinned(names, n) == (AppView {
            panes: app.names_pinned(names, n).panes,
            ..app
        }),
        app.names_pinned(names, n).panes.len() == app.panes.len(),
    decreases n,
{
    if n > 0 {
        lemma_names_pinned(app, names, (n - 1) as nat);
    }
}

} // verus!
