//! What one frame shows.
use vstd::prelude::*;

use crate::app::App;
use crate::app_model::AppView;
use crate::filter::FilterState;
use crate::focus::Focus;
use crate::help::{popup, HelpPopup};
use crate::keys::{KeyCode, KeyEvent};
use crate::layout::{LayoutAreas, Rect};
use crate::pane::{emulator_size, PanePlan, PaneRender, PaneView};
use crate::service::{KeyView, Row, ServiceKey, ServiceStatus};
use crate::status_bar::StatusBar;
use crate::store::LogStore;
use crate::text::copied;

verus! {

/// How many panes are drawn: one for each rect that there is a slot for.
pub open spec fn drawn(rects: Seq<Rect>, slots: Seq<usize>) -> nat {
    if rects.len() < slots.len() {
        rects.len()
    } else {
        slots.len()
    }
}

/// The size of grid each drawn pane needs: slot, rows and columns.
pub open spec fn pane_sizes(rects: Seq<Rect>, slots: Seq<usize>) -> Seq<(usize, u16, u16)> {
    Seq::new(
        drawn(rects, slots),
        |i: int| (slots[i], crate::pane::grid_size(rects[i]).0, crate::pane::grid_size(rects[i]).1),
    )
}

/// Computes the emulator size each pane needs in a frame that is divided up so.
///
/// Sizes are keyed by pane slot, not by rect position. There is one rect per
/// drawn slot, so with only the second pane pinned the single rect belongs to
/// the second slot.
pub fn layout_for(app: &App, areas: &LayoutAreas) -> (sizes: Vec<(usize, u16, u16)>)
    ensures
        sizes@ == pane_sizes(areas.panes@, app@.slots()),
{
    let slots: Vec<usize> = app.occupied_panes();
    let mut sizes: Vec<(usize, u16, u16)> = Vec::new();
    let mut i: usize = 0;
    while i < areas.panes.len() && i < slots.len()
        invariant
            i <= drawn(areas.panes@, slots@),
            slots@ == app@.slots(),
            sizes@ == pane_sizes(areas.panes@, slots@).take(i as int),
        decreases drawn(areas.panes@, slots@) - i,
    {
        let (rows, cols): (u16, u16) = emulator_size(areas.panes[i]);
        let ghost before = sizes@;
        sizes.push((slots[i], rows, cols));
        assert(sizes@ =~= pane_sizes(areas.panes@, slots@).take(i + 1));
        i += 1;
    }
    assert(sizes@ =~= pane_sizes(areas.panes@, slots@));
    sizes
}

/// Which pane `tab` would move the focus to: none where it has no effect, which is
/// without panes, under a popup, while a pane holds the whole frame and while a
/// filter is typed, and none where it leads to the list or leaves the focus where
/// it is.
pub open spec fn tab_target(app: AppView) -> Option<usize> {
    if !app.has_panes() || app.focus.popups.len() > 0 || app.full_screen is Some || types_filter(
        app,
    ) {
        None
    } else {
        match app.next_focus() {
            Some(Focus::Pane(slot)) => if app.focus.base == Focus::Pane(slot) {
                None
            } else {
                Some(slot)
            },
            _ => None,
        }
    }
}

/// Whether keys are text for the filter.
pub open spec fn types_filter(app: AppView) -> bool {
    app.filter.state == FilterState::Editing && app.focus.current() == Focus::ServiceList
}

/// Which pane `tab` would focus next, for the pane title hint.
pub fn next_tab_pane(app: &App) -> (target: Option<usize>)
    ensures
        target == tab_target(app@),
{
    if !app.has_visible_panes() || app.focus.popup().is_some() || app.full_screen_pane().is_some() {
        return None;
    }
    if app.filter().state() == FilterState::Editing && app.focus() == Focus::ServiceList {
        return None;
    }
    match app.next_focus() {
        Some(Focus::Pane(slot)) => if app.focus() == Focus::Pane(slot) {
            None
        } else {
            Some(slot)
        },
        _ => None,
    }
}

/// A pane that is to be drawn.
pub struct PaneHead {
    pub rect: Rect,
    pub slot: usize,
    /// The service in it.
    pub key: Option<ServiceKey>,
    /// Whether the service is in the list, filtered out or not.
    pub listed: bool,
    pub title: String,
    pub status: ServiceStatus,
    pub focused: bool,
    /// Whether `tab` would move the focus to it.
    pub tab_hint: bool,
}

/// A [`PaneHead`] as a plain value.
pub struct HeadView {
    pub rect: Rect,
    pub slot: usize,
    pub key: Option<KeyView>,
    pub listed: bool,
    pub title: Seq<char>,
    pub status: ServiceStatus,
    pub focused: bool,
    pub tab_hint: bool,
}

impl View for PaneHead {
    type V = HeadView;

    open spec fn view(&self) -> HeadView {
        HeadView {
            rect: self.rect,
            slot: self.slot,
            key: crate::service::slot_view(self.key),
            listed: self.listed,
            title: self.title@,
            status: self.status,
            focused: self.focused,
            tab_hint: self.tab_hint,
        }
    }
}

/// Where a service is in the list, filtered out or not.
pub open spec fn listed_at(app: AppView, key: Option<KeyView>) -> Option<int> {
    match key {
        Some(key) => crate::app_model::row_with_key(app.all, key),
        None => None,
    }
}

/// The pane in a slot. It is titled by its service's row, which is looked up in
/// the whole list: a pinned pane keeps streaming a service the filter has hidden.
/// Without a row it is titled by the service's name, or by a dash.
pub open spec fn head(app: AppView, rect: Rect, slot: usize) -> HeadView {
    let key = app.pane_key(slot);
    let row = listed_at(app, key);
    HeadView {
        rect,
        slot,
        key,
        listed: row is Some,
        title: match (row, key) {
            (Some(i), _) => app.all[i].display_name,
            (None, Some(key)) => key.name,
            (None, None) => "—"@,
        },
        status: match row {
            Some(i) => app.all[i].service.status,
            None => ServiceStatus::NotStarted,
        },
        focused: app.focus.current() == Focus::Pane(slot),
        tab_hint: tab_target(app) == Some(slot),
    }
}

/// The panes that are drawn in `rects`, each in the slot its rect belongs to.
pub open spec fn heads(app: AppView, rects: Seq<Rect>) -> Seq<HeadView> {
    Seq::new(drawn(rects, app.slots()), |i: int| head(app, rects[i], app.slots()[i]))
}

/// Heads as plain values.
pub open spec fn head_views(heads: Seq<PaneHead>) -> Seq<HeadView> {
    Seq::new(heads.len(), |i: int| heads[i]@)
}

/// The pane in a slot.
fn pane_head(app: &App, rect: Rect, slot: usize, target: Option<usize>) -> (found: PaneHead)
    requires
        target == tab_target(app@),
    ensures
        found@ == head(app@, rect, slot),
{
    let key: Option<ServiceKey> = app.pane_key(slot);
    let row: Option<&Row> = match &key {
        Some(k) => app.service_row(k),
        None => None,
    };
    let title: String = match (row, &key) {
        (Some(r), _) => copied(&r.display_name),
        (None, Some(k)) => copied(&k.name),
        (None, None) => "—".to_owned(),
    };
    PaneHead {
        rect,
        slot,
        listed: row.is_some(),
        title,
        status: match row {
            Some(r) => r.service.status,
            None => ServiceStatus::NotStarted,
        },
        focused: app.focus() == Focus::Pane(slot),
        tab_hint: target == Some(slot),
        key,
    }
}

/// What a pane is drawn from: its head, and the buffer of the service in it, which
/// is asked whether its last row is blank. The sign and the uptime are those of
/// the service's state.
pub open spec fn pane_view(
    app: AppView,
    head: HeadView,
    glyph: char,
    uptime: Option<Seq<char>>,
) -> PaneView {
    let store = match head.key {
        Some(key) => if app.stores.contains_key(key) {
            Some(app.stores[key])
        } else {
            None
        },
        None => None,
    };
    PaneView {
        title: head.title,
        status: head.status,
        glyph,
        focused: head.focused,
        store,
        uptime,
        tab_hint: head.tab_hint,
        tail_blank: store matches Some(store) && crate::store::is_blank(store.row_texts().last()),
    }
}

/// Plans what a pane shows, from the buffer of the service in it.
pub fn plan_pane(app: &mut App, head: &PaneHead, glyph: char, uptime: Option<String>) -> (plan:
    PanePlan)
    requires
        old(app).wf(),
        crate::paint::countable(head.rect),
    ensures
        final(app).wf(),
        final(app)@ == old(app)@,
        plan@ == crate::pane::pane_plan(
            pane_view(
                old(app)@,
                head@,
                glyph,
                match uptime {
                    Some(uptime) => Some(uptime@),
                    None => None,
                },
            ),
            head.rect,
        ),
{
    let tail_blank: bool = match &head.key {
        Some(key) => app.stores.tail_row_blank(key),
        None => false,
    };
    assert(app@ =~= old(app)@);
    let store: Option<&LogStore> = match &head.key {
        Some(key) => app.store(key),
        None => None,
    };
    crate::pane::render(
        &PaneRender {
            title: head.title.as_str(),
            status: head.status,
            glyph,
            focused: head.focused,
            store,
            uptime,
            tab_hint: head.tab_hint,
            tail_blank,
        },
        head.rect,
    )
}

/// The popup on top.
pub enum Popup {
    Nothing,
    Help(HelpPopup),
    /// The countdown, with the seconds that are left.
    Countdown(u64),
}

/// What is drawn where, in a frame that is large enough.
pub struct FrameParts {
    pub service_list: Option<Rect>,
    pub panes: Vec<PaneHead>,
    pub status_bar: Option<StatusBar>,
    pub popup: Popup,
}

/// What a frame says that is too small to show anything else.
pub const TOO_SMALL: &'static str = "Terminal too small";

/// One frame.
pub enum FramePlan {
    /// A notice that the frame is too small, with the project's name, and nothing
    /// else.
    TooSmall { project: String, notice: String, area: Rect },
    /// Everything there is to show.
    Whole(FrameParts),
}

/// Whether a popup is the one that the focus is on.
pub open spec fn shows_popup(shown: Popup, app: AppView, area: Rect) -> bool {
    match shown {
        Popup::Help(help) => {
            &&& app.focus.current() == Focus::HelpPopup
            &&& help.area == crate::help::centred(70, 85, area)
            &&& crate::paint::span_views(help.title@) == crate::help::title_spans(app.project)
            &&& crate::paint::span_views(help.dismiss@) == crate::help::dismiss_spans()
            &&& crate::help::line_views(help.lines@) == crate::help::all_lines()
        },
        Popup::Countdown(seconds) => {
            &&& app.focus.current() == Focus::CountdownPopup
            &&& app.countdown() == Some(seconds as nat)
        },
        Popup::Nothing => app.focus.current() != Focus::HelpPopup && (app.focus.current()
            == Focus::CountdownPopup ==> app.countdown() is None),
    }
}

/// Whether a frame shows the service list, the open panes, the status bar and the
/// popup on top, each in its area.
pub open spec fn shows_all(parts: FrameParts, app: AppView, area: Rect, areas: LayoutAreas) -> bool {
    &&& parts.service_list == areas.service_list
    &&& head_views(parts.panes@) == heads(app, areas.panes@)
    &&& match areas.status_bar {
        Some(bar) => parts.status_bar matches Some(b) && crate::status_bar::laid_out(b, app, bar),
        None => parts.status_bar is None,
    }
    &&& shows_popup(parts.popup, app, area)
}

/// Plans one frame: the service list, any open output panes, the status bar, and
/// whichever popup is on top; or, where `too_small` says that the frame is below
/// the least there has to be, a notice of that and nothing else.
///
/// Pane rects are matched to pane slots rather than to their own position,
/// because there is one rect per drawn slot.
pub fn draw(app: &App, area: Rect, too_small: bool, areas: &LayoutAreas) -> (plan: FramePlan)
    requires
        app.wf(),
        crate::paint::countable(area),
        areas.status_bar matches Some(bar) ==> crate::paint::countable(bar),
    ensures
        match plan {
            FramePlan::TooSmall { project, notice, area: whole } => {
                &&& too_small
                &&& project@ == app@.project
                &&& notice@ == TOO_SMALL@
                &&& whole == area
            },
            FramePlan::Whole(parts) => !too_small && shows_all(parts, app@, area, *areas),
        },
{
    if too_small {
        return FramePlan::TooSmall {
            project: copied(&app.project),
            notice: TOO_SMALL.to_owned(),
            area,
        };
    }
    let slots: Vec<usize> = app.occupied_panes();
    let target: Option<usize> = next_tab_pane(app);
    let mut panes: Vec<PaneHead> = Vec::new();
    let mut i: usize = 0;
    while i < areas.panes.len() && i < slots.len()
        invariant
            i <= drawn(areas.panes@, slots@),
            slots@ == app@.slots(),
            target == tab_target(app@),
            head_views(panes@) == heads(app@, areas.panes@).take(i as int),
        decreases drawn(areas.panes@, slots@) - i,
    {
        let ghost before = panes@;
        let found: PaneHead = pane_head(app, areas.panes[i], slots[i], target);
        let ghost view = found@;
        panes.push(found);
        proof {
            let all = heads(app@, areas.panes@);
            assert(head_views(panes@) =~= head_views(before).push(view));
            assert(all.take(i + 1) =~= all.take(i as int).push(all[i as int]));
        }
        i += 1;
    }
    assert(head_views(panes@) =~= heads(app@, areas.panes@));
    let status_bar: Option<StatusBar> = match areas.status_bar {
        Some(bar) => Some(crate::status_bar::render(app, bar)),
        None => None,
    };
    let shown: Popup = match app.focus() {
        Focus::HelpPopup => Popup::Help(popup(app.project.as_str(), area)),
        Focus::CountdownPopup => match app.countdown_remaining() {
            Some(seconds) => Popup::Countdown(seconds),
            None => Popup::Nothing,
        },
        _ => Popup::Nothing,
    };
    FramePlan::Whole(
        FrameParts { service_list: areas.service_list, panes, status_bar, popup: shown },
    )
}

/// Each pane's grid is sized for the rect it is drawn in, slot by slot.
pub proof fn law_sizes_match(app: AppView, rects: Seq<Rect>, i: int)
    requires
        0 <= i < heads(app, rects).len(),
    ensures
        pane_sizes(rects, app.slots()).len() == heads(app, rects).len(),
        pane_sizes(rects, app.slots())[i].0 == heads(app, rects)[i].slot,
        (pane_sizes(rects, app.slots())[i].1, pane_sizes(rects, app.slots())[i].2)
            == crate::pane::grid_size(heads(app, rects)[i].rect),
{
}

/// A pane that alone is pinned is drawn as itself, in whichever slot it is.
pub proof fn law_sparse_pin(app: AppView, rect: Rect, key: KeyView)
    requires
        app.wf(),
        !app.spacebar_mode,
        app.full_screen is None,
        app.panes[0] is None,
        app.panes[1] == Some(key),
    ensures
        heads(app, seq![rect]).len() == 1,
        heads(app, seq![rect])[0].slot == 1,
        heads(app, seq![rect])[0].key == Some(key),
{
}

/// The hint stands in the title of the pane that pressing `tab` moves the focus
/// to, and in none where that moves it nowhere or to the list.
pub proof fn law_tab_hint(app: AppView, slot: usize, now: u128, held: u16)
    requires
        app.wf(),
        app.focus.base == Focus::ServiceList || app.focus.base is Pane,
        app.full_screen is Some ==> app.focus.base is Pane,
        app.focus.popup() is None || app.focus.popup() == Some(Focus::HelpPopup),
    ensures
        ({
            let tab = KeyEvent { code: KeyCode::Tab, ctrl: false };
            let after = app.after_key(tab, now, held).focus;
            tab_target(app) == Some(slot) <==> after != app.focus && after.current() == Focus::Pane(
                slot,
            )
        }),
{
    let then = AppView { clock: now, ..app }.awake();
    assert(then.focus == app.focus);
    assert(then.next_focus() == app.next_focus());
}

/// What a pane is headed by. It is titled as its service is in the whole list, hidden by
/// the filter or not; by the service's name where it is no longer there; and by a dash
/// where the pane has none. A pane has the focus where keys go to it.
pub proof fn law_head(app: AppView, rect: Rect, slot: usize, i: int)
    ensures
        head(app, rect, slot).rect == rect,
        head(app, rect, slot).slot == slot,
        head(app, rect, slot).key == app.pane_key(slot),
        head(app, rect, slot).focused <==> app.focus.current() == Focus::Pane(slot),
        head(app, rect, slot).tab_hint <==> tab_target(app) == Some(slot),
        app.pane_key(slot) is None ==> head(app, rect, slot).title == "—"@ && !head(
            app,
            rect,
            slot,
        ).listed && head(app, rect, slot).status == ServiceStatus::NotStarted,
        app.pane_key(slot) matches Some(key) ==> {
            &&& 0 <= i < app.all.len() && app.all[i].key == key && (forall|j: int|
                0 <= j < i ==> (#[trigger] app.all[j]).key != key) ==> {
                &&& head(app, rect, slot).listed
                &&& head(app, rect, slot).title == app.all[i].display_name
                &&& head(app, rect, slot).status == app.all[i].service.status
            }
            &&& (forall|j: int| 0 <= j < app.all.len() ==> (#[trigger] app.all[j]).key != key) ==> {
                &&& !head(app, rect, slot).listed
                &&& head(app, rect, slot).title == key.name
                &&& head(app, rect, slot).status == ServiceStatus::NotStarted
            }
        },
{
    if app.pane_key(slot) is Some {
        let key = app.pane_key(slot)->0;
        crate::list_laws::law_looked_up(app.all, key);
        match crate::app_model::row_with_key(app.all, key) {
            Some(found) => {
                if 0 <= i < app.all.len() && app.all[i].key == key {
                    if i < found {
                        assert(app.all[i].key != key);
                    }
                }
            },
            None => {},
        }
    }
}

/// A frame has a pane for each drawn slot that there is a rect for, the first rect for
/// the first slot and so on.
pub proof fn law_heads(app: AppView, rects: Seq<Rect>, i: int)
    requires
        0 <= i < rects.len(),
        i < app.slots().len(),
    ensures
        i < heads(app, rects).len(),
        heads(app, rects)[i].rect == rects[i],
        heads(app, rects)[i].slot == app.slots()[i],
        heads(app, rects).len() <= rects.len(),
        heads(app, rects).len() <= app.slots().len(),
        heads(app, rects).len() == rects.len() || heads(app, rects).len() == app.slots().len(),
{
}

/// The popup that a frame shows is the one that keys go to: help, in the middle of the
/// frame, or the countdown, with the seconds that are left; and otherwise none.
pub proof fn law_popup_shown(shown: Popup, app: AppView, area: Rect)
    requires
        shows_popup(shown, app, area),
    ensures
        shown is Help <==> app.focus.current() == Focus::HelpPopup,
        shown matches Popup::Countdown(n) ==> app.countdown() == Some(n as nat),
        app.focus.current() == Focus::CountdownPopup && app.countdown() is Some ==> shown
            is Countdown,
        shown is Countdown ==> app.focus.current() == Focus::CountdownPopup,
        shown matches Popup::Help(help) ==> crate::help::line_views(help.lines@).len()
            == crate::help::BINDINGS@.len() && help.area == crate::help::centred(70, 85, area),
{
}

/// A frame shows the list and the bar where there is an area for them, and nowhere
/// else.
pub proof fn law_frame(parts: FrameParts, app: AppView, area: Rect, areas: LayoutAreas)
    requires
        shows_all(parts, app, area, areas),
    ensures
        parts.service_list == areas.service_list,
        parts.status_bar is Some <==> areas.status_bar is Some,
        parts.panes@.len() == heads(app, areas.panes@).len(),
        forall|i: int|
            0 <= i < parts.panes@.len() ==> (#[trigger] parts.panes@[i])@ == heads(
                app,
                areas.panes@,
            )[i],
        parts.status_bar matches Some(bar) ==> {
            let whole = areas.status_bar->0;
            &&& crate::paint::span_views(bar.status@) == crate::status_bar::status_spans(
                app.project,
                app.visible,
            )
            &&& crate::paint::span_views(bar.context@) == crate::status_bar::context_spans(app)
            &&& bar.status_area.x + bar.status_area.width <= bar.context_area.x
            &&& bar.context_area.x + bar.context_area.width <= bar.help_area.x
            &&& bar.help_area.x + bar.help_area.width <= whole.x + whole.width
        },
{
    assert forall|i: int| 0 <= i < parts.panes@.len() implies (#[trigger] parts.panes@[i])@
        == heads(app, areas.panes@)[i] by {
        assert(head_views(parts.panes@)[i] == heads(app, areas.panes@)[i]);
    }
}

/// A pane shows the buffer of its own service, and asks that one whether its last row is
/// blank.
pub proof fn law_pane_view(
    app: AppView,
    head: HeadView,
    glyph: char,
    uptime: Option<Seq<char>>,
)
    ensures
        ({
            let pane = pane_view(app, head, glyph, uptime);
            &&& pane.title == head.title
            &&& pane.status == head.status
            &&& pane.focused == head.focused
            &&& pane.tab_hint == head.tab_hint
            &&& pane.glyph == glyph
            &&& pane.uptime == uptime
            &&& head.key matches Some(key) ==> (app.stores.contains_key(key) ==> pane.store == Some(
                app.stores[key],
            ) && (pane.tail_blank <==> crate::store::is_blank(
                app.stores[key].row_texts().last(),
            )))
            &&& head.key matches Some(key) ==> (!app.stores.contains_key(key) ==> pane.store
                is None)
            &&& head.key is None ==> pane.store is None
        }),
{
}

} // verus!
