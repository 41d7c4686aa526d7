//! What holds of the countdown, of messages and of the clock.
use vstd::prelude::*;

use crate::app_laws::Event;
use crate::app_model::{AppView, ExitReason};
use crate::config::AutoExit;
use crate::filter::FilterState;
use crate::focus::Focus;
use crate::layout::{LayoutMode, ListVisibility, PaneArrangement};
use crate::service::{KeyView, ServiceStatus, ServiceView};

verus! {

/// Whether the stack is down: there are services, and every one of them has exited
/// cleanly.
pub open spec fn all_down(services: Seq<ServiceView>) -> bool {
    &&& services.len() > 0
    &&& forall|i: int|
        0 <= i < services.len() ==> (#[trigger] services[i]).status == ServiceStatus::Success
}

/// Whether a list of services is one of a stack that is down.
proof fn lemma_down(app: AppView, services: Seq<ServiceView>)
    ensures
        (AppView { all: crate::app_model::list_of(services), ..app }).exited_cleanly() <==> all_down(
            services,
        ),
{
    let listed = AppView { all: crate::app_model::list_of(services), ..app };
    if all_down(services) {
        assert forall|i: int| 0 <= i < listed.all.len() implies (
        #[trigger] listed.all[i]).service.status.finished() && listed.all[i].service.status
            != ServiceStatus::Failure by {
            assert(services[i].status == ServiceStatus::Success);
        }
    }
    if listed.exited_cleanly() {
        assert forall|i: int| 0 <= i < services.len() implies (#[trigger] services[i]).status
            == ServiceStatus::Success by {
            assert(listed.all[i].service == services[i]);
        }
    }
}

/// When the stack is noted to have gone down. A list of a stack that is down starts
/// the countdown where none runs, at that moment, and does not move one that does;
/// any other list stops it and takes its popup away.
pub proof fn law_going_down(app: AppView, services: Seq<ServiceView>)
    ensures
        all_down(services) && app.all_finished_since is None ==> app.with_services(
            services,
        ).all_finished_since == Some(app.clock),
        all_down(services) && app.all_finished_since is Some ==> app.with_services(
            services,
        ).all_finished_since == app.all_finished_since,
        all_down(services) ==> app.with_services(services).focus == app.focus,
        !all_down(services) ==> app.with_services(services).all_finished_since is None,
        !all_down(services) && app.all_finished_since is Some && app.focus.popup() == Some(
            Focus::CountdownPopup,
        ) ==> app.with_services(services).focus.popups == app.focus.popups.drop_last(),
        !all_down(services) && app.focus.popup() != Some(Focus::CountdownPopup)
            ==> app.with_services(services).focus == app.focus,
        app.with_services(services).focus.base == app.focus.base,
        app.with_services(services).clock == app.clock,
        app.with_services(services).exit == app.exit,
        app.with_services(services).user_interacted == app.user_interacted,
        app.with_services(services).auto_exit_after == app.auto_exit_after,
{
    let listed = AppView { all: crate::app_model::list_of(services), ..app };
    lemma_down(app, services);
    let pruned = listed.refiltered().pruned();
    assert(pruned.all == listed.all);
    assert(pruned.exited_cleanly() == listed.exited_cleanly());
}

/// Whether nothing that has happened says that the stack is not down.
pub open spec fn stays_down(events: Seq<Event>) -> bool {
    forall|i: int|
        0 <= i < events.len() ==> ((#[trigger] events[i]) matches Event::Services(services)
            ==> all_down(services))
}

/// The countdown runs from when the stack went down: however often the services are
/// read again, whatever output still comes in and however the clock is read, the
/// moment it counts from stays, and the application ends with the first reading of
/// the clock that is late enough, and not by one that is not.
pub proof fn law_countdown_runs_on(
    app: AppView,
    went_down: u128,
    after: u128,
    events: Seq<Event>,
    now: u128,
)
    requires
        app.all_finished_since == Some(went_down),
        app.auto_exit_after == Some(after),
        !app.user_interacted,
        stays_down(events),
    ensures
        ({
            let later = crate::app_laws::all_happened(app, events);
            &&& later.all_finished_since == Some(went_down)
            &&& now >= went_down + after ==> later.ticked(now).exit == Some(ExitReason::AutoExit)
            &&& after > 0 && now < went_down + after ==> later.ticked(now).exit == later.exit
            &&& later.ticked(now).focus.popup() == Some(Focus::CountdownPopup)
        }),
    decreases events.len(),
{
    lemma_runs_on(app, went_down, after, events);
    let later = crate::app_laws::all_happened(app, events);
    assert(later.focus.opened(Focus::CountdownPopup).popups.last() == Focus::CountdownPopup);
}

proof fn lemma_runs_on(app: AppView, went_down: u128, after: u128, events: Seq<Event>)
    requires
        app.all_finished_since == Some(went_down),
        app.auto_exit_after == Some(after),
        !app.user_interacted,
        stays_down(events),
    ensures
        crate::app_laws::all_happened(app, events).all_finished_since == Some(went_down),
        crate::app_laws::all_happened(app, events).auto_exit_after == Some(after),
        !crate::app_laws::all_happened(app, events).user_interacted,
    decreases events.len(),
{
    if events.len() > 0 {
        let init = events.drop_last();
        assert forall|i: int| 0 <= i < init.len() implies ((
        #[trigger] init[i]) matches Event::Services(services) ==> all_down(services)) by {
            assert(init[i] == events[i]);
        }
        lemma_runs_on(app, went_down, after, init);
        let before = crate::app_laws::all_happened(app, init);
        let last = events[events.len() - 1];
        assert(last == events.last());
        match last {
            Event::Services(services) => {
                law_going_down(before, services);
            },
            Event::Tick(now) => {},
            Event::Output(key, bytes) => {},
        }
    }
}

/// The seconds that the countdown shows are those that are left, rounded up: it shows
/// none only when its time is up.
pub proof fn law_seconds_left(app: AppView, went_down: u128, after: u128)
    requires
        app.all_finished_since == Some(went_down),
        app.auto_exit_after == Some(after),
        !app.user_interacted,
        went_down <= app.clock,
    ensures
        app.countdown() matches Some(n) && {
            let left = went_down + after - app.clock;
            &&& left <= 0 ==> n == 0
            &&& left > 0 ==> (n - 1) * 1_000_000_000 < left <= n * 1_000_000_000
        },
{
}

/// No countdown runs before the stack has gone down, without the time it is to run
/// for, or once the user has pressed a key; and then no reading of the clock ends
/// the application or brings up a popup.
pub proof fn law_no_countdown(app: AppView, now: u128)
    ensures
        app.countdown() is Some <==> app.all_finished_since is Some && app.auto_exit_after is Some
            && !app.user_interacted,
        app.countdown() is None ==> app.ticked(now).exit == app.exit && app.ticked(now).focus
            == app.focus,
{
}

/// Reading the clock sets it, goes on with the animation, and leaves what is shown
/// and what is known of the services.
pub proof fn law_tick(app: AppView, now: u128)
    ensures
        app.ticked(now).clock == now,
        app.throbber < usize::MAX ==> app.ticked(now).throbber == app.throbber + 1,
        app.throbber == usize::MAX ==> app.ticked(now).throbber == 0,
        app.ticked(now).all == app.all,
        app.ticked(now).visible == app.visible,
        app.ticked(now).stores == app.stores,
        app.ticked(now).selected == app.selected,
        app.ticked(now).panes == app.panes,
        app.ticked(now).layout == app.layout,
        app.ticked(now).filter == app.filter,
        app.ticked(now).full_screen == app.full_screen,
        app.ticked(now).focus.base == app.focus.base,
        app.ticked(now).all_finished_since == app.all_finished_since,
        app.focus.popup() == Some(Focus::CountdownPopup) ==> app.ticked(now).focus == app.focus,
{
}

/// A message stays until it has been up for three seconds, and is gone with the first
/// reading of the clock after that.
pub proof fn law_message_stays(app: AppView, message: Seq<char>, at: u128, now: u128)
    requires
        app.status_message == Some((message, at)),
    ensures
        now <= at + 3_000_000_000 ==> app.ticked(now).status_message == Some((message, at)),
        now > at + 3_000_000_000 ==> app.ticked(now).status_message is None,
{
}

/// How long the countdown runs is configured: three seconds, or so many, or not at
/// all.
pub proof fn law_configured(
    project: Seq<char>,
    scrollback: nat,
    auto_exit: AutoExit,
    pinned: Seq<Seq<char>>,
    now: u128,
)
    ensures
        ({
            let app = AppView::fresh(project, scrollback, auto_exit, pinned, now);
            &&& auto_exit == AutoExit::Enabled(true) ==> app.auto_exit_after == Some(
                3_000_000_000u128,
            )
            &&& auto_exit == AutoExit::Enabled(false) ==> app.auto_exit_after is None
            &&& auto_exit matches AutoExit::Seconds(n) ==> app.auto_exit_after == Some(
                (n * 1_000_000_000) as u128,
            )
            &&& app.exit is None
            &&& !app.user_interacted
            &&& app.clock == now
            &&& app.project == project
            &&& app.scrollback == scrollback
            &&& app.startup_pins == pinned
            &&& app.panes == seq![None::<KeyView>, None::<KeyView>]
            &&& app.all.len() == 0
            &&& app.visible.len() == 0
            &&& app.selected == 0
            &&& app.focus.base == Focus::ServiceList
            &&& app.focus.popups.len() == 0
            &&& app.filter.query.len() == 0
            &&& app.filter.state == FilterState::Off
            &&& app.layout.arrangement == PaneArrangement::Empty
            &&& app.layout.visibility == ListVisibility::Visible
            &&& app.layout.mode == LayoutMode::Auto
            &&& app.full_screen is None
            &&& app.all_finished_since is None
            &&& app.status_message is None
            &&& app.pending is None
            &&& !app.spacebar_mode
            &&& app.mouse_capture
        }),
{
}

/// The exit status. An interrupt ends the application as the signal for it would,
/// and leaving it in any other way is no failure.
pub proof fn law_exit_status(signo: i32)
    ensures
        ExitReason::Signal(signo).status() == 128 + signo,
        ExitReason::Interrupt.status() == ExitReason::Signal(2).status(),
        ExitReason::Quit.status() == 0,
        ExitReason::AutoExit.status() == 0,
{
}

} // verus!
