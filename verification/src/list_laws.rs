//! What holds of the service list: which rows there are, which are shown, and which
//! one is selected.
use vstd::prelude::*;

use crate::app_model::{AppView, SelectionMode};
use crate::filter::FilterView;
use crate::service::{KeyView, RowView, ServiceView};

verus! {

/// Each service has its row, in the order of the services, under its own key and with
/// all that is known of it.
pub proof fn law_list(services: Seq<ServiceView>, i: int)
    requires
        0 <= i < services.len(),
    ensures
        crate::app_model::list_of(services).len() == services.len(),
        crate::app_model::list_of(services)[i].key.name == services[i].name,
        crate::app_model::list_of(services)[i].key.replica == services[i].replica,
        crate::app_model::list_of(services)[i].service == services[i],
{
}

/// A service that occurs is counted.
proof fn lemma_count_named(services: Seq<ServiceView>, name: Seq<char>, i: int)
    requires
        0 <= i < services.len(),
        services[i].name == name,
    ensures
        crate::app_model::count_named(services, name) >= 1,
        crate::app_model::count_named(services, name) > 1 <==> exists|j: int|
            0 <= j < services.len() && j != i && (#[trigger] services[j]).name == name,
    decreases services.len(),
{
    let init = services.drop_last();
    let last = services.len() - 1;
    if i < last {
        lemma_count_named(init, name, i);
        if exists|j: int| 0 <= j < init.len() && j != i && (#[trigger] init[j]).name == name {
            let j = choose|j: int|
                0 <= j < init.len() && j != i && (#[trigger] init[j]).name == name;
            assert(services[j].name == name);
        }
        if services.last().name == name {
            assert(services[last].name == name);
        }
        if exists|j: int|
            0 <= j < services.len() && j != i && (#[trigger] services[j]).name == name {
            let j = choose|j: int|
                0 <= j < services.len() && j != i && (#[trigger] services[j]).name == name;
            if j < last {
                assert(init[j].name == name);
            }
        }
    } else {
        lemma_count_none(init, name);
        if crate::app_model::count_named(init, name) > 0 {
            let j = choose|j: int| 0 <= j < init.len() && (#[trigger] init[j]).name == name;
            assert(services[j].name == name);
        }
        if exists|j: int|
            0 <= j < services.len() && j != i && (#[trigger] services[j]).name == name {
            let j = choose|j: int|
                0 <= j < services.len() && j != i && (#[trigger] services[j]).name == name;
            assert(init[j].name == name);
        }
    }
}

proof fn lemma_count_none(services: Seq<ServiceView>, name: Seq<char>)
    ensures
        crate::app_model::count_named(services, name) > 0 <==> exists|j: int|
            0 <= j < services.len() && (#[trigger] services[j]).name == name,
    decreases services.len(),
{
    if services.len() > 0 {
        let init = services.drop_last();
        lemma_count_none(init, name);
        if exists|j: int| 0 <= j < init.len() && (#[trigger] init[j]).name == name {
            let j = choose|j: int| 0 <= j < init.len() && (#[trigger] init[j]).name == name;
            assert(services[j].name == name);
        }
        if services.last().name == name {
            assert(services[services.len() - 1].name == name);
        }
        if exists|j: int| 0 <= j < services.len() && (#[trigger] services[j]).name == name {
            let j = choose|j: int|
                0 <= j < services.len() && (#[trigger] services[j]).name == name;
            if j < init.len() {
                assert(init[j].name == name);
            }
        }
    }
}

/// A container is called by its service's name alone where that tells it from the
/// others, and with its replica's number behind it where the service has more than
/// one container.
pub proof fn law_display_name(services: Seq<ServiceView>, i: int)
    requires
        0 <= i < services.len(),
    ensures
        (exists|j: int|
            0 <= j < services.len() && j != i && (#[trigger] services[j]).name == services[i].name)
            ==> crate::app_model::list_of(services)[i].display_name == services[i].name + seq![
            '-',
        ] + crate::text::decimal(services[i].replica as nat),
        !(exists|j: int|
            0 <= j < services.len() && j != i && (#[trigger] services[j]).name == services[i].name)
            ==> crate::app_model::list_of(services)[i].display_name == services[i].name,
{
    lemma_count_named(services, services[i].name, i);
}

/// A name is let through exactly where the search term stands somewhere in it.
pub proof fn law_lets(filter: FilterView, name: Seq<char>)
    ensures
        filter.lets(name) <==> exists|before: Seq<char>, behind: Seq<char>|
            name == #[trigger] (before + filter.query + behind),
{
    let part = filter.query;
    if filter.lets(name) {
        let i = choose|i: int|
            0 <= i <= name.len() - part.len() && #[trigger] name.subrange(i, i + part.len())
                == part;
        let before = name.take(i);
        let behind = name.skip(i + part.len());
        assert(name =~= before + part + behind);
    }
    if exists|before: Seq<char>, behind: Seq<char>| name == #[trigger] (before + part + behind) {
        let (before, behind) = choose|before: Seq<char>, behind: Seq<char>|
            name == #[trigger] (before + part + behind);
        let i = before.len() as int;
        assert(name.subrange(i, i + part.len()) =~= part);
    }
}

/// Filtering goes over a list from its beginning to its end: it takes each row or
/// leaves it, by its name alone, and keeps their order. Filtering again changes
/// nothing.
pub proof fn law_filter_keeps_order(rows: Seq<RowView>, row: RowView, filter: FilterView)
    ensures
        crate::app_model::filtered(rows.push(row), filter) == if filter.lets(row.display_name) {
            crate::app_model::filtered(rows, filter).push(row)
        } else {
            crate::app_model::filtered(rows, filter)
        },
        crate::app_model::filtered(Seq::empty(), filter) == Seq::<RowView>::empty(),
        crate::app_model::filtered(crate::app_model::filtered(rows, filter), filter)
            == crate::app_model::filtered(rows, filter),
{
    assert(rows.push(row).drop_last() =~= rows);
    lemma_filtered_twice(rows, filter);
}

proof fn lemma_filtered_twice(rows: Seq<RowView>, filter: FilterView)
    ensures
        crate::app_model::filtered(crate::app_model::filtered(rows, filter), filter)
            == crate::app_model::filtered(rows, filter),
    decreases rows.len(),
{
    if rows.len() > 0 {
        let init = rows.drop_last();
        lemma_filtered_twice(init, filter);
        let sub = crate::app_model::filtered(init, filter);
        if filter.lets(rows.last().display_name) {
            assert(sub.push(rows.last()).drop_last() =~= sub);
        }
    }
}

/// Without a search term every row is shown.
pub proof fn law_unfiltered(rows: Seq<RowView>, filter: FilterView)
    requires
        filter.query.len() == 0,
    ensures
        crate::app_model::filtered(rows, filter) == rows,
    decreases rows.len(),
{
    if rows.len() > 0 {
        law_unfiltered(rows.drop_last(), filter);
        let name = rows.last().display_name;
        assert(name.subrange(0, 0 + filter.query.len() as int) =~= filter.query);
        assert(filter.lets(name));
        assert(crate::app_model::filtered(rows, filter) =~= rows);
    } else {
        assert(rows =~= Seq::<RowView>::empty());
    }
}

/// The next row is the one below, and the first below the last; the previous one is
/// the one above, and the last above the first. Nothing else changes.
pub proof fn law_selecting(app: AppView)
    requires
        app.visible.len() > 0,
        app.selected < app.visible.len(),
    ensures
        app.next_selected() == (AppView {
            selected: app.next_selected().selected,
            ..app
        }),
        app.previous_selected() == (AppView {
            selected: app.previous_selected().selected,
            ..app
        }),
        app.selected + 1 < app.visible.len() ==> app.next_selected().selected == app.selected + 1,
        app.selected + 1 == app.visible.len() ==> app.next_selected().selected == 0,
        app.selected > 0 ==> app.previous_selected().selected == app.selected - 1,
        app.selected == 0 ==> app.previous_selected().selected == app.visible.len() - 1,
{
}

/// A row that is looked up by its key is the first with that key.
pub proof fn law_looked_up(rows: Seq<RowView>, key: KeyView)
    ensures
        match crate::app_model::row_with_key(rows, key) {
            Some(i) => {
                &&& 0 <= i < rows.len()
                &&& rows[i].key == key
                &&& forall|j: int| 0 <= j < i ==> (#[trigger] rows[j]).key != key
            },
            None => forall|j: int| 0 <= j < rows.len() ==> (#[trigger] rows[j]).key != key,
        },
    decreases rows.len(),
{
    if rows.len() > 0 {
        let init = rows.drop_last();
        law_looked_up(init, key);
        match crate::app_model::row_with_key(init, key) {
            Some(i) => {
                assert forall|j: int| 0 <= j < i implies (#[trigger] rows[j]).key != key by {
                    assert(init[j].key != key);
                }
            },
            None => {
                assert forall|j: int| 0 <= j < rows.len() - 1 implies (#[trigger] rows[j]).key
                    != key by {
                    assert(init[j].key != key);
                }
            },
        }
    }
}

/// A row that is looked up by a configured name is the first that goes by it: by
/// what it is called in the list, or by its service's name.
pub proof fn law_looked_up_by_name(rows: Seq<RowView>, name: Seq<char>)
    ensures
        match crate::app_model::row_named(rows, name) {
            Some(i) => {
                &&& 0 <= i < rows.len()
                &&& rows[i].display_name == name || rows[i].key.name == name
                &&& forall|j: int|
                    0 <= j < i ==> (#[trigger] rows[j]).display_name != name && rows[j].key.name
                        != name
            },
            None => forall|j: int|
                0 <= j < rows.len() ==> (#[trigger] rows[j]).display_name != name
                    && rows[j].key.name != name,
        },
    decreases rows.len(),
{
    if rows.len() > 0 {
        let init = rows.drop_last();
        law_looked_up_by_name(init, name);
        match crate::app_model::row_named(init, name) {
            Some(i) => {
                assert forall|j: int| 0 <= j < i implies (#[trigger] rows[j]).display_name != name
                    && rows[j].key.name != name by {
                    assert(init[j].display_name != name);
                }
            },
            None => {
                assert forall|j: int| 0 <= j < rows.len() - 1 implies (
                #[trigger] rows[j]).display_name != name && rows[j].key.name != name by {
                    assert(init[j].display_name != name);
                }
            },
        }
    }
}

/// What a change of the services, or of the filter, does to the list: the rows on
/// screen are those that the filter lets through, and a row stays selected. A
/// selection that is tracked by name goes where its service goes; any other, and one
/// whose service is no longer on screen, stays on its row, or goes to the last one
/// where there are fewer.
pub proof fn law_reselecting(app: AppView)
    ensures
        ({
            let after = app.refiltered();
            let rows = crate::app_model::filtered(app.all, app.filter);
            &&& after == (AppView { visible: rows, selected: after.selected, ..app })
            &&& rows.len() > 0 ==> after.selected < rows.len()
            &&& rows.len() == 0 ==> after.selected == 0
            &&& app.selection_mode == SelectionMode::TrackByName && app.selected
                < app.visible.len() && (exists|j: int|
                0 <= j < rows.len() && (#[trigger] rows[j]).key
                    == app.visible[app.selected as int].key) ==> rows[after.selected as int].key
                == app.visible[app.selected as int].key
            &&& app.selection_mode == SelectionMode::TrackByPosition && rows.len() > 0
                ==> after.selected == if app.selected < rows.len() {
                app.selected as int
            } else {
                rows.len() - 1
            }
            &&& app.selected < app.visible.len() && rows.len() > 0 && (forall|j: int|
                0 <= j < rows.len() ==> (#[trigger] rows[j]).key
                    != app.visible[app.selected as int].key) ==> after.selected == if app.selected
                < rows.len() {
                app.selected as int
            } else {
                rows.len() - 1
            }
        }),
{
    let rows = crate::app_model::filtered(app.all, app.filter);
    if app.selected < app.visible.len() {
        law_looked_up(rows, app.visible[app.selected as int].key);
    }
}

/// A change of the services changes the list, what is kept for services that are gone
/// and what is noted of the countdown, and nothing that the user has set.
pub proof fn law_new_services(app: AppView, services: Seq<ServiceView>)
    ensures
        app.with_services(services).all == crate::app_model::list_of(services),
        app.with_services(services).visible == crate::app_model::filtered(
            crate::app_model::list_of(services),
            app.filter,
        ),
        app.with_services(services).panes == app.panes,
        app.with_services(services).filter == app.filter,
        app.with_services(services).layout == app.layout,
        app.with_services(services).full_screen == app.full_screen,
        app.with_services(services).spacebar_mode == app.spacebar_mode,
        app.with_services(services).selection_mode == app.selection_mode,
        app.with_services(services).status_message == app.status_message,
        app.with_services(services).pending == app.pending,
        app.with_services(services).project == app.project,
        app.with_services(services).scrollback == app.scrollback,
        app.with_services(services).mouse_capture == app.mouse_capture,
{
}

/// Output goes into the buffer of its service, which is made with the configured
/// scrollback where there is none, and changes nothing else.
pub proof fn law_output(app: AppView, key: KeyView, bytes: Seq<u8>)
    ensures
        app.stores.contains_key(key) ==> app.ingested(key, bytes).stores[key]
            == app.stores[key].processed(bytes),
        !app.stores.contains_key(key) ==> app.ingested(key, bytes).stores[key]
            == crate::store::LogView::empty(app.scrollback).processed(bytes),
        app.ingested(key, bytes) == (AppView { stores: app.ingested(key, bytes).stores, ..app }),
{
}

/// The pane of a slot is resized where the slot is shown: the buffer of the service in
/// it gets that size, which is made where there is none, and no other is touched.
pub proof fn law_resized_panes(
    app: AppView,
    sizes: Seq<(usize, u16, u16)>,
    slot: usize,
    rows: u16,
    cols: u16,
    other: KeyView,
)
    ensures
        ({
            let before = app.panes_resized(sizes);
            let after = app.panes_resized(sizes.push((slot, rows, cols)));
            &&& after == (AppView { stores: after.stores, ..app })
            &&& app.pane_key(slot) is None ==> after == before
            &&& app.pane_key(slot) matches Some(key) ==> {
                &&& before.stores.contains_key(key) ==> after.stores[key]
                    == before.stores[key].resized(rows, cols)
                &&& !before.stores.contains_key(key) ==> after.stores[key]
                    == crate::store::LogView::empty(app.scrollback).resized(rows, cols)
                &&& after.stores.contains_key(key)
                &&& other != key ==> after.stores.contains_key(other) == before.stores.contains_key(
                    other,
                )
                &&& other != key && before.stores.contains_key(other) ==> after.stores[other]
                    == before.stores[other]
            }
        }),
        app.panes_resized(Seq::empty()) == app,
{
    lemma_panes_resized(app, sizes);
    assert(sizes.push((slot, rows, cols)).drop_last() =~= sizes);
}

proof fn lemma_panes_resized(app: AppView, sizes: Seq<(usize, u16, u16)>)
    ensures
        app.panes_resized(sizes) == (AppView { stores: app.panes_resized(sizes).stores, ..app }),
    decreases sizes.len(),
{
    if sizes.len() > 0 {
        lemma_panes_resized(app, sizes.drop_last());
    }
}

/// The selection is the row it is on, where there is one.
pub proof fn law_selected(app: AppView)
    ensures
        app.selected < app.visible.len() ==> app.selected_key() == Some(
            app.visible[app.selected as int].key,
        ),
        app.selected >= app.visible.len() ==> app.selected_key() is None,
{
}

} // verus!
