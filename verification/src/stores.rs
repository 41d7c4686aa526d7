//! The log stores of all the services.
use vstd::prelude::*;

use crate::emulator::MAX_COLS;
use crate::service::{slot_holds, KeyView, Row, RowView, ServiceKey};
use crate::store::{LogStore, LogView};

verus! {

/// The log store of one service.
pub struct StoreEntry {
    pub key: ServiceKey,
    pub store: LogStore,
}

/// The log stores, each under the key of its service.
pub struct Stores {
    pub entries: Vec<StoreEntry>,
}

/// Whether one of `entries` has that key.
pub open spec fn has_key(entries: Seq<StoreEntry>, key: KeyView) -> bool {
    exists|i: int| 0 <= i < entries.len() && #[trigger] entries[i].key@ == key
}

/// What `entries` hold, by key.
pub open spec fn by_key(entries: Seq<StoreEntry>) -> Map<KeyView, LogView> {
    Map::new(
        |key: KeyView| has_key(entries, key),
        |key: KeyView|
            entries[choose|i: int| 0 <= i < entries.len() && #[trigger] entries[i].key@
                == key].store@,
    )
}

/// Whether no two of `entries` have one key.
pub open spec fn distinct(entries: Seq<StoreEntry>) -> bool {
    forall|i: int, j: int|
        0 <= i < j < entries.len() ==> #[trigger] entries[i].key@ != #[trigger] entries[j].key@
}

impl View for Stores {
    type V = Map<KeyView, LogView>;

    open spec fn view(&self) -> Map<KeyView, LogView> {
        by_key(self.entries@)
    }
}

/// The store under a key, or the empty store that is made for it.
pub open spec fn store_or_new(
    stores: Map<KeyView, LogView>,
    key: KeyView,
    scrollback: nat,
) -> LogView {
    if stores.contains_key(key) {
        stores[key]
    } else {
        LogView::empty(scrollback)
    }
}

/// Whether the view of a store has done what it should while output came in: one
/// that was tailing still is, and one that is scrolled back has stayed on what it
/// showed.
pub open spec fn follows_output(before: LogView, after: LogView) -> bool {
    &&& before.offset == 0 ==> after.offset == 0
    &&& after.offset > 0 ==> exists|entered: nat| crate::store::stays_put(before, after, entered)
}

/// Whether every store can be read and rebuilt.
pub open spec fn all_live(stores: Map<KeyView, LogView>) -> bool {
    forall|key: KeyView| #[trigger]
        stores.contains_key(key) ==> live(stores[key])
}

/// Whether a store can be read and rebuilt.
pub open spec fn live(store: LogView) -> bool {
    store.wf() && !store.released && store.replayable()
}

/// Where an entry is, its store is what its key is mapped to.
proof fn lemma_entry(entries: Seq<StoreEntry>, i: int)
    requires
        distinct(entries),
        0 <= i < entries.len(),
    ensures
        by_key(entries).contains_key(entries[i].key@),
        by_key(entries)[entries[i].key@] == entries[i].store@,
{
    let key = entries[i].key@;
    let j = choose|j: int| 0 <= j < entries.len() && #[trigger] entries[j].key@ == key;
    assert(0 <= j < entries.len() && entries[j].key@ == key);
    if i < j {
        assert(entries[i].key@ != entries[j].key@);
    } else if j < i {
        assert(entries[j].key@ != entries[i].key@);
    }
}

/// Changing the store of one entry.
proof fn lemma_update(old: Seq<StoreEntry>, new: Seq<StoreEntry>, i: int)
    requires
        distinct(old),
        0 <= i < old.len(),
        new.len() == old.len(),
        new[i].key@ == old[i].key@,
        forall|j: int| 0 <= j < old.len() && j != i ==> new[j] == old[j],
    ensures
        distinct(new),
        by_key(new) == by_key(old).insert(old[i].key@, new[i].store@),
{
    assert forall|a: int, b: int| 0 <= a < b < new.len() implies #[trigger] new[a].key@
        != #[trigger] new[b].key@ by {
        assert(old[a].key@ != old[b].key@);
    }
    assert forall|key: KeyView| has_key(new, key) == has_key(old, key) by {
        if has_key(new, key) {
            let j = choose|j: int| 0 <= j < new.len() && #[trigger] new[j].key@ == key;
            assert(old[j].key@ == key);
        }
        if has_key(old, key) {
            let j = choose|j: int| 0 <= j < old.len() && #[trigger] old[j].key@ == key;
            assert(new[j].key@ == key);
        }
    }
    lemma_entry(new, i);
    lemma_entry(old, i);
    let want = by_key(old).insert(old[i].key@, new[i].store@);
    assert forall|key: KeyView| #[trigger] by_key(new).contains_key(key) implies by_key(new)[key]
        == want[key] by {
        let j = choose|j: int| 0 <= j < new.len() && #[trigger] new[j].key@ == key;
        lemma_entry(new, j);
        lemma_entry(old, j);
    }
    assert(by_key(new) =~= want);
}

/// Adding an entry under a new key.
proof fn lemma_push(old: Seq<StoreEntry>, entry: StoreEntry)
    requires
        distinct(old),
        !has_key(old, entry.key@),
    ensures
        distinct(old.push(entry)),
        by_key(old.push(entry)) == by_key(old).insert(entry.key@, entry.store@),
{
    let new = old.push(entry);
    assert forall|a: int, b: int| 0 <= a < b < new.len() implies #[trigger] new[a].key@
        != #[trigger] new[b].key@ by {
        if b < old.len() {
            assert(old[a].key@ != old[b].key@);
        } else {
            assert(old[a].key@ != entry.key@);
        }
    }
    assert forall|key: KeyView| has_key(new, key) == (has_key(old, key) || key == entry.key@) by {
        if has_key(old, key) {
            let j = choose|j: int| 0 <= j < old.len() && #[trigger] old[j].key@ == key;
            assert(new[j].key@ == key);
        }
        assert(new[old.len() as int].key@ == entry.key@);
    }
    lemma_entry(new, old.len() as int);
    let want = by_key(old).insert(entry.key@, entry.store@);
    assert forall|key: KeyView| #[trigger] by_key(new).contains_key(key) implies by_key(new)[key]
        == want[key] by {
        let j = choose|j: int| 0 <= j < new.len() && #[trigger] new[j].key@ == key;
        lemma_entry(new, j);
        if j < old.len() {
            lemma_entry(old, j);
        }
    }
    assert(by_key(new) =~= want);
}

/// Whether one of `rows`, or one of the two panes, has that key.
pub open spec fn in_use(rows: Seq<RowView>, panes: Seq<Option<KeyView>>, key: KeyView) -> bool {
    ||| exists|i: int| 0 <= i < rows.len() && #[trigger] rows[i].key == key
    ||| exists|i: int| 0 <= i < panes.len() && #[trigger] panes[i] == Some(key)
}

/// The keys whose stores are kept.
pub open spec fn kept_keys(rows: Seq<RowView>, panes: Seq<Option<KeyView>>) -> Set<KeyView> {
    Set::new(|key: KeyView| in_use(rows, panes, key))
}

/// Whether one of `rows` has that key.
fn row_has_key(rows: &Vec<Row>, key: &ServiceKey) -> (found: bool)
    ensures
        found == exists|i: int|
            0 <= i < crate::service::row_views(rows@).len() && #[trigger] crate::service::row_views(rows@)[i].key == key@,
{
    let mut i: usize = 0;
    while i < rows.len()
        invariant
            i <= rows@.len(),
            forall|j: int| 0 <= j < i ==> #[trigger] crate::service::row_views(rows@)[j].key != key@,
        decreases rows@.len() - i,
    {
        if rows[i].key.same(key) {
            assert(crate::service::row_views(rows@)[i as int].key == key@);
            return true;
        }
        assert(crate::service::row_views(rows@)[i as int].key != key@);
        i += 1;
    }
    false
}

/// Removing an entry.
proof fn lemma_remove(old: Seq<StoreEntry>, i: int)
    requires
        distinct(old),
        0 <= i < old.len(),
    ensures
        distinct(old.remove(i)),
        by_key(old.remove(i)) == by_key(old).remove(old[i].key@),
{
    let new = old.remove(i);
    assert forall|a: int, b: int| 0 <= a < b < new.len() implies #[trigger] new[a].key@
        != #[trigger] new[b].key@ by {
        let x = if a < i { a } else { a + 1 };
        let y = if b < i { b } else { b + 1 };
        assert(old[x].key@ != old[y].key@);
    }
    assert forall|key: KeyView| has_key(new, key) == (has_key(old, key) && key != old[i].key@) by {
        if has_key(new, key) {
            let j = choose|j: int| 0 <= j < new.len() && #[trigger] new[j].key@ == key;
            let x = if j < i { j } else { j + 1 };
            assert(old[x].key@ == key);
            if x < i {
                assert(old[x].key@ != old[i].key@);
            } else {
                assert(old[i].key@ != old[x].key@);
            }
        }
        if has_key(old, key) && key != old[i].key@ {
            let x = choose|x: int| 0 <= x < old.len() && #[trigger] old[x].key@ == key;
            let j = if x < i { x } else { x - 1 };
            assert(new[j].key@ == key);
        }
    }
    let want = by_key(old).remove(old[i].key@);
    assert forall|key: KeyView| #[trigger] by_key(new).contains_key(key) implies by_key(new)[key]
        == want[key] by {
        let j = choose|j: int| 0 <= j < new.len() && #[trigger] new[j].key@ == key;
        lemma_entry(new, j);
        let x = if j < i { j } else { j + 1 };
        lemma_entry(old, x);
    }
    assert(by_key(new) =~= want);
}

/// A way to scroll.
#[derive(Clone, Copy, Debug, PartialEq, Eq, Structural)]
pub enum Motion {
    Up(u16),
    Down(u16),
    Top,
    Bottom,
}

/// A store that has been scrolled.
pub open spec fn moved(store: LogView, motion: Motion) -> LogView {
    match motion {
        Motion::Up(lines) => store.scrolled_to(store.offset + lines as nat),
        Motion::Down(lines) => store.scrolled_to(
            if store.offset <= lines {
                0
            } else {
                (store.offset - lines) as nat
            },
        ),
        Motion::Top => store.scrolled_to(store.depth()),
        Motion::Bottom => store.scrolled_to(0),
    }
}

/// The stores once the one with that key, if there is one, has been scrolled.
pub open spec fn moved_in(
    stores: Map<KeyView, LogView>,
    key: KeyView,
    motion: Motion,
) -> Map<KeyView, LogView> {
    if stores.contains_key(key) {
        stores.insert(key, moved(stores[key], motion))
    } else {
        stores
    }
}

/// Scrolling up goes back by as many rows, or to the top, and scrolling down comes
/// forward by as many, or to the bottom. Nothing but the view moves.
pub proof fn law_motion(store: LogView, lines: u16)
    requires
        store.offset <= store.depth(),
    ensures
        moved(store, Motion::Up(lines)).offset == if store.offset + lines <= store.depth() {
            store.offset + lines
        } else {
            store.depth() as int
        },
        moved(store, Motion::Down(lines)).offset == if store.offset >= lines {
            store.offset - lines
        } else {
            0
        },
        moved(store, Motion::Top).offset == store.depth(),
        moved(store, Motion::Bottom).offset == 0,
        forall|motion: Motion|
            #![trigger moved(store, motion)]
            moved(store, motion) == (LogView { offset: moved(store, motion).offset, ..store }),
{
}

/// Scrolling in one store moves that one and leaves the others.
pub proof fn law_moved_in(
    stores: Map<KeyView, LogView>,
    key: KeyView,
    other: KeyView,
    motion: Motion,
)
    ensures
        moved_in(stores, key, motion).contains_key(other) == stores.contains_key(other),
        stores.contains_key(other) && other != key ==> moved_in(stores, key, motion)[other]
            == stores[other],
        stores.contains_key(key) ==> moved_in(stores, key, motion)[key] == moved(
            stores[key],
            motion,
        ),
{
}

/// A store that is made is an empty one, with the scrollback that is configured; one
/// that is there is that one.
pub proof fn law_store_or_new(stores: Map<KeyView, LogView>, key: KeyView, scrollback: nat)
    ensures
        stores.contains_key(key) ==> store_or_new(stores, key, scrollback) == stores[key],
        !stores.contains_key(key) ==> {
            let made = store_or_new(stores, key, scrollback);
            &&& made.scrollback == scrollback
            &&& made.raw.len() == 0
            &&& made.pen.len() == 0
            &&& !made.has_output
            &&& !made.pending_cr
            &&& !made.released
            &&& made.offset == 0
        },
{
}

impl Stores {
    /// What holds of the stores whenever they are not being worked on.
    pub open spec fn wf(&self) -> bool {
        distinct(self.entries@) && all_live(self@)
    }

    /// No stores.
    pub fn new() -> (stores: Stores)
        ensures
            stores.wf(),
            stores@ == Map::<KeyView, LogView>::empty(),
    {
        let stores = Stores { entries: Vec::new() };
        assert(stores@ =~= Map::<KeyView, LogView>::empty());
        stores
    }

    /// Where the entry with that key is.
    fn position(&self, key: &ServiceKey) -> (at: Option<usize>)
        requires
            distinct(self.entries@),
        ensures
            at is Some <==> self@.contains_key(key@),
            at matches Some(i) ==> i < self.entries@.len() && self.entries@[i as int].key@ == key@
                && self@[key@] == self.entries@[i as int].store@,
    {
        let mut i: usize = 0;
        while i < self.entries.len()
            invariant
                i <= self.entries@.len(),
                distinct(self.entries@),
                forall|j: int| 0 <= j < i ==> #[trigger] self.entries@[j].key@ != key@,
            decreases self.entries@.len() - i,
        {
            if self.entries[i].key.same(key) {
                proof {
                    lemma_entry(self.entries@, i as int);
                }
                return Some(i);
            }
            i += 1;
        }
        None
    }

    /// The store with that key.
    pub fn get(&self, key: &ServiceKey) -> (store: Option<&LogStore>)
        requires
            self.wf(),
        ensures
            store is Some <==> self@.contains_key(key@),
            store matches Some(s) ==> s@ == self@[key@],
    {
        match self.position(key) {
            Some(i) => Some(&self.entries[i].store),
            None => None,
        }
    }

    /// Where the entry with that key is, once an empty one is made if there was
    /// none.
    fn ensure(&mut self, key: &ServiceKey, scrollback: usize) -> (at: usize)
        requires
            old(self).wf(),
        ensures
            final(self).wf(),
            final(self)@ == old(self)@.insert(
                key@,
                store_or_new(old(self)@, key@, scrollback as nat),
            ),
            at < final(self).entries@.len(),
            final(self).entries@[at as int].key@ == key@,
            final(self).entries@[at as int].store@ == final(self)@[key@],
    {
        match self.position(key) {
            Some(i) => {
                assert(self@ =~= old(self)@.insert(key@, self@[key@]));
                i
            },
            None => {
                let entry = StoreEntry { key: key.copy(), store: LogStore::new(scrollback) };
                proof {
                    lemma_push(self.entries@, entry);
                }
                self.entries.push(entry);
                self.entries.len() - 1
            },
        }
    }

    /// Gives output to the store with that key, which is made if there is none.
    pub fn process(&mut self, key: &ServiceKey, scrollback: usize, bytes: &[u8])
        requires
            old(self).wf(),
        ensures
            final(self).wf(),
            final(self)@ == old(self)@.insert(
                key@,
                store_or_new(old(self)@, key@, scrollback as nat).processed(bytes@),
            ),
            follows_output(
                store_or_new(old(self)@, key@, scrollback as nat),
                final(self)@[key@],
            ),
    {
        let at: usize = self.ensure(key, scrollback);
        let ghost before = self.entries@;
        assert(self@.contains_key(key@));
        assert(all_live(self@));
        assert(live(self@[key@]));
        self.entries[at].store.process(bytes);
        proof {
            lemma_update(before, self.entries@, at as int);
            assert(self@ =~= old(self)@.insert(key@, self.entries@[at as int].store@));
        }
    }

    /// Resizes the store with that key, which is made if there is none.
    pub fn resize(&mut self, key: &ServiceKey, scrollback: usize, rows: u16, cols: u16)
        requires
            old(self).wf(),
            cols <= MAX_COLS,
        ensures
            final(self).wf(),
            final(self)@ == old(self)@.insert(
                key@,
                store_or_new(old(self)@, key@, scrollback as nat).resized(rows, cols),
            ),
    {
        let at: usize = self.ensure(key, scrollback);
        let ghost before = self.entries@;
        assert(self@.contains_key(key@));
        assert(all_live(self@));
        assert(live(self@[key@]));
        self.entries[at].store.resize(rows, cols);
        proof {
            lemma_update(before, self.entries@, at as int);
            assert(self@ =~= old(self)@.insert(key@, self.entries@[at as int].store@));
        }
    }

    /// Scrolls the store with that key, if there is one.
    pub fn scroll(&mut self, key: &ServiceKey, motion: Motion)
        requires
            old(self).wf(),
        ensures
            final(self).wf(),
            final(self)@ == moved_in(old(self)@, key@, motion),
    {
        match self.position(key) {
            Some(at) => {
                let ghost before = self.entries@;
                match motion {
                    Motion::Up(lines) => self.entries[at].store.scroll_up(lines),
                    Motion::Down(lines) => self.entries[at].store.scroll_down(lines),
                    Motion::Top => self.entries[at].store.scroll_to_top(),
                    Motion::Bottom => self.entries[at].store.scroll_to_bottom(),
                }
                proof {
                    lemma_update(before, self.entries@, at as int);
                    assert(self@ =~= moved_in(old(self)@, key@, motion));
                }
            },
            None => {},
        }
    }

    /// The whole text of the store with that key.
    pub fn all_text(&mut self, key: &ServiceKey) -> (text: Option<String>)
        requires
            old(self).wf(),
        ensures
            final(self).wf(),
            final(self)@ == old(self)@,
            text is Some <==> old(self)@.contains_key(key@),
            text matches Some(t) ==> t@ == old(self)@[key@].text(),
    {
        match self.position(key) {
            Some(at) => {
                let ghost before = self.entries@;
                let text: String = self.entries[at].store.all_text();
                proof {
                    lemma_update(before, self.entries@, at as int);
                    assert(self@ =~= old(self)@);
                }
                Some(text)
            },
            None => None,
        }
    }

    /// Whether the last row of the store with that key is blank; there is nothing
    /// to be blank where there is no such store.
    pub fn tail_row_blank(&mut self, key: &ServiceKey) -> (blank: bool)
        requires
            old(self).wf(),
        ensures
            final(self).wf(),
            final(self)@ == old(self)@,
            blank == (old(self)@.contains_key(key@) && crate::store::is_blank(
                old(self)@[key@].row_texts().last(),
            )),
    {
        match self.position(key) {
            Some(at) => {
                let ghost before = self.entries@;
                let blank: bool = self.entries[at].store.tail_row_blank();
                proof {
                    lemma_update(before, self.entries@, at as int);
                    assert(self@ =~= old(self)@);
                }
                blank
            },
            None => false,
        }
    }

    /// Drops the stores that neither a row nor a pane has the key of.
    pub fn retain(&mut self, rows: &Vec<Row>, pane_one: &Option<ServiceKey>, pane_two: &Option<
        ServiceKey,
    >)
        requires
            old(self).wf(),
        ensures
            final(self).wf(),
            final(self)@ == old(self)@.restrict(
                kept_keys(
                    crate::service::row_views(rows@),
                    seq![crate::service::slot_view(*pane_one), crate::service::slot_view(*pane_two)],
                ),
            ),
    {
        let ghost views = crate::service::row_views(rows@);
        let ghost panes = seq![crate::service::slot_view(*pane_one), crate::service::slot_view(*pane_two)];
        let ghost kept = kept_keys(views, panes);
        let mut i: usize = 0;
        while i < self.entries.len()
            invariant
                i <= self.entries@.len(),
                distinct(self.entries@),
                self@.submap_of(old(self)@),
                views == crate::service::row_views(rows@),
                panes == seq![crate::service::slot_view(*pane_one), crate::service::slot_view(*pane_two)],
                kept == kept_keys(views, panes),
                self@.restrict(kept) == old(self)@.restrict(kept),
                forall|j: int| 0 <= j < i ==> in_use(views, panes, #[trigger] self.entries@[j].key@),
            decreases self.entries@.len() - i,
        {
            let ghost before = self.entries@;
            let held: bool = slot_holds(pane_one, &self.entries[i].key) || slot_holds(
                pane_two,
                &self.entries[i].key,
            );
            let used: bool = held || row_has_key(rows, &self.entries[i].key);
            proof {
                let key = self.entries@[i as int].key@;
                assert(panes[0] == crate::service::slot_view(*pane_one) && panes[1] == crate::service::slot_view(*pane_two));
                assert(used == in_use(views, panes, key));
            }
            if used {
                i += 1;
            } else {
                let _dropped = self.entries.remove(i);
                proof {
                    lemma_remove(before, i as int);
                    assert(self@.restrict(kept) =~= old(self)@.restrict(kept));
                }
            }
        }
        proof {
            assert forall|key: KeyView| #[trigger] self@.contains_key(key) implies kept.contains(
                key,
            ) by {
                let j = choose|j: int|
                    0 <= j < self.entries@.len() && #[trigger] self.entries@[j].key@ == key;
                assert(in_use(views, panes, self.entries@[j].key@));
            }
            assert(self@ =~= self@.restrict(kept));
            assert forall|key: KeyView| #[trigger] self@.contains_key(key) implies live(
                self@[key],
            ) by {
                assert(old(self)@.contains_key(key));
            }
        }
    }
}

} // verus!
