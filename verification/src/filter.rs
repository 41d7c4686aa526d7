//! The filter over the service list.
use vstd::prelude::*;

use crate::text::text_contains;

verus! {

/// Whether the filter is in use.
#[derive(Clone, Copy, Debug, PartialEq, Eq, Structural)]
pub enum FilterState {
    /// There is no filter.
    Off,
    /// The filter is being typed.
    Editing,
    /// The filter has been confirmed and stays applied.
    Persisted,
}

/// A search term that the names of the services on screen contain.
pub struct Filter {
    pub query: String,
    pub state: FilterState,
}

/// A [`Filter`] as a plain value.
#[verifier::ext_equal]
pub struct FilterView {
    pub query: Seq<char>,
    pub state: FilterState,
}

impl FilterView {
    /// No filter.
    pub open spec fn off() -> FilterView {
        FilterView { query: Seq::empty(), state: FilterState::Off }
    }

    /// Whether a name is let through.
    pub open spec fn lets(self, name: Seq<char>) -> bool {
        crate::text::contains(name, self.query)
    }
}

impl View for Filter {
    type V = FilterView;

    open spec fn view(&self) -> FilterView {
        FilterView { query: self.query@, state: self.state }
    }
}

impl Filter {
    /// No filter.
    pub fn new() -> (filter: Filter)
        ensures
            filter@ == FilterView::off(),
    {
        Filter { query: String::new(), state: FilterState::Off }
    }

    /// The search term.
    pub fn query(&self) -> (query: &str)
        ensures
            query@ == self@.query,
    {
        self.query.as_str()
    }

    /// Whether the filter is in use.
    pub fn state(&self) -> (state: FilterState)
        ensures
            state == self@.state,
    {
        self.state
    }

    /// Whether the filter is being typed.
    pub fn is_editing(&self) -> (editing: bool)
        ensures
            editing == (self@.state == FilterState::Editing),
    {
        self.state == FilterState::Editing
    }

    /// Whether a service with that name is let through.
    pub fn matches(&self, name: &str) -> (lets: bool)
        ensures
            lets == self@.lets(name@),
    {
        text_contains(name, self.query.as_str())
    }

    /// Starts typing, from the search term there is.
    pub fn enter_edit(&mut self)
        ensures
            final(self)@ == (FilterView { state: FilterState::Editing, ..old(self)@ }),
    {
        self.state = FilterState::Editing;
    }

    /// Confirms the search term.
    pub fn persist(&mut self)
        ensures
            final(self)@ == (FilterView { state: FilterState::Persisted, ..old(self)@ }),
    {
        self.state = FilterState::Persisted;
    }

    /// Drops the filter.
    pub fn clear(&mut self)
        ensures
            final(self)@ == FilterView::off(),
    {
        self.query = String::new();
        self.state = FilterState::Off;
    }

    /// Types a character.
    pub fn push(&mut self, c: char)
        ensures
            final(self)@ == (FilterView { query: old(self)@.query.push(c), ..old(self)@ }),
    {
        self.query.push(c);
    }

    /// Erases the last character, if there is one.
    pub fn pop(&mut self)
        ensures
            final(self)@ == (FilterView {
                query: if old(self)@.query.len() == 0 {
                    Seq::empty()
                } else {
                    old(self)@.query.drop_last()
                },
                ..old(self)@
            }),
    {
        let _erased = self.query.pop();
        assert(old(self).query@.len() == 0 ==> old(self).query@ =~= Seq::empty());
    }
}

/// A filter with no search term lets every name through, and each name lets
/// itself through.
pub proof fn law_filter(name: Seq<char>, state: FilterState)
    ensures
        (FilterView { query: Seq::empty(), state }).lets(name),
        (FilterView { query: name, state }).lets(name),
{
    assert(name.subrange(0, 0) =~= Seq::<char>::empty());
    assert(name.subrange(0, 0 + Seq::<char>::empty().len() as int) =~= Seq::<char>::empty());
    assert(name.subrange(0, 0 + name.len() as int) =~= name);
}

} // verus!
