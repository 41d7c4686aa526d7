//! What has the focus: the service list or a pane, and the popups over it.
use vstd::prelude::*;

verus! {

/// How many output panes there are.
pub const MAX_PANES: usize = 2;

/// Something that can have the focus.
#[derive(Clone, Copy, Debug, PartialEq, Eq, Structural)]
pub enum Focus {
    ServiceList,
    /// An output pane, by its slot.
    Pane(usize),
    HelpPopup,
    CountdownPopup,
}

impl Focus {
    /// The slot of the pane that this is, if it is one.
    pub open spec fn slot(self) -> Option<usize> {
        match self {
            Focus::Pane(idx) => Some(idx),
            _ => None,
        }
    }

    /// The slot of the pane that this is, if it is one.
    pub fn pane_index(self) -> (idx: Option<usize>)
        ensures
            idx == self.slot(),
    {
        match self {
            Focus::Pane(idx) => Some(idx),
            _ => None,
        }
    }
}

/// The focus, with the popups that stand over what has it.
pub struct FocusStack {
    pub base: Focus,
    pub popups: Vec<Focus>,
}

/// A [`FocusStack`] as a plain value.
#[verifier::ext_equal]
pub struct FocusView {
    /// What has the focus once every popup is closed.
    pub base: Focus,
    /// The popups, the topmost last.
    pub popups: Seq<Focus>,
}

impl FocusView {
    /// The topmost popup.
    pub open spec fn popup(self) -> Option<Focus> {
        if self.popups.len() == 0 {
            None
        } else {
            Some(self.popups.last())
        }
    }

    /// What keys go to.
    pub open spec fn current(self) -> Focus {
        if self.popups.len() == 0 {
            self.base
        } else {
            self.popups.last()
        }
    }

    pub open spec fn with_base(self, base: Focus) -> FocusView {
        FocusView { base, ..self }
    }

    pub open spec fn opened(self, popup: Focus) -> FocusView {
        FocusView { popups: self.popups.push(popup), ..self }
    }

    pub open spec fn closed(self) -> FocusView {
        if self.popups.len() == 0 {
            self
        } else {
            FocusView { popups: self.popups.drop_last(), ..self }
        }
    }
}

impl View for FocusStack {
    type V = FocusView;

    open spec fn view(&self) -> FocusView {
        FocusView { base: self.base, popups: self.popups@ }
    }
}

impl FocusStack {
    /// The list, with no popup over it.
    pub fn new() -> (stack: FocusStack)
        ensures
            stack@ == (FocusView { base: Focus::ServiceList, popups: Seq::empty() }),
    {
        FocusStack { base: Focus::ServiceList, popups: Vec::new() }
    }

    /// What keys go to: the topmost popup, or what has the focus under it.
    pub fn current(&self) -> (focus: Focus)
        ensures
            focus == self@.current(),
    {
        if self.popups.len() == 0 {
            self.base
        } else {
            self.popups[self.popups.len() - 1]
        }
    }

    /// What has the focus once every popup is closed.
    pub fn base(&self) -> (focus: Focus)
        ensures
            focus == self@.base,
    {
        self.base
    }

    /// The topmost popup.
    pub fn popup(&self) -> (focus: Option<Focus>)
        ensures
            focus == self@.popup(),
    {
        if self.popups.len() == 0 {
            None
        } else {
            Some(self.popups[self.popups.len() - 1])
        }
    }

    /// Moves the focus under the popups.
    pub fn set_base(&mut self, base: Focus)
        ensures
            final(self)@ == old(self)@.with_base(base),
    {
        self.base = base;
    }

    /// Opens a popup over everything.
    pub fn push_popup(&mut self, popup: Focus)
        ensures
            final(self)@ == old(self)@.opened(popup),
    {
        self.popups.push(popup);
    }

    /// Closes the topmost popup.
    pub fn close_popup(&mut self)
        ensures
            final(self)@ == old(self)@.closed(),
    {
        if self.popups.len() > 0 {
            let _closed = self.popups.pop();
        }
        assert(self@ =~= old(self)@.closed());
    }
}

/// A popup that is opened and closed leaves the focus where it was.
pub proof fn law_popup(focus: FocusView, popup: Focus)
    ensures
        focus.opened(popup).closed() == focus,
        focus.opened(popup).current() == popup,
{
    assert(focus.opened(popup).closed() =~= focus);
}

} // verus!
