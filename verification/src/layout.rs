//! How the frame is divided.
use vstd::prelude::*;

verus! {

/// How many output panes are open.
#[derive(Clone, Copy, Debug, PartialEq, Eq, Structural)]
pub enum PaneArrangement {
    Empty,
    Single,
    Double,
}

impl PaneArrangement {
    /// The arrangement for that many pinned services.
    pub open spec fn of(count: nat) -> PaneArrangement {
        if count == 0 {
            PaneArrangement::Empty
        } else if count == 1 {
            PaneArrangement::Single
        } else {
            PaneArrangement::Double
        }
    }

    /// The arrangement for that many pinned services.
    pub fn for_count(count: usize) -> (arrangement: PaneArrangement)
        ensures
            arrangement == PaneArrangement::of(count as nat),
    {
        match count {
            0 => PaneArrangement::Empty,
            1 => PaneArrangement::Single,
            _ => PaneArrangement::Double,
        }
    }
}

/// Whether the service list is drawn.
#[derive(Clone, Copy, Debug, PartialEq, Eq, Structural)]
pub enum ListVisibility {
    Visible,
    Hidden,
}

/// Whether panes stand beside the list or below it.
#[derive(Clone, Copy, Debug, PartialEq, Eq, Structural)]
pub enum LayoutMode {
    /// Whichever fits the frame.
    Auto,
    Vertical,
    Horizontal,
}

/// A part of the frame.
#[derive(Clone, Copy, Debug, PartialEq, Eq, Structural)]
pub struct Rect {
    pub x: u16,
    pub y: u16,
    pub width: u16,
    pub height: u16,
}

impl Rect {
    /// The part of the frame that starts at `x` and `y` and is that large.
    pub fn new(x: u16, y: u16, width: u16, height: u16) -> (rect: Rect)
        ensures
            rect == (Rect { x, y, width, height }),
    {
        Rect { x, y, width, height }
    }
}

/// Where everything is drawn. There is one pane for each slot that is drawn, in
/// the order of the slots.
#[derive(Clone, Debug)]
pub struct LayoutAreas {
    pub service_list: Option<Rect>,
    pub panes: Vec<Rect>,
    pub status_bar: Option<Rect>,
}

/// What the user has chosen of the layout.
#[derive(Clone, Copy, Debug, PartialEq, Eq, Structural)]
pub struct LayoutManager {
    pub arrangement: PaneArrangement,
    pub visibility: ListVisibility,
    pub mode: LayoutMode,
}

impl LayoutManager {
    /// The list alone, and panes to be put where they fit.
    pub open spec fn initial() -> LayoutManager {
        LayoutManager {
            arrangement: PaneArrangement::Empty,
            visibility: ListVisibility::Visible,
            mode: LayoutMode::Auto,
        }
    }

    /// The layout with the list shown where it was hidden and hidden where it
    /// was shown.
    pub open spec fn toggled(self) -> LayoutManager {
        LayoutManager {
            visibility: match self.visibility {
                ListVisibility::Visible => ListVisibility::Hidden,
                ListVisibility::Hidden => ListVisibility::Visible,
            },
            ..self
        }
    }

    /// The layout turned from what it is, which is vertical where it says so and
    /// where `auto_is_vertical` says what fits the frame.
    pub open spec fn turned(self, auto_is_vertical: bool) -> LayoutManager {
        LayoutManager {
            mode: if self.mode == LayoutMode::Vertical || (self.mode == LayoutMode::Auto
                && auto_is_vertical) {
                LayoutMode::Horizontal
            } else {
                LayoutMode::Vertical
            },
            ..self
        }
    }

    /// The list alone, and panes to be put where they fit.
    pub fn new() -> (layout: LayoutManager)
        ensures
            layout == LayoutManager::initial(),
    {
        LayoutManager {
            arrangement: PaneArrangement::Empty,
            visibility: ListVisibility::Visible,
            mode: LayoutMode::Auto,
        }
    }

    pub fn arrangement(&self) -> (arrangement: PaneArrangement)
        ensures
            arrangement == self.arrangement,
    {
        self.arrangement
    }

    pub fn visibility(&self) -> (visibility: ListVisibility)
        ensures
            visibility == self.visibility,
    {
        self.visibility
    }

    pub fn set_arrangement(&mut self, arrangement: PaneArrangement)
        ensures
            *final(self) == (LayoutManager { arrangement, ..*old(self) }),
    {
        self.arrangement = arrangement;
    }

    pub fn set_visibility(&mut self, visibility: ListVisibility)
        ensures
            *final(self) == (LayoutManager { visibility, ..*old(self) }),
    {
        self.visibility = visibility;
    }

    /// Shows the list where it is hidden and hides it where it is shown.
    pub fn toggle_visibility(&mut self)
        ensures
            *final(self) == old(self).toggled(),
    {
        self.visibility = match self.visibility {
            ListVisibility::Visible => ListVisibility::Hidden,
            ListVisibility::Hidden => ListVisibility::Visible,
        };
    }

    /// Turns the layout from what it is. What that is, where nothing was chosen,
    /// depends on the frame: `auto_is_vertical` says it.
    pub fn toggle_mode(&mut self, auto_is_vertical: bool)
        ensures
            *final(self) == old(self).turned(auto_is_vertical),
    {
        self.mode = match self.mode {
            LayoutMode::Vertical => LayoutMode::Horizontal,
            LayoutMode::Horizontal => LayoutMode::Vertical,
            LayoutMode::Auto => if auto_is_vertical {
                LayoutMode::Horizontal
            } else {
                LayoutMode::Vertical
            },
        };
    }
}

} // verus!
