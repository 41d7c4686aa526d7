//! Keys, and what a key asks for.
use vstd::prelude::*;

verus! {

/// A key, as far as the application tells keys apart.
#[derive(Clone, Copy, Debug, PartialEq, Eq, Structural)]
pub enum KeyCode {
    Char(char),
    Up,
    Down,
    Enter,
    Esc,
    Backspace,
    Home,
    End,
    Tab,
    BackTab,
    /// A function key, by its number.
    F(u8),
    /// Any key with no meaning here.
    Other,
}

/// A key press.
#[derive(Clone, Copy, Debug, PartialEq, Eq, Structural)]
pub struct KeyEvent {
    pub code: KeyCode,
    /// Whether the control key was held.
    pub ctrl: bool,
}

/// Which way a pane is scrolled.
#[derive(Clone, Copy, Debug, PartialEq, Eq, Structural)]
pub enum ScrollDirection {
    Up,
    Down,
}

/// What a key press is for.
#[derive(Clone, Copy, Debug, PartialEq, Eq, Structural)]
pub enum KeyTarget {
    /// The filter that is being typed.
    Filter,
    /// The help popup.
    Help,
    /// An output pane, which may hold the whole frame.
    Pane { full_screen: bool },
    /// The service list, or, where that has no focus, nothing in particular.
    List { focused: bool },
}

/// What a key press asks for.
#[derive(Clone, Copy, Debug, PartialEq, Eq, Structural)]
pub enum Command {
    Nothing,
    Quit,
    OpenHelp,
    CloseHelp,
    ToggleMouse,
    EditFilter,
    ClearFilter,
    ConfirmFilter,
    EraseFilter,
    TypeFilter(char),
    SelectNext,
    SelectPrevious,
    /// Scroll by as much as the key has been held for.
    Scroll(ScrollDirection),
    ScrollHalfPage(ScrollDirection),
    ScrollToTop,
    ScrollToBottom,
    Copy,
    EnterFullScreen,
    LeavePane,
    TogglePane(usize),
    ClearPanes,
    ToggleOutput,
    OpenSelection,
    ToggleList,
    ToggleLayout,
    FocusNext,
    FocusPrevious,
}

/// The bindings. The filter takes text, the help popup its own keys and the quit
/// it advertises; then come the keys that work everywhere, and then what the
/// focus gives a key. A pane with the whole frame takes nothing that would split
/// the frame again.
pub open spec fn binding(target: KeyTarget, key: KeyEvent) -> Command {
    match target {
        KeyTarget::Filter => match key.code {
            KeyCode::Esc => Command::ClearFilter,
            KeyCode::Enter => Command::ConfirmFilter,
            KeyCode::Backspace => Command::EraseFilter,
            KeyCode::Up => Command::SelectPrevious,
            KeyCode::Down => Command::SelectNext,
            KeyCode::Char(c) => if key.ctrl {
                Command::Nothing
            } else {
                Command::TypeFilter(c)
            },
            _ => Command::Nothing,
        },
        KeyTarget::Help => match key.code {
            KeyCode::Char('q') => Command::Quit,
            KeyCode::Char('?') => Command::CloseHelp,
            KeyCode::Esc => Command::CloseHelp,
            _ => Command::Nothing,
        },
        KeyTarget::Pane { full_screen } => if global_binding(key.code) != Command::Nothing {
            global_binding(key.code)
        } else if pane_binding(key) != Command::Nothing {
            pane_binding(key)
        } else if full_screen {
            Command::Nothing
        } else {
            list_binding(key.code, false)
        },
        KeyTarget::List { focused } => if global_binding(key.code) != Command::Nothing {
            global_binding(key.code)
        } else {
            list_binding(key.code, focused)
        },
    }
}

/// What a key asks for wherever the focus is.
pub open spec fn global_binding(code: KeyCode) -> Command {
    match code {
        KeyCode::Char('?') => Command::OpenHelp,
        KeyCode::Char('q') => Command::Quit,
        KeyCode::F(10) => Command::ToggleMouse,
        _ => Command::Nothing,
    }
}

/// What a key asks a focused pane for.
pub open spec fn pane_binding(key: KeyEvent) -> Command {
    match key.code {
        KeyCode::Up => Command::Scroll(ScrollDirection::Up),
        KeyCode::Char('k') => Command::Scroll(ScrollDirection::Up),
        KeyCode::Down => Command::Scroll(ScrollDirection::Down),
        KeyCode::Char('j') => Command::Scroll(ScrollDirection::Down),
        KeyCode::Char('u') => if key.ctrl {
            Command::ScrollHalfPage(ScrollDirection::Up)
        } else {
            Command::Nothing
        },
        KeyCode::Char('d') => if key.ctrl {
            Command::ScrollHalfPage(ScrollDirection::Down)
        } else {
            Command::Nothing
        },
        KeyCode::Home => Command::ScrollToTop,
        KeyCode::End => Command::ScrollToBottom,
        KeyCode::Char('c') => if key.ctrl {
            Command::Nothing
        } else {
            Command::Copy
        },
        KeyCode::Enter => Command::EnterFullScreen,
        KeyCode::Esc => Command::LeavePane,
        _ => Command::Nothing,
    }
}

/// What a key asks for that no pane has taken. The filter is opened only where
/// the list has the focus: it takes keys nowhere else.
pub open spec fn list_binding(code: KeyCode, focused: bool) -> Command {
    match code {
        KeyCode::Down => Command::SelectNext,
        KeyCode::Char('j') => Command::SelectNext,
        KeyCode::Up => Command::SelectPrevious,
        KeyCode::Char('k') => Command::SelectPrevious,
        KeyCode::Char('1') => Command::TogglePane(0),
        KeyCode::Char('2') => Command::TogglePane(1),
        KeyCode::Char('0') => Command::ClearPanes,
        KeyCode::Char(' ') => Command::ToggleOutput,
        KeyCode::Enter => Command::OpenSelection,
        KeyCode::Char('b') => Command::ToggleList,
        KeyCode::Char('m') => Command::ToggleLayout,
        KeyCode::Tab => Command::FocusNext,
        KeyCode::BackTab => Command::FocusPrevious,
        KeyCode::Char('/') => if focused {
            Command::EditFilter
        } else {
            Command::Nothing
        },
        KeyCode::Esc => Command::ClearFilter,
        _ => Command::Nothing,
    }
}

impl KeyEvent {
    /// A press of `code`, with or without the control key.
    pub fn new(code: KeyCode, ctrl: bool) -> (key: KeyEvent)
        ensures
            key == (KeyEvent { code, ctrl }),
    {
        KeyEvent { code, ctrl }
    }

    /// Whether the press is the interrupt, which works everywhere.
    pub open spec fn interrupts(self) -> bool {
        self.ctrl && self.code == KeyCode::Char('c')
    }
}

/// What `key` asks for, where it is for `target`.
pub fn command_for(target: KeyTarget, key: KeyEvent) -> (command: Command)
    ensures
        command == binding(target, key),
{
    match target {
        KeyTarget::Filter => match key.code {
            KeyCode::Esc => Command::ClearFilter,
            KeyCode::Enter => Command::ConfirmFilter,
            KeyCode::Backspace => Command::EraseFilter,
            KeyCode::Up => Command::SelectPrevious,
            KeyCode::Down => Command::SelectNext,
            KeyCode::Char(c) if !key.ctrl => Command::TypeFilter(c),
            _ => Command::Nothing,
        },
        KeyTarget::Help => match key.code {
            KeyCode::Char('q') => Command::Quit,
            KeyCode::Esc | KeyCode::Char('?') => Command::CloseHelp,
            _ => Command::Nothing,
        },
        KeyTarget::Pane { full_screen } => {
            let everywhere: Command = global_command(key.code);
            if everywhere != Command::Nothing {
                return everywhere;
            }
            let here: Command = pane_command(key);
            if here != Command::Nothing || full_screen {
                return here;
            }
            list_command(key.code, false)
        },
        KeyTarget::List { focused } => {
            let everywhere: Command = global_command(key.code);
            if everywhere != Command::Nothing {
                return everywhere;
            }
            list_command(key.code, focused)
        },
    }
}

/// What a key asks for wherever the focus is.
fn global_command(code: KeyCode) -> (command: Command)
    ensures
        command == global_binding(code),
{
    match code {
        KeyCode::Char('?') => Command::OpenHelp,
        KeyCode::Char('q') => Command::Quit,
        KeyCode::F(10) => Command::ToggleMouse,
        _ => Command::Nothing,
    }
}

/// What a key asks a focused pane for.
fn pane_command(key: KeyEvent) -> (command: Command)
    ensures
        command == pane_binding(key),
{
    match key.code {
        KeyCode::Up | KeyCode::Char('k') => Command::Scroll(ScrollDirection::Up),
        KeyCode::Down | KeyCode::Char('j') => Command::Scroll(ScrollDirection::Down),
        KeyCode::Char('u') if key.ctrl => Command::ScrollHalfPage(ScrollDirection::Up),
        KeyCode::Char('d') if key.ctrl => Command::ScrollHalfPage(ScrollDirection::Down),
        KeyCode::Home => Command::ScrollToTop,
        KeyCode::End => Command::ScrollToBottom,
        KeyCode::Char('c') if !key.ctrl => Command::Copy,
        KeyCode::Enter => Command::EnterFullScreen,
        KeyCode::Esc => Command::LeavePane,
        _ => Command::Nothing,
    }
}

/// What a key asks for that no pane has taken.
fn list_command(code: KeyCode, focused: bool) -> (command: Command)
    ensures
        command == list_binding(code, focused),
{
    match code {
        KeyCode::Down | KeyCode::Char('j') => Command::SelectNext,
        KeyCode::Up | KeyCode::Char('k') => Command::SelectPrevious,
        KeyCode::Char('1') => Command::TogglePane(0),
        KeyCode::Char('2') => Command::TogglePane(1),
        KeyCode::Char('0') => Command::ClearPanes,
        KeyCode::Char(' ') => Command::ToggleOutput,
        KeyCode::Enter => Command::OpenSelection,
        KeyCode::Char('b') => Command::ToggleList,
        KeyCode::Char('m') => Command::ToggleLayout,
        KeyCode::Tab => Command::FocusNext,
        KeyCode::BackTab => Command::FocusPrevious,
        KeyCode::Char('/') if focused => Command::EditFilter,
        KeyCode::Esc => Command::ClearFilter,
        _ => Command::Nothing,
    }
}

} // verus!
