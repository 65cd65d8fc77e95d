//! What each key does in the terminal interface.
use vstd::prelude::*;

verus! {

/// A key press, as far as the interface tells keys apart.
#[derive(Debug, Clone, Copy, PartialEq, Eq, Structural)]
pub enum Key {
    Char(char),
    Enter,
    Esc,
    Backspace,
    Up,
    Down,
    Other,
}

/// What a key asks for while browsing.
#[derive(Debug, Clone, Copy, PartialEq, Eq, Structural)]
pub enum Command {
    Quit,
    ToggleHelp,
    AddMilestone,
    EditSelected,
    DeleteSelected,
    CompleteSelected,
    Save,
    Backup,
    CycleStatus,
    CyclePriority,
    AddFolder,
    MoveSelectedToFolder,
    CycleView,
    SelectionUp,
    SelectionDown,
    Reload,
    Nothing,
}

/// The key table while browsing; `ctrl` says whether Control was held.
pub open spec fn browse_command(key: Key, ctrl: bool) -> Command {
    match key {
        Key::Esc => Command::Quit,
        Key::Up => Command::SelectionUp,
        Key::Down => Command::SelectionDown,
        Key::Char(c) => if c == 'q' {
            Command::Quit
        } else if c == 'h' {
            Command::ToggleHelp
        } else if c == 'a' {
            Command::AddMilestone
        } else if c == 'e' {
            Command::EditSelected
        } else if c == 'd' {
            Command::DeleteSelected
        } else if c == 'c' {
            Command::CompleteSelected
        } else if c == 's' && ctrl {
            Command::Save
        } else if c == 'b' && ctrl {
            Command::Backup
        } else if c == 't' {
            Command::CycleStatus
        } else if c == 'p' {
            Command::CyclePriority
        } else if c == 'f' {
            Command::AddFolder
        } else if c == 'o' {
            Command::MoveSelectedToFolder
        } else if c == 'v' {
            Command::CycleView
        } else if c == 'r' {
            Command::Reload
        } else {
            Command::Nothing
        },
        _ => Command::Nothing,
    }
}

pub fn command_for_key(key: Key, ctrl: bool) -> (r: Command)
    ensures
        r == browse_command(key, ctrl),
{
    match key {
        Key::Esc => Command::Quit,
        Key::Up => Command::SelectionUp,
        Key::Down => Command::SelectionDown,
        Key::Char(c) => if c == 'q' {
            Command::Quit
        } else if c == 'h' {
            Command::ToggleHelp
        } else if c == 'a' {
            Command::AddMilestone
        } else if c == 'e' {
            Command::EditSelected
        } else if c == 'd' {
            Command::DeleteSelected
        } else if c == 'c' {
            Command::CompleteSelected
        } else if c == 's' && ctrl {
            Command::Save
        } else if c == 'b' && ctrl {
            Command::Backup
        } else if c == 't' {
            Command::CycleStatus
        } else if c == 'p' {
            Command::CyclePriority
        } else if c == 'f' {
            Command::AddFolder
        } else if c == 'o' {
            Command::MoveSelectedToFolder
        } else if c == 'v' {
            Command::CycleView
        } else if c == 'r' {
            Command::Reload
        } else {
            Command::Nothing
        },
        _ => Command::Nothing,
    }
}

/// Whether the key closes the help screen: `h`, `q` or Escape.
pub fn closes_help(key: Key) -> (r: bool)
    ensures
        r == (key == Key::Char('h') || key == Key::Char('q') || key == Key::Esc),
{
    match key {
        Key::Char(c) => c == 'h' || c == 'q',
        Key::Esc => true,
        _ => false,
    }
}

/// The answer a key gives to "delete this milestone?": yes for `y`, no for
/// `n` or Escape, none for any other key.
pub fn confirm_answer(key: Key) -> (r: Option<bool>)
    ensures
        (key == Key::Char('y') || key == Key::Char('Y')) ==> r == Some(true),
        (key == Key::Char('n') || key == Key::Char('N') || key == Key::Esc) ==> r == Some(false),
        !(key == Key::Char('y') || key == Key::Char('Y') || key == Key::Char('n') || key == Key::Char('N')
            || key == Key::Esc) ==> r is None,
{
    match key {
        Key::Char(c) => if c == 'y' || c == 'Y' {
            Some(true)
        } else if c == 'n' || c == 'N' {
            Some(false)
        } else {
            None
        },
        Key::Esc => Some(false),
        _ => None,
    }
}

} // verus!
