//! The keyboard protocol: keys, the commands they stand for, and the
//! scrollback browser's scrolling.

use vstd::prelude::*;

verus! {

/// A key press, as the event loop sees it.
#[derive(Debug, Clone, Copy, PartialEq, Eq, Structural)]
pub enum Key {
    Char(char),
    /// A character typed with Control held.
    Ctrl(char),
    Esc,
    Enter,
    Backspace,
    Delete,
    Up,
    Down,
    Left,
    Right,
    PageUp,
    PageDown,
    Home,
    End,
    F1,
    Other,
}

/// What a key asks the event loop to do.
#[derive(Debug, Clone, Copy, PartialEq, Eq, Structural)]
pub enum Command {
    Quit,
    PauseAll,
    PauseOne,
    ClearAll,
    ClearOne,
    Info,
    DeleteWindow,
    ClearFilter,
    SetFilter,
    AddFile,
    SaveBuffer,
    Browse,
    Search,
    Help,
    /// Show only the pane with this index, full screen.
    SinglePane(usize),
    /// Show every pane again.
    AllPanes,
    Nothing,
}

/// The command that `key` stands for.
pub open spec fn command_of(key: Key) -> Command {
    match key {
        Key::Esc => Command::Quit,
        Key::Ctrl(c) => if c == 'c' { Command::Quit } else { Command::Nothing },
        Key::F1 => Command::Help,
        Key::Char(c) => if c == 'q' {
            Command::Quit
        } else if c == 'p' {
            Command::PauseAll
        } else if c == 'P' {
            Command::PauseOne
        } else if c == 'O' {
            Command::ClearAll
        } else if c == 'o' {
            Command::ClearOne
        } else if c == 'i' {
            Command::Info
        } else if c == 'd' {
            Command::DeleteWindow
        } else if c == 'e' {
            Command::ClearFilter
        } else if c == 'f' {
            Command::SetFilter
        } else if c == 'a' {
            Command::AddFile
        } else if c == 'w' {
            Command::SaveBuffer
        } else if c == 'b' {
            Command::Browse
        } else if c == '/' {
            Command::Search
        } else if c == 'h' {
            Command::Help
        } else if c == '0' {
            Command::AllPanes
        } else if '1' <= c && c <= '9' {
            Command::SinglePane(((c as u32) - ('1' as u32)) as usize)
        } else {
            Command::Nothing
        },
        _ => Command::Nothing,
    }
}

/// The command that `key` stands for: `q`, Esc and Ctrl+C quit; `p`/`P`
/// pause all or one; `O`/`o` clear all or one; `i` info; `d` delete a
/// window; `e`/`f` clear or set a filter; `a` add a file; `w` save a buffer;
/// `b` browse the scrollback; `/` search; `h` and F1 help; `1`..`9` show one
/// pane full screen and `0` every pane.
pub fn command_for_key(key: Key) -> (r: Command)
    ensures
        r == command_of(key),
{
    match key {
        Key::Esc => Command::Quit,
        Key::Ctrl(c) => if c == 'c' { Command::Quit } else { Command::Nothing },
        Key::F1 => Command::Help,
        Key::Char(c) => if c == 'q' {
            Command::Quit
        } else if c == 'p' {
            Command::PauseAll
        } else if c == 'P' {
            Command::PauseOne
        } else if c == 'O' {
            Command::ClearAll
        } else if c == 'o' {
            Command::ClearOne
        } else if c == 'i' {
            Command::Info
        } else if c == 'd' {
            Command::DeleteWindow
        } else if c == 'e' {
            Command::ClearFilter
        } else if c == 'f' {
            Command::SetFilter
        } else if c == 'a' {
            Command::AddFile
        } else if c == 'w' {
            Command::SaveBuffer
        } else if c == 'b' {
            Command::Browse
        } else if c == '/' {
            Command::Search
        } else if c == 'h' {
            Command::Help
        } else if c == '0' {
            Command::AllPanes
        } else if '1' <= c && c <= '9' {
            Command::SinglePane(((c as u32) - ('1' as u32)) as usize)
        } else {
            Command::Nothing
        },
        _ => Command::Nothing,
    }
}

/// The largest first-line index that still fills a page: `len - page`, or 0.
pub open spec fn max_top(len: nat, page: nat) -> nat {
    if len > page {
        (len - page) as nat
    } else {
        0
    }
}

/// The scrollback browser's first visible line after `key`, over `len`
/// lines shown `page` at a time; `None` when the key leaves the browser.
pub open spec fn browse_step(top: nat, key: Key, len: nat, page: nat) -> Option<nat> {
    let m = max_top(len, page);
    let t = if top > m { m } else { top };
    match key {
        Key::Char(c) => if c == 'q' { None } else { Some(t) },
        Key::Esc => None,
        Key::Up => Some(if t > 0 { (t - 1) as nat } else { 0 }),
        Key::Down => Some(if t < m { t + 1 } else { m }),
        Key::PageUp => Some(if t > page { (t - page) as nat } else { 0 }),
        Key::PageDown => Some(if t + page < m { t + page } else { m }),
        Key::Home => Some(0),
        Key::End => Some(m),
        _ => Some(t),
    }
}

/// Scrolling in the scrollback browser: arrows move by a line, PageUp and
/// PageDown by a page, Home and End go to the oldest and newest page; `q`
/// and Esc leave (`None`). The result never passes the last full page.
pub fn browse_key(top: usize, key: Key, len: usize, page: usize) -> (r: Option<usize>)
    ensures
        r matches Some(t) ==> Some(t as nat) == browse_step(top as nat, key, len as nat, page as nat),
        r is None <==> browse_step(top as nat, key, len as nat, page as nat) is None,
{
    let m = if len > page { len - page } else { 0 };
    let t = if top > m { m } else { top };
    match key {
        Key::Char(c) => if c == 'q' { None } else { Some(t) },
        Key::Esc => None,
        Key::Up => Some(if t > 0 { t - 1 } else { 0 }),
        Key::Down => Some(if t < m { t + 1 } else { m }),
        Key::PageUp => Some(if t > page { t - page } else { 0 }),
        Key::PageDown => Some(if page < m - t { t + page } else { m }),
        Key::Home => Some(0),
        Key::End => Some(m),
        _ => Some(t),
    }
}

} // verus!
