//! The decisions of the dialogs: where a popup sits, how a selection list
//! and a text field react to keys, and what they hand back.

use vstd::prelude::*;
use crate::chars::{chars_of, push_char};
use crate::keys::Key;
use crate::theme::push_all;

verus! {

/// What a dialog hands back.
#[derive(Debug)]
pub enum PopupResult {
    /// The index of the chosen item.
    Selected(usize),
    /// The text entered.
    Text(String),
    /// The dialog was closed without a choice.
    Dismissed,
}

/// The top-left corner that centers a `popup_w` x `popup_h` popup on a
/// `term_w` x `term_h` terminal (at 0 where it does not fit).
pub fn center_popup(term_w: u16, term_h: u16, popup_w: u16, popup_h: u16) -> (r: (u16, u16))
    ensures
        r.0 == (if term_w > popup_w { (term_w - popup_w) / 2 } else { 0 }),
        r.1 == (if term_h > popup_h { (term_h - popup_h) / 2 } else { 0 }),
{
    let x = term_w.saturating_sub(popup_w) / 2;
    let y = term_h.saturating_sub(popup_h) / 2;
    (x, y)
}

/// The selection after `key` in a list of `len` items, or `Err` with the
/// dialog's result when the key ends it.
pub open spec fn menu_step(selected: nat, key: Key, len: nat) -> Result<nat, Option<nat>> {
    match key {
        Key::Up => Ok(if selected > 0 { (selected - 1) as nat } else { selected }),
        Key::Down => Ok(if selected + 1 < len { selected + 1 } else { selected }),
        Key::Home => Ok(0),
        Key::End => Ok(if len > 0 { (len - 1) as nat } else { 0 }),
        Key::Enter => Err(Some(selected)),
        Key::Esc => Err(None),
        Key::Char(c) => if c == 'q' { Err(None) } else { Ok(selected) },
        Key::Ctrl(c) => if c == 'c' { Err(None) } else { Ok(selected) },
        _ => Ok(selected),
    }
}

/// What a key does in a selection list.
pub enum MenuStep {
    /// The list stays open with this item selected.
    Select(usize),
    /// The list closes with this result.
    Close(PopupResult),
}

/// A key in a selection list of `len` items: arrows move, Home and End jump,
/// Enter chooses, Esc, `q` and Ctrl+C dismiss.
pub fn menu_key(selected: usize, key: Key, len: usize) -> (r: MenuStep)
    ensures
        r matches MenuStep::Select(s) ==> menu_step(selected as nat, key, len as nat) == Ok::<nat, Option<nat>>(s as nat),
        r matches MenuStep::Close(PopupResult::Selected(s)) ==> menu_step(selected as nat, key, len as nat) == Err::<nat, Option<nat>>(Some(s as nat)),
        r matches MenuStep::Close(PopupResult::Dismissed) ==> menu_step(selected as nat, key, len as nat) == Err::<nat, Option<nat>>(None),
        !(r matches MenuStep::Close(PopupResult::Text(_))),
{
    match key {
        Key::Up => MenuStep::Select(if selected > 0 { selected - 1 } else { selected }),
        Key::Down => MenuStep::Select(if len > 0 && selected < len - 1 { selected + 1 } else { selected }),
        Key::Home => MenuStep::Select(0),
        Key::End => MenuStep::Select(if len > 0 { len - 1 } else { 0 }),
        Key::Enter => MenuStep::Close(PopupResult::Selected(selected)),
        Key::Esc => MenuStep::Close(PopupResult::Dismissed),
        Key::Char(c) => if c == 'q' { MenuStep::Close(PopupResult::Dismissed) } else { MenuStep::Select(selected) },
        Key::Ctrl(c) => if c == 'c' { MenuStep::Close(PopupResult::Dismissed) } else { MenuStep::Select(selected) },
        _ => MenuStep::Select(selected),
    }
}

/// The first visible item, moved just enough to show `selected` among
/// `visible` rows.
pub fn menu_scroll(selected: usize, scroll: usize, visible: usize) -> (r: usize)
    requires
        visible > 0,
    ensures
        r <= selected < r + visible,
        selected < scroll ==> r == selected,
        scroll <= selected < scroll + visible ==> r == scroll,
        selected >= scroll + visible ==> r + visible == selected + 1,
{
    if selected < scroll {
        selected
    } else if selected - scroll >= visible {
        selected - visible + 1
    } else {
        scroll
    }
}

/// A text field: its characters and the cursor position.
pub struct TextInput {
    chars: Vec<char>,
    cursor: usize,
}

/// The field after an editing key (text, cursor), or `Err` with the dialog's
/// result when the key ends it (`Some` text for Enter).
pub open spec fn input_step(t: Seq<char>, cur: nat, key: Key) -> Result<(Seq<char>, nat), Option<Seq<char>>> {
    match key {
        Key::Enter => Err(Some(t)),
        Key::Esc => Err(None),
        Key::Ctrl(c) => if c == 'c' { Err(None) } else { Ok((t, cur)) },
        Key::Backspace => if cur > 0 { Ok((t.remove(cur - 1), (cur - 1) as nat)) } else { Ok((t, cur)) },
        Key::Delete => if cur < t.len() { Ok((t.remove(cur as int), cur)) } else { Ok((t, cur)) },
        Key::Left => Ok((t, if cur > 0 { (cur - 1) as nat } else { cur })),
        Key::Right => Ok((t, if cur < t.len() { cur + 1 } else { cur })),
        Key::Home => Ok((t, 0)),
        Key::End => Ok((t, t.len())),
        Key::Char(c) => Ok((t.insert(cur as int, c), cur + 1)),
        _ => Ok((t, cur)),
    }
}

impl TextInput {
    /// The cursor lies within the text or just after it.
    pub closed spec fn wf(&self) -> bool {
        self.cursor <= self.chars@.len()
    }

    pub closed spec fn text(&self) -> Seq<char> {
        self.chars@
    }

    pub closed spec fn spec_cursor(&self) -> nat {
        self.cursor as nat
    }

    /// A field holding `default`, the cursor at its end.
    pub fn new(default: &str) -> (r: TextInput)
        ensures
            r.wf(),
            r.text() == default@,
            r.spec_cursor() == default@.len(),
    {
        let chars = chars_of(default);
        let cursor = chars.len();
        TextInput { chars, cursor }
    }

    pub fn cursor(&self) -> (r: usize)
        ensures
            r == self.spec_cursor(),
    {
        self.cursor
    }

    /// The field's text.
    pub fn value(&self) -> (r: String)
        ensures
            r@ == self.text(),
    {
        let mut s = String::new();
        push_all(&mut s, &self.chars);
        s
    }

    /// Applies a key: Enter hands back the text, Esc and Ctrl+C dismiss;
    /// Backspace and Delete remove around the cursor; Left, Right, Home and
    /// End move it; a character is inserted at it.
    pub fn key(&mut self, key: Key) -> (r: Option<PopupResult>)
        requires
            old(self).wf(),
        ensures
            final(self).wf(),
            r is None ==> input_step(old(self).text(), old(self).spec_cursor(), key) == Ok::<(Seq<char>, nat), Option<Seq<char>>>((final(self).text(), final(self).spec_cursor())),
            r matches Some(PopupResult::Text(s)) ==> input_step(old(self).text(), old(self).spec_cursor(), key) == Err::<(Seq<char>, nat), Option<Seq<char>>>(Some(s@)),
            r matches Some(PopupResult::Dismissed) ==> input_step(old(self).text(), old(self).spec_cursor(), key) == Err::<(Seq<char>, nat), Option<Seq<char>>>(None),
            !(r matches Some(PopupResult::Selected(_))),
    {
        match key {
            Key::Enter => {
                return Some(PopupResult::Text(self.value()));
            },
            Key::Esc => {
                return Some(PopupResult::Dismissed);
            },
            Key::Ctrl(c) => {
                if c == 'c' {
                    return Some(PopupResult::Dismissed);
                }
            },
            Key::Backspace => {
                if self.cursor > 0 {
                    self.chars.remove(self.cursor - 1);
                    self.cursor = self.cursor - 1;
                }
            },
            Key::Delete => {
                if self.cursor < self.chars.len() {
                    self.chars.remove(self.cursor);
                }
            },
            Key::Left => {
                if self.cursor > 0 {
                    self.cursor = self.cursor - 1;
                }
            },
            Key::Right => {
                if self.cursor < self.chars.len() {
                    self.cursor = self.cursor + 1;
                }
            },
            Key::Home => {
                self.cursor = 0;
            },
            Key::End => {
                self.cursor = self.chars.len();
            },
            Key::Char(c) => {
                self.chars.insert(self.cursor, c);
                let n = self.chars.len();
                assert(self.cursor < n);
                self.cursor = self.cursor + 1;
            },
            _ => {},
        }
        None
    }
}

} // verus!
