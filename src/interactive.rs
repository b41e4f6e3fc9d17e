//! A single-list line viewer: a cursor over loaded lines, moved by keys.

use vstd::prelude::*;
use crate::colorizer::Colorizer;
use crate::filter::LineFilter;
use crate::keys::Key;
use crate::tracker::strings_view;
use crate::chars::push_char;
use crate::theme::push_decimal;

verus! {

/// The cursor position and pause state of a viewer.
pub struct ViewerState {
    pub current: nat,
    pub paused: bool,
}

/// The index of the last line, or 0 when there is none.
pub open spec fn last_index(len: nat) -> nat {
    if len > 0 {
        (len - 1) as nat
    } else {
        0
    }
}

/// The movement key that a letter stands for: `k` up, `j` down, `g` home,
/// `G` end.
pub open spec fn alias_key(key: Key) -> Key {
    match key {
        Key::Char(c) => if c == 'k' {
            Key::Up
        } else if c == 'j' {
            Key::Down
        } else if c == 'g' {
            Key::Home
        } else if c == 'G' {
            Key::End
        } else {
            key
        },
        _ => key,
    }
}

/// The state after `key` over `len` lines, and whether the key quits.
pub open spec fn viewer_step(s: ViewerState, key: Key, len: nat) -> (ViewerState, bool) {
    let last = last_index(len);
    match alias_key(key) {
        Key::Esc => (s, true),
        Key::Up => (ViewerState { current: if s.current > 0 { (s.current - 1) as nat } else { 0 }, ..s }, false),
        Key::Down => (ViewerState { current: if s.current < last { s.current + 1 } else { s.current }, ..s }, false),
        Key::Home => (ViewerState { current: 0, ..s }, false),
        Key::End => (ViewerState { current: last, ..s }, false),
        Key::PageUp => (ViewerState { current: if s.current > 10 { (s.current - 10) as nat } else { 0 }, ..s }, false),
        Key::PageDown => (ViewerState { current: if s.current + 10 < last { s.current + 10 } else { last }, ..s }, false),
        Key::Char(c) => if c == 'q' {
            (s, true)
        } else if c == ' ' {
            (ViewerState { paused: !s.paused, ..s }, false)
        } else {
            (s, false)
        },
        _ => (s, false),
    }
}

/// Browses a fixed list of lines.
pub struct InteractiveMode {
    lines: Vec<String>,
    current_line: usize,
    paused: bool,
    colorizer: Colorizer,
    filter: LineFilter,
}

impl InteractiveMode {
    #[verifier::type_invariant]
    spec fn inv(&self) -> bool {
        self.current_line as nat <= last_index(self.lines@.len())
    }

    pub closed spec fn state(&self) -> ViewerState {
        ViewerState { current: self.current_line as nat, paused: self.paused }
    }

    pub closed spec fn spec_lines(&self) -> Seq<Seq<char>> {
        strings_view(self.lines@)
    }

    pub closed spec fn spec_colorizer(&self) -> Colorizer {
        self.colorizer
    }

    pub closed spec fn spec_filter(&self) -> LineFilter {
        self.filter
    }

    pub fn new(lines: Vec<String>, colorizer: Colorizer, filter: LineFilter) -> (r: InteractiveMode)
        ensures
            r.state() == (ViewerState { current: 0, paused: false }),
            r.spec_lines() == strings_view(lines@),
            r.spec_colorizer() == colorizer,
            r.spec_filter() == filter,
    {
        InteractiveMode { lines, current_line: 0, paused: false, colorizer, filter }
    }

    /// Applies a key; returns whether it quits. `q`/Esc quit; space toggles
    /// the pause; Up/`k`, Down/`j` move by one; Home/`g`, End/`G` go to the
    /// first and last line; PageUp and PageDown move by ten. The cursor stays
    /// on a line.
    pub fn handle_key_event(&mut self, key: Key) -> (quit: bool)
        ensures
            (final(self).state(), quit) == viewer_step(old(self).state(), key, old(self).spec_lines().len()),
            final(self).spec_lines() == old(self).spec_lines(),
            final(self).spec_colorizer() == old(self).spec_colorizer(),
            final(self).spec_filter() == old(self).spec_filter(),
    {
        let key = match key {
            Key::Char(c) => if c == 'k' {
                Key::Up
            } else if c == 'j' {
                Key::Down
            } else if c == 'g' {
                Key::Home
            } else if c == 'G' {
                Key::End
            } else {
                key
            },
            _ => key,
        };
        proof {
            use_type_invariant(&*self);
        }
        let last = if self.lines.len() > 0 { self.lines.len() - 1 } else { 0 };
        match key {
            Key::Esc => return true,
            Key::Char(c) => {
                if c == 'q' {
                    return true;
                }
                if c == ' ' {
                    self.paused = !self.paused;
                }
            },
            Key::Up => {
                if self.current_line > 0 {
                    self.current_line = self.current_line - 1;
                }
            },
            Key::Down => {
                if self.current_line < last {
                    self.current_line = self.current_line + 1;
                }
            },
            Key::Home => {
                self.current_line = 0;
            },
            Key::End => {
                self.current_line = last;
            },
            Key::PageUp => {
                self.current_line = self.current_line.saturating_sub(10);
            },
            Key::PageDown => {
                self.current_line = if self.current_line < last && 10 < last - self.current_line {
                    self.current_line + 10
                } else {
                    last
                };
            },
            _ => {},
        }
        false
    }

    /// The lines `start..end` shown in `height` rows: the cursor line sits in
    /// the middle when it can.
    pub fn visible_range(&self, height: usize) -> (r: (usize, usize))
        ensures
            r.0 == (if self.state().current > height / 2 { self.state().current - height / 2 } else { 0 }),
            r.1 == (if r.0 + height < self.spec_lines().len() { r.0 + height } else { self.spec_lines().len() as int }),
    {
        let start = self.current_line.saturating_sub(height / 2);
        let end = if height < self.lines.len() && start < self.lines.len() - height {
            start + height
        } else {
            self.lines.len()
        };
        (start, end)
    }

    /// Line `idx` as shown: styled when the filter shows it, otherwise the raw
    /// line after `(filtered) `.
    pub fn display_line(&self, idx: usize) -> (r: String)
        requires
            idx < self.spec_lines().len(),
        ensures
            r@ == if self.spec_filter().spec_shows(self.spec_lines()[idx as int]) {
                self.spec_colorizer().styled(self.spec_lines()[idx as int])
            } else {
                "(filtered) "@ + self.spec_lines()[idx as int]
            },
    {
        let line = self.lines[idx].as_str();
        if self.filter.should_show_line(line) {
            self.colorizer.colorize_line(line)
        } else {
            let mut out = String::from_str("(filtered) ");
            out.append(line);
            out
        }
    }

    /// The status text: the cursor's line number, the count, and whether
    /// the view is paused.
    pub fn status_text(&self) -> (r: String)
        ensures
            r@ == " Line "@ + crate::theme::decimal(self.state().current + 1) + seq!['/'] + crate::theme::decimal(
                self.spec_lines().len(),
            ) + " | "@ + (if self.state().paused {
                "PAUSED"@
            } else {
                "RUNNING"@
            }) + " | Press 'q' to quit, SPACE to pause, arrows to navigate "@,
    {
        proof {
            use_type_invariant(self);
        }
        let n = self.lines.len();
        assert(self.current_line < n || n == 0);
        let mut out = String::from_str(" Line ");
        push_decimal(&mut out, (self.current_line + 1) as u64);
        push_char(&mut out, '/');
        push_decimal(&mut out, self.lines.len() as u64);
        out.append(" | ");
        if self.paused {
            out.append("PAUSED");
        } else {
            out.append("RUNNING");
        }
        out.append(" | Press 'q' to quit, SPACE to pause, arrows to navigate ");
        out
    }

    pub fn is_paused(&self) -> (r: bool)
        ensures
            r == self.state().paused,
    {
        self.paused
    }

    pub fn current_line(&self) -> (r: usize)
        ensures
            r == self.state().current,
    {
        self.current_line
    }

    pub fn line_count(&self) -> (r: usize)
        ensures
            r == self.spec_lines().len(),
    {
        self.lines.len()
    }
}

} // verus!
