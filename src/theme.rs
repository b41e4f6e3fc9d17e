//! Colors and compiled rule sets (themes).

use vstd::prelude::*;
use crate::ansi::{ESC, reset_seq};
use crate::chars::push_char;
use crate::pattern::Pattern;

verus! {

/// A terminal foreground color.
#[derive(Debug, Clone, Copy, PartialEq, Eq, Structural)]
pub enum Color {
    /// An index into the 256-color palette.
    Xterm256(u8),
    /// A 24-bit color.
    TrueColor { r: u8, g: u8, b: u8 },
}

/// The decimal digit `d` (for `d < 10`).
pub open spec fn digit_char(d: nat) -> char {
    if d == 0 {
        '0'
    } else if d == 1 {
        '1'
    } else if d == 2 {
        '2'
    } else if d == 3 {
        '3'
    } else if d == 4 {
        '4'
    } else if d == 5 {
        '5'
    } else if d == 6 {
        '6'
    } else if d == 7 {
        '7'
    } else if d == 8 {
        '8'
    } else {
        '9'
    }
}

/// The decimal notation of `n`, without leading zeros.
pub open spec fn decimal(n: nat) -> Seq<char>
    decreases n,
{
    if n < 10 {
        seq![digit_char(n)]
    } else {
        decimal(n / 10).push(digit_char(n % 10))
    }
}

/// `ESC [ 3 8 ; 5 ; n m`: palette foreground `n`.
pub open spec fn palette_fg(n: u8) -> Seq<char> {
    seq![ESC, '[', '3', '8', ';', '5', ';'] + decimal(n as nat) + seq!['m']
}

/// The escape sequence that selects `c` as the foreground color.
pub open spec fn fg_seq(c: Color) -> Seq<char> {
    match c {
        Color::Xterm256(n) => palette_fg(n),
        Color::TrueColor { r, g, b } => seq![ESC, '[', '3', '8', ';', '2', ';'] + decimal(r as nat)
            + seq![';'] + decimal(g as nat) + seq![';'] + decimal(b as nat) + seq!['m'],
    }
}

/// The escape sequence that selects `c` as the background color.
pub open spec fn bg_seq(c: Color) -> Seq<char> {
    match c {
        Color::Xterm256(n) => seq![ESC, '[', '4', '8', ';', '5', ';'] + decimal(n as nat) + seq!['m'],
        Color::TrueColor { r, g, b } => seq![ESC, '[', '4', '8', ';', '2', ';'] + decimal(r as nat)
            + seq![';'] + decimal(g as nat) + seq![';'] + decimal(b as nat) + seq!['m'],
    }
}

fn digit_exec(d: u8) -> (c: char)
    requires
        d < 10,
    ensures
        c == digit_char(d as nat),
{
    if d == 0 {
        '0'
    } else if d == 1 {
        '1'
    } else if d == 2 {
        '2'
    } else if d == 3 {
        '3'
    } else if d == 4 {
        '4'
    } else if d == 5 {
        '5'
    } else if d == 6 {
        '6'
    } else if d == 7 {
        '7'
    } else if d == 8 {
        '8'
    } else {
        '9'
    }
}

/// Appends the decimal notation of `n`.
pub(crate) fn push_decimal(out: &mut String, n: u64)
    ensures
        final(out)@ == old(out)@ + decimal(n as nat),
    decreases n,
{
    if n >= 10 {
        push_decimal(out, n / 10);
    }
    push_char(out, digit_exec((n % 10) as u8));
    assert(out@ =~= old(out)@ + decimal(n as nat));
}

/// Appends each character of `t`.
pub(crate) fn push_all(out: &mut String, t: &Vec<char>)
    ensures
        final(out)@ == old(out)@ + t@,
{
    let mut i: usize = 0;
    while i < t.len()
        invariant
            i <= t.len(),
            out@ == old(out)@ + t@.take(i as int),
        decreases t.len() - i,
    {
        push_char(out, t[i]);
        i += 1;
        assert(out@ =~= old(out)@ + t@.take(i as int));
    }
    assert(t@.take(t@.len() as int) =~= t@);
}

/// Appends `ESC [ p 8 ; k ;`, the common start of the color sequences
/// (`p` is `3` for foreground, `4` for background).
fn push_color_start(out: &mut String, p: char, k: char)
    ensures
        final(out)@ == old(out)@ + seq![ESC, '[', p, '8', ';', k, ';'],
{
    push_char(out, ESC);
    push_char(out, '[');
    push_char(out, p);
    push_char(out, '8');
    push_char(out, ';');
    push_char(out, k);
    push_char(out, ';');
    assert(out@ =~= old(out)@ + seq![ESC, '[', p, '8', ';', k, ';']);
}

/// Appends the color `c` after the start `ESC [ p 8 ;`.
fn push_color(out: &mut String, p: char, c: Color)
    ensures
        p == '3' ==> final(out)@ == old(out)@ + fg_seq(c),
        p == '4' ==> final(out)@ == old(out)@ + bg_seq(c),
{
    let ghost o = out@;
    match c {
        Color::Xterm256(n) => {
            push_color_start(out, p, '5');
            push_decimal(out, n as u64);
            push_char(out, 'm');
            assert(p == '3' ==> out@ =~= o + fg_seq(c));
            assert(p == '4' ==> out@ =~= o + bg_seq(c));
        },
        Color::TrueColor { r, g, b } => {
            push_color_start(out, p, '2');
            push_decimal(out, r as u64);
            push_char(out, ';');
            push_decimal(out, g as u64);
            push_char(out, ';');
            push_decimal(out, b as u64);
            push_char(out, 'm');
            assert(p == '3' ==> out@ =~= o + fg_seq(c));
            assert(p == '4' ==> out@ =~= o + bg_seq(c));
        },
    }
}

/// Appends the background sequence of `c`.
pub(crate) fn push_bg(out: &mut String, c: Color)
    ensures
        final(out)@ == old(out)@ + bg_seq(c),
{
    push_color(out, '4', c);
}

/// Appends the foreground sequence of `c`.
pub(crate) fn push_fg(out: &mut String, c: Color)
    ensures
        final(out)@ == old(out)@ + fg_seq(c),
{
    push_color(out, '3', c);
}

impl Color {
    /// The escape sequence that selects this color as the foreground.
    pub fn to_ansi_fg(&self) -> (r: String)
        ensures
            r@ == fg_seq(*self),
    {
        let mut out = String::new();
        push_fg(&mut out, *self);
        assert(out@ =~= fg_seq(*self));
        out
    }

    /// The sequence that resets every style attribute.
    pub fn to_ansi_reset() -> (r: &'static str)
        ensures
            r@ == reset_seq(),
    {
        proof {
            reveal_strlit("\x1b[0m");
        }
        "\x1b[0m"
    }
}

/// A pattern with the color that its matches take.
#[derive(Debug)]
pub struct ColorRule {
    pub pattern: Pattern,
    pub color: Color,
    pub original_pattern: String,
}

/// A compiled rule set: rules for whole lines and for words, and optional
/// base and status-bar colors.
#[derive(Debug)]
pub struct Theme {
    pub name: String,
    pub base_color: Option<u8>,
    pub statusbar_bg: Option<Color>,
    pub statusbar_fg: Option<Color>,
    pub line_rules: Vec<ColorRule>,
    pub word_rules: Vec<ColorRule>,
}

/// What a rule says: its pattern source and its color.
pub open spec fn rule_view(r: ColorRule) -> (Seq<char>, Color) {
    (r.pattern@, r.color)
}

pub open spec fn rules_view(rs: Seq<ColorRule>) -> Seq<(Seq<char>, Color)> {
    rs.map_values(|r: ColorRule| rule_view(r))
}

/// The sequence that selects the base color, if any.
pub open spec fn base_seq(base: Option<u8>) -> Seq<char> {
    match base {
        Some(n) => palette_fg(n),
        None => seq![],
    }
}

impl Theme {
    /// The sequence that selects the base color, or the empty string when
    /// the theme has none.
    pub fn get_base_color_ansi(&self) -> (r: String)
        ensures
            r@ == base_seq(self.base_color),
    {
        let mut out = String::new();
        match self.base_color {
            Some(n) => {
                push_fg(&mut out, Color::Xterm256(n));
            },
            None => {},
        }
        assert(out@ =~= base_seq(self.base_color));
        out
    }
}

} // verus!
