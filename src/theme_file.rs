//! The theme file format.
//!
//! One setting per line; blank lines and lines starting with `#` are skipped.
//! `base: N` sets the base palette color; `statusbar_bg: C` and
//! `statusbar_fg: C` the status-bar colors; `line: PATTERN = C` adds a line
//! rule and `word: PATTERN = C` a word rule, split at the last `=`. A color
//! `C` is a palette index `0`..`255` or `#rrggbb`. Other lines are ignored.

use vstd::prelude::*;
use crate::chars::{chars_of, push_range};
use crate::lines::{split_lines, split_lines_spec};
use crate::pattern::{Pattern, regex_compiles};
use crate::theme::{Color, ColorRule, Theme, rules_view};

verus! {

/// What `str::trim` returns for `s`.
pub uninterp spec fn trimmed(s: Seq<char>) -> Seq<char>;

/// Relies on `str::trim`: `s` without leading and trailing white space, which
/// depends on its characters alone.
#[verifier::external_body]
fn trim_text(s: &str) -> (r: String)
    ensures
        r@ == trimmed(s@),
{
    s.trim().to_string()
}

pub open spec fn starts_with(s: Seq<char>, prefix: Seq<char>) -> bool {
    prefix.len() <= s.len() && s.take(prefix.len() as int) == prefix
}

pub open spec fn is_digit(c: char) -> bool {
    '0' <= c && c <= '9'
}

/// The value of a string of decimal digits.
pub open spec fn digits_value(s: Seq<char>) -> nat
    decreases s.len(),
{
    if s.len() == 0 {
        0
    } else {
        digits_value(s.drop_last()) * 10 + ((s.last() as u32) - ('0' as u32)) as nat
    }
}

/// A `u8` in decimal, as `str::parse` reads it: an optional `+`, then one or
/// more digits, of value at most 255.
/// The digits of a number: `s` without a leading `+`.
pub open spec fn unsigned_digits(s: Seq<char>) -> Seq<char> {
    if s.len() > 0 && s[0] == '+' {
        s.drop_first()
    } else {
        s
    }
}

/// Whether every character of `d` is a decimal digit.
pub open spec fn all_digits(d: Seq<char>) -> bool {
    forall|i: int| 0 <= i < d.len() ==> is_digit(#[trigger] d[i])
}

pub open spec fn parse_u8_spec(s: Seq<char>) -> Option<u8> {
    let d = unsigned_digits(s);
    if d.len() > 0 && all_digits(d) && digits_value(d) <= 255 {
        Some(digits_value(d) as u8)
    } else {
        None
    }
}

pub open spec fn hex_value(c: char) -> Option<nat> {
    if '0' <= c && c <= '9' {
        Some(((c as u32) - ('0' as u32)) as nat)
    } else if 'a' <= c && c <= 'f' {
        Some(((c as u32) - ('a' as u32) + 10) as nat)
    } else if 'A' <= c && c <= 'F' {
        Some(((c as u32) - ('A' as u32) + 10) as nat)
    } else {
        None
    }
}

/// Two characters read as a hexadecimal `u8`, as `u8::from_str_radix` reads
/// them: two digits, or `+` and one digit.
pub open spec fn hex_pair(a: char, b: char) -> Option<u8> {
    if a == '+' {
        match hex_value(b) {
            Some(y) => Some(y as u8),
            None => None,
        }
    } else {
        match (hex_value(a), hex_value(b)) {
            (Some(x), Some(y)) => Some((x * 16 + y) as u8),
            _ => None,
        }
    }
}

/// A color: `#` and three hexadecimal pairs, or a palette index.
pub open spec fn parse_color_spec(s: Seq<char>) -> Option<Color> {
    if s.len() > 0 && s[0] == '#' {
        if s.len() != 7 {
            None
        } else {
            match (hex_pair(s[1], s[2]), hex_pair(s[3], s[4]), hex_pair(s[5], s[6])) {
                (Some(r), Some(g), Some(b)) => Some(Color::TrueColor { r, g, b }),
                _ => None,
            }
        }
    } else {
        match parse_u8_spec(s) {
            Some(n) => Some(Color::Xterm256(n)),
            None => None,
        }
    }
}

/// The index of the last `c` in `s`, or -1.
pub open spec fn last_index_of(s: Seq<char>, c: char) -> int
    decreases s.len(),
{
    if s.len() == 0 {
        -1
    } else if s.last() == c {
        s.len() - 1
    } else {
        last_index_of(s.drop_last(), c)
    }
}

/// Why a rule line was refused.
#[derive(Debug, Clone, Copy, PartialEq, Eq, Structural)]
pub enum RuleFault {
    /// No `=` between pattern and color.
    MissingEquals,
    /// The pattern does not compile.
    InvalidPattern,
    /// The color is not a palette index or `#rrggbb`.
    InvalidColor,
}

/// A refused rule, with its line number (from 1) and whether it was a line
/// rule (else a word rule).
#[derive(Debug, Clone, Copy, PartialEq, Eq, Structural)]
pub struct ThemeError {
    pub line: usize,
    pub line_rule: bool,
    pub fault: RuleFault,
}

/// A rule's text after `line:` or `word:`, read as (pattern, color).
pub open spec fn rule_parse(content: Seq<char>) -> Result<(Seq<char>, Color), RuleFault> {
    let eq = last_index_of(content, '=');
    if eq < 0 {
        Err(RuleFault::MissingEquals)
    } else {
        let pattern = trimmed(content.take(eq));
        let color = trimmed(content.skip(eq + 1));
        if !regex_compiles(pattern) {
            Err(RuleFault::InvalidPattern)
        } else {
            match parse_color_spec(color) {
                Some(c) => Ok((pattern, c)),
                None => Err(RuleFault::InvalidColor),
            }
        }
    }
}

/// The settings read so far.
pub struct ThemeState {
    pub base: Option<u8>,
    pub bg: Option<Color>,
    pub fg: Option<Color>,
    pub line_rules: Seq<(Seq<char>, Color)>,
    pub word_rules: Seq<(Seq<char>, Color)>,
}

/// The settings after line `n` (from 1), whose text is `raw`.
pub open spec fn theme_step(st: ThemeState, raw: Seq<char>, n: nat) -> Result<ThemeState, ThemeError> {
    let l = trimmed(raw);
    if l.len() == 0 || l[0] == '#' {
        Ok(st)
    } else if starts_with(l, "base:"@) && parse_u8_spec(trimmed(l.skip(5))) is Some {
        Ok(ThemeState { base: parse_u8_spec(trimmed(l.skip(5))), ..st })
    } else if starts_with(l, "statusbar_bg:"@) {
        match parse_color_spec(trimmed(l.skip(13))) {
            Some(c) => Ok(ThemeState { bg: Some(c), ..st }),
            None => Ok(st),
        }
    } else if starts_with(l, "statusbar_fg:"@) {
        match parse_color_spec(trimmed(l.skip(13))) {
            Some(c) => Ok(ThemeState { fg: Some(c), ..st }),
            None => Ok(st),
        }
    } else if starts_with(l, "line:"@) {
        match rule_parse(l.skip(5)) {
            Ok(r) => Ok(ThemeState { line_rules: st.line_rules.push(r), ..st }),
            Err(f) => Err(ThemeError { line: n as usize, line_rule: true, fault: f }),
        }
    } else if starts_with(l, "word:"@) {
        match rule_parse(l.skip(5)) {
            Ok(r) => Ok(ThemeState { word_rules: st.word_rules.push(r), ..st }),
            Err(f) => Err(ThemeError { line: n as usize, line_rule: false, fault: f }),
        }
    } else {
        Ok(st)
    }
}

pub open spec fn empty_state() -> ThemeState {
    ThemeState { base: None, bg: None, fg: None, line_rules: seq![], word_rules: seq![] }
}

/// The settings after the first `k` lines; the first refused rule ends the
/// reading.
pub open spec fn theme_after(lines: Seq<Seq<char>>, k: nat) -> Result<ThemeState, ThemeError>
    decreases k,
{
    if k == 0 || k > lines.len() {
        Ok(empty_state())
    } else {
        match theme_after(lines, (k - 1) as nat) {
            Ok(st) => theme_step(st, lines[k - 1], k),
            Err(e) => Err(e),
        }
    }
}

/// The settings that a theme file's text gives.
pub open spec fn theme_of_text(text: Seq<char>) -> Result<ThemeState, ThemeError> {
    theme_after(split_lines_spec(text), split_lines_spec(text).len())
}

proof fn lemma_error_persists(lines: Seq<Seq<char>>, k: nat, j: nat)
    requires
        theme_after(lines, k) is Err,
        1 <= k <= j <= lines.len(),
    ensures
        theme_after(lines, j) == theme_after(lines, k),
    decreases j - k,
{
    if j > k {
        lemma_error_persists(lines, k, (j - 1) as nat);
    }
}

fn starts_with_lit(cs: &Vec<char>, lit: &str) -> (r: bool)
    ensures
        r == starts_with(cs@, lit@),
{
    let p = chars_of(lit);
    if p.len() > cs.len() {
        return false;
    }
    let mut i: usize = 0;
    while i < p.len()
        invariant
            i <= p@.len() <= cs@.len(),
            p@ == lit@,
            forall|j: int| 0 <= j < i ==> cs@[j] == p@[j],
        decreases p.len() - i,
    {
        if cs[i] != p[i] {
            assert(cs@.take(p@.len() as int)[i as int] != p@[i as int]);
            return false;
        }
        i += 1;
    }
    assert(cs@.take(p@.len() as int) =~= p@);
    true
}

proof fn lemma_digits_value_grows(s: Seq<char>, k: int)
    requires
        0 <= k <= s.len(),
        forall|i: int| 0 <= i < s.len() ==> is_digit(#[trigger] s[i]),
    ensures
        digits_value(s.take(k)) <= digits_value(s),
    decreases s.len() - k,
{
    if k < s.len() {
        lemma_digits_value_grows(s, k + 1);
        assert(s.take(k + 1).drop_last() =~= s.take(k));
    } else {
        assert(s.take(k) =~= s);
    }
}

/// Reads a `u8` in decimal, with an optional `+`.
pub fn parse_u8_text(cs: &Vec<char>) -> (r: Option<u8>)
    ensures
        r == parse_u8_spec(cs@),
{
    let ghost d = unsigned_digits(cs@);
    let start: usize = if cs.len() > 0 && cs[0] == '+' { 1 } else { 0 };
    assert(d =~= cs@.skip(start as int));
    if start >= cs.len() {
        return None;
    }
    let mut v: u64 = 0;
    let mut i: usize = start;
    assert(d.take(0) =~= seq![]);
    while i < cs.len()
        invariant
            start <= i <= cs@.len(),
            d == cs@.skip(start as int),
            d == unsigned_digits(cs@),
            v == digits_value(d.take(i - start)),
            v <= 255,
            forall|j: int| 0 <= j < i - start ==> is_digit(#[trigger] d[j]),
        decreases cs.len() - i,
    {
        let c = cs[i];
        assert(d[i - start] == c);
        if !('0' <= c && c <= '9') {
            assert(0 <= i - start < d.len());
            assert(!is_digit(d[i - start]));
            assert(!all_digits(d));
            return None;
        }
        assert(d.take(i - start + 1).drop_last() =~= d.take(i - start));
        assert(d.take(i - start + 1).last() == c);
        v = v * 10 + ((c as u32) - ('0' as u32)) as u64;
        assert(v == digits_value(d.take(i - start + 1)));
        i += 1;
        if v > 255 {
            proof {
                if all_digits(d) {
                    lemma_digits_value_grows(d, i - start);
                }
            }
            return None;
        }
    }
    assert(d.take(i - start) =~= d);
    Some(v as u8)
}

fn hex_value_exec(c: char) -> (r: Option<u8>)
    ensures
        r matches Some(v) ==> hex_value(c) == Some(v as nat),
        r is None <==> hex_value(c) is None,
{
    if '0' <= c && c <= '9' {
        Some(((c as u32) - ('0' as u32)) as u8)
    } else if 'a' <= c && c <= 'f' {
        Some(((c as u32) - ('a' as u32) + 10) as u8)
    } else if 'A' <= c && c <= 'F' {
        Some(((c as u32) - ('A' as u32) + 10) as u8)
    } else {
        None
    }
}

fn hex_pair_exec(a: char, b: char) -> (r: Option<u8>)
    ensures
        r == hex_pair(a, b),
{
    if a == '+' {
        hex_value_exec(b)
    } else {
        match (hex_value_exec(a), hex_value_exec(b)) {
            (Some(x), Some(y)) => Some(x * 16 + y),
            _ => None,
        }
    }
}

/// Reads a color: `#rrggbb` or a palette index.
pub fn parse_color_text(cs: &Vec<char>) -> (r: Option<Color>)
    ensures
        r == parse_color_spec(cs@),
{
    if cs.len() > 0 && cs[0] == '#' {
        if cs.len() != 7 {
            return None;
        }
        match (hex_pair_exec(cs[1], cs[2]), hex_pair_exec(cs[3], cs[4]), hex_pair_exec(cs[5], cs[6])) {
            (Some(r), Some(g), Some(b)) => Some(Color::TrueColor { r, g, b }),
            _ => None,
        }
    } else {
        match parse_u8_text(cs) {
            Some(n) => Some(Color::Xterm256(n)),
            None => None,
        }
    }
}

fn last_index_exec(cs: &Vec<char>, c: char) -> (r: Option<usize>)
    ensures
        r matches Some(i) ==> (i as int == last_index_of(cs@, c) && i < cs@.len()),
        r is None <==> last_index_of(cs@, c) < 0,
{
    let mut k: usize = cs.len();
    assert(cs@.take(k as int) =~= cs@);
    while k > 0
        invariant
            k <= cs@.len(),
            last_index_of(cs@.take(k as int), c) == last_index_of(cs@, c),
        decreases k,
    {
        assert(cs@.take(k as int).last() == cs@[k - 1]);
        if cs[k - 1] == c {
            return Some(k - 1);
        }
        assert(cs@.take(k as int).drop_last() =~= cs@.take(k - 1));
        k = k - 1;
    }
    None
}

fn text_of(cs: &Vec<char>, a: usize, b: usize) -> (r: String)
    requires
        a <= b <= cs@.len(),
    ensures
        r@ == cs@.subrange(a as int, b as int),
{
    let mut s = String::new();
    push_range(&mut s, cs, a, b);
    s
}

/// Reads a rule's text after `line:` or `word:`.
pub fn parse_rule(content: &Vec<char>) -> (r: Result<ColorRule, RuleFault>)
    ensures
        r matches Ok(rule) ==> rule_parse(content@) == Ok::<(Seq<char>, Color), RuleFault>((rule.pattern@, rule.color)),
        r matches Err(f) ==> rule_parse(content@) == Err::<(Seq<char>, Color), RuleFault>(f),
{
    let eq = match last_index_exec(content, '=') {
        Some(i) => i,
        None => {
            return Err(RuleFault::MissingEquals);
        },
    };
    let total = content.len();
    let before = text_of(content, 0, eq);
    let after = text_of(content, eq + 1, total);
    assert(content@.subrange(0, eq as int) =~= content@.take(eq as int));
    assert(content@.subrange(eq + 1, content@.len() as int) =~= content@.skip(eq + 1));
    let pattern_text = trim_text(before.as_str());
    let color_text = trim_text(after.as_str());
    let pattern = match Pattern::compile(pattern_text.as_str()) {
        Ok(p) => p,
        Err(_) => {
            return Err(RuleFault::InvalidPattern);
        },
    };
    let color_chars = chars_of(color_text.as_str());
    match parse_color_text(&color_chars) {
        Some(color) => Ok(ColorRule { pattern, color, original_pattern: pattern_text }),
        None => Err(RuleFault::InvalidColor),
    }
}

fn rest_after(cs: &Vec<char>, k: usize) -> (r: String)
    requires
        k <= cs@.len(),
    ensures
        r@ == cs@.skip(k as int),
{
    let s = text_of(cs, k, cs.len());
    assert(cs@.subrange(k as int, cs@.len() as int) =~= cs@.skip(k as int));
    s
}

fn trimmed_chars(s: &str) -> (r: Vec<char>)
    ensures
        r@ == trimmed(s@),
{
    let t = trim_text(s);
    chars_of(t.as_str())
}

impl Theme {
    /// Reads a theme file's text into a theme named `name`; the first refused
    /// rule line is reported with its line number.
    pub fn parse_theme_contents(contents: &str, name: String) -> (r: Result<Theme, ThemeError>)
        ensures
            r matches Ok(t) ==> (theme_of_text(contents@) matches Ok(st) && t.base_color == st.base
                && t.statusbar_bg == st.bg && t.statusbar_fg == st.fg && rules_view(t.line_rules@)
                == st.line_rules && rules_view(t.word_rules@) == st.word_rules && t.name@ == name@),
            r matches Err(e) ==> theme_of_text(contents@) == Err::<ThemeState, ThemeError>(e),
    {
        let lines = split_lines(contents);
        let ghost ls = lines@.map_values(|s: String| s@);
        let mut base_color: Option<u8> = None;
        let mut statusbar_bg: Option<Color> = None;
        let mut statusbar_fg: Option<Color> = None;
        let mut line_rules: Vec<ColorRule> = Vec::new();
        let mut word_rules: Vec<ColorRule> = Vec::new();
        let mut k: usize = 0;
        assert(rules_view(line_rules@) =~= seq![]);
        assert(rules_view(word_rules@) =~= seq![]);
        while k < lines.len()
            invariant
                k <= lines@.len(),
                ls == lines@.map_values(|s: String| s@),
                ls == split_lines_spec(contents@),
                theme_after(ls, k as nat) == Ok::<ThemeState, ThemeError>(ThemeState {
                    base: base_color,
                    bg: statusbar_bg,
                    fg: statusbar_fg,
                    line_rules: rules_view(line_rules@),
                    word_rules: rules_view(word_rules@),
                }),
            decreases lines.len() - k,
        {
            let n = k + 1;
            let l = trimmed_chars(lines[k].as_str());
            assert(ls[k as int] == lines@[k as int]@);
            proof {
                reveal_strlit("base:");
                reveal_strlit("statusbar_bg:");
                reveal_strlit("statusbar_fg:");
                reveal_strlit("line:");
                reveal_strlit("word:");
            }
            let ghost st = ThemeState {
                base: base_color,
                bg: statusbar_bg,
                fg: statusbar_fg,
                line_rules: rules_view(line_rules@),
                word_rules: rules_view(word_rules@),
            };
            if l.len() == 0 || l[0] == '#' {
            } else if starts_with_lit(&l, "base:") && parse_u8_text(&trimmed_chars(rest_after(&l, 5).as_str())).is_some() {
                base_color = parse_u8_text(&trimmed_chars(rest_after(&l, 5).as_str()));
            } else if starts_with_lit(&l, "statusbar_bg:") {
                match parse_color_text(&trimmed_chars(rest_after(&l, 13).as_str())) {
                    Some(c) => {
                        statusbar_bg = Some(c);
                    },
                    None => {},
                }
            } else if starts_with_lit(&l, "statusbar_fg:") {
                match parse_color_text(&trimmed_chars(rest_after(&l, 13).as_str())) {
                    Some(c) => {
                        statusbar_fg = Some(c);
                    },
                    None => {},
                }
            } else if starts_with_lit(&l, "line:") {
                let content = chars_of(rest_after(&l, 5).as_str());
                match parse_rule(&content) {
                    Ok(rule) => {
                        line_rules.push(rule);
                        assert(rules_view(line_rules@) =~= st.line_rules.push((rule.pattern@, rule.color)));
                    },
                    Err(f) => {
                        proof {
                            lemma_error_persists(ls, (k + 1) as nat, ls.len());
                        }
                        return Err(ThemeError { line: n, line_rule: true, fault: f });
                    },
                }
            } else if starts_with_lit(&l, "word:") {
                let content = chars_of(rest_after(&l, 5).as_str());
                match parse_rule(&content) {
                    Ok(rule) => {
                        word_rules.push(rule);
                        assert(rules_view(word_rules@) =~= st.word_rules.push((rule.pattern@, rule.color)));
                    },
                    Err(f) => {
                        proof {
                            lemma_error_persists(ls, (k + 1) as nat, ls.len());
                        }
                        return Err(ThemeError { line: n, line_rule: false, fault: f });
                    },
                }
            }
            k += 1;
        }
        Ok(Theme { name, base_color, statusbar_bg, statusbar_fg, line_rules, word_rules })
    }
}

} // verus!
