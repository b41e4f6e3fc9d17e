//! Applies a compiled rule set to plain log lines.
//!
//! Colorizing only wraps spans of the line in escape sequences: it never
//! deletes, inserts or reorders visible characters.

use vstd::prelude::*;
use crate::ansi::{ESC, covered, reset_seq, int_ranges};
use crate::chars::{chars_of, push_char, push_range, char_ranges, to_char_ranges};
use crate::pattern::{Pattern, regex_compiles, regex_spans};
use crate::theme::{Color, ColorRule, Theme, fg_seq, palette_fg, push_fg, push_all, rules_view};

verus! {

/// The expression that finds spans already styled: a color sequence, the
/// shortest text after it, and a style reset.
pub const STYLED_SPAN_SOURCE: &'static str = "\\x1b\\[[0-9;]*m.*?\\x1b\\[0m";

/// The character ranges of `text` that are already styled.
pub open spec fn styled_ranges(text: Seq<char>) -> Seq<(int, int)> {
    if regex_compiles(STYLED_SPAN_SOURCE@) {
        char_ranges(text, regex_spans(STYLED_SPAN_SOURCE@, text))
    } else {
        seq![]
    }
}

/// The sequence that follows a word match: the base color again, or the
/// default foreground `ESC [ 3 9 m`.
pub open spec fn restore_seq(base: Option<u8>) -> Seq<char> {
    match base {
        Some(n) => palette_fg(n),
        None => seq![ESC, '[', '3', '9', 'm'],
    }
}

/// `text` with each match of `ranges` from position `cursor` on wrapped in
/// `open` and `close`, unless the match starts inside a styled range. A
/// range that does not start at or after the end of the previous one is
/// passed over.
pub open spec fn replace_from(
    text: Seq<char>,
    ranges: Seq<(int, int)>,
    cursor: int,
    styled: Seq<(int, int)>,
    open: Seq<char>,
    close: Seq<char>,
) -> Seq<char>
    decreases ranges.len(),
{
    if ranges.len() == 0 {
        text.subrange(cursor, text.len() as int)
    } else {
        let (a, b) = ranges[0];
        if cursor <= a <= b <= text.len() {
            let m = text.subrange(a, b);
            let piece = if covered(a, styled) {
                m
            } else {
                open + m + close
            };
            text.subrange(cursor, a) + piece + replace_from(text, ranges.drop_first(), b, styled, open, close)
        } else {
            replace_from(text, ranges.drop_first(), cursor, styled, open, close)
        }
    }
}

/// One word rule (pattern source, color) applied to `text`.
pub open spec fn word_pass(text: Seq<char>, rule: (Seq<char>, Color), base: Option<u8>) -> Seq<char> {
    replace_from(
        text,
        char_ranges(text, regex_spans(rule.0, text)),
        0,
        styled_ranges(text),
        fg_seq(rule.1),
        restore_seq(base),
    )
}

/// The word rules from index `k` on, applied in order to `text`.
pub open spec fn words_from(text: Seq<char>, rules: Seq<(Seq<char>, Color)>, base: Option<u8>, k: int) -> Seq<char>
    decreases rules.len() - k,
{
    if k < 0 || k >= rules.len() {
        text
    } else {
        words_from(word_pass(text, rules[k], base), rules, base, k + 1)
    }
}

/// The color of the first line rule from index `k` on that matches `line`.
pub open spec fn first_line_rule(line: Seq<char>, rules: Seq<(Seq<char>, Color)>, k: int) -> Option<Color>
    decreases rules.len() - k,
{
    if k < 0 || k >= rules.len() {
        None
    } else if regex_spans(rules[k].0, line).len() > 0 {
        Some(rules[k].1)
    } else {
        first_line_rule(line, rules, k + 1)
    }
}

/// The styled form of `line` under the given rules and base color.
pub open spec fn colorized(
    line_rules: Seq<(Seq<char>, Color)>,
    word_rules: Seq<(Seq<char>, Color)>,
    base: Option<u8>,
    line: Seq<char>,
) -> Seq<char> {
    match first_line_rule(line, line_rules, 0) {
        Some(c) => fg_seq(c) + line + reset_seq(),
        None => {
            let w = words_from(line, word_rules, base, 0);
            match base {
                Some(n) => palette_fg(n) + w + reset_seq(),
                None => w,
            }
        },
    }
}

/// A line that a line rule matches is wrapped whole in that rule's color and
/// no word rule touches it: the result is the same whatever the word rules.
pub proof fn lemma_line_rule_excludes_word_rules(
    line_rules: Seq<(Seq<char>, Color)>,
    word_rules: Seq<(Seq<char>, Color)>,
    other_word_rules: Seq<(Seq<char>, Color)>,
    base: Option<u8>,
    line: Seq<char>,
)
    requires
        first_line_rule(line, line_rules, 0) is Some,
    ensures
        colorized(line_rules, word_rules, base, line) == fg_seq(first_line_rule(line, line_rules, 0)->0)
            + line + reset_seq(),
        colorized(line_rules, word_rules, base, line) == colorized(line_rules, other_word_rules, base, line),
{
}

/// Applies a theme's rules to lines.
pub struct Colorizer {
    theme: Theme,
    no_color: bool,
    styled_span: Option<Pattern>,
}

impl Colorizer {
    #[verifier::type_invariant]
    spec fn inv(&self) -> bool {
        &&& self.styled_span is Some <==> regex_compiles(STYLED_SPAN_SOURCE@)
        &&& self.styled_span matches Some(p) ==> p@ == STYLED_SPAN_SOURCE@
    }

    /// The line rules, as (pattern source, color).
    pub closed spec fn line_rules(&self) -> Seq<(Seq<char>, Color)> {
        rules_view(self.theme.line_rules@)
    }

    /// The word rules, as (pattern source, color).
    pub closed spec fn word_rules(&self) -> Seq<(Seq<char>, Color)> {
        rules_view(self.theme.word_rules@)
    }

    pub closed spec fn base_color(&self) -> Option<u8> {
        self.theme.base_color
    }

    pub closed spec fn no_color(&self) -> bool {
        self.no_color
    }

    pub closed spec fn spec_theme_name(&self) -> Seq<char> {
        self.theme.name@
    }

    /// The styled form of `line`: the line itself when colors are off.
    pub open spec fn styled(&self, line: Seq<char>) -> Seq<char> {
        if self.no_color() {
            line
        } else {
            colorized(self.line_rules(), self.word_rules(), self.base_color(), line)
        }
    }

    pub fn new(theme: Theme, no_color: bool) -> (r: Colorizer)
        ensures
            r.line_rules() == rules_view(theme.line_rules@),
            r.word_rules() == rules_view(theme.word_rules@),
            r.base_color() == theme.base_color,
            r.no_color() == no_color,
            r.spec_theme_name() == theme.name@,
    {
        let styled_span = match Pattern::compile(STYLED_SPAN_SOURCE) {
            Ok(p) => Some(p),
            Err(_) => None,
        };
        Colorizer { theme, no_color, styled_span }
    }

    /// Colorizes one line: the first line rule that matches wraps the whole
    /// line; otherwise each word rule in turn wraps its matches, and a base
    /// color, if any, wraps the result.
    pub fn colorize_line(&self, line: &str) -> (r: String)
        ensures
            r@ == self.styled(line@),
    {
        proof {
            use_type_invariant(self);
        }
        if self.no_color {
            return String::from_str(line);
        }
        let ghost lr = self.line_rules();
        let mut k: usize = 0;
        while k < self.theme.line_rules.len()
            invariant
                k <= self.theme.line_rules.len(),
                lr == rules_view(self.theme.line_rules@),
                !self.no_color,
                first_line_rule(line@, lr, 0) == first_line_rule(line@, lr, k as int),
            decreases self.theme.line_rules.len() - k,
        {
            let rule = &self.theme.line_rules[k];
            assert(lr[k as int] == (rule.pattern@, rule.color));
            if rule.pattern.is_match(line) {
                assert(first_line_rule(line@, lr, k as int) == Some(rule.color));
                return self.wrap_entire_line(line, rule.color);
            }
            k += 1;
        }
        let ghost wr = self.word_rules();
        let mut result = String::from_str(line);
        let mut j: usize = 0;
        while j < self.theme.word_rules.len()
            invariant
                j <= self.theme.word_rules.len(),
                wr == rules_view(self.theme.word_rules@),
                first_line_rule(line@, self.line_rules(), 0) is None,
                words_from(line@, wr, self.theme.base_color, 0) == words_from(result@, wr, self.theme.base_color, j as int),
            decreases self.theme.word_rules.len() - j,
        {
            result = self.apply_word_rule(result.as_str(), &self.theme.word_rules[j]);
            j += 1;
        }
        match self.theme.base_color {
            Some(n) => {
                let mut out = String::new();
                push_fg(&mut out, Color::Xterm256(n));
                out.append(result.as_str());
                push_reset(&mut out);
                out
            },
            None => result,
        }
    }

    fn wrap_entire_line(&self, line: &str, color: Color) -> (r: String)
        ensures
            r@ == fg_seq(color) + line@ + reset_seq(),
    {
        let mut out = String::new();
        push_fg(&mut out, color);
        out.append(line);
        push_reset(&mut out);
        out
    }

    /// Wraps each match of the rule in `text` in its color, followed by the
    /// restore sequence, except matches that start inside a styled span.
    fn apply_word_rule(&self, text: &str, rule: &ColorRule) -> (r: String)
        ensures
            r@ == word_pass(text@, rule_pair(rule), self.base_color()),
    {
        proof {
            use_type_invariant(self);
        }
        let cs = chars_of(text);
        let spans = rule.pattern.find_spans(text);
        let ranges = to_char_ranges(&cs, &spans);
        let styled = match &self.styled_span {
            Some(p) => {
                let s = p.find_spans(text);
                to_char_ranges(&cs, &s)
            },
            None => Vec::new(),
        };
        let mut open = String::new();
        push_fg(&mut open, rule.color);
        let close = self.restore_sequence();
        let open_cs = chars_of(open.as_str());
        let close_cs = chars_of(close.as_str());
        assert(int_ranges(ranges@) =~= char_ranges(text@, regex_spans(rule.pattern@, text@)));
        assert(int_ranges(styled@) =~= styled_ranges(text@));
        replace_ranges(&cs, &ranges, &styled, &open_cs, &close_cs)
    }

    fn restore_sequence(&self) -> (r: String)
        ensures
            r@ == restore_seq(self.base_color()),
    {
        let mut out = String::new();
        match self.theme.base_color {
            Some(n) => {
                push_fg(&mut out, Color::Xterm256(n));
            },
            None => {
                push_char(&mut out, ESC);
                push_char(&mut out, '[');
                push_char(&mut out, '3');
                push_char(&mut out, '9');
                push_char(&mut out, 'm');
            },
        }
        assert(out@ =~= restore_seq(self.base_color()));
        out
    }

    /// Whether `pos` (a character position) lies inside one of the styled
    /// spans of `text`.
    pub fn is_inside_ansi_sequence(&self, text: &str, pos: usize) -> (r: bool)
        ensures
            r == covered(pos as int, styled_ranges(text@)),
    {
        proof {
            use_type_invariant(self);
        }
        match &self.styled_span {
            Some(p) => {
                let cs = chars_of(text);
                let s = p.find_spans(text);
                let ranges = to_char_ranges(&cs, &s);
                assert(int_ranges(ranges@) =~= styled_ranges(text@));
                crate::ansi::is_covered(pos, &ranges)
            },
            None => false,
        }
    }

    pub fn theme_name(&self) -> (r: &str)
        ensures
            r@ == self.spec_theme_name(),
    {
        self.theme.name.as_str()
    }

    pub fn get_theme(&self) -> (r: &Theme)
        ensures
            rules_view(r.line_rules@) == self.line_rules(),
            rules_view(r.word_rules@) == self.word_rules(),
            r.base_color == self.base_color(),
            r.name@ == self.spec_theme_name(),
    {
        &self.theme
    }
}

/// A rule as (pattern source, color).
pub open spec fn rule_pair(r: &ColorRule) -> (Seq<char>, Color) {
    (r.pattern@, r.color)
}

fn push_reset(out: &mut String)
    ensures
        final(out)@ == old(out)@ + reset_seq(),
{
    push_char(out, ESC);
    push_char(out, '[');
    push_char(out, '0');
    push_char(out, 'm');
    assert(out@ =~= old(out)@ + reset_seq());
}

/// `cs` with each range of `ranges` (in order, each starting at or after the
/// end of the previous) wrapped in `open` and `close`, unless it starts inside
/// one of `styled`.
fn replace_ranges(
    cs: &Vec<char>,
    ranges: &Vec<(usize, usize)>,
    styled: &Vec<(usize, usize)>,
    open: &Vec<char>,
    close: &Vec<char>,
) -> (r: String)
    ensures
        r@ == replace_from(cs@, int_ranges(ranges@), 0, int_ranges(styled@), open@, close@),
{
    let ghost rs = int_ranges(ranges@);
    let ghost st = int_ranges(styled@);
    let mut out = String::new();
    let mut cursor: usize = 0;
    let mut k: usize = 0;
    assert(rs.skip(0) =~= rs);
    while k < ranges.len()
        invariant
            k <= ranges.len(),
            cursor <= cs@.len(),
            rs == int_ranges(ranges@),
            st == int_ranges(styled@),
            out@ + replace_from(cs@, rs.skip(k as int), cursor as int, st, open@, close@)
                == replace_from(cs@, rs, 0, st, open@, close@),
        decreases ranges.len() - k,
    {
        let (a, b) = ranges[k];
        let ghost t = rs.skip(k as int);
        let ghost old_out = out@;
        let ghost c0 = cursor as int;
        assert(t[0] == (a as int, b as int));
        assert(t.drop_first() =~= rs.skip(k + 1));
        if cursor <= a && a <= b && b <= cs.len() {
            push_range(&mut out, cs, cursor, a);
            if crate::ansi::is_covered(a, styled) {
                push_range(&mut out, cs, a, b);
            } else {
                push_all(&mut out, open);
                push_range(&mut out, cs, a, b);
                push_all(&mut out, close);
            }
            cursor = b;
            let ghost m = cs@.subrange(a as int, b as int);
            let ghost piece = if covered(a as int, st) {
                m
            } else {
                open@ + m + close@
            };
            assert(out@ =~= old_out + cs@.subrange(c0, a as int) + piece);
            assert(replace_from(cs@, t, c0, st, open@, close@) == cs@.subrange(c0, a as int) + piece
                + replace_from(cs@, rs.skip(k + 1), b as int, st, open@, close@));
            assert(out@ + replace_from(cs@, rs.skip(k + 1), cursor as int, st, open@, close@)
                =~= old_out + replace_from(cs@, t, c0, st, open@, close@));
        }
        k += 1;
    }
    push_range(&mut out, cs, cursor, cs.len());
    assert(out@ =~= replace_from(cs@, rs, 0, st, open@, close@));
    out
}

} // verus!
