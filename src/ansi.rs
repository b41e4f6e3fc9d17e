//! Width-exact text operations over strings that carry embedded escape sequences.
//!
//! An escape sequence starts with the introducer character (ESC) and runs up to
//! and including the first ASCII letter after it. Escape sequences and control
//! characters take no terminal column; every other character takes one.

use vstd::prelude::*;
use crate::chars::{chars_of, push_char, char_ranges, to_char_ranges};
use crate::pattern::{Pattern, regex_spans};

verus! {

/// The escape-sequence introducer.
pub const ESC: char = '\x1b';

pub open spec fn is_ascii_letter(c: char) -> bool {
    ('a' <= c && c <= 'z') || ('A' <= c && c <= 'Z')
}

/// The characters of Unicode's control category (`Cc`).
pub open spec fn is_control(c: char) -> bool {
    (c as u32) < 0x20 || (0x7f <= (c as u32) && (c as u32) <= 0x9f)
}

pub open spec fn spaces(n: nat) -> Seq<char> {
    Seq::new(n, |_i: int| ' ')
}

/// The style-reset sequence `ESC [ 0 m`.
pub open spec fn reset_seq() -> Seq<char> {
    seq![ESC, '[', '0', 'm']
}

/// Number of visible columns of `t`; `esc` says whether `t` starts inside an
/// escape sequence.
pub open spec fn visible_from(t: Seq<char>, esc: bool) -> nat
    decreases t.len(),
{
    if t.len() == 0 {
        0
    } else {
        let c = t[0];
        let rest = t.drop_first();
        if esc {
            visible_from(rest, !is_ascii_letter(c))
        } else if c == ESC {
            visible_from(rest, true)
        } else if is_control(c) {
            visible_from(rest, false)
        } else {
            1 + visible_from(rest, false)
        }
    }
}

/// Number of visible columns of `t`.
pub open spec fn visible_width(t: Seq<char>) -> nat {
    visible_from(t, false)
}

/// Columns that a tab advances at column `col`: to the next multiple of four,
/// but never past `w`.
pub open spec fn tab_advance(col: nat, w: nat) -> nat {
    let step = (4 - (col % 4)) as nat;
    if col + step <= w {
        step
    } else {
        (w - col) as nat
    }
}

/// What `pad_to_width` emits for the input `t` before the reset and the
/// trailing spaces, from the state (`esc`, `col`), with width `w`.
pub open spec fn pad_out(t: Seq<char>, esc: bool, col: nat, w: nat) -> Seq<char>
    decreases t.len(),
{
    if t.len() == 0 || (!esc && col >= w) {
        seq![]
    } else {
        let c = t[0];
        let rest = t.drop_first();
        if esc {
            seq![c] + pad_out(rest, !is_ascii_letter(c), col, w)
        } else if c == ESC {
            seq![c] + pad_out(rest, true, col, w)
        } else if c == '\t' {
            let n = tab_advance(col, w);
            spaces(n) + pad_out(rest, false, col + n, w)
        } else if is_control(c) {
            pad_out(rest, false, col, w)
        } else {
            seq![c] + pad_out(rest, false, col + 1, w)
        }
    }
}

/// The column reached by `pad_out` on the same arguments.
pub open spec fn pad_col(t: Seq<char>, esc: bool, col: nat, w: nat) -> nat
    decreases t.len(),
{
    if t.len() == 0 || (!esc && col >= w) {
        col
    } else {
        let c = t[0];
        let rest = t.drop_first();
        if esc {
            pad_col(rest, !is_ascii_letter(c), col, w)
        } else if c == ESC {
            pad_col(rest, true, col, w)
        } else if c == '\t' {
            pad_col(rest, false, col + tab_advance(col, w), w)
        } else if is_control(c) {
            pad_col(rest, false, col, w)
        } else {
            pad_col(rest, false, col + 1, w)
        }
    }
}

/// The row that `pad_to_width(s, w)` produces.
pub open spec fn padded(s: Seq<char>, w: nat) -> Seq<char> {
    pad_out(s, false, 0, w) + reset_seq() + spaces((w - pad_col(s, false, 0, w)) as nat)
}

proof fn lemma_pad_col_bounds(t: Seq<char>, esc: bool, col: nat, w: nat)
    requires
        col <= w,
        esc ==> col < w,
    ensures
        col <= pad_col(t, esc, col, w) <= w,
    decreases t.len(),
{
    if t.len() == 0 || (!esc && col >= w) {
    } else {
        let c = t[0];
        let rest = t.drop_first();
        if esc {
            lemma_pad_col_bounds(rest, !is_ascii_letter(c), col, w);
        } else if c == ESC {
            lemma_pad_col_bounds(rest, true, col, w);
        } else if c == '\t' {
            lemma_pad_col_bounds(rest, false, col + tab_advance(col, w), w);
        } else if is_control(c) {
            lemma_pad_col_bounds(rest, false, col, w);
        } else {
            lemma_pad_col_bounds(rest, false, col + 1, w);
        }
    }
}

proof fn lemma_visible_spaces(n: nat, y: Seq<char>)
    ensures
        visible_from(spaces(n) + y, false) == n + visible_from(y, false),
    decreases n,
{
    let t = spaces(n) + y;
    if n > 0 {
        assert(t[0] == ' ');
        assert(t.drop_first() =~= spaces((n - 1) as nat) + y);
        lemma_visible_spaces((n - 1) as nat, y);
    } else {
        assert(t =~= y);
    }
}

proof fn lemma_visible_reset_spaces(k: nat, esc: bool)
    ensures
        visible_from(reset_seq() + spaces(k), esc) == k,
{
    let t = reset_seq() + spaces(k);
    let t1 = t.drop_first();
    let t2 = t1.drop_first();
    let t3 = t2.drop_first();
    let t4 = t3.drop_first();
    assert(t[0] == ESC);
    assert(t1[0] == '[');
    assert(t2[0] == '0');
    assert(t3[0] == 'm');
    assert(t4 =~= spaces(k) + seq![]);
    lemma_visible_spaces(k, seq![]);
    assert(spaces(k) + seq![] =~= spaces(k));
    assert(visible_from(t4, false) == k);
    assert(is_ascii_letter('m'));
    assert(!is_ascii_letter('0'));
    assert(!is_ascii_letter('['));
    assert(visible_from(t3, true) == k);
    assert(visible_from(t2, true) == k);
    assert(visible_from(t1, true) == k);
}

proof fn lemma_visible_pad(t: Seq<char>, esc: bool, col: nat, w: nat, tail: Seq<char>, k: nat)
    requires
        col <= w,
        esc ==> col < w,
        visible_from(tail, true) == k,
        visible_from(tail, false) == k,
    ensures
        visible_from(pad_out(t, esc, col, w) + tail, esc) == pad_col(t, esc, col, w) - col + k,
    decreases t.len(),
{
    lemma_pad_col_bounds(t, esc, col, w);
    if t.len() == 0 || (!esc && col >= w) {
        assert(pad_out(t, esc, col, w) + tail =~= tail);
    } else {
        let c = t[0];
        let rest = t.drop_first();
        if esc {
            let x = pad_out(rest, !is_ascii_letter(c), col, w);
            lemma_visible_pad(rest, !is_ascii_letter(c), col, w, tail, k);
            assert((seq![c] + x + tail).drop_first() =~= x + tail);
            assert((seq![c] + x) + tail =~= seq![c] + x + tail);
        } else if c == ESC {
            let x = pad_out(rest, true, col, w);
            lemma_visible_pad(rest, true, col, w, tail, k);
            assert((seq![c] + x + tail).drop_first() =~= x + tail);
        } else if c == '\t' {
            let n = tab_advance(col, w);
            let x = pad_out(rest, false, col + n, w);
            lemma_visible_pad(rest, false, col + n, w, tail, k);
            lemma_visible_spaces(n, x + tail);
            assert(spaces(n) + x + tail =~= spaces(n) + (x + tail));
        } else if is_control(c) {
            lemma_visible_pad(rest, false, col, w, tail, k);
        } else {
            let x = pad_out(rest, false, col + 1, w);
            lemma_visible_pad(rest, false, col + 1, w, tail, k);
            assert((seq![c] + x + tail).drop_first() =~= x + tail);
        }
    }
}

/// Whatever the input and the width, the padded row has exactly `w` visible
/// columns.
pub proof fn lemma_padded_width(s: Seq<char>, w: nat)
    ensures
        visible_width(padded(s, w)) == w,
{
    lemma_pad_col_bounds(s, false, 0, w);
    let k = (w - pad_col(s, false, 0, w)) as nat;
    let tail = reset_seq() + spaces(k);
    lemma_visible_reset_spaces(k, true);
    lemma_visible_reset_spaces(k, false);
    lemma_visible_pad(s, false, 0, w, tail, k);
    assert(padded(s, w) =~= pad_out(s, false, 0, w) + tail);
}

fn is_letter_exec(c: char) -> (r: bool)
    ensures
        r == is_ascii_letter(c),
{
    ('a' <= c && c <= 'z') || ('A' <= c && c <= 'Z')
}

fn is_control_exec(c: char) -> (r: bool)
    ensures
        r == is_control(c),
{
    let u = c as u32;
    u < 0x20 || (0x7f <= u && u <= 0x9f)
}

fn push_spaces(out: &mut String, n: usize)
    ensures
        final(out)@ == old(out)@ + spaces(n as nat),
{
    let mut k: usize = 0;
    while k < n
        invariant
            k <= n,
            out@ == old(out)@ + spaces(k as nat),
        decreases n - k,
    {
        push_char(out, ' ');
        k += 1;
        assert(out@ =~= old(out)@ + spaces(k as nat));
    }
}

fn push_reset(out: &mut String)
    ensures
        final(out)@ == old(out)@ + reset_seq(),
{
    push_char(out, ESC);
    push_char(out, '[');
    push_char(out, '0');
    push_char(out, 'm');
    assert(out@ =~= old(out)@ + reset_seq());
}

/// Fits `s` into exactly `width` terminal columns: escape sequences pass
/// through, tabs advance to the next stop of four, other control characters
/// are dropped, input beyond the width is discarded, and after a style reset
/// spaces fill the row up to the width.
pub fn pad_to_width(s: &str, width: usize) -> (r: String)
    ensures
        r@ == padded(s@, width as nat),
        visible_width(r@) == width,
{
    let cs = chars_of(s);
    let mut out = String::new();
    let mut col: usize = 0;
    let mut esc = false;
    let mut i: usize = 0;
    let ghost w = width as nat;
    assert(cs@.skip(0) =~= s@);
    assert(out@ + pad_out(s@, false, 0, w) =~= pad_out(s@, false, 0, w));
    while i < cs.len() && (esc || col < width)
        invariant
            i <= cs.len(),
            cs@ == s@,
            w == width as nat,
            col <= width,
            esc ==> col < width,
            out@ + pad_out(cs@.skip(i as int), esc, col as nat, w) == pad_out(s@, false, 0, w),
            pad_col(cs@.skip(i as int), esc, col as nat, w) == pad_col(s@, false, 0, w),
        decreases cs.len() - i,
    {
        let c = cs[i];
        let ghost t = cs@.skip(i as int);
        let ghost esc0 = esc;
        let ghost col0 = col as nat;
        assert(t[0] == c);
        assert(t.drop_first() =~= cs@.skip(i + 1));
        let ghost old_out = out@;
        if esc {
            push_char(&mut out, c);
            esc = !is_letter_exec(c);
            assert(pad_out(t, esc0, col0, w) == seq![c] + pad_out(cs@.skip(i + 1), esc, col as nat, w));
            assert(old_out + seq![c] + pad_out(cs@.skip(i + 1), esc, col as nat, w)
                =~= old_out + (seq![c] + pad_out(cs@.skip(i + 1), esc, col as nat, w)));
        } else if c == ESC {
            push_char(&mut out, c);
            esc = true;
            assert(pad_out(t, esc0, col0, w) == seq![c] + pad_out(cs@.skip(i + 1), esc, col as nat, w));
            assert(old_out + seq![c] + pad_out(cs@.skip(i + 1), esc, col as nat, w)
                =~= old_out + (seq![c] + pad_out(cs@.skip(i + 1), esc, col as nat, w)));
        } else if c == '\t' {
            let step: usize = 4 - col % 4;
            let n: usize = if step <= width - col { step } else { width - col };
            assert(col0 % 4 == (col % 4) as nat);
            assert(step as nat == (4 - (col0 % 4)) as nat);
            assert(n as nat == tab_advance(col0, w));
            push_spaces(&mut out, n);
            col = col + n;
            assert(pad_out(t, esc0, col0, w) == spaces(n as nat) + pad_out(cs@.skip(i + 1), esc, col as nat, w));
            assert(old_out + spaces(n as nat) + pad_out(cs@.skip(i + 1), esc, col as nat, w)
                =~= old_out + (spaces(n as nat) + pad_out(cs@.skip(i + 1), esc, col as nat, w)));
        } else if is_control_exec(c) {
            assert(pad_out(t, esc0, col0, w) == pad_out(cs@.skip(i + 1), esc, col as nat, w));
        } else {
            push_char(&mut out, c);
            col = col + 1;
            assert(pad_out(t, esc0, col0, w) == seq![c] + pad_out(cs@.skip(i + 1), esc, col as nat, w));
            assert(old_out + seq![c] + pad_out(cs@.skip(i + 1), esc, col as nat, w)
                =~= old_out + (seq![c] + pad_out(cs@.skip(i + 1), esc, col as nat, w)));
        }
        i += 1;
    }
    assert(out@ =~= pad_out(s@, false, 0, w)) by {
        assert(out@ + seq![] =~= out@);
    }
    push_reset(&mut out);
    push_spaces(&mut out, width - col);
    proof {
        lemma_padded_width(s@, w);
    }
    out
}

/// The reverse-video sequence `ESC [ 7 m`.
pub open spec fn reverse_on() -> Seq<char> {
    seq![ESC, '[', '7', 'm']
}

/// The sequence `ESC [ 2 7 m`, which ends reverse video.
pub open spec fn reverse_off() -> Seq<char> {
    seq![ESC, '[', '2', '7', 'm']
}

/// Whether the visible position `pos` lies in one of the ranges.
pub open spec fn covered(pos: int, ranges: Seq<(int, int)>) -> bool {
    exists|k: int| 0 <= k < ranges.len() && (#[trigger] ranges[k]).0 <= pos < ranges[k].1
}

/// The ranges of `v` over `int`.
pub open spec fn int_ranges(v: Seq<(usize, usize)>) -> Seq<(int, int)> {
    v.map_values(|p: (usize, usize)| (p.0 as int, p.1 as int))
}

/// What highlighting emits for `t` from the state (`esc`: inside an escape
/// sequence, `pos`: visible position, `on`: reverse video is on). Every
/// character of `t` is kept; reverse video is switched on before the first
/// visible character of a covered run and off before the first visible
/// character after it, or at the end.
pub open spec fn highlight_from(t: Seq<char>, esc: bool, pos: int, on: bool, ranges: Seq<(int, int)>) -> Seq<char>
    decreases t.len(),
{
    if t.len() == 0 {
        if on {
            reverse_off()
        } else {
            seq![]
        }
    } else {
        let c = t[0];
        let rest = t.drop_first();
        if esc {
            seq![c] + highlight_from(rest, !is_ascii_letter(c), pos, on, ranges)
        } else if c == ESC {
            seq![c] + highlight_from(rest, true, pos, on, ranges)
        } else if is_control(c) {
            seq![c] + highlight_from(rest, false, pos, on, ranges)
        } else {
            let cov = covered(pos, ranges);
            let toggle = if cov && !on {
                reverse_on()
            } else if !cov && on {
                reverse_off()
            } else {
                seq![]
            };
            toggle + seq![c] + highlight_from(rest, false, pos + 1, cov, ranges)
        }
    }
}

/// `styled` with the visible positions covered by `ranges` (character
/// positions) in reverse video.
pub open spec fn highlighted(styled: Seq<char>, ranges: Seq<(int, int)>) -> Seq<char> {
    highlight_from(styled, false, 0, false, ranges)
}

pub(crate) fn is_covered(pos: usize, ranges: &Vec<(usize, usize)>) -> (r: bool)
    ensures
        r == covered(pos as int, int_ranges(ranges@)),
{
    let mut k: usize = 0;
    while k < ranges.len()
        invariant
            k <= ranges.len(),
            forall|j: int| 0 <= j < k ==> !((#[trigger] ranges@[j]).0 <= pos < ranges@[j].1),
        decreases ranges.len() - k,
    {
        let (a, b) = ranges[k];
        if a <= pos && pos < b {
            assert(int_ranges(ranges@)[k as int] == (a as int, b as int));
            return true;
        }
        k += 1;
    }
    assert forall|j: int| 0 <= j < int_ranges(ranges@).len() implies !((#[trigger] int_ranges(ranges@)[j]).0 <= pos
        < int_ranges(ranges@)[j].1) by {
        assert(int_ranges(ranges@)[j] == (ranges@[j].0 as int, ranges@[j].1 as int));
    }
    false
}

fn push_reverse_on(out: &mut String)
    ensures
        final(out)@ == old(out)@ + reverse_on(),
{
    push_char(out, ESC);
    push_char(out, '[');
    push_char(out, '7');
    push_char(out, 'm');
    assert(out@ =~= old(out)@ + reverse_on());
}

fn push_reverse_off(out: &mut String)
    ensures
        final(out)@ == old(out)@ + reverse_off(),
{
    push_char(out, ESC);
    push_char(out, '[');
    push_char(out, '2');
    push_char(out, '7');
    push_char(out, 'm');
    assert(out@ =~= old(out)@ + reverse_off());
}

/// Puts the visible positions of `styled` that `ranges` (character positions)
/// cover in reverse video, keeping every character and escape sequence.
pub fn highlight_ranges(styled: &str, ranges: &Vec<(usize, usize)>) -> (r: String)
    ensures
        r@ == highlighted(styled@, int_ranges(ranges@)),
{
    let cs = chars_of(styled);
    let ghost rs = int_ranges(ranges@);
    let mut out = String::new();
    let mut esc = false;
    let mut on = false;
    let mut pos: usize = 0;
    let mut i: usize = 0;
    assert(cs@.skip(0) =~= styled@);
    assert(out@ + highlighted(styled@, rs) =~= highlighted(styled@, rs));
    while i < cs.len()
        invariant
            i <= cs.len(),
            pos <= i,
            cs@ == styled@,
            rs == int_ranges(ranges@),
            out@ + highlight_from(cs@.skip(i as int), esc, pos as int, on, rs) == highlighted(styled@, rs),
        decreases cs.len() - i,
    {
        let c = cs[i];
        let ghost t = cs@.skip(i as int);
        let ghost old_out = out@;
        let ghost (esc0, pos0, on0) = (esc, pos as int, on);
        assert(t[0] == c);
        assert(t.drop_first() =~= cs@.skip(i + 1));
        if esc {
            push_char(&mut out, c);
            esc = !is_letter_exec(c);
            assert(highlight_from(t, esc0, pos0, on0, rs) == seq![c] + highlight_from(cs@.skip(i + 1), esc, pos as int, on, rs));
        } else if c == ESC {
            push_char(&mut out, c);
            esc = true;
            assert(highlight_from(t, esc0, pos0, on0, rs) == seq![c] + highlight_from(cs@.skip(i + 1), esc, pos as int, on, rs));
        } else if is_control_exec(c) {
            push_char(&mut out, c);
            assert(highlight_from(t, esc0, pos0, on0, rs) == seq![c] + highlight_from(cs@.skip(i + 1), esc, pos as int, on, rs));
        } else {
            let cov = is_covered(pos, ranges);
            let ghost toggle = if cov && !on {
                reverse_on()
            } else if !cov && on {
                reverse_off()
            } else {
                seq![]
            };
            if cov && !on {
                push_reverse_on(&mut out);
            } else if !cov && on {
                push_reverse_off(&mut out);
            }
            assert(out@ =~= old_out + toggle);
            push_char(&mut out, c);
            pos = pos + 1;
            on = cov;
            assert(highlight_from(t, esc0, pos0, on0, rs) == toggle + seq![c] + highlight_from(cs@.skip(i + 1), esc, pos as int, on, rs));
            assert(out@ + highlight_from(cs@.skip(i + 1), esc, pos as int, on, rs) =~= old_out + (toggle + seq![c] + highlight_from(cs@.skip(i + 1), esc, pos as int, on, rs)));
        }
        assert(out@ + highlight_from(cs@.skip(i + 1), esc, pos as int, on, rs) =~= old_out + highlight_from(t, esc0, pos0, on0, rs));
        i += 1;
    }
    assert(cs@.skip(i as int) =~= Seq::<char>::empty());
    if on {
        push_reverse_off(&mut out);
    }
    assert(out@ =~= highlighted(styled@, rs));
    out
}

/// Puts in reverse video the visible positions of `styled_line` that a match
/// of `pattern` covers in `raw_line`, the same line before styling.
pub fn highlight_matches(styled_line: &str, raw_line: &str, pattern: &Pattern) -> (r: String)
    ensures
        r@ == highlighted(styled_line@, char_ranges(raw_line@, regex_spans(pattern@, raw_line@))),
{
    let spans = pattern.find_spans(raw_line);
    let raw = chars_of(raw_line);
    let ranges = to_char_ranges(&raw, &spans);
    assert(int_ranges(ranges@) =~= char_ranges(raw_line@, regex_spans(pattern@, raw_line@)));
    highlight_ranges(styled_line, &ranges)
}

} // verus!
