//! Frame composition: terminal rows divided among panes, each pane its
//! content rows (most recent line last) and a status row, the whole frame
//! framed by synchronized-update markers so it shows at once.

use vstd::prelude::*;
use crate::ansi::{ESC, padded, highlighted, pad_to_width, highlight_matches};
use crate::chars::{chars_of, char_ranges, push_char};
use crate::pattern::regex_spans;
use crate::theme::{Color, decimal, push_decimal, push_all, push_fg, push_bg, fg_seq, bg_seq};
use crate::tracker::{FileTracker, TrackerView};

verus! {

/// Height of pane `p` of `n` over `rows` rows: an equal share, the last pane
/// also taking the remainder.
pub open spec fn pane_height(rows: nat, n: nat, p: nat) -> nat {
    if p + 1 == n {
        rows / n + rows % n
    } else {
        rows / n
    }
}

/// The heights of the `n` panes.
pub fn pane_heights(rows: usize, n: usize) -> (r: Vec<usize>)
    requires
        n > 0,
    ensures
        r@.len() == n,
        forall|p: int| 0 <= p < n ==> r@[p] == pane_height(rows as nat, n as nat, p as nat),
{
    let base = rows / n;
    let mut out: Vec<usize> = Vec::new();
    let mut p: usize = 0;
    while p < n
        invariant
            p <= n,
            n > 0,
            base == rows / n,
            out@.len() == p,
            forall|q: int| 0 <= q < p ==> out@[q] == pane_height(rows as nat, n as nat, q as nat),
        decreases n - p,
    {
        if p + 1 == n {
            proof {
                assert(base + rows % n <= rows) by {
                    vstd::arithmetic::div_mod::lemma_fundamental_div_mod(rows as int, n as int);
                    assert(base * n >= base) by (nonlinear_arith)
                        requires n >= 1, base >= 0;
                }
            }
            out.push(base + rows % n);
        } else {
            out.push(base);
        }
        p += 1;
    }
    out
}

/// The sequence that moves the cursor to the start of row `row` (from 0).
pub open spec fn move_to(row: nat) -> Seq<char> {
    seq![ESC, '['] + decimal(row + 1) + seq![';', '1', 'H']
}

/// Begin synchronized update: `ESC [ ? 2 0 2 6 h`.
pub open spec fn begin_sync() -> Seq<char> {
    seq![ESC, '[', '?', '2', '0', '2', '6', 'h']
}

/// End synchronized update: `ESC [ ? 2 0 2 6 l`.
pub open spec fn end_sync() -> Seq<char> {
    seq![ESC, '[', '?', '2', '0', '2', '6', 'l']
}

/// Two-digit decimal of `n < 100`.
pub open spec fn two_digits(n: nat) -> Seq<char> {
    if n < 10 {
        seq!['0'] + decimal(n)
    } else {
        decimal(n)
    }
}

/// `HH:MM:SS` of the time of day (UTC) of `secs` seconds after the epoch.
pub open spec fn clock_text(secs: nat) -> Seq<char> {
    two_digits((secs / 3600) % 24) + seq![':'] + two_digits((secs / 60) % 60) + seq![':'] + two_digits(
        secs % 60,
    )
}

/// Left field of a status row: the pane's number, the path and the
/// indicators that apply.
pub open spec fn status_left(label: nat, v: TrackerView, filtered: bool, searching: bool) -> Seq<char> {
    seq![' '] + decimal(label) + seq![':', ' '] + v.path + (if v.paused {
        " [PAUSED]"@
    } else {
        seq![]
    }) + (if filtered {
        " [FILTER]"@
    } else {
        seq![]
    }) + (if searching {
        " [SEARCH]"@
    } else {
        seq![]
    })
}

/// Right field of a status row: the running line count and the time of the
/// last update.
pub open spec fn status_right(v: TrackerView) -> Seq<char> {
    decimal(v.total) + " lines | "@ + clock_text(v.last_update) + seq![' ']
}

/// The status text: both fields apart by as many spaces as fill `width`, or
/// by one space when they do not fit (the row then cuts it to the width).
pub open spec fn status_text(left: Seq<char>, right: Seq<char>, width: nat) -> Seq<char> {
    if left.len() + right.len() < width {
        left + Seq::new((width - left.len() - right.len()) as nat, |_i: int| ' ') + right
    } else {
        left + seq![' '] + right
    }
}

/// What content row `k` of a pane with `h` content rows shows: the styled
/// line that falls there when the most recent line is on the last row,
/// highlighted when a search is active; nothing above the oldest line.
pub open spec fn content_text(v: TrackerView, search: Option<Seq<char>>, h: nat, k: nat) -> Seq<char> {
    let n = v.raw.len();
    if n + k >= h {
        let i = n + k - h;
        match search {
            Some(p) => highlighted(v.styled[i], char_ranges(v.raw[i], regex_spans(p, v.raw[i]))),
            None => v.styled[i],
        }
    } else {
        seq![]
    }
}

/// Content rows `k..h` of a pane whose first row is `top`.
pub open spec fn content_rows(
    v: TrackerView,
    search: Option<Seq<char>>,
    top: nat,
    h: nat,
    width: nat,
    k: nat,
) -> Seq<char>
    decreases h - k,
{
    if k >= h {
        seq![]
    } else {
        move_to(top + k) + padded(content_text(v, search, h, k), width) + content_rows(
            v,
            search,
            top,
            h,
            width,
            k + 1,
        )
    }
}

/// A pane of height `height` from row `top`: its content rows, then its status
/// row.
pub open spec fn pane_text(
    v: TrackerView,
    search: Option<Seq<char>>,
    status: Seq<char>,
    top: nat,
    height: nat,
    width: nat,
) -> Seq<char> {
    if height == 0 {
        seq![]
    } else {
        content_rows(v, search, top, (height - 1) as nat, width, 0) + move_to((top + height - 1) as nat)
            + padded(status, width)
    }
}

/// The status text of tracker `t` shown with number `label`.
pub open spec fn tracker_status(t: FileTracker, label: nat, width: nat) -> Seq<char> {
    status_text(
        status_left(label, t@, t.filter_override() is Some, t.search_source() is Some),
        status_right(t@),
        width,
    )
}

/// The sequences that give the status bar its colors, when the theme has
/// them.
pub open spec fn bar_style(fg: Option<Color>, bg: Option<Color>) -> Seq<char> {
    (match fg {
        Some(c) => fg_seq(c),
        None => seq![],
    }) + (match bg {
        Some(c) => bg_seq(c),
        None => seq![],
    })
}

/// The sequences that give the status bar its colors.
pub fn status_style(fg: Option<Color>, bg: Option<Color>) -> (r: String)
    ensures
        r@ == bar_style(fg, bg),
{
    let mut out = String::new();
    match fg {
        Some(c) => push_fg(&mut out, c),
        None => {},
    }
    match bg {
        Some(c) => push_bg(&mut out, c),
        None => {},
    }
    assert(out@ =~= bar_style(fg, bg));
    out
}

/// Panes `p..` of the frame, the pane `p` starting at row `top`; `style`
/// colors the status rows.
pub open spec fn panes_from(
    ts: Seq<FileTracker>,
    shown: Seq<usize>,
    rows: nat,
    width: nat,
    style: Seq<char>,
    p: nat,
    top: nat,
) -> Seq<char>
    decreases shown.len() - p,
{
    if p >= shown.len() {
        seq![]
    } else {
        let t = ts[shown[p as int] as int];
        let h = pane_height(rows, shown.len(), p);
        pane_text(t@, t.search_source(), style + tracker_status(t, (shown[p as int] + 1) as nat, width), top, h, width)
            + panes_from(ts, shown, rows, width, style, p + 1, top + h)
    }
}

/// The whole frame for the trackers at the indices `shown`, in that order,
/// the status rows in the bar colors `fg` and `bg`.
pub open spec fn frame(
    ts: Seq<FileTracker>,
    shown: Seq<usize>,
    rows: nat,
    width: nat,
    fg: Option<Color>,
    bg: Option<Color>,
) -> Seq<char> {
    begin_sync() + panes_from(ts, shown, rows, width, bar_style(fg, bg), 0, 0) + end_sync()
}

fn push_lit(out: &mut String, lit: &str)
    ensures
        final(out)@ == old(out)@ + lit@,
{
    let cs = chars_of(lit);
    push_all(out, &cs);
}

fn push_move_to(out: &mut String, row: usize)
    requires
        row < usize::MAX,
    ensures
        final(out)@ == old(out)@ + move_to(row as nat),
{
    push_char(out, ESC);
    push_char(out, '[');
    push_decimal(out, (row + 1) as u64);
    push_char(out, ';');
    push_char(out, '1');
    push_char(out, 'H');
    assert(out@ =~= old(out)@ + move_to(row as nat));
}

fn push_two_digits(out: &mut String, n: u64)
    requires
        n < 100,
    ensures
        final(out)@ == old(out)@ + two_digits(n as nat),
{
    if n < 10 {
        push_char(out, '0');
    }
    push_decimal(out, n);
    assert(out@ =~= old(out)@ + two_digits(n as nat));
}

/// The time of day of `secs` as `HH:MM:SS` (UTC).
pub fn format_clock(secs: u64) -> (r: String)
    ensures
        r@ == clock_text(secs as nat),
{
    let mut out = String::new();
    push_two_digits(&mut out, (secs / 3600) % 24);
    push_char(&mut out, ':');
    push_two_digits(&mut out, (secs / 60) % 60);
    push_char(&mut out, ':');
    push_two_digits(&mut out, secs % 60);
    assert(out@ =~= clock_text(secs as nat));
    out
}

/// The status text of a tracker shown with number `label`, for a row of
/// `width` columns.
pub fn status_row(t: &FileTracker, label: u64, width: usize) -> (r: String)
    ensures
        r@ == tracker_status(*t, label as nat, width as nat),
{
    let mut left = String::new();
    push_char(&mut left, ' ');
    push_decimal(&mut left, label);
    push_char(&mut left, ':');
    push_char(&mut left, ' ');
    left.append(t.path());
    if t.is_paused() {
        push_lit(&mut left, " [PAUSED]");
    }
    if t.has_filter() {
        push_lit(&mut left, " [FILTER]");
    }
    if t.search().is_some() {
        push_lit(&mut left, " [SEARCH]");
    }
    assert(left@ =~= status_left(label as nat, t@, t.filter_override() is Some, t.search_source() is Some));
    let mut right = String::new();
    push_decimal(&mut right, t.total_lines());
    push_lit(&mut right, " lines | ");
    let clock = format_clock(t.last_update());
    right.append(clock.as_str());
    push_char(&mut right, ' ');
    assert(right@ =~= status_right(t@));
    let lc = chars_of(left.as_str());
    let rc = chars_of(right.as_str());
    let mut out = String::new();
    push_all(&mut out, &lc);
    if lc.len() < width && rc.len() < width - lc.len() {
        let fill = width - lc.len() - rc.len();
        let mut k: usize = 0;
        while k < fill
            invariant
                k <= fill,
                out@ == left@ + Seq::new(k as nat, |_i: int| ' '),
            decreases fill - k,
        {
            push_char(&mut out, ' ');
            k += 1;
            assert(out@ =~= left@ + Seq::new(k as nat, |_i: int| ' '));
        }
    } else {
        push_char(&mut out, ' ');
    }
    push_all(&mut out, &rc);
    assert(out@ =~= status_text(left@, right@, width as nat));
    out
}

/// The text of content row `k` of a pane with `h` content rows.
fn content_line(t: &FileTracker, h: usize, k: usize) -> (r: String)
    requires
        t.wf(),
        k < h,
    ensures
        r@ == content_text(t@, t.search_source(), h as nat, k as nat),
{
    let raw = t.raw_lines();
    let styled = t.styled_lines();
    let n = raw.len();
    if n >= h - k {
        let i = n - (h - k);
        assert(raw@[i as int]@ == t@.raw[i as int]);
        assert(styled@[i as int]@ == t@.styled[i as int]);
        match t.search() {
            Some(p) => highlight_matches(styled[i].as_str(), raw[i].as_str(), p),
            None => styled[i].clone(),
        }
    } else {
        String::new()
    }
}

/// Writes one pane into `out`.
fn push_pane(out: &mut String, t: &FileTracker, label: u64, style: &str, top: usize, height: usize, width: usize)
    requires
        t.wf(),
        top + height < usize::MAX,
    ensures
        final(out)@ == old(out)@ + pane_text(t@, t.search_source(), style@ + tracker_status(*t, label as nat, width as nat), top as nat, height as nat, width as nat),
{
    if height == 0 {
        assert(out@ =~= old(out)@ + seq![]);
        return;
    }
    let h = height - 1;
    let ghost w = width as nat;
    let ghost search = t.search_source();
    let ghost o = out@;
    let mut k: usize = 0;
    while k < h
        invariant
            k <= h,
            h + 1 == height,
            top + height < usize::MAX,
            t.wf(),
            w == width as nat,
            search == t.search_source(),
            out@ + content_rows(t@, search, top as nat, h as nat, w, k as nat) == o + content_rows(t@, search, top as nat, h as nat, w, 0),
        decreases h - k,
    {
        let ghost before = out@;
        push_move_to(out, top + k);
        let line = content_line(t, h, k);
        let row = pad_to_width(line.as_str(), width);
        out.append(row.as_str());
        assert(out@ + content_rows(t@, search, top as nat, h as nat, w, (k + 1) as nat)
            =~= before + content_rows(t@, search, top as nat, h as nat, w, k as nat));
        k += 1;
    }
    assert(content_rows(t@, search, top as nat, h as nat, w, k as nat) == Seq::<char>::empty());
    assert(out@ =~= o + content_rows(t@, search, top as nat, h as nat, w, 0));
    push_move_to(out, top + h);
    let status = status_row(t, label, width);
    let mut styled = String::from_str(style);
    styled.append(status.as_str());
    let row = pad_to_width(styled.as_str(), width);
    out.append(row.as_str());
    assert(out@ =~= o + pane_text(t@, t.search_source(), style@ + tracker_status(*t, label as nat, width as nat), top as nat, height as nat, width as nat));
}

/// One full-screen frame for the trackers at the indices `shown` (in that
/// order), over `rows` rows of `width` columns, between the begin and end
/// synchronized-update markers.
pub fn render_frame(
    trackers: &Vec<FileTracker>,
    shown: &Vec<usize>,
    rows: usize,
    width: usize,
    bar_fg: Option<Color>,
    bar_bg: Option<Color>,
) -> (r: String)
    requires
        shown@.len() > 0,
        rows < usize::MAX,
        forall|p: int| 0 <= p < shown@.len() ==> #[trigger] shown@[p] < trackers@.len(),
        forall|i: int| 0 <= i < trackers@.len() ==> (#[trigger] trackers@[i]).wf(),
    ensures
        r@ == frame(trackers@, shown@, rows as nat, width as nat, bar_fg, bar_bg),
{
    let style = status_style(bar_fg, bar_bg);
    let ghost sty = style@;
    let mut out = String::new();
    push_char(&mut out, ESC);
    push_lit(&mut out, "[?2026h");
    proof {
        reveal_strlit("[?2026h");
    }
    assert(out@ =~= begin_sync());
    let heights = pane_heights(rows, shown.len());
    let n = shown.len();
    let ghost ts = trackers@;
    let ghost sh = shown@;
    let ghost w = width as nat;
    let base = rows / n;
    let tn = trackers.len();
    let mut top: usize = 0;
    let mut p: usize = 0;
    assert(out@ + panes_from(ts, sh, rows as nat, w, sty, 0, 0) =~= begin_sync() + panes_from(ts, sh, rows as nat, w, sty, 0, 0));
    while p < n
        invariant
            p <= n,
            n == shown@.len(),
            n > 0,
            base == rows / n,
            rows < usize::MAX,
            p < n ==> top == p * base,
            tn == trackers@.len(),
            top <= rows,
            ts == trackers@,
            sh == shown@,
            w == width as nat,
            sty == style@,
            sty == bar_style(bar_fg, bar_bg),
            heights@.len() == n,
            forall|q: int| 0 <= q < n ==> heights@[q] == pane_height(rows as nat, n as nat, q as nat),
            forall|q: int| 0 <= q < shown@.len() ==> #[trigger] shown@[q] < trackers@.len(),
            forall|i: int| 0 <= i < trackers@.len() ==> (#[trigger] trackers@[i]).wf(),
            out@ + panes_from(ts, sh, rows as nat, w, sty, p as nat, top as nat) == begin_sync() + panes_from(ts, sh, rows as nat, w, sty, 0, 0),
        decreases n - p,
    {
        let idx = shown[p];
        let h = heights[p];
        proof {
            vstd::arithmetic::div_mod::lemma_fundamental_div_mod(rows as int, n as int);
            assert(p * base + base <= n * base) by (nonlinear_arith)
                requires p < n, base >= 0;
            assert(n * base == base * n) by (nonlinear_arith);
            assert((p + 1) * base == p * base + base) by (nonlinear_arith);
            assert(top + h <= rows);
        }
        let label: u64 = (idx + 1) as u64;
        let ghost before = out@;
        push_pane(&mut out, &trackers[idx], label, style.as_str(), top, h, width);
        assert(out@ + panes_from(ts, sh, rows as nat, w, sty, (p + 1) as nat, (top + h) as nat)
            =~= before + panes_from(ts, sh, rows as nat, w, sty, p as nat, top as nat));
        top = top + h;
        p += 1;
    }
    push_char(&mut out, ESC);
    push_lit(&mut out, "[?2026l");
    proof {
        reveal_strlit("[?2026l");
    }
    assert(panes_from(ts, sh, rows as nat, w, sty, p as nat, top as nat) == Seq::<char>::empty());
    assert(out@ =~= frame(trackers@, shown@, rows as nat, width as nat, bar_fg, bar_bg));
    out
}

} // verus!
