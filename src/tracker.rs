//! One tracked file: read position, identity, pause state and the bounded
//! scrollback of raw and styled lines.
//!
//! The tracker owns no file handle. Each poll runs in steps: the caller
//! reports what it observed on disk (the identity at the path, the size), the
//! tracker says what to do next (rotate, read from its offset, reset after a
//! truncation), and the caller hands back the lines it read.

use vstd::prelude::*;
use crate::colorizer::Colorizer;
use crate::filter::LineFilter;
use crate::pattern::Pattern;

verus! {

/// Stable identity of an underlying file (device and inode).
#[derive(Debug, Clone, Copy, PartialEq, Eq, Structural)]
pub struct Identity {
    pub device: u64,
    pub inode: u64,
}

/// The last `cap` items of `s` (all of them when there are fewer).
pub open spec fn keep_last<A>(s: Seq<A>, cap: nat) -> Seq<A> {
    if s.len() > cap {
        s.skip(s.len() - cap)
    } else {
        s
    }
}

/// The buffer `b` after each line of `lines` that `show` accepts has been
/// styled by `style` and pushed, keeping the last `cap` entries.
pub open spec fn fed(
    b: Seq<Seq<char>>,
    lines: Seq<Seq<char>>,
    cap: nat,
    show: spec_fn(Seq<char>) -> bool,
    style: spec_fn(Seq<char>) -> Seq<char>,
) -> Seq<Seq<char>>
    decreases lines.len(),
{
    if lines.len() == 0 {
        b
    } else {
        let p = fed(b, lines.drop_last(), cap, show, style);
        if show(lines.last()) {
            keep_last(p.push(style(lines.last())), cap)
        } else {
            p
        }
    }
}

/// The number of lines of `lines` that `show` accepts.
pub open spec fn accepted(lines: Seq<Seq<char>>, show: spec_fn(Seq<char>) -> bool) -> nat
    decreases lines.len(),
{
    if lines.len() == 0 {
        0
    } else {
        accepted(lines.drop_last(), show) + if show(lines.last()) {
            1nat
        } else {
            0nat
        }
    }
}

pub open spec fn unstyled() -> spec_fn(Seq<char>) -> Seq<char> {
    |l: Seq<char>| l
}

pub open spec fn styled_by(c: Colorizer) -> spec_fn(Seq<char>) -> Seq<char> {
    |l: Seq<char>| c.styled(l)
}

pub open spec fn shown_by(f: LineFilter) -> spec_fn(Seq<char>) -> bool {
    |l: Seq<char>| f.spec_shows(l)
}

pub open spec fn add_capped(a: nat, n: nat) -> nat {
    if a + n > u64::MAX {
        u64::MAX as nat
    } else {
        a + n
    }
}

pub open spec fn strings_view(v: Seq<String>) -> Seq<Seq<char>> {
    v.map_values(|s: String| s@)
}

/// Pushing a line onto a buffer already cut to its last `cap` entries, then
/// cutting again, is cutting the whole history once.
pub proof fn lemma_keep_last_push<A>(s: Seq<A>, x: A, cap: nat)
    ensures
        keep_last(keep_last(s, cap).push(x), cap) == keep_last(s.push(x), cap),
{
    let k = keep_last(s, cap);
    if s.len() > cap {
        assert(keep_last(k.push(x), cap) =~= keep_last(s.push(x), cap));
    }
}

/// Feeding lines to a buffer that holds the last `cap` entries of `h` leaves
/// the last `cap` entries of `h` followed by the accepted, styled lines.
pub proof fn lemma_fed_history(
    h: Seq<Seq<char>>,
    lines: Seq<Seq<char>>,
    cap: nat,
    show: spec_fn(Seq<char>) -> bool,
    style: spec_fn(Seq<char>) -> Seq<char>,
)
    ensures
        fed(keep_last(h, cap), lines, cap, show, style) == keep_last(
            h + lines.filter(show).map_values(style),
            cap,
        ),
    decreases lines.len(),
{
    if lines.len() == 0 {
        assert(lines.filter(show) =~= seq![]) by {
            lines.lemma_filter_len(show) ;
        }
        assert(h + lines.filter(show).map_values(style) =~= h);
    } else {
        let init = lines.drop_last();
        let x = lines.last();
        lemma_fed_history(h, init, cap, show, style);
        assert(lines =~= init.push(x));
        init.lemma_filter_push(x, show);
        let prev = h + init.filter(show).map_values(style);
        if show(x) {
            lemma_keep_last_push(prev, style(x), cap);
            assert(h + lines.filter(show).map_values(style) =~= prev.push(style(x)));
        } else {
            assert(h + lines.filter(show).map_values(style) =~= prev);
        }
    }
}

/// Pushing `K` accepted lines into an empty buffer of capacity `C < K` keeps
/// exactly the last `C` of them, in order, the oldest evicted first, whatever
/// form (raw or styled) the buffer holds them in: both buffers end with the
/// same length `C`.
pub proof fn lemma_push_keeps_last(lines: Seq<Seq<char>>, cap: nat, style: spec_fn(Seq<char>) -> Seq<char>)
    requires
        lines.len() > cap,
    ensures
        fed(seq![], lines, cap, |l: Seq<char>| true, style) == lines.map_values(style).skip(lines.len() - cap),
        fed(seq![], lines, cap, |l: Seq<char>| true, style).len() == cap,
        fed(seq![], lines, cap, |l: Seq<char>| true, unstyled()) == lines.skip(lines.len() - cap),
{
    let show = |l: Seq<char>| true;
    lemma_fed_history(seq![], lines, cap, show, style);
    lemma_fed_history(seq![], lines, cap, show, unstyled());
    assert(keep_last(Seq::<Seq<char>>::empty(), cap) =~= seq![]);
    lemma_filter_all(lines, show);
    assert(lines.map_values(unstyled()) =~= lines);
    assert(Seq::<Seq<char>>::empty() + lines.map_values(style) =~= lines.map_values(style));
    assert(Seq::<Seq<char>>::empty() + lines =~= lines);
}

proof fn lemma_filter_all(lines: Seq<Seq<char>>, show: spec_fn(Seq<char>) -> bool)
    requires
        forall|l: Seq<char>| #[trigger] show(l),
    ensures
        lines.filter(show) == lines,
    decreases lines.len(),
{
    if lines.len() == 0 {
        lines.lemma_filter_len(show);
        assert(lines.filter(show) =~= lines);
    } else {
        let init = lines.drop_last();
        lemma_filter_all(init, show);
        assert(lines =~= init.push(lines.last()));
        init.lemma_filter_push(lines.last(), show);
    }
}

/// What the caller does after reporting the current size.
#[derive(Debug, Clone, Copy, PartialEq, Eq, Structural)]
pub enum SizeAction {
    /// Read the lines past the offset, then call `append_lines`.
    Read,
    /// The file shrank in place: call `truncate`.
    Truncated,
    /// Nothing to do.
    Unchanged,
}

/// The observable state of a tracker.
pub struct TrackerView {
    pub path: Seq<char>,
    pub offset: nat,
    pub identity: Option<Identity>,
    pub raw: Seq<Seq<char>>,
    pub styled: Seq<Seq<char>>,
    pub capacity: nat,
    pub total: nat,
    pub paused: bool,
    pub last_update: nat,
}

/// Whether the identity seen at the path means the file was replaced.
pub open spec fn rotation_due(v: TrackerView, disk: Option<Identity>) -> bool {
    !v.paused && disk is Some && v.identity != disk
}

/// A running tracker that follows a file at identity `a` sees a rotation once
/// the path shows another identity `b`, and none while the path shows `a` or
/// nothing at all (the new file not there yet).
pub proof fn lemma_rotation_detected(v: TrackerView, a: Identity, b: Identity)
    requires
        v.identity == Some(a),
        a != b,
        !v.paused,
    ensures
        rotation_due(v, Some(b)),
        !rotation_due(v, Some(a)),
        !rotation_due(v, None),
{
}

/// The state after a rotation to the file with identity `b`, the lines
/// `drained` from the old file being pushed first.
pub open spec fn rotated(
    v: TrackerView,
    drained: Seq<Seq<char>>,
    b: Identity,
    show: spec_fn(Seq<char>) -> bool,
    style: spec_fn(Seq<char>) -> Seq<char>,
) -> TrackerView {
    TrackerView {
        offset: 0,
        identity: Some(b),
        raw: fed(v.raw, drained, v.capacity, show, unstyled()),
        styled: fed(v.styled, drained, v.capacity, show, style),
        total: add_capped(v.total, accepted(drained, show)),
        ..v
    }
}

/// Rotation from identity `a` to `b`: it is detected; the lines left unread
/// in the old file enter the buffer before anything read from the new one;
/// the offset starts again at 0; the identity becomes `b`; the line count
/// does not go down.
pub proof fn lemma_rotation_order(
    v: TrackerView,
    a: Identity,
    b: Identity,
    drained: Seq<Seq<char>>,
    fresh: Seq<Seq<char>>,
    show: spec_fn(Seq<char>) -> bool,
    style: spec_fn(Seq<char>) -> Seq<char>,
)
    requires
        v.identity == Some(a),
        a != b,
        !v.paused,
        v.raw.len() <= v.capacity,
        v.total <= u64::MAX,
    ensures
        rotation_due(v, Some(b)),
        rotated(v, drained, b, show, style).offset == 0,
        rotated(v, drained, b, show, style).identity == Some(b),
        rotated(v, drained, b, show, style).total >= v.total,
        fed(rotated(v, drained, b, show, style).raw, fresh, v.capacity, show, unstyled()) == keep_last(
            v.raw + drained.filter(show) + fresh.filter(show),
            v.capacity,
        ),
{
    let cap = v.capacity;
    assert(keep_last(v.raw, cap) == v.raw);
    lemma_fed_history(v.raw, drained, cap, show, unstyled());
    assert(drained.filter(show).map_values(unstyled()) =~= drained.filter(show));
    let h = v.raw + drained.filter(show);
    let w = rotated(v, drained, b, show, style);
    assert(w.raw == fed(keep_last(v.raw, cap), drained, cap, show, unstyled()));
    assert(w.raw == keep_last(h, cap));
    lemma_fed_history(h, fresh, cap, show, unstyled());
    assert(fresh.filter(show).map_values(unstyled()) =~= fresh.filter(show));
    assert(fed(w.raw, fresh, cap, show, unstyled()) == keep_last(h + fresh.filter(show), cap));
}

/// What to do once the file's size is known; `rotated` says whether this poll
/// just rotated.
pub open spec fn size_action_for(v: TrackerView, size: nat, rotated: bool) -> SizeAction {
    if v.paused {
        SizeAction::Unchanged
    } else if size > v.offset {
        SizeAction::Read
    } else if size < v.offset && !rotated {
        SizeAction::Truncated
    } else {
        SizeAction::Unchanged
    }
}

/// The state after an in-place truncation; buffers are cleared when `clear`.
pub open spec fn truncated(v: TrackerView, clear: bool) -> TrackerView {
    TrackerView {
        offset: 0,
        raw: if clear { seq![] } else { v.raw },
        styled: if clear { seq![] } else { v.styled },
        ..v
    }
}

/// After a shrink below the offset with the same identity, the offset goes
/// back to 0 and (when clearing) the buffers are emptied, and the next poll
/// reads the file again from byte 0.
pub proof fn lemma_truncation_rereads(v: TrackerView, shrunk: nat, next_size: nat)
    requires
        !v.paused,
        shrunk < v.offset,
    ensures
        size_action_for(v, shrunk, false) == SizeAction::Truncated,
        truncated(v, true).offset == 0,
        truncated(v, true).raw.len() == 0,
        truncated(v, true).styled.len() == 0,
        next_size > 0 ==> size_action_for(truncated(v, true), next_size, false) == SizeAction::Read,
{
}

/// One tracked file.
pub struct FileTracker {
    path: String,
    offset: u64,
    identity: Option<Identity>,
    raw: Vec<String>,
    styled: Vec<String>,
    capacity: usize,
    total_lines: u64,
    paused: bool,
    filter: Option<LineFilter>,
    search: Option<Pattern>,
    last_update: u64,
}

impl View for FileTracker {
    type V = TrackerView;

    closed spec fn view(&self) -> TrackerView {
        TrackerView {
            path: self.path@,
            offset: self.offset as nat,
            identity: self.identity,
            raw: strings_view(self.raw@),
            styled: strings_view(self.styled@),
            capacity: self.capacity as nat,
            total: self.total_lines as nat,
            paused: self.paused,
            last_update: self.last_update as nat,
        }
    }
}

impl FileTracker {
    /// The buffers have equal length, within the capacity.
    pub open spec fn wf(&self) -> bool {
        &&& self@.raw.len() == self@.styled.len()
        &&& self@.raw.len() <= self@.capacity
    }

    /// The per-window filter, if set.
    pub closed spec fn filter_override(&self) -> Option<LineFilter> {
        self.filter
    }

    /// The source of the active search pattern, if any.
    pub closed spec fn search_source(&self) -> Option<Seq<char>> {
        match self.search {
            Some(p) => Some(p@),
            None => None,
        }
    }

    /// Whether `line` is shown, given the global filter.
    pub open spec fn shows(&self, global: LineFilter, line: Seq<char>) -> bool {
        match self.filter_override() {
            Some(f) => f.spec_shows(line),
            None => global.spec_shows(line),
        }
    }

    pub open spec fn show_fn(&self, global: LineFilter) -> spec_fn(Seq<char>) -> bool {
        match self.filter_override() {
            Some(f) => shown_by(f),
            None => shown_by(global),
        }
    }

    /// A tracker for `path`, read from `offset` on, keeping up to `capacity`
    /// lines.
    pub fn new(path: String, identity: Option<Identity>, offset: u64, capacity: usize) -> (r: FileTracker)
        ensures
            r.wf(),
            r@ == (TrackerView {
                path: path@,
                offset: offset as nat,
                identity,
                raw: seq![],
                styled: seq![],
                capacity: capacity as nat,
                total: 0,
                paused: false,
                last_update: 0,
            }),
            r.filter_override() is None,
            r.search_source() is None,
    {
        let r = FileTracker {
            path,
            offset,
            identity,
            raw: Vec::new(),
            styled: Vec::new(),
            capacity,
            total_lines: 0,
            paused: false,
            filter: None,
            search: None,
            last_update: 0,
        };
        assert(strings_view(r.raw@) =~= seq![]);
        r
    }

    /// Pushes one raw line and its styled form, evicting the oldest pair
    /// when the capacity is exceeded.
    pub fn push_line(&mut self, raw: String, styled: String)
        requires
            old(self).wf(),
        ensures
            final(self).wf(),
            final(self)@ == (TrackerView {
                raw: keep_last(old(self)@.raw.push(raw@), old(self)@.capacity),
                styled: keep_last(old(self)@.styled.push(styled@), old(self)@.capacity),
                total: add_capped(old(self)@.total, 1),
                ..old(self)@
            }),
            final(self).filter_override() == old(self).filter_override(),
            final(self).search_source() == old(self).search_source(),
    {
        let ghost r0 = strings_view(self.raw@);
        let ghost s0 = strings_view(self.styled@);
        let ghost rv = raw@;
        let ghost sv = styled@;
        self.raw.push(raw);
        self.styled.push(styled);
        assert(strings_view(self.raw@) =~= r0.push(rv));
        assert(strings_view(self.styled@) =~= s0.push(sv));
        if self.raw.len() > self.capacity {
            self.raw.remove(0);
            self.styled.remove(0);
            assert(strings_view(self.raw@) =~= keep_last(r0.push(rv), self.capacity as nat));
            assert(strings_view(self.styled@) =~= keep_last(s0.push(sv), self.capacity as nat));
        }
        self.total_lines = self.total_lines.saturating_add(1);
    }

    /// Filters, styles and pushes each line, in order.
    pub fn ingest(&mut self, lines: Vec<String>, colorizer: &Colorizer, global: &LineFilter)
        requires
            old(self).wf(),
        ensures
            final(self).wf(),
            final(self)@ == (TrackerView {
                raw: fed(
                    old(self)@.raw,
                    strings_view(lines@),
                    old(self)@.capacity,
                    old(self).show_fn(*global),
                    unstyled(),
                ),
                styled: fed(
                    old(self)@.styled,
                    strings_view(lines@),
                    old(self)@.capacity,
                    old(self).show_fn(*global),
                    styled_by(*colorizer),
                ),
                total: add_capped(old(self)@.total, accepted(strings_view(lines@), old(self).show_fn(*global))),
                ..old(self)@
            }),
            final(self).filter_override() == old(self).filter_override(),
            final(self).search_source() == old(self).search_source(),
    {
        let ghost ls = strings_view(lines@);
        let ghost show = self.show_fn(*global);
        let ghost start = self@;
        let mut i: usize = 0;
        assert(ls.take(0) =~= seq![]);
        while i < lines.len()
            invariant
                i <= lines.len(),
                self.wf(),
                ls == strings_view(lines@),
                show == self.show_fn(*global),
                self.filter_override() == old(self).filter_override(),
                self.search_source() == old(self).search_source(),
                start == old(self)@,
                self@ == (TrackerView {
                    raw: fed(start.raw, ls.take(i as int), start.capacity, show, unstyled()),
                    styled: fed(start.styled, ls.take(i as int), start.capacity, show, styled_by(*colorizer)),
                    total: add_capped(start.total, accepted(ls.take(i as int), show)),
                    ..start
                }),
            decreases lines.len() - i,
        {
            let line = &lines[i];
            let ghost next = ls.take(i + 1);
            assert(next.drop_last() =~= ls.take(i as int));
            assert(next.last() == line@);
            let shown = match &self.filter {
                Some(f) => f.should_show_line(line.as_str()),
                None => global.should_show_line(line.as_str()),
            };
            assert(shown == show(line@));
            if shown {
                let styled = colorizer.colorize_line(line.as_str());
                assert(styled_by(*colorizer)(line@) == styled@);
                let raw = line.clone();
                self.push_line(raw, styled);
            }
            i += 1;
        }
        assert(ls.take(i as int) =~= ls);
    }

    /// Whether the identity now at the path means the file was replaced. A
    /// missing identity (the new file is not there yet) is no rotation.
    pub fn needs_rotation(&self, disk: Option<Identity>) -> (r: bool)
        ensures
            r == rotation_due(self@, disk),
    {
        match disk {
            Some(d) => !self.paused && self.identity != Some(d),
            None => false,
        }
    }

    /// Rotation: the lines still unread in the old file come first, then the
    /// tracker follows the new file from byte 0 under its identity. The line
    /// count keeps growing across the change.
    pub fn rotate(&mut self, drained: Vec<String>, new_identity: Identity, colorizer: &Colorizer, global: &LineFilter)
        requires
            old(self).wf(),
        ensures
            final(self).wf(),
            final(self)@ == rotated(
                old(self)@,
                strings_view(drained@),
                new_identity,
                old(self).show_fn(*global),
                styled_by(*colorizer),
            ),
            final(self)@.total >= old(self)@.total,
            final(self).filter_override() == old(self).filter_override(),
            final(self).search_source() == old(self).search_source(),
    {
        self.ingest(drained, colorizer, global);
        self.offset = 0;
        self.identity = Some(new_identity);
    }

    /// What to do now that the file's size is known.
    pub fn size_action(&self, size: u64, rotated: bool) -> (r: SizeAction)
        ensures
            r == size_action_for(self@, size as nat, rotated),
    {
        if self.paused {
            SizeAction::Unchanged
        } else if size > self.offset {
            SizeAction::Read
        } else if size < self.offset && !rotated {
            SizeAction::Truncated
        } else {
            SizeAction::Unchanged
        }
    }

    /// Appends the lines read past the offset, moves the offset up to `size`
    /// (never down) and stamps the update time `now`.
    pub fn append_lines(&mut self, lines: Vec<String>, size: u64, now: u64, colorizer: &Colorizer, global: &LineFilter)
        requires
            old(self).wf(),
        ensures
            final(self).wf(),
            final(self)@ == (TrackerView {
                offset: if size as nat > old(self)@.offset { size as nat } else { old(self)@.offset },
                raw: fed(
                    old(self)@.raw,
                    strings_view(lines@),
                    old(self)@.capacity,
                    old(self).show_fn(*global),
                    unstyled(),
                ),
                styled: fed(
                    old(self)@.styled,
                    strings_view(lines@),
                    old(self)@.capacity,
                    old(self).show_fn(*global),
                    styled_by(*colorizer),
                ),
                total: add_capped(old(self)@.total, accepted(strings_view(lines@), old(self).show_fn(*global))),
                last_update: now as nat,
                ..old(self)@
            }),
            final(self).filter_override() == old(self).filter_override(),
            final(self).search_source() == old(self).search_source(),
    {
        self.ingest(lines, colorizer, global);
        if size > self.offset {
            self.offset = size;
        }
        self.last_update = now;
    }

    /// In-place truncation: the offset goes back to 0; the buffers are
    /// cleared when `clear` (a pane whose old content is now stale).
    pub fn truncate(&mut self, clear: bool)
        requires
            old(self).wf(),
        ensures
            final(self).wf(),
            final(self)@ == truncated(old(self)@, clear),
            final(self).filter_override() == old(self).filter_override(),
            final(self).search_source() == old(self).search_source(),
    {
        self.offset = 0;
        if clear {
            self.raw.clear();
            self.styled.clear();
            assert(strings_view(self.raw@) =~= seq![]);
            assert(strings_view(self.styled@) =~= seq![]);
        }
    }

    /// Empties both buffers.
    pub fn clear_buffers(&mut self)
        requires
            old(self).wf(),
        ensures
            final(self).wf(),
            final(self)@ == (TrackerView { raw: seq![], styled: seq![], ..old(self)@ }),
            final(self).filter_override() == old(self).filter_override(),
            final(self).search_source() == old(self).search_source(),
    {
        self.raw.clear();
        self.styled.clear();
        assert(strings_view(self.raw@) =~= seq![]);
        assert(strings_view(self.styled@) =~= seq![]);
    }

    /// Pauses a running tracker, resumes a paused one.
    pub fn toggle_pause(&mut self)
        ensures
            final(self)@ == (TrackerView { paused: !old(self)@.paused, ..old(self)@ }),
            final(self).filter_override() == old(self).filter_override(),
            final(self).search_source() == old(self).search_source(),
    {
        self.paused = !self.paused;
    }

    pub fn set_paused(&mut self, paused: bool)
        ensures
            final(self)@ == (TrackerView { paused, ..old(self)@ }),
            final(self).filter_override() == old(self).filter_override(),
            final(self).search_source() == old(self).search_source(),
    {
        self.paused = paused;
    }

    /// Sets or clears the per-window filter.
    pub fn set_filter(&mut self, filter: Option<LineFilter>)
        ensures
            final(self)@ == old(self)@,
            final(self).filter_override() == filter,
            final(self).search_source() == old(self).search_source(),
    {
        self.filter = filter;
    }

    /// Sets or clears the search pattern.
    pub fn set_search(&mut self, search: Option<Pattern>)
        ensures
            final(self)@ == old(self)@,
            final(self).filter_override() == old(self).filter_override(),
            final(self).search_source() == match search {
                Some(p) => Some(p@),
                None => None,
            },
    {
        self.search = search;
    }

    pub fn path(&self) -> (r: &str)
        ensures
            r@ == self@.path,
    {
        self.path.as_str()
    }

    pub fn offset(&self) -> (r: u64)
        ensures
            r == self@.offset,
    {
        self.offset
    }

    pub fn identity(&self) -> (r: Option<Identity>)
        ensures
            r == self@.identity,
    {
        self.identity
    }

    pub fn is_paused(&self) -> (r: bool)
        ensures
            r == self@.paused,
    {
        self.paused
    }

    pub fn total_lines(&self) -> (r: u64)
        ensures
            r == self@.total,
    {
        self.total_lines
    }

    pub fn last_update(&self) -> (r: u64)
        ensures
            r == self@.last_update,
    {
        self.last_update
    }

    pub fn has_filter(&self) -> (r: bool)
        ensures
            r == self.filter_override() is Some,
    {
        self.filter.is_some()
    }

    pub fn search(&self) -> (r: Option<&Pattern>)
        ensures
            r matches Some(p) ==> self.search_source() == Some(p@),
            r is None <==> self.search_source() is None,
    {
        match &self.search {
            Some(p) => Some(p),
            None => None,
        }
    }

    /// The raw lines, oldest first.
    pub fn raw_lines(&self) -> (r: &Vec<String>)
        ensures
            strings_view(r@) == self@.raw,
    {
        &self.raw
    }

    /// The styled lines, oldest first.
    pub fn styled_lines(&self) -> (r: &Vec<String>)
        ensures
            strings_view(r@) == self@.styled,
    {
        &self.styled
    }
}

} // verus!
