//! Decisions of the event loop over the whole set of trackers.

use vstd::prelude::*;
use crate::tracker::{FileTracker, TrackerView};

verus! {

/// What one poll of one tracker did.
#[derive(Debug, Clone, Copy, PartialEq, Eq, Structural)]
pub struct PollReport {
    pub rotated: bool,
    pub appended: bool,
}

/// Whether a frame must be drawn again: some tracker rotated or took new
/// lines.
pub open spec fn dirty(reports: Seq<PollReport>) -> bool {
    exists|i: int| 0 <= i < reports.len() && ((#[trigger] reports[i]).rotated || reports[i].appended)
}

/// Whether the polls of this tick call for a new frame.
pub fn frame_dirty(reports: &Vec<PollReport>) -> (r: bool)
    ensures
        r == dirty(reports@),
{
    let mut i: usize = 0;
    while i < reports.len()
        invariant
            i <= reports.len(),
            forall|j: int| 0 <= j < i ==> !(#[trigger] reports@[j]).rotated && !reports@[j].appended,
        decreases reports.len() - i,
    {
        if reports[i].rotated || reports[i].appended {
            return true;
        }
        i += 1;
    }
    false
}

/// The panes to show: only pane `single` when it names a tracker, else all.
pub fn shown_panes(n: usize, single: Option<usize>) -> (r: Vec<usize>)
    ensures
        (single matches Some(i) && i < n) ==> r@ == seq![single->0],
        !(single matches Some(i) && i < n) ==> r@.len() == n && forall|k: int| 0 <= k < n ==> r@[k] == k,
{
    match single {
        Some(i) => {
            if i < n {
                return vec![i];
            }
        },
        None => {},
    }
    let mut out: Vec<usize> = Vec::new();
    let mut k: usize = 0;
    while k < n
        invariant
            k <= n,
            out@.len() == k,
            forall|j: int| 0 <= j < k ==> out@[j] == j,
        decreases n - k,
    {
        out.push(k);
        k += 1;
    }
    out
}

/// The full-screen pane after tracker `removed` is deleted: none if it was
/// that one, one less if it came after it.
pub fn single_after_removal(single: Option<usize>, removed: usize) -> (r: Option<usize>)
    ensures
        r == match single {
            Some(i) => if i == removed {
                None
            } else if i > removed {
                Some((i - 1) as usize)
            } else {
                Some(i)
            },
            None => None,
        },
{
    match single {
        Some(i) => if i == removed {
            None
        } else if i > removed {
            Some(i - 1)
        } else {
            Some(i)
        },
        None => None,
    }
}

/// Pauses running trackers and resumes paused ones, each on its own.
pub fn toggle_pause_all(ts: &mut Vec<FileTracker>)
    ensures
        final(ts)@.len() == old(ts)@.len(),
        forall|i: int| 0 <= i < old(ts)@.len() ==> (#[trigger] final(ts)@[i])@ == (TrackerView {
            paused: !old(ts)@[i]@.paused,
            ..old(ts)@[i]@
        }),
        forall|i: int| 0 <= i < old(ts)@.len() ==> (#[trigger] final(ts)@[i]).filter_override() == old(ts)@[i].filter_override(),
        forall|i: int| 0 <= i < old(ts)@.len() ==> (#[trigger] final(ts)@[i]).search_source() == old(ts)@[i].search_source(),
{
    let ghost start = ts@;
    let mut i: usize = 0;
    while i < ts.len()
        invariant
            i <= ts@.len(),
            ts@.len() == start.len(),
            start == old(ts)@,
            forall|j: int| 0 <= j < i ==> (#[trigger] ts@[j])@ == (TrackerView { paused: !start[j]@.paused, ..start[j]@ }),
            forall|j: int| 0 <= j < i ==> (#[trigger] ts@[j]).filter_override() == start[j].filter_override(),
            forall|j: int| 0 <= j < i ==> (#[trigger] ts@[j]).search_source() == start[j].search_source(),
            forall|j: int| i <= j < ts@.len() ==> ts@[j] == start[j],
        decreases ts@.len() - i,
    {
        ts[i].toggle_pause();
        i += 1;
    }
}

/// Empties the buffers of every tracker.
pub fn clear_all(ts: &mut Vec<FileTracker>)
    requires
        forall|i: int| 0 <= i < old(ts)@.len() ==> (#[trigger] old(ts)@[i]).wf(),
    ensures
        final(ts)@.len() == old(ts)@.len(),
        forall|i: int| 0 <= i < old(ts)@.len() ==> (#[trigger] final(ts)@[i]).wf(),
        forall|i: int| 0 <= i < old(ts)@.len() ==> (#[trigger] final(ts)@[i])@ == (TrackerView {
            raw: seq![],
            styled: seq![],
            ..old(ts)@[i]@
        }),
        forall|i: int| 0 <= i < old(ts)@.len() ==> (#[trigger] final(ts)@[i]).filter_override() == old(ts)@[i].filter_override(),
        forall|i: int| 0 <= i < old(ts)@.len() ==> (#[trigger] final(ts)@[i]).search_source() == old(ts)@[i].search_source(),
{
    let ghost start = ts@;
    let mut i: usize = 0;
    while i < ts.len()
        invariant
            i <= ts@.len(),
            ts@.len() == start.len(),
            start == old(ts)@,
            forall|j: int| 0 <= j < start.len() ==> (#[trigger] start[j]).wf(),
            forall|j: int| 0 <= j < i ==> (#[trigger] ts@[j]).wf(),
            forall|j: int| 0 <= j < i ==> (#[trigger] ts@[j])@ == (TrackerView { raw: seq![], styled: seq![], ..start[j]@ }),
            forall|j: int| 0 <= j < i ==> (#[trigger] ts@[j]).filter_override() == start[j].filter_override(),
            forall|j: int| 0 <= j < i ==> (#[trigger] ts@[j]).search_source() == start[j].search_source(),
            forall|j: int| i <= j < ts@.len() ==> ts@[j] == start[j],
        decreases ts@.len() - i,
    {
        ts[i].clear_buffers();
        i += 1;
    }
}

} // verus!
