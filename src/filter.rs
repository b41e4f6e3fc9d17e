//! Which lines to show: keep and skip patterns and a severity threshold.

use vstd::prelude::*;
use crate::chars::chars_of;
use crate::pattern::{Pattern, regex_compiles, regex_spans};
use crate::tracker::{keep_last, strings_view};

verus! {

/// Severity levels, most severe first.
#[derive(Debug, Clone, Copy, PartialEq, Eq, Structural)]
pub enum LogLevel {
    Emergency,
    Alert,
    Critical,
    Error,
    Warning,
    Notice,
    Info,
    Debug,
}

/// What `str::to_uppercase` returns for `s`.
pub uninterp spec fn upper_of(s: Seq<char>) -> Seq<char>;

/// Relies on `str::to_uppercase`: the upper-case form of `s`, which depends on
/// its characters alone.
#[verifier::external_body]
pub(crate) fn to_upper(s: &str) -> (r: String)
    ensures
        r@ == upper_of(s@),
{
    s.to_uppercase()
}

/// Whether `needle` occurs in `hay`.
pub open spec fn contains(hay: Seq<char>, needle: Seq<char>) -> bool {
    exists|i: int| 0 <= i && i + needle.len() <= hay.len() && #[trigger] hay.subrange(i, i + needle.len()) == needle
}

/// The level that an upper-case level name stands for.
pub open spec fn level_of_name(u: Seq<char>) -> Option<LogLevel> {
    if u == "EMERG"@ || u == "EMERGENCY"@ {
        Some(LogLevel::Emergency)
    } else if u == "ALERT"@ {
        Some(LogLevel::Alert)
    } else if u == "CRIT"@ || u == "CRITICAL"@ {
        Some(LogLevel::Critical)
    } else if u == "ERR"@ || u == "ERROR"@ {
        Some(LogLevel::Error)
    } else if u == "WARN"@ || u == "WARNING"@ {
        Some(LogLevel::Warning)
    } else if u == "NOTICE"@ {
        Some(LogLevel::Notice)
    } else if u == "INFO"@ {
        Some(LogLevel::Info)
    } else if u == "DEBUG"@ || u == "TRACE"@ {
        Some(LogLevel::Debug)
    } else {
        None
    }
}

/// The level detected in an upper-case line: the most severe whose token
/// occurs in it.
pub open spec fn detect_in_upper(u: Seq<char>) -> Option<LogLevel> {
    if contains(u, "EMERG"@) || contains(u, "EMERGENCY"@) {
        Some(LogLevel::Emergency)
    } else if contains(u, "ALERT"@) {
        Some(LogLevel::Alert)
    } else if contains(u, "CRIT"@) || contains(u, "CRITICAL"@) {
        Some(LogLevel::Critical)
    } else if contains(u, "ERROR"@) || contains(u, "ERR"@) {
        Some(LogLevel::Error)
    } else if contains(u, "WARN"@) || contains(u, "WARNING"@) {
        Some(LogLevel::Warning)
    } else if contains(u, "NOTICE"@) {
        Some(LogLevel::Notice)
    } else if contains(u, "INFO"@) {
        Some(LogLevel::Info)
    } else if contains(u, "DEBUG"@) || contains(u, "TRACE"@) {
        Some(LogLevel::Debug)
    } else {
        None
    }
}

/// The level detected in `line`, whatever its case.
pub open spec fn detected_level(line: Seq<char>) -> Option<LogLevel> {
    detect_in_upper(upper_of(line))
}

pub open spec fn priority_of(l: LogLevel) -> nat {
    match l {
        LogLevel::Emergency => 0,
        LogLevel::Alert => 1,
        LogLevel::Critical => 2,
        LogLevel::Error => 3,
        LogLevel::Warning => 4,
        LogLevel::Notice => 5,
        LogLevel::Info => 6,
        LogLevel::Debug => 7,
    }
}

/// Whether a line passes the threshold `target`: its detected level is at
/// least as severe, or, with no level detected, the threshold is Info or
/// Debug.
pub open spec fn passes_level(line: Seq<char>, target: LogLevel) -> bool {
    match detected_level(line) {
        Some(d) => priority_of(d) <= priority_of(target),
        None => target == LogLevel::Info || target == LogLevel::Debug,
    }
}

/// With the threshold Error, a line passes exactly when it is detected as
/// Emergency, Alert, Critical or Error: Warning, Notice, Info, Debug and
/// lines with no level token are hidden.
pub proof fn lemma_error_threshold(line: Seq<char>)
    ensures
        passes_level(line, LogLevel::Error) <==> (detected_level(line) == Some(LogLevel::Emergency)
            || detected_level(line) == Some(LogLevel::Alert) || detected_level(line) == Some(
            LogLevel::Critical) || detected_level(line) == Some(LogLevel::Error)),
{
}

fn same_chars(a: &Vec<char>, b: &Vec<char>) -> (r: bool)
    ensures
        r == (a@ == b@),
{
    if a.len() != b.len() {
        return false;
    }
    let mut i: usize = 0;
    while i < a.len()
        invariant
            i <= a.len(),
            a@.len() == b@.len(),
            forall|j: int| 0 <= j < i ==> a@[j] == b@[j],
        decreases a.len() - i,
    {
        if a[i] != b[i] {
            return false;
        }
        i += 1;
    }
    assert(a@ =~= b@);
    true
}

fn is_name(u: &Vec<char>, name: &str) -> (r: bool)
    ensures
        r == (u@ == name@),
{
    let n = chars_of(name);
    same_chars(u, &n)
}

/// Whether `needle` occurs in `hay`.
pub fn contains_chars(hay: &Vec<char>, needle: &Vec<char>) -> (r: bool)
    ensures
        r == contains(hay@, needle@),
{
    if needle.len() > hay.len() {
        return false;
    }
    if needle.len() == 0 {
        assert(hay@.subrange(0, 0 + needle@.len() as int) =~= needle@);
        return true;
    }
    let last = hay.len() - needle.len();
    let mut i: usize = 0;
    while i <= last
        invariant
            last == hay@.len() - needle@.len(),
            1 <= needle@.len() <= hay@.len() <= usize::MAX,
            i <= last + 1,
            forall|j: int| 0 <= j < i ==> #[trigger] hay@.subrange(j, j + needle@.len()) != needle@,
        decreases last + 1 - i,
    {
        let mut k: usize = 0;
        let mut same = true;
        while k < needle.len()
            invariant
                i <= last,
                last == hay@.len() - needle@.len(),
                i + needle@.len() <= hay@.len() <= usize::MAX,
                k <= needle@.len(),
                same == (forall|m: int| 0 <= m < k ==> hay@[i + m] == needle@[m]),
            decreases needle.len() - k,
        {
            if hay[i + k] != needle[k] {
                same = false;
            }
            k += 1;
        }
        if same {
            assert(hay@.subrange(i as int, i + needle@.len()) =~= needle@);
            return true;
        }
        assert(hay@.subrange(i as int, i + needle@.len()) != needle@) by {
            if hay@.subrange(i as int, i + needle@.len()) == needle@ {
                assert forall|m: int| 0 <= m < k implies hay@[i + m] == needle@[m] by {
                    assert(hay@.subrange(i as int, i + needle@.len())[m] == hay@[i + m]);
                }
            }
        }
        i += 1;
    }
    false
}

fn has(u: &Vec<char>, token: &str) -> (r: bool)
    ensures
        r == contains(u@, token@),
{
    let t = chars_of(token);
    contains_chars(u, &t)
}

impl LogLevel {
    /// The level that `level` names, in any case: EMERG/EMERGENCY, ALERT,
    /// CRIT/CRITICAL, ERR/ERROR, WARN/WARNING, NOTICE, INFO, DEBUG/TRACE.
    pub fn from_str(level: &str) -> (r: Option<LogLevel>)
        ensures
            r == level_of_name(upper_of(level@)),
    {
        let up = to_upper(level);
        let u = chars_of(up.as_str());
        if is_name(&u, "EMERG") || is_name(&u, "EMERGENCY") {
            Some(LogLevel::Emergency)
        } else if is_name(&u, "ALERT") {
            Some(LogLevel::Alert)
        } else if is_name(&u, "CRIT") || is_name(&u, "CRITICAL") {
            Some(LogLevel::Critical)
        } else if is_name(&u, "ERR") || is_name(&u, "ERROR") {
            Some(LogLevel::Error)
        } else if is_name(&u, "WARN") || is_name(&u, "WARNING") {
            Some(LogLevel::Warning)
        } else if is_name(&u, "NOTICE") {
            Some(LogLevel::Notice)
        } else if is_name(&u, "INFO") {
            Some(LogLevel::Info)
        } else if is_name(&u, "DEBUG") || is_name(&u, "TRACE") {
            Some(LogLevel::Debug)
        } else {
            None
        }
    }

    /// The numeric priority: 0 for Emergency up to 7 for Debug.
    pub fn priority(&self) -> (r: u8)
        ensures
            r == priority_of(*self),
    {
        match self {
            LogLevel::Emergency => 0,
            LogLevel::Alert => 1,
            LogLevel::Critical => 2,
            LogLevel::Error => 3,
            LogLevel::Warning => 4,
            LogLevel::Notice => 5,
            LogLevel::Info => 6,
            LogLevel::Debug => 7,
        }
    }
}

/// The level detected in an upper-case line.
pub fn detect_level_in_upper(u: &Vec<char>) -> (r: Option<LogLevel>)
    ensures
        r == detect_in_upper(u@),
{
    if has(u, "EMERG") || has(u, "EMERGENCY") {
        Some(LogLevel::Emergency)
    } else if has(u, "ALERT") {
        Some(LogLevel::Alert)
    } else if has(u, "CRIT") || has(u, "CRITICAL") {
        Some(LogLevel::Critical)
    } else if has(u, "ERROR") || has(u, "ERR") {
        Some(LogLevel::Error)
    } else if has(u, "WARN") || has(u, "WARNING") {
        Some(LogLevel::Warning)
    } else if has(u, "NOTICE") {
        Some(LogLevel::Notice)
    } else if has(u, "INFO") {
        Some(LogLevel::Info)
    } else if has(u, "DEBUG") || has(u, "TRACE") {
        Some(LogLevel::Debug)
    } else {
        None
    }
}

/// Why a filter could not be built.
#[derive(Debug)]
pub enum FilterError {
    /// The keep pattern does not compile.
    InvalidKeep(String),
    /// The skip pattern does not compile.
    InvalidSkip(String),
    /// The level names no known level.
    InvalidLevel(String),
}

/// Decides which lines are shown.
#[derive(Debug)]
pub struct LineFilter {
    keep_regex: Option<Pattern>,
    skip_regex: Option<Pattern>,
    level_filter: Option<LogLevel>,
}

pub open spec fn pattern_view(p: Option<Pattern>) -> Option<Seq<char>> {
    match p {
        Some(q) => Some(q@),
        None => None,
    }
}

/// Whether a pattern source given as an option is absent or compiles.
pub open spec fn compiles_if_given(p: Option<String>) -> bool {
    match p {
        Some(s) => regex_compiles(s@),
        None => true,
    }
}

/// Whether a level given as an option is absent or names a level.
pub open spec fn names_level_if_given(p: Option<String>) -> bool {
    match p {
        Some(s) => level_of_name(upper_of(s@)) is Some,
        None => true,
    }
}

pub open spec fn source_view(p: Option<String>) -> Option<Seq<char>> {
    match p {
        Some(s) => Some(s@),
        None => None,
    }
}

/// Whether a filter with these parts shows `line`: the skip pattern, if
/// any, does not match; the keep pattern, if any, matches; the line passes
/// the threshold, if any.
pub open spec fn shows(
    keep: Option<Seq<char>>,
    skip: Option<Seq<char>>,
    level: Option<LogLevel>,
    line: Seq<char>,
) -> bool {
    &&& match skip {
        Some(e) => regex_spans(e, line).len() == 0,
        None => true,
    }
    &&& match keep {
        Some(i) => regex_spans(i, line).len() > 0,
        None => true,
    }
    &&& match level {
        Some(t) => passes_level(line, t),
        None => true,
    }
}

impl LineFilter {
    pub closed spec fn keep(&self) -> Option<Seq<char>> {
        pattern_view(self.keep_regex)
    }

    pub closed spec fn skip(&self) -> Option<Seq<char>> {
        pattern_view(self.skip_regex)
    }

    pub closed spec fn level(&self) -> Option<LogLevel> {
        self.level_filter
    }

    /// Whether this filter shows `line`.
    pub open spec fn spec_shows(&self, line: Seq<char>) -> bool {
        shows(self.keep(), self.skip(), self.level(), line)
    }

    /// Builds a filter; the keep pattern is checked first, then the
    /// skip pattern, then the level name.
    pub fn new(keep: Option<String>, skip: Option<String>, level: Option<String>) -> (r: Result<
        LineFilter,
        FilterError,
    >)
        ensures
            r is Ok <==> compiles_if_given(keep) && compiles_if_given(skip) && names_level_if_given(
                level,
            ),
            r matches Ok(f) ==> f.keep() == source_view(keep) && f.skip() == source_view(skip)
                && f.level() == match level {
                Some(s) => level_of_name(upper_of(s@)),
                None => None,
            },
            r matches Err(FilterError::InvalidKeep(s)) ==> !compiles_if_given(keep) && Some(s@)
                == source_view(keep),
            r matches Err(FilterError::InvalidSkip(s)) ==> compiles_if_given(keep)
                && !compiles_if_given(skip) && Some(s@) == source_view(skip),
            r matches Err(FilterError::InvalidLevel(s)) ==> compiles_if_given(keep)
                && compiles_if_given(skip) && !names_level_if_given(level) && Some(s@)
                == source_view(level),
    {
        let keep_regex = match keep {
            Some(p) => match Pattern::compile(p.as_str()) {
                Ok(c) => Some(c),
                Err(_) => {
                    return Err(FilterError::InvalidKeep(p));
                },
            },
            None => None,
        };
        let skip_regex = match skip {
            Some(p) => match Pattern::compile(p.as_str()) {
                Ok(c) => Some(c),
                Err(_) => {
                    return Err(FilterError::InvalidSkip(p));
                },
            },
            None => None,
        };
        let level_filter = match level {
            Some(s) => match LogLevel::from_str(s.as_str()) {
                Some(l) => Some(l),
                None => {
                    return Err(FilterError::InvalidLevel(s));
                },
            },
            None => None,
        };
        Ok(LineFilter { keep_regex, skip_regex, level_filter })
    }

    /// Whether `line` is shown; the skip pattern is checked first.
    pub fn should_show_line(&self, line: &str) -> (r: bool)
        ensures
            r == self.spec_shows(line@),
    {
        match &self.skip_regex {
            Some(e) => {
                if e.is_match(line) {
                    return false;
                }
            },
            None => {},
        }
        match &self.keep_regex {
            Some(i) => {
                if !i.is_match(line) {
                    return false;
                }
            },
            None => {},
        }
        match self.level_filter {
            Some(t) => {
                if !Self::line_matches_level(line, t) {
                    return false;
                }
            },
            None => {},
        }
        true
    }

    fn line_matches_level(line: &str, target_level: LogLevel) -> (r: bool)
        ensures
            r == passes_level(line@, target_level),
    {
        match Self::detect_log_level(line) {
            Some(d) => d.priority() <= target_level.priority(),
            None => matches!(target_level, LogLevel::Debug | LogLevel::Info),
        }
    }

    /// The level detected in `line`, whatever its case.
    pub fn detect_log_level(line: &str) -> (r: Option<LogLevel>)
        ensures
            r == detected_level(line@),
    {
        let up = to_upper(line);
        let u = chars_of(up.as_str());
        detect_level_in_upper(&u)
    }

    /// Whether any part of the filter is set.
    pub fn is_active(&self) -> (r: bool)
        ensures
            r == (self.keep() is Some || self.skip() is Some || self.level() is Some),
    {
        self.keep_regex.is_some() || self.skip_regex.is_some() || self.level_filter.is_some()
    }
}

impl LineFilter {
    pub open spec fn shows_fn(&self) -> spec_fn(Seq<char>) -> bool {
        |l: Seq<char>| self.spec_shows(l)
    }

    /// The last `n` lines of `lines` that the filter shows, in order.
    pub fn last_shown(&self, lines: &Vec<String>, n: usize) -> (r: Vec<String>)
        ensures
            strings_view(r@) == keep_last(strings_view(lines@).filter(self.shows_fn()), n as nat),
    {
        let ghost ls = strings_view(lines@);
        let ghost f = self.shows_fn();
        let mut shown: Vec<String> = Vec::new();
        let mut i: usize = 0;
        assert(ls.take(0) =~= seq![]);
        proof {
            ls.take(0).lemma_filter_len(f);
        }
        assert(strings_view(shown@) =~= ls.take(0).filter(f));
        while i < lines.len()
            invariant
                i <= lines.len(),
                ls == strings_view(lines@),
                f == self.shows_fn(),
                strings_view(shown@) == ls.take(i as int).filter(f),
            decreases lines.len() - i,
        {
            let ghost before = strings_view(shown@);
            proof {
                assert(ls.take(i + 1) =~= ls.take(i as int).push(ls[i as int]));
                ls.take(i as int).lemma_filter_push(ls[i as int], f);
            }
            assert(ls[i as int] == lines@[i as int]@);
            if self.should_show_line(lines[i].as_str()) {
                shown.push(lines[i].clone());
                assert(strings_view(shown@) =~= before.push(lines@[i as int]@));
            }
            i += 1;
        }
        assert(ls.take(i as int) =~= ls);
        let total = shown.len();
        let start = if total > n { total - n } else { 0 };
        let mut out: Vec<String> = Vec::new();
        let mut k: usize = start;
        while k < total
            invariant
                start <= k <= total,
                total == shown@.len(),
                strings_view(out@) == strings_view(shown@).subrange(start as int, k as int),
            decreases total - k,
        {
            let ghost before = strings_view(out@);
            let c = shown[k].clone();
            assert(c@ == strings_view(shown@)[k as int]);
            out.push(c);
            assert(strings_view(out@) =~= before.push(c@));
            assert(strings_view(shown@).subrange(start as int, k + 1) =~= strings_view(shown@).subrange(start as int, k as int).push(c@));
            k += 1;
        }
        assert(strings_view(shown@).subrange(start as int, total as int) =~= keep_last(strings_view(shown@), n as nat));
        out
    }
}

} // verus!
