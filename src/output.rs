//! Output presentation: plain text, CSV, and the fields that a log line
//! carries (timestamp, address, status code, level, service).

use vstd::prelude::*;
use crate::chars::{chars_of, push_char, push_range, char_index_of, char_ranges, lemma_char_index_bound};
use crate::pattern::{Pattern, regex_compiles, regex_spans};

verus! {

#[derive(Debug, Clone, Copy, PartialEq, Eq, Structural)]
pub enum OutputFormat {
    Text,
    Json,
    Csv,
}

/// What `str::to_lowercase` returns for `s`.
pub uninterp spec fn lower_of(s: Seq<char>) -> Seq<char>;

/// Relies on `str::to_lowercase`: the lower-case form of `s`, which depends
/// on its characters alone.
#[verifier::external_body]
fn to_lower(s: &str) -> (r: String)
    ensures
        r@ == lower_of(s@),
{
    s.to_lowercase()
}

/// The format that a lower-case name selects: `json`, `csv`, anything else
/// text.
pub open spec fn format_of_name(lower: Seq<char>) -> OutputFormat {
    if lower == "json"@ {
        OutputFormat::Json
    } else if lower == "csv"@ {
        OutputFormat::Csv
    } else {
        OutputFormat::Text
    }
}

fn same_text(a: &str, b: &str) -> (r: bool)
    ensures
        r == (a@ == b@),
{
    let x = chars_of(a);
    let y = chars_of(b);
    if x.len() != y.len() {
        return false;
    }
    let mut i: usize = 0;
    while i < x.len()
        invariant
            i <= x.len(),
            x@.len() == y@.len(),
            x@ == a@,
            y@ == b@,
            forall|j: int| 0 <= j < i ==> x@[j] == y@[j],
        decreases x.len() - i,
    {
        if x[i] != y[i] {
            return false;
        }
        i += 1;
    }
    assert(x@ =~= y@);
    true
}

impl OutputFormat {
    /// The format named by `format`, in any case; unknown names give text.
    pub fn from_string(format: &str) -> (r: OutputFormat)
        ensures
            r == format_of_name(lower_of(format@)),
    {
        let lower = to_lower(format);
        if same_text(lower.as_str(), "json") {
            OutputFormat::Json
        } else if same_text(lower.as_str(), "csv") {
            OutputFormat::Csv
        } else {
            OutputFormat::Text
        }
    }
}

pub const TIMESTAMP_SOURCE: &'static str = "\\d{4}-\\d{2}-\\d{2}[T\\s]\\d{2}:\\d{2}:\\d{2}";
pub const IP_SOURCE: &'static str = "\\b(?:[0-9]{1,3}\\.){3}[0-9]{1,3}\\b";
pub const STATUS_SOURCE: &'static str = "\\b[2-5][0-9]{2}\\b";
pub const LEVEL_SOURCE: &'static str = "\\b(EMERG|ALERT|CRIT|ERROR|WARN|NOTICE|INFO|DEBUG|TRACE)\\b";
pub const SERVICE_SOURCE: &'static str = "\\b(nginx|apache|mysql|postgres|sshd|systemd|docker|php-fpm)\\b";

/// The text of the first match of the expression `source` in `line`, if the
/// expression compiles and matches.
pub open spec fn first_match(source: Seq<char>, line: Seq<char>) -> Option<Seq<char>> {
    if regex_compiles(source) && regex_spans(source, line).len() > 0 {
        let r = char_ranges(line, regex_spans(source, line))[0];
        if r.0 <= r.1 {
            Some(line.subrange(r.0, r.1))
        } else {
            None
        }
    } else {
        None
    }
}

/// The fields found in one log line.
pub struct ParsedLine {
    pub timestamp: Option<String>,
    pub ip: Option<String>,
    pub status_code: Option<String>,
    pub level: Option<String>,
    pub service: Option<String>,
    pub message: String,
    pub raw: String,
}

pub open spec fn opt_view(o: Option<String>) -> Option<Seq<char>> {
    match o {
        Some(s) => Some(s@),
        None => None,
    }
}

/// Finds the fields of log lines.
pub struct LogParser {
    timestamp_regex: Option<Pattern>,
    ip_regex: Option<Pattern>,
    status_code_regex: Option<Pattern>,
    level_regex: Option<Pattern>,
    service_regex: Option<Pattern>,
}

pub open spec fn compiled_from(p: Option<Pattern>, source: Seq<char>) -> bool {
    &&& p is Some <==> regex_compiles(source)
    &&& p matches Some(q) ==> q@ == source
}

fn compile_opt(source: &str) -> (r: Option<Pattern>)
    ensures
        compiled_from(r, source@),
{
    match Pattern::compile(source) {
        Ok(p) => Some(p),
        Err(_) => None,
    }
}

/// The first match of `p` in `line`, as text.
fn extract(p: &Option<Pattern>, line: &str) -> (r: Option<String>)
    requires
        p matches Some(q) ==> regex_compiles(q@),
    ensures
        p matches Some(q) ==> opt_view(r) == first_match(q@, line@),
        p is None ==> r is None,
{
    match p {
        Some(q) => {
            let spans = q.find_spans(line);
            if spans.len() == 0 {
                return None;
            }
            let cs = chars_of(line);
            let (s, e) = spans[0];
            let a = char_index_of(&cs, s);
            let b = char_index_of(&cs, e);
            proof {
                lemma_char_index_bound(cs@, s as int);
                lemma_char_index_bound(cs@, e as int);
            }
            if a <= b {
                let mut out = String::new();
                push_range(&mut out, &cs, a, b);
                assert(out@ =~= line@.subrange(a as int, b as int));
                Some(out)
            } else {
                None
            }
        },
        None => None,
    }
}

impl LogParser {
    #[verifier::type_invariant]
    spec fn inv(&self) -> bool {
        &&& compiled_from(self.timestamp_regex, TIMESTAMP_SOURCE@)
        &&& compiled_from(self.ip_regex, IP_SOURCE@)
        &&& compiled_from(self.status_code_regex, STATUS_SOURCE@)
        &&& compiled_from(self.level_regex, LEVEL_SOURCE@)
        &&& compiled_from(self.service_regex, SERVICE_SOURCE@)
    }

    pub fn new() -> (r: LogParser) {
        LogParser {
            timestamp_regex: compile_opt(TIMESTAMP_SOURCE),
            ip_regex: compile_opt(IP_SOURCE),
            status_code_regex: compile_opt(STATUS_SOURCE),
            level_regex: compile_opt(LEVEL_SOURCE),
            service_regex: compile_opt(SERVICE_SOURCE),
        }
    }

    /// The fields of `line`: the first match of each field's expression, and
    /// the line itself as message and raw text.
    pub fn parse_line(&self, line: &str) -> (r: ParsedLine)
        ensures
            opt_view(r.timestamp) == first_match(TIMESTAMP_SOURCE@, line@),
            opt_view(r.ip) == first_match(IP_SOURCE@, line@),
            opt_view(r.status_code) == first_match(STATUS_SOURCE@, line@),
            opt_view(r.level) == first_match(LEVEL_SOURCE@, line@),
            opt_view(r.service) == first_match(SERVICE_SOURCE@, line@),
            r.message@ == line@,
            r.raw@ == line@,
    {
        proof {
            use_type_invariant(self);
        }
        ParsedLine {
            timestamp: extract(&self.timestamp_regex, line),
            ip: extract(&self.ip_regex, line),
            status_code: extract(&self.status_code_regex, line),
            level: extract(&self.level_regex, line),
            service: extract(&self.service_regex, line),
            message: String::from_str(line),
            raw: String::from_str(line),
        }
    }
}

/// `s` with each double quote doubled.
pub open spec fn double_quotes(s: Seq<char>) -> Seq<char>
    decreases s.len(),
{
    if s.len() == 0 {
        seq![]
    } else {
        double_quotes(s.drop_last()) + if s.last() == '"' {
            seq!['"', '"']
        } else {
            seq![s.last()]
        }
    }
}

/// A CSV field: quoted, with quotes doubled, when it holds a comma, a quote
/// or a line feed; as it is otherwise.
pub open spec fn csv_field(s: Seq<char>) -> Seq<char> {
    if s.contains(',') || s.contains('"') || s.contains('\n') {
        seq!['"'] + double_quotes(s) + seq!['"']
    } else {
        s
    }
}

/// Escapes one CSV field.
pub fn csv_escape(field: &str) -> (r: String)
    ensures
        r@ == csv_field(field@),
{
    let cs = chars_of(field);
    let mut special = false;
    let mut i: usize = 0;
    while i < cs.len()
        invariant
            i <= cs.len(),
            special == exists|j: int| 0 <= j < i && (cs@[j] == ',' || cs@[j] == '"' || cs@[j] == '\n'),
        decreases cs.len() - i,
    {
        let c = cs[i];
        if c == ',' || c == '"' || c == '\n' {
            special = true;
        }
        i += 1;
    }
    assert(special == (field@.contains(',') || field@.contains('"') || field@.contains('\n'))) by {
        if field@.contains(',') {
            let j = choose|j: int| 0 <= j < field@.len() && field@[j] == ',';
            assert(cs@[j] == ',');
        }
        if field@.contains('"') {
            let j = choose|j: int| 0 <= j < field@.len() && field@[j] == '"';
            assert(cs@[j] == '"');
        }
        if field@.contains('\n') {
            let j = choose|j: int| 0 <= j < field@.len() && field@[j] == '\n';
            assert(cs@[j] == '\n');
        }
    }
    if !special {
        return String::from_str(field);
    }
    let mut out = String::new();
    push_char(&mut out, '"');
    let mut k: usize = 0;
    assert(cs@.take(0) =~= seq![]);
    while k < cs.len()
        invariant
            k <= cs.len(),
            cs@ == field@,
            out@ == seq!['"'] + double_quotes(cs@.take(k as int)),
        decreases cs.len() - k,
    {
        let c = cs[k];
        assert(cs@.take(k + 1).drop_last() =~= cs@.take(k as int));
        assert(cs@.take(k + 1).last() == c);
        if c == '"' {
            push_char(&mut out, '"');
            push_char(&mut out, '"');
        } else {
            push_char(&mut out, c);
        }
        k += 1;
        assert(out@ =~= seq!['"'] + double_quotes(cs@.take(k as int)));
    }
    assert(cs@.take(k as int) =~= cs@);
    push_char(&mut out, '"');
    out
}

/// The CSV header row.
pub const CSV_HEADER: &'static str = "timestamp,level,service,message,ip,status_code";

pub open spec fn or_empty(o: Option<Seq<char>>) -> Seq<char> {
    match o {
        Some(s) => s,
        None => seq![],
    }
}

/// A CSV row of the fields timestamp, level, service, message, address and
/// status code, absent fields empty.
pub open spec fn csv_fields(
    timestamp: Option<Seq<char>>,
    level: Option<Seq<char>>,
    service: Option<Seq<char>>,
    message: Seq<char>,
    ip: Option<Seq<char>>,
    status_code: Option<Seq<char>>,
) -> Seq<char> {
    csv_field(or_empty(timestamp)) + seq![','] + csv_field(or_empty(level)) + seq![','] + csv_field(
        or_empty(service),
    ) + seq![','] + csv_field(message) + seq![','] + csv_field(or_empty(ip)) + seq![','] + csv_field(
        or_empty(status_code),
    )
}

/// The CSV row of a parsed line.
pub open spec fn csv_row(p: ParsedLine) -> Seq<char> {
    csv_fields(opt_view(p.timestamp), opt_view(p.level), opt_view(p.service), p.message@, opt_view(p.ip), opt_view(p.status_code))
}

/// The CSV row of a log line, from the fields found in it.
pub open spec fn line_csv_row(line: Seq<char>) -> Seq<char> {
    csv_fields(
        first_match(TIMESTAMP_SOURCE@, line),
        first_match(LEVEL_SOURCE@, line),
        first_match(SERVICE_SOURCE@, line),
        line,
        first_match(IP_SOURCE@, line),
        first_match(STATUS_SOURCE@, line),
    )
}

fn field_text(o: &Option<String>) -> (r: String)
    ensures
        r@ == or_empty(opt_view(*o)),
{
    match o {
        Some(s) => s.clone(),
        None => String::new(),
    }
}

fn push_field(out: &mut String, o: &Option<String>)
    ensures
        final(out)@ == old(out)@ + csv_field(or_empty(opt_view(*o))),
{
    let t = field_text(o);
    let e = csv_escape(t.as_str());
    out.append(e.as_str());
}

/// The CSV row of a parsed line.
pub fn format_csv_line(p: &ParsedLine) -> (r: String)
    ensures
        r@ == csv_row(*p),
{
    let mut out = String::new();
    push_field(&mut out, &p.timestamp);
    push_char(&mut out, ',');
    push_field(&mut out, &p.level);
    push_char(&mut out, ',');
    push_field(&mut out, &p.service);
    push_char(&mut out, ',');
    let m = csv_escape(p.message.as_str());
    out.append(m.as_str());
    push_char(&mut out, ',');
    push_field(&mut out, &p.ip);
    push_char(&mut out, ',');
    push_field(&mut out, &p.status_code);
    assert(out@ =~= csv_row(*p));
    out
}

/// Formats lines in one format; the CSV header comes before the first row.
pub struct OutputFormatter {
    format: OutputFormat,
    csv_headers_printed: bool,
    log_parser: LogParser,
}

impl OutputFormatter {
    pub closed spec fn spec_format(&self) -> OutputFormat {
        self.format
    }

    pub closed spec fn header_done(&self) -> bool {
        self.csv_headers_printed
    }

    pub fn new(format: OutputFormat) -> (r: OutputFormatter)
        ensures
            r.spec_format() == format,
            !r.header_done(),
    {
        OutputFormatter { format, csv_headers_printed: false, log_parser: LogParser::new() }
    }

    pub fn format(&self) -> (r: OutputFormat)
        ensures
            r == self.spec_format(),
    {
        self.format
    }

    pub fn parser(&self) -> (r: &LogParser) {
        &self.log_parser
    }

    /// The text form of a line: the styled line for text, its CSV row for CSV
    /// (after the header line the first time). JSON is written by the caller
    /// from `parse_line`, and gives `None` here.
    pub fn format_line(&mut self, line: &str, colored_line: &str) -> (r: Option<String>)
        ensures
            final(self).spec_format() == old(self).spec_format(),
            old(self).spec_format() == OutputFormat::Text ==> (r matches Some(s) && s@ == colored_line@),
            old(self).spec_format() == OutputFormat::Json ==> r is None,
            old(self).spec_format() == OutputFormat::Csv ==> final(self).header_done() && (r matches Some(s)
                && s@ == (if old(self).header_done() {
                line_csv_row(line@)
            } else {
                CSV_HEADER@ + seq!['\n'] + line_csv_row(line@)
            })),
            old(self).spec_format() != OutputFormat::Csv ==> final(self).header_done() == old(self).header_done(),
    {
        match self.format {
            OutputFormat::Text => Some(String::from_str(colored_line)),
            OutputFormat::Json => None,
            OutputFormat::Csv => {
                let parsed = self.log_parser.parse_line(line);
                let row = format_csv_line(&parsed);
                if !self.csv_headers_printed {
                    self.csv_headers_printed = true;
                    let mut out = String::from_str(CSV_HEADER);
                    push_char(&mut out, '\n');
                    out.append(row.as_str());
                    Some(out)
                } else {
                    Some(row)
                }
            },
        }
    }
}

} // verus!
