//! Regular expressions, compiled by the `regex` crate.
//!
//! A `Pattern` keeps its source text beside the compiled expression; its
//! fields are set only by `Pattern::compile`, so the expression is always the
//! one compiled from the source. Contracts speak of the source text.

use vstd::prelude::*;

verus! {

#[verifier::external_type_specification]
#[verifier::external_body]
pub struct ExRegex(regex::Regex);

#[verifier::external_type_specification]
#[verifier::external_body]
pub struct ExRegexError(regex::Error);

/// Whether `regex::Regex::new` accepts the pattern source: it is well formed
/// and within the default size limit.
pub uninterp spec fn regex_compiles(source: Seq<char>) -> bool;

/// The byte ranges `(start, end)` that `regex::Regex::find_iter` yields for the
/// expression compiled from `source` on `text`: the successive
/// non-overlapping leftmost-first matches.
pub uninterp spec fn regex_spans(source: Seq<char>, text: Seq<char>) -> Seq<(usize, usize)>;

/// Relies on `regex::Regex::new`: compiles the source, or reports why not.
#[verifier::external_body]
fn regex_new(source: &str) -> (r: Result<regex::Regex, regex::Error>)
    ensures
        r is Ok <==> regex_compiles(source@),
{
    regex::Regex::new(source)
}

/// A compiled regular expression together with its source text.
#[derive(Debug)]
pub struct Pattern {
    source: String,
    re: regex::Regex,
}

/// Why a pattern source was refused.
#[derive(Debug)]
pub struct PatternError {
    /// The refused source text.
    pub source: String,
}

impl View for Pattern {
    type V = Seq<char>;

    closed spec fn view(&self) -> Seq<char> {
        self.source@
    }
}

impl Pattern {
    /// Compiles `source`; fails exactly when the regex crate refuses it.
    pub fn compile(source: &str) -> (r: Result<Pattern, PatternError>)
        ensures
            r is Ok <==> regex_compiles(source@),
            r matches Ok(p) ==> p@ == source@,
            r matches Err(e) ==> e.source@ == source@,
    {
        match regex_new(source) {
            Ok(re) => Ok(Pattern { source: String::from_str(source), re }),
            Err(_) => Err(PatternError { source: String::from_str(source) }),
        }
    }

    /// The source text of the expression.
    pub fn source(&self) -> (r: &str)
        ensures
            r@ == self@,
    {
        self.source.as_str()
    }

    /// Relies on `regex::Regex::is_match`: true exactly when the expression
    /// matches somewhere in `text`, that is when `find_iter` yields a match.
    #[verifier::external_body]
    pub(crate) fn is_match(&self, text: &str) -> (r: bool)
        ensures
            r == (regex_spans(self@, text@).len() > 0),
    {
        self.re.is_match(text)
    }

    /// Relies on `regex::Regex::find_iter`: the byte range of each successive
    /// match in `text`.
    #[verifier::external_body]
    pub(crate) fn find_spans(&self, text: &str) -> (r: Vec<(usize, usize)>)
        ensures
            r@ == regex_spans(self@, text@),
    {
        self.re.find_iter(text).map(|m| (m.start(), m.end())).collect()
    }
}

} // verus!
