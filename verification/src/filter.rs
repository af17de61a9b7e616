//! The filter pipeline: decides which structured records are shown.
//!
//! A filter specification holds an optional level substring, an optional
//! process substring and an optional compiled message pattern; all three
//! are conjoined. Substring checks are case-insensitive (ASCII folding).
//! Raw records bypass filtering entirely so that malformed lines stay
//! visible. A message pattern that does not compile is treated as no
//! filter at all: a typo never hides all output.

use vstd::prelude::*;
use crate::record::{LogRecord, Rec};
use crate::text::{contains_seq, lower_bytes, contains_bytes, ascii_lower};

verus! {

#[verifier::external_type_specification]
#[verifier::external_body]
pub struct ExRegex(regex::bytes::Regex);

/// The pattern text a compiled regex was built from.
pub uninterp spec fn regex_pattern(re: regex::bytes::Regex) -> Seq<char>;

/// Whether the regex crate accepts a pattern text.
pub uninterp spec fn regex_compiles(pat: Seq<char>) -> bool;

/// Whether a pattern finds a match inside a byte string.
pub uninterp spec fn regex_accepts(pat: Seq<char>, text: Seq<u8>) -> bool;

/// The lower-cased form of a string.
pub uninterp spec fn lower_of(s: Seq<char>) -> Seq<char>;

/// Relies on `regex::bytes::Regex::new`: compilation succeeds or fails on
/// the pattern text alone, and the compiled value determines that pattern.
#[verifier::external_body]
fn compile_regex(pat: &str) -> (r: Option<regex::bytes::Regex>)
    ensures
        r is Some <==> regex_compiles(pat@),
        r matches Some(re) ==> regex_pattern(re) == pat@,
{
    regex::bytes::Regex::new(pat).ok()
}

/// Relies on `regex::bytes::Regex::is_match`: whether a match is found is
/// a function of the compiled pattern and the haystack alone.
#[verifier::external_body]
fn regex_is_match(re: &regex::bytes::Regex, text: &[u8]) -> (r: bool)
    ensures
        r == regex_accepts(regex_pattern(*re), text@),
{
    re.is_match(text)
}

/// Relies on `str::to_lowercase`: the result depends on the characters
/// alone, and an empty string stays empty.
#[verifier::external_body]
fn lowercase(s: &str) -> (r: String)
    ensures
        r@ == lower_of(s@),
        s@.len() == 0 ==> r@.len() == 0,
{
    s.to_lowercase()
}

/// Mathematical form of a filter specification. Substring filters are
/// stored lower-cased; the pattern is the lower-cased pattern text, and
/// is absent when no pattern was given or it failed to compile.
pub struct FilterView {
    pub level: Option<Seq<u8>>,
    pub process: Option<Seq<u8>>,
    pub pattern: Option<Seq<char>>,
}

/// The active filters for one run, fixed at startup.
pub struct FilterSpec {
    level: Option<Vec<u8>>,
    process: Option<Vec<u8>>,
    pattern: Option<regex::bytes::Regex>,
}

impl View for FilterSpec {
    type V = FilterView;

    closed spec fn view(&self) -> FilterView {
        FilterView {
            level: match self.level {
                Some(l) => Some(l@),
                None => None,
            },
            process: match self.process {
                Some(p) => Some(p@),
                None => None,
            },
            pattern: match self.pattern {
                Some(re) => Some(regex_pattern(re)),
                None => None,
            },
        }
    }
}

/// The level filter passes: absent, or a case-insensitive substring of
/// the record's level.
pub open spec fn level_passes(f: FilterView, level: Seq<u8>) -> bool {
    match f.level {
        None => true,
        Some(want) => contains_seq(lower_bytes(level), want),
    }
}

/// The process filter passes: absent, or a case-insensitive substring of
/// the record's process name.
pub open spec fn process_passes(f: FilterView, process: Seq<u8>) -> bool {
    match f.process {
        None => true,
        Some(want) => contains_seq(lower_bytes(process), want),
    }
}

/// The message filter passes: absent, or the pattern matches the
/// lower-cased message.
pub open spec fn message_passes(f: FilterView, message: Seq<u8>) -> bool {
    match f.pattern {
        None => true,
        Some(pat) => regex_accepts(pat, lower_bytes(message)),
    }
}

/// A record is shown exactly when it passes every active filter; raw
/// records always pass.
pub open spec fn accepts_spec(f: FilterView, r: Rec) -> bool {
    match r {
        Rec::Raw { .. } => true,
        Rec::Structured { level, process, message, .. } => level_passes(f, level)
            && process_passes(f, process) && message_passes(f, message),
    }
}

impl FilterSpec {
    /// Build the filter set for a run. Substring filters are folded to
    /// lower case; the message pattern is lower-cased and compiled, and
    /// dropped (fail-open) when it does not compile.
    pub fn new(level: Option<Vec<u8>>, process: Option<Vec<u8>>, pattern: Option<String>) -> (r: FilterSpec)
        ensures
            r@.level == match level {
                Some(l) => Some(lower_bytes(l@)),
                None => None::<Seq<u8>>,
            },
            r@.process == match process {
                Some(p) => Some(lower_bytes(p@)),
                None => None::<Seq<u8>>,
            },
            r@.pattern == match pattern {
                Some(p) => if regex_compiles(lower_of(p@)) {
                    Some(lower_of(p@))
                } else {
                    None::<Seq<char>>
                },
                None => None::<Seq<char>>,
            },
    {
        let lv = match level {
            Some(l) => Some(ascii_lower(l.as_slice())),
            None => None,
        };
        let pr = match process {
            Some(p) => Some(ascii_lower(p.as_slice())),
            None => None,
        };
        let pat = match pattern {
            Some(p) => {
                let low = lowercase(p.as_str());
                compile_regex(low.as_str())
            },
            None => None,
        };
        FilterSpec { level: lv, process: pr, pattern: pat }
    }

    /// An empty filter set: everything passes.
    pub fn none() -> (r: FilterSpec)
        ensures
            r@.level is None,
            r@.process is None,
            r@.pattern is None,
    {
        FilterSpec { level: None, process: None, pattern: None }
    }

    /// Whether a message pattern is active. A pattern that failed to
    /// compile is not: the caller can warn that it was dropped.
    pub fn message_filter_active(&self) -> (r: bool)
        ensures
            r == (self@.pattern is Some),
    {
        self.pattern.is_some()
    }

    /// Decide whether a record passes the active filters.
    pub fn accepts(&self, rec: &LogRecord) -> (r: bool)
        ensures
            r == accepts_spec(self@, rec@),
    {
        match rec {
            LogRecord::Raw { .. } => true,
            LogRecord::Structured { level, process, message, .. } => {
                let lv_ok = match &self.level {
                    None => true,
                    Some(want) => {
                        let low = ascii_lower(level.as_slice());
                        contains_bytes(low.as_slice(), want.as_slice())
                    },
                };
                if !lv_ok {
                    return false;
                }
                let pr_ok = match &self.process {
                    None => true,
                    Some(want) => {
                        let low = ascii_lower(process.as_slice());
                        contains_bytes(low.as_slice(), want.as_slice())
                    },
                };
                if !pr_ok {
                    return false;
                }
                match &self.pattern {
                    None => true,
                    Some(re) => {
                        let low = ascii_lower(message.as_slice());
                        regex_is_match(re, low.as_slice())
                    },
                }
            },
        }
    }
}

/// Raw records bypass the filters: they are always shown.
pub proof fn lemma_raw_bypasses(f: FilterView, text: Seq<u8>)
    ensures
        accepts_spec(f, Rec::Raw { text }),
{
}

/// Filter conjunction: a structured record passes exactly when it passes
/// the level filter, the process filter and the message filter together.
pub proof fn lemma_filter_conjunction(
    f: FilterView,
    timestamp: Seq<u8>,
    hostname: Option<Seq<u8>>,
    process: Seq<u8>,
    pid: Option<u64>,
    level: Seq<u8>,
    message: Seq<u8>,
)
    ensures
        accepts_spec(f, Rec::Structured { timestamp, hostname, process, pid, level, message })
            <==> (level_passes(f, level) && process_passes(f, process) && message_passes(
            f,
            message,
        )),
{
}

/// With no active filter, every record passes.
pub proof fn lemma_inactive_accepts_all(f: FilterView, r: Rec)
    requires
        f.level is None,
        f.process is None,
        f.pattern is None,
    ensures
        accepts_spec(f, r),
{
}

} // verus!
