//! Pattern compiler: turns a [`HighlightPattern`](crate::pattern::HighlightPattern)
//! into the source text of a regular expression and checks that it compiles.
//!
//! The regex engine itself is the `regex` crate; the library reaches it only
//! through the trusted items declared here. What a regular expression
//! matches is not restated: the results of `regex::escape`, of
//! `regex::Regex::new` and of `regex::Regex::find_iter` are given names that
//! the contracts of the surrounding verified code then speak of.

use vstd::prelude::*;
use crate::pattern::HighlightPattern;
use crate::pattern::PatternModel;

verus! {

/// What `regex::escape` returns for a given text.
pub uninterp spec fn escape_of(s: Seq<char>) -> Seq<char>;

/// Whether `regex::Regex::new` accepts a given pattern source.
pub uninterp spec fn regex_compiles(pat: Seq<char>) -> bool;

/// The byte spans (start, end) of the successive non-overlapping matches
/// that `regex::Regex::find_iter` reports for a pattern source on one line.
pub uninterp spec fn regex_line_spans(pat: Seq<char>, line: Seq<char>) -> Seq<(u32, u32)>;

/// Relies on `regex::escape`: the result depends on the input text alone;
/// it escapes every regex metacharacter so that the text matches literally.
#[verifier::external_body]
fn escape_literal(s: &str) -> (r: String)
    ensures
        r@ == escape_of(s@),
{
    regex::escape(s)
}

/// Relies on `regex::Regex::new`: whether a pattern source compiles depends
/// on the source text alone.
#[verifier::external_body]
fn regex_new_ok(pat: &str) -> (r: bool)
    ensures
        r == regex_compiles(pat@),
{
    regex::Regex::new(pat).is_ok()
}

/// Relies on `regex::Regex::new` and `regex::Regex::find_iter`, in one
/// step so that the result is a function of the pattern source and the
/// line alone: compiling the same source twice yields the same matcher,
/// and `find_iter` reports the successive non-overlapping leftmost matches
/// as byte ranges into the line, in ascending order (each match starts no
/// earlier than the previous one ends, and its start never exceeds its
/// end). The length bound on the line keeps every byte offset below
/// `u32::MAX` (a character encodes to at most four bytes).
#[verifier::external_body]
fn regex_find_in_line(pat: &str, line: &str) -> (r: Option<Vec<(u32, u32)>>)
    requires
        line@.len() <= crate::MAX_TEXT_LEN,
    ensures
        r is Some <==> regex_compiles(pat@),
        r matches Some(v) ==> v@ == regex_line_spans(pat@, line@),
        r matches Some(v) ==> forall|i: int| 0 <= i < v@.len() ==> (#[trigger] v@[i]).0 <= v@[i].1,
        r matches Some(v) ==> forall|i: int|
            0 <= i < v@.len() - 1 ==> (#[trigger] v@[i]).1 <= v@[i + 1].0,
{
    match regex::Regex::new(pat) {
        Ok(re) => Some(
            re.find_iter(line).map(|m| (m.start() as u32, m.end() as u32)).collect(),
        ),
        Err(_) => None,
    }
}

/// The regex source built for a pattern: a literal pattern is escaped and,
/// if whole-word matching is asked for, wrapped in word-boundary anchors; a
/// regex pattern is taken verbatim. Case-insensitive matching prepends the
/// inline case-insensitivity modifier, so match offsets stay aligned with
/// the original text.
pub open spec fn build_source_spec(p: PatternModel) -> Seq<char> {
    let base = if p.is_regex {
        p.pattern
    } else if p.whole_word {
        "\\b"@ + escape_of(p.pattern) + "\\b"@
    } else {
        escape_of(p.pattern)
    };
    if p.case_sensitive {
        base
    } else {
        "(?i)"@ + base
    }
}

/// A compiled matcher: the regex source derived from one pattern, known to
/// be accepted by the regex engine.
pub struct CompiledMatcher {
    pub source: String,
}

impl CompiledMatcher {
    /// The matcher's source is exactly what its pattern builds to, and it
    /// compiles.
    pub open spec fn wf(self, p: PatternModel) -> bool {
        &&& self.source@ == build_source_spec(p)
        &&& regex_compiles(self.source@)
    }
}

/// A pattern that the regex engine refuses: its regex source is malformed.
#[derive(Clone, Copy, PartialEq, Eq, Structural, Debug)]
pub enum CompileError {
    InvalidRegex,
}

/// Builds the regex source for a pattern, as [`build_source_spec`] states.
fn build_source(p: &HighlightPattern) -> (r: String)
    ensures
        r@ == build_source_spec(p@),
{
    let base: String = if p.is_regex {
        p.pattern.clone()
    } else if p.whole_word {
        let escaped = escape_literal(p.pattern.as_str());
        "\\b".to_owned().concat(escaped.as_str()).concat("\\b")
    } else {
        escape_literal(p.pattern.as_str())
    };
    if p.case_sensitive {
        base
    } else {
        "(?i)".to_owned().concat(base.as_str())
    }
}

/// Compiles one pattern. Returns the compiled matcher exactly when the
/// regex engine accepts the built source, and [`CompileError::InvalidRegex`]
/// exactly when it refuses it (only a malformed regex pattern can be
/// refused).
pub fn compile(p: &HighlightPattern) -> (r: Result<CompiledMatcher, CompileError>)
    ensures
        r is Ok <==> regex_compiles(build_source_spec(p@)),
        r matches Ok(m) ==> m.wf(p@),
        r is Err ==> r == Result::<CompiledMatcher, CompileError>::Err(CompileError::InvalidRegex),
{
    let source = build_source(p);
    if regex_new_ok(source.as_str()) {
        Ok(CompiledMatcher { source })
    } else {
        Err(CompileError::InvalidRegex)
    }
}

/// Finds all matches of a compiled matcher on one line, as byte spans.
/// The result is exactly what the regex engine reports for the matcher's
/// source on that line.
pub fn find_on_line(m: &CompiledMatcher, line: &str) -> (r: Vec<(u32, u32)>)
    requires
        regex_compiles(m.source@),
        line@.len() <= crate::MAX_TEXT_LEN,
    ensures
        r@ == regex_line_spans(m.source@, line@),
        forall|i: int| 0 <= i < r@.len() ==> (#[trigger] r@[i]).0 <= r@[i].1,
        forall|i: int| 0 <= i < r@.len() - 1 ==> (#[trigger] r@[i]).1 <= r@[i + 1].0,
{
    match regex_find_in_line(m.source.as_str(), line) {
        Some(v) => v,
        None => {
            // regex_compiles(m.source@) rules this arm out.
            proof {
                assert(false);
            }
            Vec::new()
        },
    }
}

} // verus!
