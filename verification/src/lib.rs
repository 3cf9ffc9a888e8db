//! Pattern-based text highlighting core: compiles user-declared literal or
//! regex patterns, finds their occurrences in a document line by line, and
//! rewrites the resulting spans into the delta-encoded token stream that the
//! editor protocol expects.

use vstd::prelude::*;

mod seq_facts;
pub mod commands;
pub mod encoder;
pub mod engine;
pub mod matcher;
pub mod pattern;
pub mod store;
pub mod text;

verus! {

/// Number of token types (and of colors) in the fixed output palette.
pub const PALETTE_SIZE: u32 = 8;

/// Longest document text (in characters) the engine accepts. Byte offsets
/// into a line of such a text always fit in the protocol's `u32` columns,
/// since a character takes at most four bytes.
pub const MAX_TEXT_LEN: usize = 0x3fff_ffff;

/// The full pipeline on one document: every pattern's matches on every
/// line, sorted into document order and delta-encoded.
pub open spec fn tokens_spec(text: Seq<char>, pats: Seq<pattern::PatternModel>) -> Seq<
    encoder::EncodedToken,
> {
    encoder::encode_spec(encoder::sort_spans_spec(engine::find_matches_spec(text, pats)))
}

/// Computes the delta-encoded token stream of one document under the given
/// patterns: find all matches, sort them by `(line, column)` keeping the
/// pattern order on ties, then delta-encode.
pub fn compute_tokens(text: &str, patterns: &Vec<pattern::HighlightPattern>) -> (r: Vec<
    encoder::EncodedToken,
>)
    requires
        text@.len() <= MAX_TEXT_LEN,
        patterns@.len() <= u32::MAX,
    ensures
        r@ == tokens_spec(text@, patterns.deep_view()),
{
    let spans = engine::find_matches(text, patterns);
    encoder::encode(&spans)
}

/// Answers a token request: the token stream of the document's current
/// text, or nothing for a document that was never opened — an unknown
/// document is a normal absence, not a failure.
pub fn tokens_for_document(
    docs: &store::DocumentStore,
    patterns: &store::PatternStore,
    id: &String,
) -> (r: Option<Vec<encoder::EncodedToken>>)
    requires
        docs.wf(),
        patterns.wf(),
    ensures
        r is Some <==> store::lookup(docs.model(), id@) is Some,
        r matches Some(toks) ==> Some(toks@) == match store::lookup(docs.model(), id@) {
            Some(text) => Some(tokens_spec(text, patterns@.patterns)),
            None => None,
        },
{
    match docs.get(id) {
        None => None,
        Some(text) => {
            proof {
                store::lemma_lookup_is_stored(docs.model(), id@);
            }
            Some(compute_tokens(text.as_str(), patterns.patterns()))
        },
    }
}

/// After `clear`, the pattern sequence is empty, and an empty pattern
/// sequence yields an empty token stream for every document text.
pub proof fn lemma_no_patterns_no_tokens(text: Seq<char>)
    ensures
        tokens_spec(text, Seq::<pattern::PatternModel>::empty()) == Seq::<
            encoder::EncodedToken,
        >::empty(),
{
    assert(engine::find_matches_spec(text, Seq::<pattern::PatternModel>::empty())
        =~= Seq::<engine::RawSpan>::empty());
    assert(encoder::sort_spans_spec(Seq::<engine::RawSpan>::empty())
        =~= Seq::<engine::RawSpan>::empty());
    assert(encoder::encode_spec(Seq::<engine::RawSpan>::empty()) =~= Seq::<
        encoder::EncodedToken,
    >::empty());
}

} // verus!
