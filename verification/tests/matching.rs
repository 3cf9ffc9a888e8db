use highlight_core::compute_tokens;
use highlight_core::encoder::encode;
use highlight_core::engine::find_matches;
use highlight_core::engine::split_lines;
use highlight_core::engine::RawSpan;
use highlight_core::matcher::compile;
use highlight_core::pattern::HighlightPattern;

fn pat(text: &str, case_sensitive: bool, whole_word: bool, is_regex: bool) -> HighlightPattern {
    HighlightPattern {
        pattern: text.to_string(),
        case_sensitive,
        whole_word,
        is_regex,
        color_index: 0,
    }
}

#[test]
fn whole_word_literal_matches_only_the_word() {
    let patterns = vec![pat("cat", true, true, false)];
    let spans = find_matches("cat catalog", &patterns);
    assert_eq!(
        spans,
        vec![RawSpan { line: 0, start_col: 0, length: 3, pattern_index: 0 }]
    );
}

#[test]
fn case_insensitive_matches_any_case() {
    let patterns = vec![pat("ERROR", false, false, false)];
    let spans = find_matches("an error occurred", &patterns);
    assert_eq!(
        spans,
        vec![RawSpan { line: 0, start_col: 3, length: 5, pattern_index: 0 }]
    );
}

#[test]
fn case_sensitive_does_not_match_other_case() {
    let patterns = vec![pat("ERROR", true, false, false)];
    let spans = find_matches("an error occurred", &patterns);
    assert_eq!(spans, vec![]);
}

#[test]
fn malformed_regex_does_not_block_other_patterns() {
    let patterns = vec![pat("(", true, false, true), pat("foo", true, false, false)];
    let spans = find_matches("foo", &patterns);
    assert_eq!(
        spans,
        vec![RawSpan { line: 0, start_col: 0, length: 3, pattern_index: 1 }]
    );
}

#[test]
fn malformed_regex_is_a_compile_error() {
    assert!(compile(&pat("(", true, false, true)).is_err());
    assert!(compile(&pat("(", true, false, false)).is_ok());
    assert!(compile(&pat("f(o+)o", true, false, true)).is_ok());
}

#[test]
fn literal_metacharacters_are_escaped() {
    // Were the literal not escaped, "a.c" would also match "abc".
    let patterns = vec![pat("a.c", true, false, false)];
    let spans = find_matches("abc a.c", &patterns);
    assert_eq!(
        spans,
        vec![RawSpan { line: 0, start_col: 4, length: 3, pattern_index: 0 }]
    );
}

#[test]
fn regex_patterns_are_taken_verbatim() {
    let patterns = vec![pat("ba+r", true, false, true)];
    let spans = find_matches("bar baaar br", &patterns);
    assert_eq!(
        spans,
        vec![
            RawSpan { line: 0, start_col: 0, length: 3, pattern_index: 0 },
            RawSpan { line: 0, start_col: 4, length: 5, pattern_index: 0 },
        ]
    );
}

#[test]
fn whole_word_is_not_applied_to_regex_patterns() {
    // The word-boundary wrapping applies to literal patterns only; a regex
    // pattern keeps its own boundaries.
    let patterns = vec![pat("cat", true, true, true)];
    let spans = find_matches("cat catalog", &patterns);
    assert_eq!(
        spans,
        vec![
            RawSpan { line: 0, start_col: 0, length: 3, pattern_index: 0 },
            RawSpan { line: 0, start_col: 4, length: 3, pattern_index: 0 },
        ]
    );
}

#[test]
fn matching_is_line_scoped_and_crlf_is_a_separator() {
    let patterns = vec![pat("foo", true, false, false)];
    let spans = find_matches("bar\r\nfoo", &patterns);
    assert_eq!(
        spans,
        vec![RawSpan { line: 1, start_col: 0, length: 3, pattern_index: 0 }]
    );
}

#[test]
fn split_lines_matches_the_documented_normalization() {
    let lines = split_lines("a\nb\r\nc\n");
    assert_eq!(lines, vec!["a".to_string(), "b".to_string(), "c".to_string()]);
    let lines = split_lines("");
    assert_eq!(lines, Vec::<String>::new());
    let lines = split_lines("tail\r");
    assert_eq!(lines, vec!["tail\r".to_string()]);
}

#[test]
fn scenario_two_lines_delta_encoding() {
    let patterns = vec![pat("foo", true, false, false)];
    let spans = find_matches("foo\nbar foo", &patterns);
    assert_eq!(
        spans,
        vec![
            RawSpan { line: 0, start_col: 0, length: 3, pattern_index: 0 },
            RawSpan { line: 1, start_col: 4, length: 3, pattern_index: 0 },
        ]
    );
    let tokens = compute_tokens("foo\nbar foo", &patterns);
    assert_eq!(tokens.len(), 2);
    assert_eq!(
        (tokens[0].delta_line, tokens[0].delta_start, tokens[0].length, tokens[0].token_type,
         tokens[0].token_modifiers),
        (0, 0, 3, 0, 0)
    );
    assert_eq!(
        (tokens[1].delta_line, tokens[1].delta_start, tokens[1].length, tokens[1].token_type,
         tokens[1].token_modifiers),
        (1, 4, 3, 0, 0)
    );
}

#[test]
fn overlapping_spans_keep_pattern_order() {
    let patterns = vec![pat("abc", true, false, false), pat("ab", true, false, false)];
    let tokens = compute_tokens("abc", &patterns);
    // Both patterns match at line 0 column 0; the tie keeps pattern order.
    assert_eq!(tokens.len(), 2);
    assert_eq!((tokens[0].length, tokens[0].token_type), (3, 0));
    assert_eq!((tokens[1].length, tokens[1].token_type), (2, 1));
    assert_eq!((tokens[1].delta_line, tokens[1].delta_start), (0, 0));
}

#[test]
fn token_types_cycle_through_the_palette() {
    let mut patterns = Vec::new();
    for i in 0..9 {
        let mut p = pat("x", true, false, false);
        p.color_index = i as u32;
        patterns.push(p);
    }
    let tokens = compute_tokens("x", &patterns);
    assert_eq!(tokens.len(), 9);
    assert_eq!(tokens[8].token_type, 0); // pattern 8 wraps around to slot 0
    assert_eq!(tokens[7].token_type, 7);
}

#[test]
fn encode_sorts_and_delta_encodes_unordered_spans() {
    let spans = vec![
        RawSpan { line: 2, start_col: 5, length: 1, pattern_index: 0 },
        RawSpan { line: 1, start_col: 3, length: 2, pattern_index: 1 },
        RawSpan { line: 2, start_col: 1, length: 4, pattern_index: 2 },
    ];
    let tokens = encode(&spans);
    let triples: Vec<(u32, u32, u32)> = tokens
        .iter()
        .map(|t| (t.delta_line, t.delta_start, t.length))
        .collect();
    assert_eq!(triples, vec![(1, 3, 2), (1, 1, 4), (0, 4, 1)]);
    // Summing the deltas from (0, 0) reproduces the sorted positions.
    let mut line = 0u32;
    let mut col = 0u32;
    let mut absolute = Vec::new();
    for t in &tokens {
        line += t.delta_line;
        col = if t.delta_line == 0 { col + t.delta_start } else { t.delta_start };
        absolute.push((line, col));
    }
    assert_eq!(absolute, vec![(1, 3), (2, 1), (2, 5)]);
}

#[test]
fn empty_span_list_encodes_to_nothing() {
    let tokens = encode(&Vec::new());
    assert_eq!(tokens.len(), 0);
}

#[test]
fn no_patterns_yield_no_tokens() {
    let tokens = compute_tokens("anything at all", &Vec::new());
    assert_eq!(tokens.len(), 0);
}

#[test]
fn first_token_delta_line_is_its_absolute_line() {
    let patterns = vec![pat("needle", true, false, false)];
    let tokens = compute_tokens("\n\nneedle", &patterns);
    assert_eq!(tokens.len(), 1);
    assert_eq!((tokens[0].delta_line, tokens[0].delta_start), (2, 0));
}

#[test]
fn pattern_with_newline_never_matches() {
    let patterns = vec![pat("a\nb", true, false, false)];
    let spans = find_matches("a\nb", &patterns);
    assert_eq!(spans, vec![]);
}
