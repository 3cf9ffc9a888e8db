use highlight_core::commands::completions_for;
use highlight_core::commands::execute_admin;
use highlight_core::commands::palette_color;
use highlight_core::commands::pattern_summary;
use highlight_core::commands::run_slash_command;
use highlight_core::commands::AdminCommand;
use highlight_core::pattern::HighlightOptions;
use highlight_core::pattern::HighlightPattern;
use highlight_core::store::DocumentStore;
use highlight_core::store::PatternStore;
use highlight_core::text::u32_to_decimal;
use highlight_core::tokens_for_document;

fn pat(text: &str) -> HighlightPattern {
    HighlightPattern {
        pattern: text.to_string(),
        case_sensitive: true,
        whole_word: false,
        is_regex: false,
        color_index: 0,
    }
}

fn opts() -> HighlightOptions {
    HighlightOptions { case_sensitive: false, whole_word: false, is_regex: false }
}

#[test]
fn from_args_splits_flags_and_words() {
    let args = vec![
        "--case-sensitive".to_string(),
        "hello".to_string(),
        "--regex".to_string(),
        "world".to_string(),
    ];
    let (o, rest) = HighlightOptions::from_args(&args);
    assert!(o.case_sensitive);
    assert!(!o.whole_word);
    assert!(o.is_regex);
    assert_eq!(rest, vec!["hello".to_string(), "world".to_string()]);
}

#[test]
fn from_args_without_flags_keeps_everything() {
    let args = vec!["a".to_string(), "b".to_string()];
    let (o, rest) = HighlightOptions::from_args(&args);
    assert!(!o.case_sensitive && !o.whole_word && !o.is_regex);
    assert_eq!(rest, args);
}

#[test]
fn toggle_is_its_own_inverse_and_statuses_alternate() {
    let mut store = PatternStore::new();
    let added = store.toggle("foo".to_string(), opts());
    assert!(added);
    assert_eq!(store.len(), 1);
    let added_again = store.toggle("foo".to_string(), opts());
    assert!(!added_again);
    assert_eq!(store.len(), 0);
}

#[test]
fn toggle_distinguishes_option_tuples() {
    let mut store = PatternStore::new();
    assert!(store.toggle("foo".to_string(), opts()));
    let mut o = opts();
    o.case_sensitive = true;
    // Same text, different options: a new entry, not a removal.
    assert!(store.toggle("foo".to_string(), o));
    assert_eq!(store.len(), 2);
}

#[test]
fn remove_drops_every_entry_with_that_text() {
    let mut store = PatternStore::new();
    let mut a = pat("foo");
    a.whole_word = true;
    store.add(a);
    store.add(pat("foo"));
    store.add(pat("bar"));
    store.remove(&"foo".to_string());
    assert_eq!(store.len(), 1);
    assert_eq!(store.patterns()[0].pattern, "bar");
    let all = store.get_all_patterns();
    assert_eq!(all.len(), 1);
    assert_eq!(all[0].pattern, "bar");
}

#[test]
fn admin_commands_report_their_status() {
    let mut store = PatternStore::new();
    let msg = execute_admin(&mut store, AdminCommand::Add(pat("x")));
    assert_eq!(msg, "Pattern added");
    assert_eq!(store.len(), 1);
    let msg = execute_admin(&mut store, AdminCommand::Remove("x".to_string()));
    assert_eq!(msg, "Pattern removed");
    assert_eq!(store.len(), 0);
    execute_admin(&mut store, AdminCommand::Add(pat("y")));
    let msg = execute_admin(&mut store, AdminCommand::Clear);
    assert_eq!(msg, "All patterns cleared");
    assert_eq!(store.len(), 0);
}

#[test]
fn clear_then_token_request_yields_empty_tokens() {
    let mut docs = DocumentStore::new();
    docs.replace("doc".to_string(), "foo foo foo".to_string());
    let mut store = PatternStore::new();
    store.add(pat("foo"));
    let tokens = tokens_for_document(&docs, &store, &"doc".to_string()).unwrap();
    assert_eq!(tokens.len(), 3);
    store.clear();
    let tokens = tokens_for_document(&docs, &store, &"doc".to_string()).unwrap();
    assert_eq!(tokens.len(), 0);
}

#[test]
fn unknown_document_is_an_absent_result() {
    let docs = DocumentStore::new();
    let store = PatternStore::new();
    assert!(tokens_for_document(&docs, &store, &"nowhere".to_string()).is_none());
}

#[test]
fn document_replace_is_wholesale() {
    let mut docs = DocumentStore::new();
    let store = {
        let mut s = PatternStore::new();
        s.add(pat("foo"));
        s
    };
    docs.replace("doc".to_string(), "foo".to_string());
    assert_eq!(tokens_for_document(&docs, &store, &"doc".to_string()).unwrap().len(), 1);
    docs.replace("doc".to_string(), "bar".to_string());
    assert_eq!(tokens_for_document(&docs, &store, &"doc".to_string()).unwrap().len(), 0);
}

#[test]
fn slash_highlight_adds_and_removes_with_messages() {
    let mut store = PatternStore::new();
    let out = run_slash_command(
        &mut store,
        &"highlight".to_string(),
        &vec!["foo".to_string(), "bar".to_string()],
    )
    .unwrap();
    assert_eq!(out.text, "Added highlight for pattern: 'foo bar'");
    assert_eq!(out.sections.len(), 1);
    assert_eq!(out.sections[0].start, 0);
    assert_eq!(out.sections[0].end, out.text.len());
    assert_eq!(out.sections[0].label, "Text Highlighter");
    assert_eq!(store.len(), 1);
    let out = run_slash_command(
        &mut store,
        &"highlight".to_string(),
        &vec!["foo".to_string(), "bar".to_string()],
    )
    .unwrap();
    assert_eq!(out.text, "Removed highlight for pattern: 'foo bar'");
    assert_eq!(store.len(), 0);
}

#[test]
fn slash_highlight_reports_flags_in_the_message() {
    let mut store = PatternStore::new();
    let out = run_slash_command(
        &mut store,
        &"highlight".to_string(),
        &vec!["--case-sensitive".to_string(), "--regex".to_string(), "x+".to_string()],
    )
    .unwrap();
    assert_eq!(out.text, "Added highlight for pattern: 'x+' (case-sensitive, regex)");
}

#[test]
fn slash_highlight_without_arguments_is_an_error() {
    let mut store = PatternStore::new();
    let err = run_slash_command(&mut store, &"highlight".to_string(), &Vec::new()).unwrap_err();
    assert_eq!(err, "Please provide text to highlight");
    let err = run_slash_command(
        &mut store,
        &"highlight".to_string(),
        &vec!["--whole-word".to_string()],
    )
    .unwrap_err();
    assert_eq!(err, "Please provide text to highlight after options");
}

#[test]
fn slash_navigation_reports_the_summary() {
    let mut store = PatternStore::new();
    let out = run_slash_command(&mut store, &"next_highlight".to_string(), &Vec::new()).unwrap();
    assert_eq!(out.text, "No highlights found. Use /highlight to add some.");
    store.toggle("foo".to_string(), opts());
    let out = run_slash_command(&mut store, &"next_highlight".to_string(), &Vec::new()).unwrap();
    assert_eq!(out.text, "Navigating to next highlight... 1 active highlights: 'foo' [#FFD700]");
    let out = run_slash_command(&mut store, &"prev_highlight".to_string(), &Vec::new()).unwrap();
    assert_eq!(
        out.text,
        "Navigating to previous highlight... 1 active highlights: 'foo' [#FFD700]"
    );
}

#[test]
fn slash_clear_reports_the_count() {
    let mut store = PatternStore::new();
    store.toggle("a".to_string(), opts());
    store.toggle("b".to_string(), opts());
    let out = run_slash_command(&mut store, &"clear_highlights".to_string(), &Vec::new()).unwrap();
    assert_eq!(out.text, "Cleared 2 highlight patterns");
    assert_eq!(store.len(), 0);
}

#[test]
fn unknown_slash_command_is_an_error() {
    let mut store = PatternStore::new();
    let err = run_slash_command(&mut store, &"bogus".to_string(), &Vec::new()).unwrap_err();
    assert_eq!(err, "unknown slash command: \"bogus\"");
}

#[test]
fn completions_match_the_command() {
    let v = completions_for(&"highlight".to_string()).unwrap();
    assert_eq!(v.len(), 3);
    assert_eq!(v[0].label, "Case Sensitive");
    assert_eq!(v[0].new_text, "--case-sensitive ");
    assert!(!v[0].run_command);
    assert_eq!(v[1].label, "Whole Word");
    assert_eq!(v[1].new_text, "--whole-word ");
    assert_eq!(v[2].label, "Regex Pattern");
    assert_eq!(v[2].new_text, "--regex ");
    assert_eq!(completions_for(&"clear_highlights".to_string()).unwrap().len(), 0);
    let err = completions_for(&"nope".to_string()).unwrap_err();
    assert_eq!(err, "unknown slash command: \"nope\"");
}

#[test]
fn summary_lists_flags_and_colors() {
    let mut store = PatternStore::new();
    let mut o = opts();
    o.whole_word = true;
    store.toggle("foo".to_string(), o);
    store.toggle("bar".to_string(), opts());
    assert_eq!(
        pattern_summary(&store),
        "2 active highlights: 'foo' (whole-word) [#FFD700], 'bar' [#FF6347]"
    );
}

#[test]
fn color_rotation_cycles_through_the_palette() {
    let mut store = PatternStore::new();
    for name in ["a", "b", "c", "d", "e", "f", "g", "h", "i"] {
        store.toggle(name.to_string(), opts());
    }
    let pats = store.patterns();
    assert_eq!(pats[0].color_index, 0);
    assert_eq!(pats[7].color_index, 7);
    // The ninth pattern wraps around to the first color again.
    assert_eq!(pats[8].color_index, 0);
    assert_eq!(palette_color(0), "#FFD700");
    assert_eq!(palette_color(8), "#FFD700");
    assert_eq!(palette_color(7), "#20B2AA");
}

#[test]
fn decimal_rendering_is_exact() {
    assert_eq!(u32_to_decimal(0), "0");
    assert_eq!(u32_to_decimal(9), "9");
    assert_eq!(u32_to_decimal(10), "10");
    assert_eq!(u32_to_decimal(1234567890), "1234567890");
}
