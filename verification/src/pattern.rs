//! User-declared highlight patterns and the option flags of the
//! slash-command surface.

use vstd::prelude::*;
use crate::seq_facts::lemma_filter_push;

verus! {

/// Mathematical model of one highlight pattern.
pub ghost struct PatternModel {
    pub pattern: Seq<char>,
    pub case_sensitive: bool,
    pub whole_word: bool,
    pub is_regex: bool,
    pub color_index: u32,
}

/// One user-declared highlight rule: the text (or regex) to look for, how to
/// match it, and which palette slot colors its matches.
pub struct HighlightPattern {
    pub pattern: String,
    pub case_sensitive: bool,
    pub whole_word: bool,
    pub is_regex: bool,
    pub color_index: u32,
}

impl View for HighlightPattern {
    type V = PatternModel;

    open spec fn view(&self) -> PatternModel {
        PatternModel {
            pattern: self.pattern@,
            case_sensitive: self.case_sensitive,
            whole_word: self.whole_word,
            is_regex: self.is_regex,
            color_index: self.color_index,
        }
    }
}

impl DeepView for HighlightPattern {
    type V = PatternModel;

    open spec fn deep_view(&self) -> PatternModel {
        self.view()
    }
}

impl Clone for HighlightPattern {
    fn clone(&self) -> (r: Self)
        ensures
            r@ == self@,
    {
        HighlightPattern {
            pattern: self.pattern.clone(),
            case_sensitive: self.case_sensitive,
            whole_word: self.whole_word,
            is_regex: self.is_regex,
            color_index: self.color_index,
        }
    }
}

/// Matching options parsed from slash-command arguments.
#[derive(Clone, Copy, PartialEq, Eq, Structural)]
pub struct HighlightOptions {
    pub case_sensitive: bool,
    pub whole_word: bool,
    pub is_regex: bool,
}

impl Default for HighlightOptions {
    fn default() -> (r: Self)
        ensures
            !r.case_sensitive && !r.whole_word && !r.is_regex,
    {
        HighlightOptions { case_sensitive: false, whole_word: false, is_regex: false }
    }
}

/// The three option flags recognized among slash-command arguments.
pub open spec fn is_option_flag(s: Seq<char>) -> bool {
    ||| s == "--case-sensitive"@
    ||| s == "--whole-word"@
    ||| s == "--regex"@
}

/// The options that a slash-command argument list declares: each flag is
/// set exactly when it occurs among the arguments.
pub open spec fn parsed_options(args: Seq<Seq<char>>) -> HighlightOptions {
    HighlightOptions {
        case_sensitive: exists|i: int| 0 <= i < args.len() && args[i] == "--case-sensitive"@,
        whole_word: exists|i: int| 0 <= i < args.len() && args[i] == "--whole-word"@,
        is_regex: exists|i: int| 0 <= i < args.len() && args[i] == "--regex"@,
    }
}

/// The arguments that are not option flags, in their original order.
pub open spec fn remaining_args(args: Seq<Seq<char>>) -> Seq<Seq<char>> {
    args.filter(|s: Seq<char>| !is_option_flag(s))
}

impl HighlightOptions {
    /// Splits slash-command arguments into the recognized option flags and
    /// the remaining words, which form the pattern text. An option flag may
    /// appear anywhere; the other words keep their order.
    pub fn from_args(args: &[String]) -> (r: (Self, Vec<String>))
        ensures
            r.0 == parsed_options(args.deep_view()),
            r.1.deep_view() == remaining_args(args.deep_view()),
    {
        let flag_cs: String = "--case-sensitive".to_owned();
        let flag_ww: String = "--whole-word".to_owned();
        let flag_rx: String = "--regex".to_owned();
        let mut options = HighlightOptions::default();
        let mut remaining: Vec<String> = Vec::new();
        let ghost pred = |s: Seq<char>| !is_option_flag(s);
        let mut i: usize = 0;
        while i < args.len()
            invariant
                0 <= i <= args@.len(),
                flag_cs@ == "--case-sensitive"@,
                flag_ww@ == "--whole-word"@,
                flag_rx@ == "--regex"@,
                pred == (|s: Seq<char>| !is_option_flag(s)),
                options.case_sensitive <==> (exists|j: int|
                    0 <= j < i && args.deep_view()[j] == "--case-sensitive"@),
                options.whole_word <==> (exists|j: int|
                    0 <= j < i && args.deep_view()[j] == "--whole-word"@),
                options.is_regex <==> (exists|j: int|
                    0 <= j < i && args.deep_view()[j] == "--regex"@),
                remaining.deep_view() == args.deep_view().take(i as int).filter(pred),
            decreases args@.len() - i,
        {
            let arg = &args[i];
            proof {
                reveal_strlit("--case-sensitive");
                reveal_strlit("--whole-word");
                reveal_strlit("--regex");
                assert("--case-sensitive"@.len() == 16 && "--whole-word"@.len() == 12
                    && "--regex"@.len() == 7);
                assert("--case-sensitive"@ != "--whole-word"@ && "--case-sensitive"@ != "--regex"@
                    && "--whole-word"@ != "--regex"@);
                assert(args.deep_view().take(i + 1).drop_last() =~= args.deep_view().take(i as int));
                assert(args.deep_view().take(i + 1) =~= args.deep_view().take(i as int).push(
                    args@[i as int]@,
                ));
                lemma_filter_push(args.deep_view().take(i as int), pred, args@[i as int]@);
                assert(args.deep_view()[i as int] == args@[i as int]@);
            }
            if *arg == flag_cs {
                options.case_sensitive = true;
                proof {
                    assert(args.deep_view()[i as int] == "--case-sensitive"@);
                }
            } else if *arg == flag_ww {
                options.whole_word = true;
                proof {
                    assert(args.deep_view()[i as int] == "--whole-word"@);
                }
            } else if *arg == flag_rx {
                options.is_regex = true;
                proof {
                    assert(args.deep_view()[i as int] == "--regex"@);
                }
            } else {
                remaining.push(arg.clone());
                proof {
                    assert(remaining.deep_view() =~= args.deep_view().take(i + 1).filter(pred));
                }
            }
            i += 1;
        }
        proof {
            assert(args.deep_view().take(args@.len() as int) =~= args.deep_view());
        }
        (options, remaining)
    }
}

} // verus!
