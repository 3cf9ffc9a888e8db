//! The administrative surfaces: the protocol's add/remove/clear commands
//! and the slash-command surface with its toggle, navigation and summary
//! replies.

use vstd::prelude::*;
use crate::pattern::parsed_options;
use crate::pattern::remaining_args;
use crate::pattern::HighlightOptions;
use crate::pattern::HighlightPattern;
use crate::pattern::PatternModel;
use crate::store::toggle_spec;
use crate::store::PatternStore;
use crate::text::dec_rep;
use crate::text::join_sep;
use crate::text::join_strings;
use crate::text::u32_to_decimal;
use crate::PALETTE_SIZE;

verus! {

/// The fixed color palette of the slash-command surface, as hex colors;
/// a pattern's slot is its color index reduced modulo the palette size.
pub open spec fn palette_color_spec(i: u32) -> Seq<char> {
    let k = i % PALETTE_SIZE;
    if k == 0 {
        "#FFD700"@
    } else if k == 1 {
        "#FF6347"@
    } else if k == 2 {
        "#32CD32"@
    } else if k == 3 {
        "#FF1493"@
    } else if k == 4 {
        "#00CED1"@
    } else if k == 5 {
        "#9370DB"@
    } else if k == 6 {
        "#FFA500"@
    } else {
        "#20B2AA"@
    }
}

/// The hex color of a palette slot, exactly as [`palette_color_spec`]
/// states.
pub fn palette_color(i: u32) -> (r: &'static str)
    ensures
        r@ == palette_color_spec(i),
{
    match i % PALETTE_SIZE {
        0 => "#FFD700",
        1 => "#FF6347",
        2 => "#32CD32",
        3 => "#FF1493",
        4 => "#00CED1",
        5 => "#9370DB",
        6 => "#FFA500",
        _ => "#20B2AA",
    }
}

/// The option-flag words of a pattern, in their fixed order.
pub open spec fn flag_words(o: HighlightOptions) -> Seq<Seq<char>> {
    (if o.case_sensitive {
        seq!["case-sensitive"@]
    } else {
        Seq::empty()
    }) + (if o.whole_word {
        seq!["whole-word"@]
    } else {
        Seq::empty()
    }) + (if o.is_regex {
        seq!["regex"@]
    } else {
        Seq::empty()
    })
}

/// The flag suffix appended to status strings: nothing when no option is
/// set, else the flag words joined by commas inside parentheses.
pub open spec fn flag_suffix_spec(o: HighlightOptions) -> Seq<char> {
    if flag_words(o).len() == 0 {
        Seq::empty()
    } else {
        " ("@ + join_sep(flag_words(o), ", "@) + ")"@
    }
}

/// Renders the flag suffix, exactly as [`flag_suffix_spec`] states.
pub fn flag_suffix(o: HighlightOptions) -> (r: String)
    ensures
        r@ == flag_suffix_spec(o),
{
    let mut words: Vec<String> = Vec::new();
    if o.case_sensitive {
        words.push("case-sensitive".to_owned());
    }
    if o.whole_word {
        words.push("whole-word".to_owned());
    }
    if o.is_regex {
        words.push("regex".to_owned());
    }
    proof {
        assert(words.deep_view() =~= flag_words(o));
    }
    if words.len() == 0 {
        String::new()
    } else {
        let joined = join_strings(&words, ", ");
        let mut s = " (".to_owned();
        s.append(joined.as_str());
        s.append(")");
        proof {
            assert(s@ =~= flag_suffix_spec(o));
        }
        s
    }
}

/// The options recorded in a stored pattern.
pub open spec fn opts_of(p: PatternModel) -> HighlightOptions {
    HighlightOptions {
        case_sensitive: p.case_sensitive,
        whole_word: p.whole_word,
        is_regex: p.is_regex,
    }
}

/// One pattern's summary entry: the quoted pattern text, its flag suffix,
/// and its palette color in brackets.
pub open spec fn entry_spec(p: PatternModel) -> Seq<char> {
    "'"@ + p.pattern + "'"@ + flag_suffix_spec(opts_of(p)) + " ["@ + palette_color_spec(
        p.color_index,
    ) + "]"@
}

/// The summary entries of a pattern sequence.
pub open spec fn entries_spec(pats: Seq<PatternModel>) -> Seq<Seq<char>> {
    pats.map_values(|p: PatternModel| entry_spec(p))
}

/// The pattern summary: a fixed reply for an empty store, else the count
/// followed by every pattern's entry, comma-separated.
pub open spec fn summary_spec(pats: Seq<PatternModel>) -> Seq<char> {
    if pats.len() == 0 {
        "No active highlights"@
    } else {
        dec_rep(pats.len() as int) + " active highlights: "@ + join_sep(entries_spec(pats), ", "@)
    }
}

fn entry_string(p: &HighlightPattern) -> (r: String)
    ensures
        r@ == entry_spec(p@),
{
    let o = HighlightOptions {
        case_sensitive: p.case_sensitive,
        whole_word: p.whole_word,
        is_regex: p.is_regex,
    };
    let suffix = flag_suffix(o);
    let color = palette_color(p.color_index);
    let mut s = "'".to_owned();
    s.append(p.pattern.as_str());
    s.append("'");
    s.append(suffix.as_str());
    s.append(" [");
    s.append(color);
    s.append("]");
    proof {
        assert(s@ =~= entry_spec(p@));
    }
    s
}

/// Renders the summary of the declared patterns, exactly as
/// [`summary_spec`] states.
pub fn pattern_summary(store: &PatternStore) -> (r: String)
    requires
        store.wf(),
    ensures
        r@ == summary_spec(store@.patterns),
{
    let pats = store.patterns();
    let ghost pv = store@.patterns;
    if pats.len() == 0 {
        return "No active highlights".to_owned();
    }
    let mut entries: Vec<String> = Vec::new();
    let mut i: usize = 0;
    proof {
        assert(entries.deep_view() =~= entries_spec(pv.take(0)));
    }
    while i < pats.len()
        invariant
            0 <= i <= pv.len(),
            pv == store@.patterns,
            pats.deep_view() == pv,
            entries.deep_view() == entries_spec(pv.take(i as int)),
        decreases pv.len() - i,
    {
        let e = entry_string(&pats[i]);
        entries.push(e);
        proof {
            assert(pats[i as int]@ == pv[i as int]);
            assert(entries_spec(pv.take(i + 1)) =~= entries_spec(pv.take(i as int)).push(
                entry_spec(pv[i as int]),
            ));
            assert(entries.deep_view() =~= entries_spec(pv.take(i as int)).push(
                entry_spec(pv[i as int]),
            ));
        }
        i += 1;
    }
    proof {
        assert(pv.take(pv.len() as int) =~= pv);
    }
    let joined = join_strings(&entries, ", ");
    let mut s = u32_to_decimal(pats.len() as u32);
    s.append(" active highlights: ");
    s.append(joined.as_str());
    proof {
        assert(s@ =~= summary_spec(pv));
    }
    s
}

/// One argument completion offered by the slash-command surface.
#[derive(Debug)]
pub struct Completion {
    pub label: String,
    pub new_text: String,
    pub run_command: bool,
}

/// The slash commands this surface answers to.
pub open spec fn is_known_command(c: Seq<char>) -> bool {
    ||| c == "highlight"@
    ||| c == "next_highlight"@
    ||| c == "prev_highlight"@
    ||| c == "clear_highlights"@
}

/// The error reply for a command this surface does not know.
pub open spec fn unknown_command_message(c: Seq<char>) -> Seq<char> {
    "unknown slash command: \""@ + c + "\""@
}

fn unknown_command_error(command: &String) -> (r: String)
    ensures
        r@ == unknown_command_message(command@),
{
    let mut s = "unknown slash command: \"".to_owned();
    s.append(command.as_str());
    s.append("\"");
    proof {
        assert(s@ =~= unknown_command_message(command@));
    }
    s
}

/// Offers the argument completions of a slash command: the three option
/// flags for `highlight`, nothing for the navigation and clear commands,
/// and an error for a command this surface does not know.
pub fn completions_for(command: &String) -> (r: Result<Vec<Completion>, String>)
    ensures
        r is Ok <==> is_known_command(command@),
        command@ == "highlight"@ && r is Ok ==> ({
            let v = r->Ok_0;
            &&& v@.len() == 3
            &&& v@[0].label@ == "Case Sensitive"@
            &&& v@[0].new_text@ == "--case-sensitive "@
            &&& !v@[0].run_command
            &&& v@[1].label@ == "Whole Word"@
            &&& v@[1].new_text@ == "--whole-word "@
            &&& !v@[1].run_command
            &&& v@[2].label@ == "Regex Pattern"@
            &&& v@[2].new_text@ == "--regex "@
            &&& !v@[2].run_command
        }),
        command@ != "highlight"@ && r is Ok ==> (r->Ok_0@.len() == 0),
        r is Err ==> (r->Err_0@ == unknown_command_message(command@)),
{
    if *command == "highlight".to_owned() {
        Ok(
            vec![
                Completion {
                    label: "Case Sensitive".to_owned(),
                    new_text: "--case-sensitive ".to_owned(),
                    run_command: false,
                },
                Completion {
                    label: "Whole Word".to_owned(),
                    new_text: "--whole-word ".to_owned(),
                    run_command: false,
                },
                Completion {
                    label: "Regex Pattern".to_owned(),
                    new_text: "--regex ".to_owned(),
                    run_command: false,
                },
            ],
        )
    } else if *command == "next_highlight".to_owned() || *command == "prev_highlight".to_owned()
        || *command == "clear_highlights".to_owned() {
        Ok(Vec::new())
    } else {
        Err(unknown_command_error(command))
    }
}

/// An administrative request of the protocol surface.
pub enum AdminCommand {
    Add(HighlightPattern),
    Remove(String),
    Clear,
}

/// Applies one administrative request to the pattern store: `Add` appends
/// the pattern, `Remove` drops every pattern with that text, `Clear`
/// empties the store; each reports its short status string.
pub fn execute_admin(store: &mut PatternStore, cmd: AdminCommand) -> (r: String)
    requires
        old(store).wf(),
        old(store)@.patterns.len() + 1 < u32::MAX as int,
    ensures
        final(store).wf(),
        final(store)@.color_index == old(store)@.color_index,
        cmd matches AdminCommand::Add(p) ==> final(store)@.patterns == old(store)@.patterns.push(p@) && r@ == "Pattern added"@,
        cmd matches AdminCommand::Remove(t) ==> final(store)@.patterns == old(store)@.patterns.filter(|pm: PatternModel| pm.pattern != t@) && r@ == "Pattern removed"@,
        cmd is Clear ==> final(store)@.patterns.len() == 0 && r@ == "All patterns cleared"@,
{
    match cmd {
        AdminCommand::Add(p) => {
            store.add(p);
            "Pattern added".to_owned()
        },
        AdminCommand::Remove(t) => {
            store.remove(&t);
            "Pattern removed".to_owned()
        },
        AdminCommand::Clear => {
            store.clear();
            "All patterns cleared".to_owned()
        },
    }
}

/// The status string of one toggle: the action taken, the quoted pattern
/// text, and the flag suffix of the options it was requested with.
pub open spec fn toggle_message_spec(added: bool, pattern: Seq<char>, o: HighlightOptions) -> Seq<
    char,
> {
    (if added {
        "Added"@
    } else {
        "Removed"@
    }) + " highlight for pattern: '"@ + pattern + "'"@ + flag_suffix_spec(o)
}

/// One section of a slash-command reply: a byte range of the reply text
/// under a label.
#[derive(Debug)]
pub struct OutputSection {
    pub start: usize,
    pub end: usize,
    pub label: String,
}

/// A slash-command reply: the text shown to the user and its labelled
/// sections.
#[derive(Debug)]
pub struct SlashOutput {
    pub text: String,
    pub sections: Vec<OutputSection>,
}

/// Runs one slash command against the pattern store.
///
/// `highlight` parses the option flags, joins the remaining words into the
/// pattern text, toggles it, and replies with the action taken, under one
/// section labelled for the whole reply; without any arguments, or with
/// only option flags, it is an error. `next_highlight` and
/// `prev_highlight` reply with the pattern summary (navigation itself
/// needs host support that no reply can carry). `clear_highlights` empties
/// the store and reports how many patterns it dropped. Any other command
/// is an error.
pub fn run_slash_command(store: &mut PatternStore, command: &String, args: &Vec<String>) -> (r:
    Result<SlashOutput, String>)
    requires
        old(store).wf(),
        old(store)@.patterns.len() + 1 < u32::MAX as int,
    ensures
        final(store).wf(),
        !is_known_command(command@) ==> (r is Err && r->Err_0@ == unknown_command_message(
            command@,
        ) && *final(store) == *old(store)),
        command@ == "highlight"@ && args.deep_view().len() == 0 ==> (r is Err && r->Err_0@
            == "Please provide text to highlight"@ && *final(store) == *old(store)),
        command@ == "highlight"@ && args.deep_view().len() > 0 && remaining_args(
            args.deep_view(),
        ).len() == 0 ==> (r is Err && r->Err_0@
            == "Please provide text to highlight after options"@ && *final(store) == *old(store)),
        command@ == "highlight"@ && args.deep_view().len() > 0 && remaining_args(
            args.deep_view(),
        ).len() > 0 ==> ({
            let o = parsed_options(args.deep_view());
            let pat = join_sep(remaining_args(args.deep_view()), " "@);
            let tog = toggle_spec(old(store)@, pat, o);
            let out = r->Ok_0;
            &&& final(store)@ == tog.0
            &&& r is Ok
            &&& out.text@ == toggle_message_spec(tog.1, pat, o)
            &&& out.sections@.len() == 1
            &&& out.sections@[0].start == 0
            &&& out.sections@[0].end == vstd::utf8::encode_utf8(out.text@).len() as usize
            &&& out.sections@[0].label@ == "Text Highlighter"@
        }),
        (command@ == "next_highlight"@ || command@ == "prev_highlight"@) ==> ({
            let out = r->Ok_0;
            &&& *final(store) == *old(store)
            &&& r is Ok
            &&& out.sections@.len() == 0
            &&& out.text@ == (if old(store)@.patterns.len() == 0 {
                "No highlights found. Use /highlight to add some."@
            } else {
                (if command@ == "next_highlight"@ {
                    "Navigating to next highlight... "@
                } else {
                    "Navigating to previous highlight... "@
                }) + summary_spec(old(store)@.patterns)
            })
        }),
        command@ == "clear_highlights"@ ==> ({
            let out = r->Ok_0;
            &&& final(store)@.patterns.len() == 0
            &&& final(store)@.color_index == old(store)@.color_index
            &&& r is Ok
            &&& out.sections@.len() == 0
            &&& out.text@ == "Cleared "@ + dec_rep(old(store)@.patterns.len() as int)
                + " highlight patterns"@
        }),
{
    proof {
        reveal_strlit("highlight");
        reveal_strlit("next_highlight");
        reveal_strlit("prev_highlight");
        reveal_strlit("clear_highlights");
        assert("highlight"@.len() == 9 && "next_highlight"@.len() == 14 && "prev_highlight"@.len()
            == 14 && "clear_highlights"@.len() == 16);
        assert("next_highlight"@[0] != "prev_highlight"@[0]);
        assert("next_highlight"@ != "prev_highlight"@);
    }
    if *command == "highlight".to_owned() {
        if args.len() == 0 {
            return Err("Please provide text to highlight".to_owned());
        }
        let args_slice = args.as_slice();
        let parsed = HighlightOptions::from_args(args_slice);
        let options = parsed.0;
        let pattern_args = parsed.1;
        proof {
            assert(args_slice.deep_view() =~= args.deep_view());
        }
        if pattern_args.len() == 0 {
            return Err("Please provide text to highlight after options".to_owned());
        }
        let pattern = join_strings(&pattern_args, " ");
        let was_added = store.toggle(pattern.clone(), options);
        let suffix = flag_suffix(options);
        let mut text = if was_added {
            "Added".to_owned()
        } else {
            "Removed".to_owned()
        };
        text.append(" highlight for pattern: '");
        text.append(pattern.as_str());
        text.append("'");
        text.append(suffix.as_str());
        proof {
            assert(text@ =~= toggle_message_spec(
                was_added,
                join_sep(remaining_args(args.deep_view()), " "@),
                options,
            ));
        }
        let end = text.as_str().len();
        proof {
            let dvargs = args.deep_view();
            assert(args@.len() == dvargs.len());
            assert(pattern_args.deep_view() == remaining_args(dvargs));
            assert(pattern@ == join_sep(remaining_args(dvargs), " "@));
            assert(options == parsed_options(dvargs));
            let tog = toggle_spec(old(store)@, pattern@, options);
            assert(store@ == tog.0);
            assert(was_added == tog.1);
            assert(end == vstd::utf8::encode_utf8(text@).len() as usize);
        }
        Ok(
            SlashOutput {
                text,
                sections: vec![
                    OutputSection { start: 0, end, label: "Text Highlighter".to_owned() },
                ],
            },
        )
    } else if *command == "next_highlight".to_owned() || *command == "prev_highlight".to_owned() {
        if store.len() == 0 {
            return Ok(
                SlashOutput {
                    text: "No highlights found. Use /highlight to add some.".to_owned(),
                    sections: Vec::new(),
                },
            );
        }
        let summary = pattern_summary(store);
        let mut text = if *command == "next_highlight".to_owned() {
            "Navigating to next highlight... ".to_owned()
        } else {
            "Navigating to previous highlight... ".to_owned()
        };
        text.append(summary.as_str());
        Ok(SlashOutput { text, sections: Vec::new() })
    } else if *command == "clear_highlights".to_owned() {
        let count = store.len();
        store.clear();
        let count_str = u32_to_decimal(count as u32);
        let mut text = "Cleared ".to_owned();
        text.append(count_str.as_str());
        text.append(" highlight patterns");
        proof {
            assert(text@ =~= "Cleared "@ + dec_rep(old(store)@.patterns.len() as int)
                + " highlight patterns"@);
        }
        Ok(SlashOutput { text, sections: Vec::new() })
    } else {
        Err(unknown_command_error(command))
    }
}

} // verus!
