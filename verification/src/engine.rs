//! Match engine: splits a document into lines and runs every compiled
//! pattern over every line, producing one raw span per match.

use vstd::prelude::*;
use crate::matcher::build_source_spec;
use crate::matcher::compile;
use crate::matcher::CompiledMatcher;
use crate::matcher::find_on_line;
use crate::matcher::regex_compiles;
use crate::matcher::regex_line_spans;
use crate::pattern::HighlightPattern;
use crate::pattern::PatternModel;
use crate::MAX_TEXT_LEN;

verus! {

/// One match occurrence: a line index, a starting byte column, a byte
/// length, and the index of the pattern that produced it.
#[derive(Clone, Copy, PartialEq, Eq, Structural, Debug)]
pub struct RawSpan {
    pub line: u32,
    pub start_col: u32,
    pub length: u32,
    pub pattern_index: u32,
}

/// Document lines. The text is split at `'\n'`, and a single `'\r'`
/// directly before a `'\n'` belongs to the separator, not to the line; a
/// final line ending opens no further line. This is the engine's one
/// line-terminator normalization; columns always count bytes within a line.
pub open spec fn split_lines_spec(s: Seq<char>) -> Seq<Seq<char>>
    decreases s.len(),
{
    if s.len() == 0 {
        Seq::empty()
    } else if s[0] == '\n' {
        seq![Seq::<char>::empty()] + split_lines_spec(s.skip(1))
    } else if s[0] == '\r' && s.len() >= 2 && s[1] == '\n' {
        seq![Seq::<char>::empty()] + split_lines_spec(s.skip(2))
    } else {
        glue(seq![s[0]], split_lines_spec(s.skip(1)))
    }
}

/// Joins an open line fragment onto the front of an already-split tail.
pub open spec fn glue(cur: Seq<char>, rest: Seq<Seq<char>>) -> Seq<Seq<char>> {
    if rest.len() == 0 {
        if cur.len() == 0 {
            Seq::empty()
        } else {
            seq![cur]
        }
    } else {
        rest.update(0, cur + rest[0])
    }
}

proof fn lemma_glue_empty(rest: Seq<Seq<char>>)
    ensures
        glue(Seq::<char>::empty(), rest) == rest,
{
    if rest.len() > 0 {
        assert(Seq::<char>::empty() + rest[0] =~= rest[0]);
        assert(rest.update(0, rest[0]) =~= rest);
    }
}

proof fn lemma_glue_extend(cur: Seq<char>, c: char, rest: Seq<Seq<char>>)
    ensures
        glue(cur, glue(seq![c], rest)) == glue(cur.push(c), rest),
{
    if rest.len() == 0 {
        assert(cur + seq![c] =~= cur.push(c));
    } else {
        assert(cur + (seq![c] + rest[0]) =~= cur.push(c) + rest[0]);
        assert(glue(cur, glue(seq![c], rest)) =~= glue(cur.push(c), rest));
    }
}

proof fn lemma_glue_newline(cur: Seq<char>, rest: Seq<Seq<char>>)
    ensures
        glue(cur, seq![Seq::<char>::empty()] + rest) == seq![cur] + rest,
{
    assert(cur + Seq::<char>::empty() =~= cur);
    assert((seq![Seq::<char>::empty()] + rest).update(0, cur) =~= seq![cur] + rest);
}

/// Every line of a split text is at most as long as the text, and there are
/// at most as many lines as characters.
pub proof fn lemma_split_lines_bounds(s: Seq<char>)
    ensures
        split_lines_spec(s).len() <= s.len(),
        forall|i: int|
            0 <= i < split_lines_spec(s).len() ==> (#[trigger] split_lines_spec(s)[i]).len()
                <= s.len(),
    decreases s.len(),
{
    if s.len() == 0 {
    } else if s[0] == '\n' {
        lemma_split_lines_bounds(s.skip(1));
    } else if s[0] == '\r' && s.len() >= 2 && s[1] == '\n' {
        lemma_split_lines_bounds(s.skip(2));
    } else {
        lemma_split_lines_bounds(s.skip(1));
        let rest = split_lines_spec(s.skip(1));
        if rest.len() == 0 {
        } else {
            assert(glue(seq![s[0]], rest) == rest.update(0, seq![s[0]] + rest[0]));
        }
    }
}

/// Splits the document text into lines, exactly as [`split_lines_spec`]
/// states.
pub fn split_lines(text: &str) -> (r: Vec<String>)
    ensures
        r.deep_view() == split_lines_spec(text@),
{
    let n = text.unicode_len();
    let mut lines: Vec<String> = Vec::new();
    let mut line_start: usize = 0;
    let mut k: usize = 0;
    proof {
        assert(text@.skip(0) =~= text@);
        assert(text@.subrange(0, 0) =~= Seq::<char>::empty());
        lemma_glue_empty(split_lines_spec(text@));
        assert(lines.deep_view() + glue(text@.subrange(0, 0), split_lines_spec(text@.skip(0)))
            =~~= split_lines_spec(text@));
    }
    while k < n
        invariant
            0 <= line_start <= k <= n,
            n == text@.len(),
            split_lines_spec(text@) == lines.deep_view() + glue(
                text@.subrange(line_start as int, k as int),
                split_lines_spec(text@.skip(k as int)),
            ),
        decreases n - k,
    {
        let ghost cur = text@.subrange(line_start as int, k as int);
        let ghost rest = text@.skip(k as int);
        proof {
            assert(rest.len() > 0);
            assert(rest[0] == text@[k as int]);
        }
        let c = text.get_char(k);
        if c == '\n' {
            let piece = text.substring_char(line_start, k);
            lines.push(piece.to_owned());
            proof {
                assert(rest.skip(1) =~= text@.skip(k + 1));
                lemma_glue_newline(cur, split_lines_spec(text@.skip(k + 1)));
                assert(lines.deep_view() =~= lines.deep_view().drop_last().push(cur));
                assert(lines.deep_view() + glue(
                    text@.subrange(k + 1, k + 1),
                    split_lines_spec(text@.skip(k + 1)),
                ) =~~= lines.deep_view().drop_last() + (seq![cur] + split_lines_spec(
                    text@.skip(k + 1),
                ))) by {
                    lemma_glue_empty(split_lines_spec(text@.skip(k + 1)));
                    assert(text@.subrange(k + 1, k + 1) =~= Seq::<char>::empty());
                }
            }
            line_start = k + 1;
            k = k + 1;
        } else if c == '\r' && k + 1 < n && text.get_char(k + 1) == '\n' {
            let piece = text.substring_char(line_start, k);
            lines.push(piece.to_owned());
            proof {
                assert(rest.len() >= 2 && rest[1] == text@[k + 1]);
                assert(rest.skip(2) =~= text@.skip(k + 2));
                lemma_glue_newline(cur, split_lines_spec(text@.skip(k + 2)));
                assert(lines.deep_view() =~= lines.deep_view().drop_last().push(cur));
                assert(lines.deep_view() + glue(
                    text@.subrange(k + 2, k + 2),
                    split_lines_spec(text@.skip(k + 2)),
                ) =~~= lines.deep_view().drop_last() + (seq![cur] + split_lines_spec(
                    text@.skip(k + 2),
                ))) by {
                    lemma_glue_empty(split_lines_spec(text@.skip(k + 2)));
                    assert(text@.subrange(k + 2, k + 2) =~= Seq::<char>::empty());
                }
            }
            line_start = k + 2;
            k = k + 2;
        } else {
            proof {
                assert(rest[0] != '\n');
                if rest[0] == '\r' && rest.len() >= 2 {
                    assert(rest[1] == text@[k + 1]);
                }
                assert(rest.skip(1) =~= text@.skip(k + 1));
                lemma_glue_extend(cur, text@[k as int], split_lines_spec(text@.skip(k + 1)));
                assert(cur.push(text@[k as int]) =~= text@.subrange(line_start as int, k + 1));
            }
            k = k + 1;
        }
    }
    proof {
        assert(text@.skip(n as int) =~= Seq::<char>::empty());
        let cur = text@.subrange(line_start as int, n as int);
        if line_start == n {
            assert(cur =~= Seq::<char>::empty());
            assert(lines.deep_view() + glue(cur, split_lines_spec(Seq::<char>::empty()))
                =~~= lines.deep_view());
        }
    }
    if line_start < n {
        let piece = text.substring_char(line_start, n);
        lines.push(piece.to_owned());
        proof {
            let cur = text@.subrange(line_start as int, n as int);
            assert(glue(cur, split_lines_spec(Seq::<char>::empty())) =~= seq![cur]);
            assert(lines.deep_view() =~= lines.deep_view().drop_last() + seq![cur]);
        }
    }
    lines
}

/// The raw spans built from the regex engine's byte ranges on one line.
pub open spec fn spans_of_line(ms: Seq<(u32, u32)>, line_idx: u32, pidx: u32) -> Seq<RawSpan> {
    ms.map_values(
        |m: (u32, u32)|
            RawSpan {
                line: line_idx,
                start_col: m.0,
                length: (m.1 - m.0) as u32,
                pattern_index: pidx,
            },
    )
}

/// All spans of one compiled pattern source, over the lines from `li` on.
pub open spec fn pattern_spans_from(
    src: Seq<char>,
    lines: Seq<Seq<char>>,
    li: int,
    pidx: u32,
) -> Seq<RawSpan>
    decreases lines.len() - li,
{
    if li < 0 || li >= lines.len() {
        Seq::empty()
    } else {
        spans_of_line(regex_line_spans(src, lines[li]), li as u32, pidx) + pattern_spans_from(
            src,
            lines,
            li + 1,
            pidx,
        )
    }
}

/// What one pattern contributes: its matches on every line, or nothing at
/// all when its regex source is malformed — a bad pattern is silently
/// skipped and never disturbs the other patterns.
pub open spec fn pattern_contribution(p: PatternModel, lines: Seq<Seq<char>>, pidx: u32) -> Seq<
    RawSpan,
> {
    if regex_compiles(build_source_spec(p)) {
        pattern_spans_from(build_source_spec(p), lines, 0, pidx)
    } else {
        Seq::empty()
    }
}

/// The spans of the patterns from index `pi` on, pattern by pattern in
/// declaration order.
pub open spec fn matches_from(pats: Seq<PatternModel>, lines: Seq<Seq<char>>, pi: int) -> Seq<
    RawSpan,
>
    decreases pats.len() - pi,
{
    if pi < 0 || pi >= pats.len() {
        Seq::empty()
    } else {
        pattern_contribution(pats[pi], lines, pi as u32) + matches_from(pats, lines, pi + 1)
    }
}

/// The full raw-match list of a document: the union, in pattern order, of
/// every pattern's matches on every line of the split text.
pub open spec fn find_matches_spec(text: Seq<char>, pats: Seq<PatternModel>) -> Seq<RawSpan> {
    matches_from(pats, split_lines_spec(text), 0)
}

/// Appends the raw spans built from one line's byte ranges.
fn push_line_spans(out: &mut Vec<RawSpan>, ms: &Vec<(u32, u32)>, li: u32, pidx: u32)
    requires
        forall|i: int| 0 <= i < ms@.len() ==> (#[trigger] ms@[i]).0 <= ms@[i].1,
    ensures
        final(out)@ == old(out)@ + spans_of_line(ms@, li, pidx),
{
    let ghost target = spans_of_line(ms@, li, pidx);
    let mut si: usize = 0;
    proof {
        assert(old(out)@ + target.take(0) =~= old(out)@);
    }
    while si < ms.len()
        invariant
            0 <= si <= ms@.len(),
            forall|i: int| 0 <= i < ms@.len() ==> (#[trigger] ms@[i]).0 <= ms@[i].1,
            target == spans_of_line(ms@, li, pidx),
            out@ == old(out)@ + target.take(si as int),
        decreases ms@.len() - si,
    {
        let (s, e) = ms[si];
        let span = RawSpan { line: li, start_col: s, length: e - s, pattern_index: pidx };
        out.push(span);
        proof {
            assert(target[si as int] == span);
            assert(old(out)@ + target.take(si + 1) =~= (old(out)@ + target.take(si as int)).push(
                span,
            ));
        }
        si += 1;
    }
    proof {
        assert(target.take(ms@.len() as int) =~= target);
    }
}

/// Appends every span of one compiled pattern, line by line.
fn push_pattern_spans(
    out: &mut Vec<RawSpan>,
    m: &CompiledMatcher,
    lines: &Vec<String>,
    pidx: u32,
)
    requires
        regex_compiles(m.source@),
        lines@.len() <= u32::MAX,
        forall|i: int| 0 <= i < lines@.len() ==> (#[trigger] lines.deep_view()[i]).len() <= MAX_TEXT_LEN,
    ensures
        final(out)@ == old(out)@ + pattern_spans_from(m.source@, lines.deep_view(), 0, pidx),
{
    let ghost src = m.source@;
    let ghost linesv = lines.deep_view();
    let mut li: usize = 0;
    while li < lines.len()
        invariant
            0 <= li <= linesv.len(),
            linesv == lines.deep_view(),
            linesv.len() <= u32::MAX,
            regex_compiles(src),
            m.source@ == src,
            forall|i: int| 0 <= i < linesv.len() ==> (#[trigger] linesv[i]).len() <= MAX_TEXT_LEN,
            out@ + pattern_spans_from(src, linesv, li as int, pidx) == old(out)@
                + pattern_spans_from(src, linesv, 0, pidx),
        decreases linesv.len() - li,
    {
        let line = &lines[li];
        proof {
            assert(line@ == linesv[li as int]);
        }
        let ms = find_on_line(m, line.as_str());
        proof {
            assert(pattern_spans_from(src, linesv, li as int, pidx) == spans_of_line(
                regex_line_spans(src, linesv[li as int]),
                li as u32,
                pidx,
            ) + pattern_spans_from(src, linesv, li + 1, pidx));
        }
        let ghost before = out@;
        push_line_spans(out, &ms, li as u32, pidx);
        proof {
            assert(out@ + pattern_spans_from(src, linesv, li + 1, pidx) =~= before
                + pattern_spans_from(src, linesv, li as int, pidx));
        }
        li += 1;
    }
    proof {
        assert(pattern_spans_from(src, linesv, linesv.len() as int, pidx)
            =~= Seq::<RawSpan>::empty());
        assert(out@ + pattern_spans_from(src, linesv, linesv.len() as int, pidx) =~= out@);
    }
}

/// Runs every pattern over every line of the document and returns one raw
/// span per match, grouped by pattern in declaration order. A pattern whose
/// regex source is malformed contributes nothing; all others still run.
pub fn find_matches(text: &str, patterns: &Vec<HighlightPattern>) -> (r: Vec<RawSpan>)
    requires
        text@.len() <= MAX_TEXT_LEN,
        patterns@.len() <= u32::MAX,
    ensures
        r@ == find_matches_spec(text@, patterns.deep_view()),
{
    let lines = split_lines(text);
    proof {
        lemma_split_lines_bounds(text@);
    }
    let ghost linesv = split_lines_spec(text@);
    let ghost patsv = patterns.deep_view();
    let mut out: Vec<RawSpan> = Vec::new();
    let mut pi: usize = 0;
    proof {
        assert(out@ + matches_from(patsv, linesv, 0) =~= matches_from(patsv, linesv, 0));
    }
    while pi < patterns.len()
        invariant
            0 <= pi <= patterns@.len(),
            patterns@.len() <= u32::MAX,
            text@.len() <= MAX_TEXT_LEN,
            patsv == patterns.deep_view(),
            linesv == split_lines_spec(text@),
            lines.deep_view() == linesv,
            linesv.len() <= text@.len(),
            forall|i: int| 0 <= i < linesv.len() ==> (#[trigger] linesv[i]).len() <= text@.len(),
            out@ + matches_from(patsv, linesv, pi as int) == matches_from(patsv, linesv, 0),
        decreases patterns@.len() - pi,
    {
        let p = &patterns[pi];
        proof {
            assert(patsv[pi as int] == p@);
            assert(matches_from(patsv, linesv, pi as int) == pattern_contribution(
                patsv[pi as int],
                linesv,
                pi as u32,
            ) + matches_from(patsv, linesv, pi + 1));
        }
        let ghost before = out@;
        match compile(p) {
            Err(_) => {
                proof {
                    assert(pattern_contribution(patsv[pi as int], linesv, pi as u32)
                        =~= Seq::<RawSpan>::empty());
                    assert(out@ + matches_from(patsv, linesv, pi + 1) =~= before + matches_from(
                        patsv,
                        linesv,
                        pi as int,
                    ));
                }
            },
            Ok(m) => {
                push_pattern_spans(&mut out, &m, &lines, pi as u32);
                proof {
                    assert(pattern_contribution(patsv[pi as int], linesv, pi as u32)
                        == pattern_spans_from(m.source@, linesv, 0, pi as u32));
                    assert(out@ + matches_from(patsv, linesv, pi + 1) =~= before + matches_from(
                        patsv,
                        linesv,
                        pi as int,
                    ));
                }
            },
        }
        pi += 1;
    }
    proof {
        assert(matches_from(patsv, linesv, patsv.len() as int) =~= Seq::<RawSpan>::empty());
        assert(out@ + matches_from(patsv, linesv, patsv.len() as int) =~= out@);
    }
    out
}

} // verus!
