//! Token encoder: orders raw spans by document position and rewrites their
//! absolute positions into the cumulative delta encoding of the output
//! protocol.

use vstd::prelude::*;
use crate::engine::RawSpan;
use crate::PALETTE_SIZE;

verus! {

/// One protocol token: position deltas against the previous token, the
/// span's byte length, the palette slot, and the (always empty) modifier
/// set.
#[derive(Clone, Copy, PartialEq, Eq, Structural, Debug)]
pub struct EncodedToken {
    pub delta_line: u32,
    pub delta_start: u32,
    pub length: u32,
    pub token_type: u32,
    pub token_modifiers: u32,
}

/// Strict document order on spans: earlier line, or same line and earlier
/// column.
pub open spec fn pos_lt(a: RawSpan, b: RawSpan) -> bool {
    a.line < b.line || (a.line == b.line && a.start_col < b.start_col)
}

/// Non-strict document order on spans.
pub open spec fn pos_le(a: RawSpan, b: RawSpan) -> bool {
    a.line < b.line || (a.line == b.line && a.start_col <= b.start_col)
}

/// The spans appear in document order.
pub open spec fn sorted_by_pos(s: Seq<RawSpan>) -> bool {
    forall|i: int, j: int| 0 <= i < j < s.len() ==> pos_le(s[i], s[j])
}

/// Whether a span sits at the given absolute position.
pub open spec fn at_pos(line: u32, col: u32) -> spec_fn(RawSpan) -> bool {
    |sp: RawSpan| sp.line == line && sp.start_col == col
}

/// Stable insertion of a span into an already-ordered sequence: the new
/// span goes after every span at the same or an earlier position.
pub open spec fn insert_span(x: RawSpan, s: Seq<RawSpan>) -> Seq<RawSpan>
    decreases s.len(),
{
    if s.len() == 0 {
        seq![x]
    } else if pos_lt(x, s[0]) {
        seq![x] + s
    } else {
        seq![s[0]] + insert_span(x, s.drop_first())
    }
}

/// The stable sort of a span sequence by `(line, column)`: spans at the
/// same position keep the order in which they were produced.
pub open spec fn sort_spans_spec(s: Seq<RawSpan>) -> Seq<RawSpan>
    decreases s.len(),
{
    if s.len() == 0 {
        Seq::empty()
    } else {
        insert_span(s.last(), sort_spans_spec(s.drop_last()))
    }
}

proof fn lemma_insert_span_sorted(x: RawSpan, s: Seq<RawSpan>)
    requires
        sorted_by_pos(s),
    ensures
        sorted_by_pos(insert_span(x, s)),
        insert_span(x, s).len() == s.len() + 1,
        forall|j: int|
            0 <= j < insert_span(x, s).len() ==> (#[trigger] insert_span(x, s)[j]) == x
                || s.contains(insert_span(x, s)[j]),
    decreases s.len(),
{
    if s.len() == 0 {
    } else if pos_lt(x, s[0]) {
        let r = seq![x] + s;
        assert forall|i: int, j: int| 0 <= i < j < r.len() implies pos_le(r[i], r[j]) by {
            if i == 0 {
                assert(r[j] == s[j - 1]);
                if j > 1 {
                    assert(pos_le(s[0], s[j - 1]));
                }
            } else {
                assert(r[i] == s[i - 1] && r[j] == s[j - 1]);
                assert(pos_le(s[i - 1], s[j - 1]));
            }
        }
        assert forall|j: int| 0 <= j < r.len() implies (#[trigger] r[j]) == x || s.contains(
            r[j],
        ) by {
            if j > 0 {
                assert(r[j] == s[j - 1]);
            }
        }
    } else {
        let rest = s.drop_first();
        assert forall|i: int, j: int| 0 <= i < j < rest.len() implies pos_le(rest[i], rest[j]) by {
            assert(rest[i] == s[i + 1] && rest[j] == s[j + 1]);
            assert(pos_le(s[i + 1], s[j + 1]));
        }
        lemma_insert_span_sorted(x, rest);
        let ir = insert_span(x, rest);
        let r = seq![s[0]] + ir;
        assert forall|j: int| 0 <= j < ir.len() implies pos_le(s[0], #[trigger] ir[j]) by {
            if ir[j] == x {
                assert(!pos_lt(x, s[0]));
            } else {
                assert(rest.contains(ir[j]));
                let k = choose|k: int| 0 <= k < rest.len() && rest[k] == ir[j];
                assert(rest[k] == s[k + 1]);
                if k + 1 > 0 {
                    assert(pos_le(s[0], s[k + 1]));
                }
            }
        }
        assert forall|i: int, j: int| 0 <= i < j < r.len() implies pos_le(r[i], r[j]) by {
            if i == 0 {
                assert(r[j] == ir[j - 1]);
            } else {
                assert(r[i] == ir[i - 1] && r[j] == ir[j - 1]);
                assert(pos_le(ir[i - 1], ir[j - 1]));
            }
        }
        assert forall|j: int| 0 <= j < r.len() implies (#[trigger] r[j]) == x || s.contains(
            r[j],
        ) by {
            if j == 0 {
                assert(r[0] == s[0]);
                assert(s.contains(s[0]));
            } else {
                assert(r[j] == ir[j - 1]);
                if ir[j - 1] != x {
                    assert(rest.contains(ir[j - 1]));
                    let k = choose|k: int| 0 <= k < rest.len() && rest[k] == ir[j - 1];
                    assert(s[k + 1] == ir[j - 1]);
                    assert(s.contains(s[k + 1]));
                }
            }
        }
    }
}

/// The stable sort orders its input and keeps its length.
pub proof fn lemma_sort_spans_sorted(s: Seq<RawSpan>)
    ensures
        sorted_by_pos(sort_spans_spec(s)),
        sort_spans_spec(s).len() == s.len(),
    decreases s.len(),
{
    if s.len() == 0 {
    } else {
        lemma_sort_spans_sorted(s.drop_last());
        lemma_insert_span_sorted(s.last(), sort_spans_spec(s.drop_last()));
    }
}

proof fn lemma_insert_span_filter(x: RawSpan, s: Seq<RawSpan>, line: u32, col: u32)
    requires
        sorted_by_pos(s),
    ensures
        insert_span(x, s).filter(at_pos(line, col)) == if at_pos(line, col)(x) {
            s.filter(at_pos(line, col)).push(x)
        } else {
            s.filter(at_pos(line, col))
        },
    decreases s.len(),
{
    let pred = at_pos(line, col);
    broadcast use Seq::filter_distributes_over_add;

    if s.len() == 0 {
        crate::seq_facts::lemma_filter_push(Seq::<RawSpan>::empty(), pred, x);
        assert(Seq::<RawSpan>::empty().push(x) =~= seq![x]);
        reveal(Seq::filter);
    } else if pos_lt(x, s[0]) {
        // Everything in s sits strictly after x, so no span of s shares
        // x's position.
        assert forall|i: int| 0 <= i < s.len() implies pos_lt(x, #[trigger] s[i]) by {
            if i > 0 {
                assert(pos_le(s[0], s[i]));
            }
        }
        if pred(x) {
            assert(s.filter(pred).len() == 0) by {
                assert(forall|i: int| 0 <= i < s.len() ==> !pred(s[i]));
                s.lemma_all_neg_filter_empty(pred);
            }
            assert(s.filter(pred) =~= Seq::<RawSpan>::empty());
            crate::seq_facts::lemma_filter_push(Seq::<RawSpan>::empty(), pred, x);
            assert(Seq::<RawSpan>::empty().push(x) =~= seq![x]);
            reveal(Seq::filter);
            assert((seq![x] + s).filter(pred) == seq![x].filter(pred) + s.filter(pred));
            assert(seq![x].filter(pred) + s.filter(pred) =~= s.filter(pred).push(x));
        } else {
            assert((seq![x] + s).filter(pred) == seq![x].filter(pred) + s.filter(pred));
            assert(seq![x].filter(pred) =~= Seq::<RawSpan>::empty()) by {
                crate::seq_facts::lemma_filter_push(Seq::<RawSpan>::empty(), pred, x);
                assert(Seq::<RawSpan>::empty().push(x) =~= seq![x]);
                reveal(Seq::filter);
            }
            assert(seq![x].filter(pred) + s.filter(pred) =~= s.filter(pred));
        }
    } else {
        let rest = s.drop_first();
        assert(sorted_by_pos(rest)) by {
            assert(forall|i: int, j: int|
                0 <= i < j < rest.len() ==> rest[i] == s[i + 1] && rest[j] == s[j + 1]);
        }
        lemma_insert_span_filter(x, rest, line, col);
        assert(s =~= seq![s[0]] + rest);
        assert(s.filter(pred) == seq![s[0]].filter(pred) + rest.filter(pred));
        assert((seq![s[0]] + insert_span(x, rest)).filter(pred) == seq![s[0]].filter(pred)
            + insert_span(x, rest).filter(pred));
        if pred(x) {
            assert(seq![s[0]].filter(pred) + rest.filter(pred).push(x) =~= (seq![s[0]].filter(pred)
                + rest.filter(pred)).push(x));
        }
    }
}

/// Stability of the sort: at every single document position, the sorted
/// sequence holds exactly the spans the input held there, in the order in
/// which they were produced.
pub proof fn lemma_sort_spans_stable(s: Seq<RawSpan>, line: u32, col: u32)
    ensures
        sort_spans_spec(s).filter(at_pos(line, col)) == s.filter(at_pos(line, col)),
    decreases s.len(),
{
    let pred = at_pos(line, col);
    if s.len() == 0 {
    } else {
        lemma_sort_spans_stable(s.drop_last(), line, col);
        lemma_sort_spans_sorted(s.drop_last());
        lemma_insert_span_filter(s.last(), sort_spans_spec(s.drop_last()), line, col);
        crate::seq_facts::lemma_filter_push(s.drop_last(), pred, s.last());
        assert(s.drop_last().push(s.last()) =~= s);
        if pred(s.last()) {
            assert(s.drop_last().filter(pred) + seq![s.last()] =~= s.drop_last().filter(pred).push(
                s.last(),
            ));
        } else {
            assert(s.drop_last().filter(pred) + Seq::<RawSpan>::empty() =~= s.drop_last().filter(
                pred,
            ));
        }
    }
}

/// Sorts raw spans into document order by `(line, column)`; spans at the
/// same position keep the order in which they were produced.
pub fn sort_spans(spans: &Vec<RawSpan>) -> (r: Vec<RawSpan>)
    ensures
        r@ == sort_spans_spec(spans@),
        sorted_by_pos(r@),
{
    let mut r: Vec<RawSpan> = Vec::new();
    let mut i: usize = 0;
    proof {
        assert(spans@.take(0) =~= Seq::<RawSpan>::empty());
    }
    while i < spans.len()
        invariant
            0 <= i <= spans@.len(),
            r@ == sort_spans_spec(spans@.take(i as int)),
            sorted_by_pos(r@),
        decreases spans@.len() - i,
    {
        let x = spans[i];
        let mut j: usize = 0;
        while j < r.len() && !(x.line < r[j].line || (x.line == r[j].line && x.start_col
            < r[j].start_col))
            invariant
                0 <= j <= r@.len(),
                forall|m: int| 0 <= m < j ==> !pos_lt(x, r@[m]),
            decreases r@.len() - j,
        {
            j += 1;
        }
        proof {
            lemma_insert_at_index(x, r@, j as int);
            lemma_insert_span_sorted(x, r@);
            assert(r@.insert(j as int, x) =~= r@.take(j as int) + seq![x] + r@.skip(j as int));
            assert(spans@.take(i + 1).drop_last() =~= spans@.take(i as int));
            assert(spans@.take(i + 1).last() == spans@[i as int]);
        }
        r.insert(j, x);
        i += 1;
    }
    proof {
        assert(spans@.take(spans@.len() as int) =~= spans@);
    }
    r
}

proof fn lemma_insert_at_index(x: RawSpan, s: Seq<RawSpan>, j: int)
    requires
        sorted_by_pos(s),
        0 <= j <= s.len(),
        forall|m: int| 0 <= m < j ==> !pos_lt(x, s[m]),
        j < s.len() ==> pos_lt(x, s[j]),
    ensures
        insert_span(x, s) == s.take(j) + seq![x] + s.skip(j),
    decreases s.len(),
{
    if s.len() == 0 {
        assert(s.take(0) + seq![x] + s.skip(0) =~= seq![x]);
    } else if j == 0 {
        assert(pos_lt(x, s[0]));
        assert(s.take(0) + seq![x] + s.skip(0) =~= seq![x] + s);
    } else {
        let rest = s.drop_first();
        assert(sorted_by_pos(rest)) by {
            assert(forall|p: int, q: int|
                0 <= p < q < rest.len() ==> rest[p] == s[p + 1] && rest[q] == s[q + 1]);
        }
        assert(forall|m: int| 0 <= m < j - 1 ==> rest[m] == s[m + 1] && !pos_lt(x, rest[m]));
        assert(j - 1 < rest.len() ==> pos_lt(x, rest[j - 1]));
        lemma_insert_at_index(x, rest, j - 1);
        assert(seq![s[0]] + (rest.take(j - 1) + seq![x] + rest.skip(j - 1)) =~= s.take(j) + seq![x]
            + s.skip(j));
    }
}

/// The delta-encoded tokens of the spans from index `i` on, relative to the
/// previous absolute position `(prev_line, prev_col)`. The token stream
/// starts from the `(0, 0)` baseline; on a new line the column delta is the
/// absolute column. The palette slot is the producing pattern's index
/// reduced modulo the palette size; no modifier is ever set.
pub open spec fn encode_from(s: Seq<RawSpan>, i: int, prev_line: u32, prev_col: u32) -> Seq<
    EncodedToken,
>
    decreases s.len() - i,
{
    if i < 0 || i >= s.len() {
        Seq::empty()
    } else {
        let sp = s[i];
        seq![
            EncodedToken {
                delta_line: (sp.line - prev_line) as u32,
                delta_start: if sp.line == prev_line {
                    (sp.start_col - prev_col) as u32
                } else {
                    sp.start_col
                },
                length: sp.length,
                token_type: sp.pattern_index % PALETTE_SIZE,
                token_modifiers: 0,
            },
        ] + encode_from(s, i + 1, sp.line, sp.start_col)
    }
}

/// The delta encoding of an ordered span sequence.
pub open spec fn encode_spec(s: Seq<RawSpan>) -> Seq<EncodedToken> {
    encode_from(s, 0, 0, 0)
}

/// Delta-encodes spans that are already in document order.
pub fn encode_sorted(spans: &Vec<RawSpan>) -> (r: Vec<EncodedToken>)
    requires
        sorted_by_pos(spans@),
    ensures
        r@ == encode_spec(spans@),
{
    let mut r: Vec<EncodedToken> = Vec::new();
    let mut prev_line: u32 = 0;
    let mut prev_col: u32 = 0;
    let mut i: usize = 0;
    proof {
        assert(r@ + encode_from(spans@, 0, 0, 0) =~= encode_spec(spans@));
    }
    while i < spans.len()
        invariant
            0 <= i <= spans@.len(),
            sorted_by_pos(spans@),
            i == 0 ==> prev_line == 0 && prev_col == 0,
            i > 0 ==> prev_line == spans@[i - 1].line && prev_col == spans@[i - 1].start_col,
            r@ + encode_from(spans@, i as int, prev_line, prev_col) == encode_spec(spans@),
        decreases spans@.len() - i,
    {
        let sp = spans[i];
        proof {
            if i > 0 {
                assert(pos_le(spans@[i - 1], spans@[i as int]));
            }
        }
        let delta_line = sp.line - prev_line;
        let delta_start = if sp.line == prev_line {
            sp.start_col - prev_col
        } else {
            sp.start_col
        };
        let tok = EncodedToken {
            delta_line,
            delta_start,
            length: sp.length,
            token_type: sp.pattern_index % PALETTE_SIZE,
            token_modifiers: 0,
        };
        r.push(tok);
        proof {
            assert(r@ + encode_from(spans@, i + 1, sp.line, sp.start_col) =~= r@.drop_last()
                + encode_from(spans@, i as int, prev_line, prev_col));
        }
        prev_line = sp.line;
        prev_col = sp.start_col;
        i += 1;
    }
    proof {
        assert(encode_from(spans@, spans@.len() as int, prev_line, prev_col)
            =~= Seq::<EncodedToken>::empty());
        assert(r@ + encode_from(spans@, spans@.len() as int, prev_line, prev_col) =~= r@);
    }
    r
}

/// Sorts raw spans into document order and delta-encodes them. An empty
/// span list yields an empty token sequence.
pub fn encode(spans: &Vec<RawSpan>) -> (r: Vec<EncodedToken>)
    ensures
        r@ == encode_spec(sort_spans_spec(spans@)),
{
    proof {
        lemma_sort_spans_sorted(spans@);
    }
    let sorted = sort_spans(spans);
    encode_sorted(&sorted)
}

/// The absolute `(line, column)` positions recovered from a token stream by
/// cumulatively summing deltas from the `(prev_line, prev_col)` baseline: a
/// token's line is the previous line plus its line delta, and its column is
/// the previous column plus its column delta on the same line, or its
/// column delta alone on a new line.
pub open spec fn decode_positions(t: Seq<EncodedToken>, prev_line: int, prev_col: int) -> Seq<
    (int, int),
>
    decreases t.len(),
{
    if t.len() == 0 {
        Seq::empty()
    } else {
        let line = prev_line + t[0].delta_line;
        let col = if t[0].delta_line == 0 {
            prev_col + t[0].delta_start
        } else {
            t[0].delta_start as int
        };
        seq![(line, col)] + decode_positions(t.drop_first(), line, col)
    }
}

/// The absolute positions of a span sequence.
pub open spec fn positions_of(s: Seq<RawSpan>) -> Seq<(int, int)> {
    s.map_values(|sp: RawSpan| (sp.line as int, sp.start_col as int))
}

proof fn lemma_round_trip_from(s: Seq<RawSpan>, i: int, prev_line: u32, prev_col: u32)
    requires
        sorted_by_pos(s),
        0 <= i <= s.len(),
        i < s.len() ==> prev_line <= s[i].line,
        i < s.len() && prev_line == s[i].line ==> prev_col <= s[i].start_col,
    ensures
        decode_positions(encode_from(s, i, prev_line, prev_col), prev_line as int, prev_col as int)
            == positions_of(s).skip(i),
    decreases s.len() - i,
{
    if i == s.len() {
        assert(positions_of(s).skip(i) =~= Seq::<(int, int)>::empty());
    } else {
        let sp = s[i];
        assert(i + 1 < s.len() ==> pos_le(s[i], s[i + 1]));
        lemma_round_trip_from(s, i + 1, sp.line, sp.start_col);
        let t = encode_from(s, i, prev_line, prev_col);
        let tail = encode_from(s, i + 1, sp.line, sp.start_col);
        assert(t.drop_first() =~= tail);
        assert(decode_positions(t, prev_line as int, prev_col as int) == seq![
            (sp.line as int, sp.start_col as int),
        ] + decode_positions(tail, sp.line as int, sp.start_col as int));
        assert(positions_of(s).skip(i) =~= seq![(sp.line as int, sp.start_col as int)]
            + positions_of(s).skip(i + 1));
    }
}

/// Delta round trip: cumulatively summing the deltas of an encoded token
/// stream from the `(0, 0)` baseline reproduces the absolute positions of
/// the ordered spans it was built from, exactly.
pub proof fn lemma_delta_round_trip(s: Seq<RawSpan>)
    requires
        sorted_by_pos(s),
    ensures
        decode_positions(encode_spec(s), 0, 0) == positions_of(s),
{
    lemma_round_trip_from(s, 0, 0, 0);
    assert(positions_of(s).skip(0) =~= positions_of(s));
}

} // verus!
