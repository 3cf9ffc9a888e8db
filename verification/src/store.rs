//! The two shared resources of the highlighter: the ordered pattern
//! sequence and the table of open documents. Each is mutated only by the
//! explicit operations below.

use vstd::prelude::*;
use crate::pattern::HighlightOptions;
use crate::pattern::HighlightPattern;
use crate::pattern::PatternModel;
use crate::MAX_TEXT_LEN;
use crate::PALETTE_SIZE;

verus! {

/// Mathematical model of the pattern store: the declared patterns in
/// order, and the palette slot the next added pattern will receive.
pub ghost struct StoreModel {
    pub patterns: Seq<PatternModel>,
    pub color_index: int,
}

/// The ordered pattern sequence, with the round-robin color rotation of
/// the slash-command surface.
pub struct PatternStore {
    patterns: Vec<HighlightPattern>,
    color_index: u32,
}

impl View for PatternStore {
    type V = StoreModel;

    closed spec fn view(&self) -> StoreModel {
        StoreModel { patterns: self.patterns.deep_view(), color_index: self.color_index as int }
    }
}

/// Whether a stored pattern is the one a toggle request describes: same
/// pattern text and exactly the same option tuple (the color plays no part
/// in this identity).
pub open spec fn matches_entry(pm: PatternModel, text: Seq<char>, o: HighlightOptions) -> bool {
    &&& pm.pattern == text
    &&& pm.case_sensitive == o.case_sensitive
    &&& pm.whole_word == o.whole_word
    &&& pm.is_regex == o.is_regex
}

/// Whether some stored pattern matches the toggle request.
pub open spec fn has_match(s: Seq<PatternModel>, text: Seq<char>, o: HighlightOptions) -> bool {
    exists|i: int| 0 <= i < s.len() && matches_entry(#[trigger] s[i], text, o)
}

/// Index of the first stored pattern matching the toggle request (the
/// sequence length when none does).
pub open spec fn first_match(s: Seq<PatternModel>, text: Seq<char>, o: HighlightOptions) -> int
    decreases s.len(),
{
    if s.len() == 0 {
        0
    } else if matches_entry(s[0], text, o) {
        0
    } else {
        1 + first_match(s.drop_first(), text, o)
    }
}

proof fn lemma_first_match_at(s: Seq<PatternModel>, text: Seq<char>, o: HighlightOptions, i: int)
    requires
        0 <= i < s.len(),
        matches_entry(s[i], text, o),
        forall|k: int| 0 <= k < i ==> !matches_entry(#[trigger] s[k], text, o),
    ensures
        first_match(s, text, o) == i,
    decreases s.len(),
{
    if i == 0 {
    } else {
        let rest = s.drop_first();
        assert(rest[i - 1] == s[i]);
        assert forall|k: int| 0 <= k < i - 1 implies !matches_entry(#[trigger] rest[k], text, o) by {
            assert(rest[k] == s[k + 1]);
        }
        lemma_first_match_at(rest, text, o, i - 1);
    }
}

/// The toggle transition: the color rotation always advances by one slot;
/// a request matching a stored pattern removes the first such entry and
/// reports a removal, any other request appends a new entry carrying the
/// current color slot and reports an addition.
pub open spec fn toggle_spec(m: StoreModel, text: Seq<char>, o: HighlightOptions) -> (
    StoreModel,
    bool,
) {
    let advanced = (m.color_index + 1) % (PALETTE_SIZE as int);
    if has_match(m.patterns, text, o) {
        (
            StoreModel {
                patterns: m.patterns.remove(first_match(m.patterns, text, o)),
                color_index: advanced,
            },
            false,
        )
    } else {
        (
            StoreModel {
                patterns: m.patterns.push(
                    PatternModel {
                        pattern: text,
                        case_sensitive: o.case_sensitive,
                        whole_word: o.whole_word,
                        is_regex: o.is_regex,
                        color_index: m.color_index as u32,
                    },
                ),
                color_index: advanced,
            },
            true,
        )
    }
}

impl PatternStore {
    /// The color rotation stays inside the palette, and the pattern count
    /// leaves room for a `u32` pattern index.
    pub open spec fn wf(self) -> bool {
        &&& self@.color_index < PALETTE_SIZE as int
        &&& 0 <= self@.color_index
        &&& self@.patterns.len() < u32::MAX as int
    }

    /// An empty store, with the color rotation at its first slot.
    pub fn new() -> (r: Self)
        ensures
            r@.patterns.len() == 0,
            r@.color_index == 0,
            r.wf(),
    {
        PatternStore { patterns: Vec::new(), color_index: 0 }
    }

    /// The declared patterns, in order.
    pub fn patterns(&self) -> (r: &Vec<HighlightPattern>)
        ensures
            r.deep_view() == self@.patterns,
    {
        &self.patterns
    }

    /// A copy of every declared pattern, in order.
    pub fn get_all_patterns(&self) -> (r: Vec<HighlightPattern>)
        ensures
            r.deep_view() == self@.patterns,
    {
        let mut out: Vec<HighlightPattern> = Vec::new();
        let mut i: usize = 0;
        proof {
            assert(out.deep_view() =~= self@.patterns.take(0));
        }
        while i < self.patterns.len()
            invariant
                0 <= i <= self.patterns@.len(),
                self@.patterns == self.patterns.deep_view(),
                out.deep_view() == self@.patterns.take(i as int),
            decreases self.patterns@.len() - i,
        {
            let ghost prev = out.deep_view();
            let c = self.patterns[i].clone();
            proof {
                assert(c@ == self.patterns.deep_view()[i as int]);
            }
            out.push(c);
            proof {
                let dv = self.patterns.deep_view();
                assert(out.deep_view() =~= prev.push(dv[i as int]));
                assert(dv.take(i + 1) =~= dv.take(i as int).push(dv[i as int]));
            }
            i += 1;
        }
        proof {
            assert(self@.patterns.take(self@.patterns.len() as int) =~= self@.patterns);
        }
        out
    }

    /// How many patterns are declared.
    pub fn len(&self) -> (r: usize)
        ensures
            r == self@.patterns.len(),
    {
        self.patterns.len()
    }

    /// Appends a pattern; duplicates are kept.
    pub fn add(&mut self, p: HighlightPattern)
        requires
            old(self).wf(),
            old(self)@.patterns.len() + 1 < u32::MAX as int,
        ensures
            final(self)@.patterns == old(self)@.patterns.push(p@),
            final(self)@.color_index == old(self)@.color_index,
            final(self).wf(),
    {
        self.patterns.push(p);
        proof {
            assert(self.patterns.deep_view() =~= old(self).patterns.deep_view().push(p@));
        }
    }

    /// Removes every pattern whose text equals `text`, whatever its option
    /// flags.
    pub fn remove(&mut self, text: &String)
        requires
            old(self).wf(),
        ensures
            final(self)@.patterns == old(self)@.patterns.filter(
                |pm: PatternModel| pm.pattern != text@,
            ),
            final(self)@.color_index == old(self)@.color_index,
            final(self).wf(),
    {
        let ghost pred = |pm: PatternModel| pm.pattern != text@;
        let mut kept: Vec<HighlightPattern> = Vec::new();
        let mut i: usize = 0;
        proof {
            assert(kept.deep_view() =~= old(self).patterns.deep_view().take(0).filter(pred));
            assert(old(self).patterns.deep_view().take(0) =~= Seq::<PatternModel>::empty());
            reveal(Seq::filter);
        }
        while i < self.patterns.len()
            invariant
                0 <= i <= self.patterns@.len(),
                self == old(self),
                pred == (|pm: PatternModel| pm.pattern != text@),
                kept.deep_view() == self.patterns.deep_view().take(i as int).filter(pred),
            decreases self.patterns@.len() - i,
        {
            let ghost dv = self.patterns.deep_view();
            proof {
                assert(dv.take(i + 1).drop_last() =~= dv.take(i as int));
                assert(dv.take(i + 1) =~= dv.take(i as int).push(dv[i as int]));
                crate::seq_facts::lemma_filter_push(dv.take(i as int), pred, dv[i as int]);
            }
            if !(self.patterns[i].pattern == *text) {
                kept.push(self.patterns[i].clone());
                proof {
                    assert(kept.deep_view() =~= dv.take(i + 1).filter(pred));
                }
            }
            i += 1;
        }
        proof {
            let dv = self.patterns.deep_view();
            assert(dv.take(dv.len() as int) =~= dv);
            dv.lemma_filter_len(pred);
        }
        self.patterns = kept;
    }

    /// Empties the pattern sequence; the color rotation keeps its place.
    pub fn clear(&mut self)
        requires
            old(self).wf(),
        ensures
            final(self)@.patterns.len() == 0,
            final(self)@.color_index == old(self)@.color_index,
            final(self).wf(),
    {
        self.patterns.clear();
        proof {
            assert(self.patterns.deep_view() =~= Seq::<PatternModel>::empty());
        }
    }

    /// Applies one toggle request, exactly as [`toggle_spec`] states, and
    /// reports whether the pattern was added (`true`) or removed (`false`).
    pub fn toggle(&mut self, text: String, options: HighlightOptions) -> (added: bool)
        requires
            old(self).wf(),
            old(self)@.patterns.len() + 1 < u32::MAX as int,
        ensures
            (final(self)@, added) == toggle_spec(old(self)@, text@, options),
            final(self).wf(),
    {
        let color = self.color_index;
        self.color_index = (self.color_index + 1) % PALETTE_SIZE;
        let ghost pats0 = self.patterns.deep_view();
        let mut i: usize = 0;
        while i < self.patterns.len()
            invariant
                0 <= i <= self.patterns@.len(),
                old(self).wf(),
                old(self)@.patterns.len() + 1 < u32::MAX as int,
                self.patterns == old(self).patterns,
                color == old(self).color_index,
                self.color_index as int == (old(self)@.color_index + 1) % (PALETTE_SIZE as int),
                pats0 == self.patterns.deep_view(),
                pats0 == old(self)@.patterns,
                forall|k: int| 0 <= k < i ==> !matches_entry(#[trigger] pats0[k], text@, options),
            decreases self.patterns@.len() - i,
        {
            let p = &self.patterns[i];
            if p.pattern == text && p.case_sensitive == options.case_sensitive && p.whole_word
                == options.whole_word && p.is_regex == options.is_regex {
                proof {
                    assert(matches_entry(pats0[i as int], text@, options));
                    lemma_first_match_at(pats0, text@, options, i as int);
                }
                self.patterns.remove(i);
                proof {
                    assert(self.patterns.deep_view() =~= pats0.remove(i as int));
                }
                return false;
            }
            proof {
                assert(!matches_entry(pats0[i as int], text@, options));
            }
            i += 1;
        }
        proof {
            assert(!has_match(pats0, text@, options));
        }
        let entry = HighlightPattern {
            pattern: text,
            case_sensitive: options.case_sensitive,
            whole_word: options.whole_word,
            is_regex: options.is_regex,
            color_index: color,
        };
        self.patterns.push(entry);
        proof {
            assert(self.patterns.deep_view() =~= pats0.push(
                PatternModel {
                    pattern: text@,
                    case_sensitive: options.case_sensitive,
                    whole_word: options.whole_word,
                    is_regex: options.is_regex,
                    color_index: color,
                },
            ));
        }
        true
    }
}

/// Toggling the same request twice on a store that does not yet hold it
/// first adds the pattern and then removes exactly that addition: the
/// pattern sequence returns to its prior state, and the reported status
/// alternates between added and removed.
pub proof fn lemma_toggle_involutive(m: StoreModel, text: Seq<char>, o: HighlightOptions)
    requires
        !has_match(m.patterns, text, o),
    ensures
        toggle_spec(m, text, o).1 == true,
        toggle_spec(toggle_spec(m, text, o).0, text, o).1 == false,
        toggle_spec(toggle_spec(m, text, o).0, text, o).0.patterns == m.patterns,
{
    let entry = PatternModel {
        pattern: text,
        case_sensitive: o.case_sensitive,
        whole_word: o.whole_word,
        is_regex: o.is_regex,
        color_index: m.color_index as u32,
    };
    let p1 = m.patterns.push(entry);
    assert(matches_entry(p1[m.patterns.len() as int], text, o));
    assert(has_match(p1, text, o));
    assert forall|k: int| 0 <= k < m.patterns.len() implies !matches_entry(
        #[trigger] p1[k],
        text,
        o,
    ) by {
        assert(p1[k] == m.patterns[k]);
    }
    lemma_first_match_at(p1, text, o, m.patterns.len() as int);
    assert(p1.remove(m.patterns.len() as int) =~= m.patterns);
}

/// The table of open documents: each identifier maps to the full current
/// text, replaced wholesale on every change.
pub struct DocumentStore {
    docs: Vec<(String, String)>,
}

/// First-match lookup of a document text by identifier.
pub open spec fn lookup(s: Seq<(Seq<char>, Seq<char>)>, k: Seq<char>) -> Option<Seq<char>>
    decreases s.len(),
{
    if s.len() == 0 {
        None
    } else if s[0].0 == k {
        Some(s[0].1)
    } else {
        lookup(s.drop_first(), k)
    }
}

/// A looked-up text is one of the stored texts.
pub proof fn lemma_lookup_is_stored(s: Seq<(Seq<char>, Seq<char>)>, k: Seq<char>)
    ensures
        lookup(s, k) matches Some(t) ==> exists|i: int|
            0 <= i < s.len() && (#[trigger] s[i]).0 == k && s[i].1 == t,
    decreases s.len(),
{
    if s.len() == 0 {
    } else if s[0].0 == k {
        assert(s[0].0 == k && s[0].1 == lookup(s, k)->Some_0);
    } else {
        let rest = s.drop_first();
        lemma_lookup_is_stored(rest, k);
        if lookup(s, k) is Some {
            let t = lookup(s, k)->Some_0;
            let i = choose|i: int| 0 <= i < rest.len() && (#[trigger] rest[i]).0 == k && rest[i].1
                == t;
            assert(s[i + 1].0 == k && s[i + 1].1 == t);
        }
    }
}

proof fn lemma_lookup_skip(s: Seq<(Seq<char>, Seq<char>)>, k: Seq<char>, i: int)
    requires
        0 <= i <= s.len(),
        forall|j: int| 0 <= j < i ==> (#[trigger] s[j]).0 != k,
    ensures
        lookup(s, k) == lookup(s.skip(i), k),
    decreases i,
{
    if i == 0 {
        assert(s.skip(0) =~= s);
    } else {
        assert(s.len() > 0 && s[0].0 != k);
        let rest = s.drop_first();
        assert forall|j: int| 0 <= j < i - 1 implies (#[trigger] rest[j]).0 != k by {
            assert(rest[j] == s[j + 1]);
        }
        lemma_lookup_skip(rest, k, i - 1);
        assert(rest.skip(i - 1) =~= s.skip(i));
    }
}

impl DocumentStore {
    /// The table as a sequence of `(identifier, text)` pairs.
    pub closed spec fn model(self) -> Seq<(Seq<char>, Seq<char>)> {
        Seq::new(self.docs@.len() as nat, |i: int| (self.docs@[i].0@, self.docs@[i].1@))
    }

    /// Identifiers are unique, and every stored text is within the
    /// engine's size limit.
    pub open spec fn wf(self) -> bool {
        &&& forall|i: int, j: int|
            0 <= i < j < self.model().len() ==> (#[trigger] self.model()[i]).0
                != (#[trigger] self.model()[j]).0
        &&& forall|i: int|
            0 <= i < self.model().len() ==> (#[trigger] self.model()[i]).1.len() <= MAX_TEXT_LEN
    }

    /// An empty document table.
    pub fn new() -> (r: Self)
        ensures
            r.model().len() == 0,
            r.wf(),
    {
        DocumentStore { docs: Vec::new() }
    }

    /// Stores the full new text of a document, replacing any previous text
    /// under the same identifier and leaving every other document alone.
    pub fn replace(&mut self, id: String, text: String)
        requires
            old(self).wf(),
            text@.len() <= MAX_TEXT_LEN,
        ensures
            final(self).wf(),
            lookup(final(self).model(), id@) == Some(text@),
            forall|k: Seq<char>|
                k != id@ ==> #[trigger] lookup(final(self).model(), k) == lookup(
                    old(self).model(),
                    k,
                ),
    {
        let ghost m0 = self.model();
        let mut i: usize = 0;
        while i < self.docs.len()
            invariant
                0 <= i <= self.docs@.len(),
                self == old(self),
                old(self).wf(),
                text@.len() <= MAX_TEXT_LEN,
                m0 == self.model(),
                forall|j: int| 0 <= j < i ==> (#[trigger] m0[j]).0 != id@,
            decreases self.docs@.len() - i,
        {
            if self.docs[i].0 == id {
                proof {
                    assert(m0[i as int].0 == id@);
                }
                self.docs[i] = (id, text);
                proof {
                    let m1 = self.model();
                    assert(m1 =~= m0.update(i as int, (m0[i as int].0, text@)));
                    lemma_replace_update(m0, m1, id@, text@, i as int);
                    assert(forall|j: int|
                        0 <= j < m1.len() ==> (#[trigger] m1[j]).0 == m0[j].0);
                    assert(forall|j: int|
                        0 <= j < m1.len() && j != i ==> (#[trigger] m1[j]).1 == m0[j].1);
                }
                return ;
            }
            i += 1;
        }
        proof {
            assert(forall|j: int| 0 <= j < m0.len() ==> (#[trigger] m0[j]).0 != id@);
        }
        self.docs.push((id, text));
        proof {
            let m1 = self.model();
            assert(m1 =~= m0.push((id@, text@)));
            lemma_replace_push(m0, m1, id@, text@);
            assert(forall|j: int| 0 <= j < m0.len() ==> (#[trigger] m1[j]) == m0[j]);
            assert(m1[m0.len() as int] == (id@, text@));
        }
    }

    /// The current text of a document, or nothing for an identifier that
    /// was never stored.
    pub fn get(&self, id: &String) -> (r: Option<&String>)
        ensures
            r is Some <==> lookup(self.model(), id@) is Some,
            r matches Some(t) ==> Some(t@) == lookup(self.model(), id@),
    {
        let m = &self.docs;
        let mut i: usize = 0;
        while i < m.len()
            invariant
                0 <= i <= m@.len(),
                m == &self.docs,
                forall|j: int| 0 <= j < i ==> (#[trigger] self.model()[j]).0 != id@,
            decreases m@.len() - i,
        {
            if m[i].0 == *id {
                proof {
                    lemma_lookup_skip(self.model(), id@, i as int);
                    assert(self.model().skip(i as int)[0] == self.model()[i as int]);
                }
                return Some(&m[i].1);
            }
            proof {
                assert(self.model()[i as int].0 != id@);
            }
            i += 1;
        }
        proof {
            lemma_lookup_skip(self.model(), id@, self.model().len() as int);
            assert(self.model().skip(self.model().len() as int) =~= Seq::<(Seq<char>, Seq<char>)>::empty());
        }
        None
    }
}

proof fn lemma_replace_update(
    m0: Seq<(Seq<char>, Seq<char>)>,
    m1: Seq<(Seq<char>, Seq<char>)>,
    id: Seq<char>,
    text: Seq<char>,
    i: int,
)
    requires
        0 <= i < m0.len(),
        m0[i].0 == id,
        forall|j: int| 0 <= j < i ==> (#[trigger] m0[j]).0 != id,
        m1 == m0.update(i, (id, text)),
    ensures
        lookup(m1, id) == Some(text),
        forall|k: Seq<char>| k != id ==> #[trigger] lookup(m1, k) == lookup(m0, k),
    decreases i,
{
    if i == 0 {
        assert(m1[0] == (id, text));
        assert forall|k: Seq<char>| k != id implies #[trigger] lookup(m1, k) == lookup(m0, k) by {
            assert(m1.drop_first() =~= m0.drop_first());
        }
    } else {
        let r0 = m0.drop_first();
        let r1 = m1.drop_first();
        assert(m1[0] == m0[0]);
        assert(r1 =~= r0.update(i - 1, (id, text)));
        assert forall|j: int| 0 <= j < i - 1 implies (#[trigger] r0[j]).0 != id by {
            assert(r0[j] == m0[j + 1]);
        }
        assert(r0[i - 1] == m0[i]);
        lemma_replace_update(r0, r1, id, text, i - 1);
        assert(m0[0].0 != id);
        assert(lookup(m1, id) == Some(text));
        assert forall|k: Seq<char>| k != id implies #[trigger] lookup(m1, k) == lookup(m0, k) by {
            if m0[0].0 == k {
            } else {
                assert(lookup(m1, k) == lookup(r1, k));
                assert(lookup(m0, k) == lookup(r0, k));
            }
        }
    }
}

proof fn lemma_replace_push(
    m0: Seq<(Seq<char>, Seq<char>)>,
    m1: Seq<(Seq<char>, Seq<char>)>,
    id: Seq<char>,
    text: Seq<char>,
)
    requires
        forall|j: int| 0 <= j < m0.len() ==> (#[trigger] m0[j]).0 != id,
        m1 == m0.push((id, text)),
    ensures
        lookup(m1, id) == Some(text),
        forall|k: Seq<char>| k != id ==> #[trigger] lookup(m1, k) == lookup(m0, k),
    decreases m0.len(),
{
    if m0.len() == 0 {
        assert(m1.len() == 1 && m1[0] == (id, text));
        assert(m1.drop_first() =~= Seq::<(Seq<char>, Seq<char>)>::empty());
        assert forall|k: Seq<char>| k != id implies #[trigger] lookup(m1, k) == lookup(m0, k) by {
            assert(lookup(m1, k) == lookup(m1.drop_first(), k));
        }
    } else {
        let r0 = m0.drop_first();
        let r1 = m1.drop_first();
        assert(m1[0] == m0[0]);
        assert(r1 =~= r0.push((id, text)));
        assert forall|j: int| 0 <= j < r0.len() implies (#[trigger] r0[j]).0 != id by {
            assert(r0[j] == m0[j + 1]);
        }
        lemma_replace_push(r0, r1, id, text);
        assert(m0[0].0 != id);
        assert(lookup(m1, id) == Some(text));
        assert forall|k: Seq<char>| k != id implies #[trigger] lookup(m1, k) == lookup(m0, k) by {
            if m0[0].0 == k {
            } else {
                assert(lookup(m1, k) == lookup(r1, k));
                assert(lookup(m0, k) == lookup(r0, k));
            }
        }
    }
}

} // verus!
