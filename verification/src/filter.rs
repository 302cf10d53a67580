//! Filtering tasks on the words of their description.

use crate::metadata::slice_texts;
use crate::text::{split_words, text_matches, texts, texts_match, words};
use vstd::prelude::*;
use vstd::string::*;

verus! {

/// Whether no term of `terms` counts as a later one.
pub open spec fn pairwise_distinct(terms: Seq<Seq<char>>, case_insensitive: bool) -> bool {
    forall|i: int, j: int|
        0 <= i < j < terms.len() ==> !text_matches(
            #[trigger] terms[i],
            #[trigger] terms[j],
            case_insensitive,
        )
}

/// Whether some term of `terms` counts as `word`.
pub open spec fn has_match(terms: Seq<Seq<char>>, word: Seq<char>, case_insensitive: bool) -> bool {
    exists|i: int| 0 <= i < terms.len() && text_matches(#[trigger] terms[i], word, case_insensitive)
}

/// Position of the first term of `terms` that counts as `word`; the length of
/// `terms` when there is none.
pub open spec fn first_match(terms: Seq<Seq<char>>, word: Seq<char>, case_insensitive: bool) -> int
    decreases terms.len(),
{
    if terms.len() == 0 {
        0
    } else if text_matches(terms.first(), word, case_insensitive) {
        0
    } else {
        1 + first_match(terms.drop_first(), word, case_insensitive)
    }
}

/// `terms` without the first term that counts as `word`; `terms` itself when
/// there is none.
pub open spec fn without(terms: Seq<Seq<char>>, word: Seq<char>, case_insensitive: bool) -> Seq<
    Seq<char>,
> {
    let at = first_match(terms, word, case_insensitive);
    if 0 <= at < terms.len() {
        terms.remove(at)
    } else {
        terms
    }
}

/// `words` with repeats dropped: a word stays unless an earlier word that stayed
/// already counts as it.
pub open spec fn distinct_terms(words: Seq<Seq<char>>, case_insensitive: bool) -> Seq<Seq<char>>
    decreases words.len(),
{
    if words.len() == 0 {
        Seq::empty()
    } else {
        let kept = distinct_terms(words.drop_last(), case_insensitive);
        if has_match(kept, words.last(), case_insensitive) {
            kept
        } else {
            kept.push(words.last())
        }
    }
}

/// The terms still wanted after each word of `words`, read from the left, has
/// struck out the first term it counts as.
pub open spec fn left_after(
    terms: Seq<Seq<char>>,
    words: Seq<Seq<char>>,
    case_insensitive: bool,
) -> Seq<Seq<char>>
    decreases words.len(),
{
    if words.len() == 0 {
        terms
    } else {
        without(
            left_after(terms, words.drop_last(), case_insensitive),
            words.last(),
            case_insensitive,
        )
    }
}

/// Whether a description passes a filter with the given terms: each term is
/// struck out by a word of the description.
pub open spec fn passes(terms: Seq<Seq<char>>, description: Seq<char>, case_insensitive: bool) -> bool {
    left_after(terms, words(description), case_insensitive).len() == 0
}

/// `first_match` finds a term that counts as the word exactly when there is one,
/// and no earlier term does.
pub proof fn lemma_first_match(terms: Seq<Seq<char>>, word: Seq<char>, case_insensitive: bool)
    ensures
        0 <= first_match(terms, word, case_insensitive) <= terms.len(),
        first_match(terms, word, case_insensitive) < terms.len() <==> has_match(
            terms,
            word,
            case_insensitive,
        ),
        first_match(terms, word, case_insensitive) < terms.len() ==> text_matches(
            terms[first_match(terms, word, case_insensitive)],
            word,
            case_insensitive,
        ),
        forall|i: int|
            0 <= i < first_match(terms, word, case_insensitive) ==> !text_matches(
                #[trigger] terms[i],
                word,
                case_insensitive,
            ),
    decreases terms.len(),
{
    if terms.len() > 0 && !text_matches(terms.first(), word, case_insensitive) {
        let rest = terms.drop_first();
        lemma_first_match(rest, word, case_insensitive);
        let at = first_match(rest, word, case_insensitive);
        if at < rest.len() {
            assert(text_matches(terms[at + 1], word, case_insensitive));
        }
        if has_match(terms, word, case_insensitive) {
            let i = choose|i: int|
                0 <= i < terms.len() && text_matches(#[trigger] terms[i], word, case_insensitive);
            assert(text_matches(rest[i - 1], word, case_insensitive));
        }
        assert forall|i: int| 0 <= i < at + 1 implies !text_matches(
            #[trigger] terms[i],
            word,
            case_insensitive,
        ) by {
            if i > 0 {
                assert(terms[i] == rest[i - 1]);
            }
        }
    }
}

/// A set of words that a task's description must contain, compared either
/// exactly or with case folded.
///
/// No two terms of a filter count as each other.
#[derive(Debug)]
pub struct TaskDescriptionFilter {
    terms: Vec<String>,
    case_insensitive: bool,
}

/// What a [`TaskDescriptionFilter`] holds.
pub struct FilterView {
    pub terms: Seq<Seq<char>>,
    pub case_insensitive: bool,
}

impl View for TaskDescriptionFilter {
    type V = FilterView;

    closed spec fn view(&self) -> FilterView {
        FilterView { terms: texts(self.terms@), case_insensitive: self.case_insensitive }
    }
}

/// Position of the first of `terms` that counts as `word`, if any.
fn find_match(terms: &[&str], word: &str, case_insensitive: bool) -> (r: usize)
    ensures
        r == first_match(slice_texts(terms@), word@, case_insensitive),
{
    let ghost ts = slice_texts(terms@);
    let n = terms.len();
    let mut i: usize = 0;
    assert(ts.skip(0) == ts);
    while i < n
        invariant
            n == terms@.len(),
            i <= n,
            ts == slice_texts(terms@),
            first_match(ts, word@, case_insensitive) == i + first_match(
                ts.skip(i as int),
                word@,
                case_insensitive,
            ),
        decreases n - i,
    {
        proof {
            assert(ts.skip(i as int).drop_first() == ts.skip(i + 1));
            assert(ts.skip(i as int).first() == terms@[i as int]@);
        }
        if texts_match(terms[i], word, case_insensitive) {
            return i;
        }
        i += 1;
    }
    n
}

impl TaskDescriptionFilter {
    #[verifier::type_invariant]
    spec fn distinct(self) -> bool {
        pairwise_distinct(texts(self.terms@), self.case_insensitive)
    }

    /// The terms as string slices.
    fn term_slices(&self) -> (r: Vec<&str>)
        ensures
            slice_texts(r@) == self@.terms,
    {
        let mut out: Vec<&str> = Vec::new();
        let n = self.terms.len();
        let mut i: usize = 0;
        while i < n
            invariant
                n == self.terms@.len(),
                i <= n,
                slice_texts(out@) == texts(self.terms@).take(i as int),
            decreases n - i,
        {
            let ghost before = out@;
            out.push(self.terms[i].as_str());
            assert(slice_texts(out@) =~= slice_texts(before).push(self.terms@[i as int]@));
            assert(texts(self.terms@).take(i + 1) =~= texts(self.terms@).take(i as int).push(
                self.terms@[i as int]@,
            ));
            i += 1;
        }
        assert(texts(self.terms@).take(n as int) == texts(self.terms@));
        out
    }

    /// A filter that wants every word of `words`; a word given twice is wanted once.
    pub fn new(words: &[&str], case_insensitive: bool) -> (r: TaskDescriptionFilter)
        ensures
            r@.case_insensitive == case_insensitive,
            r@.terms == distinct_terms(slice_texts(words@), case_insensitive),
            pairwise_distinct(r@.terms, case_insensitive),
    {
        let ghost ws = slice_texts(words@);
        let mut kept: Vec<&str> = Vec::new();
        let n = words.len();
        let mut i: usize = 0;
        while i < n
            invariant
                n == words@.len(),
                i <= n,
                ws == slice_texts(words@),
                slice_texts(kept@) == distinct_terms(ws.take(i as int), case_insensitive),
                pairwise_distinct(slice_texts(kept@), case_insensitive),
            decreases n - i,
        {
            proof {
                assert(ws.take(i + 1).drop_last() == ws.take(i as int));
                assert(ws.take(i + 1).last() == words@[i as int]@);
                lemma_first_match(slice_texts(kept@), words@[i as int]@, case_insensitive);
            }
            let at = find_match(kept.as_slice(), words[i], case_insensitive);
            if at == kept.len() {
                let ghost before = kept@;
                kept.push(words[i]);
                assert(slice_texts(kept@) =~= slice_texts(before).push(words@[i as int]@));
            }
            i += 1;
        }
        assert(ws.take(n as int) == ws);
        let mut terms: Vec<String> = Vec::new();
        let m = kept.len();
        let mut j: usize = 0;
        while j < m
            invariant
                m == kept@.len(),
                j <= m,
                texts(terms@) == slice_texts(kept@).take(j as int),
            decreases m - j,
        {
            let ghost before = terms@;
            terms.push(String::from_str(kept[j]));
            assert(texts(terms@) =~= texts(before).push(kept@[j as int]@));
            assert(slice_texts(kept@).take(j + 1) =~= slice_texts(kept@).take(j as int).push(
                kept@[j as int]@,
            ));
            j += 1;
        }
        assert(slice_texts(kept@).take(m as int) == slice_texts(kept@));
        TaskDescriptionFilter { terms, case_insensitive }
    }

    /// Whether the filter folds case.
    pub fn is_case_insensitive(&self) -> (r: bool)
        ensures
            r == self@.case_insensitive,
    {
        self.case_insensitive
    }

    /// Whether the filter wants nothing.
    pub fn is_empty(&self) -> (r: bool)
        ensures
            r == (self@.terms.len() == 0),
    {
        self.terms.len() == 0
    }

    /// Strikes out the term that counts as `word`. Returns whether there was one.
    pub fn remove(&mut self, word: &str) -> (r: bool)
        ensures
            final(self)@.case_insensitive == old(self)@.case_insensitive,
            final(self)@.terms == without(old(self)@.terms, word@, old(self)@.case_insensitive),
            r == has_match(old(self)@.terms, word@, old(self)@.case_insensitive),
            pairwise_distinct(final(self)@.terms, final(self)@.case_insensitive),
    {
        proof {
            use_type_invariant(&*self);
            lemma_first_match(self@.terms, word@, self.case_insensitive);
        }
        let slices = self.term_slices();
        let at = find_match(slices.as_slice(), word, self.case_insensitive);
        let n = self.terms.len();
        if at < n {
            let ghost before = texts(self.terms@);
            let mut kept: Vec<String> = Vec::new();
            let mut i: usize = 0;
            while i < n
                invariant
                    n == self.terms@.len(),
                    at < n,
                    i <= n,
                    before == texts(self.terms@),
                    texts(kept@) == if i <= at {
                        before.take(i as int)
                    } else {
                        before.remove(at as int).take(i - 1)
                    },
                decreases n - i,
            {
                if i != at {
                    let ghost so_far = kept@;
                    kept.push(self.terms[i].clone());
                    assert(texts(kept@) =~= texts(so_far).push(before[i as int]));
                }
                proof {
                    if i + 1 <= at {
                        assert(before.take(i + 1) =~= before.take(i as int).push(before[i as int]));
                    } else if i == at {
                        assert(before.remove(at as int).take(i as int) =~= before.take(i as int));
                    } else {
                        assert(before.remove(at as int).take(i as int) =~= before.remove(
                            at as int,
                        ).take(i - 1).push(before[i as int]));
                    }
                }
                i += 1;
            }
            assert(before.remove(at as int).take(n - 1) =~= before.remove(at as int));
            self.terms = kept;
            true
        } else {
            false
        }
    }

    /// The terms still wanted.
    pub fn terms(&self) -> (r: Vec<&str>)
        ensures
            slice_texts(r@) == self@.terms,
            pairwise_distinct(self@.terms, self@.case_insensitive),
    {
        proof {
            use_type_invariant(self);
        }
        self.term_slices()
    }

    /// Whether `description` passes the filter: reading its words from the left,
    /// each word strikes out the term it counts as, and in the end no term is left.
    /// A filter without terms lets every description pass.
    pub fn accepts(&self, description: &str) -> (r: bool)
        ensures
            r == passes(self@.terms, description@, self@.case_insensitive),
    {
        let ci = self.case_insensitive;
        let mut left = self.term_slices();
        let ws = split_words(description);
        let ghost all = texts(ws@);
        let n = ws.len();
        let mut i: usize = 0;
        while i < n
            invariant
                n == ws@.len(),
                i <= n,
                all == texts(ws@),
                ci == self@.case_insensitive,
                slice_texts(left@) == left_after(self@.terms, all.take(i as int), ci),
            decreases n - i,
        {
            proof {
                assert(all.take(i + 1).drop_last() == all.take(i as int));
                assert(all.take(i + 1).last() == ws@[i as int]@);
                lemma_first_match(slice_texts(left@), ws@[i as int]@, ci);
            }
            let at = find_match(left.as_slice(), ws[i].as_str(), ci);
            if at < left.len() {
                let ghost before = slice_texts(left@);
                left.remove(at);
                assert(slice_texts(left@) =~= before.remove(at as int));
            }
            i += 1;
        }
        assert(all.take(n as int) == all);
        left.len() == 0
    }
}

/// What is left of distinct terms after some words, compared exactly: no term
/// twice, and just the terms that are none of the words.
proof fn lemma_left_after_exact(terms: Seq<Seq<char>>, ws: Seq<Seq<char>>)
    requires
        pairwise_distinct(terms, false),
    ensures
        pairwise_distinct(left_after(terms, ws, false), false),
        forall|t: Seq<char>| #[trigger]
            left_after(terms, ws, false).contains(t) <==> terms.contains(t) && !ws.contains(t),
    decreases ws.len(),
{
    if ws.len() > 0 {
        let shorter = ws.drop_last();
        let word = ws.last();
        lemma_left_after_exact(terms, shorter);
        let left = left_after(terms, shorter, false);
        let next = left_after(terms, ws, false);
        lemma_first_match(left, word, false);
        let at = first_match(left, word, false);
        assert(next == without(left, word, false));
        assert forall|t: Seq<char>| ws.contains(t) <==> shorter.contains(t) || t == word by {
            if ws.contains(t) {
                let i = choose|i: int| 0 <= i < ws.len() && ws[i] == t;
                if i < shorter.len() {
                    assert(shorter[i] == t);
                }
            }
            if shorter.contains(t) {
                let i = choose|i: int| 0 <= i < shorter.len() && shorter[i] == t;
                assert(ws[i] == t);
            }
            if t == word {
                assert(ws[ws.len() - 1] == t);
            }
        }
        if at < left.len() {
            assert(left[at] == word);
            assert forall|t: Seq<char>| #[trigger]
                next.contains(t) <==> left.contains(t) && t != word by {
                if next.contains(t) {
                    let i = choose|i: int| 0 <= i < next.len() && next[i] == t;
                    if i < at {
                        assert(left[i] == t);
                        assert(!text_matches(left[i], left[at], false));
                    } else {
                        assert(left[i + 1] == t);
                        assert(!text_matches(left[at], left[i + 1], false));
                    }
                }
                if left.contains(t) && t != word {
                    let i = choose|i: int| 0 <= i < left.len() && left[i] == t;
                    if i < at {
                        assert(next[i] == t);
                    } else {
                        assert(next[i - 1] == t);
                    }
                }
            }
            assert forall|i: int, j: int| 0 <= i < j < next.len() implies !text_matches(
                #[trigger] next[i],
                #[trigger] next[j],
                false,
            ) by {
                let a = if i < at { i } else { i + 1 };
                let b = if j < at { j } else { j + 1 };
                assert(next[i] == left[a] && next[j] == left[b]);
                assert(!text_matches(left[a], left[b], false));
            }
        } else {
            assert forall|t: Seq<char>| left.contains(t) implies t != word by {
                let i = choose|i: int| 0 <= i < left.len() && left[i] == t;
                assert(!text_matches(left[i], word, false));
            }
        }
    }
}

/// Compared exactly, a description passes a filter when each of the filter's
/// terms is one of its words, and only then.
pub proof fn lemma_passes_exact(terms: Seq<Seq<char>>, description: Seq<char>)
    requires
        pairwise_distinct(terms, false),
    ensures
        passes(terms, description, false) <==> forall|i: int|
            0 <= i < terms.len() ==> words(description).contains(#[trigger] terms[i]),
{
    let ws = words(description);
    let left = left_after(terms, ws, false);
    lemma_left_after_exact(terms, ws);
    if left.len() > 0 {
        assert(left.contains(left[0]));
        let i = choose|i: int| 0 <= i < terms.len() && terms[i] == left[0];
        assert(!ws.contains(terms[i]));
    } else {
        assert forall|i: int| 0 <= i < terms.len() implies ws.contains(#[trigger] terms[i]) by {
            assert(terms.contains(terms[i]));
            if !ws.contains(terms[i]) {
                assert(left.contains(terms[i]));
            }
        }
    }
}

/// A filter without terms lets every description pass.
pub proof fn lemma_empty_filter_passes(ws: Seq<Seq<char>>, case_insensitive: bool)
    ensures
        left_after(Seq::empty(), ws, case_insensitive).len() == 0,
    decreases ws.len(),
{
    if ws.len() > 0 {
        lemma_empty_filter_passes(ws.drop_last(), case_insensitive);
    }
}

} // verus!
