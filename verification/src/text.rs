//! Working with text: splitting it into words and joining words back, comparing
//! with or without regard to case, writing numbers, measuring the columns a text
//! takes on a terminal, and finding one text in another.

use vstd::prelude::*;
use vstd::string::*;

verus! {

/// `str` equality compares the two texts character by character.
pub assume_specification[ <str as PartialEq>::eq ](a: &str, b: &str) -> (r: bool)
    ensures
        r == (a@ == b@),
;

/// Whether `unicase` holds the two texts equal: the verdict of comparing them
/// with case folded away.
pub uninterp spec fn unicase_eq(a: Seq<char>, b: Seq<char>) -> bool;

/// Compares two texts as `unicase::UniCase` does with `==`, `a` on the left. The
/// crate folds case before comparing: by ASCII rules when a text is all ASCII,
/// by the Unicode case-folding table otherwise. The verdict depends on the two
/// texts alone.
#[verifier::external_body]
pub(crate) fn caseless_eq(a: &str, b: &str) -> (r: bool)
    ensures
        r == unicase_eq(a@, b@),
{
    unicase::UniCase::new(a) == unicase::UniCase::new(b)
}

/// Whether the text `own` counts as the text `wanted`: equal once case is
/// folded when `case_insensitive` is set, equal character by character otherwise.
pub open spec fn text_matches(own: Seq<char>, wanted: Seq<char>, case_insensitive: bool) -> bool {
    if case_insensitive {
        unicase_eq(own, wanted)
    } else {
        own == wanted
    }
}

/// Whether `own` counts as `wanted`, with or without regard to case.
pub fn texts_match(own: &str, wanted: &str, case_insensitive: bool) -> (r: bool)
    ensures
        r == text_matches(own@, wanted@, case_insensitive),
{
    if case_insensitive {
        caseless_eq(own, wanted)
    } else {
        *own == *wanted
    }
}

/// The five ASCII whitespace characters: space, tab, line feed, form feed and
/// carriage return.
pub open spec fn is_space(c: char) -> bool {
    c == ' ' || c == '\t' || c == '\n' || c == '\x0C' || c == '\r'
}

/// Whether `c` is ASCII whitespace.
pub fn is_ascii_space(c: char) -> (r: bool)
    ensures
        r == is_space(c),
{
    c == ' ' || c == '\t' || c == '\n' || c == '\x0C' || c == '\r'
}

/// A text in which no character is ASCII whitespace.
pub open spec fn has_no_space(s: Seq<char>) -> bool {
    forall|i: int| 0 <= i < s.len() ==> !is_space(#[trigger] s[i])
}

/// A word: non-empty and free of ASCII whitespace.
pub open spec fn is_word(s: Seq<char>) -> bool {
    s.len() > 0 && has_no_space(s)
}

/// Reading `s` from the left: the words already closed by a whitespace
/// character, and the characters read since the last whitespace.
pub open spec fn scan(s: Seq<char>) -> (Seq<Seq<char>>, Seq<char>)
    decreases s.len(),
{
    if s.len() == 0 {
        (Seq::empty(), Seq::empty())
    } else {
        let (done, open) = scan(s.drop_last());
        if !is_space(s.last()) {
            (done, open.push(s.last()))
        } else if open.len() > 0 {
            (done.push(open), Seq::empty())
        } else {
            (done, open)
        }
    }
}

/// The maximal runs of non-whitespace characters of `s`, in order.
pub open spec fn words(s: Seq<char>) -> Seq<Seq<char>> {
    let (done, open) = scan(s);
    if open.len() > 0 {
        done.push(open)
    } else {
        done
    }
}

/// The texts held by a sequence of strings.
pub open spec fn texts(v: Seq<String>) -> Seq<Seq<char>> {
    Seq::new(v.len(), |i: int| v[i]@)
}

/// `parts` written one after the other with `sep` between neighbours.
pub open spec fn join(parts: Seq<Seq<char>>, sep: Seq<char>) -> Seq<char>
    decreases parts.len(),
{
    if parts.len() == 0 {
        Seq::empty()
    } else if parts.len() == 1 {
        parts[0]
    } else {
        join(parts.drop_last(), sep) + sep + parts.last()
    }
}

/// Splits `s` on ASCII whitespace; empty pieces are dropped.
pub fn split_words(s: &str) -> (r: Vec<String>)
    ensures
        texts(r@) == words(s@),
{
    let mut out: Vec<String> = Vec::new();
    let n = s.unicode_len();
    let mut start: usize = 0;
    let mut i: usize = 0;
    for c in it: s.chars()
        invariant
            it.seq() == s@,
            n == s@.len(),
            i == it.index(),
            start <= i <= s@.len(),
            texts(out@) == scan(s@.take(i as int)).0,
            s@.subrange(start as int, i as int) == scan(s@.take(i as int)).1,
    {
        proof {
            assert(s@.take(i + 1).drop_last() == s@.take(i as int));
            assert(s@.take(i + 1).last() == c);
        }
        if is_ascii_space(c) {
            if start < i {
                let w = s.substring_char(start, i);
                let ghost before = out@;
                out.push(String::from_str(w));
                assert(texts(out@) == texts(before).push(w@));
            }
            start = i + 1;
            assert(s@.subrange(start as int, i + 1) == Seq::<char>::empty());
        } else {
            assert(s@.subrange(start as int, i + 1) == s@.subrange(start as int, i as int).push(
                c,
            ));
        }
        i += 1;
    }
    assert(s@.take(i as int) == s@);
    if start < i {
        let w = s.substring_char(start, i);
        let ghost before = out@;
        out.push(String::from_str(w));
        assert(texts(out@) == texts(before).push(w@));
    }
    out
}

/// Concatenates `parts`, writing `sep` between neighbours.
pub fn join_words(parts: &Vec<String>, sep: &str) -> (r: String)
    ensures
        r@ == join(texts(parts@), sep@),
{
    let mut out = String::new();
    let n = parts.len();
    let mut i: usize = 0;
    while i < n
        invariant
            n == parts.len(),
            i <= n,
            out@ == join(texts(parts@).take(i as int), sep@),
        decreases n - i,
    {
        let ghost all = texts(parts@);
        proof {
            assert(all.take(i + 1).drop_last() == all.take(i as int));
            assert(all.take(i + 1).last() == parts@[i as int]@);
        }
        if i > 0 {
            out.append(sep);
        }
        out.append(parts[i].as_str());
        proof {
            if i == 0 {
                assert(out@ == parts@[0]@);
            }
        }
        i += 1;
    }
    assert(texts(parts@).take(n as int) == texts(parts@));
    out
}

/// The character that writes the digit `d`, for `d` from 0 to 9.
pub open spec fn digit_char(d: int) -> char {
    "0123456789"@[d]
}

/// `n` written in base ten, without leading zeros.
pub open spec fn decimal(n: nat) -> Seq<char>
    decreases n,
{
    if n < 10 {
        seq![digit_char(n as int)]
    } else {
        decimal(n / 10).push(digit_char((n % 10) as int))
    }
}

/// `n` written in base ten, with a leading minus sign when it is negative.
pub open spec fn signed_decimal(n: int) -> Seq<char> {
    if n < 0 {
        seq!['-'] + decimal((-n) as nat)
    } else {
        decimal(n as nat)
    }
}

/// Writes `n` in base ten.
pub fn decimal_string(n: u128) -> (r: String)
    ensures
        r@ == decimal(n as nat),
    decreases n,
{
    let digits = "0123456789";
    proof {
        reveal_strlit("0123456789");
    }
    let d = (n % 10) as usize;
    let last = digits.substring_char(d, d + 1);
    assert(last@ == seq![digit_char(d as int)]);
    if n < 10 {
        String::from_str(last)
    } else {
        let mut s = decimal_string(n / 10);
        s.append(last);
        s
    }
}

/// Writes `n` in base ten, with a leading minus sign when it is negative.
pub fn signed_decimal_string(n: i128) -> (r: String)
    ensures
        r@ == signed_decimal(n as int),
{
    if n < 0 {
        let magnitude: u128 = (-(n + 1)) as u128 + 1;
        let mut s = String::from_str("-");
        proof {
            reveal_strlit("-");
            assert("-"@ == seq!['-']);
        }
        let digits = decimal_string(magnitude);
        s.append(digits.as_str());
        s
    } else {
        decimal_string(n as u128)
    }
}

/// The number of digits of `n` grows by one with each factor of ten.
pub proof fn lemma_decimal_len(n: nat)
    ensures
        decimal(n).len() == if n < 10 {
            1
        } else {
            decimal(n / 10).len() + 1
        },
        decimal(n).len() >= 1,
    decreases n,
{
    if n >= 10 {
        lemma_decimal_len(n / 10);
    }
}

/// The columns that `unicode-width` counts for one character, in a context
/// that is not East Asian.
pub uninterp spec fn char_columns(c: char) -> nat;

/// Columns taken by one character: one for printable ASCII and for the
/// ellipsis, what `unicode-width` counts for any other.
pub open spec fn columns_of_char(c: char) -> nat {
    if ' ' <= c <= '~' || c == '…' {
        1
    } else {
        char_columns(c)
    }
}

/// Columns taken by a text on a terminal: the sum over its characters.
pub open spec fn columns(s: Seq<char>) -> nat
    decreases s.len(),
{
    if s.len() == 0 {
        0
    } else {
        columns(s.drop_last()) + columns_of_char(s.last())
    }
}

/// Measures a text with `unicode_width::UnicodeWidthStr::width`. The crate adds
/// up the widths of the characters, a control character counting as zero. Its
/// table gives one column to every character from the space to the tilde and,
/// outside East Asian contexts, to the ellipsis U+2026.
#[verifier::external_body]
pub(crate) fn str_columns(s: &str) -> (w: usize)
    ensures
        w == columns(s@),
        s@.len() == 1 && !(' ' <= s@[0] <= '~') && s@[0] != '…' ==> w == char_columns(s@[0]),
{
    unicode_width::UnicodeWidthStr::width(s)
}

/// The columns of a text made of two parts are the columns of the parts.
pub proof fn lemma_columns_concat(a: Seq<char>, b: Seq<char>)
    ensures
        columns(a + b) == columns(a) + columns(b),
    decreases b.len(),
{
    if b.len() == 0 {
        assert(a + b == a);
    } else {
        lemma_columns_concat(a, b.drop_last());
        assert((a + b).drop_last() == a + b.drop_last());
        assert((a + b).last() == b.last());
    }
}

/// A text of printable ASCII takes one column per character.
pub proof fn lemma_columns_ascii(s: Seq<char>)
    requires
        forall|i: int| 0 <= i < s.len() ==> ' ' <= #[trigger] s[i] <= '~',
    ensures
        columns(s) == s.len(),
    decreases s.len(),
{
    if s.len() > 0 {
        lemma_columns_ascii(s.drop_last());
    }
}

/// Reading on through a text without whitespace only lengthens the open word.
pub proof fn lemma_scan_word(a: Seq<char>, w: Seq<char>)
    requires
        has_no_space(w),
    ensures
        scan(a + w) == (scan(a).0, scan(a).1 + w),
    decreases w.len(),
{
    if w.len() == 0 {
        assert(a + w == a);
        assert(scan(a).1 + w == scan(a).1);
    } else {
        let shorter = w.drop_last();
        assert(has_no_space(shorter)) by {
            assert forall|i: int| 0 <= i < shorter.len() implies !is_space(#[trigger] shorter[i]) by {
                assert(shorter[i] == w[i]);
            }
        }
        lemma_scan_word(a, shorter);
        assert((a + w).drop_last() == a + shorter);
        assert((a + w).last() == w.last());
        assert(!is_space(w[w.len() - 1]));
        assert((scan(a).1 + shorter).push(w.last()) == scan(a).1 + w);
    }
}

/// The words of two texts with a blank between them are the words of the
/// first followed by the words of the second.
pub proof fn lemma_words_concat(a: Seq<char>, b: Seq<char>)
    ensures
        scan(a + seq![' '] + b) == (words(a) + scan(b).0, scan(b).1),
        words(a + seq![' '] + b) == words(a) + words(b),
    decreases b.len(),
{
    let ab = a + seq![' '] + b;
    if b.len() == 0 {
        assert(ab.drop_last() == a);
        assert(ab.last() == ' ');
        assert(words(a) + Seq::<Seq<char>>::empty() == words(a));
    } else {
        lemma_words_concat(a, b.drop_last());
        assert(ab.drop_last() == a + seq![' '] + b.drop_last());
        assert(ab.last() == b.last());
        let (done, open) = scan(b.drop_last());
        assert((words(a) + done).push(open) == words(a) + done.push(open));
    }
    let (done, open) = scan(b);
    assert((words(a) + done).push(open) == words(a) + done.push(open));
}

/// A word is its own only word.
pub proof fn lemma_words_of_word(w: Seq<char>)
    requires
        is_word(w),
    ensures
        words(w) == seq![w],
{
    lemma_scan_word(Seq::empty(), w);
    assert(Seq::<char>::empty() + w == w);
}

/// Words joined by single blanks split into the same words again.
pub proof fn lemma_words_of_joined(ws: Seq<Seq<char>>)
    requires
        forall|i: int| 0 <= i < ws.len() ==> is_word(#[trigger] ws[i]),
    ensures
        words(join(ws, seq![' '])) == ws,
    decreases ws.len(),
{
    if ws.len() == 0 {
    } else if ws.len() == 1 {
        lemma_words_of_word(ws[0]);
        assert(seq![ws[0]] == ws);
    } else {
        let rest = ws.drop_last();
        assert forall|i: int| 0 <= i < rest.len() implies is_word(#[trigger] rest[i]) by {
            assert(rest[i] == ws[i]);
        }
        lemma_words_of_joined(rest);
        lemma_words_concat(join(rest, seq![' ']), ws.last());
        assert(is_word(ws[ws.len() - 1]));
        lemma_words_of_word(ws.last());
        assert(rest + seq![ws.last()] == ws);
    }
}

/// Every word of a text is a word: not empty, and free of whitespace.
pub proof fn lemma_words_are_words(s: Seq<char>)
    ensures
        forall|i: int| 0 <= i < words(s).len() ==> is_word(#[trigger] words(s)[i]),
        forall|i: int| 0 <= i < scan(s).0.len() ==> is_word(#[trigger] scan(s).0[i]),
        has_no_space(scan(s).1),
    decreases s.len(),
{
    if s.len() > 0 {
        lemma_words_are_words(s.drop_last());
        let (done, open) = scan(s.drop_last());
        if !is_space(s.last()) {
            assert forall|i: int| 0 <= i < open.push(s.last()).len() implies !is_space(
                #[trigger] open.push(s.last())[i],
            ) by {
                if i < open.len() {
                    assert(open.push(s.last())[i] == open[i]);
                }
            }
        } else if open.len() > 0 {
            assert forall|i: int| 0 <= i < done.push(open).len() implies is_word(
                #[trigger] done.push(open)[i],
            ) by {
                if i < done.len() {
                    assert(done.push(open)[i] == done[i]);
                }
            }
        }
    }
    let (done, open) = scan(s);
    if open.len() > 0 {
        assert forall|i: int| 0 <= i < done.push(open).len() implies is_word(
            #[trigger] done.push(open)[i],
        ) by {
            if i < done.len() {
                assert(done.push(open)[i] == done[i]);
            }
        }
    }
}

/// The characters that Unicode counts as white space.
pub open spec fn is_white_space(c: char) -> bool {
    ||| '\u{9}' <= c <= '\u{d}'
    ||| c == ' '
    ||| c == '\u{85}'
    ||| c == '\u{a0}'
    ||| c == '\u{1680}'
    ||| '\u{2000}' <= c <= '\u{200a}'
    ||| c == '\u{2028}'
    ||| c == '\u{2029}'
    ||| c == '\u{202f}'
    ||| c == '\u{205f}'
    ||| c == '\u{3000}'
}

/// A text that holds nothing but white space.
pub open spec fn is_blank(s: Seq<char>) -> bool {
    forall|i: int| 0 <= i < s.len() ==> is_white_space(#[trigger] s[i])
}

/// Whether `s` holds nothing but white space.
pub fn is_blank_text(s: &str) -> (r: bool)
    ensures
        r == is_blank(s@),
{
    for c in it: s.chars()
        invariant
            it.seq() == s@,
            forall|i: int| 0 <= i < it.index() ==> is_white_space(#[trigger] s@[i]),
    {
        if !is_white(c) {
            return false;
        }
    }
    true
}

/// Whether `needle` stands in `haystack` at position `at`.
pub open spec fn occurs_at(haystack: Seq<char>, needle: Seq<char>, at: int) -> bool {
    0 <= at && at + needle.len() <= haystack.len() && haystack.subrange(
        at,
        at + needle.len(),
    ) == needle
}

/// The first position at which `needle` stands in `haystack`, if it stands
/// there at all.
#[verifier::opaque]
pub open spec fn first_occurrence(haystack: Seq<char>, needle: Seq<char>) -> Option<int> {
    if exists|at: int| occurs_at(haystack, needle, at) {
        Some(
            choose|at: int|
                occurs_at(haystack, needle, at) && forall|earlier: int|
                    0 <= earlier < at ==> !occurs_at(haystack, needle, earlier),
        )
    } else {
        None
    }
}

/// The characters of `s`.
pub fn chars_of(s: &str) -> (r: Vec<char>)
    ensures
        r@ == s@,
{
    let mut out: Vec<char> = Vec::new();
    for c in it: s.chars()
        invariant
            it.seq() == s@,
            out@ == s@.take(it.index() as int),
    {
        out.push(c);
        assert(s@.take(it.index() + 1) =~= s@.take(it.index() as int).push(c));
    }
    assert(s@.take(s@.len() as int) == s@);
    out
}

/// Whether `needle` stands in `haystack` at position `at`.
fn matches_at(haystack: &Vec<char>, needle: &Vec<char>, at: usize) -> (r: bool)
    requires
        at + needle@.len() <= haystack@.len(),
    ensures
        r == occurs_at(haystack@, needle@, at as int),
{
    let m = needle.len();
    let n = haystack.len();
    let mut j: usize = 0;
    while j < m
        invariant
            m == needle@.len(),
            n == haystack@.len(),
            j <= m,
            at + m <= n,
            forall|k: int| 0 <= k < j ==> haystack@[at + k] == needle@[k],
        decreases m - j,
    {
        if haystack[at + j] != needle[j] {
            assert(haystack@.subrange(at as int, at + m)[j as int] != needle@[j as int]);
            return false;
        }
        j += 1;
    }
    assert(haystack@.subrange(at as int, at + m) =~= needle@);
    true
}

/// Finds the first position at which `needle` stands in `haystack`.
pub fn find(haystack: &str, needle: &str) -> (r: Option<usize>)
    ensures
        match r {
            Some(at) => first_occurrence(haystack@, needle@) == Some(at as int) && occurs_at(
                haystack@,
                needle@,
                at as int,
            ),
            None => first_occurrence(haystack@, needle@) is None,
        },
{
    reveal(first_occurrence);
    let hay = chars_of(haystack);
    let pin = chars_of(needle);
    let n = hay.len();
    let m = pin.len();
    if m > n {
        return None;
    }
    let mut at: usize = 0;
    loop
        invariant
            n == hay@.len(),
            m == pin@.len(),
            m <= n,
            hay@ == haystack@,
            pin@ == needle@,
            at <= n - m,
            forall|earlier: int| 0 <= earlier < at ==> !occurs_at(hay@, pin@, earlier),
        decreases n - m - at,
    {
        if matches_at(&hay, &pin, at) {
            proof {
                reveal(first_occurrence);
                let found = choose|i: int|
                    occurs_at(hay@, pin@, i) && forall|earlier: int|
                        0 <= earlier < i ==> !occurs_at(hay@, pin@, earlier);
                assert(found == at);
            }
            return Some(at);
        }
        if at == n - m {
            proof {
                reveal(first_occurrence);
            }
            return None;
        }
        at += 1;
    }
}

/// The strings of `v` as string slices.
pub fn str_slices(v: &Vec<String>) -> (r: Vec<&str>)
    ensures
        r@.len() == v@.len(),
        forall|i: int| 0 <= i < v@.len() ==> (#[trigger] r@[i])@ == v@[i]@,
{
    let mut out: Vec<&str> = Vec::new();
    let n = v.len();
    let mut i: usize = 0;
    while i < n
        invariant
            n == v@.len(),
            i <= n,
            out@.len() == i,
            forall|k: int| 0 <= k < i ==> (#[trigger] out@[k])@ == v@[k]@,
        decreases n - i,
    {
        out.push(v[i].as_str());
        i += 1;
    }
    out
}

/// `s` without the white space it starts with.
pub open spec fn trimmed_start(s: Seq<char>) -> Seq<char>
    decreases s.len(),
{
    if s.len() > 0 && is_white_space(s.first()) {
        trimmed_start(s.drop_first())
    } else {
        s
    }
}

/// `s` without the white space it ends with.
pub open spec fn trimmed_end(s: Seq<char>) -> Seq<char>
    decreases s.len(),
{
    if s.len() > 0 && is_white_space(s.last()) {
        trimmed_end(s.drop_last())
    } else {
        s
    }
}

/// `s` without the white space around it.
pub open spec fn trimmed(s: Seq<char>) -> Seq<char> {
    trimmed_end(trimmed_start(s))
}

/// Whether `c` is white space.
pub fn is_white(c: char) -> (r: bool)
    ensures
        r == is_white_space(c),
{
    ('\u{9}' <= c && c <= '\u{d}') || c == ' ' || c == '\u{85}' || c == '\u{a0}' || c
        == '\u{1680}' || ('\u{2000}' <= c && c <= '\u{200a}') || c == '\u{2028}' || c
        == '\u{2029}' || c == '\u{202f}' || c == '\u{205f}' || c == '\u{3000}'
}

/// Takes the white space around `s` away.
pub fn trim(s: &str) -> (r: &str)
    ensures
        r@ == trimmed(s@),
{
    let chars = chars_of(s);
    let n = chars.len();
    let mut start: usize = 0;
    assert(s@.skip(0) == s@);
    while start < n && is_white(chars[start])
        invariant
            n == chars@.len(),
            chars@ == s@,
            start <= n,
            trimmed_start(s@) == trimmed_start(s@.skip(start as int)),
        decreases n - start,
    {
        assert(s@.skip(start as int).drop_first() == s@.skip(start + 1));
        start += 1;
    }
    assert(trimmed_start(s@) == s@.skip(start as int));
    let ghost rest = s@.skip(start as int);
    let mut end: usize = n;
    assert(rest.take(n - start) == rest);
    while end > start && is_white(chars[end - 1])
        invariant
            n == chars@.len(),
            chars@ == s@,
            start <= end <= n,
            rest == s@.skip(start as int),
            trimmed_end(rest) == trimmed_end(rest.take(end - start)),
        decreases end,
    {
        assert(rest.take(end - start).drop_last() == rest.take(end - start - 1));
        assert(rest.take(end - start).last() == s@[end - 1]);
        end -= 1;
    }
    proof {
        if end > start {
            assert(rest.take(end - start).last() == s@[end - 1]);
        }
        assert(trimmed_end(rest) == rest.take(end - start));
        assert(rest.take(end - start) =~= s@.subrange(start as int, end as int));
    }
    s.substring_char(start, end)
}

} // verus!
