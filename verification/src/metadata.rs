//! Annotations a user attaches to a task: a project, a priority, tags.
//!
//! In free text an annotation is a single word that starts with a marker
//! character: `@project`, `+p` (one of `l`, `m`, `h`, `c`) or `#tag`.

use crate::text::{
    is_word, join, join_words, lemma_words_concat, lemma_words_of_joined, split_words, texts, words,
};
use vstd::prelude::*;
use vstd::string::*;

verus! {

/// How urgent a task is. Later variants are more urgent.
#[derive(Clone, Copy, Debug, PartialEq, Eq, PartialOrd, Ord, Hash, Structural)]
pub enum Priority {
    Low,
    Medium,
    High,
    Critical,
}

impl Priority {
    /// Position in the order of urgency, from 0 for `Low` to 3 for `Critical`.
    pub open spec fn spec_rank(self) -> int {
        match self {
            Priority::Low => 0,
            Priority::Medium => 1,
            Priority::High => 2,
            Priority::Critical => 3,
        }
    }

    /// Position in the order of urgency, from 0 for `Low` to 3 for `Critical`.
    pub fn rank(self) -> (r: u8)
        ensures
            r == self.spec_rank(),
    {
        match self {
            Priority::Low => 0,
            Priority::Medium => 1,
            Priority::High => 2,
            Priority::Critical => 3,
        }
    }

    /// The variant's name as written in the source.
    pub open spec fn spec_name(self) -> Seq<char> {
        match self {
            Priority::Low => "Low"@,
            Priority::Medium => "Medium"@,
            Priority::High => "High"@,
            Priority::Critical => "Critical"@,
        }
    }

    /// The variant's name as written in the source.
    pub fn name(self) -> (r: &'static str)
        ensures
            r@ == self.spec_name(),
    {
        match self {
            Priority::Low => "Low",
            Priority::Medium => "Medium",
            Priority::High => "High",
            Priority::Critical => "Critical",
        }
    }

    /// The letter that stands for the priority after `+` in free text.
    pub open spec fn spec_letter(self) -> char {
        match self {
            Priority::Low => 'l',
            Priority::Medium => 'm',
            Priority::High => 'h',
            Priority::Critical => 'c',
        }
    }
}

/// One annotation.
#[derive(Clone, Debug, PartialEq, Eq)]
pub enum Metadata {
    /// Project name.
    Project(String),
    /// Priority.
    Priority(Priority),
    /// Tag.
    Tag(String),
}

/// What a [`Metadata`] value holds, with texts as character sequences.
pub enum MetadataView {
    Project(Seq<char>),
    Priority(Priority),
    Tag(Seq<char>),
}

impl View for Metadata {
    type V = MetadataView;

    open spec fn view(&self) -> MetadataView {
        match self {
            Metadata::Project(name) => MetadataView::Project(name@),
            Metadata::Priority(p) => MetadataView::Priority(*p),
            Metadata::Tag(name) => MetadataView::Tag(name@),
        }
    }
}

/// The annotations held by a sequence of [`Metadata`].
pub open spec fn metadata_views(v: Seq<Metadata>) -> Seq<MetadataView> {
    Seq::new(v.len(), |i: int| v[i]@)
}

/// Why a batch of annotations is refused.
#[derive(Clone, Copy, Debug, PartialEq, Eq, Structural)]
pub enum MetadataValidationError {
    /// More than one project; the count is attached.
    TooManyProjects(usize),
    /// More than one priority; the count is attached.
    TooManyPriorities(usize),
}

/// Why a word is not an annotation.
#[derive(Clone, Debug, PartialEq, Eq)]
pub enum MetadataParsingError {
    /// The word starts with `+` but is not one of `+l`, `+m`, `+h`, `+c`.
    UnknownPriority,
    /// The word does not start with a marker, or holds nothing after it.
    Unknown(String),
}

/// What a [`MetadataParsingError`] holds, with texts as character sequences.
pub enum ParsingErrorView {
    UnknownPriority,
    Unknown(Seq<char>),
}

impl View for MetadataParsingError {
    type V = ParsingErrorView;

    open spec fn view(&self) -> ParsingErrorView {
        match self {
            MetadataParsingError::UnknownPriority => ParsingErrorView::UnknownPriority,
            MetadataParsingError::Unknown(word) => ParsingErrorView::Unknown(word@),
        }
    }
}

/// The annotation that the word `s` stands for, or why it is none.
pub open spec fn parse_token(s: Seq<char>) -> Result<MetadataView, ParsingErrorView> {
    if s.len() < 2 {
        Err(ParsingErrorView::Unknown(s))
    } else if s[0] == '@' {
        Ok(MetadataView::Project(s.skip(1)))
    } else if s[0] == '+' {
        if s.len() != 2 {
            Err(ParsingErrorView::UnknownPriority)
        } else if s[1] == 'l' {
            Ok(MetadataView::Priority(Priority::Low))
        } else if s[1] == 'm' {
            Ok(MetadataView::Priority(Priority::Medium))
        } else if s[1] == 'h' {
            Ok(MetadataView::Priority(Priority::High))
        } else if s[1] == 'c' {
            Ok(MetadataView::Priority(Priority::Critical))
        } else {
            Err(ParsingErrorView::UnknownPriority)
        }
    } else if s[0] == '#' {
        Ok(MetadataView::Tag(s.skip(1)))
    } else {
        Err(ParsingErrorView::Unknown(s))
    }
}

/// The words of every text of `strings`, in order.
pub open spec fn all_words(strings: Seq<Seq<char>>) -> Seq<Seq<char>>
    decreases strings.len(),
{
    if strings.len() == 0 {
        Seq::empty()
    } else {
        all_words(strings.drop_last()) + words(strings.last())
    }
}

/// The annotations among `ws`, in order.
pub open spec fn annotations(ws: Seq<Seq<char>>) -> Seq<MetadataView>
    decreases ws.len(),
{
    if ws.len() == 0 {
        Seq::empty()
    } else {
        match parse_token(ws.last()) {
            Ok(m) => annotations(ws.drop_last()).push(m),
            Err(_) => annotations(ws.drop_last()),
        }
    }
}

/// The words of `ws` that are no annotation, in order.
pub open spec fn plain_words(ws: Seq<Seq<char>>) -> Seq<Seq<char>>
    decreases ws.len(),
{
    if ws.len() == 0 {
        Seq::empty()
    } else {
        match parse_token(ws.last()) {
            Ok(_) => plain_words(ws.drop_last()),
            Err(_) => plain_words(ws.drop_last()).push(ws.last()),
        }
    }
}

/// The text views of a sequence of string slices.
pub open spec fn slice_texts(v: Seq<&str>) -> Seq<Seq<char>> {
    Seq::new(v.len(), |i: int| v[i]@)
}

/// How many of `ms` name a project.
pub open spec fn project_count(ms: Seq<MetadataView>) -> nat
    decreases ms.len(),
{
    if ms.len() == 0 {
        0
    } else {
        project_count(ms.drop_last()) + if ms.last() is Project {
            1nat
        } else {
            0nat
        }
    }
}

/// How many of `ms` set a priority.
pub open spec fn priority_count(ms: Seq<MetadataView>) -> nat
    decreases ms.len(),
{
    if ms.len() == 0 {
        0
    } else {
        priority_count(ms.drop_last()) + if ms.last() is Priority {
            1nat
        } else {
            0nat
        }
    }
}

/// The verdict on a batch: at most one project and at most one priority.
/// A surplus of projects is reported before a surplus of priorities.
pub open spec fn validation(ms: Seq<MetadataView>) -> Result<(), MetadataValidationError> {
    if project_count(ms) > 1 {
        Err(MetadataValidationError::TooManyProjects(project_count(ms) as usize))
    } else if priority_count(ms) > 1 {
        Err(MetadataValidationError::TooManyPriorities(priority_count(ms) as usize))
    } else {
        Ok(())
    }
}

impl MetadataView {
    /// The annotation as echoed back to the user: `@name`, `+Name`, `#name`.
    pub open spec fn filter_like(self) -> Seq<char> {
        match self {
            MetadataView::Project(name) => seq!['@'] + name,
            MetadataView::Priority(p) => seq!['+'] + p.spec_name(),
            MetadataView::Tag(name) => seq!['#'] + name,
        }
    }

    /// The word that stands for the annotation in free text: `@name`, `+l`, `#name`.
    pub open spec fn token(self) -> Seq<char> {
        match self {
            MetadataView::Project(name) => seq!['@'] + name,
            MetadataView::Priority(p) => seq!['+', p.spec_letter()],
            MetadataView::Tag(name) => seq!['#'] + name,
        }
    }
}

/// The words that stand for `ms`, in order.
pub open spec fn tokens(ms: Seq<MetadataView>) -> Seq<Seq<char>> {
    Seq::new(ms.len(), |i: int| ms[i].token())
}

impl Metadata {
    /// An annotation naming a project.
    pub fn project(name: &str) -> (r: Metadata)
        ensures
            r@ == MetadataView::Project(name@),
    {
        Metadata::Project(String::from_str(name))
    }

    /// An annotation setting a priority.
    pub fn priority(priority: Priority) -> (r: Metadata)
        ensures
            r@ == MetadataView::Priority(priority),
    {
        Metadata::Priority(priority)
    }

    /// An annotation adding a tag.
    pub fn tag(name: &str) -> (r: Metadata)
        ensures
            r@ == MetadataView::Tag(name@),
    {
        Metadata::Tag(String::from_str(name))
    }

    /// A copy of the annotation.
    pub fn duplicate(&self) -> (r: Metadata)
        ensures
            r@ == self@,
    {
        match self {
            Metadata::Project(name) => Metadata::Project(name.clone()),
            Metadata::Priority(p) => Metadata::Priority(*p),
            Metadata::Tag(name) => Metadata::Tag(name.clone()),
        }
    }

    /// Reads one word as an annotation.
    pub fn parse(s: &str) -> (r: Result<Metadata, MetadataParsingError>)
        ensures
            match r {
                Ok(m) => parse_token(s@) == Ok::<MetadataView, ParsingErrorView>(m@),
                Err(e) => parse_token(s@) == Err::<MetadataView, ParsingErrorView>(e@),
            },
    {
        let len = s.unicode_len();
        if len < 2 {
            return Err(MetadataParsingError::Unknown(String::from_str(s)));
        }
        let marker = s.get_char(0);
        if marker == '@' {
            let rest = s.substring_char(1, len);
            Ok(Metadata::Project(String::from_str(rest)))
        } else if marker == '+' {
            if len != 2 {
                return Err(MetadataParsingError::UnknownPriority);
            }
            let letter = s.get_char(1);
            if letter == 'l' {
                Ok(Metadata::Priority(Priority::Low))
            } else if letter == 'm' {
                Ok(Metadata::Priority(Priority::Medium))
            } else if letter == 'h' {
                Ok(Metadata::Priority(Priority::High))
            } else if letter == 'c' {
                Ok(Metadata::Priority(Priority::Critical))
            } else {
                Err(MetadataParsingError::UnknownPriority)
            }
        } else if marker == '#' {
            let rest = s.substring_char(1, len);
            Ok(Metadata::Tag(String::from_str(rest)))
        } else {
            Err(MetadataParsingError::Unknown(String::from_str(s)))
        }
    }

    /// Checks a batch of annotations: at most one project, at most one priority.
    /// Any number of tags is fine, repeated ones too.
    pub fn validate(metadata: &[Metadata]) -> (r: Result<(), MetadataValidationError>)
        ensures
            r == validation(metadata_views(metadata@)),
    {
        let ghost ms = metadata_views(metadata@);
        let mut projects: usize = 0;
        let mut priorities: usize = 0;
        let n = metadata.len();
        let mut i: usize = 0;
        while i < n
            invariant
                n == metadata@.len(),
                ms == metadata_views(metadata@),
                i <= n,
                projects == project_count(ms.take(i as int)),
                priorities == priority_count(ms.take(i as int)),
                projects <= i,
                priorities <= i,
            decreases n - i,
        {
            proof {
                assert(ms.take(i + 1).drop_last() == ms.take(i as int));
                assert(ms.take(i + 1).last() == metadata@[i as int]@);
            }
            match &metadata[i] {
                Metadata::Project(_) => {
                    projects += 1;
                },
                Metadata::Priority(_) => {
                    priorities += 1;
                },
                Metadata::Tag(_) => {},
            }
            i += 1;
        }
        assert(ms.take(n as int) == ms);
        if projects > 1 {
            Err(MetadataValidationError::TooManyProjects(projects))
        } else if priorities > 1 {
            Err(MetadataValidationError::TooManyPriorities(priorities))
        } else {
            Ok(())
        }
    }

    /// Splits every text of `strings` into words, takes out the words that are
    /// annotations, and returns them with the other words joined by single spaces.
    ///
    /// A word that starts with `+` without being a priority is kept as a plain word.
    pub fn from_words(strings: &[&str]) -> (r: (Vec<Metadata>, String))
        ensures
            metadata_views(r.0@) == annotations(all_words(slice_texts(strings@))),
            r.1@ == join(plain_words(all_words(slice_texts(strings@))), seq![' ']),
    {
        let ghost inputs = slice_texts(strings@);
        let mut metadata: Vec<Metadata> = Vec::new();
        let mut output: Vec<String> = Vec::new();
        let n = strings.len();
        let mut i: usize = 0;
        while i < n
            invariant
                n == strings@.len(),
                inputs == slice_texts(strings@),
                i <= n,
                metadata_views(metadata@) == annotations(all_words(inputs.take(i as int))),
                texts(output@) == plain_words(all_words(inputs.take(i as int))),
            decreases n - i,
        {
            let ws = split_words(strings[i]);
            let ghost before = all_words(inputs.take(i as int));
            let ghost these = texts(ws@);
            proof {
                assert(inputs.take(i + 1).drop_last() == inputs.take(i as int));
                assert(inputs.take(i + 1).last() == strings@[i as int]@);
                assert(all_words(inputs.take(i + 1)) == before + these);
            }
            let m = ws.len();
            let mut j: usize = 0;
            while j < m
                invariant
                    m == ws@.len(),
                    these == texts(ws@),
                    j <= m,
                    metadata_views(metadata@) == annotations(before + these.take(j as int)),
                    texts(output@) == plain_words(before + these.take(j as int)),
                decreases m - j,
            {
                let ghost seen = before + these.take(j as int);
                let ghost next = before + these.take(j + 1);
                proof {
                    assert(next.drop_last() == seen);
                    assert(next.last() == ws@[j as int]@);
                }
                let ghost old_md = metadata@;
                let ghost old_out = output@;
                match Metadata::parse(ws[j].as_str()) {
                    Ok(md) => {
                        metadata.push(md);
                        assert(metadata_views(metadata@) == metadata_views(old_md).push(md@));
                    },
                    Err(_) => {
                        output.push(ws[j].clone());
                        assert(texts(output@) == texts(old_out).push(ws@[j as int]@));
                    },
                }
                j += 1;
            }
            proof {
                assert(these.take(m as int) == these);
            }
            i += 1;
        }
        assert(inputs.take(n as int) == inputs);
        proof {
            reveal_strlit(" ");
            assert(" "@ == seq![' ']);
        }
        let description = join_words(&output, " ");
        (metadata, description)
    }

    /// The word that stands for the annotation in free text: `@name`, `+l`, `#name`.
    pub fn token(&self) -> (r: String)
        ensures
            r@ == self@.token(),
    {
        match self {
            Metadata::Project(name) => {
                proof {
                    reveal_strlit("@");
                    assert("@"@ == seq!['@']);
                }
                let mut s = String::from_str("@");
                s.append(name.as_str());
                s
            },
            Metadata::Priority(p) => {
                proof {
                    reveal_strlit("+l");
                    reveal_strlit("+m");
                    reveal_strlit("+h");
                    reveal_strlit("+c");
                    assert("+l"@ == seq!['+', 'l']);
                    assert("+m"@ == seq!['+', 'm']);
                    assert("+h"@ == seq!['+', 'h']);
                    assert("+c"@ == seq!['+', 'c']);
                }
                match p {
                    Priority::Low => String::from_str("+l"),
                    Priority::Medium => String::from_str("+m"),
                    Priority::High => String::from_str("+h"),
                    Priority::Critical => String::from_str("+c"),
                }
            },
            Metadata::Tag(name) => {
                proof {
                    reveal_strlit("#");
                    assert("#"@ == seq!['#']);
                }
                let mut s = String::from_str("#");
                s.append(name.as_str());
                s
            },
        }
    }

    /// The annotations of `metadata` as free text: their words, one blank between
    /// neighbours.
    pub fn to_text(metadata: &[Metadata]) -> (r: String)
        ensures
            r@ == join(tokens(metadata_views(metadata@)), seq![' ']),
    {
        let ghost ms = metadata_views(metadata@);
        let mut parts: Vec<String> = Vec::new();
        let n = metadata.len();
        let mut i: usize = 0;
        while i < n
            invariant
                n == metadata@.len(),
                i <= n,
                ms == metadata_views(metadata@),
                texts(parts@) == tokens(ms).take(i as int),
            decreases n - i,
        {
            let ghost before = parts@;
            let word = metadata[i].token();
            parts.push(word);
            assert(texts(parts@) =~= texts(before).push(word@));
            assert(tokens(ms).take(i + 1) =~= tokens(ms).take(i as int).push(ms[i as int].token()));
            i += 1;
        }
        assert(tokens(ms).take(n as int) == tokens(ms));
        proof {
            reveal_strlit(" ");
            assert(" "@ == seq![' ']);
        }
        join_words(&parts, " ")
    }

    /// The annotation as echoed back to the user: `@name`, `+Name`, `#name`.
    pub fn filter_like(&self) -> (r: String)
        ensures
            r@ == self@.filter_like(),
    {
        match self {
            Metadata::Project(name) => {
                proof {
                    reveal_strlit("@");
                    assert("@"@ == seq!['@']);
                }
                let mut s = String::from_str("@");
                s.append(name.as_str());
                s
            },
            Metadata::Priority(p) => {
                proof {
                    reveal_strlit("+");
                    assert("+"@ == seq!['+']);
                }
                let mut s = String::from_str("+");
                s.append(p.name());
                s
            },
            Metadata::Tag(name) => {
                proof {
                    reveal_strlit("#");
                    assert("#"@ == seq!['#']);
                }
                let mut s = String::from_str("#");
                s.append(name.as_str());
                s
            },
        }
    }
}

impl MetadataView {
    /// Whether the annotation can be written as one word: the name of a project
    /// or of a tag is not empty and holds no whitespace.
    pub open spec fn is_writable(self) -> bool {
        match self {
            MetadataView::Project(name) => is_word(name),
            MetadataView::Priority(_) => true,
            MetadataView::Tag(name) => is_word(name),
        }
    }
}

/// Whether a description reads back as itself: its words are separated by
/// single blanks, nothing stands before the first or after the last, and none
/// of them is an annotation.
pub open spec fn is_plain_description(description: Seq<char>) -> bool {
    &&& description == join(words(description), seq![' '])
    &&& forall|i: int|
        0 <= i < words(description).len() ==> parse_token(#[trigger] words(description)[i]) is Err
}

/// The word of an annotation that can be written reads back as the annotation.
pub proof fn lemma_token_parses(m: MetadataView)
    requires
        m.is_writable(),
    ensures
        is_word(m.token()),
        parse_token(m.token()) == Ok::<MetadataView, ParsingErrorView>(m),
{
    match m {
        MetadataView::Project(name) => {
            assert((seq!['@'] + name).skip(1) == name);
        },
        MetadataView::Priority(p) => {},
        MetadataView::Tag(name) => {
            assert((seq!['#'] + name).skip(1) == name);
        },
    }
}

/// Plain words after a list of words add no annotation and stay in place.
proof fn lemma_plain_suffix(ws: Seq<Seq<char>>, plain: Seq<Seq<char>>)
    requires
        forall|i: int| 0 <= i < plain.len() ==> parse_token(#[trigger] plain[i]) is Err,
    ensures
        annotations(ws + plain) == annotations(ws),
        plain_words(ws + plain) == plain_words(ws) + plain,
    decreases plain.len(),
{
    if plain.len() == 0 {
        assert(ws + plain == ws);
        assert(plain_words(ws) + plain == plain_words(ws));
    } else {
        let shorter = plain.drop_last();
        assert forall|i: int| 0 <= i < shorter.len() implies parse_token(#[trigger] shorter[i])
            is Err by {
            assert(shorter[i] == plain[i]);
        }
        lemma_plain_suffix(ws, shorter);
        assert((ws + plain).drop_last() == ws + shorter);
        assert((ws + plain).last() == plain.last());
        assert(parse_token(plain[plain.len() - 1]) is Err);
        assert((plain_words(ws) + shorter).push(plain.last()) == plain_words(ws) + plain);
    }
}

/// The words of annotations that can be written read back as the annotations,
/// and none of them is left over as a plain word.
proof fn lemma_tokens_parse(ms: Seq<MetadataView>)
    requires
        forall|i: int| 0 <= i < ms.len() ==> (#[trigger] ms[i]).is_writable(),
    ensures
        annotations(tokens(ms)) == ms,
        plain_words(tokens(ms)).len() == 0,
        forall|i: int| 0 <= i < ms.len() ==> is_word(#[trigger] tokens(ms)[i]),
    decreases ms.len(),
{
    if ms.len() > 0 {
        let rest = ms.drop_last();
        assert forall|i: int| 0 <= i < rest.len() implies (#[trigger] rest[i]).is_writable() by {
            assert(rest[i] == ms[i]);
        }
        lemma_tokens_parse(rest);
        assert(ms[ms.len() - 1].is_writable());
        lemma_token_parses(ms.last());
        assert(tokens(ms).drop_last() == tokens(rest));
        assert(tokens(ms).last() == ms.last().token());
        assert(rest.push(ms.last()) == ms);
        assert forall|i: int| 0 <= i < ms.len() implies is_word(#[trigger] tokens(ms)[i]) by {
            if i < rest.len() {
                assert(tokens(ms)[i] == tokens(rest)[i]);
            }
        }
    }
}

/// Writing annotations as words in front of a description and reading the text
/// back gives the same annotations and the same description: as long as every
/// annotation can be written as one word and the description reads back as
/// itself.
pub proof fn lemma_round_trip(ms: Seq<MetadataView>, description: Seq<char>)
    requires
        forall|i: int| 0 <= i < ms.len() ==> (#[trigger] ms[i]).is_writable(),
        is_plain_description(description),
    ensures
        ({
            let text = join(tokens(ms), seq![' ']) + seq![' '] + description;
            &&& annotations(all_words(seq![text])) == ms
            &&& join(plain_words(all_words(seq![text])), seq![' ']) == description
        }),
{
    let written = join(tokens(ms), seq![' ']);
    let text = written + seq![' '] + description;
    lemma_tokens_parse(ms);
    lemma_words_of_joined(tokens(ms));
    lemma_words_concat(written, description);
    assert(words(text) == tokens(ms) + words(description));
    assert(seq![text].drop_last() == Seq::<Seq<char>>::empty());
    assert(all_words(Seq::<Seq<char>>::empty()) == Seq::<Seq<char>>::empty());
    assert(all_words(seq![text]) == Seq::<Seq<char>>::empty() + words(seq![text].last()));
    assert(all_words(seq![text]) == words(text));
    lemma_plain_suffix(tokens(ms), words(description));
    assert(plain_words(tokens(ms)) == Seq::<Seq<char>>::empty());
    assert(plain_words(tokens(ms)) + words(description) == words(description));
}

impl MetadataValidationError {
    /// The error in words.
    pub open spec fn spec_message(self) -> Seq<char> {
        match self {
            MetadataValidationError::TooManyProjects(n) => "too many projects: "@ + crate::text::decimal(
                n as nat,
            ),
            MetadataValidationError::TooManyPriorities(n) => "too many priorities: "@
                + crate::text::decimal(n as nat),
        }
    }

    /// The error in words.
    pub fn message(&self) -> (r: String)
        ensures
            r@ == self.spec_message(),
    {
        match self {
            MetadataValidationError::TooManyProjects(n) => {
                let mut s = String::from_str("too many projects: ");
                s.append(crate::text::decimal_string(*n as u128).as_str());
                s
            },
            MetadataValidationError::TooManyPriorities(n) => {
                let mut s = String::from_str("too many priorities: ");
                s.append(crate::text::decimal_string(*n as u128).as_str());
                s
            },
        }
    }
}

impl std::str::FromStr for Metadata {
    type Err = MetadataParsingError;

    /// Reads one word as an annotation, as [`Metadata::parse`] does.
    fn from_str(s: &str) -> (r: Result<Metadata, MetadataParsingError>)
        ensures
            match r {
                Ok(m) => parse_token(s@) == Ok::<MetadataView, ParsingErrorView>(m@),
                Err(e) => parse_token(s@) == Err::<MetadataView, ParsingErrorView>(e@),
            },
    {
        Metadata::parse(s)
    }
}

impl From<Priority> for Metadata {
    fn from(priority: Priority) -> (r: Metadata) {
        Metadata::Priority(priority)
    }
}

impl vstd::std_specs::convert::FromSpecImpl<Priority> for Metadata {
    open spec fn obeys_from_spec() -> bool {
        true
    }

    open spec fn from_spec(priority: Priority) -> Metadata {
        Metadata::Priority(priority)
    }
}

} // verus!
