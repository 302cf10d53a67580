//! Reading a task from a Markdown text: the level-one heading is its title, the
//! paragraphs are its content.

use pulldown_cmark::{Event, Parser, Tag};
use vstd::prelude::*;
use vstd::string::*;

verus! {

/// What can go wrong when a task is read from or written to markup.
#[derive(Clone, Debug, PartialEq, Eq)]
pub enum MarkupError {
    CannotFindTitle,
    UnknownMarkupFormat(String),
    AmbiguousTitle(String),
    BadState(String),
    BadLabel(String),
    CannotSerialize(String),
    Unknown(String),
}

/// What a [`MarkupError`] holds, with texts as character sequences.
pub enum MarkupErrorView {
    CannotFindTitle,
    UnknownMarkupFormat(Seq<char>),
    AmbiguousTitle(Seq<char>),
    BadState(Seq<char>),
    BadLabel(Seq<char>),
    CannotSerialize(Seq<char>),
    Unknown(Seq<char>),
}

impl View for MarkupError {
    type V = MarkupErrorView;

    open spec fn view(&self) -> MarkupErrorView {
        match self {
            MarkupError::CannotFindTitle => MarkupErrorView::CannotFindTitle,
            MarkupError::UnknownMarkupFormat(e) => MarkupErrorView::UnknownMarkupFormat(e@),
            MarkupError::AmbiguousTitle(e) => MarkupErrorView::AmbiguousTitle(e@),
            MarkupError::BadState(e) => MarkupErrorView::BadState(e@),
            MarkupError::BadLabel(e) => MarkupErrorView::BadLabel(e@),
            MarkupError::CannotSerialize(e) => MarkupErrorView::CannotSerialize(e@),
            MarkupError::Unknown(e) => MarkupErrorView::Unknown(e@),
        }
    }
}

/// The kinds of block that matter when a task is read.
#[derive(Clone, Copy, Debug, PartialEq, Eq, Structural)]
pub enum MarkTag {
    /// A heading of the given level.
    Heading(u32),
    /// A paragraph.
    Paragraph,
    /// Any other block or span.
    Other,
}

/// One step of a Markdown text read from start to end.
#[derive(Clone, Debug, PartialEq, Eq)]
pub enum MarkEvent {
    /// A block or span opens.
    Start(MarkTag),
    /// The block or span opened last closes.
    End,
    /// A run of text.
    Text(String),
    /// Anything else.
    Other,
}

/// What a [`MarkEvent`] holds, with its text as a character sequence.
pub enum MarkEventView {
    Start(MarkTag),
    End,
    Text(Seq<char>),
    Other,
}

impl View for MarkEvent {
    type V = MarkEventView;

    open spec fn view(&self) -> MarkEventView {
        match self {
            MarkEvent::Start(tag) => MarkEventView::Start(*tag),
            MarkEvent::End => MarkEventView::End,
            MarkEvent::Text(text) => MarkEventView::Text(text@),
            MarkEvent::Other => MarkEventView::Other,
        }
    }
}

/// The steps held by a sequence of [`MarkEvent`]s.
pub open spec fn mark_event_views(v: Seq<MarkEvent>) -> Seq<MarkEventView> {
    Seq::new(v.len(), |i: int| v[i]@)
}

/// The steps that `pulldown-cmark` reads a Markdown text as, with every tag but
/// headings and paragraphs taken as `Other`, and every event but starts, ends
/// and text taken as `Other`.
pub uninterp spec fn markdown_events(input: Seq<char>) -> Seq<MarkEventView>;

/// Reads `input` with `pulldown_cmark::Parser::new`, no option enabled, and
/// keeps of each event what this module looks at: whether it opens a heading
/// (and of which level), a paragraph or something else, closes something, or
/// is a run of text (and which). The events depend on the text alone.
#[verifier::external_body]
fn read_markdown(input: &str) -> (r: Vec<MarkEvent>)
    ensures
        mark_event_views(r@) == markdown_events(input@),
{
    let mut out = Vec::new();
    for event in Parser::new(input) {
        out.push(match event {
            Event::Start(Tag::Heading(level)) => MarkEvent::Start(MarkTag::Heading(level)),
            Event::Start(Tag::Paragraph) => MarkEvent::Start(MarkTag::Paragraph),
            Event::Start(_) => MarkEvent::Start(MarkTag::Other),
            Event::End(_) => MarkEvent::End,
            Event::Text(text) => MarkEvent::Text(text.into_string()),
            _ => MarkEvent::Other,
        });
    }
    out
}

/// A task in the making, as read from Markdown.
#[derive(Debug)]
pub struct Markdown {
    title: String,
    content: String,
}

/// What a [`Markdown`] holds.
pub struct MarkdownView {
    pub title: Seq<char>,
    pub content: Seq<char>,
}

impl View for Markdown {
    type V = MarkdownView;

    closed spec fn view(&self) -> MarkdownView {
        MarkdownView { title: self.title@, content: self.content@ }
    }
}

/// Where the reading of a Markdown text stands.
pub struct ReadState {
    /// What was read so far.
    pub read: MarkdownView,
    /// The blocks and spans that are open, the innermost last.
    pub open: Seq<MarkTag>,
    /// Why the reading stopped, if it did.
    pub failure: Option<MarkupErrorView>,
}

/// The message of the error for a heading below the title.
pub open spec fn unsupported_heading() -> Seq<char> {
    "Only the level-1 Markdown heading is supported"@
}

/// The state after a run of text.
///
/// Inside a level-one heading the text is the title; a second title is an
/// error. Inside any other heading text is an error. Inside a paragraph the text
/// goes to the content, on a line of its own. Elsewhere it is skipped.
pub open spec fn read_text(state: ReadState, text: Seq<char>) -> ReadState {
    if state.open.len() == 0 {
        state
    } else {
        match state.open.last() {
            MarkTag::Heading(level) => if level != 1 {
                ReadState {
                    failure: Some(MarkupErrorView::UnknownMarkupFormat(unsupported_heading())),
                    ..state
                }
            } else if state.read.title.len() == 0 {
                ReadState {
                    read: MarkdownView { title: text, content: state.read.content },
                    ..state
                }
            } else {
                ReadState {
                    failure: Some(MarkupErrorView::AmbiguousTitle(state.read.title)),
                    ..state
                }
            },
            MarkTag::Paragraph => ReadState {
                read: MarkdownView {
                    title: state.read.title,
                    content: if state.read.content.len() == 0 {
                        text
                    } else {
                        state.read.content + seq!['\n'] + text
                    },
                },
                ..state
            },
            MarkTag::Other => state,
        }
    }
}

/// The state after one more event. After a failure nothing changes any more.
pub open spec fn read_step(state: ReadState, event: MarkEventView) -> ReadState {
    if state.failure is Some {
        state
    } else {
        match event {
            MarkEventView::Start(tag) => ReadState { open: state.open.push(tag), ..state },
            MarkEventView::End => ReadState {
                open: if state.open.len() > 0 {
                    state.open.drop_last()
                } else {
                    state.open
                },
                ..state
            },
            MarkEventView::Text(text) => read_text(state, text),
            MarkEventView::Other => state,
        }
    }
}

/// The state after all of `events`, starting from `state`.
pub open spec fn read_all(state: ReadState, events: Seq<MarkEventView>) -> ReadState
    decreases events.len(),
{
    if events.len() == 0 {
        state
    } else {
        read_step(read_all(state, events.drop_last()), events.last())
    }
}

impl Markdown {
    /// A task in the making with nothing read yet.
    pub fn new() -> (r: Markdown)
        ensures
            r@.title.len() == 0,
            r@.content.len() == 0,
    {
        Markdown { title: String::new(), content: String::new() }
    }

    /// The title read so far; empty when none was read.
    pub fn title(&self) -> (r: &str)
        ensures
            r@ == self@.title,
    {
        self.title.as_str()
    }

    /// The content read so far, one line per paragraph text.
    pub fn content(&self) -> (r: &str)
        ensures
            r@ == self@.content,
    {
        self.content.as_str()
    }

    /// Takes in a run of text found inside the blocks of `open`.
    fn dispatch_text(&mut self, open: &Vec<MarkTag>, text: &str) -> (r: Result<(), MarkupError>)
        ensures
            ({
                let before = ReadState { read: old(self)@, open: open@, failure: None };
                let after = read_text(before, text@);
                &&& final(self)@ == after.read
                &&& match r {
                    Ok(()) => after.failure is None,
                    Err(e) => after.failure == Some(e@),
                }
            }),
    {
        if open.len() == 0 {
            return Ok(());
        }
        match open[open.len() - 1] {
            MarkTag::Heading(level) => {
                if level != 1 {
                    Err(
                        MarkupError::UnknownMarkupFormat(
                            String::from_str("Only the level-1 Markdown heading is supported"),
                        ),
                    )
                } else if self.title.as_str().unicode_len() == 0 {
                    self.title = String::from_str(text);
                    Ok(())
                } else {
                    Err(MarkupError::AmbiguousTitle(self.title.clone()))
                }
            },
            MarkTag::Paragraph => {
                if self.content.as_str().unicode_len() != 0 {
                    proof {
                        reveal_strlit("\n");
                        assert("\n"@ == seq!['\n']);
                    }
                    self.content.append("\n");
                }
                self.content.append(text);
                Ok(())
            },
            MarkTag::Other => Ok(()),
        }
    }

    /// Takes in the events of a Markdown text, in order, and stops at the first
    /// that is an error. What was read before the error stays read.
    pub fn dispatch_events(&mut self, events: &[MarkEvent]) -> (r: Result<(), MarkupError>)
        ensures
            ({
                let start = ReadState { read: old(self)@, open: Seq::empty(), failure: None };
                let end = read_all(start, mark_event_views(events@));
                &&& final(self)@ == end.read
                &&& match r {
                    Ok(()) => end.failure is None,
                    Err(e) => end.failure == Some(e@),
                }
            }),
    {
        let ghost start = ReadState { read: self@, open: Seq::empty(), failure: None };
        let ghost all = mark_event_views(events@);
        let mut open: Vec<MarkTag> = Vec::new();
        let n = events.len();
        let mut i: usize = 0;
        while i < n
            invariant
                n == events@.len(),
                i <= n,
                all == mark_event_views(events@),
                start == (ReadState { read: old(self)@, open: Seq::empty(), failure: None }),
                read_all(start, all.take(i as int)).read == self@,
                read_all(start, all.take(i as int)).open == open@,
                read_all(start, all.take(i as int)).failure is None,
            decreases n - i,
        {
            proof {
                assert(all.take(i + 1).drop_last() == all.take(i as int));
                assert(all.take(i + 1).last() == events@[i as int]@);
            }
            let ghost state = read_all(start, all.take(i as int));
            assert(state == (ReadState { read: self@, open: open@, failure: None }));
            match &events[i] {
                MarkEvent::Start(tag) => {
                    open.push(*tag);
                },
                MarkEvent::End => {
                    open.pop();
                },
                MarkEvent::Text(text) => {
                    match self.dispatch_text(&open, text.as_str()) {
                        Ok(()) => {},
                        Err(e) => {
                            proof {
                                lemma_read_stops(start, all, i + 1);
                            }
                            return Err(e);
                        },
                    }
                },
                MarkEvent::Other => {},
            }
            i += 1;
        }
        assert(all.take(n as int) == all);
        Ok(())
    }

    /// Reads a Markdown text into the task in the making: the text of its
    /// level-one heading becomes the title, the texts of its paragraphs are added
    /// to the content.
    pub fn parse(&mut self, input: &str) -> (r: Result<(), MarkupError>)
        ensures
            ({
                let start = ReadState { read: old(self)@, open: Seq::empty(), failure: None };
                let end = read_all(start, markdown_events(input@));
                &&& final(self)@ == end.read
                &&& match r {
                    Ok(()) => end.failure is None,
                    Err(e) => end.failure == Some(e@),
                }
            }),
    {
        let events = read_markdown(input);
        self.dispatch_events(events.as_slice())
    }
}

/// Once the reading has failed, further events change nothing.
proof fn lemma_read_stops(start: ReadState, events: Seq<MarkEventView>, n: int)
    requires
        0 <= n <= events.len(),
        read_all(start, events.take(n)).failure is Some,
    ensures
        read_all(start, events) == read_all(start, events.take(n)),
    decreases events.len() - n,
{
    if n < events.len() {
        assert(events.take(n + 1).drop_last() == events.take(n));
        lemma_read_stops(start, events, n + 1);
    } else {
        assert(events.take(n) == events);
    }
}

impl MarkupErrorView {
    /// The error in words.
    pub open spec fn message(self) -> Seq<char> {
        match self {
            MarkupErrorView::CannotFindTitle => "cannot find title"@,
            MarkupErrorView::UnknownMarkupFormat(e) => "unknown markup format: "@ + e,
            MarkupErrorView::AmbiguousTitle(e) => "ambiguous title: "@ + e,
            MarkupErrorView::BadState(e) => "wrong / unknown state: "@ + e,
            MarkupErrorView::BadLabel(e) => "wrong / unknown label: "@ + e,
            MarkupErrorView::CannotSerialize(e) => "cannot serialize: "@ + e,
            MarkupErrorView::Unknown(e) => "unknown markup error: "@ + e,
        }
    }
}

/// `prefix` followed by `detail`.
fn prefixed(prefix: &str, detail: &str) -> (r: String)
    ensures
        r@ == prefix@ + detail@,
{
    let mut s = String::from_str(prefix);
    s.append(detail);
    s
}

impl MarkupError {
    /// The error in words.
    pub fn message(&self) -> (r: String)
        ensures
            r@ == self@.message(),
    {
        match self {
            MarkupError::CannotFindTitle => String::from_str("cannot find title"),
            MarkupError::UnknownMarkupFormat(e) => prefixed("unknown markup format: ", e.as_str()),
            MarkupError::AmbiguousTitle(e) => prefixed("ambiguous title: ", e.as_str()),
            MarkupError::BadState(e) => prefixed("wrong / unknown state: ", e.as_str()),
            MarkupError::BadLabel(e) => prefixed("wrong / unknown label: ", e.as_str()),
            MarkupError::CannotSerialize(e) => prefixed("cannot serialize: ", e.as_str()),
            MarkupError::Unknown(e) => prefixed("unknown markup error: ", e.as_str()),
        }
    }
}

} // verus!
