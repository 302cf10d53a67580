//! What the user can configure: names of statuses and columns, and how much of
//! a listing is shown.

use vstd::prelude::*;
use vstd::string::*;

verus! {

/// The main section of the configuration.
#[derive(Debug)]
pub struct MainConfig {
    /// Folder that holds the tasks and the configuration file.
    pub tasks_file: String,
    /// Name shown for the `Todo` status.
    pub todo_alias: String,
    /// Name shown for the `Ongoing` status.
    pub wip_alias: String,
    /// Name shown for the `Done` status.
    pub done_alias: String,
    /// Name shown for the `Cancelled` status.
    pub cancelled_alias: String,
    /// Title of the identifier column.
    pub uid_col_name: String,
    /// Title of the age column.
    pub age_col_name: String,
    /// Title of the spent-time column.
    pub spent_col_name: String,
    /// Title of the priority column.
    pub prio_col_name: String,
    /// Title of the project column.
    pub project_col_name: String,
    /// Title of the tags column.
    pub tags_col_name: String,
    /// Title of the status column.
    pub status_col_name: String,
    /// Title of the description column.
    pub description_col_name: String,
    /// Title of the column that counts notes.
    pub notes_nb_col_name: String,
    /// Whether a column is shown even when no listed task has anything in it.
    pub display_empty_cols: bool,
    /// How many lines a wrapped description may take before it is cut short.
    pub max_description_lines: usize,
    /// Whether listings show tags.
    pub display_tags_listings: bool,
    /// Whether the earlier notes are shown to the user who writes a new one.
    pub previous_notes_help: bool,
    /// The editor to open for notes, when the environment names none.
    pub interactive_editor: Option<String>,
}

/// What a [`MainConfig`] holds, with texts as character sequences.
pub struct MainConfigView {
    pub tasks_file: Seq<char>,
    pub todo_alias: Seq<char>,
    pub wip_alias: Seq<char>,
    pub done_alias: Seq<char>,
    pub cancelled_alias: Seq<char>,
    pub uid_col_name: Seq<char>,
    pub age_col_name: Seq<char>,
    pub spent_col_name: Seq<char>,
    pub prio_col_name: Seq<char>,
    pub project_col_name: Seq<char>,
    pub tags_col_name: Seq<char>,
    pub status_col_name: Seq<char>,
    pub description_col_name: Seq<char>,
    pub notes_nb_col_name: Seq<char>,
    pub display_empty_cols: bool,
    pub max_description_lines: usize,
    pub display_tags_listings: bool,
    pub previous_notes_help: bool,
    pub interactive_editor: Option<Seq<char>>,
}

impl View for MainConfig {
    type V = MainConfigView;

    open spec fn view(&self) -> MainConfigView {
        MainConfigView {
            tasks_file: self.tasks_file@,
            todo_alias: self.todo_alias@,
            wip_alias: self.wip_alias@,
            done_alias: self.done_alias@,
            cancelled_alias: self.cancelled_alias@,
            uid_col_name: self.uid_col_name@,
            age_col_name: self.age_col_name@,
            spent_col_name: self.spent_col_name@,
            prio_col_name: self.prio_col_name@,
            project_col_name: self.project_col_name@,
            tags_col_name: self.tags_col_name@,
            status_col_name: self.status_col_name@,
            description_col_name: self.description_col_name@,
            notes_nb_col_name: self.notes_nb_col_name@,
            display_empty_cols: self.display_empty_cols,
            max_description_lines: self.max_description_lines,
            display_tags_listings: self.display_tags_listings,
            previous_notes_help: self.previous_notes_help,
            interactive_editor: match self.interactive_editor {
                Some(editor) => Some(editor@),
                None => None,
            },
        }
    }
}

impl MainConfig {
    /// A configuration with the given names and limits. The tags column is
    /// titled `Tags`, the notes column `Notes`; tags are listed, earlier notes are
    /// shown, and no editor is named.
    pub fn new(
        tasks_file: &str,
        todo_alias: &str,
        wip_alias: &str,
        done_alias: &str,
        cancelled_alias: &str,
        uid_col_name: &str,
        age_col_name: &str,
        spent_col_name: &str,
        prio_col_name: &str,
        project_col_name: &str,
        status_col_name: &str,
        description_col_name: &str,
        display_empty_cols: bool,
        max_description_lines: usize,
    ) -> (r: MainConfig)
        ensures
            r@ == (MainConfigView {
                tasks_file: tasks_file@,
                todo_alias: todo_alias@,
                wip_alias: wip_alias@,
                done_alias: done_alias@,
                cancelled_alias: cancelled_alias@,
                uid_col_name: uid_col_name@,
                age_col_name: age_col_name@,
                spent_col_name: spent_col_name@,
                prio_col_name: prio_col_name@,
                project_col_name: project_col_name@,
                tags_col_name: "Tags"@,
                status_col_name: status_col_name@,
                description_col_name: description_col_name@,
                notes_nb_col_name: "Notes"@,
                display_empty_cols,
                max_description_lines,
                display_tags_listings: true,
                previous_notes_help: true,
                interactive_editor: None,
            }),
    {
        MainConfig {
            tasks_file: String::from_str(tasks_file),
            todo_alias: String::from_str(todo_alias),
            wip_alias: String::from_str(wip_alias),
            done_alias: String::from_str(done_alias),
            cancelled_alias: String::from_str(cancelled_alias),
            uid_col_name: String::from_str(uid_col_name),
            age_col_name: String::from_str(age_col_name),
            spent_col_name: String::from_str(spent_col_name),
            prio_col_name: String::from_str(prio_col_name),
            project_col_name: String::from_str(project_col_name),
            tags_col_name: String::from_str("Tags"),
            status_col_name: String::from_str(status_col_name),
            description_col_name: String::from_str(description_col_name),
            notes_nb_col_name: String::from_str("Notes"),
            display_empty_cols,
            max_description_lines,
            display_tags_listings: true,
            previous_notes_help: true,
            interactive_editor: None,
        }
    }

    /// The configuration a new user starts with, for tasks kept in `tasks_file`.
    pub open spec fn with_defaults_view(tasks_file: Seq<char>) -> MainConfigView {
        MainConfigView {
            tasks_file,
            todo_alias: "TODO"@,
            wip_alias: "WIP"@,
            done_alias: "DONE"@,
            cancelled_alias: "CANCELLED"@,
            uid_col_name: "UID"@,
            age_col_name: "Age"@,
            spent_col_name: "Spent"@,
            prio_col_name: "Prio"@,
            project_col_name: "Project"@,
            tags_col_name: "Tags"@,
            status_col_name: "Status"@,
            description_col_name: "Description"@,
            notes_nb_col_name: "Notes"@,
            display_empty_cols: false,
            max_description_lines: 2,
            display_tags_listings: true,
            previous_notes_help: true,
            interactive_editor: None,
        }
    }

    /// The configuration a new user starts with, for tasks kept in `tasks_file`.
    pub fn with_defaults(tasks_file: &str) -> (r: MainConfig)
        ensures
            r@ == Self::with_defaults_view(tasks_file@),
    {
        MainConfig::new(
            tasks_file,
            "TODO",
            "WIP",
            "DONE",
            "CANCELLED",
            "UID",
            "Age",
            "Spent",
            "Prio",
            "Project",
            "Status",
            "Description",
            false,
            2,
        )
    }
}


/// A way of setting text off from its surroundings.
#[derive(Clone, Copy, Debug, PartialEq, Eq, Structural)]
pub enum StyleAttribute {
    Bold,
    Dimmed,
    Underline,
    Reversed,
    Italic,
    Blink,
    Hidden,
    Strikethrough,
}

/// A terminal colour: one of the sixteen named ones, or any mix of red, green
/// and blue.
#[derive(Clone, Copy, Debug, PartialEq, Eq, Structural)]
pub enum Color {
    Black,
    Red,
    Green,
    Yellow,
    Blue,
    Magenta,
    Cyan,
    White,
    BrightBlack,
    BrightRed,
    BrightGreen,
    BrightYellow,
    BrightBlue,
    BrightMagenta,
    BrightCyan,
    BrightWhite,
    TrueColor { r: u8, g: u8, b: u8 },
}

/// The value of a hexadecimal digit, upper or lower case.
pub open spec fn hex_digit(c: char) -> Option<int> {
    if '0' <= c <= '9' {
        Some(c as int - '0' as int)
    } else if 'a' <= c <= 'f' {
        Some(c as int - 'a' as int + 10)
    } else if 'A' <= c <= 'F' {
        Some(c as int - 'A' as int + 10)
    } else {
        None
    }
}

/// The number that the hexadecimal digits `s` write; `None` when `s` holds
/// anything but digits. No digits write zero.
pub open spec fn hex_digits(s: Seq<char>) -> Option<int>
    decreases s.len(),
{
    if s.len() == 0 {
        Some(0)
    } else {
        match (hex_digits(s.drop_last()), hex_digit(s.last())) {
            (Some(high), Some(low)) => Some(high * 16 + low),
            _ => None,
        }
    }
}

/// The number that `s` writes in base sixteen: one digit at least, after an
/// optional plus sign.
pub open spec fn hex_number(s: Seq<char>) -> Option<int> {
    let digits = if s.len() > 0 && s[0] == '+' {
        s.skip(1)
    } else {
        s
    };
    if digits.len() == 0 {
        None
    } else {
        hex_digits(digits)
    }
}

/// The colour that `s` writes as `#rgb` or `#rrggbb`. In the short form each
/// digit stands for itself twice: `#3fc` is `#33ffcc`.
pub open spec fn hex_color(s: Seq<char>) -> Option<Color> {
    if s.len() == 4 && s[0] == '#' {
        match hex_number(s.skip(1)) {
            Some(h) => Some(
                Color::TrueColor {
                    r: ((h / 256 % 16) * 17) as u8,
                    g: ((h / 16 % 16) * 17) as u8,
                    b: ((h % 16) * 17) as u8,
                },
            ),
            None => None,
        }
    } else if s.len() == 7 && s[0] == '#' {
        match hex_number(s.skip(1)) {
            Some(h) => Some(
                Color::TrueColor {
                    r: (h / 65536 % 256) as u8,
                    g: (h / 256 % 256) as u8,
                    b: (h % 256) as u8,
                },
            ),
            None => None,
        }
    } else {
        None
    }
}

/// The value of the hexadecimal digit `c`, if it is one.
fn hex_digit_value(c: char) -> (r: Option<u32>)
    ensures
        match r {
            Some(v) => hex_digit(c) == Some(v as int) && v < 16,
            None => hex_digit(c) is None,
        },
{
    if '0' <= c && c <= '9' {
        Some(c as u32 - '0' as u32)
    } else if 'a' <= c && c <= 'f' {
        Some(c as u32 - 'a' as u32 + 10)
    } else if 'A' <= c && c <= 'F' {
        Some(c as u32 - 'A' as u32 + 10)
    } else {
        None
    }
}

/// The number written in base sixteen by the characters of `s` from position 1
/// on, of which there are six at most.
fn parse_hex_tail(s: &str, len: usize) -> (r: Option<u32>)
    requires
        len == s@.len(),
        1 <= len <= 7,
    ensures
        match r {
            Some(h) => hex_number(s@.skip(1)) == Some(h as int),
            None => hex_number(s@.skip(1)) is None,
        },
{
    let ghost tail = s@.skip(1);
    let mut start: usize = 1;
    if len > 1 && s.get_char(1) == '+' {
        assert(tail[0] == '+');
        start = 2;
    }
    let ghost digits = s@.skip(start as int);
    assert(digits == if tail.len() > 0 && tail[0] == '+' {
        tail.skip(1)
    } else {
        tail
    });
    if start >= len {
        return None;
    }
    let mut value: u32 = 0;
    let mut i: usize = start;
    assert(digits.take(0) == Seq::<char>::empty());
    while i < len
        invariant
            len == s@.len(),
            len <= 7,
            1 <= start <= i <= len,
            digits == s@.skip(start as int),
            hex_number(s@.skip(1)) == hex_digits(digits),
            hex_digits(digits.take(i - start)) == Some(value as int),
            value < pow16((i - start) as nat),
        decreases len - i,
    {
        proof {
            assert(digits.take(i - start + 1).drop_last() == digits.take(i - start));
            assert(digits.take(i - start + 1).last() == s@[i as int]);
            lemma_pow16((i - start) as nat);
            reveal_with_fuel(pow16, 8);
        }
        match hex_digit_value(s.get_char(i)) {
            Some(v) => {
                value = value * 16 + v;
            },
            None => {
                proof {
                    assert(hex_digit(digits.take(i - start + 1).last()) is None);
                    assert(hex_digits(digits.take(i - start + 1)) is None);
                    lemma_hex_digits_prefix(digits, i - start + 1);
                }
                return None;
            },
        }
        i += 1;
    }
    assert(digits.take(len - start) == digits);
    Some(value)
}

/// Sixteen to the power `e`.
pub open spec fn pow16(e: nat) -> int
    decreases e,
{
    if e == 0 {
        1
    } else {
        16 * pow16((e - 1) as nat)
    }
}

/// Powers of sixteen are positive, and each is sixteen times the one before.
proof fn lemma_pow16(e: nat)
    ensures
        pow16(e) >= 1,
        pow16(e + 1) == 16 * pow16(e),
    decreases e,
{
    if e > 0 {
        lemma_pow16((e - 1) as nat);
    }
}

/// Digits that start with something that is no number are no number.
proof fn lemma_hex_digits_prefix(s: Seq<char>, n: int)
    requires
        0 <= n <= s.len(),
        hex_digits(s.take(n)) is None,
    ensures
        hex_digits(s) is None,
    decreases s.len() - n,
{
    if n < s.len() {
        assert(s.take(n + 1).drop_last() == s.take(n));
        lemma_hex_digits_prefix(s, n + 1);
    } else {
        assert(s.take(n) == s);
    }
}

impl Color {
    /// Reads a colour written as `#rgb` or `#rrggbb`, in upper or lower case.
    pub fn from_hex(hex: &str) -> (r: Option<Color>)
        ensures
            r == hex_color(hex@),
    {
        let len = hex.unicode_len();
        if len == 4 && hex.get_char(0) == '#' {
            match parse_hex_tail(hex, len) {
                Some(h) => {
                    assert(h < 4096) by {
                        lemma_hex_number_bound(hex@.skip(1));
                        reveal_with_fuel(pow16, 4);
                    }
                    let r = (h / 256 % 16) * 17;
                    let g = (h / 16 % 16) * 17;
                    let b = (h % 16) * 17;
                    Some(Color::TrueColor { r: r as u8, g: g as u8, b: b as u8 })
                },
                None => None,
            }
        } else if len == 7 && hex.get_char(0) == '#' {
            match parse_hex_tail(hex, len) {
                Some(h) => {
                    let r = h / 65536 % 256;
                    let g = h / 256 % 256;
                    let b = h % 256;
                    Some(Color::TrueColor { r: r as u8, g: g as u8, b: b as u8 })
                },
                None => None,
            }
        } else {
            None
        }
    }
}

/// A number written with `n` hexadecimal digits is below sixteen to the `n`.
proof fn lemma_hex_digits_bound(s: Seq<char>)
    ensures
        hex_digits(s) matches Some(v) ==> 0 <= v < pow16(s.len()),
    decreases s.len(),
{
    if s.len() > 0 {
        lemma_hex_digits_bound(s.drop_last());
    }
}

/// A number written with `n` characters in base sixteen is below sixteen to the `n`.
proof fn lemma_hex_number_bound(s: Seq<char>)
    ensures
        hex_number(s) matches Some(v) ==> 0 <= v < pow16(s.len()),
{
    if s.len() > 0 && s[0] == '+' {
        lemma_hex_digits_bound(s.skip(1));
        lemma_pow16((s.len() - 1) as nat);
    } else {
        lemma_hex_digits_bound(s);
    }
}

/// Colours and styles to show a piece of text with.
#[derive(Debug)]
pub struct Highlight {
    /// Colour of the text; the terminal's own when `None`.
    pub foreground: Option<Color>,
    /// Colour behind the text; the terminal's own when `None`.
    pub background: Option<Color>,
    /// Styles to apply, in order.
    pub style: Vec<StyleAttribute>,
}

/// What a [`Highlight`] holds.
pub struct HighlightView {
    pub foreground: Option<Color>,
    pub background: Option<Color>,
    pub style: Seq<StyleAttribute>,
}

impl View for Highlight {
    type V = HighlightView;

    open spec fn view(&self) -> HighlightView {
        HighlightView { foreground: self.foreground, background: self.background, style: self.style@ }
    }
}

impl Highlight {
    /// A highlight with the given colours and styles.
    pub fn new(foreground: Option<Color>, background: Option<Color>, style: Vec<StyleAttribute>) -> (r:
        Highlight)
        ensures
            r@ == (HighlightView { foreground, background, style: style@ }),
    {
        Highlight { foreground, background, style }
    }
}

/// A highlight with up to two styles; a style given as `None` is left out.
fn highlight_of(
    foreground: Option<Color>,
    background: Option<Color>,
    first: Option<StyleAttribute>,
    second: Option<StyleAttribute>,
) -> (r: Highlight)
    ensures
        r@ == (HighlightView { foreground, background, style: styles_of(first, second) }),
{
    let mut style: Vec<StyleAttribute> = Vec::new();
    if let Some(s) = first {
        style.push(s);
    }
    if let Some(s) = second {
        style.push(s);
    }
    assert(style@ =~= styles_of(first, second));
    Highlight { foreground, background, style }
}

/// Up to two styles as a list; a style given as `None` is left out.
pub open spec fn styles_of(first: Option<StyleAttribute>, second: Option<StyleAttribute>) -> Seq<
    StyleAttribute,
> {
    let head = match first {
        Some(s) => seq![s],
        None => Seq::empty(),
    };
    match second {
        Some(s) => head.push(s),
        None => head,
    }
}

/// How the description of a task is shown, by status.
#[derive(Debug)]
pub struct TaskDescriptionColorConfig {
    pub ongoing: Highlight,
    pub todo: Highlight,
    pub done: Highlight,
    pub cancelled: Highlight,
}

/// What a [`TaskDescriptionColorConfig`] holds.
pub struct TaskDescriptionColorView {
    pub ongoing: HighlightView,
    pub todo: HighlightView,
    pub done: HighlightView,
    pub cancelled: HighlightView,
}

impl View for TaskDescriptionColorConfig {
    type V = TaskDescriptionColorView;

    open spec fn view(&self) -> TaskDescriptionColorView {
        TaskDescriptionColorView {
            ongoing: self.ongoing@,
            todo: self.todo@,
            done: self.done@,
            cancelled: self.cancelled@,
        }
    }
}

impl TaskDescriptionColorConfig {
    /// The highlights a new user starts with.
    pub open spec fn spec_default() -> TaskDescriptionColorView {
        TaskDescriptionColorView {
            ongoing: HighlightView {
                foreground: Some(Color::Black),
                background: Some(Color::BrightGreen),
                style: styles_of(None, None),
            },
            todo: HighlightView {
                foreground: Some(Color::BrightWhite),
                background: Some(Color::Black),
                style: styles_of(None, None),
            },
            done: HighlightView {
                foreground: Some(Color::BrightBlack),
                background: Some(Color::Black),
                style: styles_of(Some(StyleAttribute::Dimmed), None),
            },
            cancelled: HighlightView {
                foreground: Some(Color::BrightBlack),
                background: Some(Color::Black),
                style: styles_of(Some(StyleAttribute::Dimmed), Some(StyleAttribute::Strikethrough)),
            },
        }
    }
}

impl Default for TaskDescriptionColorConfig {
    fn default() -> (r: TaskDescriptionColorConfig)
        ensures
            r@ == TaskDescriptionColorConfig::spec_default(),
    {
        TaskDescriptionColorConfig {
            ongoing: highlight_of(Some(Color::Black), Some(Color::BrightGreen), None, None),
            todo: highlight_of(Some(Color::BrightWhite), Some(Color::Black), None, None),
            done: highlight_of(Some(Color::BrightBlack), Some(Color::Black), Some(StyleAttribute::Dimmed), None),
            cancelled: highlight_of(Some(Color::BrightBlack), Some(Color::Black), Some(StyleAttribute::Dimmed), Some(StyleAttribute::Strikethrough)),
        }
    }
}

/// How the status of a task is shown, by status.
#[derive(Debug)]
pub struct TaskStatusColorConfig {
    pub ongoing: Highlight,
    pub todo: Highlight,
    pub done: Highlight,
    pub cancelled: Highlight,
}

/// What a [`TaskStatusColorConfig`] holds.
pub struct TaskStatusColorView {
    pub ongoing: HighlightView,
    pub todo: HighlightView,
    pub done: HighlightView,
    pub cancelled: HighlightView,
}

impl View for TaskStatusColorConfig {
    type V = TaskStatusColorView;

    open spec fn view(&self) -> TaskStatusColorView {
        TaskStatusColorView {
            ongoing: self.ongoing@,
            todo: self.todo@,
            done: self.done@,
            cancelled: self.cancelled@,
        }
    }
}

impl TaskStatusColorConfig {
    /// The highlights a new user starts with.
    pub open spec fn spec_default() -> TaskStatusColorView {
        TaskStatusColorView {
            ongoing: HighlightView {
                foreground: Some(Color::Green),
                background: None,
                style: styles_of(Some(StyleAttribute::Bold), None),
            },
            todo: HighlightView {
                foreground: Some(Color::Magenta),
                background: None,
                style: styles_of(Some(StyleAttribute::Bold), None),
            },
            done: HighlightView {
                foreground: Some(Color::BrightBlack),
                background: None,
                style: styles_of(Some(StyleAttribute::Dimmed), None),
            },
            cancelled: HighlightView {
                foreground: Some(Color::BrightRed),
                background: None,
                style: styles_of(Some(StyleAttribute::Dimmed), None),
            },
        }
    }
}

impl Default for TaskStatusColorConfig {
    fn default() -> (r: TaskStatusColorConfig)
        ensures
            r@ == TaskStatusColorConfig::spec_default(),
    {
        TaskStatusColorConfig {
            ongoing: highlight_of(Some(Color::Green), None, Some(StyleAttribute::Bold), None),
            todo: highlight_of(Some(Color::Magenta), None, Some(StyleAttribute::Bold), None),
            done: highlight_of(Some(Color::BrightBlack), None, Some(StyleAttribute::Dimmed), None),
            cancelled: highlight_of(Some(Color::BrightRed), None, Some(StyleAttribute::Dimmed), None),
        }
    }
}

/// How the priority of a task is shown, by priority.
#[derive(Debug)]
pub struct PriorityColorConfig {
    pub low: Highlight,
    pub medium: Highlight,
    pub high: Highlight,
    pub critical: Highlight,
}

/// What a [`PriorityColorConfig`] holds.
pub struct PriorityColorView {
    pub low: HighlightView,
    pub medium: HighlightView,
    pub high: HighlightView,
    pub critical: HighlightView,
}

impl View for PriorityColorConfig {
    type V = PriorityColorView;

    open spec fn view(&self) -> PriorityColorView {
        PriorityColorView {
            low: self.low@,
            medium: self.medium@,
            high: self.high@,
            critical: self.critical@,
        }
    }
}

impl PriorityColorConfig {
    /// The highlights a new user starts with.
    pub open spec fn spec_default() -> PriorityColorView {
        PriorityColorView {
            low: HighlightView {
                foreground: Some(Color::BrightBlack),
                background: None,
                style: styles_of(Some(StyleAttribute::Dimmed), None),
            },
            medium: HighlightView {
                foreground: Some(Color::Blue),
                background: None,
                style: styles_of(None, None),
            },
            high: HighlightView {
                foreground: Some(Color::Red),
                background: None,
                style: styles_of(None, None),
            },
            critical: HighlightView {
                foreground: Some(Color::Black),
                background: Some(Color::BrightRed),
                style: styles_of(None, None),
            },
        }
    }
}

impl Default for PriorityColorConfig {
    fn default() -> (r: PriorityColorConfig)
        ensures
            r@ == PriorityColorConfig::spec_default(),
    {
        PriorityColorConfig {
            low: highlight_of(Some(Color::BrightBlack), None, Some(StyleAttribute::Dimmed), None),
            medium: highlight_of(Some(Color::Blue), None, None, None),
            high: highlight_of(Some(Color::Red), None, None, None),
            critical: highlight_of(Some(Color::Black), Some(Color::BrightRed), None, None),
        }
    }
}

/// How the titles of the fields of a single task are shown.
#[derive(Debug)]
pub struct ShowHeaderColorConfig(pub Highlight);

impl View for ShowHeaderColorConfig {
    type V = HighlightView;

    open spec fn view(&self) -> HighlightView {
        self.0@
    }
}

impl Default for ShowHeaderColorConfig {
    fn default() -> (r: ShowHeaderColorConfig)
        ensures
            r@ == (HighlightView {
                foreground: Some(Color::BrightBlack),
                background: None,
                style: Seq::empty(),
            }),
    {
        ShowHeaderColorConfig(highlight_of(Some(Color::BrightBlack), None, None, None))
    }
}

/// The colour section of the configuration.
#[derive(Debug)]
pub struct ColorConfig {
    pub description: TaskDescriptionColorConfig,
    pub status: TaskStatusColorConfig,
    pub priority: PriorityColorConfig,
    pub show_header: ShowHeaderColorConfig,
}

/// What a [`ColorConfig`] holds.
pub struct ColorView {
    pub description: TaskDescriptionColorView,
    pub status: TaskStatusColorView,
    pub priority: PriorityColorView,
    pub show_header: HighlightView,
}

impl View for ColorConfig {
    type V = ColorView;

    open spec fn view(&self) -> ColorView {
        ColorView {
            description: self.description@,
            status: self.status@,
            priority: self.priority@,
            show_header: self.show_header@,
        }
    }
}

impl Default for ColorConfig {
    fn default() -> (r: ColorConfig)
        ensures
            r@ == (ColorView {
                description: TaskDescriptionColorConfig::spec_default(),
                status: TaskStatusColorConfig::spec_default(),
                priority: PriorityColorConfig::spec_default(),
                show_header: HighlightView {
                    foreground: Some(Color::BrightBlack),
                    background: None,
                    style: Seq::empty(),
                },
            }),
    {
        ColorConfig {
            description: TaskDescriptionColorConfig::default(),
            status: TaskStatusColorConfig::default(),
            priority: PriorityColorConfig::default(),
            show_header: ShowHeaderColorConfig::default(),
        }
    }
}

/// The whole configuration.
#[derive(Debug)]
pub struct Config {
    pub main: MainConfig,
    pub colors: ColorConfig,
}

/// What a [`Config`] holds.
pub struct ConfigView {
    pub main: MainConfigView,
    pub colors: ColorView,
}

impl View for Config {
    type V = ConfigView;

    open spec fn view(&self) -> ConfigView {
        ConfigView { main: self.main@, colors: self.colors@ }
    }
}

impl Config {
    /// A configuration made of its two sections.
    pub fn new(main: MainConfig, colors: ColorConfig) -> (r: Config)
        ensures
            r@ == (ConfigView { main: main@, colors: colors@ }),
    {
        Config { main, colors }
    }

    /// The configuration a new user starts with, for tasks kept in `tasks_file`.
    pub fn create(tasks_file: &str) -> (r: Config)
        ensures
            r.main@ == MainConfig::with_defaults_view(tasks_file@),
    {
        Config { main: MainConfig::with_defaults(tasks_file), colors: ColorConfig::default() }
    }

    /// Folder that holds the tasks and the configuration file.
    pub fn root_dir(&self) -> (r: &str)
        ensures
            r@ == self@.main.tasks_file,
    {
        self.main.tasks_file.as_str()
    }

    /// Name shown for the `Todo` status.
    pub fn todo_alias(&self) -> (r: &str)
        ensures
            r@ == self@.main.todo_alias,
    {
        self.main.todo_alias.as_str()
    }

    /// Name shown for the `Ongoing` status.
    pub fn wip_alias(&self) -> (r: &str)
        ensures
            r@ == self@.main.wip_alias,
    {
        self.main.wip_alias.as_str()
    }

    /// Name shown for the `Done` status.
    pub fn done_alias(&self) -> (r: &str)
        ensures
            r@ == self@.main.done_alias,
    {
        self.main.done_alias.as_str()
    }

    /// Name shown for the `Cancelled` status.
    pub fn cancelled_alias(&self) -> (r: &str)
        ensures
            r@ == self@.main.cancelled_alias,
    {
        self.main.cancelled_alias.as_str()
    }

    /// Title of the identifier column.
    pub fn uid_col_name(&self) -> (r: &str)
        ensures
            r@ == self@.main.uid_col_name,
    {
        self.main.uid_col_name.as_str()
    }

    /// Title of the age column.
    pub fn age_col_name(&self) -> (r: &str)
        ensures
            r@ == self@.main.age_col_name,
    {
        self.main.age_col_name.as_str()
    }

    /// Title of the spent-time column.
    pub fn spent_col_name(&self) -> (r: &str)
        ensures
            r@ == self@.main.spent_col_name,
    {
        self.main.spent_col_name.as_str()
    }

    /// Title of the priority column.
    pub fn prio_col_name(&self) -> (r: &str)
        ensures
            r@ == self@.main.prio_col_name,
    {
        self.main.prio_col_name.as_str()
    }

    /// Title of the project column.
    pub fn project_col_name(&self) -> (r: &str)
        ensures
            r@ == self@.main.project_col_name,
    {
        self.main.project_col_name.as_str()
    }

    /// Title of the tags column.
    pub fn tags_col_name(&self) -> (r: &str)
        ensures
            r@ == self@.main.tags_col_name,
    {
        self.main.tags_col_name.as_str()
    }

    /// Title of the status column.
    pub fn status_col_name(&self) -> (r: &str)
        ensures
            r@ == self@.main.status_col_name,
    {
        self.main.status_col_name.as_str()
    }

    /// Title of the description column.
    pub fn description_col_name(&self) -> (r: &str)
        ensures
            r@ == self@.main.description_col_name,
    {
        self.main.description_col_name.as_str()
    }

    /// Title of the column that counts notes.
    pub fn notes_nb_col_name(&self) -> (r: &str)
        ensures
            r@ == self@.main.notes_nb_col_name,
    {
        self.main.notes_nb_col_name.as_str()
    }

    /// Whether a column is shown even when no listed task has anything in it.
    pub fn display_empty_cols(&self) -> (r: bool)
        ensures
            r == self@.main.display_empty_cols,
    {
        self.main.display_empty_cols
    }

    /// How many lines a wrapped description may take before it is cut short.
    pub fn max_description_lines(&self) -> (r: usize)
        ensures
            r == self@.main.max_description_lines,
    {
        self.main.max_description_lines
    }

    /// Whether listings show tags.
    pub fn display_tags_listings(&self) -> (r: bool)
        ensures
            r == self@.main.display_tags_listings,
    {
        self.main.display_tags_listings
    }

    /// Whether the earlier notes are shown to the user who writes a new one.
    pub fn previous_notes_help(&self) -> (r: bool)
        ensures
            r == self@.main.previous_notes_help,
    {
        self.main.previous_notes_help
    }

    /// The editor to open for notes, when the environment names none.
    pub fn interactive_editor(&self) -> (r: Option<&str>)
        ensures
            match r {
                Some(editor) => self@.main.interactive_editor == Some(editor@),
                None => self@.main.interactive_editor is None,
            },
    {
        match &self.main.interactive_editor {
            Some(editor) => Some(editor.as_str()),
            None => None,
        }
    }
}

/// The two lower-case hexadecimal digits of a byte.
pub open spec fn hex_byte(b: u8) -> Seq<char> {
    seq!["0123456789abcdef"@[b as int / 16], "0123456789abcdef"@[b as int % 16]]
}

impl Color {
    /// The colour as written in a configuration file: the name of a named
    /// colour in lower case, `#rrggbb` for a mix.
    pub open spec fn spec_name(self) -> Seq<char> {
        match self {
            Color::Black => "black"@,
            Color::Red => "red"@,
            Color::Green => "green"@,
            Color::Yellow => "yellow"@,
            Color::Blue => "blue"@,
            Color::Magenta => "magenta"@,
            Color::Cyan => "cyan"@,
            Color::White => "white"@,
            Color::BrightBlack => "bright black"@,
            Color::BrightRed => "bright red"@,
            Color::BrightGreen => "bright green"@,
            Color::BrightYellow => "bright yellow"@,
            Color::BrightBlue => "bright blue"@,
            Color::BrightMagenta => "bright magenta"@,
            Color::BrightCyan => "bright cyan"@,
            Color::BrightWhite => "bright white"@,
            Color::TrueColor { r, g, b } => seq!['#'] + hex_byte(r) + hex_byte(g) + hex_byte(b),
        }
    }

    /// Writes the colour as a configuration file holds it.
    pub fn name(&self) -> (r: String)
        ensures
            r@ == self.spec_name(),
    {
        match self {
            Color::Black => String::from_str("black"),
            Color::Red => String::from_str("red"),
            Color::Green => String::from_str("green"),
            Color::Yellow => String::from_str("yellow"),
            Color::Blue => String::from_str("blue"),
            Color::Magenta => String::from_str("magenta"),
            Color::Cyan => String::from_str("cyan"),
            Color::White => String::from_str("white"),
            Color::BrightBlack => String::from_str("bright black"),
            Color::BrightRed => String::from_str("bright red"),
            Color::BrightGreen => String::from_str("bright green"),
            Color::BrightYellow => String::from_str("bright yellow"),
            Color::BrightBlue => String::from_str("bright blue"),
            Color::BrightMagenta => String::from_str("bright magenta"),
            Color::BrightCyan => String::from_str("bright cyan"),
            Color::BrightWhite => String::from_str("bright white"),
            Color::TrueColor { r, g, b } => {
                proof {
                    reveal_strlit("#");
                    assert("#"@ == seq!['#']);
                }
                let mut s = String::from_str("#");
                append_hex_byte(&mut s, *r);
                append_hex_byte(&mut s, *g);
                append_hex_byte(&mut s, *b);
                s
            },
        }
    }
}

/// Appends the two lower-case hexadecimal digits of `b` to `s`.
fn append_hex_byte(s: &mut String, b: u8)
    ensures
        final(s)@ == old(s)@ + hex_byte(b),
{
    let digits = "0123456789abcdef";
    proof {
        reveal_strlit("0123456789abcdef");
    }
    let high = (b / 16) as usize;
    let low = (b % 16) as usize;
    s.append(digits.substring_char(high, high + 1));
    s.append(digits.substring_char(low, low + 1));
    assert(final(s)@ =~= old(s)@ + hex_byte(b));
}

} // verus!
