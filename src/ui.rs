use vstd::prelude::*;

use ratatui::layout::{Constraint, Direction, Layout, Rect};

use crate::player::TrackMetadata;
use crate::text::{
    chars_of, push_chars, push_decimal, push_str, push_two_digits, same_text, string_of, two_digits,
};

verus! {

/// Why the terminal could not be used.
#[derive(Debug, Clone, PartialEq, Eq)]
pub enum UiError {
    /// An input or output error, with its message.
    Io(String),
}

/// What the user asked for.
#[derive(Debug, Clone, Copy, PartialEq, Eq, Structural)]
pub enum UserAction {
    Quit,
    PlayPause,
    Next,
    Previous,
    VolumeUp,
    VolumeDown,
    MarkFavorite,
    MarkSkip,
    Delete,
    EditTags,
    NoAction,
}

/// A key the user pressed.
#[derive(Debug, Clone, Copy, PartialEq, Eq, Structural)]
pub enum Key {
    Char(char),
    Left,
    Right,
    Up,
    Down,
    Enter,
    Esc,
    Backspace,
    Other,
}

/// What the keys are for at the moment.
#[derive(Debug, Clone, Copy, PartialEq, Eq, Structural)]
pub enum UiMode {
    Normal,
    EditingTags,
    ConfirmDelete,
}

/// The action that `key` asks for in normal mode.
pub open spec fn key_action(key: Key) -> UserAction {
    match key {
        Key::Char('q') => UserAction::Quit,
        Key::Char(' ') => UserAction::PlayPause,
        Key::Right => UserAction::Next,
        Key::Left => UserAction::Previous,
        Key::Char('f') => UserAction::MarkFavorite,
        Key::Char('s') => UserAction::MarkSkip,
        Key::Char('d') => UserAction::Delete,
        Key::Char('e') => UserAction::EditTags,
        Key::Char('+') => UserAction::VolumeUp,
        Key::Char('-') => UserAction::VolumeDown,
        _ => UserAction::NoAction,
    }
}

/// The answer that `key` gives to a yes-or-no question, if it gives one.
pub open spec fn answer_of(key: Key) -> Option<bool> {
    match key {
        Key::Char('y') | Key::Char('Y') => Some(true),
        Key::Char('n') | Key::Char('N') | Key::Esc => Some(false),
        _ => None,
    }
}

/// The action that `key` asks for in normal mode.
pub fn action_for_key(key: Key) -> (r: UserAction)
    ensures
        r == key_action(key),
{
    match key {
        Key::Char('q') => UserAction::Quit,
        Key::Char(' ') => UserAction::PlayPause,
        Key::Right => UserAction::Next,
        Key::Left => UserAction::Previous,
        Key::Char('f') => UserAction::MarkFavorite,
        Key::Char('s') => UserAction::MarkSkip,
        Key::Char('d') => UserAction::Delete,
        Key::Char('e') => UserAction::EditTags,
        Key::Char('+') => UserAction::VolumeUp,
        Key::Char('-') => UserAction::VolumeDown,
        _ => UserAction::NoAction,
    }
}

/// The answer that `key` gives to a yes-or-no question: `y` or `Y` for yes,
/// `n`, `N` or Escape for no, `None` for any other key.
pub fn confirm_answer(key: Key) -> (r: Option<bool>)
    ensures
        r == answer_of(key),
{
    match key {
        Key::Char('y') | Key::Char('Y') => Some(true),
        Key::Char('n') | Key::Char('N') | Key::Esc => Some(false),
        _ => None,
    }
}

/// Reads a polled key (`None` when none came) in the given mode: returns the
/// action it asks for and the mode that follows. Escape leaves tag editing;
/// a yes-or-no key ends a delete confirmation, a yes asking for the deletion.
pub fn handle_input(mode: UiMode, key: Option<Key>) -> (r: (UserAction, UiMode))
    ensures
        match (mode, key) {
            (_, None) => r == (UserAction::NoAction, mode),
            (UiMode::Normal, Some(k)) => r == (key_action(k), UiMode::Normal),
            (UiMode::EditingTags, Some(k)) => r == (
                UserAction::NoAction,
                if k == Key::Esc {
                    UiMode::Normal
                } else {
                    UiMode::EditingTags
                },
            ),
            (UiMode::ConfirmDelete, Some(k)) => r == match answer_of(k) {
                Some(true) => (UserAction::Delete, UiMode::Normal),
                Some(false) => (UserAction::NoAction, UiMode::Normal),
                None => (UserAction::NoAction, UiMode::ConfirmDelete),
            },
        },
{
    let k = match key {
        Some(k) => k,
        None => {
            return (UserAction::NoAction, mode);
        },
    };
    match mode {
        UiMode::Normal => (action_for_key(k), UiMode::Normal),
        UiMode::EditingTags => match k {
            Key::Esc => (UserAction::NoAction, UiMode::Normal),
            _ => (UserAction::NoAction, UiMode::EditingTags),
        },
        UiMode::ConfirmDelete => match confirm_answer(k) {
            Some(true) => (UserAction::Delete, UiMode::Normal),
            Some(false) => (UserAction::NoAction, UiMode::Normal),
            None => (UserAction::NoAction, UiMode::ConfirmDelete),
        },
    }
}


/// Number of fields of the tag form: artist, album, title and year.
pub const FIELD_COUNT: usize = 4;

/// What happened to the tag form after a key.
#[derive(Debug, Clone, PartialEq, Eq)]
pub enum EditStep {
    /// Still editing.
    Editing,
    /// Given up: no tag is to change.
    Cancelled,
    /// Confirmed: artist, album, title and year, each `Some` where it is to change.
    Done(Option<String>, Option<String>, Option<String>, Option<String>),
}

/// The new value of a field, where it is to change: it differs from the value
/// the form started with and it is not empty.
pub open spec fn changed_field(new: Seq<char>, initial: Seq<char>) -> Option<Seq<char>> {
    if new != initial && new.len() > 0 {
        Some(new)
    } else {
        None
    }
}

pub open spec fn option_view(o: Option<String>) -> Option<Seq<char>> {
    match o {
        Some(s) => Some(s@),
        None => None,
    }
}

/// The text of an optional tag, empty where the tag is absent.
pub open spec fn tag_text(tag: Option<String>) -> Seq<char> {
    match tag {
        Some(s) => s@,
        None => Seq::empty(),
    }
}

/// The values a tag form starts with for a track with tags `metadata`.
pub open spec fn initial_fields(metadata: Option<TrackMetadata>) -> Seq<Seq<char>> {
    match metadata {
        Some(m) => seq![tag_text(m.artist), tag_text(m.album), tag_text(m.title), tag_text(m.year)],
        None => seq![Seq::empty(), Seq::empty(), Seq::empty(), Seq::empty()],
    }
}

/// The form that edits a track's tags: the value of each field, the value it
/// started with, and the field under the cursor.
pub struct EditState {
    current_field: usize,
    fields: Vec<String>,
    initial: Vec<String>,
}

/// A copy of an optional tag's text, empty where the tag is absent.
fn text_or_empty(tag: &Option<String>) -> (r: String)
    ensures
        r@ == tag_text(*tag),
{
    match tag {
        Some(s) => s.clone(),
        None => String::new(),
    }
}

/// `s` with `c` appended.
fn with_char(s: &String, c: char) -> (r: String)
    ensures
        r@ == s@.push(c),
{
    let mut cs = chars_of(s.as_str());
    cs.push(c);
    string_of(cs.as_slice())
}

/// `s` without its last character, if it has one.
fn without_last_char(s: &String) -> (r: String)
    ensures
        r@ == if s@.len() > 0 {
            s@.drop_last()
        } else {
            s@
        },
{
    let mut cs = chars_of(s.as_str());
    if cs.len() > 0 {
        cs.pop();
    }
    string_of(cs.as_slice())
}

fn changed(new: &String, initial: &String) -> (r: Option<String>)
    ensures
        option_view(r) == changed_field(new@, initial@),
{
    if *new != *initial && !new.as_str().is_empty() {
        Some(new.clone())
    } else {
        None
    }
}

impl EditState {
    pub closed spec fn fields(&self) -> Seq<Seq<char>> {
        crate::text::views(self.fields@)
    }

    pub closed spec fn initial(&self) -> Seq<Seq<char>> {
        crate::text::views(self.initial@)
    }

    pub closed spec fn current(&self) -> nat {
        self.current_field as nat
    }

    pub open spec fn wf(&self) -> bool {
        &&& self.fields().len() == FIELD_COUNT
        &&& self.initial().len() == FIELD_COUNT
        &&& self.current() < FIELD_COUNT
    }

    /// The form for a track with tags `metadata`: each field holds the tag's
    /// text (empty where it is absent) and the cursor is on the first field.
    pub fn begin(metadata: Option<&TrackMetadata>) -> (r: EditState)
        ensures
            r.wf(),
            r.fields() == initial_fields(
                match metadata {
                    Some(m) => Some(*m),
                    None => None,
                },
            ),
            r.initial() == r.fields(),
            r.current() == 0,
    {
        let mut fields: Vec<String> = Vec::new();
        match metadata {
            Some(m) => {
                fields.push(text_or_empty(&m.artist));
                fields.push(text_or_empty(&m.album));
                fields.push(text_or_empty(&m.title));
                fields.push(text_or_empty(&m.year));
            },
            None => {
                fields.push(String::new());
                fields.push(String::new());
                fields.push(String::new());
                fields.push(String::new());
            },
        }
        let initial = fields.clone();
        let r = EditState { current_field: 0, fields, initial };
        assert(r.fields() =~= initial_fields(
            match metadata {
                Some(m) => Some(*m),
                None => None,
            },
        ));
        assert(r.initial() =~= r.fields());
        r
    }

    /// Reads one key of the form. Escape gives up and Enter confirms, handing
    /// back each field that is to change; up and down move between fields
    /// (staying within them); a character is typed at the end of the field
    /// under the cursor and backspace erases its last character. Any other key
    /// does nothing.
    pub fn apply_key(&mut self, key: Key) -> (r: EditStep)
        requires
            old(self).wf(),
        ensures
            final(self).wf(),
            final(self).initial() == old(self).initial(),
            match key {
                Key::Esc => (r is Cancelled) && final(self).fields() == old(self).fields()
                    && final(self).current() == old(self).current(),
                Key::Enter => final(self).fields() == old(self).fields() && final(self).current()
                    == old(self).current() && (r matches EditStep::Done(a, b, t, y) && option_view(a)
                    == changed_field(old(self).fields()[0], old(self).initial()[0]) && option_view(b)
                    == changed_field(old(self).fields()[1], old(self).initial()[1]) && option_view(t)
                    == changed_field(old(self).fields()[2], old(self).initial()[2]) && option_view(y)
                    == changed_field(old(self).fields()[3], old(self).initial()[3])),
                Key::Up => (r is Editing) && final(self).fields() == old(self).fields()
                    && final(self).current() == if old(self).current() > 0 {
                    (old(self).current() - 1) as nat
                } else {
                    0
                },
                Key::Down => (r is Editing) && final(self).fields() == old(self).fields()
                    && final(self).current() == if old(self).current() < FIELD_COUNT - 1 {
                    old(self).current() + 1
                } else {
                    old(self).current()
                },
                Key::Char(c) => (r is Editing) && final(self).current() == old(self).current()
                    && final(self).fields() == old(self).fields().update(
                    old(self).current() as int,
                    old(self).fields()[old(self).current() as int].push(c),
                ),
                Key::Backspace => (r is Editing) && final(self).current() == old(self).current() && ({
                    let f = old(self).fields()[old(self).current() as int];
                    final(self).fields() == old(self).fields().update(
                        old(self).current() as int,
                        if f.len() > 0 {
                            f.drop_last()
                        } else {
                            f
                        },
                    )
                }),
                _ => (r is Editing) && final(self).fields() == old(self).fields()
                    && final(self).current() == old(self).current(),
            },
    {
        let i = self.current_field;
        assert(crate::text::views(self.fields@)[i as int] == self.fields@[i as int]@);
        match key {
            Key::Esc => EditStep::Cancelled,
            Key::Enter => {
                assert(self.fields()[0] == self.fields@[0]@);
                assert(self.fields()[1] == self.fields@[1]@);
                assert(self.fields()[2] == self.fields@[2]@);
                assert(self.fields()[3] == self.fields@[3]@);
                assert(self.initial()[0] == self.initial@[0]@);
                assert(self.initial()[1] == self.initial@[1]@);
                assert(self.initial()[2] == self.initial@[2]@);
                assert(self.initial()[3] == self.initial@[3]@);
                EditStep::Done(
                    changed(&self.fields[0], &self.initial[0]),
                    changed(&self.fields[1], &self.initial[1]),
                    changed(&self.fields[2], &self.initial[2]),
                    changed(&self.fields[3], &self.initial[3]),
                )
            },
            Key::Up => {
                if self.current_field > 0 {
                    self.current_field = self.current_field - 1;
                }
                EditStep::Editing
            },
            Key::Down => {
                if self.current_field < FIELD_COUNT - 1 {
                    self.current_field = self.current_field + 1;
                }
                EditStep::Editing
            },
            Key::Char(c) => {
                let f = with_char(&self.fields[i], c);
                self.fields[i] = f;
                assert(self.fields() =~= old(self).fields().update(
                    i as int,
                    old(self).fields()[i as int].push(c),
                ));
                EditStep::Editing
            },
            Key::Backspace => {
                let f = without_last_char(&self.fields[i]);
                self.fields[i] = f;
                assert(self.fields() =~= old(self).fields().update(
                    i as int,
                    if old(self).fields()[i as int].len() > 0 {
                        old(self).fields()[i as int].drop_last()
                    } else {
                        old(self).fields()[i as int]
                    },
                ));
                EditStep::Editing
            },
            _ => EditStep::Editing,
        }
    }

    /// The value of each field, in order.
    pub fn field_values(&self) -> (r: &Vec<String>)
        ensures
            crate::text::views(r@) == self.fields(),
    {
        &self.fields
    }

    /// The index of the field under the cursor.
    pub fn current_field(&self) -> (r: usize)
        ensures
            r == self.current(),
    {
        self.current_field
    }
}

impl Default for EditState {
    /// An empty form, the cursor on the first field.
    fn default() -> (r: EditState)
        ensures
            r.wf(),
            r.fields() == initial_fields(None),
            r.initial() == r.fields(),
            r.current() == 0,
    {
        EditState::begin(None)
    }
}


/// The text of an optional tag, `default` where the tag is absent.
pub open spec fn tag_or(tag: Option<String>, default: Seq<char>) -> Seq<char> {
    match tag {
        Some(s) => s@,
        None => default,
    }
}

/// The star that marks a favorite, and the space after it.
pub open spec fn star(is_favorite: bool) -> Seq<char> {
    if is_favorite {
        "\u{2605} "@
    } else {
        Seq::empty()
    }
}

/// What the display says of the loaded track. `track` is its path and
/// `relative` the same path relative to the working directory, where it lies
/// below it. With tags, and any of them known, they are shown with the year in
/// parentheses and the relative path in brackets; with all of them unknown the
/// relative path alone; without tags the full path.
pub open spec fn now_playing(
    track: Option<Seq<char>>,
    relative: Seq<char>,
    metadata: Option<TrackMetadata>,
    is_favorite: bool,
) -> Seq<char> {
    match track {
        None => "No track playing"@,
        Some(t) => "Now playing: "@ + match metadata {
            None => star(is_favorite) + t,
            Some(m) => tagged_text(m, relative, is_favorite),
        },
    }
}

/// What the display says of a track with tags `m` (see `now_playing`).
pub open spec fn tagged_text(m: TrackMetadata, relative: Seq<char>, is_favorite: bool) -> Seq<
    char,
> {
                let artist = tag_or(m.artist, "Unknown Artist"@);
                let album = tag_or(m.album, "Unknown Album"@);
                let title = tag_or(m.title, "Unknown Title"@);
                let year = tag_or(m.year, Seq::empty());
                if artist == "Unknown Artist"@ && album == "Unknown Album"@ && title
                    == "Unknown Title"@ && year.len() == 0 {
                    star(is_favorite) + relative
                } else {
                    tags_line(m, relative, is_favorite)
                }
}

/// A year in parentheses after a space; nothing for an empty year.
pub open spec fn year_part(year: Seq<char>) -> Seq<char> {
    if year.len() == 0 {
        Seq::empty()
    } else {
        " ("@ + year + ")"@
    }
}

/// The tags of `m`, unknown ones marked so, and the relative path.
pub open spec fn tags_line(m: TrackMetadata, relative: Seq<char>, is_favorite: bool) -> Seq<char> {
    star(is_favorite) + tag_or(m.artist, "Unknown Artist"@) + " - "@ + tag_or(
        m.album,
        "Unknown Album"@,
    ) + " - "@ + tag_or(m.title, "Unknown Title"@) + year_part(tag_or(m.year, Seq::empty()))
        + " ["@ + relative + "]"@
}

/// Appends the text of an optional tag, `default` where it is absent.
fn push_tag(buf: &mut Vec<char>, tag: &Option<String>, default: &str)
    ensures
        final(buf)@ == old(buf)@ + tag_or(*tag, default@),
{
    match tag {
        Some(s) => push_str(buf, s.as_str()),
        None => push_str(buf, default),
    }
}

/// Whether an optional tag is absent or reads `default`.
fn tag_unknown(tag: &Option<String>, default: &str) -> (r: bool)
    ensures
        r == (tag_or(*tag, default@) == default@),
{
    match tag {
        Some(s) => same_text(s.as_str(), default),
        None => true,
    }
}

fn push_star(buf: &mut Vec<char>, is_favorite: bool)
    ensures
        final(buf)@ == old(buf)@ + star(is_favorite),
{
    if is_favorite {
        push_str(buf, "\u{2605} ");
    } else {
        assert(old(buf)@ + star(is_favorite) =~= old(buf)@);
    }
}

/// Appends what the display says of a track with tags `m`.
fn push_tagged(buf: &mut Vec<char>, m: &TrackMetadata, relative: &String, is_favorite: bool)
    ensures
        final(buf)@ == old(buf)@ + tagged_text(*m, relative@, is_favorite),
{
    let ghost head = buf@;
    let artist_unknown = tag_unknown(&m.artist, "Unknown Artist");
    let album_unknown = tag_unknown(&m.album, "Unknown Album");
    let title_unknown = tag_unknown(&m.title, "Unknown Title");
    let year_unknown = tag_unknown(&m.year, "");
    proof {
        assert(""@ =~= Seq::<char>::empty()) by {
            reveal_strlit("");
        }
        let year = tag_or(m.year, Seq::empty());
        assert(tag_or(m.year, ""@) == year);
        assert(year.len() == 0 <==> year =~= Seq::<char>::empty());
    }
    let unknown = artist_unknown && album_unknown && title_unknown && year_unknown;
    if unknown {
        push_star(buf, is_favorite);
        push_str(buf, relative.as_str());
        assert(buf@ =~= head + (star(is_favorite) + relative@));
    } else {
        push_tags_line(buf, m, relative, is_favorite);
    }
}

/// The characters of `year_part` for an optional year.
fn year_part_chars(year: &Option<String>) -> (r: Vec<char>)
    ensures
        r@ == year_part(tag_or(*year, Seq::empty())),
{
    let mut b: Vec<char> = Vec::new();
    match year {
        Some(y) => {
            if !y.as_str().is_empty() {
                push_str(&mut b, " (");
                push_str(&mut b, y.as_str());
                push_str(&mut b, ")");
                assert(b@ =~= " ("@ + y@ + ")"@);
            } else {
                assert(b@ =~= Seq::<char>::empty());
            }
        },
        None => {
            assert(b@ =~= Seq::<char>::empty());
        },
    }
    b
}

/// Appends the tags of `m` and the relative path (see `tags_line`).
fn push_tags_line(buf: &mut Vec<char>, m: &TrackMetadata, relative: &String, is_favorite: bool)
    ensures
        final(buf)@ == old(buf)@ + tags_line(*m, relative@, is_favorite),
{
    let mut b: Vec<char> = Vec::new();
    push_star(&mut b, is_favorite);
    assert(b@ =~= star(is_favorite));
    push_tag(&mut b, &m.artist, "Unknown Artist");
    push_str(&mut b, " - ");
    push_tag(&mut b, &m.album, "Unknown Album");
    push_str(&mut b, " - ");
    push_tag(&mut b, &m.title, "Unknown Title");
    let yp = year_part_chars(&m.year);
    push_chars(&mut b, &yp);
    push_str(&mut b, " [");
    push_str(&mut b, relative.as_str());
    push_str(&mut b, "]");
    push_chars(buf, &b);
}

/// The line of the display that names the loaded track (see `now_playing`).
pub fn now_playing_text(
    track: Option<&String>,
    relative: &String,
    metadata: Option<&TrackMetadata>,
    is_favorite: bool,
) -> (r: String)
    ensures
        r@ == now_playing(
            match track {
                Some(t) => Some(t@),
                None => None,
            },
            relative@,
            match metadata {
                Some(m) => Some(*m),
                None => None,
            },
            is_favorite,
        ),
{
    let t = match track {
        None => {
            let mut buf: Vec<char> = Vec::new();
            push_str(&mut buf, "No track playing");
            assert(buf@ =~= "No track playing"@);
            return string_of(buf.as_slice());
        },
        Some(t) => t,
    };
    let ghost track_v: Option<Seq<char>> = Some(t@);
    let ghost meta_v: Option<TrackMetadata> = match metadata {
        Some(m) => Some(*m),
        None => None,
    };
    let mut buf: Vec<char> = Vec::new();
    push_str(&mut buf, "Now playing: ");
    let ghost head = buf@;
    assert(head =~= "Now playing: "@);
    match metadata {
        None => {
            push_star(&mut buf, is_favorite);
            push_str(&mut buf, t.as_str());
            assert(buf@ =~= head + (star(is_favorite) + t@));
            assert(buf@ == now_playing(track_v, relative@, meta_v, is_favorite));
        },
        Some(m) => {
            push_tagged(&mut buf, m, relative, is_favorite);
            assert(buf@ =~= head + tagged_text(*m, relative@, is_favorite));
        },
    }
    string_of(buf.as_slice())
}

/// The label of the progress bar: position and length as minutes and seconds
/// (`mm:ss / mm:ss`), where both are known, the length is not zero and the
/// position is within it; else zeros. Times are in milliseconds.
pub open spec fn progress_label(position: Option<u64>, total: Option<u64>) -> Seq<char> {
    match (position, total) {
        (Some(p), Some(t)) if t > 0 && p <= t => {
            let ps = p as nat / 1000;
            let ts = t as nat / 1000;
            two_digits(ps / 60) + ":"@ + two_digits(ps % 60) + " / "@ + two_digits(ts / 60) + ":"@
                + two_digits(ts % 60)
        },
        _ => "00:00 / 00:00"@,
    }
}

/// The label of the progress bar (see `progress_label`).
pub fn progress_text(position: Option<u64>, total: Option<u64>) -> (r: String)
    ensures
        r@ == progress_label(position, total),
{
    let mut buf: Vec<char> = Vec::new();
    match (position, total) {
        (Some(p), Some(t)) if t > 0 && p <= t => {
            let ps = p / 1000;
            let ts = t / 1000;
            push_two_digits(&mut buf, ps / 60);
            push_str(&mut buf, ":");
            push_two_digits(&mut buf, ps % 60);
            push_str(&mut buf, " / ");
            push_two_digits(&mut buf, ts / 60);
            push_str(&mut buf, ":");
            push_two_digits(&mut buf, ts % 60);
            assert(buf@ =~= progress_label(position, total));
        },
        _ => {
            push_str(&mut buf, "00:00 / 00:00");
            assert(buf@ =~= "00:00 / 00:00"@);
        },
    }
    string_of(buf.as_slice())
}


/// A rectangle of terminal cells.
#[derive(Debug, Clone, Copy, PartialEq, Eq, Structural)]
pub struct Area {
    pub x: u16,
    pub y: u16,
    pub width: u16,
    pub height: u16,
}

/// The pieces into which ratatui's layout solver cuts `area`, top to bottom
/// (`vertical`) or left to right, one piece per percentage.
pub uninterp spec fn layout_split(area: Area, vertical: bool, percentages: Seq<u16>) -> Seq<Area>;

/// The sum of `percentages`.
pub open spec fn percent_sum(percentages: Seq<u16>) -> int
    decreases percentages.len(),
{
    if percentages.len() == 0 {
        0
    } else {
        percent_sum(percentages.drop_last()) + percentages.last()
    }
}

/// Relies on ratatui's `Layout::split` with one `Constraint::Percentage` per
/// percentage: it returns one rectangle per constraint, and, for percentages
/// that do not conflict (their sum is at most 100), the same ones for the same
/// area and constraints.
#[verifier::external_body]
fn split_by_percentages(area: Area, vertical: bool, percentages: &Vec<u16>) -> (r: Vec<Area>)
    requires
        percent_sum(percentages@) <= 100,
    ensures
        r@ == layout_split(area, vertical, percentages@),
        r@.len() == percentages@.len(),
{
    let rect = Rect { x: area.x, y: area.y, width: area.width, height: area.height };
    let direction = if vertical { Direction::Vertical } else { Direction::Horizontal };
    let constraints = percentages.iter().map(|p| Constraint::Percentage(*p));
    let pieces = Layout::default().direction(direction).constraints(constraints).split(rect);
    pieces.iter().map(|r| Area { x: r.x, y: r.y, width: r.width, height: r.height }).collect()
}

/// The margins and middle of a centered cut: `percent` in the middle and half
/// of the rest on either side.
pub open spec fn centered_percentages(percent: u16) -> Seq<u16> {
    let side = ((100 - percent) / 2) as u16;
    seq![side, percent, side]
}

fn centered_cut(percent: u16) -> (r: Vec<u16>)
    requires
        percent <= 100,
    ensures
        r@ == centered_percentages(percent),
        percent_sum(r@) <= 100,
{
    let side = (100 - percent) / 2;
    let r = vec![side, percent, side];
    assert(r@ =~= centered_percentages(percent));
    assert(percent_sum(r@) <= 100) by {
        let s1 = r@.drop_last();
        let s2 = s1.drop_last();
        assert(s2 =~= seq![side]);
        assert(s1 =~= seq![side, percent]);
        assert(s2.drop_last() =~= Seq::<u16>::empty());
        assert(percent_sum(Seq::<u16>::empty()) == 0);
        assert(percent_sum(s2) == side);
        assert(percent_sum(s1) == side + percent);
        assert(percent_sum(r@) == side + percent + side);
    }
    r
}

/// The rectangle in the middle of `r`, `percent_x` of its width and
/// `percent_y` of its height, as the layout solver places it.
pub fn centered_rect(percent_x: u16, percent_y: u16, r: Area) -> (c: Area)
    requires
        percent_x <= 100,
        percent_y <= 100,
    ensures
        c == layout_split(
            layout_split(r, true, centered_percentages(percent_y))[1],
            false,
            centered_percentages(percent_x),
        )[1],
{
    let rows = split_by_percentages(r, true, &centered_cut(percent_y));
    let columns = split_by_percentages(rows[1], false, &centered_cut(percent_x));
    columns[1]
}

} // verus!
