//! The client's screen state: the line being typed with its cursor, the
//! received lines, and how far back the display is scrolled.

use vstd::prelude::*;
use vstd::utf8::encode_utf8;
use crate::text::{chars_of, join_lines, joined, string_from_chars, views_of};

verus! {

/// A chat line as the server relays it: who wrote it, when, and what.
#[derive(Clone, Debug, PartialEq, Eq)]
pub struct ChatMessage {
    pub username: String,
    pub timestamp: String,
    pub msg: String,
}

/// How a received message is shown: "timestamp:username - msg".
pub open spec fn message_line(m: ChatMessage) -> Seq<char> {
    m.timestamp@ + seq![':'] + m.username@ + seq![' ', '-', ' '] + m.msg@
}

impl ChatMessage {
    /// The line shown for this message.
    pub fn display_line(&self) -> (s: String)
        ensures
            s@ == message_line(*self),
    {
        proof {
            reveal_strlit(":");
            reveal_strlit(" - ");
        }
        let s = self.timestamp.clone().concat(":");
        let s = s.concat(self.username.as_str());
        let s = s.concat(" - ");
        s.concat(self.msg.as_str())
    }
}

/// The message the client sends when the user presses Enter: the text typed,
/// signed with the username and stamped with the time.
pub fn compose_chat_message(time: String, username: String, input: String) -> (m: ChatMessage)
    ensures
        m == (ChatMessage { username, timestamp: time, msg: input }),
{
    ChatMessage { username, timestamp: time, msg: input }
}

/// `s` without its trailing spaces.
pub open spec fn trim_end_spaces(s: Seq<char>) -> Seq<char>
    decreases s.len(),
{
    if s.len() > 0 && s.last() == ' ' {
        trim_end_spaces(s.drop_last())
    } else {
        s
    }
}

/// The lines that `textwrap::wrap` makes of `text` at `width` columns with
/// its default options.
pub uninterp spec fn textwrap_lines(text: Seq<char>, width: usize) -> Seq<Seq<char>>;

/// Calls `textwrap::wrap(text, width)` and owns the lines. Its result is
/// named by `textwrap_lines`; beyond that the contract states the short
/// path that textwrap's source takes: a text with no line feed whose UTF-8
/// length is under the width comes back as one line, its trailing spaces
/// removed. The rest of the wrapping algorithm is not stated.
#[verifier::external_body]
fn wrap_text(text: &str, width: usize) -> (lines: Vec<String>)
    ensures
        views_of(lines@) == textwrap_lines(text@, width),
        !text@.contains('\n') && encode_utf8(text@).len() < width ==> views_of(lines@) == seq![
            trim_end_spaces(text@),
        ],
{
    textwrap::wrap(text, width).into_iter().map(|line| line.into_owned()).collect()
}

/// A key as the screen loop sees it.
#[derive(Clone, Copy, Debug, PartialEq, Eq, Structural)]
pub enum Key {
    Char(char),
    Backspace,
    Up,
    Down,
    Left,
    Right,
    Enter,
    Esc,
    Other,
}

/// The modifier keys held with it.
#[derive(Clone, Copy, Debug, PartialEq, Eq, Structural)]
pub enum KeyMods {
    /// No modifier at all.
    Plain,
    /// Alt, and nothing else.
    AltOnly,
    /// Any other combination.
    Other,
}

/// What a key press asks of the caller.
#[derive(Clone, Debug, PartialEq, Eq)]
pub enum KeyOutcome {
    /// Nothing beyond the new screen state.
    Nothing,
    /// Send this text as a chat line.
    Submit(String),
    /// Leave the chat.
    Quit,
}

/// The abstract screen state.
pub struct ViewState {
    pub input: Seq<char>,
    pub cursor: nat,
    pub scroll_offset: u16,
    pub input_scroll: u16,
    pub lines: Seq<Seq<char>>,
}

pub open spec fn is_ascii_char(c: char) -> bool {
    (c as u32) < 128
}

pub open spec fn sat_inc(x: u16) -> u16 {
    if x == u16::MAX {
        x
    } else {
        (x + 1) as u16
    }
}

pub open spec fn sat_dec(x: u16) -> u16 {
    if x == 0 {
        x
    } else {
        (x - 1) as u16
    }
}

/// The screen state after a key press.
pub open spec fn after_key(s: ViewState, key: Key, mods: KeyMods) -> ViewState {
    match (key, mods) {
        (Key::Char(c), KeyMods::Plain) => ViewState {
            input: s.input.insert(s.cursor as int, c),
            cursor: s.cursor + 1,
            ..s
        },
        (Key::Backspace, KeyMods::Plain) => if s.cursor > 0 {
            ViewState {
                input: s.input.remove(s.cursor - 1),
                cursor: (s.cursor - 1) as nat,
                ..s
            }
        } else {
            s
        },
        (Key::Up, KeyMods::Plain) => ViewState { scroll_offset: sat_inc(s.scroll_offset), ..s },
        (Key::Down, KeyMods::Plain) => ViewState { scroll_offset: sat_dec(s.scroll_offset), ..s },
        (Key::Left, KeyMods::Plain) => if s.cursor > 0 {
            ViewState { cursor: (s.cursor - 1) as nat, ..s }
        } else {
            s
        },
        (Key::Right, KeyMods::Plain) => if s.cursor < s.input.len() {
            ViewState { cursor: s.cursor + 1, ..s }
        } else {
            s
        },
        (Key::Enter, KeyMods::Plain) => ViewState { input: seq![], cursor: 0, ..s },
        (Key::Up, KeyMods::AltOnly) => ViewState { input_scroll: sat_inc(s.input_scroll), ..s },
        (Key::Down, KeyMods::AltOnly) => ViewState { input_scroll: sat_dec(s.input_scroll), ..s },
        _ => s,
    }
}

/// Whether a key press may be taken: a plain character must be ASCII, since
/// the cursor counts bytes.
pub open spec fn key_allowed(s: ViewState, key: Key, mods: KeyMods) -> bool {
    mods == KeyMods::Plain ==> (key matches Key::Char(c) ==> is_ascii_char(c) && s.input.len() + 2
        <= usize::MAX)
}

/// The screen state after a received message: its lines are added at the
/// bottom and the display scrolls back to the newest line.
pub open spec fn after_receive(s: ViewState, message: Option<ChatMessage>, width: u16) -> ViewState {
    ViewState {
        lines: match message {
            Some(m) => s.lines + textwrap_lines(message_line(m), width as usize),
            None => s.lines,
        },
        scroll_offset: 0,
        ..s
    }
}

/// The rows of the display pane that are shown, as a start and an end.
pub open spec fn window(total_lines: nat, pane_height: u16, scroll_offset: u16) -> (int, int) {
    let total = (total_lines % 65536) as int;
    let start = if total > pane_height + scroll_offset {
        total - (pane_height + scroll_offset)
    } else {
        0
    };
    let shown = if pane_height < total {
        pane_height as int
    } else {
        total
    };
    (start, start + shown)
}

/// The client's screen state.
pub struct ChatView {
    input: Vec<char>,
    cursor: usize,
    scroll_offset: u16,
    input_scroll: u16,
    lines: Vec<String>,
}

impl View for ChatView {
    type V = ViewState;

    closed spec fn view(&self) -> ViewState {
        ViewState {
            input: self.input@,
            cursor: self.cursor as nat,
            scroll_offset: self.scroll_offset,
            input_scroll: self.input_scroll,
            lines: views_of(self.lines@),
        }
    }
}

/// The screen state's invariant: the cursor is within the input, and the
/// input is ASCII.
pub open spec fn view_wf(s: ViewState) -> bool {
    &&& s.cursor <= s.input.len()
    &&& forall|i: int| 0 <= i < s.input.len() ==> is_ascii_char(#[trigger] s.input[i])
}

impl ChatView {
    pub open spec fn wf(&self) -> bool {
        view_wf(self@)
    }

    /// An empty screen.
    pub fn new() -> (v: Self)
        ensures
            v.wf(),
            v@ == (ViewState {
                input: seq![],
                cursor: 0,
                scroll_offset: 0,
                input_scroll: 0,
                lines: seq![],
            }),
    {
        let v = ChatView {
            input: Vec::new(),
            cursor: 0,
            scroll_offset: 0,
            input_scroll: 0,
            lines: Vec::new(),
        };
        assert(v@.lines =~= seq![]);
        v
    }

    /// The text being typed.
    pub fn input_text(&self) -> (s: String)
        ensures
            s@ == self@.input,
    {
        string_from_chars(self.input.as_slice())
    }

    /// Where the cursor stands in the text being typed.
    pub fn cursor(&self) -> (c: usize)
        ensures
            c == self@.cursor,
    {
        self.cursor
    }

    /// How many lines the display is scrolled back.
    pub fn scroll_offset(&self) -> (o: u16)
        ensures
            o == self@.scroll_offset,
    {
        self.scroll_offset
    }

    /// How far the input pane is scrolled.
    pub fn input_scroll(&self) -> (o: u16)
        ensures
            o == self@.input_scroll,
    {
        self.input_scroll
    }

    /// The number of received display lines.
    pub fn line_count(&self) -> (n: usize)
        ensures
            n == self@.lines.len(),
    {
        self.lines.len()
    }

    /// Takes a key press.
    pub fn handle_key(&mut self, key: Key, mods: KeyMods) -> (out: KeyOutcome)
        requires
            old(self).wf(),
            key_allowed(old(self)@, key, mods),
        ensures
            final(self).wf(),
            final(self)@ == after_key(old(self)@, key, mods),
            match out {
                KeyOutcome::Submit(text) => key == Key::Enter && mods == KeyMods::Plain && text@
                    == old(self)@.input,
                KeyOutcome::Quit => key == Key::Esc && mods == KeyMods::Plain,
                KeyOutcome::Nothing => !(mods == KeyMods::Plain && (key == Key::Enter || key
                    == Key::Esc)),
            },
    {
        let ghost s = self@;
        match (key, mods) {
            (Key::Char(c), KeyMods::Plain) => {
                self.input.insert(self.cursor, c);
                self.cursor = self.cursor + 1;
                proof {
                    s.input.insert_ensures(s.cursor as int, c);
                    assert(self@ == after_key(s, key, mods));
                    assert forall|i: int| 0 <= i < self@.input.len() implies is_ascii_char(
                        #[trigger] self@.input[i],
                    ) by {
                        if i > s.cursor {
                            assert(self@.input[i] == s.input[i - 1]);
                        }
                    }
                }
                KeyOutcome::Nothing
            },
            (Key::Backspace, KeyMods::Plain) => {
                if self.cursor > 0 {
                    self.cursor = self.cursor - 1;
                    self.input.remove(self.cursor);
                    proof {
                        s.input.remove_ensures(self.cursor as int);
                        assert forall|i: int| 0 <= i < self@.input.len() implies is_ascii_char(
                            #[trigger] self@.input[i],
                        ) by {
                            if i >= self.cursor {
                                assert(self@.input[i] == s.input[i + 1]);
                            }
                        }
                    }
                }
                KeyOutcome::Nothing
            },
            (Key::Up, KeyMods::Plain) => {
                self.scroll_offset = self.scroll_offset.saturating_add(1);
                KeyOutcome::Nothing
            },
            (Key::Down, KeyMods::Plain) => {
                self.scroll_offset = self.scroll_offset.saturating_sub(1);
                KeyOutcome::Nothing
            },
            (Key::Left, KeyMods::Plain) => {
                if self.cursor > 0 {
                    self.cursor = self.cursor - 1;
                }
                KeyOutcome::Nothing
            },
            (Key::Right, KeyMods::Plain) => {
                if self.cursor < self.input.len() {
                    self.cursor = self.cursor + 1;
                }
                KeyOutcome::Nothing
            },
            (Key::Enter, KeyMods::Plain) => {
                let text = string_from_chars(self.input.as_slice());
                self.input.clear();
                self.cursor = 0;
                KeyOutcome::Submit(text)
            },
            (Key::Up, KeyMods::AltOnly) => {
                self.input_scroll = self.input_scroll.saturating_add(1);
                KeyOutcome::Nothing
            },
            (Key::Down, KeyMods::AltOnly) => {
                self.input_scroll = self.input_scroll.saturating_sub(1);
                KeyOutcome::Nothing
            },
            (Key::Esc, KeyMods::Plain) => KeyOutcome::Quit,
            _ => KeyOutcome::Nothing,
        }
    }
}


/// The input line as drawn: a bar stands for the cursor.
pub open spec fn with_cursor(s: ViewState) -> Seq<char> {
    s.input.subrange(0, s.cursor as int) + seq!['|'] + s.input.subrange(
        s.cursor as int,
        s.input.len() as int,
    )
}

impl ChatView {
    /// Takes a line from the server: `message` is what it held, if it read
    /// as a chat message. The message's lines, wrapped to the pane's width,
    /// are added at the bottom, and the display scrolls back to the newest.
    pub fn receive(&mut self, message: Option<ChatMessage>, pane_width: u16)
        requires
            old(self).wf(),
        ensures
            final(self).wf(),
            final(self)@ == after_receive(old(self)@, message, pane_width),
    {
        let ghost s = self@;
        match message {
            Some(m) => {
                let line = m.display_line();
                let mut wrapped = wrap_text(line.as_str(), pane_width as usize);
                let ghost before = self.lines@;
                let ghost added = wrapped@;
                self.lines.append(&mut wrapped);
                assert(views_of(self.lines@) =~= views_of(before) + views_of(added));
            },
            None => {},
        }
        self.scroll_offset = 0;
        assert(self@ == after_receive(s, message, pane_width));
    }

    /// The input line with the cursor drawn in it.
    pub fn input_with_cursor(&self) -> (t: String)
        requires
            self.wf(),
        ensures
            t@ == with_cursor(self@),
    {
        proof {
            reveal_strlit("|");
        }
        let n = self.input.len();
        let left = string_from_chars(&self.input.as_slice()[0..self.cursor]);
        let right = string_from_chars(&self.input.as_slice()[self.cursor..n]);
        left.concat("|").concat(right.as_str())
    }

    /// The input pane's text: the input line with its cursor, wrapped to
    /// `input_width` columns.
    pub fn input_pane_text(&self, input_width: u16) -> (t: String)
        requires
            self.wf(),
        ensures
            t@ == joined(textwrap_lines(with_cursor(self@), input_width as usize), seq!['\n']),
    {
        proof {
            reveal_strlit("\n");
            assert("\n"@ =~= seq!['\n']);
        }
        let line = self.input_with_cursor();
        let wrapped = wrap_text(line.as_str(), input_width as usize);
        join_lines(wrapped.as_slice(), "\n")
    }

    /// Which received lines the display pane shows, as a start and an end:
    /// at most `pane_height` of them, ending `scroll_offset` lines above the
    /// newest. The line count is taken modulo 65536, as the screen holds
    /// it in 16 bits.
    pub fn visible_window(&self, pane_height: u16) -> (r: (usize, usize))
        requires
            pane_height + self@.scroll_offset <= u16::MAX,
        ensures
            r.0 == window(self@.lines.len(), pane_height, self@.scroll_offset).0,
            r.1 == window(self@.lines.len(), pane_height, self@.scroll_offset).1,
            r.0 <= r.1 <= self@.lines.len(),
            r.1 - r.0 <= pane_height,
    {
        let total: u16 = (self.lines.len() % 65536) as u16;
        let start: u16 = total.saturating_sub(pane_height + self.scroll_offset);
        let shown: u16 = if pane_height < total {
            pane_height
        } else {
            total
        };
        (start as usize, (start + shown) as usize)
    }

    /// The display pane's text: the shown lines, one per row.
    pub fn visible_text(&self, pane_height: u16) -> (t: String)
        requires
            pane_height + self@.scroll_offset <= u16::MAX,
        ensures
            ({
                let (a, b) = window(self@.lines.len(), pane_height, self@.scroll_offset);
                t@ == joined(self@.lines.subrange(a, b), seq!['\n'])
            }),
    {
        proof {
            reveal_strlit("\n");
            assert("\n"@ =~= seq!['\n']);
        }
        let (a, b) = self.visible_window(pane_height);
        let shown = &self.lines.as_slice()[a..b];
        assert(views_of(shown@) =~= views_of(self.lines@).subrange(a as int, b as int));
        join_lines(shown, "\n")
    }
}

/// Deleting right after typing a character gives back the line and cursor
/// as they were.
pub proof fn lemma_backspace_undoes_typing(s: ViewState, c: char)
    requires
        view_wf(s),
    ensures
        after_key(after_key(s, Key::Char(c), KeyMods::Plain), Key::Backspace, KeyMods::Plain) == s,
{
    let t = after_key(s, Key::Char(c), KeyMods::Plain);
    assert(t.input.remove(s.cursor as int) =~= s.input);
}

/// Moving the cursor left and then right puts it back, unless it was
/// already at the start.
pub proof fn lemma_right_undoes_left(s: ViewState)
    requires
        view_wf(s),
        s.cursor > 0,
    ensures
        after_key(after_key(s, Key::Left, KeyMods::Plain), Key::Right, KeyMods::Plain) == s,
{
}

/// Key presses never touch the received lines, and keep the cursor within
/// the input and the input ASCII.
pub proof fn lemma_keys_keep_lines(s: ViewState, key: Key, mods: KeyMods)
    requires
        view_wf(s),
        key_allowed(s, key, mods),
    ensures
        after_key(s, key, mods).lines == s.lines,
        view_wf(after_key(s, key, mods)),
{
    if mods == KeyMods::Plain {
        if let Key::Char(c) = key {
            s.input.insert_ensures(s.cursor as int, c);
            let t = after_key(s, key, mods);
            assert forall|i: int| 0 <= i < t.input.len() implies is_ascii_char(
                #[trigger] t.input[i],
            ) by {
                if i > s.cursor {
                    assert(t.input[i] == s.input[i - 1]);
                }
            }
        } else if key == Key::Backspace && s.cursor > 0 {
            s.input.remove_ensures(s.cursor - 1);
            let t = after_key(s, key, mods);
            assert forall|i: int| 0 <= i < t.input.len() implies is_ascii_char(
                #[trigger] t.input[i],
            ) by {
                if i >= s.cursor - 1 {
                    assert(t.input[i] == s.input[i + 1]);
                }
            }
        }
    }
}

/// Unscrolled, the display ends at the newest line (while fewer than 65536
/// lines were received), and shows as many lines as fit.
pub proof fn lemma_unscrolled_shows_newest(total_lines: nat, pane_height: u16)
    requires
        total_lines < 65536,
    ensures
        window(total_lines, pane_height, 0).1 == total_lines,
        window(total_lines, pane_height, 0).1 - window(total_lines, pane_height, 0).0 == if pane_height
            < total_lines {
            pane_height as int
        } else {
            total_lines as int
        },
{
}

/// A received message never changes the lines already shown, only adds to
/// them, and leaves the input alone.
pub proof fn lemma_receive_appends(s: ViewState, message: Option<ChatMessage>, width: u16)
    ensures
        after_receive(s, message, width).lines.subrange(0, s.lines.len() as int) == s.lines,
        after_receive(s, message, width).input == s.input,
        after_receive(s, message, width).cursor == s.cursor,
        after_receive(s, message, width).scroll_offset == 0,
{
    assert(after_receive(s, message, width).lines.subrange(0, s.lines.len() as int) =~= s.lines);
}


/// The shown line is the timestamp, a colon, the username, " - " and the
/// whole message text, with nothing cut or added.
pub proof fn lemma_message_line_shape(m: ChatMessage)
    ensures
        ({
            let l = message_line(m);
            let (t, u, x) = (m.timestamp@.len() as int, m.username@.len() as int, m.msg@.len() as int);
            &&& l.len() == t + u + x + 4
            &&& l.subrange(0, t) == m.timestamp@
            &&& l[t] == ':'
            &&& l.subrange(t + 1, t + 1 + u) == m.username@
            &&& l.subrange(t + 1 + u, t + u + 4) == seq![' ', '-', ' ']
            &&& l.subrange(t + u + 4, l.len() as int) == m.msg@
        }),
{
    let l = message_line(m);
    let (t, u, x) = (m.timestamp@.len() as int, m.username@.len() as int, m.msg@.len() as int);
    assert(l.subrange(0, t) =~= m.timestamp@);
    assert(l.subrange(t + 1, t + 1 + u) =~= m.username@);
    assert(l.subrange(t + 1 + u, t + u + 4) =~= seq![' ', '-', ' ']);
    assert(l.subrange(t + u + 4, l.len() as int) =~= m.msg@);
}

/// The drawn input line is the input with one bar added, standing exactly
/// at the cursor: taking the bar out gives the input back.
pub proof fn lemma_bar_at_cursor(s: ViewState)
    requires
        view_wf(s),
    ensures
        with_cursor(s).len() == s.input.len() + 1,
        with_cursor(s)[s.cursor as int] == '|',
        with_cursor(s).remove(s.cursor as int) == s.input,
{
    let w = with_cursor(s);
    assert(w.remove(s.cursor as int) =~= s.input);
}

/// Down scrolls one line toward the newest, Up one line back; Down right
/// after Up gives back the same screen unless the offset was at its
/// largest. Alt with Up and Down does the same for the input pane.
pub proof fn lemma_scroll_steps(s: ViewState)
    ensures
        s.scroll_offset > 0 ==> after_key(s, Key::Down, KeyMods::Plain).scroll_offset
            == s.scroll_offset - 1,
        s.scroll_offset == 0 ==> after_key(s, Key::Down, KeyMods::Plain) == s,
        s.scroll_offset < u16::MAX ==> after_key(s, Key::Up, KeyMods::Plain).scroll_offset
            == s.scroll_offset + 1,
        s.scroll_offset < u16::MAX ==> after_key(
            after_key(s, Key::Up, KeyMods::Plain),
            Key::Down,
            KeyMods::Plain,
        ) == s,
        s.input_scroll > 0 ==> after_key(s, Key::Down, KeyMods::AltOnly).input_scroll
            == s.input_scroll - 1,
        s.input_scroll < u16::MAX ==> after_key(
            after_key(s, Key::Up, KeyMods::AltOnly),
            Key::Down,
            KeyMods::AltOnly,
        ) == s,
        after_key(s, Key::Up, KeyMods::Plain).input == s.input,
        after_key(s, Key::Down, KeyMods::Plain).cursor == s.cursor,
{
}

/// A typed character lands at the cursor, the rest of the input keeps its
/// order around it, and the cursor moves past it.
pub proof fn lemma_typing_inserts_at_cursor(s: ViewState, c: char)
    requires
        view_wf(s),
    ensures
        ({
            let t = after_key(s, Key::Char(c), KeyMods::Plain);
            &&& t.input.len() == s.input.len() + 1
            &&& t.input[s.cursor as int] == c
            &&& t.input.subrange(0, s.cursor as int) == s.input.subrange(0, s.cursor as int)
            &&& t.input.subrange(s.cursor as int + 1, t.input.len() as int) == s.input.subrange(
                s.cursor as int,
                s.input.len() as int,
            )
            &&& t.cursor == s.cursor + 1
            &&& t.scroll_offset == s.scroll_offset
        }),
{
    let t = after_key(s, Key::Char(c), KeyMods::Plain);
    assert(t.input.subrange(0, s.cursor as int) =~= s.input.subrange(0, s.cursor as int));
    assert(t.input.subrange(s.cursor as int + 1, t.input.len() as int) =~= s.input.subrange(
        s.cursor as int,
        s.input.len() as int,
    ));
}

/// Enter empties the input and puts the cursor at its start, leaving the
/// received lines and the scroll as they were.
pub proof fn lemma_enter_clears(s: ViewState)
    ensures
        after_key(s, Key::Enter, KeyMods::Plain).input.len() == 0,
        after_key(s, Key::Enter, KeyMods::Plain).cursor == 0,
        after_key(s, Key::Enter, KeyMods::Plain).lines == s.lines,
        after_key(s, Key::Enter, KeyMods::Plain).scroll_offset == s.scroll_offset,
{
}

/// A received message adds exactly the lines that wrapping its shown line to
/// the pane's width gives, after the old ones.
pub proof fn lemma_receive_adds_wrapped(s: ViewState, m: ChatMessage, width: u16)
    ensures
        after_receive(s, Some(m), width).lines.len() == s.lines.len() + textwrap_lines(
            message_line(m),
            width as usize,
        ).len(),
        after_receive(s, Some(m), width).lines.subrange(
            s.lines.len() as int,
            after_receive(s, Some(m), width).lines.len() as int,
        ) == textwrap_lines(message_line(m), width as usize),
        after_receive(s, None, width).lines == s.lines,
{
    let l = after_receive(s, Some(m), width).lines;
    assert(l.subrange(s.lines.len() as int, l.len() as int) =~= textwrap_lines(
        message_line(m),
        width as usize,
    ));
}

/// Scrolled back by `scroll_offset` with enough lines above, the display
/// shows `pane_height` lines ending `scroll_offset` lines above the newest.
pub proof fn lemma_scrolled_window(total_lines: nat, pane_height: u16, scroll_offset: u16)
    requires
        total_lines < 65536,
        total_lines >= pane_height + scroll_offset,
        pane_height + scroll_offset <= u16::MAX,
    ensures
        window(total_lines, pane_height, scroll_offset) == (
            total_lines - pane_height - scroll_offset,
            total_lines - scroll_offset,
        ),
{
}

} // verus!
