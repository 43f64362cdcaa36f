//! Editors for text that is typed. Cursors count characters.

use crate::outside::overwrite;
use crate::text::{char_from, chars_of, concat3, is_white_space, text_of, trim_text};
use vstd::prelude::*;

verus! {

/// A key.
#[derive(Debug, Clone, Copy, PartialEq, Eq, Structural)]
pub enum KeyCode {
    Char(char),
    Enter,
    Backspace,
    Delete,
    Left,
    Right,
    Home,
    End,
    Up,
    Down,
    Other,
}

/// A key that was pressed, and what was held with it.
#[derive(Debug, Clone, Copy, PartialEq, Eq, Structural)]
pub struct KeyEvent {
    pub code: KeyCode,
    pub control: bool,
    pub alt: bool,
}

/// A text with something put in at a position.
pub open spec fn put_in(text: Seq<char>, at: int, value: Seq<char>) -> Seq<char> {
    text.take(at) + value + text.skip(at)
}

/// A text without the character at a position.
pub open spec fn taken_out(text: Seq<char>, at: int) -> Seq<char> {
    text.take(at) + text.skip(at + 1)
}

/// How many line breaks there are.
pub open spec fn breaks(text: Seq<char>) -> nat
    decreases text.len(),
{
    if text.len() == 0 {
        0
    } else {
        breaks(text.skip(1)) + if text[0] == '\n' {
            1nat
        } else {
            0nat
        }
    }
}

/// Where the last line begins.
pub open spec fn last_line_start(text: Seq<char>) -> nat
    decreases text.len(),
{
    if text.len() == 0 || text.last() == '\n' {
        text.len()
    } else {
        last_line_start(text.drop_last())
    }
}

/// Where the line with this number begins.
pub open spec fn line_begin(text: Seq<char>, line: nat) -> nat
    decreases line,
{
    if line == 0 {
        0
    } else {
        let n = crate::text::before_char(text, '\n');
        n + 1 + line_begin(text.skip(n as int + 1), (line - 1) as nat)
    }
}

/// How long the line that begins at a position is.
pub open spec fn line_length(text: Seq<char>, begin: nat) -> nat {
    crate::text::before_char(text.skip(begin as int), '\n')
}

proof fn last_line_start_bound(text: Seq<char>)
    ensures
        last_line_start(text) <= text.len(),
    decreases text.len(),
{
    if text.len() > 0 && text.last() != '\n' {
        last_line_start_bound(text.drop_last());
    }
}

proof fn breaks_bound(text: Seq<char>)
    ensures
        breaks(text) <= text.len(),
    decreases text.len(),
{
    if text.len() > 0 {
        breaks_bound(text.skip(1));
    }
}

proof fn first_break(text: Seq<char>)
    requires
        breaks(text) > 0,
    ensures
        crate::text::before_char(text, '\n') < text.len(),
        breaks(text) == 1 + breaks(text.skip(crate::text::before_char(text, '\n') as int + 1)),
    decreases text.len(),
{
    if text[0] != '\n' {
        first_break(text.skip(1));
        let n = crate::text::before_char(text.skip(1), '\n') as int;
        assert(text.skip(1).skip(n + 1) =~= text.skip(n + 2));
    }
}

/// The position in another line that is nearest to a column.
pub open spec fn place_in_line(text: Seq<char>, line: nat, column: nat) -> nat {
    let begin = line_begin(text, line);
    let length = line_length(text, begin);
    begin + if column < length {
        column
    } else {
        length
    }
}

/// The line that lies `delta` lines away, if there is one.
pub open spec fn line_away(line: nat, delta: int, count: nat) -> Option<nat> {
    if line + delta < 0 || (delta >= 0 && line + delta >= count) {
        None
    } else {
        Some((line + delta) as nat)
    }
}

/// A text that is edited.
#[derive(Debug)]
pub struct TextEditor {
    text: String,
    cursor: usize,
    multiline: bool,
}

/// The state of an editor.
pub struct EditorView {
    pub text: Seq<char>,
    pub cursor: nat,
    pub multiline: bool,
}

impl View for TextEditor {
    type V = EditorView;

    closed spec fn view(&self) -> EditorView {
        EditorView { text: self.text@, cursor: self.cursor as nat, multiline: self.multiline }
    }
}

impl EditorView {
    /// Whether the cursor stands in the text or at its end.
    pub open spec fn well_formed(self) -> bool {
        self.cursor <= self.text.len()
    }

    /// The line and the column of the cursor.
    pub open spec fn line_column(self) -> (nat, nat) {
        let before = self.text.take(self.cursor as int);
        (breaks(before), (self.cursor - last_line_start(before)) as nat)
    }

    /// The state after a text was put in at the cursor.
    pub open spec fn typed(self, value: Seq<char>) -> EditorView {
        EditorView {
            text: put_in(self.text, self.cursor as int, value),
            cursor: self.cursor + value.len(),
            ..self
        }
    }

    /// The state after the character before the cursor was taken out.
    pub open spec fn erased(self) -> EditorView {
        if self.cursor == 0 {
            self
        } else {
            EditorView {
                text: taken_out(self.text, self.cursor - 1),
                cursor: (self.cursor - 1) as nat,
                ..self
            }
        }
    }

    /// The state after the character at the cursor was taken out.
    pub open spec fn cut(self) -> EditorView {
        if self.cursor >= self.text.len() {
            self
        } else {
            EditorView { text: taken_out(self.text, self.cursor as int), ..self }
        }
    }

    /// The state after the cursor moved up or down so many lines, or the same state where there
    /// is no such line.
    pub open spec fn moved(self, delta: int) -> EditorView {
        let (line, column) = self.line_column();
        match line_away(line, delta, breaks(self.text) + 1) {
            Some(target) => EditorView { cursor: place_in_line(self.text, target, column), ..self },
            None => self,
        }
    }

    /// The state after a key, and whether the key meant something.
    pub open spec fn after_key(self, key: KeyEvent) -> (EditorView, bool) {
        if key.control || key.alt {
            (self, false)
        } else {
            match key.code {
                KeyCode::Char(c) => (self.typed(seq![c]), true),
                KeyCode::Enter => if self.multiline {
                    (self.typed(seq!['\n']), true)
                } else {
                    (self, false)
                },
                KeyCode::Backspace => (self.erased(), self.cursor > 0),
                KeyCode::Delete => (self.cut(), self.cursor < self.text.len()),
                KeyCode::Left => if self.cursor > 0 {
                    (EditorView { cursor: (self.cursor - 1) as nat, ..self }, true)
                } else {
                    (self, false)
                },
                KeyCode::Right => if self.cursor < self.text.len() {
                    (EditorView { cursor: self.cursor + 1, ..self }, true)
                } else {
                    (self, false)
                },
                KeyCode::Home => {
                    let start = last_line_start(self.text.take(self.cursor as int));
                    (EditorView { cursor: start, ..self }, start != self.cursor)
                },
                KeyCode::End => {
                    let end = self.cursor + crate::text::before_char(
                        self.text.skip(self.cursor as int),
                        '\n',
                    );
                    (EditorView { cursor: end, ..self }, end != self.cursor)
                },
                KeyCode::Up => if self.multiline {
                    (
                        self.moved(-1),
                        line_away(self.line_column().0, -1, breaks(self.text) + 1) is Some,
                    )
                } else {
                    (self, false)
                },
                KeyCode::Down => if self.multiline {
                    (
                        self.moved(1),
                        line_away(self.line_column().0, 1, breaks(self.text) + 1) is Some,
                    )
                } else {
                    (self, false)
                },
                KeyCode::Other => (self, false),
            }
        }
    }
}

/// What was just typed, a backspace takes away again.
pub proof fn backspace_undoes_typing(state: EditorView, c: char)
    requires
        state.well_formed(),
    ensures
        state.typed(seq![c]).erased() == state,
{
    let after = state.typed(seq![c]);
    assert(taken_out(after.text, state.cursor as int) =~= state.text);
}

/// Whatever key is pressed, the cursor stays in the text.
pub proof fn cursor_stays_in_text(state: EditorView, key: KeyEvent)
    requires
        state.well_formed(),
    ensures
        state.after_key(key).0.well_formed(),
        state.after_key(key).0.multiline == state.multiline,
{
    last_line_start_bound(state.text.take(state.cursor as int));
    crate::text::before_char_bound(state.text.skip(state.cursor as int), '\n');
    let (line, column) = state.line_column();
    if line > 0 {
        breaks_of_prefix(state.text, state.cursor as int);
        place_is_in_text(state.text, (line - 1) as nat, column);
    }
    if line + 1 < breaks(state.text) + 1 {
        place_is_in_text(state.text, line + 1, column);
    }
}

proof fn breaks_of_prefix(text: Seq<char>, n: int)
    requires
        0 <= n <= text.len(),
    ensures
        breaks(text.take(n)) <= breaks(text),
    decreases text.len(),
{
    if n > 0 {
        assert(text.take(n).skip(1) =~= text.skip(1).take(n - 1));
        breaks_of_prefix(text.skip(1), n - 1);
    }
}

proof fn line_begin_in_text(text: Seq<char>, line: nat)
    requires
        line <= breaks(text),
    ensures
        line_begin(text, line) <= text.len(),
    decreases line,
{
    if line > 0 {
        first_break(text);
        let n = crate::text::before_char(text, '\n') as int;
        line_begin_in_text(text.skip(n + 1), (line - 1) as nat);
    }
}

proof fn place_is_in_text(text: Seq<char>, line: nat, column: nat)
    requires
        line <= breaks(text),
    ensures
        place_in_line(text, line, column) <= text.len(),
{
    line_begin_in_text(text, line);
    crate::text::before_char_bound(text.skip(line_begin(text, line) as int), '\n');
}

impl TextEditor {
    /// An empty editor for one line.
    pub fn line() -> (e: TextEditor)
        ensures
            e@ == (EditorView { text: Seq::empty(), cursor: 0, multiline: false }),
    {
        let e = TextEditor { text: String::new(), cursor: 0, multiline: false };
        assert(e@.text =~= Seq::<char>::empty());
        e
    }

    /// An empty editor for several lines.
    pub fn multiline() -> (e: TextEditor)
        ensures
            e@ == (EditorView { text: Seq::empty(), cursor: 0, multiline: true }),
    {
        let e = TextEditor { text: String::new(), cursor: 0, multiline: true };
        assert(e@.text =~= Seq::<char>::empty());
        e
    }

    /// An editor with a text in it and the cursor at the end.
    pub fn from_text(text: String, multiline: bool) -> (e: TextEditor)
        ensures
            e@ == (EditorView { text: text@, cursor: text@.len(), multiline }),
    {
        let cursor: usize = text.as_str().unicode_len();
        TextEditor { text, cursor, multiline }
    }

    /// The text.
    pub fn text(&self) -> (s: &str)
        ensures
            s@ == self@.text,
    {
        self.text.as_str()
    }

    /// The text without white space at its ends.
    pub fn trimmed(&self) -> (s: &str)
        ensures
            s@ == crate::text::trimmed(self@.text),
    {
        trim_text(self.text.as_str())
    }

    /// Whether there is no text.
    pub fn is_empty(&self) -> (b: bool)
        ensures
            b == (self@.text.len() == 0),
    {
        self.text.as_str().is_empty()
    }

    /// Where the cursor stands.
    pub fn cursor(&self) -> (n: usize)
        ensures
            n == self@.cursor,
    {
        self.cursor
    }

    /// Takes all text out.
    pub fn clear(&mut self)
        ensures
            final(self)@ == (EditorView { text: Seq::empty(), cursor: 0, ..old(self)@ }),
    {
        self.text = String::new();
        self.cursor = 0;
        assert(self@.text =~= Seq::<char>::empty());
    }

    /// Puts another text in the place of the one that is there.
    pub fn set_text(&mut self, text: String)
        ensures
            final(self)@ == (EditorView { text: text@, cursor: text@.len(), ..old(self)@ }),
    {
        self.cursor = text.as_str().unicode_len();
        self.text = text;
    }

    /// Puts a text in at the cursor.
    pub fn insert_str(&mut self, value: &str)
        requires
            old(self)@.well_formed(),
        ensures
            final(self)@ == old(self)@.typed(value@),
            final(self)@.well_formed(),
    {
        let chars = chars_of(self.text.as_str());
        let before = text_of(&chars, 0, self.cursor);
        let after = text_of(&chars, self.cursor, chars.len());
        assert(before@ =~= self.text@.take(self.cursor as int));
        assert(after@ =~= self.text@.skip(self.cursor as int));
        let whole = concat3(before.as_str(), value, after.as_str());
        let length: usize = whole.as_str().unicode_len();
        let added: usize = value.unicode_len();
        assert(whole@ =~= put_in(self.text@, self.cursor as int, value@));
        assert(length == self.text@.len() + added);
        self.text = whole;
        self.cursor = self.cursor + added;
    }

    /// Puts a character in at the cursor.
    pub fn insert_char(&mut self, character: char)
        requires
            old(self)@.well_formed(),
        ensures
            final(self)@ == old(self)@.typed(seq![character]),
            final(self)@.well_formed(),
    {
        let mut value = String::new();
        value.push(character);
        assert(value@ =~= seq![character]);
        self.insert_str(value.as_str());
    }

    fn take_out(&mut self, at: usize)
        requires
            at < old(self)@.text.len(),
        ensures
            final(self)@ == (EditorView {
                text: taken_out(old(self)@.text, at as int),
                ..old(self)@
            }),
    {
        let chars = chars_of(self.text.as_str());
        let length: usize = chars.len();
        let before = text_of(&chars, 0, at);
        let after = text_of(&chars, at + 1, length);
        assert(before@ =~= self.text@.take(at as int));
        assert(after@ =~= self.text@.skip(at + 1));
        self.text = crate::text::concat(before.as_str(), after.as_str());
    }

    /// Takes the character before the cursor out.
    pub fn backspace(&mut self) -> (b: bool)
        requires
            old(self)@.well_formed(),
        ensures
            final(self)@ == old(self)@.erased(),
            b == (old(self)@.cursor > 0),
            final(self)@.well_formed(),
    {
        if self.cursor == 0 {
            return false;
        }
        let at: usize = self.cursor - 1;
        self.take_out(at);
        self.cursor = at;
        true
    }

    /// Takes the character at the cursor out.
    pub fn delete(&mut self) -> (b: bool)
        requires
            old(self)@.well_formed(),
        ensures
            final(self)@ == old(self)@.cut(),
            b == (old(self)@.cursor < old(self)@.text.len()),
            final(self)@.well_formed(),
    {
        let length: usize = self.text.as_str().unicode_len();
        if self.cursor >= length {
            return false;
        }
        let at: usize = self.cursor;
        self.take_out(at);
        true
    }

    /// Where the cursor's line begins.
    pub fn line_start(&self) -> (n: usize)
        requires
            self@.well_formed(),
        ensures
            n == last_line_start(self@.text.take(self@.cursor as int)),
            n <= self@.cursor,
    {
        let chars = chars_of(self.text.as_str());
        let ghost before = self.text@.take(self.cursor as int);
        let mut n: usize = self.cursor;
        assert(before.take(n as int) =~= before);
        while n > 0 && chars[n - 1] != '\n'
            invariant
                n <= self.cursor <= chars@.len(),
                chars@ == self.text@,
                before == self.text@.take(self.cursor as int),
                last_line_start(before) == last_line_start(before.take(n as int)),
            decreases n,
        {
            assert(before.take(n as int).drop_last() =~= before.take(n - 1));
            n = n - 1;
        }
        n
    }

    /// Where the cursor's line ends.
    pub fn line_end(&self) -> (n: usize)
        requires
            self@.well_formed(),
        ensures
            n == self@.cursor + crate::text::before_char(
                self@.text.skip(self@.cursor as int),
                '\n',
            ),
            n <= self@.text.len(),
    {
        let chars = chars_of(self.text.as_str());
        char_from(&chars, self.cursor, '\n')
    }

    /// The line and the column of the cursor.
    pub fn cursor_line_column(&self) -> (r: (usize, usize))
        requires
            self@.well_formed(),
        ensures
            (r.0 as nat, r.1 as nat) == self@.line_column(),
    {
        let chars = chars_of(self.text.as_str());
        let ghost before = self.text@.take(self.cursor as int);
        let mut line: usize = 0;
        let mut i: usize = 0;
        assert(before.skip(0) =~= before);
        while i < self.cursor
            invariant
                i <= self.cursor <= chars@.len(),
                chars@ == self.text@,
                before == self.text@.take(self.cursor as int),
                line <= i,
                breaks(before) == line + breaks(before.skip(i as int)),
            decreases self.cursor - i,
        {
            assert(before.skip(i as int).skip(1) =~= before.skip(i + 1));
            assert(before.skip(i as int)[0] == chars@[i as int]);
            if chars[i] == '\n' {
                line = line + 1;
            }
            i = i + 1;
        }
        let start: usize = self.line_start();
        (line, self.cursor - start)
    }

    fn count_breaks(&self) -> (n: usize)
        ensures
            n == breaks(self@.text),
            n <= self@.text.len(),
    {
        let chars = chars_of(self.text.as_str());
        let mut n: usize = 0;
        let mut i: usize = 0;
        assert(self.text@.skip(0) =~= self.text@);
        while i < chars.len()
            invariant
                i <= chars@.len(),
                chars@ == self.text@,
                n <= i,
                breaks(self.text@) == n + breaks(self.text@.skip(i as int)),
            decreases chars@.len() - i,
        {
            assert(self.text@.skip(i as int).skip(1) =~= self.text@.skip(i + 1));
            if chars[i] == '\n' {
                n = n + 1;
            }
            i = i + 1;
        }
        n
    }

    /// Moves the cursor up or down so many lines, to the nearest column.
    pub fn move_vertical(&mut self, delta: isize) -> (b: bool)
        requires
            old(self)@.well_formed(),
        ensures
            final(self)@ == old(self)@.moved(delta as int),
            b == line_away(
                old(self)@.line_column().0,
                delta as int,
                breaks(old(self)@.text) + 1,
            ) is Some,
            delta < 0 || b ==> final(self)@.well_formed(),
    {
        let (line, column) = self.cursor_line_column();
        let count: usize = self.count_breaks();
        proof {
            breaks_of_prefix(self.text@, self.cursor as int);
        }
        let target: usize = if delta < 0 {
            let up: usize = (-(delta + 1)) as usize;
            if up >= line {
                return false;
            }
            line - up - 1
        } else {
            let down: usize = delta as usize;
            if down > count - line {
                return false;
            }
            line + down
        };
        let chars = chars_of(self.text.as_str());
        let ghost text = self.text@;
        let mut begin: usize = 0;
        let mut left: usize = target;
        assert(text.skip(0) =~= text);
        while left > 0
            invariant
                begin <= chars@.len(),
                chars@ == text,
                left <= breaks(text.skip(begin as int)),
                line_begin(text, target as nat) == begin + line_begin(
                    text.skip(begin as int),
                    left as nat,
                ),
            decreases left,
        {
            let ghost rest = text.skip(begin as int);
            proof {
                first_break(rest);
            }
            let end: usize = char_from(&chars, begin, '\n');
            let length: usize = chars.len();
            assert(end < length);
            assert(rest.skip(end - begin + 1) =~= text.skip(end + 1));
            begin = end + 1;
            left = left - 1;
        }
        let end: usize = char_from(&chars, begin, '\n');
        let length: usize = end - begin;
        self.cursor = begin + if column < length {
            column
        } else {
            length
        };
        true
    }

    /// Takes a key; `true` if it meant something.
    pub fn handle_key(&mut self, key: KeyEvent) -> (b: bool)
        requires
            old(self)@.well_formed(),
        ensures
            (final(self)@, b) == old(self)@.after_key(key),
            final(self)@.well_formed(),
    {
        proof {
            cursor_stays_in_text(self@, key);
        }
        if key.control || key.alt {
            return false;
        }
        match key.code {
            KeyCode::Char(character) => {
                self.insert_char(character);
                true
            },
            KeyCode::Enter => {
                if !self.multiline {
                    return false;
                }
                self.insert_char('\n');
                true
            },
            KeyCode::Backspace => self.backspace(),
            KeyCode::Delete => self.delete(),
            KeyCode::Left => {
                if self.cursor == 0 {
                    return false;
                }
                self.cursor = self.cursor - 1;
                true
            },
            KeyCode::Right => {
                let length: usize = self.text.as_str().unicode_len();
                if self.cursor >= length {
                    return false;
                }
                self.cursor = self.cursor + 1;
                true
            },
            KeyCode::Home => {
                let start: usize = self.line_start();
                let changed = start != self.cursor;
                self.cursor = start;
                changed
            },
            KeyCode::End => {
                let end: usize = self.line_end();
                let changed = end != self.cursor;
                self.cursor = end;
                changed
            },
            KeyCode::Up => {
                if !self.multiline {
                    return false;
                }
                self.move_vertical(-1)
            },
            KeyCode::Down => {
                if !self.multiline {
                    return false;
                }
                self.move_vertical(1)
            },
            KeyCode::Other => false,
        }
    }
}

/// The characters that are not white space.
pub open spec fn solid(text: Seq<char>) -> Seq<char>
    decreases text.len(),
{
    if text.len() == 0 {
        text
    } else if crate::text::white_space(text.last()) {
        solid(text.drop_last())
    } else {
        solid(text.drop_last()).push(text.last())
    }
}

/// So many of a character.
pub open spec fn repeated(c: char, n: nat) -> Seq<char> {
    Seq::new(n, |i: int| c)
}

/// A secret that is typed. It is shown only as a mask, and its characters are overwritten before the
/// editor is cleared or dropped. The copy that `expose_once` hands out is its holder's to look after.
pub struct SecretEditor {
    characters: Vec<char>,
    cursor: usize,
}

/// The state of an editor for a secret.
pub struct SecretView {
    pub secret: Seq<char>,
    pub cursor: nat,
}

impl View for SecretEditor {
    type V = SecretView;

    closed spec fn view(&self) -> SecretView {
        SecretView { secret: self.characters@, cursor: self.cursor as nat }
    }
}

impl SecretView {
    /// Whether the cursor stands in the secret or at its end.
    pub open spec fn well_formed(self) -> bool {
        self.cursor <= self.secret.len()
    }

    /// The state after characters were put in at the cursor.
    pub open spec fn typed(self, value: Seq<char>) -> SecretView {
        SecretView {
            secret: put_in(self.secret, self.cursor as int, value),
            cursor: self.cursor + value.len(),
        }
    }

    /// The state after a key, and whether the key meant something.
    pub open spec fn after_key(self, key: KeyEvent) -> (SecretView, bool) {
        if key.control || key.alt {
            (self, false)
        } else {
            match key.code {
                KeyCode::Char(c) => if crate::text::white_space(c) {
                    (self, false)
                } else {
                    (self.typed(seq![c]), true)
                },
                KeyCode::Backspace => if self.cursor > 0 {
                    (
                        SecretView {
                            secret: taken_out(self.secret, self.cursor - 1),
                            cursor: (self.cursor - 1) as nat,
                        },
                        true,
                    )
                } else {
                    (self, false)
                },
                KeyCode::Delete => if self.cursor < self.secret.len() {
                    (
                        SecretView { secret: taken_out(self.secret, self.cursor as int), ..self },
                        true,
                    )
                } else {
                    (self, false)
                },
                KeyCode::Left => if self.cursor > 0 {
                    (SecretView { cursor: (self.cursor - 1) as nat, ..self }, true)
                } else {
                    (self, false)
                },
                KeyCode::Right => if self.cursor < self.secret.len() {
                    (SecretView { cursor: self.cursor + 1, ..self }, true)
                } else {
                    (self, false)
                },
                KeyCode::Home => (SecretView { cursor: 0, ..self }, true),
                KeyCode::End => (SecretView { cursor: self.secret.len(), ..self }, true),
                _ => (self, false),
            }
        }
    }
}

impl Drop for SecretEditor {
    /// Overwrites the secret before its room is given back.
    fn drop(&mut self)
        opens_invariants none
        no_unwind
    {
        overwrite(&mut self.characters);
    }
}

impl SecretEditor {
    /// An empty editor.
    pub fn new() -> (e: SecretEditor)
        ensures
            e@ == (SecretView { secret: Seq::empty(), cursor: 0 }),
    {
        let e = SecretEditor { characters: Vec::new(), cursor: 0 };
        assert(e@.secret =~= Seq::<char>::empty());
        e
    }

    /// Whether nothing was typed.
    pub fn is_empty(&self) -> (b: bool)
        ensures
            b == (self@.secret.len() == 0),
    {
        self.characters.len() == 0
    }

    /// What is shown in place of the secret.
    pub fn masked(&self) -> (s: String)
        ensures
            s@ == repeated('•', self@.secret.len()),
    {
        self.masked_for_terminal(true)
    }

    /// What is shown in place of the secret on a terminal with or without such characters.
    pub fn masked_for_terminal(&self, unicode: bool) -> (s: String)
        ensures
            s@ == repeated(
                if unicode {
                    '•'
                } else {
                    '*'
                },
                self@.secret.len(),
            ),
    {
        let mask = if unicode {
            '•'
        } else {
            '*'
        };
        let mut s = String::new();
        let mut i: usize = 0;
        assert(s@ =~= repeated(mask, 0));
        while i < self.characters.len()
            invariant
                i <= self.characters@.len(),
                s@ == repeated(mask, i as nat),
            decreases self.characters@.len() - i,
        {
            s.push(mask);
            assert(s@ =~= repeated(mask, (i + 1) as nat));
            i = i + 1;
        }
        s
    }

    /// Where the cursor stands.
    pub fn cursor(&self) -> (n: usize)
        ensures
            n == self@.cursor,
    {
        self.cursor
    }

    /// The secret, for the one who needs it.
    pub fn expose_once(&self) -> (s: String)
        ensures
            s@ == self@.secret,
    {
        let s = text_of(&self.characters, 0, self.characters.len());
        assert(s@ =~= self.characters@);
        s
    }

    /// Overwrites the secret and takes it out.
    pub fn clear(&mut self)
        ensures
            final(self)@ == (SecretView { secret: Seq::empty(), cursor: 0 }),
    {
        overwrite(&mut self.characters);
        self.characters.clear();
        self.cursor = 0;
        assert(self@.secret =~= Seq::<char>::empty());
    }

    fn put(&mut self, character: char)
        requires
            old(self)@.well_formed(),
        ensures
            final(self)@ == old(self)@.typed(seq![character]),
            final(self)@.well_formed(),
    {
        let ghost before = self@;
        let at: usize = self.cursor;
        self.characters.insert(at, character);
        let length: usize = self.characters.len();
        assert(length == before.secret.len() + 1);
        self.cursor = at + 1;
        assert(self@.secret =~= put_in(before.secret, at as int, seq![character]));
    }

    /// Puts the characters of a text that are not white space in at the cursor.
    pub fn insert_str(&mut self, value: &str)
        requires
            old(self)@.well_formed(),
        ensures
            final(self)@ == old(self)@.typed(solid(value@)),
            final(self)@.well_formed(),
    {
        let ghost before = self@;
        let chars = chars_of(value);
        let mut i: usize = 0;
        assert(value@.take(0) =~= Seq::<char>::empty());
        assert(self@.secret =~= put_in(before.secret, before.cursor as int, Seq::empty()));
        while i < chars.len()
            invariant
                i <= chars@.len(),
                chars@ == value@,
                before.well_formed(),
                self@ == before.typed(solid(value@.take(i as int))),
                self@.well_formed(),
            decreases chars@.len() - i,
        {
            assert(value@.take(i + 1).drop_last() =~= value@.take(i as int));
            let ghost kept = solid(value@.take(i as int));
            if !is_white_space(chars[i]) {
                self.put(chars[i]);
                proof {
                    let at = before.cursor as int;
                    assert(self@.secret =~= put_in(before.secret, at, kept.push(value@[i as int])));
                }
            }
            i = i + 1;
        }
        assert(value@.take(value@.len() as int) =~= value@);
    }

    /// Takes a key; `true` if it meant something.
    pub fn handle_key(&mut self, key: KeyEvent) -> (b: bool)
        requires
            old(self)@.well_formed(),
        ensures
            (final(self)@, b) == old(self)@.after_key(key),
            final(self)@.well_formed(),
    {
        let ghost before = self@;
        if key.control || key.alt {
            return false;
        }
        match key.code {
            KeyCode::Char(character) => {
                if is_white_space(character) {
                    return false;
                }
                self.put(character);
                true
            },
            KeyCode::Backspace => {
                if self.cursor == 0 {
                    return false;
                }
                let at: usize = self.cursor - 1;
                self.characters.set(at, '\0');
                self.characters.remove(at);
                self.cursor = at;
                assert(self@.secret =~= taken_out(before.secret, at as int));
                true
            },
            KeyCode::Delete => {
                if self.cursor >= self.characters.len() {
                    return false;
                }
                let at: usize = self.cursor;
                self.characters.set(at, '\0');
                self.characters.remove(at);
                assert(self@.secret =~= taken_out(before.secret, at as int));
                true
            },
            KeyCode::Left => {
                if self.cursor == 0 {
                    return false;
                }
                self.cursor = self.cursor - 1;
                true
            },
            KeyCode::Right => {
                if self.cursor >= self.characters.len() {
                    return false;
                }
                self.cursor = self.cursor + 1;
                true
            },
            KeyCode::Home => {
                self.cursor = 0;
                true
            },
            KeyCode::End => {
                self.cursor = self.characters.len();
                true
            },
            _ => false,
        }
    }
}

/// What is shown in place of two secrets of the same length is the same: it tells nothing of them
/// but their length.
pub proof fn masks_tell_length_only(a: SecretView, b: SecretView, mask: char)
    ensures
        a.secret.len() == b.secret.len() ==> repeated(mask, a.secret.len()) == repeated(
            mask,
            b.secret.len(),
        ),
        forall|i: int|
            0 <= i < a.secret.len() ==> (#[trigger] repeated(mask, a.secret.len())[i]) == mask,
{
}

} // verus!
