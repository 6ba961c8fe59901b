//! Keys, and the text field for custom arguments.
use vstd::prelude::*;
use vstd::string::StrSliceExecFns;
use vstd::utf8::encode_utf8;

verus! {

/// A key, as far as the application tells keys apart.
#[derive(Debug, Clone, Copy, PartialEq, Eq, Structural)]
pub enum KeyCode {
    Char(char),
    Esc,
    Enter,
    Backspace,
    Delete,
    Left,
    Right,
    Home,
    End,
    Up,
    Down,
    PageUp,
    PageDown,
    Tab,
    BackTab,
    Other,
}

/// A key press.
#[derive(Debug, Clone, Copy, PartialEq, Eq, Structural)]
pub struct KeyEvent {
    pub code: KeyCode,
    /// Whether the control modifier is held.
    pub control: bool,
}

impl From<KeyCode> for KeyEvent {
    fn from(code: KeyCode) -> (key: Self) {
        KeyEvent { code, control: false }
    }
}

impl vstd::std_specs::convert::FromSpecImpl<KeyCode> for KeyEvent {
    open spec fn obeys_from_spec() -> bool {
        true
    }

    open spec fn from_spec(code: KeyCode) -> Self {
        KeyEvent { code, control: false }
    }
}

/// The number of bytes in front of the `n`th character.
pub open spec fn byte_offset(s: Seq<char>, n: int) -> int {
    encode_utf8(s.take(n)).len() as int
}

/// `String::insert` inserts a character at a byte position, which must be the
/// boundary of a character. A string holds at most `isize::MAX` bytes.
pub assume_specification[ String::insert ](s: &mut String, idx: usize, ch: char)
    requires
        exists|n: int| 0 <= n <= old(s)@.len() && idx == #[trigger] byte_offset(old(s)@, n),
    ensures
        forall|n: int|
            0 <= n <= old(s)@.len() && idx == #[trigger] byte_offset(old(s)@, n) ==> final(s)@
                == old(s)@.insert(n, ch),
        final(s)@.len() <= isize::MAX,
;

/// `String::remove` removes the character at a byte position, which must be
/// where one begins, and returns it.
pub assume_specification[ String::remove ](s: &mut String, idx: usize) -> (ch: char)
    requires
        exists|n: int| 0 <= n < old(s)@.len() && idx == #[trigger] byte_offset(old(s)@, n),
    ensures
        forall|n: int|
            0 <= n < old(s)@.len() && idx == #[trigger] byte_offset(old(s)@, n) ==> final(s)@
                == old(s)@.remove(n) && ch == old(s)@[n],
;

/// State of the custom-arguments field. The cursor is counted in characters,
/// not bytes, so editing multi-byte input stays sound.
pub struct ArgsInput {
    pub buffer: String,
    pub cursor: usize,
}

impl Default for ArgsInput {
    fn default() -> (input: Self)
        ensures
            input.buffer@ == Seq::<char>::empty(),
            input.cursor == 0,
    {
        ArgsInput { buffer: String::new(), cursor: 0 }
    }
}

/// The model of the field: its characters, and the position of the cursor
/// among them.
pub struct FieldModel {
    pub text: Seq<char>,
    pub cursor: int,
}

impl FieldModel {
    /// The cursor stands at a character or behind the last.
    pub open spec fn wf(self) -> bool {
        0 <= self.cursor <= self.text.len()
    }

    /// A character typed at the cursor.
    pub open spec fn typed(self, c: char) -> FieldModel {
        FieldModel { text: self.text.insert(self.cursor, c), cursor: self.cursor + 1 }
    }

    /// The character in front of the cursor removed.
    pub open spec fn erased_back(self) -> FieldModel {
        if self.cursor > 0 {
            FieldModel { text: self.text.remove(self.cursor - 1), cursor: self.cursor - 1 }
        } else {
            self
        }
    }

    /// The character at the cursor removed.
    pub open spec fn erased(self) -> FieldModel {
        if self.cursor < self.text.len() {
            FieldModel { text: self.text.remove(self.cursor), ..self }
        } else {
            self
        }
    }

    /// The cursor moved to a position.
    pub open spec fn at(self, cursor: int) -> FieldModel {
        FieldModel { cursor, ..self }
    }

    /// What a key press does to the field. Keys that it does not know, and
    /// characters with the control modifier, do nothing.
    pub open spec fn pressed(self, key: KeyEvent) -> FieldModel {
        match key.code {
            KeyCode::Char(c) => if key.control {
                self
            } else {
                self.typed(c)
            },
            KeyCode::Backspace => self.erased_back(),
            KeyCode::Delete => self.erased(),
            KeyCode::Left => if self.cursor > 0 {
                self.at(self.cursor - 1)
            } else {
                self
            },
            KeyCode::Right => if self.cursor < self.text.len() {
                self.at(self.cursor + 1)
            } else {
                self
            },
            KeyCode::Home => self.at(0),
            KeyCode::End => self.at(self.text.len() as int),
            _ => self,
        }
    }
}

impl View for ArgsInput {
    type V = FieldModel;

    open spec fn view(&self) -> FieldModel {
        FieldModel { text: self.buffer@, cursor: self.cursor as int }
    }
}

impl ArgsInput {
    /// Byte offset of the character cursor, for edits of the buffer.
    pub fn byte_cursor(&self) -> (at: usize)
        requires
            self@.wf(),
        ensures
            at == byte_offset(self.buffer@, self.cursor as int),
    {
        let front = self.buffer.as_str().substring_char(0, self.cursor);
        assert(front@ =~= self.buffer@.take(self.cursor as int));
        front.as_bytes().len()
    }

    /// Number of characters in the field.
    pub fn len_chars(&self) -> (n: usize)
        ensures
            n == self.buffer@.len(),
    {
        self.buffer.as_str().unicode_len()
    }

    /// Types a character at the cursor.
    pub fn insert(&mut self, c: char)
        requires
            old(self)@.wf(),
        ensures
            final(self)@ == old(self)@.typed(c),
            final(self)@.wf(),
    {
        let at = self.byte_cursor();
        self.buffer.insert(at, c);
        self.cursor += 1;
    }

    /// Removes the character in front of the cursor, if there is one.
    pub fn backspace(&mut self)
        requires
            old(self)@.wf(),
        ensures
            final(self)@ == old(self)@.erased_back(),
            final(self)@.wf(),
    {
        if self.cursor > 0 {
            self.cursor -= 1;
            let at = self.byte_cursor();
            self.buffer.remove(at);
        }
    }

    /// Removes the character at the cursor, if there is one.
    pub fn delete(&mut self)
        requires
            old(self)@.wf(),
        ensures
            final(self)@ == old(self)@.erased(),
            final(self)@.wf(),
    {
        if self.cursor < self.len_chars() {
            let at = self.byte_cursor();
            self.buffer.remove(at);
        }
    }

    /// Handles a key press in the field.
    pub fn press(&mut self, key: KeyEvent)
        requires
            old(self)@.wf(),
        ensures
            final(self)@ == old(self)@.pressed(key),
            final(self)@.wf(),
    {
        match key.code {
            KeyCode::Char(c) => {
                if !key.control {
                    self.insert(c);
                }
            },
            KeyCode::Backspace => self.backspace(),
            KeyCode::Delete => self.delete(),
            KeyCode::Left => {
                self.cursor = self.cursor.saturating_sub(1);
            },
            KeyCode::Right => {
                if self.cursor < self.len_chars() {
                    self.cursor += 1;
                }
            },
            KeyCode::Home => {
                self.cursor = 0;
            },
            KeyCode::End => {
                self.cursor = self.len_chars();
            },
            _ => {},
        }
    }
}

/// The field after a row of characters is typed.
pub open spec fn typed_all(field: FieldModel, row: Seq<char>) -> FieldModel
    decreases row.len(),
{
    if row.len() == 0 {
        field
    } else {
        typed_all(field, row.drop_last()).typed(row.last())
    }
}

/// Typing a row of characters puts it at the cursor, which ends up behind it.
pub proof fn lemma_typing(field: FieldModel, row: Seq<char>)
    requires
        field.wf(),
    ensures
        typed_all(field, row).text == field.text.take(field.cursor) + row + field.text.skip(
            field.cursor,
        ),
        typed_all(field, row).cursor == field.cursor + row.len(),
    decreases row.len(),
{
    let head = field.text.take(field.cursor);
    let tail = field.text.skip(field.cursor);
    if row.len() == 0 {
        assert(head + row + tail =~= field.text);
    } else {
        let front = row.drop_last();
        lemma_typing(field, front);
        assert((head + front + tail).insert((field.cursor + front.len()) as int, row.last()) =~= head
            + row + tail);
    }
}

/// Backspace takes back what was just typed.
pub proof fn lemma_backspace_undoes_typing(field: FieldModel, c: char)
    requires
        field.wf(),
    ensures
        field.typed(c).erased_back() == field,
{
    assert(field.typed(c).erased_back().text =~= field.text);
}

/// What each key does to the field. A character goes in at the cursor, which moves
/// behind it; the two erasing keys take out the character on their side of the
/// cursor, and nothing where there is none; the others move the cursor within the
/// text and leave the text alone.
pub proof fn lemma_keys_in_field(field: FieldModel, key: KeyEvent)
    requires
        field.wf(),
    ensures
        field.pressed(key).wf(),
        key.code is Char && !key.control ==> {
            &&& field.pressed(key).text == field.text.take(field.cursor).push(key.code->Char_0)
                + field.text.skip(field.cursor)
            &&& field.pressed(key).cursor == field.cursor + 1
        },
        key.code is Char && key.control ==> field.pressed(key) == field,
        key.code is Backspace && field.cursor > 0 ==> {
            &&& field.pressed(key).text == field.text.take(field.cursor - 1) + field.text.skip(
                field.cursor,
            )
            &&& field.pressed(key).cursor == field.cursor - 1
        },
        key.code is Delete && field.cursor < field.text.len() ==> {
            &&& field.pressed(key).text == field.text.take(field.cursor) + field.text.skip(
                field.cursor + 1,
            )
            &&& field.pressed(key).cursor == field.cursor
        },
        key.code is Backspace && field.cursor == 0 ==> field.pressed(key) == field,
        key.code is Delete && field.cursor == field.text.len() ==> field.pressed(key) == field,
        !(key.code is Char) && !(key.code is Backspace) && !(key.code is Delete) ==> field.pressed(
            key,
        ).text == field.text,
        key.code is Left ==> field.pressed(key).cursor == if field.cursor == 0 {
            0
        } else {
            field.cursor - 1
        },
        key.code is Right ==> field.pressed(key).cursor == if field.cursor == field.text.len() {
            field.cursor
        } else {
            field.cursor + 1
        },
        key.code is Home ==> field.pressed(key).cursor == 0,
        key.code is End ==> field.pressed(key).cursor == field.text.len(),
        key.code is Up || key.code is Down || key.code is PageUp || key.code is PageDown
            || key.code is Tab || key.code is BackTab || key.code is Other ==> field.pressed(key)
            == field,
{
    match key.code {
        KeyCode::Char(c) => {
            assert(field.typed(c).text =~= field.text.take(field.cursor).push(c) + field.text.skip(
                field.cursor,
            ));
        },
        KeyCode::Backspace => {
            if field.cursor > 0 {
                assert(field.erased_back().text =~= field.text.take(field.cursor - 1)
                    + field.text.skip(field.cursor));
            }
        },
        KeyCode::Delete => {
            if field.cursor < field.text.len() {
                assert(field.erased().text =~= field.text.take(field.cursor) + field.text.skip(
                    field.cursor + 1,
                ));
            }
        },
        _ => {},
    }
}

} // verus!
