//! The on-screen keyboard drawn by the launcher itself: a grid of keys moved over
//! with the gamepad, editing a text value.
use vstd::prelude::*;

use crate::text::{ascii_upper_char, to_ascii_upper_char};

verus! {

/// A key pressed by pointing at it.
#[derive(Debug, Clone, PartialEq, Eq, Structural)]
pub enum KeyboardMessage {
    Press(usize, usize),
}

/// What a key press produced.
#[derive(Debug, Clone)]
pub enum KeyboardOutput {
    Nothing,
    Input(String),
    Submit,
}

#[derive(Debug, Clone, Copy, PartialEq, Eq, Structural)]
pub enum LayoutType {
    Qwerty,
    Symbols,
}

#[derive(Debug, Clone, Copy, PartialEq, Eq, Structural)]
pub enum KeyType {
    Char(char),
    Shift,
    LayoutToggle,
    Space,
    Backspace,
    Submit,
}

/// One key of a layout: its label (for the special keys), what it does, and how
/// many units wide it is drawn.
#[derive(Debug, Clone, Copy)]
pub struct KeyDef {
    pub label: &'static str,
    pub key_type: KeyType,
    pub width_units: u16,
}

impl KeyDef {
    pub fn char(c: char) -> (r: Self)
        ensures
            r.label@ == ""@,
            r.key_type == KeyType::Char(c),
            r.width_units == 1,
    {
        KeyDef { label: "", key_type: KeyType::Char(c), width_units: 1 }
    }

    pub fn special(label: &'static str, key_type: KeyType, width_units: u16) -> (r: Self)
        ensures
            r.label == label,
            r.key_type == key_type,
            r.width_units == width_units,
    {
        KeyDef { label, key_type, width_units }
    }
}

// ---------------------------------------------------------------------------
// The two layouts
// ---------------------------------------------------------------------------

pub open spec fn layout_rows() -> nat {
    5
}

pub open spec fn row_len(row: int) -> nat {
    if row == 0 || row == 1 {
        10
    } else if row == 2 || row == 3 {
        9
    } else if row == 4 {
        3
    } else {
        0
    }
}

pub open spec fn in_layout(row: int, col: int) -> bool {
    0 <= row < layout_rows() && 0 <= col < row_len(row)
}

/// The characters of the character keys of a row (for row 3, the keys between
/// Shift and Backspace).
pub open spec fn row_chars(l: LayoutType, row: int) -> Seq<char> {
    match l {
        LayoutType::Qwerty => if row == 0 {
            seq!['1', '2', '3', '4', '5', '6', '7', '8', '9', '0']
        } else if row == 1 {
            seq!['q', 'w', 'e', 'r', 't', 'y', 'u', 'i', 'o', 'p']
        } else if row == 2 {
            seq!['a', 's', 'd', 'f', 'g', 'h', 'j', 'k', 'l']
        } else {
            seq!['z', 'x', 'c', 'v', 'b', 'n', 'm']
        },
        LayoutType::Symbols => if row == 0 {
            seq!['1', '2', '3', '4', '5', '6', '7', '8', '9', '0']
        } else if row == 1 {
            seq!['!', '@', '#', '$', '%', '^', '&', '*', '(', ')']
        } else if row == 2 {
            seq!['-', '_', '=', '+', '[', ']', '{', '}', '\\']
        } else {
            seq![';', ':', '\'', '"', ',', '.', '?']
        },
    }
}

/// What the key at `(row, col)` of layout `l` does.
pub open spec fn key_spec(l: LayoutType, row: int, col: int) -> KeyType {
    if row == 3 && col == 0 {
        KeyType::Shift
    } else if row == 3 && col == 8 {
        KeyType::Backspace
    } else if row == 3 {
        KeyType::Char(row_chars(l, 3)[col - 1])
    } else if row == 4 {
        if col == 0 {
            KeyType::LayoutToggle
        } else if col == 1 {
            KeyType::Space
        } else {
            KeyType::Submit
        }
    } else {
        KeyType::Char(row_chars(l, row)[col])
    }
}

pub open spec fn key_width(row: int, col: int) -> u16 {
    if row == 3 && (col == 0 || col == 8) {
        2
    } else if row == 4 {
        if col == 1 {
            5
        } else {
            2
        }
    } else {
        1
    }
}

pub open spec fn key_label_spec(l: LayoutType, row: int, col: int) -> Seq<char> {
    if row == 3 && col == 0 {
        "Shift"@
    } else if row == 3 && col == 8 {
        "Bksp"@
    } else if row == 4 && col == 0 {
        match l {
            LayoutType::Qwerty => "Sym"@,
            LayoutType::Symbols => "ABC"@,
        }
    } else if row == 4 && col == 1 {
        "Space"@
    } else if row == 4 {
        "OK"@
    } else {
        ""@
    }
}

pub open spec fn key_ok(k: KeyDef, l: LayoutType, row: int, col: int) -> bool {
    &&& k.key_type == key_spec(l, row, col)
    &&& k.width_units == key_width(row, col)
    &&& k.label@ == key_label_spec(l, row, col)
}

fn row_char(l: LayoutType, row: usize, i: usize) -> (c: char)
    requires
        row <= 3,
        i < row_chars(l, row as int).len(),
    ensures
        c == row_chars(l, row as int)[i as int],
{
    match l {
        LayoutType::Qwerty => if row == 0 {
            let a = ['1', '2', '3', '4', '5', '6', '7', '8', '9', '0'];
            a[i]
        } else if row == 1 {
            let a = ['q', 'w', 'e', 'r', 't', 'y', 'u', 'i', 'o', 'p'];
            a[i]
        } else if row == 2 {
            let a = ['a', 's', 'd', 'f', 'g', 'h', 'j', 'k', 'l'];
            a[i]
        } else {
            let a = ['z', 'x', 'c', 'v', 'b', 'n', 'm'];
            a[i]
        },
        LayoutType::Symbols => if row == 0 {
            let a = ['1', '2', '3', '4', '5', '6', '7', '8', '9', '0'];
            a[i]
        } else if row == 1 {
            let a = ['!', '@', '#', '$', '%', '^', '&', '*', '(', ')'];
            a[i]
        } else if row == 2 {
            let a = ['-', '_', '=', '+', '[', ']', '{', '}', '\\'];
            a[i]
        } else {
            let a = [';', ':', '\'', '"', ',', '.', '?'];
            a[i]
        },
    }
}

/// The key at `(row, col)` of layout `l`.
pub fn key_at(l: LayoutType, row: usize, col: usize) -> (k: KeyDef)
    requires
        in_layout(row as int, col as int),
    ensures
        key_ok(k, l, row as int, col as int),
{
    if row == 3 && col == 0 {
        KeyDef::special("Shift", KeyType::Shift, 2)
    } else if row == 3 && col == 8 {
        KeyDef::special("Bksp", KeyType::Backspace, 2)
    } else if row == 3 {
        KeyDef::char(row_char(l, 3, col - 1))
    } else if row == 4 {
        if col == 0 {
            match l {
                LayoutType::Qwerty => KeyDef::special("Sym", KeyType::LayoutToggle, 2),
                LayoutType::Symbols => KeyDef::special("ABC", KeyType::LayoutToggle, 2),
            }
        } else if col == 1 {
            KeyDef::special("Space", KeyType::Space, 5)
        } else {
            KeyDef::special("OK", KeyType::Submit, 2)
        }
    } else {
        KeyDef::char(row_char(l, row, col))
    }
}

/// Number of keys in `row` (0 for a row outside the layout).
pub fn row_length(row: usize) -> (r: usize)
    ensures
        r == row_len(row as int),
{
    if row == 0 || row == 1 {
        10
    } else if row == 2 || row == 3 {
        9
    } else if row == 4 {
        3
    } else {
        0
    }
}

// ---------------------------------------------------------------------------
// Strings
// ---------------------------------------------------------------------------

/// Length in bytes of the UTF-8 encoding (`str::len`).
pub open spec fn byte_len(s: Seq<char>) -> nat {
    vstd::utf8::encode_utf8(s).len()
}

/// The number of bytes of the string's UTF-8 encoding (`str::len`), which is the
/// length of the byte slice the string is stored in.
pub(crate) fn str_byte_len(s: &str) -> (r: usize)
    ensures
        r == byte_len(s@),
{
    s.as_bytes().len()
}

/// `String::push`.
#[verifier::external_body]
pub(crate) fn push_char(s: &mut String, c: char)
    ensures
        final(s)@ == old(s)@.push(c),
{
    s.push(c)
}

/// `String::pop`.
#[verifier::external_body]
pub(crate) fn pop_char(s: &mut String) -> (r: Option<char>)
    ensures
        old(s)@.len() == 0 ==> r is None && final(s)@ == old(s)@,
        old(s)@.len() > 0 ==> r == Some(old(s)@.last()) && final(s)@ == old(s)@.drop_last(),
{
    s.pop()
}

/// `char::to_string`.
fn char_string(c: char) -> (r: String)
    ensures
        r@ == seq![c],
{
    let mut s = String::new();
    push_char(&mut s, c);
    s
}

// ---------------------------------------------------------------------------
// The keyboard
// ---------------------------------------------------------------------------

#[derive(Debug)]
pub struct VirtualKeyboard {
    pub value: String,
    pub cursor: (usize, usize),
    pub layout: LayoutType,
    pub shift: bool,
    pub max_length: Option<usize>,
    pub password_mode: bool,
}

impl Clone for VirtualKeyboard {
    fn clone(&self) -> (r: Self)
        ensures
            r == *self,
    {
        VirtualKeyboard {
            value: self.value.clone(),
            cursor: self.cursor,
            layout: self.layout,
            shift: self.shift,
            max_length: self.max_length,
            password_mode: self.password_mode,
        }
    }
}

/// Is there room for one more character under the length limit?
pub open spec fn has_room(value: Seq<char>, max_length: Option<usize>) -> bool {
    match max_length {
        Some(m) => byte_len(value) < m,
        None => true,
    }
}

pub open spec fn shifted(c: char, shift: bool) -> char {
    if shift {
        ascii_upper_char(c)
    } else {
        c
    }
}

pub open spec fn output_is_input(o: KeyboardOutput, v: Seq<char>) -> bool {
    o matches KeyboardOutput::Input(s) && s@ == v
}

/// What one call of the keyboard (a cursor move, a key press on the layout, a
/// backspace) can do to the typed text: leave it, take its last character away, or,
/// when the length limit leaves room, add one ASCII character.  The limit itself
/// stays.
pub open spec fn value_step(a: VirtualKeyboard, b: VirtualKeyboard) -> bool {
    &&& b.max_length == a.max_length
    &&& {
        ||| b.value@ == a.value@
        ||| (a.value@.len() > 0 && b.value@ == a.value@.drop_last())
        ||| (has_room(a.value@, a.max_length) && exists|c: char|
            (c as u32) < 128 && b.value@ == #[trigger] a.value@.push(c))
    }
}

/// The cursor after it was moved to `(row, col)` in a layout: brought back onto the
/// last row, then onto the last key of its row.
pub open spec fn clamped(cursor: (usize, usize)) -> (usize, usize) {
    let row = if cursor.0 >= layout_rows() {
        (layout_rows() - 1) as usize
    } else {
        cursor.0
    };
    let col = if cursor.1 >= row_len(row as int) {
        (row_len(row as int) - 1) as usize
    } else {
        cursor.1
    };
    (row, col)
}

impl VirtualKeyboard {
    /// The state after pressing `key`, and what it produced.
    pub open spec fn press_spec(self, key: KeyType, post: Self, out: KeyboardOutput) -> bool {
        match key {
            KeyType::Char(c) => if has_room(self.value@, self.max_length) {
                &&& post == Self { value: post.value, ..self }
                &&& post.value@ == self.value@.push(shifted(c, self.shift))
                &&& output_is_input(out, post.value@)
            } else {
                post == self && out is Nothing
            },
            KeyType::Space => if has_room(self.value@, self.max_length) {
                &&& post == Self { value: post.value, ..self }
                &&& post.value@ == self.value@.push(' ')
                &&& output_is_input(out, post.value@)
            } else {
                post == self && out is Nothing
            },
            KeyType::Backspace => self.backspace_spec(post, out),
            KeyType::Submit => post == self && out is Submit,
            KeyType::Shift => post == Self { shift: !self.shift, ..self } && out is Nothing,
            KeyType::LayoutToggle => {
                &&& post == Self {
                    layout: match self.layout {
                        LayoutType::Qwerty => LayoutType::Symbols,
                        LayoutType::Symbols => LayoutType::Qwerty,
                    },
                    cursor: clamped(self.cursor),
                    ..self
                }
                &&& out is Nothing
            },
        }
    }

    pub open spec fn backspace_spec(self, post: Self, out: KeyboardOutput) -> bool {
        if self.value@.len() > 0 {
            &&& post == Self { value: post.value, ..self }
            &&& post.value@ == self.value@.drop_last()
            &&& output_is_input(out, post.value@)
        } else {
            post == self && out is Nothing
        }
    }

    pub fn new(initial_value: String) -> (r: Self)
        ensures
            r.value == initial_value,
            r.cursor == (1usize, 0usize),
            r.layout == LayoutType::Qwerty,
            !r.shift,
            r.max_length is None,
            !r.password_mode,
    {
        VirtualKeyboard {
            value: initial_value,
            cursor: (1, 0),
            layout: LayoutType::Qwerty,
            shift: false,
            max_length: None,
            password_mode: false,
        }
    }

    pub fn with_max_length(self, max_length: usize) -> (r: Self)
        ensures
            r == (Self { max_length: Some(max_length), ..self }),
    {
        let mut s = self;
        s.max_length = Some(max_length);
        s
    }

    pub fn password(self) -> (r: Self)
        ensures
            r == (Self { password_mode: true, ..self }),
    {
        let mut s = self;
        s.password_mode = true;
        s
    }

    pub fn value(&self) -> (r: &str)
        ensures
            r@ == self.value@,
    {
        self.value.as_str()
    }

    pub fn set_value(&mut self, value: String)
        ensures
            *final(self) == (Self { value, ..*old(self) }),
    {
        self.value = value;
    }

    /// The text shown in the input field: one `*` per byte of the value in password
    /// mode, the value itself otherwise.
    pub fn display_value(&self) -> (r: String)
        ensures
            self.password_mode ==> r@ == Seq::new(byte_len(self.value@), |_i: int| '*'),
            !self.password_mode ==> r@ == self.value@,
    {
        if self.password_mode {
            let n = str_byte_len(self.value.as_str());
            let mut s = String::new();
            let mut i: usize = 0;
            while i < n
                invariant
                    i <= n,
                    s@ == Seq::new(i as nat, |_i: int| '*'),
                decreases n - i,
            {
                push_char(&mut s, '*');
                i += 1;
                assert(s@ =~= Seq::new(i as nat, |_i: int| '*'));
            }
            s
        } else {
            self.value.clone()
        }
    }

    pub fn move_up(&mut self)
        ensures
            old(self).cursor.0 > 0 ==> *final(self) == (Self {
                cursor: clamped((((old(self).cursor.0 - 1) as usize), old(self).cursor.1)),
                ..*old(self)
            }),
            old(self).cursor.0 == 0 ==> *final(self) == *old(self),
            value_step(*old(self), *final(self)),
    {
        if self.cursor.0 > 0 {
            self.cursor.0 = self.cursor.0 - 1;
            self.clamp_cursor();
        }
    }

    pub fn move_down(&mut self)
        ensures
            old(self).cursor.0 + 1 < layout_rows() ==> *final(self) == (Self {
                cursor: clamped((((old(self).cursor.0 + 1) as usize), old(self).cursor.1)),
                ..*old(self)
            }),
            old(self).cursor.0 + 1 >= layout_rows() ==> *final(self) == *old(self),
            value_step(*old(self), *final(self)),
    {
        if self.cursor.0 < 4 {
            self.cursor.0 = self.cursor.0 + 1;
            self.clamp_cursor();
        }
    }

    pub fn move_left(&mut self)
        ensures
            old(self).cursor.1 > 0 ==> *final(self) == (Self {
                cursor: (old(self).cursor.0, (old(self).cursor.1 - 1) as usize),
                ..*old(self)
            }),
            old(self).cursor.1 == 0 ==> *final(self) == *old(self),
            value_step(*old(self), *final(self)),
    {
        if self.cursor.1 > 0 {
            self.cursor.1 = self.cursor.1 - 1;
        }
    }

    pub fn move_right(&mut self)
        ensures
            old(self).cursor.1 + 1 < row_len(old(self).cursor.0 as int) ==> *final(self) == (Self {
                cursor: (old(self).cursor.0, (old(self).cursor.1 + 1) as usize),
                ..*old(self)
            }),
            old(self).cursor.1 + 1 >= row_len(old(self).cursor.0 as int) ==> *final(self)
                == *old(self),
            value_step(*old(self), *final(self)),
    {
        let n = row_length(self.cursor.0);
        if self.cursor.1 < n && self.cursor.1 + 1 < n {
            self.cursor.1 = self.cursor.1 + 1;
        }
    }

    /// Presses the key under the cursor, if there is one.
    pub fn select_current(&mut self) -> (r: KeyboardOutput)
        ensures
            in_layout(old(self).cursor.0 as int, old(self).cursor.1 as int) ==> old(
                self,
            ).press_spec(
                key_spec(old(self).layout, old(self).cursor.0 as int, old(self).cursor.1 as int),
                *final(self),
                r,
            ),
            !in_layout(old(self).cursor.0 as int, old(self).cursor.1 as int) ==> *final(self)
                == *old(self) && r is Nothing,
            value_step(*old(self), *final(self)),
    {
        let (row, col) = self.cursor;
        if row < 5 && col < row_length(row) {
            let key = key_at(self.layout, row, col);
            let ghost before = *self;
            let r = self.handle_key_press(key);
            proof {
                lemma_layout_press_is_a_step(before, row as int, col as int, *self, r);
            }
            r
        } else {
            KeyboardOutput::Nothing
        }
    }

    /// Removes the last character of the value.
    pub fn backspace(&mut self) -> (r: KeyboardOutput)
        ensures
            old(self).backspace_spec(*final(self), r),
            value_step(*old(self), *final(self)),
    {
        if self.value.as_str().is_empty() {
            KeyboardOutput::Nothing
        } else {
            pop_char(&mut self.value);
            KeyboardOutput::Input(self.value.clone())
        }
    }

    /// Moves the cursor to the pressed key and presses it.
    pub fn handle_message(&mut self, message: KeyboardMessage) -> (r: KeyboardOutput)
        ensures
            match message {
                KeyboardMessage::Press(row, col) => {
                    let moved = Self { cursor: (row, col), ..*old(self) };
                    if in_layout(row as int, col as int) {
                        moved.press_spec(key_spec(old(self).layout, row as int, col as int), *final(self), r)
                    } else {
                        *final(self) == moved && r is Nothing
                    }
                },
            },
            value_step(*old(self), *final(self)),
    {
        match message {
            KeyboardMessage::Press(row, col) => {
                self.cursor = (row, col);
                self.select_current()
            },
        }
    }

    pub fn clamp_cursor(&mut self)
        ensures
            *final(self) == (Self { cursor: clamped(old(self).cursor), ..*old(self) }),
    {
        if self.cursor.0 >= 5 {
            self.cursor.0 = 4;
        }
        let n = row_length(self.cursor.0);
        if self.cursor.1 >= n {
            self.cursor.1 = n - 1;
        }
    }

    pub fn handle_key_press(&mut self, key: KeyDef) -> (r: KeyboardOutput)
        ensures
            old(self).press_spec(key.key_type, *final(self), r),
    {
        match key.key_type {
            KeyType::Char(c) => {
                if let Some(max) = self.max_length {
                    if str_byte_len(self.value.as_str()) >= max {
                        return KeyboardOutput::Nothing;
                    }
                }
                let ch = if self.shift {
                    to_ascii_upper_char(c)
                } else {
                    c
                };
                push_char(&mut self.value, ch);
                KeyboardOutput::Input(self.value.clone())
            },
            KeyType::Space => {
                if let Some(max) = self.max_length {
                    if str_byte_len(self.value.as_str()) >= max {
                        return KeyboardOutput::Nothing;
                    }
                }
                push_char(&mut self.value, ' ');
                KeyboardOutput::Input(self.value.clone())
            },
            KeyType::Backspace => self.backspace(),
            KeyType::Submit => KeyboardOutput::Submit,
            KeyType::Shift => {
                self.shift = !self.shift;
                KeyboardOutput::Nothing
            },
            KeyType::LayoutToggle => {
                self.layout =
                    match self.layout {
                        LayoutType::Qwerty => LayoutType::Symbols,
                        LayoutType::Symbols => LayoutType::Qwerty,
                    };
                self.clamp_cursor();
                KeyboardOutput::Nothing
            },
        }
    }

    /// The text drawn on a key.
    pub fn key_label(&self, key: KeyDef) -> (r: String)
        ensures
            match key.key_type {
                KeyType::Char(c) => r@ == seq![shifted(c, self.shift)],
                KeyType::LayoutToggle => r@ == match self.layout {
                    LayoutType::Qwerty => "Sym"@,
                    LayoutType::Symbols => "ABC"@,
                },
                KeyType::Shift => r@ == if self.shift {
                    "SHIFT"@
                } else {
                    "Shift"@
                },
                _ => r@ == key.label@,
            },
    {
        match key.key_type {
            KeyType::Char(c) => {
                if self.shift {
                    char_string(to_ascii_upper_char(c))
                } else {
                    char_string(c)
                }
            },
            KeyType::LayoutToggle => match self.layout {
                LayoutType::Qwerty => String::from_str("Sym"),
                LayoutType::Symbols => String::from_str("ABC"),
            },
            KeyType::Shift => {
                if self.shift {
                    String::from_str("SHIFT")
                } else {
                    String::from_str("Shift")
                }
            },
            _ => String::from_str(key.label),
        }
    }

    /// The rows of keys of the current layout.
    pub fn current_layout(&self) -> (rows: Vec<Vec<KeyDef>>)
        ensures
            rows@.len() == layout_rows(),
            forall|r: int| 0 <= r < layout_rows() ==> #[trigger] rows@[r]@.len() == row_len(r),
            forall|r: int, c: int|
                in_layout(r, c) ==> key_ok(#[trigger] rows@[r]@[c], self.layout, r, c),
    {
        let mut rows: Vec<Vec<KeyDef>> = Vec::new();
        let mut r: usize = 0;
        while r < 5
            invariant
                r <= 5,
                rows@.len() == r,
                forall|i: int| 0 <= i < r ==> #[trigger] rows@[i]@.len() == row_len(i),
                forall|i: int, c: int|
                    0 <= i < r && in_layout(i, c) ==> key_ok(#[trigger] rows@[i]@[c], self.layout, i, c),
            decreases 5 - r,
        {
            let n = row_length(r);
            let mut row: Vec<KeyDef> = Vec::new();
            let mut c: usize = 0;
            while c < n
                invariant
                    r < 5,
                    n == row_len(r as int),
                    c <= n,
                    row@.len() == c,
                    forall|j: int| 0 <= j < c ==> key_ok(#[trigger] row@[j], self.layout, r as int, j),
                decreases n - c,
            {
                row.push(key_at(self.layout, r, c));
                c += 1;
            }
            rows.push(row);
            r += 1;
        }
        rows
    }
}

// ---------------------------------------------------------------------------
// Laws
// ---------------------------------------------------------------------------

proof fn lemma_encode_append(a: Seq<char>, b: Seq<char>)
    ensures
        vstd::utf8::encode_utf8(a + b) == vstd::utf8::encode_utf8(a) + vstd::utf8::encode_utf8(b),
    decreases a.len(),
{
    if a.len() == 0 {
        assert(a + b =~= b);
    } else {
        assert((a + b).drop_first() =~= a.drop_first() + b);
        lemma_encode_append(a.drop_first(), b);
    }
}

/// Appending an ASCII character adds exactly one byte.
pub proof fn lemma_byte_len_push_ascii(s: Seq<char>, c: char)
    requires
        (c as u32) < 128,
    ensures
        byte_len(s.push(c)) == byte_len(s) + 1,
{
    lemma_encode_append(s, seq![c]);
    assert(s.push(c) =~= s + seq![c]);
    assert(seq![c].drop_first() =~= Seq::<char>::empty());
    assert(vstd::utf8::has_width_1_encoding(c as u32));
    assert(vstd::utf8::encode_utf8(seq![c]) == vstd::utf8::encode_scalar(c as u32)
        + vstd::utf8::encode_utf8(seq![c].drop_first()));
    assert(vstd::utf8::encode_utf8(Seq::<char>::empty()) =~= Seq::<u8>::empty());
}

/// Once the cursor is on a key, every cursor move leaves it on a key.
pub proof fn law_moves_keep_cursor_on_keys(row: usize, col: usize)
    requires
        in_layout(row as int, col as int),
    ensures
        row > 0 ==> in_layout(
            clamped((((row - 1) as usize), col)).0 as int,
            clamped((((row - 1) as usize), col)).1 as int,
        ),
        row + 1 < layout_rows() ==> in_layout(
            clamped((((row + 1) as usize), col)).0 as int,
            clamped((((row + 1) as usize), col)).1 as int,
        ),
        col > 0 ==> in_layout(row as int, col - 1),
        col + 1 < row_len(row as int) ==> in_layout(row as int, col + 1),
        in_layout(clamped((row, col)).0 as int, clamped((row, col)).1 as int),
{
}

/// Clamping always puts the cursor on a key, and leaves a cursor that is on a key
/// where it is.
pub proof fn law_clamp_lands_on_a_key(cursor: (usize, usize))
    ensures
        in_layout(clamped(cursor).0 as int, clamped(cursor).1 as int),
        in_layout(cursor.0 as int, cursor.1 as int) ==> clamped(cursor) == cursor,
{
}

/// Typing a character and then pressing backspace gives back the keyboard as it was.
pub proof fn law_backspace_undoes_typing(
    kb: VirtualKeyboard,
    c: char,
    mid: VirtualKeyboard,
    out1: KeyboardOutput,
    post: VirtualKeyboard,
    out2: KeyboardOutput,
)
    requires
        has_room(kb.value@, kb.max_length),
        kb.press_spec(KeyType::Char(c), mid, out1),
        mid.backspace_spec(post, out2),
    ensures
        post.value@ == kb.value@,
        post == (VirtualKeyboard { value: post.value, ..kb }),
{
    assert(mid.value@.drop_last() =~= kb.value@);
}

/// Key presses never take a value that respects the length limit past it.
pub proof fn law_presses_respect_max_length(
    kb: VirtualKeyboard,
    key: KeyType,
    post: VirtualKeyboard,
    out: KeyboardOutput,
)
    requires
        kb.max_length matches Some(m) && byte_len(kb.value@) <= m,
        key matches KeyType::Char(c) ==> (c as u32) < 128,
        kb.press_spec(key, post, out),
    ensures
        post.max_length == kb.max_length,
        byte_len(post.value@) <= kb.max_length->0,
{
    match key {
        KeyType::Char(c) => {
            if has_room(kb.value@, kb.max_length) {
                lemma_byte_len_push_ascii(kb.value@, shifted(c, kb.shift));
            }
        },
        KeyType::Space => {
            if has_room(kb.value@, kb.max_length) {
                lemma_byte_len_push_ascii(kb.value@, ' ');
            }
        },
        KeyType::Backspace => {
            if kb.value@.len() > 0 {
                let v = kb.value@;
                assert(v =~= v.drop_last() + seq![v.last()]);
                lemma_encode_append(v.drop_last(), seq![v.last()]);
            }
        },
        _ => {},
    }
}

/// A press of a key of the layout is one step of the typed text.
proof fn lemma_layout_press_is_a_step(
    kb: VirtualKeyboard,
    row: int,
    col: int,
    post: VirtualKeyboard,
    out: KeyboardOutput,
)
    requires
        in_layout(row, col),
        kb.press_spec(key_spec(kb.layout, row, col), post, out),
    ensures
        value_step(kb, post),
{
    let k = key_spec(kb.layout, row, col);
    if k is Char && has_room(kb.value@, kb.max_length) {
        law_layout_chars_are_ascii(kb.layout, row, col, kb.shift);
        let c = shifted(k->Char_0, kb.shift);
        assert(post.value@ == kb.value@.push(c));
    } else if k is Space && has_room(kb.value@, kb.max_length) {
        assert(post.value@ == kb.value@.push(' '));
    }
}

/// The typed text never grows past the larger of its length at the start and the
/// length limit (in bytes), over any run of cursor moves, key presses on the layout
/// and backspaces: each state of `run` comes from the one before it by one such call.
pub proof fn law_value_never_outgrows_its_limit(run: Seq<VirtualKeyboard>, m: usize)
    requires
        run.len() > 0,
        run[0].max_length == Some(m),
        forall|i: int| 0 <= i < run.len() - 1 ==> value_step(#[trigger] run[i], run[i + 1]),
    ensures
        forall|i: int|
            0 <= i < run.len() ==> byte_len((#[trigger] run[i]).value@) <= if byte_len(
                run[0].value@,
            ) > m {
                byte_len(run[0].value@)
            } else {
                m as nat
            },
        forall|i: int| 0 <= i < run.len() ==> (#[trigger] run[i]).max_length == Some(m),
    decreases run.len(),
{
    let bound = if byte_len(run[0].value@) > m {
        byte_len(run[0].value@)
    } else {
        m as nat
    };
    if run.len() > 1 {
        let front = run.drop_last();
        assert forall|i: int| 0 <= i < front.len() - 1 implies value_step(
            #[trigger] front[i],
            front[i + 1],
        ) by {
            assert(front[i] == run[i] && front[i + 1] == run[i + 1]);
        }
        assert(front[0] == run[0]);
        law_value_never_outgrows_its_limit(front, m);
        let n = run.len() - 1;
        let a = run[n - 1];
        let b = run[n];
        assert(a == front[n - 1]);
        assert(value_step(a, b));
        assert(byte_len(a.value@) <= bound && a.max_length == Some(m));
        if b.value@ == a.value@ {
        } else if a.value@.len() > 0 && b.value@ == a.value@.drop_last() {
            let v = a.value@;
            assert(v =~= v.drop_last() + seq![v.last()]);
            lemma_encode_append(v.drop_last(), seq![v.last()]);
        } else {
            let c = choose|c: char| (c as u32) < 128 && b.value@ == #[trigger] a.value@.push(c);
            lemma_byte_len_push_ascii(a.value@, c);
        }
        assert forall|i: int| 0 <= i < run.len() implies byte_len((#[trigger] run[i]).value@)
            <= bound && run[i].max_length == Some(m) by {
            if i < n {
                assert(run[i] == front[i]);
            }
        }
    }
}

/// Every key of both layouts types a character that `shifted` keeps in ASCII.
pub proof fn law_layout_chars_are_ascii(l: LayoutType, row: int, col: int, shift: bool)
    requires
        in_layout(row, col),
        key_spec(l, row, col) is Char,
    ensures
        (shifted(key_spec(l, row, col)->Char_0, shift) as u32) < 128,
{
    assert(row_chars(l, row).len() == 10 || row_chars(l, row).len() == 9 || row_chars(l, row).len() == 7);
}

/// Pressing Shift twice, or the layout key twice, restores the keyboard's mode.
pub proof fn law_toggles_are_involutions(
    kb: VirtualKeyboard,
    k: KeyType,
    mid: VirtualKeyboard,
    o1: KeyboardOutput,
    post: VirtualKeyboard,
    o2: KeyboardOutput,
)
    requires
        k is Shift || k is LayoutToggle,
        kb.press_spec(k, mid, o1),
        mid.press_spec(k, post, o2),
    ensures
        post.shift == kb.shift,
        post.layout == kb.layout,
        post.value == kb.value,
{
}

} // verus!
