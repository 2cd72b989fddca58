//! A one-line text field: the text, a cursor between its characters, and how the keys
//! pressed while it has the focus edit them.
use vstd::prelude::*;

use crate::keyboard::{KeyboardButton, SpecialKeyboardButton};
use crate::text::{chars_of, string_of_chars};

verus! {

/// The text, the cursor and whether anything changed after one pressed key, the cursor
/// counting characters; `char_len` is the length the text had before the first key.
pub open spec fn key_edit(
    text: Seq<char>,
    cursor: int,
    char_len: int,
    key: KeyboardButton,
) -> (Seq<char>, int, bool) {
    match key {
        KeyboardButton::Special(SpecialKeyboardButton::BackSpace) => {
            if cursor == 0 {
                (text, cursor, false)
            } else {
                (text.remove(cursor - 1), cursor - 1, true)
            }
        },
        KeyboardButton::Unicode(c) => (text.insert(cursor, c), cursor + 1, true),
        KeyboardButton::Special(SpecialKeyboardButton::Right) => {
            (text, if cursor + 1 <= char_len { cursor + 1 } else { char_len }, true)
        },
        KeyboardButton::Special(SpecialKeyboardButton::Left) => {
            (text, if cursor == 0 { 0 } else { cursor - 1 }, true)
        },
        _ => (text, cursor, false),
    }
}

/// Whether a pressed key can be applied: a character is inserted, and one removed, at a
/// place the text has, and the cursor does not overflow.
pub open spec fn key_ok(text: Seq<char>, cursor: int, key: KeyboardButton) -> bool {
    match key {
        KeyboardButton::Special(SpecialKeyboardButton::BackSpace) => cursor == 0 || cursor
            <= text.len(),
        KeyboardButton::Unicode(_) => cursor <= text.len() && cursor < usize::MAX,
        KeyboardButton::Special(SpecialKeyboardButton::Right) => cursor < usize::MAX,
        _ => true,
    }
}

/// The text, the cursor and whether anything changed after the pressed `keys`, in order.
pub open spec fn keys_edit(
    text: Seq<char>,
    cursor: int,
    char_len: int,
    keys: Seq<KeyboardButton>,
) -> (Seq<char>, int, bool)
    decreases keys.len(),
{
    if keys.len() == 0 {
        (text, cursor, false)
    } else {
        let before = keys_edit(text, cursor, char_len, keys.drop_last());
        let after = key_edit(before.0, before.1, char_len, keys.last());
        (after.0, after.1, before.2 || after.2)
    }
}

/// Whether every one of the pressed `keys` can be applied in turn.
pub open spec fn keys_ok(
    text: Seq<char>,
    cursor: int,
    char_len: int,
    keys: Seq<KeyboardButton>,
) -> bool
    decreases keys.len(),
{
    if keys.len() == 0 {
        true
    } else {
        let before = keys_edit(text, cursor, char_len, keys.drop_last());
        keys_ok(text, cursor, char_len, keys.drop_last()) && key_ok(before.0, before.1, keys.last())
    }
}

/// A one-line text field.
pub struct TextInput {
    pub value: String,
    /// The place of the cursor, in characters from the start of `value`.
    pub cursor: usize,
}

impl TextInput {
    /// Applies the keys pressed in this frame. With the focus, backspace removes the
    /// character before the cursor, a character is inserted at the cursor, and the arrows
    /// move it (right no further than the length the text had before these keys); without,
    /// the cursor goes to the end of the text. Returns whether the field is to be drawn again.
    pub fn edit(&mut self, pressed: &[KeyboardButton], focused: bool) -> (dirty: bool)
        requires
            focused ==> keys_ok(
                old(self).value@,
                old(self).cursor as int,
                old(self).value@.len() as int,
                pressed@,
            ),
        ensures
            focused ==> ({
                let e = keys_edit(
                    old(self).value@,
                    old(self).cursor as int,
                    old(self).value@.len() as int,
                    pressed@,
                );
                &&& final(self).value@ == e.0
                &&& final(self).cursor == e.1
                &&& dirty == e.2
            }),
            !focused ==> final(self).value@ == old(self).value@ && final(self).cursor
                == old(self).value@.len() && !dirty,
    {
        let mut text = chars_of(self.value.as_str());
        let char_len = text.len();
        if !focused {
            self.cursor = char_len;
            return false;
        }
        let ghost text0 = text@;
        let ghost cursor0 = self.cursor as int;
        let mut cursor = self.cursor;
        let mut dirty = false;
        let mut i: usize = 0;
        while i < pressed.len()
            invariant
                i <= pressed@.len(),
                char_len == text0.len(),
                keys_ok(text0, cursor0, char_len as int, pressed@),
                (text@, cursor as int, dirty) == keys_edit(
                    text0,
                    cursor0,
                    char_len as int,
                    pressed@.take(i as int),
                ),
            decreases pressed@.len() - i,
        {
            proof {
                lemma_keys_ok_prefix(text0, cursor0, char_len as int, pressed@, i as int + 1);
                assert(pressed@.take(i + 1).drop_last() =~= pressed@.take(i as int));
            }
            match pressed[i] {
                KeyboardButton::Special(SpecialKeyboardButton::BackSpace) => {
                    if cursor != 0 {
                        text.remove(cursor - 1);
                        cursor = cursor - 1;
                        dirty = true;
                    }
                },
                KeyboardButton::Unicode(c) => {
                    text.insert(cursor, c);
                    cursor = cursor + 1;
                    dirty = true;
                },
                KeyboardButton::Special(SpecialKeyboardButton::Right) => {
                    cursor = if cursor + 1 <= char_len {
                        cursor + 1
                    } else {
                        char_len
                    };
                    dirty = true;
                },
                KeyboardButton::Special(SpecialKeyboardButton::Left) => {
                    cursor = if cursor == 0 {
                        0
                    } else {
                        cursor - 1
                    };
                    dirty = true;
                },
                _ => {},
            }
            i = i + 1;
        }
        proof {
            assert(pressed@.take(pressed@.len() as int) =~= pressed@);
        }
        self.value = string_of_chars(&text);
        self.cursor = cursor;
        dirty
    }
}

/// Backspace right after typing a character takes it away again: the text and the cursor
/// are as they were.
pub proof fn lemma_backspace_undoes_typing(text: Seq<char>, cursor: int, char_len: int, c: char)
    requires
        0 <= cursor <= text.len(),
        cursor < usize::MAX,
    ensures
        ({
            let keys = seq![
                KeyboardButton::Unicode(c),
                KeyboardButton::Special(SpecialKeyboardButton::BackSpace),
            ];
            &&& keys_ok(text, cursor, char_len, keys)
            &&& keys_edit(text, cursor, char_len, keys) == (text, cursor, true)
        }),
{
    let keys = seq![
        KeyboardButton::Unicode(c),
        KeyboardButton::Special(SpecialKeyboardButton::BackSpace),
    ];
    assert(keys.drop_last() =~= seq![KeyboardButton::Unicode(c)]);
    assert(keys.drop_last().drop_last() =~= Seq::<KeyboardButton>::empty());
    assert(text.insert(cursor, c).remove(cursor) =~= text);
    reveal_with_fuel(keys_edit, 3);
    reveal_with_fuel(keys_ok, 3);
}

/// Keys that can all be applied can be applied up to any point.
proof fn lemma_keys_ok_prefix(
    text: Seq<char>,
    cursor: int,
    char_len: int,
    keys: Seq<KeyboardButton>,
    n: int,
)
    requires
        keys_ok(text, cursor, char_len, keys),
        0 <= n <= keys.len(),
    ensures
        keys_ok(text, cursor, char_len, keys.take(n)),
    decreases keys.len() - n,
{
    if n < keys.len() {
        assert(keys.drop_last().take(n) =~= keys.take(n));
        if n == keys.len() - 1 {
            assert(keys.drop_last() =~= keys.take(n));
        } else {
            lemma_keys_ok_prefix(text, cursor, char_len, keys.drop_last(), n);
        }
    } else {
        assert(keys.take(n) =~= keys);
    }
}

} // verus!
