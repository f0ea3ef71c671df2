//! A single-line text input field with a cursor, as the interactive front
//! end uses for names, paths and passphrases.
//!
//! Positions count characters, not bytes, so every operation is stated over
//! the value's character view. The one well-formedness fact is that the
//! cursor never passes the end of the value.

use vstd::prelude::*;

use crate::text::repeat_char;

verus! {

/// One labelled input field: its text, whether it is masked as a password,
/// whether it currently has focus, and the cursor's character position.
pub struct InputField {
    pub label: String,
    pub value: String,
    pub is_password: bool,
    pub is_active: bool,
    pub cursor_position: usize,
}

impl InputField {
    /// The cursor sits inside or just after the value.
    pub open spec fn wf(&self) -> bool {
        self.cursor_position <= self.value@.len()
    }

    /// An empty, unfocused, unmasked field.
    pub fn new(label: &str) -> (r: InputField)
        ensures
            r.label@ == label@,
            r.value@ == Seq::<char>::empty(),
            !r.is_password,
            !r.is_active,
            r.cursor_position == 0,
            r.wf(),
    {
        InputField {
            label: label.to_owned(),
            value: String::new(),
            is_password: false,
            is_active: false,
            cursor_position: 0,
        }
    }

    /// The same field, masked as a password.
    pub fn with_password(self) -> (r: InputField)
        ensures
            r.is_password,
            r.label == self.label,
            r.value == self.value,
            r.is_active == self.is_active,
            r.cursor_position == self.cursor_position,
    {
        InputField { is_password: true, ..self }
    }

    /// The same field holding `value`, with the cursor at its end.
    pub fn with_value(self, value: &str) -> (r: InputField)
        ensures
            r.value@ == value@,
            r.cursor_position == value@.len(),
            r.label == self.label,
            r.is_password == self.is_password,
            r.is_active == self.is_active,
            r.wf(),
    {
        let n = value.unicode_len();
        InputField { value: value.to_owned(), cursor_position: n, ..self }
    }

    /// Put `c` at the cursor and move the cursor past it.
    pub fn insert_char(&mut self, c: char)
        requires
            old(self).wf(),
            old(self).value@.len() < usize::MAX,
        ensures
            final(self).value@ == old(self).value@.subrange(0, old(self).cursor_position as int)
                + seq![c] + old(self).value@.subrange(
                old(self).cursor_position as int,
                old(self).value@.len() as int,
            ),
            final(self).cursor_position == old(self).cursor_position + 1,
            final(self).label == old(self).label,
            final(self).is_password == old(self).is_password,
            final(self).is_active == old(self).is_active,
            final(self).wf(),
    {
        let n = self.value.as_str().unicode_len();
        let mut next = self.value.as_str().substring_char(0, self.cursor_position).to_owned();
        next.push(c);
        let after = self.value.as_str().substring_char(self.cursor_position, n).to_owned();
        next.append(after.as_str());
        self.value = next;
        self.cursor_position = self.cursor_position + 1;
    }

    /// Remove the character at the cursor, if the cursor is on one.
    pub fn delete_char(&mut self)
        requires
            old(self).wf(),
        ensures
            old(self).cursor_position < old(self).value@.len() ==> final(self).value@ == old(self).value@.subrange(0, old(self).cursor_position as int) + old(self).value@.subrange(
                old(self).cursor_position + 1,
                old(self).value@.len() as int,
            ),
            old(self).cursor_position >= old(self).value@.len() ==> final(self).value@ == old(self).value@,
            final(self).cursor_position == old(self).cursor_position,
            final(self).label == old(self).label,
            final(self).is_password == old(self).is_password,
            final(self).is_active == old(self).is_active,
            final(self).wf(),
    {
        let n = self.value.as_str().unicode_len();
        if self.cursor_position < n {
            let mut next = self.value.as_str().substring_char(0, self.cursor_position).to_owned();
            let after = self.value.as_str().substring_char(self.cursor_position + 1, n).to_owned();
            next.append(after.as_str());
            self.value = next;
        }
    }

    /// Remove the character before the cursor and move the cursor onto its
    /// place, if the cursor is past the start.
    pub fn backspace(&mut self)
        requires
            old(self).wf(),
        ensures
            old(self).cursor_position > 0 ==> final(self).value@ == old(self).value@.subrange(
                0,
                old(self).cursor_position - 1,
            ) + old(self).value@.subrange(
                old(self).cursor_position as int,
                old(self).value@.len() as int,
            ) && final(self).cursor_position == old(self).cursor_position - 1,
            old(self).cursor_position == 0 ==> final(self).value == old(self).value && final(self).cursor_position == 0,
            final(self).label == old(self).label,
            final(self).is_password == old(self).is_password,
            final(self).is_active == old(self).is_active,
            final(self).wf(),
    {
        if self.cursor_position > 0 {
            let n = self.value.as_str().unicode_len();
            self.cursor_position = self.cursor_position - 1;
            let mut next = self.value.as_str().substring_char(0, self.cursor_position).to_owned();
            let after = self.value.as_str().substring_char(self.cursor_position + 1, n).to_owned();
            next.append(after.as_str());
            self.value = next;
        }
    }

    /// Move the cursor one character left, stopping at the start.
    pub fn move_cursor_left(&mut self)
        ensures
            final(self).cursor_position == (if old(self).cursor_position > 0 {
                (old(self).cursor_position - 1) as int
            } else {
                0int
            }),
            final(self).value == old(self).value,
            final(self).label == old(self).label,
            final(self).is_password == old(self).is_password,
            final(self).is_active == old(self).is_active,
    {
        if self.cursor_position > 0 {
            self.cursor_position = self.cursor_position - 1;
        }
    }

    /// Move the cursor one character right, stopping at the end.
    pub fn move_cursor_right(&mut self)
        requires
            old(self).wf(),
        ensures
            final(self).cursor_position == (if old(self).cursor_position < old(self).value@.len() {
                old(self).cursor_position + 1
            } else {
                old(self).cursor_position as int
            }),
            final(self).value == old(self).value,
            final(self).label == old(self).label,
            final(self).is_password == old(self).is_password,
            final(self).is_active == old(self).is_active,
            final(self).wf(),
    {
        let n = self.value.as_str().unicode_len();
        if self.cursor_position < n {
            self.cursor_position = self.cursor_position + 1;
        }
    }

    /// Move the cursor to the start.
    pub fn move_cursor_start(&mut self)
        ensures
            final(self).cursor_position == 0,
            final(self).value == old(self).value,
            final(self).label == old(self).label,
            final(self).is_password == old(self).is_password,
            final(self).is_active == old(self).is_active,
            final(self).wf(),
    {
        self.cursor_position = 0;
    }

    /// Move the cursor past the last character.
    pub fn move_cursor_end(&mut self)
        ensures
            final(self).cursor_position == old(self).value@.len(),
            final(self).value == old(self).value,
            final(self).label == old(self).label,
            final(self).is_password == old(self).is_password,
            final(self).is_active == old(self).is_active,
            final(self).wf(),
    {
        self.cursor_position = self.value.as_str().unicode_len();
    }

    /// Empty the field and return the cursor to the start.
    pub fn clear(&mut self)
        ensures
            final(self).value@ == Seq::<char>::empty(),
            final(self).cursor_position == 0,
            final(self).label == old(self).label,
            final(self).is_password == old(self).is_password,
            final(self).is_active == old(self).is_active,
            final(self).wf(),
    {
        self.value = String::new();
        self.cursor_position = 0;
    }

    /// What the field shows: the value, or one bullet per character when the
    /// field is masked.
    pub fn display_value(&self) -> (r: String)
        ensures
            self.is_password ==> r@ == Seq::new(self.value@.len(), |i: int| '\u{2022}'),
            !self.is_password ==> r@ == self.value@,
    {
        if self.is_password {
            let n = self.value.as_str().unicode_len();
            repeat_char('\u{2022}', n)
        } else {
            self.value.clone()
        }
    }
}

} // verus!
