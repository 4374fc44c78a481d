//! The input box and the popup that asks for an API key.

use vstd::prelude::*;
use vstd::string::StringExecFns;
use crate::strings::string_from_chars;

verus! {

/// The cursor position at which the box is full and begins to scroll.
pub const BOX_WIDTH: u16 = 65;

/// Whether keys are typed into the box.
#[derive(Debug, PartialEq, Eq, Clone, Copy, Structural)]
pub enum InputMode {
    Normal,
    Editing,
}

/// A one-line input box. What scrolled out at the left is kept in
/// `removed_char`, oldest first.
#[derive(Debug, PartialEq, Eq)]
pub struct InputBox {
    pub input: Vec<char>,
    pub character_index: usize,
    pub input_mode: InputMode,
    pub removed_char: Vec<char>,
}

/// The popup that asks for an API key.
#[derive(Debug, PartialEq, Eq)]
pub struct ApiPopup {
    pub title: String,
    pub message: String,
    pub input: InputBox,
    pub error: bool,
}

/// A cursor position held within a text of `len` characters.
pub open spec fn clamp(position: int, len: int) -> int {
    if position < len {
        position
    } else {
        len
    }
}

/// What comes back in front of the text when the cursor reaches the left
/// end: what scrolled out, without its oldest character.
pub open spec fn restored(removed: Seq<char>) -> Seq<char> {
    if removed.len() > 0 {
        removed.skip(1)
    } else {
        removed
    }
}

/// The text and the cursor after the cursor moved one to the left.
pub open spec fn after_left(input: Seq<char>, index: int, removed: Seq<char>) -> (Seq<char>, int) {
    let moved = clamp(
        if index > 0 {
            index - 1
        } else {
            0
        },
        input.len() as int,
    );
    if moved == 0 {
        (restored(removed) + input, 0)
    } else {
        (input, moved)
    }
}

/// The text after the character in front of the cursor was taken out.
pub open spec fn without_char(input: Seq<char>, index: int) -> Seq<char> {
    input.take(clamp(index - 1, input.len() as int)) + input.skip(clamp(index, input.len() as int))
}

/// `after` is `before` with the cursor moved one to the left.
pub open spec fn moved_left(before: InputBox, after: InputBox) -> bool {
    let left = after_left(before.input@, before.character_index as int, before.removed_char@);
    &&& after.input@ == left.0
    &&& after.character_index == left.1
    &&& after.removed_char@ == before.removed_char@
    &&& after.input_mode == before.input_mode
}

/// `after` is `before` with the cursor moved one to the right.
pub open spec fn moved_right(before: InputBox, after: InputBox) -> bool {
    &&& after.character_index == clamp(before.character_index + 1, before.input@.len() as int)
    &&& after.input@ == before.input@
    &&& after.removed_char@ == before.removed_char@
    &&& after.input_mode == before.input_mode
}

/// `after` is `before` with `c` typed at the cursor.
pub open spec fn typed(before: InputBox, after: InputBox, c: char) -> bool {
    let at = clamp(before.character_index as int, before.input@.len() as int);
    let text = before.input@.insert(at, c);
    let scrolls = before.character_index as u16 == BOX_WIDTH;
    &&& after.input@ == if scrolls {
        text.skip(1)
    } else {
        text
    }
    &&& after.removed_char@ == if scrolls {
        before.removed_char@.push(text[0])
    } else {
        before.removed_char@
    }
    &&& after.character_index == clamp(before.character_index + 1, after.input@.len() as int)
    &&& after.input_mode == before.input_mode
}

/// `after` is `before` with the character in front of the cursor deleted.
pub open spec fn deleted(before: InputBox, after: InputBox) -> bool {
    let left = after_left(
        without_char(before.input@, before.character_index as int),
        before.character_index as int,
        before.removed_char@,
    );
    &&& after.removed_char@ == before.removed_char@
    &&& after.input_mode == before.input_mode
    &&& if before.character_index == 0 {
        after.input@ == before.input@ && after.character_index == 0
    } else {
        after.input@ == left.0 && after.character_index == left.1
    }
}

/// The box can take one more character.
pub open spec fn has_room(b: InputBox) -> bool {
    b.input@.len() + b.removed_char@.len() < usize::MAX
}

impl ApiPopup {
    pub fn new() -> (r: Self)
        ensures
            r.title@ == "API Key"@,
            r.message@ == "Please input your API key"@,
            !r.error,
            r.input.input@.len() == 0,
            r.input.removed_char@.len() == 0,
            r.input.character_index == 0,
            r.input.input_mode == InputMode::Normal,
    {
        Self {
            error: false,
            title: String::from_str("API Key"),
            message: String::from_str("Please input your API key"),
            input: InputBox::new(),
        }
    }
}

impl InputBox {
    /// An empty box, not edited, with the cursor at the left end.
    pub fn new() -> (r: Self)
        ensures
            r.input@.len() == 0,
            r.removed_char@.len() == 0,
            r.character_index == 0,
            r.input_mode == InputMode::Normal,
    {
        Self {
            input_mode: InputMode::Normal,
            character_index: 0,
            input: Vec::new(),
            removed_char: Vec::new(),
        }
    }

    /// A copy of what scrolled out.
    pub fn return_cloned_char(&self) -> (r: Vec<char>)
        ensures
            r@ == self.removed_char@,
    {
        let mut copy: Vec<char> = Vec::new();
        let mut i: usize = 0;
        while i < self.removed_char.len()
            invariant
                i <= self.removed_char@.len(),
                copy@ == self.removed_char@.take(i as int),
            decreases self.removed_char@.len() - i,
        {
            copy.push(self.removed_char[i]);
            assert(copy@ =~= self.removed_char@.take(i + 1));
            i += 1;
        }
        assert(self.removed_char@.take(i as int) =~= self.removed_char@);
        copy
    }

    /// A cursor position held within the text.
    pub fn clamp_cursor(&self, new_cursor_pos: usize) -> (r: usize)
        ensures
            r == clamp(new_cursor_pos as int, self.input@.len() as int),
    {
        if new_cursor_pos < self.input.len() {
            new_cursor_pos
        } else {
            self.input.len()
        }
    }

    /// Moves the cursor one to the left. When it reaches the left end, what
    /// scrolled out comes back in front of the text, but for its oldest
    /// character.
    pub fn move_cursor_left(&mut self)
        requires
            has_room(*old(self)),
        ensures
            moved_left(*old(self), *final(self)),
    {
        let cursor_moved_left = if self.character_index > 0 {
            self.character_index - 1
        } else {
            0
        };
        self.character_index = self.clamp_cursor(cursor_moved_left);
        if self.character_index == 0 {
            let chars = self.return_cloned_char();
            let mut i: usize = chars.len();
            let ghost before = self.input@;
            assert(chars@.skip(chars@.len() as int) + before =~= before);
            while i > 1
                invariant
                    1 <= i <= chars@.len() || (i == 0 && chars@.len() == 0),
                    chars@ == self.removed_char@,
                    self.removed_char@ == old(self).removed_char@,
                    self.input_mode == old(self).input_mode,
                    self.character_index == 0,
                    before.len() + chars@.len() <= usize::MAX,
                    self.input@ == chars@.skip(i as int) + before,
                decreases i,
            {
                i -= 1;
                self.input.insert(0, chars[i]);
                assert(self.input@ =~= chars@.skip(i as int) + before);
            }
            assert(self.input@ =~= restored(chars@) + before);
        }
    }

    /// Moves the cursor one to the right, not beyond the end of the text.
    pub fn move_cursor_right(&mut self)
        ensures
            moved_right(*old(self), *final(self)),
    {
        let len = self.input.len();
        self.character_index = if self.character_index < len {
            self.character_index + 1
        } else {
            len
        };
    }

    /// Types a character at the cursor. With the cursor at the width of the
    /// box, the first character of the text scrolls out at the left.
    pub fn enter_char(&mut self, new_char: char)
        requires
            has_room(*old(self)),
        ensures
            typed(*old(self), *final(self), new_char),
    {
        let index = self.clamp_cursor(self.character_index);
        self.input.insert(index, new_char);
        if #[verifier::truncate] (self.character_index as u16) == BOX_WIDTH {
            let first = self.input.remove(0);
            self.removed_char.push(first);
            assert(self.input@ =~= old(self).input@.insert(index as int, new_char).skip(1));
        }
        self.move_cursor_right();
    }

    /// Takes out the character in front of the cursor and moves the cursor
    /// one to the left. At the left end nothing happens.
    pub fn delete_char(&mut self)
        requires
            has_room(*old(self)),
        ensures
            deleted(*old(self), *final(self)),
    {
        if self.character_index != 0 {
            let current_index = self.character_index;
            if current_index <= self.input.len() {
                let gone = self.input.remove(current_index - 1);
                assert(self.input@ =~= without_char(old(self).input@, current_index as int));
            } else {
                assert(old(self).input@.skip(old(self).input@.len() as int) =~= Seq::<char>::empty());
                assert(self.input@ =~= without_char(old(self).input@, current_index as int));
            }
            self.move_cursor_left();
        }
    }

    /// Puts the cursor at the left end.
    pub fn reset_cursor(&mut self)
        ensures
            *final(self) == (InputBox { character_index: 0, ..*old(self) }),
    {
        self.character_index = 0;
    }

    /// Hands the message over: what scrolled out, then the text. The box is
    /// emptied and the cursor put at the left end. An empty box is refused and
    /// left as it is.
    pub fn submit_message(&mut self) -> (r: Result<String, &'static str>)
        ensures
            final(self).removed_char@ == old(self).removed_char@,
            final(self).input_mode == old(self).input_mode,
            match r {
                Ok(message) => {
                    &&& old(self).input@.len() > 0
                    &&& message@ == old(self).removed_char@ + old(self).input@
                    &&& final(self).input@.len() == 0
                    &&& final(self).character_index == 0
                },
                Err(e) => {
                    &&& old(self).input@.len() == 0
                    &&& e@ == "API key cannot be empty"@
                    &&& final(self).input@ == old(self).input@
                    &&& final(self).character_index == old(self).character_index
                },
            },
    {
        if self.input.len() == 0 {
            return Err("API key cannot be empty");
        }
        let mut message = self.return_cloned_char();
        message.append(&mut self.input);
        self.reset_cursor();
        Ok(string_from_chars(&message))
    }
}

} // verus!
