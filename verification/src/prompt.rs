//! Single-line editable input field with a static label.
//!
//! A `Prompt` is one editable text run ("answer"), a label shown before it, a
//! cursor index in codepoint units, and a one-dimensional viewport offset.
//! Unlike the buffer's column, the prompt's cursor never exceeds the answer's
//! length.

use crate::file::adjusted_offset;
use crate::file::visible_line;
use crate::unicode::UnicodeString;
use crate::unicode::lemma_len_le_encoded;
use vstd::prelude::*;

verus! {

pub struct Prompt {
    pub prompt: UnicodeString,
    pub answer: UnicodeString,
    pub local_cursor: usize,
    pub viewport_offset: usize,
}

impl Prompt {
    /// Well-formedness: label and answer are well formed and the cursor
    /// addresses a position within the answer.
    pub open spec fn wf(&self) -> bool {
        &&& self.prompt.wf()
        &&& self.answer.wf()
        &&& self.local_cursor <= self.answer@.len()
    }

    /// A field labelled `instruction` with an empty answer.
    pub fn new(instruction: &str) -> (r: Self)
        ensures
            r.wf(),
            r.prompt@ == instruction@,
            r.answer@ == Seq::<char>::empty(),
            r.local_cursor == 0,
            r.viewport_offset == 0,
    {
        Prompt {
            prompt: UnicodeString::from(instruction),
            answer: UnicodeString::new(),
            local_cursor: 0,
            viewport_offset: 0,
        }
    }

    /// Replace the answer with a copy of `new_answer`, clamping the cursor
    /// to the new length.
    pub fn set_answer(&mut self, new_answer: &UnicodeString)
        requires
            old(self).wf(),
            new_answer.wf(),
        ensures
            final(self).wf(),
            final(self).answer@ == new_answer@,
            final(self).prompt == old(self).prompt,
            final(self).local_cursor == if old(self).local_cursor > new_answer@.len() {
                new_answer@.len() as int
            } else {
                old(self).local_cursor as int
            },
            final(self).viewport_offset == old(self).viewport_offset,
    {
        self.answer = new_answer.clone();
        let len = self.answer.length();
        if self.local_cursor > len {
            self.local_cursor = len;
        }
    }

    /// Read-only view of the answer.
    pub fn get_answer(&self) -> (r: &UnicodeString)
        ensures
            r == &self.answer,
    {
        &self.answer
    }

    /// Insert one codepoint at the cursor and advance the cursor past it.
    pub fn write_character(&mut self, ch: char)
        requires
            old(self).wf(),
        ensures
            final(self).wf(),
            prompt_wrote_rel(*old(self), *final(self), ch),
    {
        let idx = self.local_cursor;
        self.answer.insert(idx, ch);
        proof {
            lemma_len_le_encoded(self.answer@);
        }
        self.local_cursor = idx + 1;
    }

    /// Remove the codepoint before the cursor, if any, and step the cursor
    /// back over it.
    pub fn remove_character_before(&mut self)
        requires
            old(self).wf(),
        ensures
            final(self).wf(),
            prompt_removed_before_rel(*old(self), *final(self)),
    {
        if self.local_cursor > 0 {
            let idx = self.local_cursor - 1;
            self.answer.remove(idx);
            self.local_cursor = idx;
        }
    }

    /// Remove the codepoint under the cursor, if any; the cursor stays.
    pub fn remove_character_after(&mut self)
        requires
            old(self).wf(),
        ensures
            final(self).wf(),
            prompt_removed_after_rel(*old(self), *final(self)),
    {
        if self.local_cursor < self.answer.length() {
            let idx = self.local_cursor;
            self.answer.remove(idx);
        }
    }

    /// Move the cursor one position left, stopping at the start.
    pub fn move_cursor_left(&mut self)
        requires
            old(self).wf(),
        ensures
            final(self).wf(),
            prompt_moved_left_rel(*old(self), *final(self)),
    {
        if self.local_cursor > 0 {
            self.local_cursor = self.local_cursor - 1;
        }
    }

    /// Move the cursor one position right, stopping at the end of the
    /// answer.
    pub fn move_cursor_right(&mut self)
        requires
            old(self).wf(),
        ensures
            final(self).wf(),
            prompt_moved_right_rel(*old(self), *final(self)),
    {
        if self.local_cursor < self.answer.length() {
            self.local_cursor = self.local_cursor + 1;
        }
    }

    /// Minimal-distance scroll of the one-dimensional viewport so that the
    /// cursor lies within a window of `width` cells.
    pub fn adjust_viewport(&mut self, width: usize)
        requires
            old(self).wf(),
            width >= 1,
        ensures
            final(self).wf(),
            final(self).answer == old(self).answer,
            final(self).prompt == old(self).prompt,
            final(self).local_cursor == old(self).local_cursor,
            final(self).viewport_offset == adjusted_offset(
                old(self).local_cursor as int,
                old(self).viewport_offset as int,
                width as int,
            ),
            final(self).viewport_offset <= final(self).local_cursor < final(self).viewport_offset
                + width,
    {
        if self.local_cursor < self.viewport_offset {
            let diff = self.viewport_offset - self.local_cursor;
            self.viewport_offset = self.viewport_offset - diff;
        } else if self.local_cursor - self.viewport_offset > width - 1 {
            let diff = (self.local_cursor - self.viewport_offset) - (width - 1);
            self.viewport_offset = self.viewport_offset + diff;
        }
    }

    /// Cursor position on screen: the origin plus the cursor's distance from
    /// the viewport offset, shifted right past the label and its two
    /// separator cells.
    pub fn global_cursor(&self, x: u16, y: u16) -> (r: (u16, u16))
        requires
            self.wf(),
            self.viewport_offset <= self.local_cursor,
            x + self.local_cursor - self.viewport_offset + self.prompt@.len() + 2 <= u16::MAX,
        ensures
            r.0 == x + self.local_cursor - self.viewport_offset + self.prompt@.len() + 2,
            r.1 == y,
    {
        let offset = self.local_cursor - self.viewport_offset + self.prompt.length() + 2;
        (x + offset as u16, y)
    }

    /// The visible portion of the answer: its suffix from the viewport
    /// offset, or nothing when the whole answer lies left of the viewport.
    pub fn visible_answer(&self) -> (r: String)
        requires
            self.wf(),
        ensures
            r@ == visible_line(self.answer@, self.viewport_offset as int),
    {
        if self.viewport_offset <= self.answer.length() {
            let span = self.answer.suffix_from(self.viewport_offset);
            span.to_owned()
        } else {
            String::new()
        }
    }
}

/// Effect of the prompt's `move_cursor_left`: the cursor steps left,
/// stopping at the start; everything else is unchanged.
pub open spec fn prompt_moved_left_rel(pre: Prompt, post: Prompt) -> bool {
    &&& post.answer == pre.answer
    &&& post.prompt == pre.prompt
    &&& post.viewport_offset == pre.viewport_offset
    &&& post.local_cursor == if pre.local_cursor > 0 {
        pre.local_cursor - 1
    } else {
        0int
    }
}

/// Effect of the prompt's `move_cursor_right`: the cursor steps right,
/// stopping at the end of the answer; everything else is unchanged.
pub open spec fn prompt_moved_right_rel(pre: Prompt, post: Prompt) -> bool {
    &&& post.answer == pre.answer
    &&& post.prompt == pre.prompt
    &&& post.viewport_offset == pre.viewport_offset
    &&& post.local_cursor == if (pre.local_cursor as int) < pre.answer@.len() {
        pre.local_cursor + 1
    } else {
        pre.local_cursor as int
    }
}

/// Effect of the prompt's `write_character`: the character is inserted at
/// the cursor, which advances past it; label and viewport are unchanged.
pub open spec fn prompt_wrote_rel(pre: Prompt, post: Prompt, ch: char) -> bool {
    &&& post.answer@ == pre.answer@.insert(pre.local_cursor as int, ch)
    &&& post.local_cursor == pre.local_cursor + 1
    &&& post.prompt == pre.prompt
    &&& post.viewport_offset == pre.viewport_offset
}

/// Effect of the prompt's `remove_character_before`: the codepoint left of
/// the cursor is removed and the cursor steps back, or nothing changes at
/// the start.
pub open spec fn prompt_removed_before_rel(pre: Prompt, post: Prompt) -> bool {
    &&& if pre.local_cursor > 0 {
        &&& post.answer@ == pre.answer@.remove(pre.local_cursor - 1)
        &&& post.local_cursor == pre.local_cursor - 1
    } else {
        &&& post.answer == pre.answer
        &&& post.local_cursor == pre.local_cursor
    }
    &&& post.prompt == pre.prompt
    &&& post.viewport_offset == pre.viewport_offset
}

/// Effect of the prompt's `remove_character_after`: the codepoint under the
/// cursor is removed, or nothing changes at the end; the cursor stays.
pub open spec fn prompt_removed_after_rel(pre: Prompt, post: Prompt) -> bool {
    &&& if (pre.local_cursor as int) < pre.answer@.len() {
        post.answer@ == pre.answer@.remove(pre.local_cursor as int)
    } else {
        post.answer == pre.answer
    }
    &&& post.local_cursor == pre.local_cursor
    &&& post.prompt == pre.prompt
    &&& post.viewport_offset == pre.viewport_offset
}

} // verus!
