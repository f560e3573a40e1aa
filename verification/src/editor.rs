//! The top-level editor state machine.
//!
//! `Data` holds the mode, the document buffer, the save-path field and the
//! overwrite-confirmation field. One key event enters `handle_event`, which
//! dispatches it by mode and reports whether a save attempt is requested;
//! the surroundings probe and write the filesystem and hand the outcome back
//! through `note_conflict` and `complete_save`.

use crate::file::File;
use crate::file::broke_line_rel;
use crate::file::moved_down_rel;
use crate::file::moved_left_rel;
use crate::file::moved_line_end_rel;
use crate::file::moved_line_start_rel;
use crate::file::moved_right_rel;
use crate::file::moved_up_rel;
use crate::file::removed_after_rel;
use crate::file::removed_before_rel;
use crate::file::write_character_rel;
use crate::prompt::Prompt;
use crate::prompt::prompt_moved_left_rel;
use crate::prompt::prompt_moved_right_rel;
use crate::prompt::prompt_removed_after_rel;
use crate::prompt::prompt_removed_before_rel;
use crate::prompt::prompt_wrote_rel;
use crate::unicode::UnicodeString;
use vstd::prelude::*;

verus! {

/// The controller's mode.
#[derive(PartialEq, Eq, Structural, Debug, Clone, Copy)]
pub enum State {
    Editing,
    Saving,
    Overwriting,
    Quitting,
}

/// One key event, stripped to what the editor reacts to. A printable key
/// with no modifier is `Character`; one struck with the control modifier is
/// `Control`; anything the editor ignores is `Other`.
#[derive(PartialEq, Eq, Debug, Clone, Copy)]
pub enum Key {
    Up,
    Down,
    Left,
    Right,
    Home,
    End,
    Backspace,
    Delete,
    Enter,
    Character(char),
    Control(char),
    Other,
}

/// What the controller asks its surroundings to do after a key.
#[derive(PartialEq, Eq, Debug, Clone, Copy)]
pub enum Request {
    /// Nothing beyond redrawing.
    Nothing,
    /// Probe the save-path for existence and attempt a save.
    TrySave { force: bool },
}

/// The whole editor state.
pub struct Data {
    pub state: State,
    pub file: File,
    pub save_prompt: Prompt,
    pub overwrite_prompt: Prompt,
}

/// The confirmation answers accepted as yes: a single `y`, of either case.
pub open spec fn is_yes(answer: Seq<char>) -> bool {
    answer == seq!['y'] || answer == seq!['Y']
}

impl Data {
    /// Well-formedness of every component.
    pub open spec fn wf(&self) -> bool {
        &&& self.file.wf()
        &&& self.save_prompt.wf()
        &&& self.overwrite_prompt.wf()
    }

    /// A fresh editor: editing an empty one-line buffer, with both input
    /// fields empty.
    pub fn new() -> (r: Self)
        ensures
            r.wf(),
            r.state == State::Editing,
            r.file.contents() =~= seq![Seq::<char>::empty()],
            r.file.path@ == Seq::<char>::empty(),
            r.file.col() == 0 && r.file.row() == 0,
            r.file.col_offset() == 0 && r.file.row_offset() == 0,
            r.save_prompt.answer@ == Seq::<char>::empty(),
            r.save_prompt.local_cursor == 0,
            r.overwrite_prompt.answer@ == Seq::<char>::empty(),
            r.overwrite_prompt.local_cursor == 0,
    {
        Data {
            state: State::Editing,
            file: File::new(),
            save_prompt: Prompt::new("Enter file path"),
            overwrite_prompt: Prompt::new("Overwrite file? (y/n)"),
        }
    }
}

/// Both input fields are unchanged.
pub open spec fn keeps_prompts(pre: Data, post: Data) -> bool {
    &&& post.save_prompt == pre.save_prompt
    &&& post.overwrite_prompt == pre.overwrite_prompt
}

/// The buffer is unchanged.
pub open spec fn keeps_file(pre: Data, post: Data) -> bool {
    post.file == pre.file
}

/// Effect of one key in editing mode: the quit shortcut quits, the save
/// shortcut enters saving mode with the path field seeded from the buffer's
/// path, any other control chord does nothing, and the remaining keys are
/// the buffer's edit and motion operations.
pub open spec fn edit_key_rel(key: Key, pre: Data, post: Data) -> bool {
    match key {
        Key::Control(c) => if c == 'c' {
            &&& post.state == State::Quitting
            &&& keeps_file(pre, post)
            &&& keeps_prompts(pre, post)
        } else if c == 's' {
            &&& post.state == State::Saving
            &&& keeps_file(pre, post)
            &&& post.overwrite_prompt == pre.overwrite_prompt
            &&& post.save_prompt.answer@ == pre.file.path@
            &&& post.save_prompt.prompt == pre.save_prompt.prompt
            &&& post.save_prompt.viewport_offset == pre.save_prompt.viewport_offset
            &&& post.save_prompt.local_cursor == if pre.save_prompt.local_cursor
                > pre.file.path@.len() {
                pre.file.path@.len() as int
            } else {
                pre.save_prompt.local_cursor as int
            }
        } else {
            post == pre
        },
        Key::Up => post.state == pre.state && keeps_prompts(pre, post) && moved_up_rel(
            pre.file,
            post.file,
        ),
        Key::Down => post.state == pre.state && keeps_prompts(pre, post) && moved_down_rel(
            pre.file,
            post.file,
        ),
        Key::Left => post.state == pre.state && keeps_prompts(pre, post) && moved_left_rel(
            pre.file,
            post.file,
        ),
        Key::Right => post.state == pre.state && keeps_prompts(pre, post) && moved_right_rel(
            pre.file,
            post.file,
        ),
        Key::Home => post.state == pre.state && keeps_prompts(pre, post) && moved_line_start_rel(
            pre.file,
            post.file,
        ),
        Key::End => post.state == pre.state && keeps_prompts(pre, post) && moved_line_end_rel(
            pre.file,
            post.file,
        ),
        Key::Backspace => post.state == pre.state && keeps_prompts(pre, post) && removed_before_rel(
            pre.file,
            post.file,
        ),
        Key::Delete => post.state == pre.state && keeps_prompts(pre, post) && removed_after_rel(
            pre.file,
            post.file,
        ),
        Key::Enter => post.state == pre.state && keeps_prompts(pre, post) && broke_line_rel(
            pre.file,
            post.file,
        ),
        Key::Character(ch) => post.state == pre.state && keeps_prompts(pre, post)
            && write_character_rel(pre.file, post.file, ch),
        Key::Other => post == pre,
    }
}

/// Effect of one key in saving mode, together with the request it raises:
/// the cancel chord returns to editing, Enter requests an unforced save,
/// and the edit keys work the save-path field.
pub open spec fn save_key_rel(key: Key, pre: Data, post: Data, req: Request) -> bool {
    match key {
        Key::Control(c) => req == Request::Nothing && (if c == 'c' {
            &&& post.state == State::Editing
            &&& keeps_file(pre, post)
            &&& keeps_prompts(pre, post)
        } else {
            post == pre
        }),
        Key::Left => req == Request::Nothing && post.state == pre.state && keeps_file(pre, post)
            && post.overwrite_prompt == pre.overwrite_prompt && prompt_moved_left_rel(
            pre.save_prompt,
            post.save_prompt,
        ),
        Key::Right => req == Request::Nothing && post.state == pre.state && keeps_file(pre, post)
            && post.overwrite_prompt == pre.overwrite_prompt && prompt_moved_right_rel(
            pre.save_prompt,
            post.save_prompt,
        ),
        Key::Backspace => req == Request::Nothing && post.state == pre.state && keeps_file(
            pre,
            post,
        ) && post.overwrite_prompt == pre.overwrite_prompt && prompt_removed_before_rel(
            pre.save_prompt,
            post.save_prompt,
        ),
        Key::Delete => req == Request::Nothing && post.state == pre.state && keeps_file(pre, post)
            && post.overwrite_prompt == pre.overwrite_prompt && prompt_removed_after_rel(
            pre.save_prompt,
            post.save_prompt,
        ),
        Key::Character(ch) => req == Request::Nothing && post.state == pre.state && keeps_file(
            pre,
            post,
        ) && post.overwrite_prompt == pre.overwrite_prompt && prompt_wrote_rel(
            pre.save_prompt,
            post.save_prompt,
            ch,
        ),
        Key::Enter => post == pre && req == (Request::TrySave { force: false }),
        _ => post == pre && req == Request::Nothing,
    }
}

/// Effect of one key in overwrite-confirmation mode, together with the
/// request it raises: the cancel chord abandons the overwrite, Enter on a
/// yes answer requests the forced save and on any other answer returns to
/// path editing, and the edit keys work the confirmation field.
pub open spec fn overwrite_key_rel(key: Key, pre: Data, post: Data, req: Request) -> bool {
    match key {
        Key::Control(c) => req == Request::Nothing && (if c == 'c' {
            &&& post.state == State::Saving
            &&& keeps_file(pre, post)
            &&& keeps_prompts(pre, post)
        } else {
            post == pre
        }),
        Key::Left => req == Request::Nothing && post.state == pre.state && keeps_file(pre, post)
            && post.save_prompt == pre.save_prompt && prompt_moved_left_rel(
            pre.overwrite_prompt,
            post.overwrite_prompt,
        ),
        Key::Right => req == Request::Nothing && post.state == pre.state && keeps_file(pre, post)
            && post.save_prompt == pre.save_prompt && prompt_moved_right_rel(
            pre.overwrite_prompt,
            post.overwrite_prompt,
        ),
        Key::Backspace => req == Request::Nothing && post.state == pre.state && keeps_file(
            pre,
            post,
        ) && post.save_prompt == pre.save_prompt && prompt_removed_before_rel(
            pre.overwrite_prompt,
            post.overwrite_prompt,
        ),
        Key::Delete => req == Request::Nothing && post.state == pre.state && keeps_file(pre, post)
            && post.save_prompt == pre.save_prompt && prompt_removed_after_rel(
            pre.overwrite_prompt,
            post.overwrite_prompt,
        ),
        Key::Character(ch) => req == Request::Nothing && post.state == pre.state && keeps_file(
            pre,
            post,
        ) && post.save_prompt == pre.save_prompt && prompt_wrote_rel(
            pre.overwrite_prompt,
            post.overwrite_prompt,
            ch,
        ),
        Key::Enter => if is_yes(pre.overwrite_prompt.answer@) {
            post == pre && req == (Request::TrySave { force: true })
        } else {
            &&& post.state == State::Saving
            &&& keeps_file(pre, post)
            &&& keeps_prompts(pre, post)
            &&& req == Request::Nothing
        },
        _ => post == pre && req == Request::Nothing,
    }
}

/// Whether the confirmation field holds a yes answer.
fn answer_is_yes(a: &UnicodeString) -> (r: bool)
    ensures
        r == is_yes(a@),
{
    if a.length() == 1 {
        let c = a.char_at(0);
        proof {
            assert(a@ =~= seq![a@[0]]);
        }
        c == 'y' || c == 'Y'
    } else {
        proof {
            assert(a@ != seq!['y'] && a@ != seq!['Y']) by {
                assert(seq!['y'].len() == 1 && seq!['Y'].len() == 1);
            }
        }
        false
    }
}

/// Handle one key in editing mode.
pub fn handle_edit_key(key: Key, data: &mut Data)
    requires
        old(data).wf(),
    ensures
        final(data).wf(),
        edit_key_rel(key, *old(data), *final(data)),
{
    match key {
        Key::Control(c) => {
            if c == 'c' {
                data.state = State::Quitting;
            } else if c == 's' {
                data.state = State::Saving;
                data.save_prompt.set_answer(&data.file.path);
            }
        },
        Key::Up => data.file.move_cursor_up(),
        Key::Down => data.file.move_cursor_down(),
        Key::Left => data.file.move_cursor_left(),
        Key::Right => data.file.move_cursor_right(),
        Key::Home => data.file.move_cursor_line_start(),
        Key::End => data.file.move_cursor_line_end(),
        Key::Backspace => data.file.remove_character_before(),
        Key::Delete => data.file.remove_character_after(),
        Key::Enter => data.file.break_line(),
        Key::Character(ch) => data.file.write_character(ch),
        Key::Other => {},
    }
}

/// Handle one key in saving mode; Enter requests an unforced save attempt.
pub fn handle_save_key(key: Key, data: &mut Data) -> (req: Request)
    requires
        old(data).wf(),
    ensures
        final(data).wf(),
        save_key_rel(key, *old(data), *final(data), req),
{
    match key {
        Key::Control(c) => {
            if c == 'c' {
                data.state = State::Editing;
            }
            Request::Nothing
        },
        Key::Left => {
            data.save_prompt.move_cursor_left();
            Request::Nothing
        },
        Key::Right => {
            data.save_prompt.move_cursor_right();
            Request::Nothing
        },
        Key::Backspace => {
            data.save_prompt.remove_character_before();
            Request::Nothing
        },
        Key::Delete => {
            data.save_prompt.remove_character_after();
            Request::Nothing
        },
        Key::Character(ch) => {
            data.save_prompt.write_character(ch);
            Request::Nothing
        },
        Key::Enter => Request::TrySave { force: false },
        _ => Request::Nothing,
    }
}

/// Handle one key in overwrite-confirmation mode; Enter on a yes answer
/// requests the forced save attempt.
pub fn handle_overwrite_key(key: Key, data: &mut Data) -> (req: Request)
    requires
        old(data).wf(),
    ensures
        final(data).wf(),
        overwrite_key_rel(key, *old(data), *final(data), req),
{
    match key {
        Key::Control(c) => {
            if c == 'c' {
                data.state = State::Saving;
            }
            Request::Nothing
        },
        Key::Left => {
            data.overwrite_prompt.move_cursor_left();
            Request::Nothing
        },
        Key::Right => {
            data.overwrite_prompt.move_cursor_right();
            Request::Nothing
        },
        Key::Backspace => {
            data.overwrite_prompt.remove_character_before();
            Request::Nothing
        },
        Key::Delete => {
            data.overwrite_prompt.remove_character_after();
            Request::Nothing
        },
        Key::Character(ch) => {
            data.overwrite_prompt.write_character(ch);
            Request::Nothing
        },
        Key::Enter => {
            if answer_is_yes(&data.overwrite_prompt.answer) {
                Request::TrySave { force: true }
            } else {
                data.state = State::Saving;
                Request::Nothing
            }
        },
        _ => Request::Nothing,
    }
}

/// Dispatch one key event by mode.
pub fn handle_event(key: Key, data: &mut Data) -> (req: Request)
    requires
        old(data).wf(),
    ensures
        final(data).wf(),
        match old(data).state {
            State::Overwriting => overwrite_key_rel(key, *old(data), *final(data), req),
            State::Saving => save_key_rel(key, *old(data), *final(data), req),
            _ => edit_key_rel(key, *old(data), *final(data)) && req == Request::Nothing,
        },
{
    match data.state {
        State::Overwriting => handle_overwrite_key(key, data),
        State::Saving => handle_save_key(key, data),
        _ => {
            handle_edit_key(key, data);
            Request::Nothing
        },
    }
}

/// Record a save conflict: the save attempt found the target present and
/// unforced, so nothing was written; move to overwrite confirmation with a
/// reset confirmation field.
pub fn note_conflict(data: &mut Data)
    requires
        old(data).wf(),
        old(data).state == State::Saving,
    ensures
        final(data).wf(),
        final(data).state == State::Overwriting,
        final(data).file == old(data).file,
        final(data).save_prompt == old(data).save_prompt,
        final(data).overwrite_prompt.answer@ == Seq::<char>::empty(),
        final(data).overwrite_prompt.prompt == old(data).overwrite_prompt.prompt,
        final(data).overwrite_prompt.local_cursor == 0,
        final(data).overwrite_prompt.viewport_offset == 0,
{
    data.state = State::Overwriting;
    let empty = UnicodeString::new();
    data.overwrite_prompt.set_answer(&empty);
    data.overwrite_prompt.viewport_offset = 0;
}

/// Record the outcome of a write: on success the controller returns to
/// editing and the buffer adopts the prompt's path as its last-known path;
/// on failure nothing changes and the controller stays in its mode.
pub fn complete_save(data: &mut Data, write_ok: bool)
    requires
        old(data).wf(),
        old(data).state == State::Saving || old(data).state == State::Overwriting,
    ensures
        final(data).wf(),
        write_ok ==> {
            &&& final(data).state == State::Editing
            &&& final(data).file.path@ == old(data).save_prompt.answer@
            &&& final(data).file.lines == old(data).file.lines
            &&& final(data).file.local_cursor == old(data).file.local_cursor
            &&& final(data).file.viewport_offset == old(data).file.viewport_offset
            &&& keeps_prompts(*old(data), *final(data))
        },
        !write_ok ==> *final(data) == *old(data),
{
    if write_ok {
        data.state = State::Editing;
        data.file.path = data.save_prompt.get_answer().clone();
    }
}

} // verus!
