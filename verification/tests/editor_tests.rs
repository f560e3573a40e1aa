use ted_core::editor::{Data, Key, Request, State, handle_event};
use ted_core::save::{SaveDecision, try_save_decision};

fn type_str(data: &mut Data, text: &str) {
    for ch in text.chars() {
        let req = handle_event(Key::Character(ch), data);
        assert_eq!(req, Request::Nothing);
    }
}

/// Drive one save attempt the way the control loop would, given whether the
/// target path exists and whether the write succeeds.
fn drive_save(data: &mut Data, req: Request, exists: bool, write_ok: bool) -> Option<SaveDecision> {
    match req {
        Request::Nothing => None,
        Request::TrySave { force } => {
            let d = try_save_decision(exists, force);
            match d {
                SaveDecision::Write => ted_core::editor::complete_save(data, write_ok),
                SaveDecision::Conflict => ted_core::editor::note_conflict(data),
            }
            Some(d)
        }
    }
}

#[test]
fn quit_shortcut_quits() {
    let mut data = Data::new();
    let req = handle_event(Key::Control('c'), &mut data);
    assert_eq!(req, Request::Nothing);
    assert_eq!(data.state, State::Quitting);
}

#[test]
fn other_control_chords_do_nothing() {
    let mut data = Data::new();
    handle_event(Key::Control('x'), &mut data);
    assert_eq!(data.state, State::Editing);
    assert_eq!(data.file.to_string(), "");
}

#[test]
fn save_shortcut_seeds_path_prompt() {
    let mut data = Data::new();
    data.file.path = ted_core::unicode::UnicodeString::from("old.txt");
    handle_event(Key::Control('s'), &mut data);
    assert_eq!(data.state, State::Saving);
    assert_eq!(data.save_prompt.get_answer().as_str(), "old.txt");
}

#[test]
fn save_to_new_path_returns_to_editing_and_writes() {
    let mut data = Data::new();
    type_str(&mut data, "hi");
    handle_event(Key::Control('s'), &mut data);
    assert_eq!(data.state, State::Saving);
    type_str(&mut data, "out.txt");
    let req = handle_event(Key::Enter, &mut data);
    assert_eq!(req, Request::TrySave { force: false });
    let d = drive_save(&mut data, req, false, true);
    assert_eq!(d, Some(SaveDecision::Write));
    assert_eq!(data.state, State::Editing);
    assert_eq!(data.file.path.as_str(), "out.txt");
    assert_eq!(data.file.to_string(), "hi");
}

#[test]
fn save_over_existing_path_needs_confirmation() {
    let mut data = Data::new();
    type_str(&mut data, "hi");
    handle_event(Key::Control('s'), &mut data);
    type_str(&mut data, "out.txt");

    // the target exists: no write, the controller asks for confirmation
    let req = handle_event(Key::Enter, &mut data);
    let d = drive_save(&mut data, req, true, true);
    assert_eq!(d, Some(SaveDecision::Conflict));
    assert_eq!(data.state, State::Overwriting);
    assert_eq!(data.overwrite_prompt.get_answer().as_str(), "");

    // answering no returns to path editing, the file untouched
    type_str(&mut data, "n");
    let req2 = handle_event(Key::Enter, &mut data);
    assert_eq!(req2, Request::Nothing);
    assert_eq!(data.state, State::Saving);
    assert_eq!(data.file.path.as_str(), "");

    // a second attempt, then an explicit yes, writes and returns to editing
    let req3 = handle_event(Key::Enter, &mut data);
    let d3 = drive_save(&mut data, req3, true, true);
    assert_eq!(d3, Some(SaveDecision::Conflict));
    assert_eq!(data.state, State::Overwriting);
    type_str(&mut data, "y");
    let req4 = handle_event(Key::Enter, &mut data);
    assert_eq!(req4, Request::TrySave { force: true });
    let d4 = drive_save(&mut data, req4, true, true);
    assert_eq!(d4, Some(SaveDecision::Write));
    assert_eq!(data.state, State::Editing);
    assert_eq!(data.file.path.as_str(), "out.txt");
}

#[test]
fn uppercase_yes_is_accepted() {
    let mut data = Data::new();
    data.state = State::Overwriting;
    type_str(&mut data, "Y");
    let req = handle_event(Key::Enter, &mut data);
    assert_eq!(req, Request::TrySave { force: true });
}

#[test]
fn longer_answers_are_not_yes() {
    let mut data = Data::new();
    data.state = State::Overwriting;
    type_str(&mut data, "yes");
    let req = handle_event(Key::Enter, &mut data);
    assert_eq!(req, Request::Nothing);
    assert_eq!(data.state, State::Saving);
}

#[test]
fn cancel_in_saving_returns_to_editing() {
    let mut data = Data::new();
    handle_event(Key::Control('s'), &mut data);
    type_str(&mut data, "somewhere");
    handle_event(Key::Control('c'), &mut data);
    assert_eq!(data.state, State::Editing);
    assert_eq!(data.file.path.as_str(), "");
}

#[test]
fn cancel_in_overwriting_returns_to_saving() {
    let mut data = Data::new();
    data.state = State::Overwriting;
    handle_event(Key::Control('c'), &mut data);
    assert_eq!(data.state, State::Saving);
}

#[test]
fn failed_write_keeps_state_and_data() {
    let mut data = Data::new();
    type_str(&mut data, "hi");
    handle_event(Key::Control('s'), &mut data);
    type_str(&mut data, "dir/out.txt");
    let req = handle_event(Key::Enter, &mut data);
    // the path does not exist but the write fails (say, a missing directory)
    let d = drive_save(&mut data, req, false, false);
    assert_eq!(d, Some(SaveDecision::Write));
    assert_eq!(data.state, State::Saving);
    assert_eq!(data.file.path.as_str(), "");
    assert_eq!(data.file.to_string(), "hi");
}

#[test]
fn editing_keys_reach_the_buffer() {
    let mut data = Data::new();
    type_str(&mut data, "ab");
    handle_event(Key::Enter, &mut data);
    type_str(&mut data, "cd");
    assert_eq!(data.file.to_string(), "ab\ncd");
    handle_event(Key::Backspace, &mut data);
    assert_eq!(data.file.to_string(), "ab\nc");
    handle_event(Key::Up, &mut data);
    handle_event(Key::Delete, &mut data);
    assert_eq!(data.file.to_string(), "a\nc");
}

#[test]
fn prompt_keys_edit_the_active_field() {
    let mut data = Data::new();
    handle_event(Key::Control('s'), &mut data);
    type_str(&mut data, "ab");
    handle_event(Key::Left, &mut data);
    handle_event(Key::Character('x'), &mut data);
    assert_eq!(data.save_prompt.get_answer().as_str(), "axb");
    handle_event(Key::Backspace, &mut data);
    assert_eq!(data.save_prompt.get_answer().as_str(), "ab");
    handle_event(Key::Delete, &mut data);
    assert_eq!(data.save_prompt.get_answer().as_str(), "a");
}

#[test]
fn home_and_end_jump_in_editing_mode() {
    let mut data = Data::new();
    type_str(&mut data, "abcd");
    handle_event(Key::Home, &mut data);
    assert_eq!(data.file.local_cursor, (0, 0));
    handle_event(Key::Character('x'), &mut data);
    assert_eq!(data.file.to_string(), "xabcd");
    handle_event(Key::End, &mut data);
    assert_eq!(data.file.local_cursor, (5, 0));
    handle_event(Key::Character('y'), &mut data);
    assert_eq!(data.file.to_string(), "xabcdy");
}

#[test]
fn home_and_end_are_ignored_outside_editing() {
    let mut data = Data::new();
    handle_event(Key::Control('s'), &mut data);
    type_str(&mut data, "ab");
    let req = handle_event(Key::Home, &mut data);
    assert_eq!(req, Request::Nothing);
    assert_eq!(data.state, State::Saving);
    assert_eq!(data.save_prompt.local_cursor, 2);
    data.state = State::Overwriting;
    handle_event(Key::End, &mut data);
    assert_eq!(data.state, State::Overwriting);
    assert_eq!(data.overwrite_prompt.local_cursor, 0);
}

#[test]
fn ignored_keys_change_nothing() {
    let mut data = Data::new();
    handle_event(Key::Other, &mut data);
    assert_eq!(data.state, State::Editing);
    assert_eq!(data.file.to_string(), "");
}

#[test]
fn decision_rule_is_exact() {
    assert_eq!(try_save_decision(false, false), SaveDecision::Write);
    assert_eq!(try_save_decision(false, true), SaveDecision::Write);
    assert_eq!(try_save_decision(true, false), SaveDecision::Conflict);
    assert_eq!(try_save_decision(true, true), SaveDecision::Write);
}
