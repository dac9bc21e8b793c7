use awdy::editor::{TaskEditor, FIELD_DESCRIPTION, FIELD_TAGS, FIELD_TITLE};
use awdy::input::KeyInput;
use awdy::task::{Task, TaskState};

fn sample_task() -> Task {
    Task {
        id: Some(11),
        state: TaskState::Blocked,
        title: "Fix the build".to_string(),
        description: Some("the linker step fails".to_string()),
        tags: vec!["ci".to_string(), "urgent".to_string()],
    }
}

fn type_text(ed: &mut TaskEditor, text: &str) {
    for c in text.chars() {
        ed.process_key(KeyInput::Char(c));
    }
}

#[test]
fn round_trip_without_edits_is_identity() {
    let task = sample_task();
    let ed = TaskEditor::from_task(&task);
    let back = ed.to_task();
    assert_eq!(back.id, task.id);
    assert_eq!(back.state, task.state);
    assert_eq!(back.title, task.title);
    assert_eq!(back.description, task.description);
    assert_eq!(back.tags, task.tags);
}

#[test]
fn round_trip_is_idempotent() {
    let task = sample_task();
    let once = TaskEditor::from_task(&task).to_task();
    let twice = TaskEditor::from_task(&once).to_task();
    assert_eq!(twice.title, once.title);
    assert_eq!(twice.description, once.description);
    assert_eq!(twice.tags, once.tags);
}

#[test]
fn tags_buffer_is_comma_joined() {
    let task = sample_task();
    let ed = TaskEditor::from_task(&task);
    let tags_text: String = ed.buffers[FIELD_TAGS].chars.iter().collect();
    assert_eq!(tags_text, "ci, urgent");
}

#[test]
fn whitespace_only_tag_entries_collapse_to_empty_set() {
    let mut ed = TaskEditor::from_task(&Task::empty(TaskState::Todo));
    ed.next_field();
    ed.next_field();
    assert_eq!(ed.focus, FIELD_TAGS);
    type_text(&mut ed, "  ,   , ");
    let back = ed.to_task();
    assert!(back.tags.is_empty());
}

#[test]
fn tags_are_trimmed_and_empty_pieces_dropped() {
    let mut ed = TaskEditor::from_task(&Task::empty(TaskState::Todo));
    ed.next_field();
    ed.next_field();
    type_text(&mut ed, " red , , blue  ");
    let back = ed.to_task();
    assert_eq!(back.tags, vec!["red".to_string(), "blue".to_string()]);
}

#[test]
fn empty_description_reads_back_as_none() {
    let mut ed = TaskEditor::from_task(&Task::empty(TaskState::Todo));
    ed.next_field();
    assert_eq!(ed.focus, FIELD_DESCRIPTION);
    type_text(&mut ed, "   ");
    let back = ed.to_task();
    assert_eq!(back.description, None);
}

#[test]
fn description_is_trimmed_on_read_back() {
    let mut ed = TaskEditor::from_task(&Task::empty(TaskState::Todo));
    ed.next_field();
    type_text(&mut ed, "  keep the middle  ");
    let back = ed.to_task();
    assert_eq!(back.description, Some("keep the middle".to_string()));
}

#[test]
fn typed_title_is_read_back_verbatim() {
    let mut ed = TaskEditor::from_task(&Task::empty(TaskState::InProgress));
    type_text(&mut ed, "  spaces kept  ");
    let back = ed.to_task();
    assert_eq!(back.title, "  spaces kept  ");
    assert_eq!(back.state, TaskState::InProgress);
    assert_eq!(back.id, None);
}

#[test]
fn focus_cycles_with_wraparound() {
    let mut ed = TaskEditor::from_task(&Task::empty(TaskState::Todo));
    assert_eq!(ed.focus, FIELD_TITLE);
    ed.next_field();
    assert_eq!(ed.focus, FIELD_DESCRIPTION);
    ed.next_field();
    assert_eq!(ed.focus, FIELD_TAGS);
    ed.next_field();
    assert_eq!(ed.focus, FIELD_TITLE);
    ed.prev_field();
    assert_eq!(ed.focus, FIELD_TAGS);
}

#[test]
fn newline_on_title_advances_focus_without_editing() {
    let mut ed = TaskEditor::from_task(&Task::empty(TaskState::Todo));
    type_text(&mut ed, "abc");
    ed.process_key(KeyInput::Enter);
    assert_eq!(ed.focus, FIELD_DESCRIPTION);
    assert!(ed.buffers[FIELD_DESCRIPTION].chars.is_empty());
    let back = ed.to_task();
    assert_eq!(back.title, "abc");
}

#[test]
fn newline_in_description_inserts_line_break() {
    let mut ed = TaskEditor::from_task(&Task::empty(TaskState::Todo));
    ed.next_field();
    type_text(&mut ed, "one");
    ed.process_key(KeyInput::Enter);
    type_text(&mut ed, "two");
    let back = ed.to_task();
    assert_eq!(back.description, Some("one\ntwo".to_string()));
}

#[test]
fn backspace_and_cursor_movement_edit_in_place() {
    let mut ed = TaskEditor::from_task(&Task::empty(TaskState::Todo));
    type_text(&mut ed, "abXc");
    ed.process_key(KeyInput::Left);
    ed.process_key(KeyInput::Backspace);
    let back = ed.to_task();
    assert_eq!(back.title, "abc");
    ed.process_key(KeyInput::Right);
    ed.process_key(KeyInput::Char('d'));
    let back2 = ed.to_task();
    assert_eq!(back2.title, "abcd");
}
