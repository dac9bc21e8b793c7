use awdy::input::KeyInput;
use awdy::model::{Model, Pending, RunningState, SelectedPane};
use awdy::msg::{Message, StoreReply, StoreRequest};
use awdy::task::{StoreError, StoreErrorKind, Task, TaskState};

fn task(id: u64, state: TaskState, title: &str, tags: &[&str]) -> Task {
    Task {
        id: Some(id),
        state,
        title: title.to_string(),
        description: None,
        tags: tags.iter().map(|t| t.to_string()).collect(),
    }
}

fn loaded(m: &mut Model, all: Vec<Task>) {
    let req = m.start();
    assert!(matches!(req, StoreRequest::LoadAll));
    let next = m.apply_reply(StoreReply::AllLoaded(Ok(all)));
    assert!(next.is_none());
}

fn selected_flags(m: &Model) -> Vec<bool> {
    m.lanes.iter().map(|l| l.selected).collect()
}

#[test]
fn next_lane_wraps_and_keeps_one_flag() {
    let mut m = Model::new();
    assert_eq!(m.active_lane, 0);
    for step in 1..=8usize {
        m.update(Message::NextLane);
        assert_eq!(m.active_lane, step % 4);
        let flags = selected_flags(&m);
        assert_eq!(flags.iter().filter(|f| **f).count(), 1);
        assert!(flags[m.active_lane]);
    }
}

#[test]
fn prev_lane_wraps_backwards() {
    let mut m = Model::new();
    m.update(Message::PrevLane);
    assert_eq!(m.active_lane, 3);
    m.update(Message::PrevLane);
    assert_eq!(m.active_lane, 2);
    let flags = selected_flags(&m);
    assert_eq!(flags.iter().filter(|f| **f).count(), 1);
    assert!(flags[2]);
}

#[test]
fn task_cursor_wraps_in_nonempty_lane() {
    let mut m = Model::new();
    loaded(
        &mut m,
        vec![
            task(1, TaskState::Todo, "a", &[]),
            task(2, TaskState::Todo, "b", &[]),
            task(3, TaskState::Todo, "c", &[]),
        ],
    );
    assert_eq!(m.lanes[0].cursor, Some(0));
    m.update(Message::NextTask);
    assert_eq!(m.lanes[0].cursor, Some(1));
    m.update(Message::NextTask);
    assert_eq!(m.lanes[0].cursor, Some(2));
    m.update(Message::NextTask);
    assert_eq!(m.lanes[0].cursor, Some(0));
    m.update(Message::PrevTask);
    assert_eq!(m.lanes[0].cursor, Some(2));
}

#[test]
fn empty_lane_has_no_cursor_and_navigation_is_harmless() {
    let mut m = Model::new();
    loaded(&mut m, vec![]);
    for l in 0..4 {
        assert_eq!(m.lanes[l].cursor, None);
    }
    m.update(Message::NextTask);
    assert_eq!(m.lanes[0].cursor, None);
    m.update(Message::OpenTask);
    assert!(m.editor.is_none());
    assert_eq!(m.running_state, RunningState::MainView);
}

#[test]
fn pane_switch_toggles_between_lanes_and_tags() {
    let mut m = Model::new();
    assert_eq!(m.active_pane, SelectedPane::Lanes);
    m.update(Message::NextPane);
    assert_eq!(m.active_pane, SelectedPane::Tags);
    m.update(Message::PrevPane);
    assert_eq!(m.active_pane, SelectedPane::Lanes);
}

#[test]
fn done_state_absorbs_every_message() {
    let mut m = Model::new();
    m.update(Message::Quit);
    assert_eq!(m.running_state, RunningState::Done);
    let req = m.update(Message::NewTask);
    assert!(req.is_none());
    assert!(m.editor.is_none());
    assert_eq!(m.running_state, RunningState::Done);
}

#[test]
fn any_key_dismisses_error_first() {
    let mut m = Model::new();
    m.last_error = Some(StoreError { kind: StoreErrorKind::Io, detail: "gone".to_string() });
    let msg = m.translate_key(KeyInput::Char('q'));
    assert!(matches!(msg, Some(Message::CloseError)));
    m.update(Message::CloseError);
    assert!(m.last_error.is_none());
    assert_eq!(m.running_state, RunningState::MainView);
}

#[test]
fn key_map_main_view() {
    let m = Model::new();
    assert!(matches!(m.translate_key(KeyInput::Char('q')), Some(Message::Quit)));
    assert!(matches!(m.translate_key(KeyInput::Char('n')), Some(Message::NewTask)));
    assert!(matches!(
        m.translate_key(KeyInput::Char('4')),
        Some(Message::MoveTask(TaskState::Done))
    ));
    match m.translate_key(KeyInput::Char('a')) {
        Some(Message::ToggleTaskTag(t)) => assert_eq!(t, "Archive"),
        other => panic!("unexpected translation: {:?}", other.is_some()),
    }
    assert!(matches!(m.translate_key(KeyInput::Right), Some(Message::NextLane)));
    assert!(matches!(m.translate_key(KeyInput::Char('h')), Some(Message::PrevLane)));
    assert!(matches!(m.translate_key(KeyInput::Down), Some(Message::NextTask)));
    assert!(matches!(m.translate_key(KeyInput::Enter), Some(Message::OpenTask)));
    assert!(m.translate_key(KeyInput::Char(' ')).is_none());
    assert!(m.translate_key(KeyInput::Esc).is_none());
}

#[test]
fn key_map_tags_pane() {
    let mut m = Model::new();
    m.update(Message::NextPane);
    assert!(matches!(m.translate_key(KeyInput::Down), Some(Message::NextTag)));
    assert!(matches!(m.translate_key(KeyInput::Char('k')), Some(Message::PrevTag)));
    assert!(matches!(m.translate_key(KeyInput::Char(' ')), Some(Message::ToggleTag)));
    assert!(m.translate_key(KeyInput::Enter).is_none());
}

#[test]
fn key_map_task_view() {
    let mut m = Model::new();
    m.update(Message::NewTask);
    assert_eq!(m.running_state, RunningState::TaskView);
    assert!(matches!(m.translate_key(KeyInput::Tab), Some(Message::FocusNext)));
    assert!(matches!(m.translate_key(KeyInput::BackTab), Some(Message::FocusPrev)));
    assert!(matches!(m.translate_key(KeyInput::Esc), Some(Message::CloseTask)));
    assert!(matches!(m.translate_key(KeyInput::Ctrl('s')), Some(Message::SaveTask)));
    assert!(matches!(
        m.translate_key(KeyInput::Char('x')),
        Some(Message::KeyPress(KeyInput::Char('x')))
    ));
}

#[test]
fn state_ordinals_round_trip_and_unknown_decodes_to_todo() {
    assert_eq!(TaskState::Todo.ordinal(), 0);
    assert_eq!(TaskState::InProgress.ordinal(), 1);
    assert_eq!(TaskState::Blocked.ordinal(), 2);
    assert_eq!(TaskState::Done.ordinal(), 3);
    assert_eq!(TaskState::from_ordinal(1), TaskState::InProgress);
    assert_eq!(TaskState::from_ordinal(3), TaskState::Done);
    assert_eq!(TaskState::from_ordinal(17), TaskState::Todo);
    assert_eq!(TaskState::from_ordinal(-2), TaskState::Todo);
}

#[test]
fn state_display_names() {
    assert_eq!(TaskState::Todo.display_name(), "TODO");
    assert_eq!(TaskState::InProgress.display_name(), "In progress");
    assert_eq!(TaskState::Blocked.display_name(), "Blocked");
    assert_eq!(TaskState::Done.display_name(), "Done");
}

#[test]
fn stale_reply_is_dropped() {
    let mut m = Model::new();
    assert!(matches!(m.pending, Pending::Idle));
    let req = m.apply_reply(StoreReply::TaskSaved(Ok(3)));
    assert!(req.is_none());
    assert!(m.last_error.is_none());
    assert!(matches!(m.pending, Pending::Idle));
}
