use awdy::input::KeyInput;
use awdy::model::{Model, RunningState};
use awdy::msg::{Message, StoreReply, StoreRequest};
use awdy::task::{StoreError, StoreErrorKind, Task, TaskState};

fn task(id: u64, state: TaskState, title: &str, tags: &[&str]) -> Task {
    Task {
        id: Some(id),
        state,
        title: title.to_string(),
        description: None,
        tags: tags.iter().map(|t| t.to_string()).collect(),
    }
}

fn io_error() -> StoreError {
    StoreError { kind: StoreErrorKind::Io, detail: "store unreachable".to_string() }
}

fn loaded(m: &mut Model, all: Vec<Task>) {
    let req = m.start();
    assert!(matches!(req, StoreRequest::LoadAll));
    assert!(m.apply_reply(StoreReply::AllLoaded(Ok(all))).is_none());
}

fn lane_titles(m: &Model, lane: usize) -> Vec<String> {
    m.tasks[lane].iter().map(|t| t.title.clone()).collect()
}

#[test]
fn saving_existing_identity_replaces_in_place() {
    let mut m = Model::new();
    let seven = task(7, TaskState::Todo, "old title", &[]);
    let eight = task(8, TaskState::Todo, "other", &[]);
    loaded(&mut m, vec![seven.clone(), eight.clone()]);
    assert_eq!(m.tasks[0].len(), 2);

    // open task 7 and save it back with a new title
    let req = m.update(Message::OpenTask);
    assert!(matches!(req, Some(StoreRequest::LoadTask { id: 7 })));
    let mut detail = seven.clone();
    detail.title = "new title".to_string();
    assert!(m.apply_reply(StoreReply::TaskLoaded(Ok(detail))).is_none());
    assert_eq!(m.running_state, RunningState::TaskView);

    let req = m.update(Message::SaveTask);
    let saved = match req {
        Some(StoreRequest::SaveTask { task }) => task,
        _ => panic!("expected a save request"),
    };
    assert_eq!(saved.id, Some(7));
    assert_eq!(saved.title, "new title");

    let req = m.apply_reply(StoreReply::TaskSaved(Ok(7)));
    assert!(matches!(req, Some(StoreRequest::LoadAll)));
    let all = vec![task(7, TaskState::Todo, "new title", &[]), eight];
    assert!(m.apply_reply(StoreReply::AllLoaded(Ok(all))).is_none());

    assert_eq!(m.running_state, RunningState::MainView);
    assert_eq!(m.tasks[0].len(), 2);
    assert_eq!(
        lane_titles(&m, 0),
        vec!["new title".to_string(), "other".to_string()]
    );
    assert_eq!(m.tasks[0][0].id, Some(7));
}

#[test]
fn saving_without_identity_appends_and_assigns_one() {
    let mut m = Model::new();
    loaded(&mut m, vec![task(1, TaskState::Todo, "first", &[])]);
    assert_eq!(m.tasks[0].len(), 1);

    m.update(Message::NewTask);
    for c in "second".chars() {
        m.update(Message::KeyPress(KeyInput::Char(c)));
    }
    let req = m.update(Message::SaveTask);
    let saved = match req {
        Some(StoreRequest::SaveTask { task }) => task,
        _ => panic!("expected a save request"),
    };
    assert_eq!(saved.id, None);
    assert_eq!(saved.title, "second");

    let req = m.apply_reply(StoreReply::TaskSaved(Ok(9)));
    assert!(matches!(req, Some(StoreRequest::LoadAll)));
    let all = vec![
        task(1, TaskState::Todo, "first", &[]),
        task(9, TaskState::Todo, "second", &[]),
    ];
    assert!(m.apply_reply(StoreReply::AllLoaded(Ok(all))).is_none());

    assert_eq!(m.tasks[0].len(), 2);
    assert_eq!(m.tasks[0][1].id, Some(9));
    assert_eq!(m.tasks[0][1].title, "second");
}

#[test]
fn failed_save_reopens_editor_with_buffers_intact() {
    let mut m = Model::new();
    loaded(&mut m, vec![]);
    m.update(Message::NewTask);
    for c in "kept".chars() {
        m.update(Message::KeyPress(KeyInput::Char(c)));
    }
    let req = m.update(Message::SaveTask);
    assert!(matches!(req, Some(StoreRequest::SaveTask { .. })));
    assert!(m.apply_reply(StoreReply::TaskSaved(Err(io_error()))).is_none());
    assert_eq!(m.running_state, RunningState::TaskView);
    assert!(m.last_error.is_some());
    let ed = m.editor.as_ref().expect("editor reopened");
    let title: String = ed.buffers[0].chars.iter().collect();
    assert_eq!(title, "kept");
}

#[test]
fn moving_the_only_blocked_task_to_done() {
    let mut m = Model::new();
    loaded(
        &mut m,
        vec![
            task(5, TaskState::Blocked, "stuck", &[]),
            task(6, TaskState::Done, "done already", &[]),
        ],
    );
    // walk to the Blocked lane
    m.update(Message::NextLane);
    m.update(Message::NextLane);
    assert_eq!(m.active_lane, 2);
    assert_eq!(m.tasks[2].len(), 1);
    assert_eq!(m.lanes[2].cursor, Some(0));

    let req = m.update(Message::MoveTask(TaskState::Done));
    assert!(matches!(
        req,
        Some(StoreRequest::SetTaskState { id: 5, state: TaskState::Done })
    ));
    assert!(m.apply_reply(StoreReply::StateSet(Ok(()))).is_none());

    assert!(m.tasks[2].is_empty());
    assert_eq!(m.lanes[2].cursor, None);
    assert_eq!(m.tasks[3].len(), 2);
    assert_eq!(m.tasks[3][1].title, "stuck");
    assert!(m.last_error.is_none());
}

#[test]
fn moving_onto_the_same_lane_is_a_no_op() {
    let mut m = Model::new();
    loaded(&mut m, vec![task(5, TaskState::Todo, "t", &[])]);
    let req = m.update(Message::MoveTask(TaskState::Todo));
    assert!(req.is_none());
    assert_eq!(m.tasks[0].len(), 1);
}

#[test]
fn failed_move_changes_nothing_in_memory() {
    let mut m = Model::new();
    loaded(&mut m, vec![task(5, TaskState::Todo, "t", &[])]);
    let req = m.update(Message::MoveTask(TaskState::Done));
    assert!(req.is_some());
    assert!(m.apply_reply(StoreReply::StateSet(Err(io_error()))).is_none());
    assert_eq!(m.tasks[0].len(), 1);
    assert!(m.tasks[3].is_empty());
    assert!(m.last_error.is_some());
}

#[test]
fn create_save_archive_and_filter_scenario() {
    let mut m = Model::new();
    loaded(&mut m, vec![]);

    // create a task titled "Write spec" in Todo and save it
    m.update(Message::NewTask);
    for c in "Write spec".chars() {
        m.update(Message::KeyPress(KeyInput::Char(c)));
    }
    let req = m.update(Message::SaveTask);
    let saved = match req {
        Some(StoreRequest::SaveTask { task }) => task,
        _ => panic!("expected a save request"),
    };
    assert_eq!(saved.state, TaskState::Todo);
    let req = m.apply_reply(StoreReply::TaskSaved(Ok(1)));
    assert!(matches!(req, Some(StoreRequest::LoadAll)));
    let store = vec![task(1, TaskState::Todo, "Write spec", &[])];
    assert!(m.apply_reply(StoreReply::AllLoaded(Ok(store))).is_none());
    assert_eq!(lane_titles(&m, 0), vec!["Write spec".to_string()]);
    assert_eq!(m.tasks[0][0].id, Some(1));

    // toggle its Archive tag: with no filter active it disappears
    let req = m.update(Message::ToggleTaskTag("Archive".to_string()));
    let saved = match req {
        Some(StoreRequest::SaveTask { task }) => task,
        _ => panic!("expected a save request"),
    };
    assert_eq!(saved.tags, vec!["Archive".to_string()]);
    let req = m.apply_reply(StoreReply::TaskSaved(Ok(1)));
    assert!(matches!(req, Some(StoreRequest::LoadAll)));
    let store = vec![task(1, TaskState::Todo, "Write spec", &["Archive"])];
    assert!(m
        .apply_reply(StoreReply::AllLoaded(Ok(store.clone())))
        .is_none());
    for lane in 0..4 {
        assert!(m.tasks[lane].is_empty(), "archived task leaked into a lane");
    }
    assert_eq!(m.tags.len(), 1);
    assert_eq!(m.tags[0].name, "Archive");
    assert_eq!(m.tags_cursor, Some(0));

    // select Archive as a filter: the task reappears in Todo
    let req = m.update(Message::ToggleTag);
    assert!(matches!(req, Some(StoreRequest::LoadAll)));
    assert!(m.tags[0].selected);
    assert!(m.apply_reply(StoreReply::AllLoaded(Ok(store))).is_none());
    assert_eq!(lane_titles(&m, 0), vec!["Write spec".to_string()]);
}

#[test]
fn failed_open_sets_error_and_stays_in_main_view() {
    let mut m = Model::new();
    loaded(&mut m, vec![task(4, TaskState::Todo, "t", &[])]);
    let req = m.update(Message::OpenTask);
    assert!(matches!(req, Some(StoreRequest::LoadTask { id: 4 })));
    assert!(m.apply_reply(StoreReply::TaskLoaded(Err(io_error()))).is_none());
    assert!(m.last_error.is_some());
    assert_eq!(m.running_state, RunningState::MainView);
    assert!(m.editor.is_none());
}

#[test]
fn close_without_saving_discards_the_editor() {
    let mut m = Model::new();
    loaded(&mut m, vec![]);
    m.update(Message::NewTask);
    for c in "draft".chars() {
        m.update(Message::KeyPress(KeyInput::Char(c)));
    }
    m.update(Message::CloseTask);
    assert!(m.editor.is_none());
    assert_eq!(m.running_state, RunningState::MainView);
    for lane in 0..4 {
        assert!(m.tasks[lane].is_empty());
    }
}

#[test]
fn focus_messages_cycle_the_editor_fields() {
    let mut m = Model::new();
    loaded(&mut m, vec![]);
    m.update(Message::NewTask);
    assert_eq!(m.editor.as_ref().unwrap().focus, 0);
    m.update(Message::FocusNext);
    assert_eq!(m.editor.as_ref().unwrap().focus, 1);
    m.update(Message::FocusPrev);
    m.update(Message::FocusPrev);
    assert_eq!(m.editor.as_ref().unwrap().focus, 2);
    // a newline on the focused title moves focus instead of editing
    m.update(Message::FocusNext);
    assert_eq!(m.editor.as_ref().unwrap().focus, 0);
    m.update(Message::KeyPress(KeyInput::Enter));
    assert_eq!(m.editor.as_ref().unwrap().focus, 1);
}

#[test]
fn save_without_an_open_editor_is_a_no_op() {
    let mut m = Model::new();
    loaded(&mut m, vec![]);
    let req = m.update(Message::SaveTask);
    assert!(req.is_none());
    assert_eq!(m.running_state, RunningState::MainView);
}

#[test]
fn toggle_filter_with_empty_panel_is_a_no_op() {
    let mut m = Model::new();
    loaded(&mut m, vec![]);
    assert_eq!(m.tags_cursor, None);
    let req = m.update(Message::ToggleTag);
    assert!(req.is_none());
}

#[test]
fn each_error_kind_is_reported_distinguishably() {
    for kind in [
        StoreErrorKind::Io,
        StoreErrorKind::Decode,
        StoreErrorKind::Constraint,
    ] {
        let mut m = Model::new();
        loaded(&mut m, vec![task(2, TaskState::Todo, "t", &[])]);
        m.update(Message::OpenTask);
        let e = StoreError { kind, detail: "cause".to_string() };
        m.apply_reply(StoreReply::TaskLoaded(Err(e)));
        let stored = m.last_error.as_ref().expect("error recorded");
        assert_eq!(stored.kind, kind);
        assert_eq!(stored.detail, "cause");
    }
}

#[test]
fn toggle_filter_flag_survives_failed_refresh() {
    let mut m = Model::new();
    loaded(&mut m, vec![task(1, TaskState::Todo, "t", &["red"])]);
    assert_eq!(m.tags.len(), 1);
    assert_eq!(m.tags_cursor, Some(0));
    let req = m.update(Message::ToggleTag);
    assert!(matches!(req, Some(StoreRequest::LoadAll)));
    assert!(m.apply_reply(StoreReply::AllLoaded(Err(io_error()))).is_none());
    assert!(m.tags[0].selected, "flag rolls back only on explicit decision");
    assert!(m.last_error.is_some());
}

#[test]
fn toggling_a_present_tag_removes_it() {
    let mut m = Model::new();
    loaded(&mut m, vec![task(1, TaskState::Todo, "t", &["red", "blue"])]);
    let req = m.update(Message::ToggleTaskTag("red".to_string()));
    let saved = match req {
        Some(StoreRequest::SaveTask { task }) => task,
        _ => panic!("expected a save request"),
    };
    assert_eq!(saved.tags, vec!["blue".to_string()]);
    // the in-memory task changed even before the store confirms
    assert_eq!(m.tasks[0][0].tags, vec!["blue".to_string()]);
}
