//! The full interaction state: lanes, tag panel, editor, error slot,
//! and the pending store operation.

use vstd::prelude::*;

use crate::editor::TaskEditor;
use crate::filter::{sorted_desc_distinct, TagItem};
use crate::task::{Task, TaskState, LANE_COUNT};

verus! {

/// The interaction state machine's phase. `Done` is absorbing: no
/// message is processed once it is reached.
#[derive(Clone, Copy, PartialEq, Eq, Structural, Debug)]
pub enum RunningState {
    MainView,
    TaskView,
    Done,
}

/// Which of the two navigable regions reacts to movement keys.
#[derive(Clone, Copy, PartialEq, Eq, Structural, Debug)]
pub enum SelectedPane {
    Lanes,
    Tags,
}

/// One lane's selection state: whether it is the active lane, and which
/// of its tasks the cursor rests on.
pub struct Lane {
    pub selected: bool,
    pub cursor: Option<usize>,
}

/// The store operation the model is waiting on, if any. The driving
/// loop performs the requested operation and hands the reply back
/// before processing any further message.
pub enum Pending {
    Idle,
    /// A task detail load for opening the editor.
    Opening,
    /// The editor's task is being written; on failure the editor
    /// reopens over this copy.
    Saving { task: Task },
    /// The write succeeded; the tag panel is being refreshed before the
    /// task is reconciled into its lane.
    SavedRefreshing { task: Task },
    /// A state change was written for the task at `idx` in lane `from`;
    /// on success it moves to lane `to.ordinal()`.
    Moving { from: usize, idx: usize, to: TaskState },
    /// A tag flip on a task is being written.
    TogglingSave,
    /// Tag panel and all lanes are being recomputed from the store.
    FullRefresh,
    /// Only the lanes are being recomputed (a filter flag changed).
    FilterRefresh,
}

/// A selection cursor is `Some(i)` with `i` in bounds exactly when the
/// list it points into is non-empty.
pub open spec fn cursor_ok(c: Option<usize>, n: nat) -> bool {
    match c {
        None => n == 0,
        Some(k) => n > 0 && k < n,
    }
}

/// The whole interaction state. Lane `i` shows the tasks of the state
/// with ordinal `i`; the editor, when open, owns a copy of one task.
pub struct Model {
    pub running_state: RunningState,
    pub active_pane: SelectedPane,
    pub active_lane: usize,
    pub lanes: Vec<Lane>,
    pub tasks: Vec<Vec<Task>>,
    pub tags: Vec<TagItem>,
    pub tags_cursor: Option<usize>,
    pub editor: Option<TaskEditor>,
    pub last_error: Option<crate::task::StoreError>,
    pub pending: Pending,
}

impl Model {
    /// The invariant every operation preserves: four lanes, the active
    /// lane in range and exactly the one flagged selected, every cursor
    /// tied to its list, the tag panel strictly descending, and an open
    /// editor well-formed and only in the task view.
    pub open spec fn wf(self) -> bool {
        &&& self.lanes@.len() == LANE_COUNT
        &&& self.tasks@.len() == LANE_COUNT
        &&& self.active_lane < LANE_COUNT
        &&& forall|i: int|
            0 <= i < LANE_COUNT ==> ((#[trigger] self.lanes@[i]).selected <==> i
                == self.active_lane as int)
        &&& forall|i: int|
            0 <= i < LANE_COUNT ==> cursor_ok(
                (#[trigger] self.lanes@[i]).cursor,
                self.tasks@[i]@.len(),
            )
        &&& cursor_ok(self.tags_cursor, self.tags@.len())
        &&& sorted_desc_distinct(self.tags.deep_view())
        &&& match self.editor {
            Some(e) => e.wf(),
            None => true,
        }
        &&& self.running_state == RunningState::MainView ==> self.editor is None
        &&& self.pending_wf()
    }

    /// What a pending operation may rely on when its reply arrives.
    pub open spec fn pending_wf(self) -> bool {
        match self.pending {
            Pending::SavedRefreshing { task } => task.id is Some,
            Pending::Moving { from, idx, to } => from < LANE_COUNT && to.spec_ordinal()
                != from as int,
            _ => true,
        }
    }

    /// Law: in every well-formed model — and every operation returns a
    /// well-formed model — the active lane index lies in `[0, 4)` and
    /// exactly one lane carries the selected flag.
    pub proof fn lemma_one_active_lane(self)
        requires
            self.wf(),
        ensures
            0 <= self.active_lane < LANE_COUNT,
            self.lanes@[self.active_lane as int].selected,
            forall|i: int|
                0 <= i < LANE_COUNT && i != self.active_lane as int ==> !(
                #[trigger] self.lanes@[i]).selected,
    {
    }

    /// Law: in every well-formed model, each lane showing at least one
    /// task has its cursor on `Some(i)` with `i` inside the list; an
    /// empty lane has no cursor.
    pub proof fn lemma_cursor_in_bounds(self, lane: int)
        requires
            self.wf(),
            0 <= lane < LANE_COUNT,
        ensures
            self.tasks@[lane]@.len() > 0 ==> (self.lanes@[lane].cursor matches Some(i) && (
            i as int) < self.tasks@[lane]@.len()),
            self.tasks@[lane]@.len() == 0 ==> self.lanes@[lane].cursor is None,
    {
        assert(cursor_ok(self.lanes@[lane].cursor, self.tasks@[lane]@.len()));
    }

    /// The empty board: main view, first lane active, nothing loaded.
    pub fn new() -> (r: Model)
        ensures
            r.wf(),
            r.running_state == RunningState::MainView,
            r.active_pane == SelectedPane::Lanes,
            r.active_lane == 0,
            r.lanes@.len() == LANE_COUNT,
            r.tasks@.len() == LANE_COUNT,
            forall|i: int| 0 <= i < LANE_COUNT ==> (#[trigger] r.tasks@[i])@.len() == 0,
            r.tags@.len() == 0,
            r.tags_cursor is None,
            r.editor is None,
            r.last_error is None,
            r.pending is Idle,
    {
        let mut lanes: Vec<Lane> = Vec::new();
        lanes.push(Lane { selected: true, cursor: None });
        lanes.push(Lane { selected: false, cursor: None });
        lanes.push(Lane { selected: false, cursor: None });
        lanes.push(Lane { selected: false, cursor: None });
        let mut tasks: Vec<Vec<Task>> = Vec::new();
        tasks.push(Vec::new());
        tasks.push(Vec::new());
        tasks.push(Vec::new());
        tasks.push(Vec::new());
        Model {
            running_state: RunningState::MainView,
            active_pane: SelectedPane::Lanes,
            active_lane: 0,
            lanes,
            tasks,
            tags: Vec::new(),
            tags_cursor: None,
            editor: None,
            last_error: None,
            pending: Pending::Idle,
        }
    }
}

} // verus!
