//! Task records and the closed set of board states.

use vstd::prelude::*;

verus! {

/// One of the four fixed board states; each maps 1:1 to a lane index 0..3.
#[derive(Clone, Copy, PartialEq, Eq, Structural, Debug)]
pub enum TaskState {
    Todo,
    InProgress,
    Blocked,
    Done,
}

/// Number of lanes / board states.
pub const LANE_COUNT: usize = 4;

impl TaskState {
    /// The ordinal persisted to the store and used as the lane index.
    pub open spec fn spec_ordinal(self) -> int {
        match self {
            TaskState::Todo => 0,
            TaskState::InProgress => 1,
            TaskState::Blocked => 2,
            TaskState::Done => 3,
        }
    }

    pub fn ordinal(self) -> (r: usize)
        ensures
            r == self.spec_ordinal(),
            r < LANE_COUNT,
    {
        match self {
            TaskState::Todo => 0,
            TaskState::InProgress => 1,
            TaskState::Blocked => 2,
            TaskState::Done => 3,
        }
    }

    /// Decode an ordinal as stored; unrecognized values decode to `Todo`.
    pub open spec fn spec_from_ordinal(v: int) -> TaskState {
        if v == 1 {
            TaskState::InProgress
        } else if v == 2 {
            TaskState::Blocked
        } else if v == 3 {
            TaskState::Done
        } else {
            TaskState::Todo
        }
    }

    pub fn from_ordinal(v: i64) -> (r: TaskState)
        ensures
            r == TaskState::spec_from_ordinal(v as int),
    {
        if v == 1 {
            TaskState::InProgress
        } else if v == 2 {
            TaskState::Blocked
        } else if v == 3 {
            TaskState::Done
        } else {
            TaskState::Todo
        }
    }

    /// The lane heading shown above this state's column.
    pub fn display_name(self) -> (r: &'static str)
        ensures
            r@ == self.spec_display_name(),
    {
        match self {
            TaskState::Todo => "TODO",
            TaskState::InProgress => "In progress",
            TaskState::Blocked => "Blocked",
            TaskState::Done => "Done",
        }
    }

    pub open spec fn spec_display_name(self) -> Seq<char> {
        match self {
            TaskState::Todo => "TODO"@,
            TaskState::InProgress => "In progress"@,
            TaskState::Blocked => "Blocked"@,
            TaskState::Done => "Done"@,
        }
    }
}

/// Mathematical image of a [`Task`]: every text field as a sequence of
/// characters. Contracts compare tasks through this view.
pub ghost struct TaskAbs {
    pub id: Option<u64>,
    pub state: TaskState,
    pub title: Seq<char>,
    pub description: Option<Seq<char>>,
    pub tags: Seq<Seq<char>>,
}

/// A task record. The identity is absent until the task is first persisted.
/// The title may be empty; nothing here requires it non-empty.
#[derive(Clone)]
pub struct Task {
    pub id: Option<u64>,
    pub state: TaskState,
    pub title: String,
    pub description: Option<String>,
    pub tags: Vec<String>,
}

impl View for Task {
    type V = TaskAbs;

    open spec fn view(&self) -> TaskAbs {
        TaskAbs {
            id: self.id,
            state: self.state,
            title: self.title@,
            description: self.description.deep_view(),
            tags: self.tags.deep_view(),
        }
    }
}

impl DeepView for Task {
    type V = TaskAbs;

    open spec fn deep_view(&self) -> TaskAbs {
        self.view()
    }
}

impl Task {
    /// A fresh, never-persisted task in the given state.
    pub fn empty(state: TaskState) -> (r: Task)
        ensures
            r@.id is None,
            r@.state == state,
            r@.title == Seq::<char>::empty(),
            r@.description is None,
            r@.tags == Seq::<Seq<char>>::empty(),
    {
        Task { id: None, state, title: String::new(), description: None, tags: Vec::new() }
    }

    /// An exact copy; unlike a derived `clone`, its contract pins the result.
    pub fn duplicate(&self) -> (r: Task)
        ensures
            r@ == self@,
    {
        let description = match &self.description {
            Some(d) => Some(d.clone()),
            None => None,
        };
        let tags = self.tags.clone();
        proof {
            assert(forall|i: int| 0 <= i < tags@.len() ==> tags@[i] == self.tags@[i]);
            assert(tags.deep_view() =~= self.tags.deep_view());
        }
        Task {
            id: self.id,
            state: self.state,
            title: self.title.clone(),
            description,
            tags,
        }
    }
}

/// Why a store operation failed; each cause is distinguishable.
#[derive(Clone, Copy, PartialEq, Eq, Structural, Debug)]
pub enum StoreErrorKind {
    /// The store could not be reached or written.
    Io,
    /// A stored row could not be decoded into a record.
    Decode,
    /// A constraint or logical failure inside the store.
    Constraint,
}

/// A failure reported by the persistence gateway.
pub struct StoreError {
    pub kind: StoreErrorKind,
    pub detail: String,
}

impl StoreError {
    pub fn duplicate(&self) -> (r: StoreError)
        ensures
            r.kind == self.kind,
            r.detail@ == self.detail@,
    {
        StoreError { kind: self.kind, detail: self.detail.clone() }
    }
}

} // verus!
