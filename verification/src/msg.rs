//! Messages, store requests and replies, and the event translator that
//! turns a decoded key press into a message for the update engine.

use vstd::prelude::*;

use crate::filter::{archive_tag, spec_archive_tag};
use crate::input::KeyInput;
use crate::model::{Model, RunningState, SelectedPane};
use crate::task::{StoreError, Task, TaskState};

verus! {

/// Everything the update engine can be asked to do.
pub enum Message {
    /// A key press routed to the task editor.
    KeyPress(KeyInput),
    NextLane,
    PrevLane,
    NextTask,
    PrevTask,
    NextTag,
    PrevTag,
    NextPane,
    PrevPane,
    NewTask,
    OpenTask,
    CloseTask,
    SaveTask,
    MoveTask(TaskState),
    /// Flip the selected flag of the tag under the cursor.
    ToggleTag,
    /// Flip this tag on the task under the cursor.
    ToggleTaskTag(String),
    FocusNext,
    FocusPrev,
    CloseError,
    Quit,
}

/// A store operation the driving loop must perform next. The loop hands
/// the outcome back as the matching [`StoreReply`] before any further
/// message is processed.
pub enum StoreRequest {
    /// Load every task with its tags.
    LoadAll,
    /// Load one task with its tags by identity.
    LoadTask { id: u64 },
    /// Insert or update the task's fields and apply the tag-set diff,
    /// all in one transaction; report the (possibly fresh) identity.
    SaveTask { task: Task },
    /// Persist a new state for the task with this identity.
    SetTaskState { id: u64, state: TaskState },
}

/// The outcome of a store operation.
pub enum StoreReply {
    AllLoaded(Result<Vec<Task>, StoreError>),
    TaskLoaded(Result<Task, StoreError>),
    TaskSaved(Result<u64, StoreError>),
    StateSet(Result<(), StoreError>),
}

/// The key map: what message a key press produces in each mode. While
/// an error is displayed, any key dismisses it and does nothing else.
pub open spec fn spec_translated(m: Model, k: KeyInput, r: Option<Message>) -> bool {
    if m.last_error is Some {
        r == Some(Message::CloseError)
    } else {
        match m.running_state {
            RunningState::MainView => match k {
                KeyInput::Char(c) => if c == 'q' {
                    r == Some(Message::Quit)
                } else if c == 'n' {
                    r == Some(Message::NewTask)
                } else if c == '1' {
                    r == Some(Message::MoveTask(TaskState::Todo))
                } else if c == '2' {
                    r == Some(Message::MoveTask(TaskState::InProgress))
                } else if c == '3' {
                    r == Some(Message::MoveTask(TaskState::Blocked))
                } else if c == '4' {
                    r == Some(Message::MoveTask(TaskState::Done))
                } else if c == 'a' {
                    r matches Some(Message::ToggleTaskTag(t)) && t@ == spec_archive_tag()
                } else if c == 'l' {
                    r == Some(Message::NextLane)
                } else if c == 'h' {
                    r == Some(Message::PrevLane)
                } else if c == 'j' {
                    r == Some(
                        if m.active_pane == SelectedPane::Lanes {
                            Message::NextTask
                        } else {
                            Message::NextTag
                        },
                    )
                } else if c == 'k' {
                    r == Some(
                        if m.active_pane == SelectedPane::Lanes {
                            Message::PrevTask
                        } else {
                            Message::PrevTag
                        },
                    )
                } else if c == 'e' {
                    if m.active_pane == SelectedPane::Lanes {
                        r == Some(Message::OpenTask)
                    } else {
                        r is None
                    }
                } else if c == ' ' {
                    if m.active_pane == SelectedPane::Tags {
                        r == Some(Message::ToggleTag)
                    } else {
                        r is None
                    }
                } else {
                    r is None
                },
                KeyInput::Right => r == Some(Message::NextLane),
                KeyInput::Left => r == Some(Message::PrevLane),
                KeyInput::Tab => r == Some(Message::NextPane),
                KeyInput::BackTab => r == Some(Message::PrevPane),
                KeyInput::Down => r == Some(
                    if m.active_pane == SelectedPane::Lanes {
                        Message::NextTask
                    } else {
                        Message::NextTag
                    },
                ),
                KeyInput::Up => r == Some(
                    if m.active_pane == SelectedPane::Lanes {
                        Message::PrevTask
                    } else {
                        Message::PrevTag
                    },
                ),
                KeyInput::Enter => if m.active_pane == SelectedPane::Lanes {
                    r == Some(Message::OpenTask)
                } else {
                    r is None
                },
                _ => r is None,
            },
            RunningState::TaskView => match k {
                KeyInput::Tab => r == Some(Message::FocusNext),
                KeyInput::BackTab => r == Some(Message::FocusPrev),
                KeyInput::Esc => r == Some(Message::CloseTask),
                KeyInput::Ctrl(c) => if c == 's' {
                    r == Some(Message::SaveTask)
                } else {
                    r == Some(Message::KeyPress(k))
                },
                _ => r == Some(Message::KeyPress(k)),
            },
            RunningState::Done => r is None,
        }
    }
}

impl Model {
    /// Translate a decoded key press into a message, as the key map
    /// prescribes for the current mode and pane.
    pub fn translate_key(&self, k: KeyInput) -> (r: Option<Message>)
        ensures
            spec_translated(*self, k, r),
    {
        if self.last_error.is_some() {
            return Some(Message::CloseError);
        }
        match self.running_state {
            RunningState::MainView => match k {
                KeyInput::Char(c) => {
                    if c == 'q' {
                        Some(Message::Quit)
                    } else if c == 'n' {
                        Some(Message::NewTask)
                    } else if c == '1' {
                        Some(Message::MoveTask(TaskState::Todo))
                    } else if c == '2' {
                        Some(Message::MoveTask(TaskState::InProgress))
                    } else if c == '3' {
                        Some(Message::MoveTask(TaskState::Blocked))
                    } else if c == '4' {
                        Some(Message::MoveTask(TaskState::Done))
                    } else if c == 'a' {
                        Some(Message::ToggleTaskTag(archive_tag()))
                    } else if c == 'l' {
                        Some(Message::NextLane)
                    } else if c == 'h' {
                        Some(Message::PrevLane)
                    } else if c == 'j' {
                        if self.active_pane == SelectedPane::Lanes {
                            Some(Message::NextTask)
                        } else {
                            Some(Message::NextTag)
                        }
                    } else if c == 'k' {
                        if self.active_pane == SelectedPane::Lanes {
                            Some(Message::PrevTask)
                        } else {
                            Some(Message::PrevTag)
                        }
                    } else if c == 'e' {
                        if self.active_pane == SelectedPane::Lanes {
                            Some(Message::OpenTask)
                        } else {
                            None
                        }
                    } else if c == ' ' {
                        if self.active_pane == SelectedPane::Tags {
                            Some(Message::ToggleTag)
                        } else {
                            None
                        }
                    } else {
                        None
                    }
                },
                KeyInput::Right => Some(Message::NextLane),
                KeyInput::Left => Some(Message::PrevLane),
                KeyInput::Tab => Some(Message::NextPane),
                KeyInput::BackTab => Some(Message::PrevPane),
                KeyInput::Down => {
                    if self.active_pane == SelectedPane::Lanes {
                        Some(Message::NextTask)
                    } else {
                        Some(Message::NextTag)
                    }
                },
                KeyInput::Up => {
                    if self.active_pane == SelectedPane::Lanes {
                        Some(Message::PrevTask)
                    } else {
                        Some(Message::PrevTag)
                    }
                },
                KeyInput::Enter => {
                    if self.active_pane == SelectedPane::Lanes {
                        Some(Message::OpenTask)
                    } else {
                        None
                    }
                },
                _ => None,
            },
            RunningState::TaskView => match k {
                KeyInput::Tab => Some(Message::FocusNext),
                KeyInput::BackTab => Some(Message::FocusPrev),
                KeyInput::Esc => Some(Message::CloseTask),
                KeyInput::Ctrl(c) => {
                    if c == 's' {
                        Some(Message::SaveTask)
                    } else {
                        Some(Message::KeyPress(k))
                    }
                },
                _ => Some(Message::KeyPress(k)),
            },
            RunningState::Done => None,
        }
    }
}

} // verus!
