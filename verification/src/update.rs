//! The update engine: the reducer from (state, message) to the next
//! state and, for store-backed operations, the request the driving loop
//! must perform; and the continuation that consumes each store reply.
//!
//! Every contract here is exact: it pins the whole next model relative
//! to the old one, message by message and reply by reply.

use vstd::prelude::*;
use vstd::pervasive::VecAdditionalExecFns;

use crate::editor::{
    process_key_post, spec_description_text, spec_task_of_buffers, TaskEditor, FIELD_COUNT,
};
use crate::text::spec_join_tags;
use crate::filter::{
    contains_name, filter_lane, lex_lt, refresh_tags, selected_in, sorted_desc_distinct,
    spec_filtered, tag_in_tasks, TagAbs,
};
use crate::input::KeyInput;
use crate::model::{Lane, Model, Pending, RunningState, SelectedPane};
use crate::msg::{Message, StoreReply, StoreRequest};
use crate::task::{StoreError, Task, TaskAbs, TaskState, LANE_COUNT};

verus! {

/// Step a cursor forward with wraparound: `(c + 1) % n` for `c < n`.
pub open spec fn wrap_next(c: nat, n: nat) -> nat {
    if c + 1 < n {
        c + 1
    } else {
        0
    }
}

/// Step a cursor backward with wraparound: `(c + n - 1) % n` for `c < n`.
pub open spec fn wrap_prev(c: nat, n: nat) -> nat {
    if c > 0 {
        (c - 1) as nat
    } else {
        (n - 1) as nat
    }
}

/// The selected flags mark exactly `active`; every cursor is kept.
pub open spec fn lanes_flags_set(a: Seq<Lane>, b: Seq<Lane>, active: int) -> bool {
    &&& b.len() == a.len()
    &&& forall|i: int|
        0 <= i < a.len() ==> (#[trigger] b[i]).cursor == a[i].cursor && (b[i].selected <==> i
            == active)
}

/// A tag flipped in a tag set: the first occurrence removed if present,
/// else the tag appended.
pub open spec fn tags_toggled(old: Seq<Seq<char>>, new: Seq<Seq<char>>, t: Seq<char>) -> bool {
    if exists|k: int| 0 <= k < old.len() && old[k] == t {
        exists|k: int|
            {
                &&& 0 <= k < old.len()
                &&& old[k] == t
                &&& forall|j: int| 0 <= j < k ==> old[j] != t
                &&& new == old.remove(k)
            }
    } else {
        new == old.push(t)
    }
}

/// A saved task reconciled into its lane: the first entry with the same
/// identity replaced in place, else the task appended.
pub open spec fn reconciled(old: Seq<TaskAbs>, new: Seq<TaskAbs>, t: TaskAbs) -> bool {
    if exists|k: int| 0 <= k < old.len() && (#[trigger] old[k]).id == t.id {
        exists|k: int|
            {
                &&& 0 <= k < old.len()
                &&& (#[trigger] old[k]).id == t.id
                &&& forall|j: int| 0 <= j < k ==> (#[trigger] old[j]).id != t.id
                &&& new == old.update(k, t)
            }
    } else {
        new == old.push(t)
    }
}

/// Law: reconciling a task whose identity is already shown replaces it
/// in place — the lane's length does not change, the entry holds the
/// saved task, and every other entry stays put.
pub proof fn lemma_reconcile_replaces(old: Seq<TaskAbs>, new: Seq<TaskAbs>, t: TaskAbs, k: int)
    requires
        reconciled(old, new, t),
        0 <= k < old.len(),
        old[k].id == t.id,
        forall|j: int| 0 <= j < k ==> (#[trigger] old[j]).id != t.id,
    ensures
        new.len() == old.len(),
        new == old.update(k, t),
{
    let k2 = choose|k2: int|
        {
            &&& 0 <= k2 < old.len()
            &&& (#[trigger] old[k2]).id == t.id
            &&& forall|j: int| 0 <= j < k2 ==> (#[trigger] old[j]).id != t.id
            &&& new == old.update(k2, t)
        };
    assert(k2 == k) by {
        if k2 < k {
            assert(old[k2].id != t.id);
        } else if k < k2 {
            assert(old[k].id != t.id);
        }
    }
}

/// Law: reconciling a task whose identity is not yet shown appends it —
/// the lane grows by exactly one, with the saved task at the end.
pub proof fn lemma_reconcile_appends(old: Seq<TaskAbs>, new: Seq<TaskAbs>, t: TaskAbs)
    requires
        reconciled(old, new, t),
        forall|j: int| 0 <= j < old.len() ==> (#[trigger] old[j]).id != t.id,
    ensures
        new == old.push(t),
        new.len() == old.len() + 1,
{
}

/// The tag panel recomputed from the store: exactly the tags the tasks
/// carry, strictly descending, selected flags carried over by name.
pub open spec fn tags_panel_refreshed(
    all: Seq<TaskAbs>,
    oldp: Seq<TagAbs>,
    newp: Seq<TagAbs>,
) -> bool {
    &&& sorted_desc_distinct(newp)
    &&& forall|k: int| 0 <= k < newp.len() ==> tag_in_tasks(all, (#[trigger] newp[k]).name)
    &&& forall|i: int, j: int|
        0 <= i < all.len() && 0 <= j < all[i].tags.len() ==> contains_name(
            newp,
            #[trigger] all[i].tags[j],
        )
    &&& forall|k: int|
        0 <= k < newp.len() ==> ((#[trigger] newp[k]).selected <==> selected_in(
            oldp,
            newp[k].name,
        ))
}

/// How the tag cursor is clamped after the panel is rebuilt: an empty
/// panel clears it, a missing cursor lands on the first entry, and a
/// cursor at or past the last entry steps back to the second-to-last.
pub open spec fn cursor_clamped(c0: Option<usize>, n: nat, c1: Option<usize>) -> bool {
    if n == 0 {
        c1 is None
    } else {
        match c0 {
            None => c1 == Some(0usize),
            Some(idx) => if idx + 1 >= n {
                if n >= 2 {
                    c1 == Some((n - 2) as usize)
                } else {
                    c1 == Some(0usize)
                }
            } else {
                c1 == c0
            },
        }
    }
}

/// Nothing changed but the pending slot going idle.
pub open spec fn noop_post(pre: Model, post: Model) -> bool {
    post == (Model { pending: Pending::Idle, ..pre })
}

pub open spec fn quit_post(pre: Model, post: Model) -> bool {
    post == (Model { running_state: RunningState::Done, pending: Pending::Idle, ..pre })
}

pub open spec fn close_error_post(pre: Model, post: Model) -> bool {
    post == (Model { last_error: None, pending: Pending::Idle, ..pre })
}

/// Either pane switch message lands on the other pane.
pub open spec fn switch_pane_post(pre: Model, post: Model) -> bool {
    let other = if pre.active_pane == SelectedPane::Lanes {
        SelectedPane::Tags
    } else {
        SelectedPane::Lanes
    };
    post == (Model { active_pane: other, pending: Pending::Idle, ..pre })
}

/// The active lane steps with wraparound; the flags follow it.
pub open spec fn nav_lane_post(pre: Model, post: Model, down: bool) -> bool {
    let nl = if down {
        wrap_next(pre.active_lane as nat, LANE_COUNT as nat)
    } else {
        wrap_prev(pre.active_lane as nat, LANE_COUNT as nat)
    };
    &&& post == (Model {
        active_lane: post.active_lane,
        lanes: post.lanes,
        pending: Pending::Idle,
        ..pre
    })
    &&& post.active_lane == nl
    &&& lanes_flags_set(pre.lanes@, post.lanes@, nl as int)
}

/// The active lane's task cursor steps with wraparound; an empty lane
/// is left alone.
pub open spec fn nav_task_post(pre: Model, post: Model, down: bool) -> bool {
    let al = pre.active_lane as int;
    let n = pre.tasks@[al]@.len();
    &&& post == (Model { lanes: post.lanes, pending: Pending::Idle, ..pre })
    &&& match pre.lanes@[al].cursor {
        None => post.lanes == pre.lanes,
        Some(c) => {
            let k = if down {
                wrap_next(c as nat, n)
            } else {
                wrap_prev(c as nat, n)
            };
            post.lanes@ == pre.lanes@.update(
                al,
                (Lane { selected: pre.lanes@[al].selected, cursor: Some(k as usize) }),
            )
        },
    }
}

/// The tag cursor steps with wraparound; an empty panel is left alone.
pub open spec fn nav_tag_post(pre: Model, post: Model, down: bool) -> bool {
    let n = pre.tags@.len();
    match pre.tags_cursor {
        None => noop_post(pre, post),
        Some(c) => {
            let k = if down {
                wrap_next(c as nat, n)
            } else {
                wrap_prev(c as nat, n)
            };
            post == (Model { tags_cursor: Some(k as usize), pending: Pending::Idle, ..pre })
        },
    }
}

/// The editor buffers agree with the given record, focus on the title.
pub open spec fn editor_holds_task(ed: TaskEditor, t: TaskAbs) -> bool {
    &&& ed.wf()
    &&& ed@.id == t.id
    &&& ed@.state == t.state
    &&& ed@.title == t.title
    &&& ed@.description == spec_description_text(t.description)
    &&& ed@.tags_text == spec_join_tags(t.tags)
    &&& ed@.focus == 0
}

/// A fresh editor opens over an empty task in the active lane's state.
pub open spec fn new_task_post(pre: Model, post: Model) -> bool {
    &&& post == (Model {
        running_state: RunningState::TaskView,
        editor: post.editor,
        pending: Pending::Idle,
        ..pre
    })
    &&& match post.editor {
        Some(ed) => editor_holds_task(
            ed,
            (TaskAbs {
                id: None,
                state: TaskState::spec_from_ordinal(pre.active_lane as int),
                title: Seq::empty(),
                description: None,
                tags: Seq::empty(),
            }),
        ),
        None => false,
    }
}

/// Opening asks the store for the task under the cursor; with no cursor
/// or an unpersisted task nothing happens.
pub open spec fn open_task_post(
    pre: Model,
    post: Model,
    req: Option<StoreRequest>,
) -> bool {
    let al = pre.active_lane as int;
    match pre.lanes@[al].cursor {
        None => noop_post(pre, post) && req is None,
        Some(idx) => match pre.tasks@[al]@[idx as int].id {
            Some(id) => {
                &&& post == (Model { pending: Pending::Opening, ..pre })
                &&& req == Some(StoreRequest::LoadTask { id })
            },
            None => noop_post(pre, post) && req is None,
        },
    }
}

pub open spec fn close_task_post(pre: Model, post: Model) -> bool {
    post == (Model {
        running_state: RunningState::MainView,
        editor: None,
        pending: Pending::Idle,
        ..pre
    })
}

/// Saving reads the buffers back into a task, hands it to the store,
/// and holds a copy to reopen on failure or reconcile on success.
pub open spec fn save_task_post(pre: Model, post: Model, req: Option<StoreRequest>) -> bool {
    match pre.editor {
        None => noop_post(pre, post) && req is None,
        Some(ed) => {
            let t = spec_task_of_buffers(ed@.id, ed@.state, ed@.title, ed@.description, ed@.tags_text);
            &&& post == (Model { editor: None, pending: post.pending, ..pre })
            &&& match post.pending {
                Pending::Saving { task } => task@ == t,
                _ => false,
            }
            &&& match req {
                Some(StoreRequest::SaveTask { task }) => task@ == t,
                _ => false,
            }
        },
    }
}

/// Moving first persists the new state; nothing in memory changes yet.
pub open spec fn move_task_post(
    pre: Model,
    post: Model,
    req: Option<StoreRequest>,
    to: TaskState,
) -> bool {
    let al = pre.active_lane as int;
    if to.spec_ordinal() == al {
        noop_post(pre, post) && req is None
    } else {
        match pre.lanes@[al].cursor {
            None => noop_post(pre, post) && req is None,
            Some(idx) => match pre.tasks@[al]@[idx as int].id {
                Some(id) => {
                    &&& post == (Model {
                        pending: Pending::Moving { from: pre.active_lane, idx, to },
                        ..pre
                    })
                    &&& req == Some(StoreRequest::SetTaskState { id, state: to })
                },
                None => noop_post(pre, post) && req is None,
            },
        }
    }
}

/// The tag is flipped on the task under the cursor, in memory first,
/// and the changed task is handed to the store.
pub open spec fn toggle_task_tag_post(
    pre: Model,
    post: Model,
    req: Option<StoreRequest>,
    tag: Seq<char>,
) -> bool {
    let al = pre.active_lane as int;
    match pre.lanes@[al].cursor {
        None => noop_post(pre, post) && req is None,
        Some(idx) => {
            let t1 = pre.tasks@[al]@[idx as int]@;
            let t2 = post.tasks@[al]@[idx as int]@;
            &&& post == (Model {
                tasks: post.tasks,
                pending: Pending::TogglingSave,
                ..pre
            })
            &&& post.tasks@.len() == pre.tasks@.len()
            &&& forall|l: int| 0 <= l < LANE_COUNT && l != al ==> post.tasks@[l] == pre.tasks@[l]
            &&& post.tasks@[al]@.len() == pre.tasks@[al]@.len()
            &&& forall|j: int|
                0 <= j < pre.tasks@[al]@.len() && j != idx as int ==> post.tasks@[al]@[j]
                    == pre.tasks@[al]@[j]
            &&& t2.id == t1.id
            &&& t2.state == t1.state
            &&& t2.title == t1.title
            &&& t2.description == t1.description
            &&& tags_toggled(t1.tags, t2.tags, tag)
            &&& match req {
                Some(StoreRequest::SaveTask { task }) => task@ == t2,
                _ => false,
            }
        },
    }
}

/// The filter flag under the tag cursor flips, then the lanes are
/// recomputed; the flag stays flipped even if that recomputation fails.
pub open spec fn toggle_filter_post(pre: Model, post: Model, req: Option<StoreRequest>) -> bool {
    match pre.tags_cursor {
        None => noop_post(pre, post) && req is None,
        Some(ti) => {
            &&& post == (Model { tags: post.tags, pending: Pending::FilterRefresh, ..pre })
            &&& post.tags@.len() == pre.tags@.len()
            &&& forall|j: int| 0 <= j < pre.tags@.len() && j != ti as int ==> post.tags@[j] == pre.tags@[j]
            &&& post.tags@[ti as int].name == pre.tags@[ti as int].name
            &&& post.tags@[ti as int].selected == !pre.tags@[ti as int].selected
            &&& req == Some(StoreRequest::LoadAll)
        },
    }
}

/// Focus cycles through the editor's fields; outside the editor nothing
/// happens.
pub open spec fn focus_post(pre: Model, post: Model, forward: bool) -> bool {
    if pre.running_state == RunningState::TaskView && pre.editor is Some {
        let e1 = pre.editor->0;
        &&& post == (Model { editor: post.editor, pending: Pending::Idle, ..pre })
        &&& match post.editor {
            Some(e2) => {
                &&& e2.wf()
                &&& e2@.id == e1@.id
                &&& e2@.state == e1@.state
                &&& e2@.focus == if forward {
                    (e1@.focus + 1) % (FIELD_COUNT as int)
                } else {
                    (e1@.focus + FIELD_COUNT - 1) % (FIELD_COUNT as int)
                }
                &&& crate::editor::unchanged_buffers(e1, e2)
            },
            None => false,
        }
    } else {
        noop_post(pre, post)
    }
}

/// A key press is routed to the editor; outside the editor nothing
/// happens.
pub open spec fn key_press_post(pre: Model, post: Model, k: KeyInput) -> bool {
    if pre.running_state == RunningState::TaskView && pre.editor is Some {
        &&& post == (Model { editor: post.editor, pending: Pending::Idle, ..pre })
        &&& match post.editor {
            Some(e2) => e2.wf() && process_key_post(pre.editor->0, e2, k),
            None => false,
        }
    } else {
        noop_post(pre, post)
    }
}

impl Model {
    /// Make `nl` the active lane and move the selected flag onto it.
    fn set_active_lane(&mut self, nl: usize)
        requires
            old(self).wf(),
            nl < LANE_COUNT,
        ensures
            final(self).wf(),
            *final(self) == (Model {
                active_lane: nl,
                lanes: final(self).lanes,
                ..*old(self)
            }),
            lanes_flags_set(old(self).lanes@, final(self).lanes@, nl as int),
    {
        let ol = self.active_lane;
        let lane = &mut self.lanes[ol];
        lane.selected = false;
        let lane2 = &mut self.lanes[nl];
        lane2.selected = true;
        self.active_lane = nl;
    }

    /// Process one message: mutate the model and say what the store
    /// must do next, exactly as the per-message contract prescribes.
    /// Once the state machine is done, messages fall on deaf ears.
    pub fn update(&mut self, msg: Message) -> (req: Option<StoreRequest>)
        requires
            old(self).wf(),
        ensures
            final(self).wf(),
            old(self).running_state == RunningState::Done ==> *final(self) == *old(self) && req
                is None,
            old(self).running_state != RunningState::Done ==> match msg {
                Message::Quit => quit_post(*old(self), *final(self)) && req is None,
                Message::CloseError => close_error_post(*old(self), *final(self)) && req is None,
                Message::NextPane | Message::PrevPane => switch_pane_post(*old(self), *final(self))
                    && req is None,
                Message::NextLane => nav_lane_post(*old(self), *final(self), true) && req is None,
                Message::PrevLane => nav_lane_post(*old(self), *final(self), false) && req is None,
                Message::NextTask => nav_task_post(*old(self), *final(self), true) && req is None,
                Message::PrevTask => nav_task_post(*old(self), *final(self), false) && req is None,
                Message::NextTag => nav_tag_post(*old(self), *final(self), true) && req is None,
                Message::PrevTag => nav_tag_post(*old(self), *final(self), false) && req is None,
                Message::NewTask => new_task_post(*old(self), *final(self)) && req is None,
                Message::OpenTask => open_task_post(*old(self), *final(self), req),
                Message::CloseTask => close_task_post(*old(self), *final(self)) && req is None,
                Message::SaveTask => save_task_post(*old(self), *final(self), req),
                Message::MoveTask(to) => move_task_post(*old(self), *final(self), req, to),
                Message::ToggleTag => toggle_filter_post(*old(self), *final(self), req),
                Message::ToggleTaskTag(tag) => toggle_task_tag_post(
                    *old(self),
                    *final(self),
                    req,
                    tag@,
                ),
                Message::FocusNext => focus_post(*old(self), *final(self), true) && req is None,
                Message::FocusPrev => focus_post(*old(self), *final(self), false) && req is None,
                Message::KeyPress(k) => key_press_post(*old(self), *final(self), k) && req is None,
            },
    {
        if self.running_state == RunningState::Done {
            return None;
        }
        self.pending = Pending::Idle;
        match msg {
            Message::Quit => {
                self.running_state = RunningState::Done;
                None
            },
            Message::CloseError => {
                self.last_error = None;
                None
            },
            Message::NextPane | Message::PrevPane => {
                self.active_pane = if self.active_pane == SelectedPane::Lanes {
                    SelectedPane::Tags
                } else {
                    SelectedPane::Lanes
                };
                None
            },
            Message::NextLane => {
                let nl = (self.active_lane + 1) % LANE_COUNT;
                self.set_active_lane(nl);
                None
            },
            Message::PrevLane => {
                let nl = (self.active_lane + LANE_COUNT - 1) % LANE_COUNT;
                self.set_active_lane(nl);
                None
            },
            Message::NextTask => {
                let al = self.active_lane;
                let n = self.tasks[al].len();
                match self.lanes[al].cursor {
                    Some(c) => {
                        let lane = &mut self.lanes[al];
                        lane.cursor = Some(
                            if c + 1 < n {
                                c + 1
                            } else {
                                0
                            },
                        );
                        proof {
                            assert(self.lanes@ =~= old(self).lanes@.update(
                                al as int,
                                (Lane {
                                    selected: old(self).lanes@[al as int].selected,
                                    cursor: self.lanes@[al as int].cursor,
                                }),
                            ));
                        }
                    },
                    None => {
                    },
                }
                None
            },
            Message::PrevTask => {
                let al = self.active_lane;
                let n = self.tasks[al].len();
                match self.lanes[al].cursor {
                    Some(c) => {
                        let lane = &mut self.lanes[al];
                        lane.cursor = Some(
                            if c > 0 {
                                c - 1
                            } else {
                                n - 1
                            },
                        );
                        proof {
                            assert(self.lanes@ =~= old(self).lanes@.update(
                                al as int,
                                (Lane {
                                    selected: old(self).lanes@[al as int].selected,
                                    cursor: self.lanes@[al as int].cursor,
                                }),
                            ));
                        }
                    },
                    None => {
                    },
                }
                None
            },
            Message::NextTag => {
                let n = self.tags.len();
                match self.tags_cursor {
                    Some(c) => {
                        self.tags_cursor = Some(
                            if c + 1 < n {
                                c + 1
                            } else {
                                0
                            },
                        );
                    },
                    None => {
                    },
                }
                None
            },
            Message::PrevTag => {
                let n = self.tags.len();
                match self.tags_cursor {
                    Some(c) => {
                        self.tags_cursor = Some(
                            if c > 0 {
                                c - 1
                            } else {
                                n - 1
                            },
                        );
                    },
                    None => {
                    },
                }
                None
            },
            Message::NewTask => {
                let task = Task::empty(TaskState::from_ordinal(self.active_lane as i64));
                proof {
                    assert(spec_join_tags(Seq::<Seq<char>>::empty()) == Seq::<char>::empty());
                }
                self.editor = Some(TaskEditor::from_task(&task));
                self.running_state = RunningState::TaskView;
                None
            },
            Message::OpenTask => {
                let al = self.active_lane;
                match self.lanes[al].cursor {
                    None => None,
                    Some(idx) => {
                        let list = &self.tasks[al];
                        match list[idx].id {
                            None => None,
                            Some(id) => {
                                self.pending = Pending::Opening;
                                Some(StoreRequest::LoadTask { id })
                            },
                        }
                    },
                }
            },
            Message::CloseTask => {
                self.running_state = RunningState::MainView;
                self.editor = None;
                None
            },
            Message::SaveTask => {
                match self.editor.take() {
                    None => None,
                    Some(ed) => {
                        let task = ed.to_task();
                        let copy = task.duplicate();
                        self.pending = Pending::Saving { task };
                        Some(StoreRequest::SaveTask { task: copy })
                    },
                }
            },
            Message::MoveTask(to) => {
                let al = self.active_lane;
                if to.ordinal() == al {
                    return None;
                }
                match self.lanes[al].cursor {
                    None => None,
                    Some(idx) => {
                        let list = &self.tasks[al];
                        match list[idx].id {
                            None => None,
                            Some(id) => {
                                self.pending = Pending::Moving { from: al, idx, to };
                                Some(StoreRequest::SetTaskState { id, state: to })
                            },
                        }
                    },
                }
            },
            Message::ToggleTag => {
                match self.tags_cursor {
                    None => None,
                    Some(ti) => {
                        let item = &mut self.tags[ti];
                        item.selected = !item.selected;
                        proof {
                            let ov = old(self).tags.deep_view();
                            let nv = self.tags.deep_view();
                            assert(nv.len() == ov.len());
                            assert(forall|k: int|
                                0 <= k < nv.len() ==> (#[trigger] nv[k]).name == ov[k].name);
                            assert forall|i: int, j: int|
                                0 <= i < j < nv.len() implies lex_lt(
                                (#[trigger] nv[j]).name,
                                (#[trigger] nv[i]).name,
                            ) by {
                                assert(lex_lt(ov[j].name, ov[i].name));
                            }
                        }
                        self.pending = Pending::FilterRefresh;
                        Some(StoreRequest::LoadAll)
                    },
                }
            },
            Message::ToggleTaskTag(tag) => {
                let al = self.active_lane;
                match self.lanes[al].cursor {
                    None => None,
                    Some(idx) => {
                        let list = &mut self.tasks[al];
                        let t = &mut list[idx];
                        toggle_tag_in(&mut t.tags, tag);
                        let copy = self.tasks[al][idx].duplicate();
                        self.pending = Pending::TogglingSave;
                        Some(StoreRequest::SaveTask { task: copy })
                    },
                }
            },
            Message::FocusNext => {
                if self.running_state == RunningState::TaskView {
                    match &mut self.editor {
                        Some(ed) => ed.next_field(),
                        None => {
                        },
                    }
                }
                None
            },
            Message::FocusPrev => {
                if self.running_state == RunningState::TaskView {
                    match &mut self.editor {
                        Some(ed) => ed.prev_field(),
                        None => {
                        },
                    }
                }
                None
            },
            Message::KeyPress(k) => {
                if self.running_state == RunningState::TaskView {
                    match &mut self.editor {
                        Some(ed) => ed.process_key(k),
                        None => {
                        },
                    }
                }
                None
            },
        }
    }
}

/// A store failure lands in the error slot; nothing else moves.
pub open spec fn fail_post(pre: Model, post: Model, e: StoreError) -> bool {
    post == (Model { last_error: Some(e), pending: Pending::Idle, ..pre })
}

/// A loaded task opens in the editor and the view switches.
pub open spec fn opened_post(pre: Model, post: Model, t: Task) -> bool {
    &&& post == (Model {
        editor: post.editor,
        running_state: RunningState::TaskView,
        pending: Pending::Idle,
        ..pre
    })
    &&& match post.editor {
        Some(ed) => editor_holds_task(ed, t@),
        None => false,
    }
}

/// The write succeeded: the task now carries its identity and the tag
/// panel refresh is requested before reconciling.
pub open spec fn save_ok_post(
    pre: Model,
    post: Model,
    req: Option<StoreRequest>,
    task: Task,
    id: u64,
) -> bool {
    &&& post == (Model { pending: post.pending, ..pre })
    &&& match post.pending {
        Pending::SavedRefreshing { task: t2 } => t2@ == (TaskAbs { id: Some(id), ..task@ }),
        _ => false,
    }
    &&& req == Some(StoreRequest::LoadAll)
}

/// The write failed: the editor reopens over the same task, with the
/// failure in the error slot; nothing is lost.
pub open spec fn save_err_post(pre: Model, post: Model, task: Task, e: StoreError) -> bool {
    &&& post == (Model {
        editor: post.editor,
        running_state: RunningState::TaskView,
        last_error: Some(e),
        pending: Pending::Idle,
        ..pre
    })
    &&& match post.editor {
        Some(ed) => editor_holds_task(ed, task@),
        None => false,
    }
}

/// Every lane cursor rests on the first entry, or on nothing when the
/// lane is empty.
pub open spec fn lanes_cursors_reset(post: Model) -> bool {
    forall|l: int|
        0 <= l < LANE_COUNT ==> (#[trigger] post.lanes@[l]).cursor == (if post.tasks@[l]@.len()
            == 0 {
            None::<usize>
        } else {
            Some(0usize)
        })
}

/// The selected flags are untouched.
pub open spec fn lanes_flags_kept(pre: Model, post: Model) -> bool {
    &&& post.lanes@.len() == pre.lanes@.len()
    &&& forall|l: int|
        0 <= l < pre.lanes@.len() ==> (#[trigger] post.lanes@[l]).selected
            == pre.lanes@[l].selected
}

/// Every lane shows exactly the filtered view of the store contents
/// under the given tag panel.
pub open spec fn lanes_refiltered(all: Seq<TaskAbs>, panel: Seq<TagAbs>, post: Model) -> bool {
    forall|l: int|
        0 <= l < LANE_COUNT ==> (#[trigger] post.tasks@[l]).deep_view() == spec_filtered(
            all,
            l,
            panel,
        )
}

/// Tag panel and all four lanes recomputed from the store.
pub open spec fn full_refresh_ok_post(pre: Model, post: Model, all: Vec<Task>) -> bool {
    &&& post == (Model {
        tags: post.tags,
        tags_cursor: post.tags_cursor,
        tasks: post.tasks,
        lanes: post.lanes,
        pending: Pending::Idle,
        ..pre
    })
    &&& tags_panel_refreshed(all.deep_view(), pre.tags.deep_view(), post.tags.deep_view())
    &&& cursor_clamped(pre.tags_cursor, post.tags@.len() as nat, post.tags_cursor)
    &&& lanes_refiltered(all.deep_view(), post.tags.deep_view(), post)
    &&& lanes_flags_kept(pre, post)
    &&& lanes_cursors_reset(post)
}

/// Only the lanes recomputed (a filter flag changed); the panel stays.
pub open spec fn filter_refresh_ok_post(pre: Model, post: Model, all: Vec<Task>) -> bool {
    &&& post == (Model {
        tasks: post.tasks,
        lanes: post.lanes,
        pending: Pending::Idle,
        ..pre
    })
    &&& lanes_refiltered(all.deep_view(), pre.tags.deep_view(), post)
    &&& lanes_flags_kept(pre, post)
    &&& lanes_cursors_reset(post)
}

/// After a successful save: panel refreshed, back to the main view,
/// and the task reconciled into its lane — replaced in place if its
/// identity was already shown there, else appended.
pub open spec fn saved_refresh_ok_post(pre: Model, post: Model, task: Task, all: Vec<Task>) -> bool {
    let st = task@.state.spec_ordinal();
    &&& post == (Model {
        tags: post.tags,
        tags_cursor: post.tags_cursor,
        running_state: RunningState::MainView,
        editor: None,
        tasks: post.tasks,
        lanes: post.lanes,
        pending: Pending::Idle,
        ..pre
    })
    &&& tags_panel_refreshed(all.deep_view(), pre.tags.deep_view(), post.tags.deep_view())
    &&& cursor_clamped(pre.tags_cursor, post.tags@.len() as nat, post.tags_cursor)
    &&& post.tasks@.len() == LANE_COUNT
    &&& reconciled(pre.tasks@[st].deep_view(), post.tasks@[st].deep_view(), task@)
    &&& forall|l: int| 0 <= l < LANE_COUNT && l != st ==> post.tasks@[l] == pre.tasks@[l]
    &&& lanes_flags_kept(pre, post)
    &&& forall|l: int|
        0 <= l < LANE_COUNT && l != st ==> (#[trigger] post.lanes@[l]).cursor
            == pre.lanes@[l].cursor
    &&& post.lanes@[st].cursor == (if pre.lanes@[st].cursor is None {
        Some(0usize)
    } else {
        pre.lanes@[st].cursor
    })
}

/// After a successful move write: the task leaves its source lane (the
/// cursor stepping back when it sat on the last entry, clearing when
/// the lane empties) and joins the end of its destination lane.
pub open spec fn move_ok_post(
    pre: Model,
    post: Model,
    from: usize,
    idx: usize,
    to: TaskState,
) -> bool {
    let n = pre.tasks@[from as int]@.len();
    let dst = to.spec_ordinal();
    if from < LANE_COUNT && idx < n && dst != from as int {
        &&& post == (Model {
            tasks: post.tasks,
            lanes: post.lanes,
            pending: Pending::Idle,
            ..pre
        })
        &&& post.tasks@.len() == LANE_COUNT
        &&& post.tasks@[from as int]@ == pre.tasks@[from as int]@.remove(idx as int)
        &&& post.tasks@[dst]@ == pre.tasks@[dst]@.push(pre.tasks@[from as int]@[idx as int])
        &&& forall|l: int|
            0 <= l < LANE_COUNT && l != from as int && l != dst ==> post.tasks@[l]
                == pre.tasks@[l]
        &&& lanes_flags_kept(pre, post)
        &&& forall|l: int|
            0 <= l < LANE_COUNT && l != from as int && l != dst ==> (#[trigger] post.lanes@[l]).cursor
                == pre.lanes@[l].cursor
        &&& post.lanes@[from as int].cursor == (if n == 1 {
            None::<usize>
        } else {
            match pre.lanes@[from as int].cursor {
                Some(cur) => if cur + 1 >= n {
                    Some((n - 2) as usize)
                } else {
                    Some(cur)
                },
                None => None::<usize>,
            }
        })
        &&& post.lanes@[dst].cursor == (if pre.lanes@[dst].cursor is None {
            Some(0usize)
        } else {
            pre.lanes@[dst].cursor
        })
    } else {
        noop_post(pre, post)
    }
}

/// The tag flip is stored; the full refresh comes next.
pub open spec fn toggling_saved_ok_post(pre: Model, post: Model, req: Option<StoreRequest>) -> bool {
    &&& post == (Model { pending: Pending::FullRefresh, ..pre })
    &&& req == Some(StoreRequest::LoadAll)
}

impl Model {
    /// Hand in the first request of a session: load everything, so the
    /// panel and the lanes can be computed.
    pub fn start(&mut self) -> (req: StoreRequest)
        requires
            old(self).wf(),
        ensures
            final(self).wf(),
            *final(self) == (Model { pending: Pending::FullRefresh, ..*old(self) }),
            req == StoreRequest::LoadAll,
    {
        self.pending = Pending::FullRefresh;
        StoreRequest::LoadAll
    }

    /// Rebuild the tag panel from the store contents and clamp the tag
    /// cursor onto it.
    fn refresh_tag_panel(&mut self, all: &Vec<Task>)
        requires
            old(self).wf(),
        ensures
            final(self).wf(),
            *final(self) == (Model {
                tags: final(self).tags,
                tags_cursor: final(self).tags_cursor,
                ..*old(self)
            }),
            tags_panel_refreshed(
                all.deep_view(),
                old(self).tags.deep_view(),
                final(self).tags.deep_view(),
            ),
            cursor_clamped(old(self).tags_cursor, final(self).tags@.len() as nat, final(self).tags_cursor),
    {
        let nt = refresh_tags(all, &self.tags);
        self.tags = nt;
        let n = self.tags.len();
        if n == 0 {
            self.tags_cursor = None;
        } else {
            match self.tags_cursor {
                None => {
                    self.tags_cursor = Some(0);
                },
                Some(idx) => {
                    if idx >= n - 1 {
                        self.tags_cursor = Some(
                            if n >= 2 {
                                n - 2
                            } else {
                                0
                            },
                        );
                    }
                },
            }
        }
    }

    /// Recompute all four lanes from the store contents under the
    /// current panel, every cursor back on the first entry.
    fn refilter_lanes(&mut self, all: &Vec<Task>)
        requires
            old(self).wf(),
        ensures
            final(self).wf(),
            *final(self) == (Model {
                tasks: final(self).tasks,
                lanes: final(self).lanes,
                ..*old(self)
            }),
            lanes_refiltered(all.deep_view(), old(self).tags.deep_view(), *final(self)),
            lanes_flags_kept(*old(self), *final(self)),
            lanes_cursors_reset(*final(self)),
    {
        let l0 = filter_lane(all, 0, &self.tags);
        let l1 = filter_lane(all, 1, &self.tags);
        let l2 = filter_lane(all, 2, &self.tags);
        let l3 = filter_lane(all, 3, &self.tags);
        let c0: Option<usize> = if l0.len() == 0 {
            None
        } else {
            Some(0)
        };
        let c1: Option<usize> = if l1.len() == 0 {
            None
        } else {
            Some(0)
        };
        let c2: Option<usize> = if l2.len() == 0 {
            None
        } else {
            Some(0)
        };
        let c3: Option<usize> = if l3.len() == 0 {
            None
        } else {
            Some(0)
        };
        let mut nt: Vec<Vec<Task>> = Vec::new();
        nt.push(l0);
        nt.push(l1);
        nt.push(l2);
        nt.push(l3);
        self.tasks = nt;
        let lane0 = &mut self.lanes[0];
        lane0.cursor = c0;
        let lane1 = &mut self.lanes[1];
        lane1.cursor = c1;
        let lane2 = &mut self.lanes[2];
        lane2.cursor = c2;
        let lane3 = &mut self.lanes[3];
        lane3.cursor = c3;
    }

    /// Consume a store reply: continue the flow the pending slot names,
    /// or surface the failure; a reply nothing waits for is dropped.
    #[verifier::rlimit(60)]
    pub fn apply_reply(&mut self, reply: StoreReply) -> (req: Option<StoreRequest>)
        requires
            old(self).wf(),
        ensures
            final(self).wf(),
            match (old(self).pending, reply) {
                (Pending::Opening, StoreReply::TaskLoaded(res)) => match res {
                    Ok(t) => opened_post(*old(self), *final(self), t) && req is None,
                    Err(e) => fail_post(*old(self), *final(self), e) && req is None,
                },
                (Pending::Saving { task }, StoreReply::TaskSaved(res)) => match res {
                    Ok(id) => save_ok_post(*old(self), *final(self), req, task, id),
                    Err(e) => save_err_post(*old(self), *final(self), task, e) && req is None,
                },
                (Pending::SavedRefreshing { task }, StoreReply::AllLoaded(res)) => match res {
                    Ok(all) => saved_refresh_ok_post(*old(self), *final(self), task, all) && req
                        is None,
                    Err(e) => save_err_post(*old(self), *final(self), task, e) && req is None,
                },
                (Pending::Moving { from, idx, to }, StoreReply::StateSet(res)) => match res {
                    Ok(_) => move_ok_post(*old(self), *final(self), from, idx, to) && req is None,
                    Err(e) => fail_post(*old(self), *final(self), e) && req is None,
                },
                (Pending::TogglingSave, StoreReply::TaskSaved(res)) => match res {
                    Ok(_) => toggling_saved_ok_post(*old(self), *final(self), req),
                    Err(e) => fail_post(*old(self), *final(self), e) && req is None,
                },
                (Pending::FullRefresh, StoreReply::AllLoaded(res)) => match res {
                    Ok(all) => full_refresh_ok_post(*old(self), *final(self), all) && req is None,
                    Err(e) => fail_post(*old(self), *final(self), e) && req is None,
                },
                (Pending::FilterRefresh, StoreReply::AllLoaded(res)) => match res {
                    Ok(all) => filter_refresh_ok_post(*old(self), *final(self), all) && req
                        is None,
                    Err(e) => fail_post(*old(self), *final(self), e) && req is None,
                },
                _ => *final(self) == *old(self) && req is None,
            },
    {
        let mut pending = Pending::Idle;
        core::mem::swap(&mut pending, &mut self.pending);
        match (pending, reply) {
            (Pending::Opening, StoreReply::TaskLoaded(res)) => match res {
                Ok(t) => {
                    self.editor = Some(TaskEditor::from_task(&t));
                    self.running_state = RunningState::TaskView;
                    None
                },
                Err(e) => {
                    self.last_error = Some(e);
                    None
                },
            },
            (Pending::Saving { task }, StoreReply::TaskSaved(res)) => match res {
                Ok(id) => {
                    let mut task = task;
                    task.id = Some(id);
                    self.pending = Pending::SavedRefreshing { task };
                    Some(StoreRequest::LoadAll)
                },
                Err(e) => {
                    self.editor = Some(TaskEditor::from_task(&task));
                    self.running_state = RunningState::TaskView;
                    self.last_error = Some(e);
                    None
                },
            },
            (Pending::SavedRefreshing { task }, StoreReply::AllLoaded(res)) => match res {
                Ok(all) => {
                    self.refresh_tag_panel(&all);
                    self.running_state = RunningState::MainView;
                    self.editor = None;
                    let st = task.state.ordinal();
                    let ghost before = self.tasks@[st as int].deep_view();
                    let ghost tabs = task@;
                    let list = &mut self.tasks[st];
                    reconcile_into(list, task);
                    proof {
                        let after = self.tasks@[st as int].deep_view();
                        assert(reconciled(before, after, tabs));
                        if exists|k: int|
                            0 <= k < before.len() && (#[trigger] before[k]).id == tabs.id {
                            let k = choose|k: int|
                                {
                                    &&& 0 <= k < before.len()
                                    &&& (#[trigger] before[k]).id == tabs.id
                                    &&& forall|j: int|
                                        0 <= j < k ==> (#[trigger] before[j]).id != tabs.id
                                    &&& after == before.update(k, tabs)
                                };
                            assert(after.len() == before.len());
                        } else {
                            assert(after.len() == before.len() + 1);
                        }
                        assert(self.tasks@[st as int]@.len() == after.len());
                    }
                    let nonempty = self.tasks[st].len() > 0;
                    if nonempty {
                        let lane = &mut self.lanes[st];
                        if lane.cursor.is_none() {
                            lane.cursor = Some(0);
                        }
                    }
                    None
                },
                Err(e) => {
                    self.editor = Some(TaskEditor::from_task(&task));
                    self.running_state = RunningState::TaskView;
                    self.last_error = Some(e);
                    None
                },
            },
            (Pending::Moving { from, idx, to }, StoreReply::StateSet(res)) => match res {
                Ok(_) => {
                    let dst = to.ordinal();
                    let n = self.tasks[from].len();
                    if from < LANE_COUNT && idx < n && dst != from {
                        if n == 1 {
                            let lane = &mut self.lanes[from];
                            lane.cursor = None;
                        } else {
                            match self.lanes[from].cursor {
                                Some(cur) => {
                                    if cur >= n - 1 {
                                        let lane = &mut self.lanes[from];
                                        lane.cursor = Some(n - 2);
                                    }
                                },
                                None => {
                                },
                            }
                        }
                        let list = &mut self.tasks[from];
                        let moved = list.remove(idx);
                        let dlist = &mut self.tasks[dst];
                        dlist.push(moved);
                        if self.lanes[dst].cursor.is_none() {
                            let lane = &mut self.lanes[dst];
                            lane.cursor = Some(0);
                        }
                    }
                    None
                },
                Err(e) => {
                    self.last_error = Some(e);
                    None
                },
            },
            (Pending::TogglingSave, StoreReply::TaskSaved(res)) => match res {
                Ok(_) => {
                    self.pending = Pending::FullRefresh;
                    Some(StoreRequest::LoadAll)
                },
                Err(e) => {
                    self.last_error = Some(e);
                    None
                },
            },
            (Pending::FullRefresh, StoreReply::AllLoaded(res)) => match res {
                Ok(all) => {
                    self.refresh_tag_panel(&all);
                    self.refilter_lanes(&all);
                    None
                },
                Err(e) => {
                    self.last_error = Some(e);
                    None
                },
            },
            (Pending::FilterRefresh, StoreReply::AllLoaded(res)) => match res {
                Ok(all) => {
                    self.refilter_lanes(&all);
                    None
                },
                Err(e) => {
                    self.last_error = Some(e);
                    None
                },
            },
            (p, _) => {
                self.pending = p;
                None
            },
        }
    }
}

/// Replace the first entry with the task's identity, or append.
fn reconcile_into(tasks: &mut Vec<Task>, task: Task)
    ensures
        reconciled(old(tasks).deep_view(), final(tasks).deep_view(), task@),
{
    let ghost tv = old(tasks).deep_view();
    let mut i: usize = 0;
    while i < tasks.len()
        invariant
            i <= tasks@.len(),
            *tasks == *old(tasks),
            tv == tasks.deep_view(),
            tv.len() == tasks@.len(),
            forall|j: int| 0 <= j < i ==> (#[trigger] tv[j]).id != task@.id,
        decreases tasks@.len() - i,
    {
        let same = match (tasks[i].id, task.id) {
            (Some(a), Some(b)) => a == b,
            (None, None) => true,
            _ => false,
        };
        if same {
            proof {
                assert(tv[i as int].id == task@.id);
            }
            tasks.set(i, task);
            proof {
                assert(tasks.deep_view() =~~= tv.update(i as int, task@));
            }
            return ;
        }
        i += 1;
    }
    tasks.push(task);
    proof {
        assert(tasks.deep_view() =~~= tv.push(task@));
        assert(forall|k: int| 0 <= k < tv.len() ==> (#[trigger] tv[k]).id != task@.id);
    }
}

/// Flip one tag in a task's tag set: the first occurrence is removed,
/// or the tag is appended at the end.
fn toggle_tag_in(tags: &mut Vec<String>, tag: String)
    ensures
        tags_toggled(old(tags).deep_view(), final(tags).deep_view(), tag@),
{
    let ghost tv = old(tags).deep_view();
    let mut i: usize = 0;
    while i < tags.len()
        invariant
            i <= tags@.len(),
            *tags == *old(tags),
            tv == tags.deep_view(),
            tv.len() == tags@.len(),
            forall|j: int| 0 <= j < i ==> tv[j] != tag@,
        decreases tags@.len() - i,
    {
        if tags[i].eq(&tag) {
            proof {
                assert(tv[i as int] == tag@);
            }
            tags.remove(i);
            proof {
                assert(tags.deep_view() =~~= tv.remove(i as int));
            }
            return ;
        }
        i += 1;
    }
    tags.push(tag);
    proof {
        assert(tags.deep_view() =~~= tv.push(tag@));
        assert(forall|k: int| 0 <= k < tv.len() ==> tv[k] != tag@);
    }
}

} // verus!
