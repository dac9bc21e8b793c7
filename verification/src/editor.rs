//! The task editor: three text buffers, a focus cursor, and the exact
//! conversion between a task record and buffer contents.

use vstd::prelude::*;

use crate::input::{is_newline, spec_is_newline, KeyInput};
use crate::task::{Task, TaskAbs, TaskState};
use crate::text::{
    canonical_tag, is_space, join_tags, parse_tags, spec_join_tags, spec_parse_tags, spec_trim,
    str_chars, string_from_chars, trim_chars, lemma_parse_join_tags, lemma_parse_tags_canonical,
    lemma_trim_canonical, lemma_trim_idempotent,
};

verus! {

/// Buffer indices: title, description, tags.
pub const FIELD_TITLE: usize = 0;

pub const FIELD_DESCRIPTION: usize = 1;

pub const FIELD_TAGS: usize = 2;

/// Number of editable fields.
pub const FIELD_COUNT: usize = 3;

/// Mathematical image of a [`TextBuffer`].
pub ghost struct BufAbs {
    pub text: Seq<char>,
    pub cursor: int,
}

/// One editable line of text with an insertion cursor.
pub struct TextBuffer {
    pub chars: Vec<char>,
    pub cursor: usize,
}

impl View for TextBuffer {
    type V = BufAbs;

    open spec fn view(&self) -> BufAbs {
        BufAbs { text: self.chars@, cursor: self.cursor as int }
    }
}

impl TextBuffer {
    /// The cursor always sits on a position inside or just past the text.
    pub open spec fn wf(self) -> bool {
        0 <= self@.cursor <= self@.text.len()
    }

    /// A buffer holding the given text, cursor at the end.
    pub fn from_chars(chars: Vec<char>) -> (r: TextBuffer)
        ensures
            r.wf(),
            r@.text == chars@,
            r@.cursor == chars@.len(),
    {
        let cursor = chars.len();
        TextBuffer { chars, cursor }
    }

    /// Insert a character at the cursor; the cursor moves past it.
    pub fn insert(&mut self, c: char)
        requires
            old(self).wf(),
            old(self)@.text.len() < usize::MAX,
        ensures
            final(self).wf(),
            final(self)@.text == old(self)@.text.insert(old(self)@.cursor, c),
            final(self)@.cursor == old(self)@.cursor + 1,
    {
        self.chars.insert(self.cursor, c);
        self.cursor += 1;
    }

    /// Delete the character before the cursor, if any.
    pub fn backspace(&mut self)
        requires
            old(self).wf(),
        ensures
            final(self).wf(),
            old(self)@.cursor == 0 ==> *final(self) == *old(self),
            old(self)@.cursor > 0 ==> final(self)@.text == old(self)@.text.remove(
                old(self)@.cursor - 1,
            ) && final(self)@.cursor == old(self)@.cursor - 1,
    {
        if self.cursor > 0 {
            self.chars.remove(self.cursor - 1);
            self.cursor -= 1;
        }
    }

    /// Move the cursor one position left, stopping at the start.
    pub fn cursor_left(&mut self)
        requires
            old(self).wf(),
        ensures
            final(self).wf(),
            final(self)@.text == old(self)@.text,
            final(self)@.cursor == if old(self)@.cursor > 0 {
                old(self)@.cursor - 1
            } else {
                0int
            },
    {
        if self.cursor > 0 {
            self.cursor -= 1;
        }
    }

    /// Move the cursor one position right, stopping at the end.
    pub fn cursor_right(&mut self)
        requires
            old(self).wf(),
        ensures
            final(self).wf(),
            final(self)@.text == old(self)@.text,
            final(self)@.cursor == if old(self)@.cursor < old(self)@.text.len() {
                old(self)@.cursor + 1
            } else {
                old(self)@.cursor
            },
    {
        if self.cursor < self.chars.len() {
            self.cursor += 1;
        }
    }
}

/// Mathematical image of a [`TaskEditor`]: the three buffer texts and
/// the focus index.
pub ghost struct EditorAbs {
    pub id: Option<u64>,
    pub state: TaskState,
    pub title: Seq<char>,
    pub description: Seq<char>,
    pub tags_text: Seq<char>,
    pub focus: int,
}

/// A modal editing session for one task. It owns a copy of the task's
/// content, never a reference into the lanes; reconciliation happens on
/// save.
pub struct TaskEditor {
    pub task_id: Option<u64>,
    pub task_state: TaskState,
    pub buffers: Vec<TextBuffer>,
    pub focus: usize,
}

impl View for TaskEditor {
    type V = EditorAbs;

    open spec fn view(&self) -> EditorAbs {
        EditorAbs {
            id: self.task_id,
            state: self.task_state,
            title: self.buffers@[FIELD_TITLE as int]@.text,
            description: self.buffers@[FIELD_DESCRIPTION as int]@.text,
            tags_text: self.buffers@[FIELD_TAGS as int]@.text,
            focus: self.focus as int,
        }
    }
}

/// What the description buffer shows for a stored description.
pub open spec fn spec_description_text(d: Option<Seq<char>>) -> Seq<char> {
    match d {
        Some(t) => t,
        None => Seq::empty(),
    }
}

/// The task read back from buffer contents: title verbatim, description
/// trimmed with an empty result standing for no description, tags parsed
/// from the comma-separated buffer.
pub open spec fn spec_task_of_buffers(
    id: Option<u64>,
    state: TaskState,
    title: Seq<char>,
    description: Seq<char>,
    tags_text: Seq<char>,
) -> TaskAbs {
    TaskAbs {
        id,
        state,
        title,
        description: if spec_trim(description).len() == 0 {
            None
        } else {
            Some(spec_trim(description))
        },
        tags: spec_parse_tags(tags_text),
    }
}

impl TaskEditor {
    pub open spec fn wf(self) -> bool {
        &&& self.buffers@.len() == FIELD_COUNT
        &&& 0 <= self@.focus < FIELD_COUNT
        &&& forall|i: int| 0 <= i < FIELD_COUNT ==> (#[trigger] self.buffers@[i]).wf()
    }

    /// Open an editor over a copy of the given task, focus on the title,
    /// every cursor at the end of its buffer.
    pub fn from_task(task: &Task) -> (r: TaskEditor)
        ensures
            r.wf(),
            r@.id == task@.id,
            r@.state == task@.state,
            r@.title == task@.title,
            r@.description == spec_description_text(task@.description),
            r@.tags_text == spec_join_tags(task@.tags),
            r@.focus == FIELD_TITLE as int,
    {
        let title = TextBuffer::from_chars(str_chars(task.title.as_str()));
        let description = match &task.description {
            Some(d) => TextBuffer::from_chars(str_chars(d.as_str())),
            None => TextBuffer::from_chars(Vec::new()),
        };
        let tags = TextBuffer::from_chars(join_tags(&task.tags));
        let mut buffers: Vec<TextBuffer> = Vec::new();
        buffers.push(title);
        buffers.push(description);
        buffers.push(tags);
        TaskEditor { task_id: task.id, task_state: task.state, buffers, focus: FIELD_TITLE }
    }

    /// Read the buffers back into a task record.
    pub fn to_task(&self) -> (r: Task)
        requires
            self.wf(),
        ensures
            r@ == spec_task_of_buffers(
                self@.id,
                self@.state,
                self@.title,
                self@.description,
                self@.tags_text,
            ),
    {
        let title = string_from_chars(&self.buffers[FIELD_TITLE].chars);
        let trimmed = trim_chars(&self.buffers[FIELD_DESCRIPTION].chars);
        let description = if trimmed.len() == 0 {
            None
        } else {
            Some(string_from_chars(&trimmed))
        };
        let tags = parse_tags(&self.buffers[FIELD_TAGS].chars);
        Task { id: self.task_id, state: self.task_state, title, description, tags }
    }

    /// Advance focus to the next field, wrapping around.
    pub fn next_field(&mut self)
        requires
            old(self).wf(),
        ensures
            final(self).wf(),
            final(self)@.id == old(self)@.id,
            final(self)@.state == old(self)@.state,
            final(self)@.focus == (old(self)@.focus + 1) % (FIELD_COUNT as int),
            unchanged_buffers(*old(self), *final(self)),
    {
        self.focus = (self.focus + 1) % FIELD_COUNT;
    }

    /// Move focus to the previous field, wrapping around.
    pub fn prev_field(&mut self)
        requires
            old(self).wf(),
        ensures
            final(self).wf(),
            final(self)@.id == old(self)@.id,
            final(self)@.state == old(self)@.state,
            final(self)@.focus == (old(self)@.focus + FIELD_COUNT - 1) % (FIELD_COUNT as int),
            unchanged_buffers(*old(self), *final(self)),
    {
        self.focus = (self.focus + FIELD_COUNT - 1) % FIELD_COUNT;
    }

    /// Route a key press to the focused buffer. A newline while the title
    /// is focused advances focus instead of editing; every other editing
    /// key acts on the focused buffer's text and cursor.
    pub fn process_key(&mut self, key: KeyInput)
        requires
            old(self).wf(),
        ensures
            final(self).wf(),
            process_key_post(*old(self), *final(self), key),
    {
        if self.focus == FIELD_TITLE && is_newline(key) {
            self.next_field();
            return ;
        }
        let focus = self.focus;
        let buffer = &mut self.buffers[focus];
        match key {
            KeyInput::Char(c) => {
                if buffer.chars.len() < usize::MAX {
                    buffer.insert(c);
                }
            },
            KeyInput::Enter => {
                if buffer.chars.len() < usize::MAX {
                    buffer.insert('\n');
                }
            },
            KeyInput::Backspace => buffer.backspace(),
            KeyInput::Left => buffer.cursor_left(),
            KeyInput::Right => buffer.cursor_right(),
            _ => {
            },
        }
        proof {
            assert(forall|i: int|
                0 <= i < FIELD_COUNT && i != focus as int ==> self.buffers@[i]
                    == old(self).buffers@[i]);
        }
    }
}

/// What a key press does to the editor: identity and state are kept; a
/// newline on the focused title advances focus without editing; any
/// other key edits the focused buffer and leaves focus where it was.
pub open spec fn process_key_post(e1: TaskEditor, e2: TaskEditor, key: KeyInput) -> bool {
    &&& e2@.id == e1@.id
    &&& e2@.state == e1@.state
    &&& if spec_is_newline(key) && e1@.focus == FIELD_TITLE as int {
        e2@.focus == FIELD_DESCRIPTION as int && unchanged_buffers(e1, e2)
    } else {
        e2@.focus == e1@.focus && edited_at_focus(e1, e2, key)
    }
}

/// The three buffers are untouched (texts and cursors alike).
pub open spec fn unchanged_buffers(a: TaskEditor, b: TaskEditor) -> bool {
    forall|i: int| 0 <= i < FIELD_COUNT ==> a.buffers@[i] == #[trigger] b.buffers@[i]
}

/// The focused buffer was edited as the key demands; the others are
/// untouched.
pub open spec fn edited_at_focus(a: TaskEditor, b: TaskEditor, key: KeyInput) -> bool {
    let f = a.focus as int;
    let before = a.buffers@[f]@;
    let after = b.buffers@[f]@;
    &&& forall|i: int| 0 <= i < FIELD_COUNT && i != f ==> a.buffers@[i] == #[trigger] b.buffers@[i]
    &&& match key {
        KeyInput::Char(c) => if before.text.len() < usize::MAX {
            after.text == before.text.insert(before.cursor, c) && after.cursor == before.cursor
                + 1
        } else {
            after == before
        },
        KeyInput::Enter => if before.text.len() < usize::MAX {
            after.text == before.text.insert(before.cursor, '\n') && after.cursor == before.cursor
                + 1
        } else {
            after == before
        },
        KeyInput::Backspace => if before.cursor == 0 {
            after == before
        } else {
            after.text == before.text.remove(before.cursor - 1) && after.cursor == before.cursor
                - 1
        },
        KeyInput::Left => after.text == before.text && after.cursor == if before.cursor > 0 {
            before.cursor - 1
        } else {
            0int
        },
        KeyInput::Right => after.text == before.text && after.cursor == if before.cursor
            < before.text.len() {
            before.cursor + 1
        } else {
            before.cursor
        },
        _ => after == before,
    }
}

/// A task is in editor-canonical shape: its description, if present, is
/// non-empty and carries no whitespace at either end, and every tag is
/// non-empty, comma-free and has no whitespace at either end.
pub open spec fn canonical_task(t: TaskAbs) -> bool {
    &&& match t.description {
        Some(d) => d.len() > 0 && !is_space(d[0]) && !is_space(d[d.len() - 1]),
        None => true,
    }
    &&& forall|i: int| 0 <= i < t.tags.len() ==> canonical_tag(#[trigger] t.tags[i])
}

/// Round trip: writing a canonical task into editor buffers and reading
/// the buffers back yields the task unchanged. (A task fresh from a
/// parse is always canonical, so an open-then-save with no edits is the
/// identity.)
pub proof fn lemma_editor_round_trip(t: TaskAbs)
    requires
        canonical_task(t),
    ensures
        spec_task_of_buffers(
            t.id,
            t.state,
            t.title,
            spec_description_text(t.description),
            spec_join_tags(t.tags),
        ) == t,
{
    lemma_parse_join_tags(t.tags);
    match t.description {
        Some(d) => {
            lemma_trim_canonical(d);
        },
        None => {
            lemma_trim_canonical(Seq::<char>::empty());
        },
    }
}

/// One buffer conversion always lands on a canonical task, so the round
/// trip is idempotent: a task read back from buffers survives a second
/// write-and-read unchanged, whatever shape it started in.
pub proof fn lemma_editor_round_trip_idempotent(
    id: Option<u64>,
    state: TaskState,
    title: Seq<char>,
    description: Seq<char>,
    tags_text: Seq<char>,
)
    ensures
        ({
            let t1 = spec_task_of_buffers(id, state, title, description, tags_text);
            spec_task_of_buffers(
                t1.id,
                t1.state,
                t1.title,
                spec_description_text(t1.description),
                spec_join_tags(t1.tags),
            ) == t1
        }),
{
    let t1 = spec_task_of_buffers(id, state, title, description, tags_text);
    lemma_parse_tags_canonical(tags_text);
    lemma_trim_idempotent(description);
    assert(canonical_task(t1));
    lemma_editor_round_trip(t1);
}

} // verus!
