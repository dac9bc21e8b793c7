//! Core of a terminal kanban board: tasks move through four fixed states,
//! carry free-form tags, and are edited in a modal multi-field editor.
//!
//! Everything here is pure interaction logic: the Model-Update loop,
//! the tag filter engine, and the task editor's buffer management.
//! Storage and rendering live outside; they talk to this crate through
//! plain values (`StoreRequest` / `StoreReply` and `KeyInput`).

pub mod editor;
pub mod filter;
pub mod input;
pub mod model;
pub mod msg;
pub mod store;
pub mod task;
pub mod text;
pub mod update;
