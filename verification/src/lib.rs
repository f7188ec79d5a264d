//! A personal task tracker's core: a record store of tasks and labels
//! with referential rules, a derived filtered and sorted view, a per-field
//! text codec, a bulk label text protocol, and the edit session state
//! machine that drives them.

pub mod date;
pub mod label;
pub mod labels_text;
pub mod session;
pub mod sorting;
pub mod store;
pub mod task;
pub mod text;
pub mod text_editor;
pub mod view;
