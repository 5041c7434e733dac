//! A small task-keeping library: a keyed store of task records with
//! verified lifecycle rules (creation, partial update, completion,
//! deletion, notification), and a list-backed agenda of dated entries
//! keyed by drawn identifiers.

pub mod data;
pub mod keyed;
pub mod store;
pub mod tarefas;
pub mod task;
