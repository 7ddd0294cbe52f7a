//! A personal task and project tracker: a store of projects and tasks with
//! create/read/update/delete operations, partial-update semantics, automatic
//! timestamp and completion bookkeeping, and derived date-range views
//! (today's tasks, upcoming tasks, aggregate statistics).
//!
//! The store's decision logic lives here, verified: what each operation
//! changes, when it succeeds, and what the listings and counts contain, all
//! stated over mathematical views of the data. Durable storage is the
//! caller's concern; a shell can mirror every mutation to disk by replaying
//! the returned values.

pub mod laws;
pub mod models;
pub mod store;
pub mod timeline;
