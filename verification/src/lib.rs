//! Core logic of an asynchronous image background-removal service: a resilient
//! worker-protocol client (connection lifecycle state machine and framing),
//! a session registry that fans results out to subscriber handles grouped by
//! task identifier, and a task-dispatch orchestrator that decides whether a
//! task needs processing and routes worker results back to subscribers.

pub mod conn;
pub mod envelope;
pub mod text;
pub mod forms;
pub mod frame;
pub mod orchestrator;
pub mod paths;
pub mod registry;
pub mod task;
