//! ChgOps: a change-management playbook engine.
//!
//! The library resolves layered configuration documents (deep merge with
//! override semantics, merge-key expansion, cross-document reference
//! substitution), maintains a shared fact store that tasks read from and
//! write to, and executes an ordered list of tasks with conditional
//! skipping and result aggregation.

pub mod node;
pub mod merge;
pub mod expand;
pub mod strings;
pub mod resolve;
pub mod facts;
pub mod trusted;
pub mod output;
pub mod display;
pub mod pipeline;
pub mod tasks;
pub mod shell;
pub mod playbook;
pub mod workspace;
pub mod scaffold;
pub mod snippet;
pub mod filters;
