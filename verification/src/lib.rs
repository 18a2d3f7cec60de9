//! A goal-directed task planner over a JSON state document.
//!
//! A domain attaches jobs to path templates; the planner searches for a
//! sequence of actions whose projected patches take the current state to the
//! target, and returns them as a workflow.
pub mod context;
pub mod dag;
pub mod error;
pub mod extract;
pub mod json;
pub mod patch;
pub mod path;
pub mod system;
pub mod task;
pub mod text;
pub mod worker;
