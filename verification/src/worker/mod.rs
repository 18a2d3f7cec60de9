//! The domain of jobs and the planner that searches it.
pub mod distance;
pub mod domain;
pub mod planner;
pub mod router;
pub mod template;
pub mod trial;
pub mod workflow;

pub use distance::Distance;
pub use domain::{Domain, DomainError, PathSearchError, PathSearchFailure};
pub use planner::{NotFound, Planner, SearchError};
pub use workflow::{WorkUnit, Workflow};
