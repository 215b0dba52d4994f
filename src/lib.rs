//! Session broker for interactive question batches: a pending-session store,
//! the timeout and retention policy, answer validation, and the project
//! registry that selects the active workspace.
pub mod text;
pub mod clock;
pub mod model;
pub mod answers;
pub mod protocol;
pub mod order;
pub mod store;
pub mod registry;
pub mod project_runtime;
pub mod naming;
pub mod loading;
