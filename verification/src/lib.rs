//! Client-side correlation engine for an asynchronous, identity-addressed
//! remote-task protocol: matches unordered response, feedback and status
//! messages back to the per-goal, per-request consumers awaiting them.

pub mod status;
pub mod goal_id;
pub mod table;
pub mod sinks;
pub mod client;
pub mod laws;
