//! Delegations: tasks that are handed to ChatGPT Web workers.
pub mod claims;
pub mod control;
pub mod input;
pub mod observe;
pub mod prompts;
pub mod readiness;
pub mod report;
pub mod resume;
pub mod sessions;
pub mod stage;
pub mod terminal;
