//! Which paths and workspaces delegated work may touch.
pub mod path;
pub mod workspace;
