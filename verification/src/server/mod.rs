//! The protocol that workers speak with the bridge.
pub mod arguments;
pub mod calls;
pub mod notices;
pub mod protocol;
pub mod tools;
