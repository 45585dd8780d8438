//! Routing, session and protocol rules of a bridge that hands coding work to
//! isolated ChatGPT Web workers.
pub mod account_diagnostics;
pub mod account_state;
pub mod accounts;
pub mod arith;
pub mod browser_pool;
pub mod cli;
pub mod delegate;
pub mod dotenv;
pub mod error;
pub mod events;
pub mod fresh_dispatch;
pub mod install;
pub mod json;
pub mod laws;
pub mod mass_ulw_web;
pub mod onboarding;
pub mod orca;
pub mod outside;
pub mod paths;
pub mod relay;
pub mod router;
pub mod security;
pub mod server;
pub mod shelf;
pub mod sort;
pub mod task_state;
pub mod telemetry;
pub mod text;
pub mod workers;
