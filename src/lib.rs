//! Process-lifecycle tracking and notification decisions for long-running
//! commands.
//!
//! The kernel probe's records (`record`, `probe`) are paired into completed
//! processes (`tracker`); the system and per-user policy (`policy`) decides
//! which completions notify; the user's session is located (`session`,
//! `accounts`) and the delivery command is built (`notifier`). `processor`
//! ties these together one record at a time. The foreground wrapper and its
//! local task daemon use `executor`, `formatter`, `display`, `protocol` and
//! `registry`.

pub mod accounts;
pub mod display;
pub mod executor;
pub mod formatter;
pub mod notifier;
pub mod policy;
pub mod probe;
pub mod processor;
pub mod protocol;
pub mod record;
pub mod registry;
pub mod session;
pub mod text;
pub mod tracker;
