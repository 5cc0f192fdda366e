//! The in-memory state machine behind a group chat: an append-only event log
//! with per-thread sub-logs, a member roster with roles and permissions,
//! pending invitations, versioned rules, and the command handlers that tie
//! them together. Every handler is a synchronous transformation of the state
//! whose effect is stated in its contract.
//!
//! The parts, leaves first:
//!
//! - `types`, `message`, `events`, `thread_summary`: the data that a group
//!   is made of.
//! - `roles`, `validation`, `access_rules`, `members`, `invited_users`: who
//!   may do what, what values are acceptable, and who belongs.
//! - `event_list`, `reader`, `chat_events`, `lifecycle`, `reactions`,
//!   `expiry`: the log, reading it, and what happens to an event after it
//!   was recorded.
//! - `shown`: events and messages in the copy that a reader is handed.
//! - `group` and, one file per family of commands, `send` (with
//!   `delivery` and `everyone`), `messages`, `membership`, `update`,
//!   `threads`, `queries`, `search`, `summary`, `selected`,
//!   `selected_initial`: the group and its commands and queries.
//! - `laws`, `known_threads` and `deleted_pins`: what holds of the group
//!   whatever commands it is given.
//! - `canisters`: small rules of the canisters around a group.
//! - `text`, `seq_util`, `sorted_set`: helpers.

pub mod access_rules;
pub mod canisters;
pub mod chat_events;
pub mod deleted_pins;
pub mod delivery;
pub mod group;
pub mod event_list;
pub mod everyone;
pub mod expiry;
pub mod events;
pub mod invited_users;
pub mod known_threads;
pub mod laws;
pub mod lifecycle;
pub mod members;
pub mod membership;
pub mod message;
pub mod messages;
pub mod queries;
pub mod reactions;
pub mod reader;
pub mod results;
pub mod roles;
pub mod search;
pub mod selected;
pub mod selected_initial;
pub mod send;
pub mod shown;
pub mod seq_util;
pub mod sorted_set;
pub mod summary;
pub mod text;
pub mod thread_summary;
pub mod threads;
pub mod types;
pub mod update;
pub mod validation;
