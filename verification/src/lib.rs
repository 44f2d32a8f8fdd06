//! Decisions of a component host: installing and upgrading components,
//! reading what their guests return, running their timers and events, and
//! guarding their state, configuration and secrets.
//!
//! Nothing here performs I/O. Work that reaches storage, the audit log, the
//! guest runtime or a clock is described as a value that the host carries out;
//! its outcome comes back as a value.
pub mod active;
pub mod audit;
pub mod clock;
pub mod composition;
pub mod config;
pub mod contract;
pub mod error;
pub mod event;
pub mod graph;
pub mod guest;
pub mod install;
pub mod install_answers;
pub mod install_laws;
pub mod install_rules;
pub mod install_steps;
pub mod install_work;
pub mod lifecycle;
pub mod migration;
pub mod model;
pub mod policies;
pub mod ports;
pub mod runtime;
pub mod scheduler;
pub mod secret;
pub mod secret_bytes;
pub mod stateful_imports;
pub mod surface;
pub mod table;
pub mod text;
pub mod timers;
pub mod val;
pub mod values;
pub mod web_app_guest;
pub mod web_guest;
pub mod web_path;
pub mod web_quota;
