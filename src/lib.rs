//! Fleet administration for self-hosted forum instances, centred on a
//! verified remote upgrade orchestrator.
//!
//! The orchestrator is a set of deciding parts; whoever drives them runs the
//! remote commands, sleeps, probes and lookups they ask for:
//! - [`ssh`]: which host names are acceptable and how the remote shell
//!   client is invoked; [`tail`]: the output of a streamed command.
//! - [`sequencer`]: one host's upgrade as a state machine, with the laws it
//!   keeps; [`update`]: its commands and its start from the configuration.
//! - [`report`]: the facts of an upgrade, the reclaimed space, the changelog
//!   text and the decisions around posting it; [`version`] and [`html`]: what
//!   the forum reports of its version.
//! - [`fleet`]: the sequential runner and its audit log, and the summary of a
//!   parallel run.
//!
//! Around it: [`config`], [`common`], [`models`], [`utils`],
//! [`completions`], [`template`], [`groups`], [`topic`], and the text primitives of
//! [`text`].

pub mod text;
pub mod error;
pub mod ssh;
pub mod tail;
pub mod report;
pub mod sequencer;
pub mod update;
pub mod fleet;
pub mod config;
pub mod common;
pub mod models;
pub mod version;
pub mod html;
pub mod utils;
pub mod completions;
pub mod template;
pub mod groups;
pub mod topic;
