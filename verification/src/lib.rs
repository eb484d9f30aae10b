//! Resolution of OpenSSH client configuration blocks into a flat list of
//! host records, and what a terminal front end needs to list them.
//!
//! * [`ssh_config`] holds the configuration blocks and the four resolution
//!   stages: spread, pattern application, hostname defaulting and merge.
//! * [`ssh`] turns the blocks of one file into host records, and splits the
//!   command line that acts on a host.
//! * [`idempotence`] states when resolving the resolved hosts again gives
//!   the same hosts.
//! * [`listing`], [`sorting`] and [`navigation`] filter, order and lay out
//!   the hosts in a table and decide what a key press does.
//! * [`text`] holds the helpers that work on characters.

pub mod idempotence;
pub mod listing;
pub mod navigation;
pub mod sorting;
pub mod ssh;
pub mod ssh_config;
pub mod text;
