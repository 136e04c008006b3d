//! Verified core of a live-reloading development web server.
//!
//! The server itself (HTTP routing, template rendering, filesystem watching)
//! is composed from off-the-shelf parts; what this crate owns and verifies is
//! the live-reload signalling loop between them:
//!
//! - [`broadcaster`]: the set of connected reload listeners, and the fan-out
//!   of one notification to every listener present when it is issued;
//! - [`debounce`]: coalescing bursts of filesystem change events into single
//!   reload notifications;
//! - [`inject`]: splicing the reload-client snippet into outgoing HTML bodies,
//!   exactly once;
//! - [`page`]: turning a template-rendering outcome into an HTTP status and
//!   body;
//! - [`watch`]: the watched directories and the check that a changed path
//!   falls under one of them.

pub mod broadcaster;
pub mod debounce;
pub mod inject;
pub mod page;
pub mod watch;
