//! Agent Client Protocol support for the maki coding agent.
//!
//! The agent side: [`sessions`] keeps the sessions that are open on a connection and [`modes`]
//! their modes, [`prompt`] decides what a client is told of a turn and how the turn ends,
//! [`history`] replays a stored session, and [`paging`] lists the stored sessions page by page.
//! The messages themselves are in [`protocol`].
//!
//! The client side is an integration harness: [`scenario`] is the course that it takes, and
//! [`harness`] what it makes of the updates and the permission requests that reach it.
//!
//! [`zig`] draws the skeleton of Zig source from the trees of [`syntax`].
pub mod clock;
pub mod harness;
pub mod history;
pub mod modes;
pub mod names;
pub mod paging;
pub mod prompt;
pub mod protocol;
pub mod scenario;
pub mod sessions;
pub mod syntax;
pub mod text;
pub mod zig;
