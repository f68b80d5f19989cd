//! A terminal client core for a line-oriented hypertext protocol.
//!
//! The crate verifies the navigation-and-rendering engine of a capsule
//! browser: URL resolution, the history stack, the document-to-row
//! transform, the keystroke state machine and the command parser.
//! Network transfer and terminal drawing stay outside, behind plain-value
//! interfaces.

pub mod command;
pub mod input;
pub mod nav;
pub mod resolve;
pub mod rows;
pub mod session;
pub mod stateful_list;
pub mod text;
