//! A client of language servers that does no input or output of its own.
//!
//! A server is told of a file before it is asked about it ([`client`]), is asked again while it
//! is still indexing ([`retry`]), and its replies are turned into results ([`operations`] lists
//! what can be asked). Each of these is a machine: it says what to send next and how long to
//! wait, and is handed what came back. What runs the machines is not part of this crate.
//!
//! What callers can rely on is written down in [`guarantees`], law by law.

pub mod calls;
pub mod client;
pub mod definitions;
pub mod delay;
pub mod digest;
pub mod documents;
pub mod guarantees;
pub mod locations;
pub mod operations;
pub mod pathext;
pub mod positions;
pub mod preparation;
pub mod protocol;
pub mod pyright;
pub mod references;
pub mod retry;
pub mod symbols;
pub mod text;
pub mod workspace;
