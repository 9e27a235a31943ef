//! What callers can rely on, stated over calls of the library's functions.
//!
//! Each law here takes the arguments of one or more calls and what the calls gave, and says how the
//! two relate in terms of the fields of both. The words that the laws are written in are their own:
//! no contract uses them.

pub mod asking;
pub mod calls;
pub mod commands;
pub mod definitions;
pub mod files;
pub mod locations;
pub mod operations;
pub mod references;
pub mod symbols;
pub mod workspace;
