//! Core of an interactive command client for a remote secret-storage
//! service: the authenticated-session state, the command-dispatch state
//! machine over user input, the request contracts for the secret and file
//! operations, and the tabular rendering of listing results.
pub mod command;
pub mod data;
pub mod ops;
pub mod text;
pub mod render;
pub mod store;
pub mod timefmt;
