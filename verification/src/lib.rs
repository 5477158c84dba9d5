//! An in-memory key-value cache: the text protocol that its clients and its
//! server speak, the store that the server keeps, and how the interactive
//! client reads what its user types.

pub mod text;
pub mod error;
pub mod client;
pub mod server;
pub mod repl;
pub mod laws;

pub use error::ChxError;
