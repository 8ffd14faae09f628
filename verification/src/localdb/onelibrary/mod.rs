//! OneLibrary export support.

pub mod adapter;
pub mod encryption;
pub mod schema;
