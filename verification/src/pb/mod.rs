//! The message records exchanged with the server, holding the fields that
//! this library reads and writes.
pub mod msg;
