//! A storage adapter that keeps JSON-LD entities, append-only collections and a
//! work queue in a relational database, as a normalised triple store, together
//! with the client side of the database's extended query protocol.
//!
//! Everything here is free of I/O: each operation is given as the bytes to put
//! on the wire and as a function from the messages that come back to the
//! result. The embedding program owns the byte stream, the connection mutex and
//! the task scheduling.

pub mod bindings;
pub mod cache;
pub mod cellarentitystore;
pub mod codec;
pub mod connect;
pub mod dbquad;
pub mod entitystore;
pub mod error;
pub mod frontend;
pub mod listing;
pub mod message;
pub mod models;
pub mod query;
pub mod queuestore;
pub mod statement;
pub mod statements;
pub mod tap;
pub mod text;
pub mod types;
pub mod unique;
pub mod wire;
