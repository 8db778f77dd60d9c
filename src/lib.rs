//! Codec for the PostgreSQL logical streaming replication protocol: the
//! frames a server sends over a `COPY BOTH` connection and the standby
//! status update a client sends back.

pub mod primitives;
pub mod text;
pub mod pglsn;
pub mod pgtime;
pub mod pgxid;
pub mod tuple;
pub mod logical;
pub mod replication_protocol;
pub mod config;
