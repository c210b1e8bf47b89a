//! Core of a serial-port byte watcher: delimiter framing of a byte stream,
//! frame checksums, connection settings and the decisions of the reader task
//! and of the connection's life cycle.

pub mod bridge;
pub mod checksum;
pub mod codec;
pub mod config;
pub mod display;
pub mod framing;
pub mod lifecycle;
pub mod reader;
