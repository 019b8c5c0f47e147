//! A small terminal multiplexer: sessions whose shell outlives the terminal
//! that looks at it.
//!
//! The modules hold the rules of the program. The wire format is in
//! [`protocol`], the reading of a stream of frames in [`stream`], the meaning
//! of the keys in [`keys`], the two ends of a session in [`server`] and
//! [`client`], the ways into it and out of it in [`launch`] and [`kill`], and
//! what surrounds them in [`session`], [`cli`], [`pty`] and [`daemon`]. None of
//! them touches a file descriptor: each decides from plain values, and the
//! program around them carries the decisions out. What holds over whole runs
//! is in [`client_laws`], [`server_laws`] and [`session_laws`].

pub mod bytes;
pub mod cli;
pub mod client;
pub mod client_laws;
pub mod daemon;
pub mod keys;
pub mod kill;
pub mod launch;
pub mod poll;
pub mod protocol;
pub mod pty;
pub mod server;
pub mod server_laws;
pub mod session;
pub mod session_laws;
pub mod stream;
pub mod text;
