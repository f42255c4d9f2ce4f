//! A process-supervision library: a length-prefixed frame codec for
//! multiplexing a child process's output streams onto one connection, a
//! streaming buffer that reassembles frames out of arbitrarily chunked
//! reads, a dense registry of running programs, and the decision logic of
//! the supervisor, log forwarder and kill/exit race, each stated as a
//! contract and verified.

pub mod app_data;
pub mod buffer;
pub mod codec;
pub mod forwarder;
pub mod killable;
pub mod model;
pub mod persist;
pub mod supervisor;
