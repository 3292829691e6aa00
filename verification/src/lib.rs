//! Message protocol between an operator's controller and a mobile robot
//! executor, over a transport that hands on bytes and may lose or garble
//! them.
//!
//! A message is written as a payload (`wire`, `wire_io`), stuffed so that
//! the delimiter ends its frame and occurs nowhere else (`stuffing`,
//! `buffer`, `codec`), and put together again from the stream byte by byte
//! (`assembler`). The controller keeps one command outstanding at a time
//! and matches the response that comes against it (`session`); the
//! executor reads commands and writes what it has done (`executor`).
//!
//! Nothing here allocates, reads or writes: frames are handed to the
//! caller to send, and what the caller has read is handed in.

pub mod assembler;
pub mod buffer;
pub mod codec;
pub mod error;
pub mod executor;
pub mod model;
pub mod scan_list;
pub mod session;
pub mod stuffing;
pub mod wire;
pub mod wire_io;
