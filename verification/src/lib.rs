//! Decision core of a relay that carries one TCP connection over one UDP
//! socket.
//!
//! Every socket call is made by the program around this library. The library
//! holds what that program must decide: which local UDP port to take, what
//! to do with the outcome of each read and write, and how a session moves
//! from accepted to closed.

pub mod config;
pub mod error;
pub mod pipe;
pub mod ports;
pub mod server;
pub mod session;
