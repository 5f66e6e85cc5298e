//! Batch bidding of bridge deals.
//!
//! A PBN file is read into games ([`pbn`]), a request is made for each game
//! that has a deal ([`batch`]), a bidding engine answers the requests, and the
//! answers are written back into the games and the games into text.
//!
//! The engine itself is not part of this library. It is reached either call
//! by call on an engine instance, where [`session`] and [`driver`] decide
//! which call to make next and what to make of each reply, or as a process
//! of its own that takes one request document and gives one result document
//! ([`exchange`]). Whoever uses the library makes the calls, runs the process
//! and parses the deals; the library decides.

pub mod batch;
pub mod bindings;
pub mod driver;
pub mod engine;
pub mod error;
pub mod exchange;
pub mod pbn;
pub mod roundtrip;
pub mod session;
pub mod session_laws;
pub mod text;

pub use batch::{process_pbn_file, ProcessingStats};
pub use engine::{DealResult, DealSpec, EPBot, Position, Side, Vulnerability};
pub use error::{BbaError, BbaResult};
