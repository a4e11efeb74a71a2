//! A driver for board-game engines that speak USI, the line-based text
//! protocol of shogi engines: the command lines sent to an engine, the
//! classification of the lines it answers with, and the session that takes an
//! engine through handshake, search and shutdown.
//!
//! The library performs no input or output itself. The session is a state
//! machine: it hands out the next [`usi::engine::Action`] and is told what
//! came of it as a [`usi::engine::Event`]. Beside it stand a stand-in engine
//! that needs no process, and the requests that a front end makes of the
//! engine it holds.

pub mod commands;
pub mod decimal;
pub mod text;
pub mod usi;
