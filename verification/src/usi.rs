//! The USI protocol: command lines, response lines, and the session with an
//! engine.

pub mod book;
pub mod buffer;
pub mod commands;
pub mod engine;
pub mod error;
pub mod mock_engine;
pub mod parser;
pub mod responses;

pub use self::book::OpeningBook;
pub use self::buffer::{read_response_line, LineBuffer, Polled, POLL_INTERVAL_MS};
pub use self::commands::{
    build_go_byoyomi_command, build_go_depth_command, build_go_time_command,
    build_isready_command, build_position_command, build_quit_command, build_setoption_command,
    build_stop_command, build_usi_command, build_usinewgame_command,
};
pub use self::engine::{Action, Event, Outcome, Pending, Phase, UsiEngine};
pub use self::error::EngineError;
pub use self::mock_engine::MockEngine;
pub use self::parser::{parse_usi_line, ThinkingInfo, UsiResponse};
