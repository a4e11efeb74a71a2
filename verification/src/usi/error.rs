//! The ways in which a request to an engine can fail.

use vstd::prelude::*;
use vstd::string::*;

verus! {

/// Why a request to an engine failed.
#[derive(Debug, Clone, Copy, PartialEq, Eq, Structural)]
pub enum EngineError {
    /// The engine's executable could not be launched.
    SpawnFailed,
    /// The engine was launched, but its input or its output could not be
    /// taken hold of.
    StreamCaptureFailed,
    /// There is no engine process, or the session is not in a state from
    /// which the request can be made.
    NotStarted,
    /// A line could not be written to the engine.
    WriteFailed,
    /// No line arrived from the engine in time.
    Timeout,
    /// The engine did not acknowledge the handshake in time.
    HandshakeTimeout,
    /// The engine did not report that it is ready in time.
    ReadinessTimeout,
    /// The engine did not name a move in time.
    SearchTimeout,
}

impl EngineError {
    /// The error in words.
    pub open spec fn text(self) -> Seq<char> {
        match self {
            EngineError::SpawnFailed => "Failed to start engine process"@,
            EngineError::StreamCaptureFailed => "Failed to capture engine stdin or stdout"@,
            EngineError::NotStarted => "Engine not started"@,
            EngineError::WriteFailed => "Failed to write to engine"@,
            EngineError::Timeout => "Timeout waiting for engine response"@,
            EngineError::HandshakeTimeout => "Timeout waiting for usiok"@,
            EngineError::ReadinessTimeout => "Timeout waiting for readyok"@,
            EngineError::SearchTimeout => "Timeout waiting for bestmove"@,
        }
    }

    /// The error in words, for showing to a user.
    pub fn message(&self) -> (message: String)
        ensures
            message@ == self.text(),
    {
        match self {
            EngineError::SpawnFailed => "Failed to start engine process".to_string(),
            EngineError::StreamCaptureFailed => {
                "Failed to capture engine stdin or stdout".to_string()
            },
            EngineError::NotStarted => "Engine not started".to_string(),
            EngineError::WriteFailed => "Failed to write to engine".to_string(),
            EngineError::Timeout => "Timeout waiting for engine response".to_string(),
            EngineError::HandshakeTimeout => "Timeout waiting for usiok".to_string(),
            EngineError::ReadinessTimeout => "Timeout waiting for readyok".to_string(),
            EngineError::SearchTimeout => "Timeout waiting for bestmove".to_string(),
        }
    }
}

} // verus!
