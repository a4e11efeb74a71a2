//! The four requests that a front end makes of the engine it holds:
//! bring it up, ask it for a move, shut it down, and ask whether it is up.
//!
//! The engine held is the stand-in. Each request says in words how it
//! went, for showing to a user.

use vstd::prelude::*;
use vstd::string::*;
use crate::usi::mock_engine::{mock_move, reply_view, MockEngine};

verus! {

/// The engine that a front end holds, if it has brought one up.
#[derive(Debug)]
pub struct EngineState {
    pub engine: Option<MockEngine>,
}

impl EngineState {
    /// The state in which no engine is held.
    pub fn new() -> (state: Self)
        ensures
            state.engine is None,
    {
        EngineState { engine: None }
    }

    /// Whether an engine is held and is ready.
    pub open spec fn ready(&self) -> bool {
        self.engine matches Some(engine) && engine.ready()
    }
}

impl Default for EngineState {
    fn default() -> (state: Self)
        ensures
            state.engine is None,
    {
        EngineState::new()
    }
}

/// Brings up a new engine in place of the one held, if any. The stand-in
/// needs no executable, so `_engine_path` is not looked at. This cannot
/// fail.
pub fn init_engine(state: &mut EngineState, _engine_path: Option<String>) -> (reply: Result<
    String,
    String,
>)
    ensures
        reply_view(reply) == Ok::<Seq<char>, Seq<char>>("Engine initialized successfully"@),
        final(state).ready(),
{
    let mut engine = MockEngine::new();
    match engine.init() {
        Ok(()) => {
            state.engine = Some(engine);
            Ok("Engine initialized successfully".to_string())
        },
        Err(error) => Err(error),
    }
}

/// Asks the engine held for its move in the position `sfen`, with
/// `time_ms` milliseconds to think.
///
/// With no engine held, or one that is not ready, the answer is the error
/// `Engine not initialized`.
pub fn get_ai_move(state: &EngineState, sfen: String, time_ms: u32) -> (reply: Result<
    String,
    String,
>)
    ensures
        reply_view(reply) == if state.ready() {
            mock_move(sfen@)
        } else {
            Err("Engine not initialized"@)
        },
{
    match &state.engine {
        Some(engine) => engine.get_best_move(sfen.as_str(), time_ms),
        None => Err("Engine not initialized".to_string()),
    }
}

/// Shuts down the engine held and lets go of it.
///
/// With no engine held the answer is the error `Engine not running`.
pub fn shutdown_engine(state: &mut EngineState) -> (reply: Result<String, String>)
    ensures
        final(state).engine is None,
        reply_view(reply) == if old(state).engine is Some {
            Ok::<Seq<char>, Seq<char>>("Engine shutdown successfully"@)
        } else {
            Err("Engine not running"@)
        },
{
    match state.engine.take() {
        Some(mut engine) => {
            match engine.quit() {
                Ok(()) => Ok("Engine shutdown successfully".to_string()),
                Err(error) => Err(error),
            }
        },
        None => Err("Engine not running".to_string()),
    }
}

/// Tells whether an engine is held and is ready. This cannot fail.
pub fn is_engine_ready(state: &EngineState) -> (reply: Result<bool, String>)
    ensures
        reply == Ok::<bool, String>(state.ready()),
{
    match &state.engine {
        Some(engine) => Ok(engine.is_ready()),
        None => Ok(false),
    }
}

} // verus!
