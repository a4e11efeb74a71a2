//! The session with an engine.
//!
//! [`UsiEngine`] knows the protocol and nothing of processes. Each request
//! to it ([`UsiEngine::init`], [`UsiEngine::get_best_move`], ...) returns an
//! [`Action`] for the driver to carry out. The driver reports what came of
//! the action as an [`Event`] to [`UsiEngine::step`] and gets the next
//! action, until the action is [`Action::Done`].
//!
//! One request is in flight at a time. A new request gives up the one in
//! flight.

use vstd::prelude::*;
use vstd::string::*;
use crate::usi::commands::{
    build_go_byoyomi_command, build_isready_command, build_position_command, build_quit_command,
    build_setoption_command, build_stop_command, build_usi_command, build_usinewgame_command,
    go_byoyomi_line, position_line, setoption_line,
};
use crate::usi::error::EngineError;
use crate::usi::parser::{classify, parse_usi_line, ResponseView, UsiResponse};

verus! {

/// How long the engine is given for each line while the driver waits for
/// `usiok` or for `readyok`, in milliseconds.
pub const HANDSHAKE_TIMEOUT_MS: u64 = 5000;

/// How much longer than the thinking time the engine is given for each
/// line while the driver waits for `bestmove`, in milliseconds.
pub const SEARCH_MARGIN_MS: u64 = 5000;

/// How long the engine is given to exit by itself after `quit`, in
/// milliseconds.
pub const QUIT_GRACE_MS: u64 = 100;

/// Where a session stands.
#[derive(Debug, Clone, Copy, PartialEq, Eq, Structural)]
pub enum Phase {
    /// No engine process has been started.
    NotStarted,
    /// An engine process runs; the handshake is not complete.
    Starting,
    /// The engine has acknowledged the handshake and is ready for a search.
    Ready,
    /// A search is in flight.
    Searching,
    /// The engine process has been shut down.
    Stopped,
}

/// What a session waits to hear of from its driver.
#[derive(Debug, Clone, Copy, PartialEq, Eq, Structural)]
pub enum Pending {
    /// Nothing: no request is in flight.
    Idle,
    /// The launch of the engine process.
    Spawn,
    /// The launch of the engine process, with the handshake to follow.
    Launch,
    /// The writing of `usi`.
    Handshake,
    /// A line that says `usiok`.
    HandshakeAck,
    /// The writing of `isready`.
    Readiness,
    /// A line that says `readyok`.
    ReadyAck,
    /// The writing of the `position` line.
    Position,
    /// The writing of the `go` line.
    Go,
    /// A line that begins with `bestmove`.
    BestMove,
    /// The writing of a single command line.
    Command,
    /// The writing of `quit`.
    Quit,
    /// The end of the engine process.
    Reap,
}

/// How a request ended.
#[derive(Debug, Clone, PartialEq, Eq)]
pub enum Outcome {
    /// The request was carried out.
    Completed,
    /// The search ended with this move.
    BestMove(String),
    /// The request failed.
    Failed(EngineError),
}

/// An [`Outcome`] as a mathematical value.
pub enum OutcomeView {
    Completed,
    BestMove(Seq<char>),
    Failed(EngineError),
}

impl View for Outcome {
    type V = OutcomeView;

    open spec fn view(&self) -> OutcomeView {
        match self {
            Outcome::Completed => OutcomeView::Completed,
            Outcome::BestMove(best_move) => OutcomeView::BestMove(best_move@),
            Outcome::Failed(error) => OutcomeView::Failed(*error),
        }
    }
}

/// What the driver is to do next.
#[derive(Debug, Clone, PartialEq, Eq)]
pub enum Action {
    /// Launch the executable at this path with its input, output and error
    /// streams piped, and start reading its output line by line into the
    /// line buffer. Answered by [`Event::Spawned`], [`Event::SpawnFailed`]
    /// or [`Event::StreamCaptureFailed`].
    Spawn(String),
    /// Write this line and a line terminator to the engine's input, and
    /// flush. Answered by [`Event::Sent`] or [`Event::WriteFailed`].
    Send(String),
    /// Take the oldest line out of the line buffer, waiting for one for at
    /// most this many milliseconds. Answered by [`Event::Line`] or
    /// [`Event::TimedOut`].
    Receive(u64),
    /// Wait this many milliseconds, then kill the engine process if it
    /// still runs, wait for its end and let go of its streams. Answered by
    /// [`Event::Reaped`].
    Reap(u64),
    /// Nothing more: the request has ended.
    Done(Outcome),
}

/// An [`Action`] as a mathematical value.
pub enum ActionView {
    Spawn(Seq<char>),
    Send(Seq<char>),
    Receive(u64),
    Reap(u64),
    Done(OutcomeView),
}

impl View for Action {
    type V = ActionView;

    open spec fn view(&self) -> ActionView {
        match self {
            Action::Spawn(path) => ActionView::Spawn(path@),
            Action::Send(line) => ActionView::Send(line@),
            Action::Receive(timeout_ms) => ActionView::Receive(*timeout_ms),
            Action::Reap(grace_ms) => ActionView::Reap(*grace_ms),
            Action::Done(outcome) => ActionView::Done(outcome@),
        }
    }
}

/// What came of an action.
#[derive(Debug, Clone, PartialEq, Eq)]
pub enum Event {
    /// The engine process runs and its output is being read.
    Spawned,
    /// The executable could not be launched.
    SpawnFailed,
    /// The process was launched, but its input or output could not be
    /// taken hold of.
    StreamCaptureFailed,
    /// The line was written and flushed.
    Sent,
    /// The line could not be written.
    WriteFailed,
    /// This line was taken out of the line buffer.
    Line(String),
    /// No line arrived in time.
    TimedOut,
    /// The engine process has ended and its streams are let go.
    Reaped,
}

/// An [`Event`] as a mathematical value.
pub enum EventView {
    Spawned,
    SpawnFailed,
    StreamCaptureFailed,
    Sent,
    WriteFailed,
    Line(Seq<char>),
    TimedOut,
    Reaped,
}

impl View for Event {
    type V = EventView;

    open spec fn view(&self) -> EventView {
        match self {
            Event::Spawned => EventView::Spawned,
            Event::SpawnFailed => EventView::SpawnFailed,
            Event::StreamCaptureFailed => EventView::StreamCaptureFailed,
            Event::Sent => EventView::Sent,
            Event::WriteFailed => EventView::WriteFailed,
            Event::Line(line) => EventView::Line(line@),
            Event::TimedOut => EventView::TimedOut,
            Event::Reaped => EventView::Reaped,
        }
    }
}

/// The state of a session as a mathematical value.
pub struct Session {
    /// Where the session stands.
    pub phase: Phase,
    /// What the session waits to hear of.
    pub pending: Pending,
    /// The thinking time of the search in flight, in milliseconds; zero
    /// where none is.
    pub think_ms: u32,
}

/// The action that ends a request with a failure.
pub open spec fn fail(error: EngineError) -> ActionView {
    ActionView::Done(OutcomeView::Failed(error))
}

/// The action that ends a request that was carried out.
pub open spec fn complete() -> ActionView {
    ActionView::Done(OutcomeView::Completed)
}

impl Session {
    /// The session before anything was asked of it.
    pub open spec fn fresh() -> Session {
        Session { phase: Phase::NotStarted, pending: Pending::Idle, think_ms: 0 }
    }

    /// Whether the state is one that a session can be in: it is searching
    /// exactly while one of the steps of a search is awaited, the
    /// handshake is awaited only while it is starting, a command is
    /// written only to a process that runs, and a thinking time is kept
    /// only for a search.
    pub open spec fn wf(self) -> bool {
        &&& match self.pending {
            Pending::Idle | Pending::Spawn | Pending::Launch => self.phase != Phase::Searching,
            Pending::Handshake | Pending::HandshakeAck | Pending::Readiness | Pending::ReadyAck =>
                self.phase == Phase::Starting,
            Pending::Position | Pending::Go | Pending::BestMove => self.phase == Phase::Searching,
            Pending::Command | Pending::Quit | Pending::Reap => self.phase == Phase::Starting
                || self.phase == Phase::Ready,
        }
        &&& self.phase != Phase::Searching ==> self.think_ms == 0
    }

    /// Whether an engine process is held.
    pub open spec fn running(self) -> bool {
        self.phase == Phase::Starting || self.phase == Phase::Ready || self.phase
            == Phase::Searching
    }

    /// The session with the given phase and nothing in flight.
    pub open spec fn at_rest(phase: Phase) -> Session {
        Session { phase, pending: Pending::Idle, think_ms: 0 }
    }

    /// The session once the request in flight, if any, is given up. A
    /// search that is given up leaves the session ready for the next.
    pub open spec fn settled(self) -> Session {
        Session::at_rest(
            if self.phase == Phase::Searching {
                Phase::Ready
            } else {
                self.phase
            },
        )
    }

    /// The session at the beginning of the handshake.
    pub open spec fn handshake() -> Session {
        Session { phase: Phase::Starting, pending: Pending::Handshake, think_ms: 0 }
    }

    /// The session with the same phase, waiting for something else.
    pub open spec fn awaiting(self, pending: Pending) -> Session {
        Session { pending, ..self }
    }

    /// A request to launch the engine at `path`.
    pub open spec fn start(self, path: Seq<char>) -> (Session, ActionView) {
        (self.settled().awaiting(Pending::Spawn), ActionView::Spawn(path))
    }

    /// A request to launch the engine at `path` and to go through the
    /// handshake with it.
    pub open spec fn initialize(self, path: Seq<char>) -> (Session, ActionView) {
        (self.settled().awaiting(Pending::Launch), ActionView::Spawn(path))
    }

    /// A request to send the single line `line`.
    pub open spec fn send(self, line: Seq<char>) -> (Session, ActionView) {
        let rest = self.settled();
        if rest.running() {
            (rest.awaiting(Pending::Command), ActionView::Send(line))
        } else {
            (rest, fail(EngineError::NotStarted))
        }
    }

    /// A request for the handshake.
    pub open spec fn init(self) -> (Session, ActionView) {
        let rest = self.settled();
        if rest.running() {
            (
                Session::handshake(),
                ActionView::Send("usi"@),
            )
        } else {
            (rest, fail(EngineError::NotStarted))
        }
    }

    /// A request for the engine's move in the position `board` with `moves`
    /// played from it, after `think_ms` milliseconds of thought.
    pub open spec fn search(self, board: Seq<char>, moves: Seq<Seq<char>>, think_ms: u32) -> (
        Session,
        ActionView,
    ) {
        let rest = self.settled();
        if rest.phase == Phase::Ready {
            (
                Session { phase: Phase::Searching, pending: Pending::Position, think_ms },
                ActionView::Send(position_line(board, moves)),
            )
        } else {
            (rest, fail(EngineError::NotStarted))
        }
    }

    /// A request to shut the engine down.
    pub open spec fn quit(self) -> (Session, ActionView) {
        let rest = self.settled();
        if rest.running() {
            (rest.awaiting(Pending::Quit), ActionView::Send("quit"@))
        } else {
            (Session::at_rest(Phase::Stopped), complete())
        }
    }

    /// The time given for each line while a `bestmove` is awaited.
    pub open spec fn search_timeout(self) -> u64 {
        (self.think_ms + SEARCH_MARGIN_MS) as u64
    }

    /// What the session makes of `event`: its next state and the next
    /// action.
    ///
    /// An event that does not answer the action awaited counts as the
    /// failure of that action. While a line is awaited, a line that is not
    /// the awaited one is passed over and the next line is asked for. The
    /// answers to `quit` and to the reaping make no difference: the session
    /// ends stopped. With nothing in flight there is nothing to do.
    pub open spec fn step(self, event: EventView) -> (Session, ActionView) {
        match self.pending {
            Pending::Idle => (self, complete()),
            Pending::Spawn => match event {
                EventView::Spawned => (Session::at_rest(Phase::Starting), complete()),
                EventView::StreamCaptureFailed => (
                    self.settled(),
                    fail(EngineError::StreamCaptureFailed),
                ),
                _ => (self.settled(), fail(EngineError::SpawnFailed)),
            },
            Pending::Launch => match event {
                EventView::Spawned => (Session::handshake(), ActionView::Send("usi"@)),
                EventView::StreamCaptureFailed => (
                    self.settled(),
                    fail(EngineError::StreamCaptureFailed),
                ),
                _ => (self.settled(), fail(EngineError::SpawnFailed)),
            },
            Pending::Handshake => match event {
                EventView::Sent => (
                    self.awaiting(Pending::HandshakeAck),
                    ActionView::Receive(HANDSHAKE_TIMEOUT_MS),
                ),
                _ => (self.settled(), fail(EngineError::WriteFailed)),
            },
            Pending::HandshakeAck => match event {
                EventView::Line(line) => if classify(line) is UsiOk {
                    (self.awaiting(Pending::Readiness), ActionView::Send("isready"@))
                } else {
                    (self, ActionView::Receive(HANDSHAKE_TIMEOUT_MS))
                },
                _ => (self.settled(), fail(EngineError::HandshakeTimeout)),
            },
            Pending::Readiness => match event {
                EventView::Sent => (
                    self.awaiting(Pending::ReadyAck),
                    ActionView::Receive(HANDSHAKE_TIMEOUT_MS),
                ),
                _ => (self.settled(), fail(EngineError::WriteFailed)),
            },
            Pending::ReadyAck => match event {
                EventView::Line(line) => if classify(line) is ReadyOk {
                    (Session::at_rest(Phase::Ready), complete())
                } else {
                    (self, ActionView::Receive(HANDSHAKE_TIMEOUT_MS))
                },
                _ => (self.settled(), fail(EngineError::ReadinessTimeout)),
            },
            Pending::Position => match event {
                EventView::Sent => (
                    self.awaiting(Pending::Go),
                    ActionView::Send(go_byoyomi_line(self.think_ms as nat)),
                ),
                _ => (self.settled(), fail(EngineError::WriteFailed)),
            },
            Pending::Go => match event {
                EventView::Sent => (
                    self.awaiting(Pending::BestMove),
                    ActionView::Receive(self.search_timeout()),
                ),
                _ => (self.settled(), fail(EngineError::WriteFailed)),
            },
            Pending::BestMove => match event {
                EventView::Line(line) => match classify(line) {
                    ResponseView::BestMove { best_move, ponder } => (
                        self.settled(),
                        ActionView::Done(OutcomeView::BestMove(best_move)),
                    ),
                    _ => (self, ActionView::Receive(self.search_timeout())),
                },
                _ => (self.settled(), fail(EngineError::SearchTimeout)),
            },
            Pending::Command => match event {
                EventView::Sent => (self.settled(), complete()),
                _ => (self.settled(), fail(EngineError::WriteFailed)),
            },
            Pending::Quit => (self.awaiting(Pending::Reap), ActionView::Reap(QUIT_GRACE_MS)),
            Pending::Reap => (Session::at_rest(Phase::Stopped), complete()),
        }
    }
}

/// A session with a USI engine.
#[derive(Debug)]
pub struct UsiEngine {
    phase: Phase,
    pending: Pending,
    think_ms: u32,
}

impl View for UsiEngine {
    type V = Session;

    closed spec fn view(&self) -> Session {
        Session { phase: self.phase, pending: self.pending, think_ms: self.think_ms }
    }
}

impl UsiEngine {
    #[verifier::type_invariant]
    spec fn well_formed(self) -> bool {
        self@.wf()
    }

    /// A session for which no engine has been started yet.
    pub fn new() -> (engine: Self)
        ensures
            engine@ == Session::fresh(),
    {
        UsiEngine { phase: Phase::NotStarted, pending: Pending::Idle, think_ms: 0 }
    }

    /// Where the session stands. Every session is in a state that
    /// [`Session::wf`] admits.
    pub fn phase(&self) -> (phase: Phase)
        ensures
            phase == self@.phase,
            self@.wf(),
    {
        proof {
            use_type_invariant(self);
        }
        self.phase
    }

    /// Whether an engine process is held.
    pub fn is_running(&self) -> (running: bool)
        ensures
            running == self@.running(),
    {
        match self.phase {
            Phase::Starting | Phase::Ready | Phase::Searching => true,
            _ => false,
        }
    }

    /// Whether the session is ready for a search.
    pub fn is_ready(&self) -> (ready: bool)
        ensures
            ready == (self@.phase == Phase::Ready),
    {
        match self.phase {
            Phase::Ready => true,
            _ => false,
        }
    }

    /// Whether a request is in flight.
    pub fn is_busy(&self) -> (busy: bool)
        ensures
            busy == (self@.pending != Pending::Idle),
    {
        match self.pending {
            Pending::Idle => false,
            _ => true,
        }
    }

    /// Gives up the request in flight, if any.
    fn settle(&mut self)
        ensures
            final(self)@ == old(self)@.settled(),
    {
        let phase = match self.phase {
            Phase::Searching => Phase::Ready,
            phase => phase,
        };
        *self = UsiEngine { phase, pending: Pending::Idle, think_ms: 0 };
    }

    /// Asks for the engine at `engine_path` to be launched.
    ///
    /// Once it runs, the session is [`Phase::Starting`]. Where the launch
    /// fails, the session keeps the phase it had at rest and the request
    /// ends with [`EngineError::SpawnFailed`] or
    /// [`EngineError::StreamCaptureFailed`].
    pub fn start(&mut self, engine_path: &str) -> (action: Action)
        ensures
            (final(self)@, action@) == old(self)@.start(engine_path@),
    {
        self.settle();
        *self = UsiEngine { phase: self.phase, pending: Pending::Spawn, think_ms: 0 };
        Action::Spawn(engine_path.to_owned())
    }

    /// Asks for the engine at `engine_path` to be launched and taken
    /// through the handshake: [`UsiEngine::start`] and, where that
    /// succeeds, [`UsiEngine::init`], as one request. At the end the session
    /// is [`Phase::Ready`].
    pub fn initialize(&mut self, engine_path: &str) -> (action: Action)
        ensures
            (final(self)@, action@) == old(self)@.initialize(engine_path@),
    {
        self.settle();
        *self = UsiEngine { phase: self.phase, pending: Pending::Launch, think_ms: 0 };
        Action::Spawn(engine_path.to_owned())
    }

    /// Asks for `command` to be sent to the engine as a line of its own.
    ///
    /// With no engine process the request ends at once with
    /// [`EngineError::NotStarted`]. Where the line cannot be written it
    /// ends with [`EngineError::WriteFailed`].
    pub fn send_command(&mut self, command: &str) -> (action: Action)
        ensures
            (final(self)@, action@) == old(self)@.send(command@),
    {
        self.settle();
        if self.is_running() {
            *self = UsiEngine { phase: self.phase, pending: Pending::Command, think_ms: 0 };
            Action::Send(command.to_owned())
        } else {
            Action::Done(Outcome::Failed(EngineError::NotStarted))
        }
    }

    /// Asks for the handshake: `usi` is sent and `usiok` awaited, then
    /// `isready` is sent and `readyok` awaited. Other lines that arrive
    /// meanwhile are passed over. At the end the session is
    /// [`Phase::Ready`].
    ///
    /// With no engine process the request ends at once with
    /// [`EngineError::NotStarted`]. Where a line cannot be written it ends
    /// with [`EngineError::WriteFailed`]; where the engine lets
    /// [`HANDSHAKE_TIMEOUT_MS`] pass without a line, with
    /// [`EngineError::HandshakeTimeout`] or
    /// [`EngineError::ReadinessTimeout`]. The session is then left
    /// [`Phase::Starting`].
    pub fn init(&mut self) -> (action: Action)
        ensures
            (final(self)@, action@) == old(self)@.init(),
    {
        self.settle();
        if self.is_running() {
            *self = UsiEngine { phase: Phase::Starting, pending: Pending::Handshake, think_ms: 0 };
            Action::Send(build_usi_command())
        } else {
            Action::Done(Outcome::Failed(EngineError::NotStarted))
        }
    }

    /// Asks for the engine's move in the position `sfen` with `moves`
    /// played from it, after `time_ms` milliseconds of thought: the
    /// `position` line and `go byoyomi` are sent and `bestmove` awaited.
    /// Other lines that arrive meanwhile are passed over. The request ends
    /// with [`Outcome::BestMove`] and leaves the session [`Phase::Ready`].
    ///
    /// Unless the session is ready, the request ends at once with
    /// [`EngineError::NotStarted`]. Where a line cannot be written it ends
    /// with [`EngineError::WriteFailed`]; where the engine lets `time_ms`
    /// and [`SEARCH_MARGIN_MS`] pass without a line, with
    /// [`EngineError::SearchTimeout`]. The session is ready again after
    /// either.
    pub fn get_best_move(&mut self, sfen: &str, moves: &[String], time_ms: u32) -> (action: Action)
        ensures
            (final(self)@, action@) == old(self)@.search(sfen@, moves.deep_view(), time_ms),
    {
        self.settle();
        if self.is_ready() {
            *self = UsiEngine {
                phase: Phase::Searching,
                pending: Pending::Position,
                think_ms: time_ms,
            };
            Action::Send(build_position_command(sfen, moves))
        } else {
            Action::Done(Outcome::Failed(EngineError::NotStarted))
        }
    }

    /// Asks for `stop` to be sent: the engine is to end its search. No
    /// answer is awaited.
    pub fn stop(&mut self) -> (action: Action)
        ensures
            (final(self)@, action@) == old(self)@.send("stop"@),
    {
        let line = build_stop_command();
        self.send_command(line.as_str())
    }

    /// Asks for `usinewgame` to be sent.
    pub fn new_game(&mut self) -> (action: Action)
        ensures
            (final(self)@, action@) == old(self)@.send("usinewgame"@),
    {
        let line = build_usinewgame_command();
        self.send_command(line.as_str())
    }

    /// Asks for the engine option `name` to be set to `value`.
    pub fn set_option(&mut self, name: &str, value: &str) -> (action: Action)
        ensures
            (final(self)@, action@) == old(self)@.send(setoption_line(name@, value@)),
    {
        let line = build_setoption_command(name, value);
        self.send_command(line.as_str())
    }

    /// Asks for the engine to be shut down: `quit` is sent, the engine is
    /// given [`QUIT_GRACE_MS`] to exit, and its process is then ended
    /// whatever it did. The request always ends with
    /// [`Outcome::Completed`] and leaves the session [`Phase::Stopped`].
    /// With no engine process that is so at once.
    pub fn quit(&mut self) -> (action: Action)
        ensures
            (final(self)@, action@) == old(self)@.quit(),
    {
        self.settle();
        if self.is_running() {
            *self = UsiEngine { phase: self.phase, pending: Pending::Quit, think_ms: 0 };
            Action::Send(build_quit_command())
        } else {
            *self = UsiEngine { phase: Phase::Stopped, pending: Pending::Idle, think_ms: 0 };
            Action::Done(Outcome::Completed)
        }
    }

    /// Takes in what came of the action handed out last and gives the
    /// next action.
    pub fn step(&mut self, event: Event) -> (action: Action)
        ensures
            (final(self)@, action@) == old(self)@.step(event@),
    {
        proof {
            use_type_invariant(&*self);
        }
        match self.pending {
            Pending::Idle => Action::Done(Outcome::Completed),
            Pending::Spawn => {
                match event {
                    Event::Spawned => {
                        *self = UsiEngine {
                            phase: Phase::Starting,
                            pending: Pending::Idle,
                            think_ms: 0,
                        };
                        Action::Done(Outcome::Completed)
                    },
                    Event::StreamCaptureFailed => {
                        self.settle();
                        Action::Done(Outcome::Failed(EngineError::StreamCaptureFailed))
                    },
                    _ => {
                        self.settle();
                        Action::Done(Outcome::Failed(EngineError::SpawnFailed))
                    },
                }
            },
            Pending::Launch => {
                match event {
                    Event::Spawned => {
                        *self = UsiEngine {
                            phase: Phase::Starting,
                            pending: Pending::Handshake,
                            think_ms: 0,
                        };
                        Action::Send(build_usi_command())
                    },
                    Event::StreamCaptureFailed => {
                        self.settle();
                        Action::Done(Outcome::Failed(EngineError::StreamCaptureFailed))
                    },
                    _ => {
                        self.settle();
                        Action::Done(Outcome::Failed(EngineError::SpawnFailed))
                    },
                }
            },
            Pending::Handshake => self.written(event, Pending::HandshakeAck),
            Pending::HandshakeAck => {
                match event {
                    Event::Line(line) => {
                        match parse_usi_line(line.as_str()) {
                            UsiResponse::UsiOk => {
                                self.await_next(Pending::Readiness);
                                Action::Send(build_isready_command())
                            },
                            _ => Action::Receive(HANDSHAKE_TIMEOUT_MS),
                        }
                    },
                    _ => {
                        self.settle();
                        Action::Done(Outcome::Failed(EngineError::HandshakeTimeout))
                    },
                }
            },
            Pending::Readiness => self.written(event, Pending::ReadyAck),
            Pending::ReadyAck => {
                match event {
                    Event::Line(line) => {
                        match parse_usi_line(line.as_str()) {
                            UsiResponse::ReadyOk => {
                                *self = UsiEngine {
                                    phase: Phase::Ready,
                                    pending: Pending::Idle,
                                    think_ms: 0,
                                };
                                Action::Done(Outcome::Completed)
                            },
                            _ => Action::Receive(HANDSHAKE_TIMEOUT_MS),
                        }
                    },
                    _ => {
                        self.settle();
                        Action::Done(Outcome::Failed(EngineError::ReadinessTimeout))
                    },
                }
            },
            Pending::Position => {
                match event {
                    Event::Sent => {
                        self.await_next(Pending::Go);
                        Action::Send(build_go_byoyomi_command(self.think_ms))
                    },
                    _ => {
                        self.settle();
                        Action::Done(Outcome::Failed(EngineError::WriteFailed))
                    },
                }
            },
            Pending::Go => self.written(event, Pending::BestMove),
            Pending::BestMove => {
                match event {
                    Event::Line(line) => {
                        match parse_usi_line(line.as_str()) {
                            UsiResponse::BestMove { best_move, ponder } => {
                                self.settle();
                                Action::Done(Outcome::BestMove(best_move))
                            },
                            _ => Action::Receive(self.think_ms as u64 + SEARCH_MARGIN_MS),
                        }
                    },
                    _ => {
                        self.settle();
                        Action::Done(Outcome::Failed(EngineError::SearchTimeout))
                    },
                }
            },
            Pending::Command => {
                self.settle();
                match event {
                    Event::Sent => Action::Done(Outcome::Completed),
                    _ => Action::Done(Outcome::Failed(EngineError::WriteFailed)),
                }
            },
            Pending::Quit => {
                self.await_next(Pending::Reap);
                Action::Reap(QUIT_GRACE_MS)
            },
            Pending::Reap => {
                *self = UsiEngine { phase: Phase::Stopped, pending: Pending::Idle, think_ms: 0 };
                Action::Done(Outcome::Completed)
            },
        }
    }

    /// Goes on to wait for `next` within the request in flight.
    fn await_next(&mut self, next: Pending)
        requires
            old(self)@.awaiting(next).wf(),
        ensures
            final(self)@ == old(self)@.awaiting(next),
    {
        *self = UsiEngine { phase: self.phase, pending: next, think_ms: self.think_ms };
    }

    /// After a line was to be written and a line is to be awaited next:
    /// goes on to wait for it where the line was written, and gives the
    /// request up where it was not.
    fn written(&mut self, event: Event, next: Pending) -> (action: Action)
        requires
            old(self)@.awaiting(next).wf(),
            next == Pending::HandshakeAck || next == Pending::ReadyAck || next == Pending::BestMove,
        ensures
            event@ is Sent ==> final(self)@ == old(self)@.awaiting(next) && action@
                == ActionView::Receive(
                if next == Pending::BestMove {
                    old(self)@.search_timeout()
                } else {
                    HANDSHAKE_TIMEOUT_MS
                },
            ),
            !(event@ is Sent) ==> final(self)@ == old(self)@.settled() && action@ == fail(
                EngineError::WriteFailed,
            ),
    {
        match event {
            Event::Sent => {
                self.await_next(next);
                match next {
                    Pending::BestMove => Action::Receive(self.think_ms as u64 + SEARCH_MARGIN_MS),
                    _ => Action::Receive(HANDSHAKE_TIMEOUT_MS),
                }
            },
            _ => {
                self.settle();
                Action::Done(Outcome::Failed(EngineError::WriteFailed))
            },
        }
    }
}

impl Default for UsiEngine {
    fn default() -> (engine: Self)
        ensures
            engine@ == Session::fresh(),
    {
        UsiEngine::new()
    }
}

impl Session {
    /// Whether `line` is the line that the session waits for.
    pub open spec fn awaits_line(self, line: Seq<char>) -> bool {
        match self.pending {
            Pending::HandshakeAck => classify(line) is UsiOk,
            Pending::ReadyAck => classify(line) is ReadyOk,
            Pending::BestMove => classify(line) is BestMove,
            _ => false,
        }
    }

    /// The action by which a session that waits for a line asks for the
    /// next one.
    pub open spec fn receive(self) -> ActionView {
        if self.pending == Pending::BestMove {
            ActionView::Receive(self.search_timeout())
        } else {
            ActionView::Receive(HANDSHAKE_TIMEOUT_MS)
        }
    }

    /// Where the session stands, and what it asks for, once the driver
    /// has reported `events` one after the other, having been asked for
    /// `action` before the first.
    pub open spec fn run(self, action: ActionView, events: Seq<EventView>) -> (Session, ActionView)
        decreases events.len(),
    {
        if events.len() == 0 {
            (self, action)
        } else {
            let (next, asked) = self.step(events[0]);
            next.run(asked, events.skip(1))
        }
    }

    /// What a request to shut down comes to when the driver answers the
    /// writing of `quit` with `written` and the reaping with `reaped`.
    pub open spec fn shut_down(self, written: EventView, reaped: EventView) -> (
        Session,
        ActionView,
    ) {
        let (quitting, asked) = self.quit();
        if asked is Done {
            (quitting, asked)
        } else {
            quitting.run(asked, seq![written, reaped])
        }
    }
}

/// The events that report `texts` as lines received, one after the other.
pub open spec fn lines(texts: Seq<Seq<char>>) -> Seq<EventView> {
    Seq::new(texts.len(), |k: int| EventView::Line(texts[k]))
}

/// Whatever is asked of a session and whatever is reported to it, it
/// stays in a state that [`Session::wf`] admits.
pub proof fn lemma_wf_is_kept(
    s: Session,
    event: EventView,
    text: Seq<char>,
    moves: Seq<Seq<char>>,
    think_ms: u32,
)
    requires
        s.wf(),
    ensures
        Session::fresh().wf(),
        s.settled().wf(),
        s.start(text).0.wf(),
        s.initialize(text).0.wf(),
        s.send(text).0.wf(),
        s.init().0.wf(),
        s.search(text, moves, think_ms).0.wf(),
        s.quit().0.wf(),
        s.step(event).0.wf(),
{
}

/// A session holds an engine process from the moment the launch has
/// succeeded until it is stopped, and a search is in flight exactly while
/// it is searching.
pub proof fn lemma_phases(s: Session)
    requires
        s.wf(),
    ensures
        s.running() <==> s.phase != Phase::NotStarted && s.phase != Phase::Stopped,
        s.phase == Phase::Searching <==> s.pending == Pending::Position || s.pending
            == Pending::Go || s.pending == Pending::BestMove,
        s.pending == Pending::Idle ==> s == s.settled(),
{
}

/// A search ends with a move or with a failure, and no other request ends
/// with a move.
pub proof fn lemma_only_a_search_ends_with_a_move(s: Session, event: EventView)
    requires
        s.wf(),
    ensures
        s.phase == Phase::Searching ==> s.step(event).1 != complete(),
        s.step(event).1 matches ActionView::Done(OutcomeView::BestMove(best_move)) ==> s.pending
            == Pending::BestMove,
{
}

/// Reporting events in two batches comes to the same as reporting them
/// in one.
pub proof fn lemma_run_concat(
    s: Session,
    action: ActionView,
    first: Seq<EventView>,
    second: Seq<EventView>,
)
    ensures
        s.run(action, first + second) == s.run(action, first).0.run(
            s.run(action, first).1,
            second,
        ),
    decreases first.len(),
{
    if first.len() == 0 {
        assert(first + second =~= second);
    } else {
        let (next, asked) = s.step(first[0]);
        assert((first + second)[0] == first[0]);
        assert((first + second).skip(1) =~= first.skip(1) + second);
        lemma_run_concat(next, asked, first.skip(1), second);
    }
}

/// Reporting one event is one step.
pub proof fn lemma_run_one(s: Session, action: ActionView, event: EventView)
    ensures
        s.run(action, seq![event]) == s.step(event),
{
    let (next, asked) = s.step(event);
    assert(seq![event].skip(1).len() == 0);
    assert(next.run(asked, seq![event].skip(1)) == (next, asked));
}

/// Shutting down always succeeds and leaves the session stopped, from any
/// state and whatever the driver reports on the way; and so it does when
/// it is asked for again.
pub proof fn lemma_shut_down_is_idempotent(
    s: Session,
    written: EventView,
    reaped: EventView,
    written_again: EventView,
    reaped_again: EventView,
)
    ensures
        s.shut_down(written, reaped) == (Session::at_rest(Phase::Stopped), complete()),
        s.shut_down(written, reaped).0.shut_down(written_again, reaped_again) == s.shut_down(
            written,
            reaped,
        ),
        Session::at_rest(Phase::Stopped).quit() == (Session::at_rest(Phase::Stopped), complete()),
{
    let (quitting, asked) = s.quit();
    if !(asked is Done) {
        let events = seq![written, reaped];
        let (reaping, next) = quitting.step(written);
        assert(events.skip(1) =~= seq![reaped]);
        lemma_run_one(reaping, next, reaped);
    }
}

/// While a session waits for a line, lines other than the awaited one
/// change nothing: after any number of them the session stands where it
/// stood and asks for the next line as before.
pub proof fn lemma_unawaited_lines_are_passed_over(s: Session, noise: Seq<Seq<char>>)
    requires
        s.pending == Pending::HandshakeAck || s.pending == Pending::ReadyAck || s.pending
            == Pending::BestMove,
        forall|k: int| 0 <= k < noise.len() ==> !s.awaits_line(#[trigger] noise[k]),
    ensures
        s.run(s.receive(), lines(noise)) == (s, s.receive()),
    decreases noise.len(),
{
    if noise.len() > 0 {
        assert(!s.awaits_line(noise[0]));
        assert(lines(noise)[0] == EventView::Line(noise[0]));
        assert(s.step(lines(noise)[0]) == (s, s.receive()));
        assert(lines(noise).skip(1) =~= lines(noise.skip(1)));
        assert forall|k: int| 0 <= k < noise.skip(1).len() implies !s.awaits_line(
            #[trigger] noise.skip(1)[k],
        ) by {
            assert(noise.skip(1)[k] == noise[k + 1]);
        }
        lemma_unawaited_lines_are_passed_over(s, noise.skip(1));
    }
}

/// An engine that falls silent: where a session waits for a line and the
/// engine sends any number of other lines and then none in time, the
/// request fails with the timeout that goes with the line awaited, and the
/// session is left at rest, ready again after a search and starting
/// after a handshake.
pub proof fn lemma_silence_times_out(s: Session, noise: Seq<Seq<char>>)
    requires
        s.pending == Pending::HandshakeAck || s.pending == Pending::ReadyAck || s.pending
            == Pending::BestMove,
        forall|k: int| 0 <= k < noise.len() ==> !s.awaits_line(#[trigger] noise[k]),
    ensures
        s.run(s.receive(), lines(noise) + seq![EventView::TimedOut]) == (
            s.settled(),
            fail(
                match s.pending {
                    Pending::HandshakeAck => EngineError::HandshakeTimeout,
                    Pending::ReadyAck => EngineError::ReadinessTimeout,
                    _ => EngineError::SearchTimeout,
                },
            ),
        ),
{
    lemma_unawaited_lines_are_passed_over(s, noise);
    lemma_run_concat(s, s.receive(), lines(noise), seq![EventView::TimedOut]);
    lemma_run_one(s, s.receive(), EventView::TimedOut);
}

/// The handshake with an engine that answers: where the writes succeed
/// and the engine says `usiok` and then `readyok`, each after any number of
/// other lines, the request ends well and the session is ready.
pub proof fn lemma_init_reaches_ready(
    s: Session,
    before_usiok: Seq<Seq<char>>,
    usiok: Seq<char>,
    before_readyok: Seq<Seq<char>>,
    readyok: Seq<char>,
)
    requires
        s.settled().running(),
        forall|k: int|
            0 <= k < before_usiok.len() ==> !(classify(#[trigger] before_usiok[k]) is UsiOk),
        classify(usiok) is UsiOk,
        forall|k: int|
            0 <= k < before_readyok.len() ==> !(classify(#[trigger] before_readyok[k]) is ReadyOk),
        classify(readyok) is ReadyOk,
    ensures
        s.init().0.run(
            s.init().1,
            seq![EventView::Sent] + lines(before_usiok) + seq![EventView::Line(usiok)]
                + seq![EventView::Sent] + lines(before_readyok) + seq![EventView::Line(readyok)],
        ) == (Session::at_rest(Phase::Ready), complete()),
{
    let (s0, a0) = s.init();
    let e1 = seq![EventView::Sent];
    let e2 = lines(before_usiok);
    let e3 = seq![EventView::Line(usiok)];
    let e4 = seq![EventView::Sent];
    let e5 = lines(before_readyok);
    let e6 = seq![EventView::Line(readyok)];
    let (s1, a1) = s0.run(a0, e1);
    lemma_run_one(s0, a0, EventView::Sent);
    assert(s1.pending == Pending::HandshakeAck && a1 == s1.receive());
    lemma_unawaited_lines_are_passed_over(s1, before_usiok);
    lemma_run_one(s1, a1, EventView::Line(usiok));
    let (s3, a3) = s1.step(EventView::Line(usiok));
    lemma_run_one(s3, a3, EventView::Sent);
    let (s4, a4) = s3.step(EventView::Sent);
    assert(s4.pending == Pending::ReadyAck && a4 == s4.receive());
    lemma_unawaited_lines_are_passed_over(s4, before_readyok);
    lemma_run_one(s4, a4, EventView::Line(readyok));
    lemma_run_concat(s0, a0, e1, e2);
    lemma_run_concat(s0, a0, e1 + e2, e3);
    lemma_run_concat(s0, a0, e1 + e2 + e3, e4);
    lemma_run_concat(s0, a0, e1 + e2 + e3 + e4, e5);
    lemma_run_concat(s0, a0, e1 + e2 + e3 + e4 + e5, e6);
}

/// Bringing up an engine that answers: where the launch and the writes
/// succeed and the engine says `usiok` and then `readyok`, each after any
/// number of other lines, the request ends well and the session is ready,
/// from whatever state it began.
pub proof fn lemma_initialize_reaches_ready(
    s: Session,
    path: Seq<char>,
    before_usiok: Seq<Seq<char>>,
    usiok: Seq<char>,
    before_readyok: Seq<Seq<char>>,
    readyok: Seq<char>,
)
    requires
        forall|k: int|
            0 <= k < before_usiok.len() ==> !(classify(#[trigger] before_usiok[k]) is UsiOk),
        classify(usiok) is UsiOk,
        forall|k: int|
            0 <= k < before_readyok.len() ==> !(classify(#[trigger] before_readyok[k]) is ReadyOk),
        classify(readyok) is ReadyOk,
    ensures
        s.initialize(path).0.run(
            s.initialize(path).1,
            seq![EventView::Spawned] + (seq![EventView::Sent] + lines(before_usiok) + seq![
                EventView::Line(usiok),
            ] + seq![EventView::Sent] + lines(before_readyok) + seq![EventView::Line(readyok)]),
        ) == (Session::at_rest(Phase::Ready), complete()),
{
    let (s0, a0) = s.initialize(path);
    let rest = seq![EventView::Sent] + lines(before_usiok) + seq![EventView::Line(usiok)]
        + seq![EventView::Sent] + lines(before_readyok) + seq![EventView::Line(readyok)];
    lemma_run_one(s0, a0, EventView::Spawned);
    lemma_run_concat(s0, a0, seq![EventView::Spawned], rest);
    let started = Session::at_rest(Phase::Starting);
    assert(s0.step(EventView::Spawned) == started.init());
    lemma_init_reaches_ready(started, before_usiok, usiok, before_readyok, readyok);
}

/// A search with an engine that answers: where the writes succeed and the
/// engine names its move after any number of lines that name none, the
/// request ends with that move and the session is ready again.
pub proof fn lemma_search_returns_best_move(
    s: Session,
    board: Seq<char>,
    moves: Seq<Seq<char>>,
    think_ms: u32,
    before_bestmove: Seq<Seq<char>>,
    bestmove: Seq<char>,
)
    requires
        s.settled().phase == Phase::Ready,
        forall|k: int|
            0 <= k < before_bestmove.len() ==> !(classify(#[trigger] before_bestmove[k])
                is BestMove),
        classify(bestmove) is BestMove,
    ensures
        s.search(board, moves, think_ms).0.run(
            s.search(board, moves, think_ms).1,
            seq![EventView::Sent, EventView::Sent] + lines(before_bestmove) + seq![
                EventView::Line(bestmove),
            ],
        ) == (
            Session::at_rest(Phase::Ready),
            ActionView::Done(OutcomeView::BestMove(classify(bestmove)->best_move)),
        ),
{
    let (s0, a0) = s.search(board, moves, think_ms);
    let e1 = seq![EventView::Sent];
    let e2 = seq![EventView::Sent];
    let e3 = lines(before_bestmove);
    let e4 = seq![EventView::Line(bestmove)];
    lemma_run_one(s0, a0, EventView::Sent);
    let (s1, a1) = s0.step(EventView::Sent);
    lemma_run_one(s1, a1, EventView::Sent);
    let (s2, a2) = s1.step(EventView::Sent);
    assert(s2.pending == Pending::BestMove && a2 == s2.receive());
    lemma_unawaited_lines_are_passed_over(s2, before_bestmove);
    lemma_run_one(s2, a2, EventView::Line(bestmove));
    assert(seq![EventView::Sent, EventView::Sent] =~= e1 + e2);
    lemma_run_concat(s0, a0, e1, e2);
    lemma_run_concat(s0, a0, e1 + e2, e3);
    lemma_run_concat(s0, a0, e1 + e2 + e3, e4);
}

} // verus!
