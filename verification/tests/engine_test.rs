use std::collections::VecDeque;

use usi_engine::usi::buffer::{read_response_line, LineBuffer, Polled, POLL_INTERVAL_MS};
use usi_engine::usi::engine::{
    Action, Event, Outcome, Phase, UsiEngine, HANDSHAKE_TIMEOUT_MS, QUIT_GRACE_MS,
    SEARCH_MARGIN_MS,
};
use usi_engine::usi::error::EngineError;

/// A process that is none: it answers each line written to it with the
/// lines that its script gives for that line.
struct FakeProcess {
    can_spawn: bool,
    has_streams: bool,
    can_write: bool,
    script: Vec<(String, Vec<String>)>,
    output: LineBuffer,
    spawned: Vec<String>,
    written: Vec<String>,
    timeouts: Vec<u64>,
    reaped: Vec<u64>,
    slept_ms: u64,
}

impl FakeProcess {
    fn new(script: &[(&str, &[&str])]) -> Self {
        FakeProcess {
            can_spawn: true,
            has_streams: true,
            can_write: true,
            script: script
                .iter()
                .map(|(line, answers)| {
                    (line.to_string(), answers.iter().map(|a| a.to_string()).collect())
                })
                .collect(),
            output: LineBuffer::new(),
            spawned: Vec::new(),
            written: Vec::new(),
            timeouts: Vec::new(),
            reaped: Vec::new(),
            slept_ms: 0,
        }
    }

    fn receive(&mut self, timeout_ms: u64) -> Event {
        let mut elapsed_ms: u128 = 0;
        loop {
            match read_response_line(&mut self.output, elapsed_ms, timeout_ms) {
                Ok(Polled::Line(line)) => return Event::Line(line),
                Ok(Polled::Wait(ms)) => {
                    elapsed_ms += ms as u128;
                    self.slept_ms += ms;
                }
                Err(error) => {
                    assert_eq!(error, EngineError::Timeout);
                    return Event::TimedOut;
                }
            }
        }
    }

    fn perform(&mut self, action: Action) -> Event {
        match action {
            Action::Spawn(path) => {
                self.spawned.push(path);
                if !self.can_spawn {
                    Event::SpawnFailed
                } else if !self.has_streams {
                    Event::StreamCaptureFailed
                } else {
                    Event::Spawned
                }
            }
            Action::Send(line) => {
                if !self.can_write {
                    return Event::WriteFailed;
                }
                for (command, answers) in &self.script {
                    if line.starts_with(command.as_str()) {
                        for answer in answers {
                            self.output.push_line(answer.clone());
                        }
                    }
                }
                self.written.push(line);
                Event::Sent
            }
            Action::Receive(timeout_ms) => {
                self.timeouts.push(timeout_ms);
                self.receive(timeout_ms)
            }
            Action::Reap(grace_ms) => {
                self.reaped.push(grace_ms);
                Event::Reaped
            }
            Action::Done(_) => unreachable!(),
        }
    }
}

fn drive(engine: &mut UsiEngine, first: Action, process: &mut FakeProcess) -> Outcome {
    let mut action = first;
    loop {
        if let Action::Done(outcome) = action {
            assert!(!engine.is_busy());
            return outcome;
        }
        assert!(engine.is_busy());
        let event = process.perform(action);
        action = engine.step(event);
    }
}

fn ready_engine(process: &mut FakeProcess) -> UsiEngine {
    let mut engine = UsiEngine::new();
    let action = engine.initialize("/usr/bin/engine");
    assert_eq!(drive(&mut engine, action, process), Outcome::Completed);
    assert_eq!(engine.phase(), Phase::Ready);
    engine
}

const HANDSHAKE: (&str, &[&str]) = ("usi", &["id name Fake", "id author nobody", "usiok"]);
const READINESS: (&str, &[&str]) = ("isready", &["readyok"]);
const START: &str = "lnsgkgsnl/1b5r1/ppppppppp/9/9/9/PPPPPPPPP/1R5B1/LNSGKGSNL b - 1";

#[test]
fn test_engine_creation() {
    let engine = UsiEngine::new();
    assert!(!engine.is_running());
}

#[test]
fn new_engine_is_not_started() {
    let engine = UsiEngine::new();
    assert_eq!(engine.phase(), Phase::NotStarted);
    assert!(!engine.is_ready());
    assert!(!engine.is_busy());
    let engine = UsiEngine::default();
    assert_eq!(engine.phase(), Phase::NotStarted);
}

#[test]
fn start_asks_for_the_launch() {
    let mut engine = UsiEngine::new();
    assert_eq!(engine.start("/opt/engine"), Action::Spawn("/opt/engine".to_string()));
    assert!(engine.is_busy());
    assert!(!engine.is_running());
    assert_eq!(engine.step(Event::Spawned), Action::Done(Outcome::Completed));
    assert!(engine.is_running());
    assert_eq!(engine.phase(), Phase::Starting);
    assert!(!engine.is_ready());
}

#[test]
fn start_fails_when_the_launch_fails() {
    let mut engine = UsiEngine::new();
    engine.start("/nowhere");
    assert_eq!(
        engine.step(Event::SpawnFailed),
        Action::Done(Outcome::Failed(EngineError::SpawnFailed))
    );
    assert_eq!(engine.phase(), Phase::NotStarted);
    assert!(!engine.is_running());
    engine.start("/nowhere");
    assert_eq!(
        engine.step(Event::StreamCaptureFailed),
        Action::Done(Outcome::Failed(EngineError::StreamCaptureFailed))
    );
    assert_eq!(engine.phase(), Phase::NotStarted);
    engine.start("/nowhere");
    assert_eq!(
        engine.step(Event::TimedOut),
        Action::Done(Outcome::Failed(EngineError::SpawnFailed))
    );
    assert_eq!(engine.phase(), Phase::NotStarted);
}

#[test]
fn requests_need_a_started_engine() {
    let not_started = Action::Done(Outcome::Failed(EngineError::NotStarted));
    let mut engine = UsiEngine::new();
    assert_eq!(engine.send_command("usi"), not_started);
    assert_eq!(engine.init(), not_started);
    assert_eq!(engine.get_best_move(START, &[], 1000), not_started);
    assert_eq!(engine.stop(), not_started);
    assert_eq!(engine.new_game(), not_started);
    assert_eq!(engine.set_option("USI_Hash", "256"), not_started);
    assert_eq!(engine.phase(), Phase::NotStarted);
    assert!(!engine.is_busy());
}

#[test]
fn init_goes_through_the_handshake() {
    let mut engine = UsiEngine::new();
    engine.start("/opt/engine");
    engine.step(Event::Spawned);
    assert_eq!(engine.init(), Action::Send("usi".to_string()));
    assert_eq!(engine.phase(), Phase::Starting);
    assert_eq!(engine.step(Event::Sent), Action::Receive(5000));
    assert_eq!(engine.step(Event::Line("id name Fake".to_string())), Action::Receive(5000));
    assert_eq!(engine.step(Event::Line("readyok".to_string())), Action::Receive(5000));
    assert_eq!(engine.step(Event::Line("info depth 1".to_string())), Action::Receive(5000));
    assert_eq!(engine.step(Event::Line(String::new())), Action::Receive(5000));
    assert_eq!(
        engine.step(Event::Line(" usiok ".to_string())),
        Action::Send("isready".to_string())
    );
    assert_eq!(engine.phase(), Phase::Starting);
    assert_eq!(engine.step(Event::Sent), Action::Receive(5000));
    assert_eq!(engine.step(Event::Line("usiok".to_string())), Action::Receive(5000));
    assert_eq!(engine.step(Event::Line("bestmove 7g7f".to_string())), Action::Receive(5000));
    assert!(!engine.is_ready());
    assert_eq!(
        engine.step(Event::Line("readyok".to_string())),
        Action::Done(Outcome::Completed)
    );
    assert_eq!(engine.phase(), Phase::Ready);
    assert!(engine.is_ready());
    assert!(engine.is_running());
    assert!(!engine.is_busy());
    assert_eq!(HANDSHAKE_TIMEOUT_MS, 5000);
}

#[test]
fn initialize_against_a_scripted_process_reaches_ready() {
    let mut process = FakeProcess::new(&[("usi", &["usiok"]), ("isready", &["readyok"])]);
    let mut engine = UsiEngine::new();
    let action = engine.initialize("/opt/engine");
    assert_eq!(action, Action::Spawn("/opt/engine".to_string()));
    assert_eq!(drive(&mut engine, action, &mut process), Outcome::Completed);
    assert_eq!(engine.phase(), Phase::Ready);
    assert_eq!(process.spawned, vec!["/opt/engine"]);
    assert_eq!(process.written, vec!["usi", "isready"]);
    assert_eq!(process.timeouts, vec![5000, 5000]);
    assert!(process.output.is_empty());
}

#[test]
fn start_then_init_against_a_scripted_process_reaches_ready() {
    let mut process = FakeProcess::new(&[HANDSHAKE, READINESS]);
    let mut engine = UsiEngine::new();
    let action = engine.start("/opt/engine");
    assert_eq!(drive(&mut engine, action, &mut process), Outcome::Completed);
    assert_eq!(engine.phase(), Phase::Starting);
    let action = engine.init();
    assert_eq!(drive(&mut engine, action, &mut process), Outcome::Completed);
    assert_eq!(engine.phase(), Phase::Ready);
    assert_eq!(process.written, vec!["usi", "isready"]);
    assert_eq!(process.timeouts, vec![5000, 5000, 5000, 5000]);
}

#[test]
fn initialize_fails_when_the_launch_fails() {
    let mut process = FakeProcess::new(&[HANDSHAKE, READINESS]);
    process.can_spawn = false;
    let mut engine = UsiEngine::new();
    let action = engine.initialize("/nowhere");
    assert_eq!(
        drive(&mut engine, action, &mut process),
        Outcome::Failed(EngineError::SpawnFailed)
    );
    assert_eq!(engine.phase(), Phase::NotStarted);
    assert!(process.written.is_empty());
    process.can_spawn = true;
    process.has_streams = false;
    let action = engine.initialize("/nowhere");
    assert_eq!(
        drive(&mut engine, action, &mut process),
        Outcome::Failed(EngineError::StreamCaptureFailed)
    );
    assert_eq!(engine.phase(), Phase::NotStarted);
}

#[test]
fn handshake_times_out_without_usiok() {
    let mut process = FakeProcess::new(&[("usi", &["id name Fake"])]);
    let mut engine = UsiEngine::new();
    let action = engine.initialize("/opt/engine");
    assert_eq!(
        drive(&mut engine, action, &mut process),
        Outcome::Failed(EngineError::HandshakeTimeout)
    );
    assert_eq!(engine.phase(), Phase::Starting);
    assert!(engine.is_running());
    assert!(!engine.is_ready());
    assert_eq!(process.written, vec!["usi"]);
    assert_eq!(process.timeouts, vec![5000, 5000]);
    assert_eq!(
        engine.get_best_move(START, &[], 1000),
        Action::Done(Outcome::Failed(EngineError::NotStarted))
    );
}

#[test]
fn readiness_times_out_without_readyok() {
    let mut process = FakeProcess::new(&[HANDSHAKE, ("isready", &["info string loading"])]);
    let mut engine = UsiEngine::new();
    let action = engine.initialize("/opt/engine");
    assert_eq!(
        drive(&mut engine, action, &mut process),
        Outcome::Failed(EngineError::ReadinessTimeout)
    );
    assert_eq!(engine.phase(), Phase::Starting);
    assert_eq!(process.written, vec!["usi", "isready"]);
}

#[test]
fn init_can_be_tried_again_after_a_timeout() {
    let mut process = FakeProcess::new(&[]);
    let mut engine = UsiEngine::new();
    let action = engine.initialize("/opt/engine");
    assert_eq!(
        drive(&mut engine, action, &mut process),
        Outcome::Failed(EngineError::HandshakeTimeout)
    );
    process.script = vec![
        ("usi".to_string(), vec!["usiok".to_string()]),
        ("isready".to_string(), vec!["readyok".to_string()]),
    ];
    let action = engine.init();
    assert_eq!(drive(&mut engine, action, &mut process), Outcome::Completed);
    assert_eq!(engine.phase(), Phase::Ready);
}

#[test]
fn init_fails_when_a_write_fails() {
    let mut process = FakeProcess::new(&[HANDSHAKE, READINESS]);
    let mut engine = UsiEngine::new();
    let action = engine.start("/opt/engine");
    drive(&mut engine, action, &mut process);
    process.can_write = false;
    let action = engine.init();
    assert_eq!(
        drive(&mut engine, action, &mut process),
        Outcome::Failed(EngineError::WriteFailed)
    );
    assert_eq!(engine.phase(), Phase::Starting);
    let mut engine = UsiEngine::new();
    engine.start("/opt/engine");
    engine.step(Event::Spawned);
    engine.init();
    engine.step(Event::Sent);
    engine.step(Event::Line("usiok".to_string()));
    assert_eq!(
        engine.step(Event::WriteFailed),
        Action::Done(Outcome::Failed(EngineError::WriteFailed))
    );
    assert_eq!(engine.phase(), Phase::Starting);
    assert!(!engine.is_busy());
}

#[test]
fn search_returns_the_move_and_discards_info_lines() {
    let mut process = FakeProcess::new(&[
        HANDSHAKE,
        READINESS,
        (
            "go",
            &[
                "info depth 1 score cp 10 pv 2g2f",
                "info depth 2 score cp 12 pv 2g2f 8c8d",
                "bestmove 2g2f",
            ],
        ),
    ]);
    let mut engine = ready_engine(&mut process);
    process.written.clear();
    process.timeouts.clear();
    let action = engine.get_best_move(START, &[], 1000);
    assert_eq!(engine.phase(), Phase::Searching);
    assert_eq!(
        drive(&mut engine, action, &mut process),
        Outcome::BestMove("2g2f".to_string())
    );
    assert_eq!(engine.phase(), Phase::Ready);
    assert_eq!(
        process.written,
        vec![format!("position sfen {}", START), "go byoyomi 1000".to_string()]
    );
    assert_eq!(process.timeouts, vec![6000, 6000, 6000]);
    assert!(process.output.is_empty());
}

#[test]
fn search_step_by_step() {
    let mut process = FakeProcess::new(&[HANDSHAKE, READINESS]);
    let mut engine = ready_engine(&mut process);
    let moves = vec!["7g7f".to_string(), "3c3d".to_string()];
    assert_eq!(
        engine.get_best_move("startpos", &moves, 250),
        Action::Send("position sfen startpos moves 7g7f 3c3d".to_string())
    );
    assert_eq!(engine.phase(), Phase::Searching);
    assert!(engine.is_running());
    assert!(!engine.is_ready());
    assert_eq!(engine.step(Event::Sent), Action::Send("go byoyomi 250".to_string()));
    assert_eq!(engine.step(Event::Sent), Action::Receive(5250));
    assert_eq!(engine.step(Event::Line("info depth 3".to_string())), Action::Receive(5250));
    assert_eq!(engine.step(Event::Line("usiok".to_string())), Action::Receive(5250));
    assert_eq!(engine.step(Event::Line("readyok".to_string())), Action::Receive(5250));
    assert_eq!(engine.step(Event::Line("bestmove".to_string())), Action::Receive(5250));
    assert_eq!(engine.step(Event::Line("garbage".to_string())), Action::Receive(5250));
    assert_eq!(engine.phase(), Phase::Searching);
    assert_eq!(
        engine.step(Event::Line("bestmove 2g2f ponder 8c8d".to_string())),
        Action::Done(Outcome::BestMove("2g2f".to_string()))
    );
    assert_eq!(engine.phase(), Phase::Ready);
    assert!(!engine.is_busy());
    assert_eq!(SEARCH_MARGIN_MS, 5000);
}

#[test]
fn search_timeout_is_thinking_time_and_margin() {
    let mut process = FakeProcess::new(&[HANDSHAKE, READINESS]);
    let mut engine = ready_engine(&mut process);
    engine.get_best_move(START, &[], 0);
    engine.step(Event::Sent);
    assert_eq!(engine.step(Event::Sent), Action::Receive(5000));
    engine.get_best_move(START, &[], u32::MAX);
    engine.step(Event::Sent);
    assert_eq!(engine.step(Event::Sent), Action::Receive(4294967295 + 5000));
}

#[test]
fn search_times_out_without_bestmove() {
    let mut process = FakeProcess::new(&[HANDSHAKE, READINESS, ("go", &["info depth 1"])]);
    let mut engine = ready_engine(&mut process);
    process.slept_ms = 0;
    let action = engine.get_best_move(START, &[], 300);
    assert_eq!(
        drive(&mut engine, action, &mut process),
        Outcome::Failed(EngineError::SearchTimeout)
    );
    assert_eq!(engine.phase(), Phase::Ready);
    assert_eq!(process.slept_ms, 5300);
    process.script.push(("go".to_string(), vec!["bestmove 7g7f".to_string()]));
    let action = engine.get_best_move(START, &[], 300);
    assert_eq!(
        drive(&mut engine, action, &mut process),
        Outcome::BestMove("7g7f".to_string())
    );
}

#[test]
fn search_fails_when_a_write_fails() {
    let mut process = FakeProcess::new(&[HANDSHAKE, READINESS]);
    let mut engine = ready_engine(&mut process);
    engine.get_best_move(START, &[], 1000);
    assert_eq!(
        engine.step(Event::WriteFailed),
        Action::Done(Outcome::Failed(EngineError::WriteFailed))
    );
    assert_eq!(engine.phase(), Phase::Ready);
    engine.get_best_move(START, &[], 1000);
    engine.step(Event::Sent);
    assert_eq!(
        engine.step(Event::WriteFailed),
        Action::Done(Outcome::Failed(EngineError::WriteFailed))
    );
    assert_eq!(engine.phase(), Phase::Ready);
    assert!(!engine.is_busy());
}

#[test]
fn search_needs_a_ready_engine() {
    let mut engine = UsiEngine::new();
    engine.start("/opt/engine");
    engine.step(Event::Spawned);
    assert_eq!(
        engine.get_best_move(START, &[], 1000),
        Action::Done(Outcome::Failed(EngineError::NotStarted))
    );
    assert_eq!(engine.phase(), Phase::Starting);
}

#[test]
fn single_commands_are_sent_as_they_are() {
    let mut process = FakeProcess::new(&[HANDSHAKE, READINESS]);
    let mut engine = ready_engine(&mut process);
    assert_eq!(engine.stop(), Action::Send("stop".to_string()));
    assert_eq!(engine.step(Event::Sent), Action::Done(Outcome::Completed));
    assert_eq!(engine.new_game(), Action::Send("usinewgame".to_string()));
    assert_eq!(engine.step(Event::Sent), Action::Done(Outcome::Completed));
    assert_eq!(
        engine.set_option("USI_Hash", "256"),
        Action::Send("setoption name USI_Hash value 256".to_string())
    );
    assert_eq!(engine.step(Event::Sent), Action::Done(Outcome::Completed));
    assert_eq!(engine.send_command("gameover win"), Action::Send("gameover win".to_string()));
    assert_eq!(
        engine.step(Event::WriteFailed),
        Action::Done(Outcome::Failed(EngineError::WriteFailed))
    );
    assert_eq!(engine.phase(), Phase::Ready);
    assert!(!engine.is_busy());
}

#[test]
fn a_new_request_gives_up_the_one_in_flight() {
    let mut process = FakeProcess::new(&[HANDSHAKE, READINESS]);
    let mut engine = ready_engine(&mut process);
    engine.get_best_move(START, &[], 1000);
    engine.step(Event::Sent);
    engine.step(Event::Sent);
    assert_eq!(engine.phase(), Phase::Searching);
    assert_eq!(engine.stop(), Action::Send("stop".to_string()));
    assert_eq!(engine.phase(), Phase::Ready);
    assert_eq!(engine.step(Event::Sent), Action::Done(Outcome::Completed));
    assert_eq!(
        engine.step(Event::Line("bestmove 7g7f".to_string())),
        Action::Done(Outcome::Completed)
    );
    assert_eq!(engine.phase(), Phase::Ready);
}

#[test]
fn quit_shuts_the_engine_down() {
    let mut process = FakeProcess::new(&[HANDSHAKE, READINESS]);
    let mut engine = ready_engine(&mut process);
    assert_eq!(engine.quit(), Action::Send("quit".to_string()));
    assert!(engine.is_running());
    assert_eq!(engine.step(Event::Sent), Action::Reap(100));
    assert!(engine.is_running());
    assert_eq!(engine.step(Event::Reaped), Action::Done(Outcome::Completed));
    assert_eq!(engine.phase(), Phase::Stopped);
    assert!(!engine.is_running());
    assert!(!engine.is_busy());
    assert_eq!(QUIT_GRACE_MS, 100);
}

#[test]
fn quit_twice_succeeds_both_times() {
    let mut process = FakeProcess::new(&[HANDSHAKE, READINESS]);
    let mut engine = ready_engine(&mut process);
    process.written.clear();
    let action = engine.quit();
    assert_eq!(drive(&mut engine, action, &mut process), Outcome::Completed);
    assert_eq!(engine.phase(), Phase::Stopped);
    let action = engine.quit();
    assert_eq!(action, Action::Done(Outcome::Completed));
    assert_eq!(drive(&mut engine, action, &mut process), Outcome::Completed);
    assert_eq!(engine.phase(), Phase::Stopped);
    assert_eq!(process.written, vec!["quit"]);
    assert_eq!(process.reaped, vec![100]);
}

#[test]
fn quit_before_start_succeeds() {
    let mut engine = UsiEngine::new();
    assert_eq!(engine.quit(), Action::Done(Outcome::Completed));
    assert_eq!(engine.phase(), Phase::Stopped);
    assert_eq!(engine.quit(), Action::Done(Outcome::Completed));
    assert_eq!(engine.phase(), Phase::Stopped);
}

#[test]
fn quit_swallows_failures() {
    let mut process = FakeProcess::new(&[HANDSHAKE, READINESS]);
    let mut engine = ready_engine(&mut process);
    process.can_write = false;
    let action = engine.quit();
    assert_eq!(drive(&mut engine, action, &mut process), Outcome::Completed);
    assert_eq!(engine.phase(), Phase::Stopped);
    assert_eq!(process.reaped, vec![100]);
}

#[test]
fn quit_in_the_middle_of_a_request() {
    let mut process = FakeProcess::new(&[]);
    let mut engine = UsiEngine::new();
    engine.initialize("/opt/engine");
    engine.step(Event::Spawned);
    engine.step(Event::Sent);
    assert_eq!(engine.phase(), Phase::Starting);
    let action = engine.quit();
    assert_eq!(drive(&mut engine, action, &mut process), Outcome::Completed);
    assert_eq!(engine.phase(), Phase::Stopped);
    let mut process = FakeProcess::new(&[HANDSHAKE, READINESS]);
    let mut engine = ready_engine(&mut process);
    engine.get_best_move(START, &[], 1000);
    let action = engine.quit();
    assert_eq!(drive(&mut engine, action, &mut process), Outcome::Completed);
    assert_eq!(engine.phase(), Phase::Stopped);
}

#[test]
fn a_stopped_engine_can_be_started_again() {
    let mut process = FakeProcess::new(&[HANDSHAKE, READINESS]);
    let mut engine = ready_engine(&mut process);
    let action = engine.quit();
    drive(&mut engine, action, &mut process);
    assert_eq!(
        engine.init(),
        Action::Done(Outcome::Failed(EngineError::NotStarted))
    );
    let action = engine.initialize("/opt/engine");
    assert_eq!(drive(&mut engine, action, &mut process), Outcome::Completed);
    assert_eq!(engine.phase(), Phase::Ready);
}

#[test]
fn an_event_with_nothing_in_flight_changes_nothing() {
    let mut engine = UsiEngine::new();
    assert_eq!(engine.step(Event::Spawned), Action::Done(Outcome::Completed));
    assert_eq!(engine.step(Event::Line("usiok".to_string())), Action::Done(Outcome::Completed));
    assert_eq!(engine.phase(), Phase::NotStarted);
    assert!(!engine.is_running());
}

#[test]
fn buffer_hands_lines_out_oldest_first() {
    let mut buffer = LineBuffer::new();
    assert!(buffer.is_empty());
    assert_eq!(buffer.len(), 0);
    assert_eq!(buffer.pop_line(), None);
    buffer.push_line("one".to_string());
    buffer.push_line("two".to_string());
    buffer.push_line("three".to_string());
    assert_eq!(buffer.len(), 3);
    assert!(!buffer.is_empty());
    assert_eq!(buffer.pop_line(), Some("one".to_string()));
    buffer.push_line("four".to_string());
    assert_eq!(buffer.pop_line(), Some("two".to_string()));
    assert_eq!(buffer.pop_line(), Some("three".to_string()));
    assert_eq!(buffer.pop_line(), Some("four".to_string()));
    assert_eq!(buffer.pop_line(), None);
    assert!(LineBuffer::default().is_empty());
}

#[test]
fn reading_takes_the_oldest_line_at_once() {
    let mut buffer = LineBuffer::new();
    buffer.push_line("usiok".to_string());
    buffer.push_line("readyok".to_string());
    assert_eq!(read_response_line(&mut buffer, 0, 5000), Ok(Polled::Line("usiok".to_string())));
    assert_eq!(read_response_line(&mut buffer, 9999, 0), Ok(Polled::Line("readyok".to_string())));
    assert!(buffer.is_empty());
}

#[test]
fn reading_an_empty_buffer_waits_until_the_time_is_up() {
    let mut buffer = LineBuffer::new();
    assert_eq!(read_response_line(&mut buffer, 0, 5000), Ok(Polled::Wait(10)));
    assert_eq!(read_response_line(&mut buffer, 4999, 5000), Ok(Polled::Wait(10)));
    assert_eq!(read_response_line(&mut buffer, 5000, 5000), Err(EngineError::Timeout));
    assert_eq!(read_response_line(&mut buffer, 5001, 5000), Err(EngineError::Timeout));
    assert_eq!(
        read_response_line(&mut buffer, u128::MAX, u64::MAX),
        Err(EngineError::Timeout)
    );
    assert_eq!(
        read_response_line(&mut buffer, u64::MAX as u128, u64::MAX),
        Err(EngineError::Timeout)
    );
    assert_eq!(
        read_response_line(&mut buffer, u64::MAX as u128 - 1, u64::MAX),
        Ok(Polled::Wait(10))
    );
    assert!(buffer.is_empty());
    assert_eq!(POLL_INTERVAL_MS, 10);
}

#[test]
fn reading_with_no_time_left_fails_with_timeout() {
    let mut buffer = LineBuffer::new();
    assert_eq!(read_response_line(&mut buffer, 0, 0), Err(EngineError::Timeout));
    assert_eq!(read_response_line(&mut buffer, 1, 0), Err(EngineError::Timeout));
    assert_eq!(read_response_line(&mut buffer, 6000, 6000), Err(EngineError::Timeout));
    assert_eq!(read_response_line(&mut buffer, 7000, 6000), Err(EngineError::Timeout));
    assert!(buffer.is_empty());
    let mut process = FakeProcess::new(&[]);
    assert_eq!(process.receive(0), Event::TimedOut);
    assert_eq!(process.slept_ms, 0);
    assert_eq!(process.receive(25), Event::TimedOut);
    assert_eq!(process.slept_ms, 30);
}

#[test]
fn errors_in_words() {
    assert_eq!(EngineError::SpawnFailed.message(), "Failed to start engine process");
    assert_eq!(
        EngineError::StreamCaptureFailed.message(),
        "Failed to capture engine stdin or stdout"
    );
    assert_eq!(EngineError::NotStarted.message(), "Engine not started");
    assert_eq!(EngineError::WriteFailed.message(), "Failed to write to engine");
    assert_eq!(EngineError::Timeout.message(), "Timeout waiting for engine response");
    assert_eq!(EngineError::HandshakeTimeout.message(), "Timeout waiting for usiok");
    assert_eq!(EngineError::ReadinessTimeout.message(), "Timeout waiting for readyok");
    assert_eq!(EngineError::SearchTimeout.message(), "Timeout waiting for bestmove");
}

#[test]
fn lines_left_over_are_read_by_the_next_request() {
    let mut process = FakeProcess::new(&[
        ("usi", &["usiok", "late line"]),
        ("isready", &["readyok"]),
        ("go", &["bestmove 5g5f"]),
    ]);
    let mut engine = ready_engine(&mut process);
    assert!(process.output.is_empty());
    let mut lines: VecDeque<&str> = VecDeque::new();
    lines.push_back("info depth 1");
    while let Some(line) = lines.pop_front() {
        process.output.push_line(line.to_string());
    }
    let action = engine.get_best_move(START, &[], 10);
    assert_eq!(
        drive(&mut engine, action, &mut process),
        Outcome::BestMove("5g5f".to_string())
    );
}
