//! The lines received from an engine and not yet read.
//!
//! Whoever reads the engine's output appends each line as it arrives; the
//! session takes the lines out again, oldest first. The buffer has no
//! bound.

use vstd::prelude::*;
use vstd::string::*;
use crate::usi::error::EngineError;

verus! {

/// The time to wait between two looks into an empty buffer, in
/// milliseconds.
pub const POLL_INTERVAL_MS: u64 = 10;

/// A first-in, first-out queue of lines.
#[derive(Debug)]
pub struct LineBuffer {
    lines: Vec<String>,
}

impl View for LineBuffer {
    type V = Seq<Seq<char>>;

    /// The lines in the buffer, the oldest first.
    closed spec fn view(&self) -> Seq<Seq<char>> {
        self.lines.deep_view()
    }
}

impl LineBuffer {
    /// The empty buffer.
    pub fn new() -> (buffer: Self)
        ensures
            buffer@ == Seq::<Seq<char>>::empty(),
    {
        let buffer = LineBuffer { lines: Vec::new() };
        assert(buffer.lines.deep_view() =~= Seq::<Seq<char>>::empty());
        buffer
    }

    /// The number of lines in the buffer.
    pub fn len(&self) -> (n: usize)
        ensures
            n == self@.len(),
    {
        self.lines.len()
    }

    /// Whether the buffer holds no line.
    pub fn is_empty(&self) -> (b: bool)
        ensures
            b == (self@.len() == 0),
    {
        self.lines.len() == 0
    }

    /// Appends `line` as the newest line.
    pub fn push_line(&mut self, line: String)
        ensures
            final(self)@ == old(self)@.push(line@),
    {
        self.lines.push(line);
        assert(self.lines.deep_view() =~= old(self).lines.deep_view().push(line@));
    }

    /// Takes out the oldest line, if there is one.
    pub fn pop_line(&mut self) -> (line: Option<String>)
        ensures
            old(self)@.len() == 0 ==> line is None && final(self)@ == old(self)@,
            old(self)@.len() > 0 ==> line is Some && line->0@ == old(self)@[0] && final(self)@
                == old(self)@.skip(1),
    {
        if self.lines.len() == 0 {
            None
        } else {
            let line = self.lines.remove(0);
            assert(self.lines.deep_view() =~= old(self).lines.deep_view().skip(1));
            Some(line)
        }
    }
}

impl Default for LineBuffer {
    fn default() -> (buffer: Self)
        ensures
            buffer@ == Seq::<Seq<char>>::empty(),
    {
        LineBuffer::new()
    }
}

/// What a reader that looks into the buffer finds.
#[derive(Debug, Clone, PartialEq, Eq)]
pub enum Polled {
    /// This line, which was the oldest in the buffer and is now taken out.
    Line(String),
    /// Nothing yet: the reader is to wait this many milliseconds and look
    /// again.
    Wait(u64),
}

/// A [`Polled`] as a mathematical value.
pub enum PolledView {
    Line(Seq<char>),
    Wait(u64),
}

impl View for Polled {
    type V = PolledView;

    open spec fn view(&self) -> PolledView {
        match self {
            Polled::Line(line) => PolledView::Line(line@),
            Polled::Wait(ms) => PolledView::Wait(*ms),
        }
    }
}

/// What a look came to, as a mathematical value.
pub open spec fn polled_view(polled: Result<Polled, EngineError>) -> Result<
    PolledView,
    EngineError,
> {
    match polled {
        Ok(found) => Ok(found@),
        Err(error) => Err(error),
    }
}

/// What one look into a buffer that holds `lines` comes to for a reader
/// that has waited `elapsed_ms` milliseconds so far and is willing to wait
/// `timeout_ms`: the lines left in the buffer, and what the reader finds.
///
/// Where the buffer holds a line, the oldest is taken out, however long
/// the reader has waited. Where it is empty, the reader is out of time
/// once `elapsed_ms` has reached `timeout_ms`, so at once where
/// `timeout_ms` is zero; until then it is to wait for
/// [`POLL_INTERVAL_MS`] and look again.
pub open spec fn poll(lines: Seq<Seq<char>>, elapsed_ms: nat, timeout_ms: nat) -> (
    Seq<Seq<char>>,
    Result<PolledView, EngineError>,
) {
    if lines.len() > 0 {
        (lines.skip(1), Ok(PolledView::Line(lines[0])))
    } else if elapsed_ms >= timeout_ms {
        (lines, Err(EngineError::Timeout))
    } else {
        (lines, Ok(PolledView::Wait(POLL_INTERVAL_MS)))
    }
}

/// One look into the buffer by a reader that has waited `elapsed_ms`
/// milliseconds so far and is willing to wait `timeout_ms`.
///
/// A reader gets a line within its time by looking, waiting as long as it
/// is told, and looking again with the time that has passed since its
/// first look, until the answer is a line or [`EngineError::Timeout`].
pub fn read_response_line(buffer: &mut LineBuffer, elapsed_ms: u128, timeout_ms: u64) -> (polled:
    Result<Polled, EngineError>)
    ensures
        (final(buffer)@, polled_view(polled)) == poll(
            old(buffer)@,
            elapsed_ms as nat,
            timeout_ms as nat,
        ),
{
    match buffer.pop_line() {
        Some(line) => Ok(Polled::Line(line)),
        None => {
            if elapsed_ms >= timeout_ms as u128 {
                Err(EngineError::Timeout)
            } else {
                Ok(Polled::Wait(POLL_INTERVAL_MS))
            }
        },
    }
}

/// A reader whose time is up when it finds the buffer empty is not made
/// to wait again, and one whose time is not up is never turned away: it
/// fails with [`EngineError::Timeout`] in the one case and in no other. A
/// reader with no time at all is turned away at its first look.
pub proof fn lemma_timeout_iff_time_is_up(lines: Seq<Seq<char>>, elapsed_ms: nat, timeout_ms: nat)
    ensures
        poll(lines, elapsed_ms, timeout_ms).1 is Err <==> lines.len() == 0 && elapsed_ms
            >= timeout_ms,
        poll(lines, elapsed_ms, timeout_ms).1 is Err ==> poll(lines, elapsed_ms, timeout_ms)
            == (lines, Err::<PolledView, EngineError>(EngineError::Timeout)),
        poll(lines, elapsed_ms, timeout_ms).1 matches Ok(PolledView::Wait(ms)) ==> elapsed_ms
            < timeout_ms && ms == POLL_INTERVAL_MS,
        poll(Seq::empty(), elapsed_ms, 0).1 == Err::<PolledView, EngineError>(EngineError::Timeout),
{
}

} // verus!
