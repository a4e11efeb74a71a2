//! A stand-in for an engine: it answers from a small opening book and
//! needs no process.

use vstd::prelude::*;
use vstd::string::*;
use crate::text::{chars_of, join_spaced, span_string, token_spans, tokens};
use crate::usi::book::{first_move_for, index_of, EntryView, OpeningBook};

verus! {

/// The position at the start of a game, as the book names it.
pub open spec fn opening_position() -> Seq<char> {
    "lnsgkgsnl/1b5r1/ppppppppp/9/9/9/PPPPPPPPP/1R5B1/LNSGKGSNL b - 1"@
}

/// What the opening book of the stand-in holds: the position at the
/// start of a game, with four first moves.
pub open spec fn opening_entries() -> Seq<EntryView> {
    seq![
        EntryView {
            position: opening_position(),
            moves: seq!["7g7f"@, "2g2f"@, "5g5f"@, "6g6f"@],
        },
    ]
}

/// The move that the book gives for `position`, where it knows the
/// position: the first of the moves that it holds for it.
pub open spec fn book_move(position: Seq<char>) -> Option<Seq<char>> {
    first_move_for(opening_entries(), position)
}

/// The answer of the stand-in to the position `sfen`. A position of fewer
/// than four tokens is refused. For any other the answer is the move that
/// the book gives for its first four tokens, and `7g7f` where the book
/// gives none.
pub open spec fn mock_move(sfen: Seq<char>) -> Result<Seq<char>, Seq<char>> {
    let parts = tokens(sfen);
    if parts.len() < 4 {
        Err("Invalid SFEN format"@)
    } else {
        match book_move(join_spaced(parts.take(4))) {
            Some(best_move) => Ok(best_move),
            None => Ok("7g7f"@),
        }
    }
}

/// With the book as it is, the answer to a position of four tokens or
/// more is the pawn move `7g7f`: the one position that the book knows has
/// it as its first move.
pub proof fn lemma_mock_move_is_fixed(sfen: Seq<char>)
    ensures
        mock_move(sfen) == if tokens(sfen).len() < 4 {
            Err::<Seq<char>, Seq<char>>("Invalid SFEN format"@)
        } else {
            Ok("7g7f"@)
        },
{
    let parts = tokens(sfen);
    if parts.len() >= 4 {
        let position = join_spaced(parts.take(4));
        let entries = opening_entries();
        assert(entries.skip(1).len() == 0);
        assert(index_of(entries.skip(1), position) == 0);
    }
}

/// An answer in words or an error in words, as a mathematical value.
pub open spec fn reply_view(reply: Result<String, String>) -> Result<Seq<char>, Seq<char>> {
    match reply {
        Ok(text) => Ok(text@),
        Err(text) => Err(text@),
    }
}

/// The opening book of the stand-in.
pub fn opening_book() -> (book: OpeningBook)
    ensures
        book@ == opening_entries(),
{
    let mut moves: Vec<String> = Vec::new();
    moves.push("7g7f".to_string());
    moves.push("2g2f".to_string());
    moves.push("5g5f".to_string());
    moves.push("6g6f".to_string());
    assert(moves.deep_view() =~= seq!["7g7f"@, "2g2f"@, "5g5f"@, "6g6f"@]);
    let mut book = OpeningBook::new();
    book.insert(
        "lnsgkgsnl/1b5r1/ppppppppp/9/9/9/PPPPPPPPP/1R5B1/LNSGKGSNL b - 1".to_string(),
        moves,
    );
    assert(book@ =~= opening_entries());
    book
}

/// An engine that is none: it answers without thinking.
#[derive(Debug)]
pub struct MockEngine {
    initialized: bool,
}

impl MockEngine {
    /// Whether the stand-in has been initialized and not been quit since.
    pub closed spec fn ready(&self) -> bool {
        self.initialized
    }

    /// A stand-in that is not initialized yet.
    pub fn new() -> (engine: Self)
        ensures
            !engine.ready(),
    {
        MockEngine { initialized: false }
    }

    /// Initializes the stand-in. This cannot fail.
    pub fn init(&mut self) -> (done: Result<(), String>)
        ensures
            done is Ok,
            final(self).ready(),
    {
        self.initialized = true;
        Ok(())
    }

    /// The move of the stand-in in the position `sfen`. It takes no time,
    /// whatever `_time_ms` allows.
    ///
    /// Before [`MockEngine::init`] the answer is the error
    /// `Engine not initialized`.
    pub fn get_best_move(&self, sfen: &str, _time_ms: u32) -> (reply: Result<String, String>)
        ensures
            reply_view(reply) == if self.ready() {
                mock_move(sfen@)
            } else {
                Err("Engine not initialized"@)
            },
    {
        if !self.initialized {
            return Err("Engine not initialized".to_string());
        }
        self.generate_mock_move(sfen)
    }

    /// The move for the position `sfen`: the one from the book where the
    /// book knows the position, and a pawn move where it does not.
    pub fn generate_mock_move(&self, sfen: &str) -> (reply: Result<String, String>)
        ensures
            reply_view(reply) == mock_move(sfen@),
    {
        let chars = chars_of(sfen);
        let spans = token_spans(chars.as_slice());
        if spans.len() < 4 {
            return Err("Invalid SFEN format".to_string());
        }
        let ghost parts = tokens(sfen@);
        let mut position = span_string(sfen, spans[0]);
        proof {
            reveal_strlit(" ");
            assert(position@ == join_spaced(parts.take(1)));
        }
        let mut k: usize = 1;
        while k < 4
            invariant
                1 <= k <= 4 <= spans@.len() == parts.len(),
                chars@ == sfen@,
                parts == tokens(sfen@),
                " "@ == seq![' '],
                forall|j: int|
                    0 <= j < spans@.len() ==> (#[trigger] spans@[j]).within(chars@.len())
                        && spans@[j].text(chars@) == parts[j],
                position@ == join_spaced(parts.take(k as int)),
            decreases 4 - k,
        {
            position.append(" ");
            position.append(span_string(sfen, spans[k]).as_str());
            proof {
                let upto = parts.take(k + 1);
                assert(upto.drop_last() =~= parts.take(k as int));
            }
            k += 1;
        }
        let book = opening_book();
        match book.first_move(&position) {
            Some(best_move) => Ok(best_move),
            None => Ok("7g7f".to_string()),
        }
    }

    /// Tells the stand-in to stop thinking. It never thinks, so nothing
    /// happens.
    pub fn stop(&mut self) -> (done: Result<(), String>)
        ensures
            done is Ok,
            final(self).ready() == old(self).ready(),
    {
        Ok(())
    }

    /// Quits the stand-in. It must be initialized again before it answers.
    pub fn quit(&mut self) -> (done: Result<(), String>)
        ensures
            done is Ok,
            !final(self).ready(),
    {
        self.initialized = false;
        Ok(())
    }

    /// Whether the stand-in has been initialized and not been quit since.
    pub fn is_ready(&self) -> (ready: bool)
        ensures
            ready == self.ready(),
    {
        self.initialized
    }
}

impl Default for MockEngine {
    fn default() -> (engine: Self)
        ensures
            !engine.ready(),
    {
        MockEngine::new()
    }
}

} // verus!
