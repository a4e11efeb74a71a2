//! The command lines that a driver sends to an engine.
//!
//! Each function gives the line without a line terminator. Numbers are
//! written in decimal; strings are put in as they are.

use vstd::prelude::*;
use vstd::string::*;
use crate::decimal::{decimal, push_decimal};
use crate::text::{
    all_tokens, is_space, is_token, join_spaced, lemma_tokens_after_token, lemma_tokens_concat,
    lemma_tokens_of_joined, tokens,
};

verus! {

/// The line that sets up the position `board` with `moves` played from it.
pub open spec fn position_line(board: Seq<char>, moves: Seq<Seq<char>>) -> Seq<char> {
    if moves.len() == 0 {
        "position sfen "@ + board
    } else {
        "position sfen "@ + board + " moves "@ + join_spaced(moves)
    }
}

/// The line that starts a search with `ms` milliseconds for the move.
pub open spec fn go_byoyomi_line(ms: nat) -> Seq<char> {
    "go byoyomi "@ + decimal(ms)
}

/// The line that starts a search under the clocks and increments given, all
/// in milliseconds.
pub open spec fn go_time_line(black: nat, white: nat, black_inc: nat, white_inc: nat) -> Seq<
    char,
> {
    "go btime "@ + decimal(black) + " wtime "@ + decimal(white) + " binc "@ + decimal(black_inc)
        + " winc "@ + decimal(white_inc)
}

/// The line that starts a search to the depth given.
pub open spec fn go_depth_line(depth: nat) -> Seq<char> {
    "go depth "@ + decimal(depth)
}

/// The line that sets the engine option `name` to `value`.
pub open spec fn setoption_line(name: Seq<char>, value: Seq<char>) -> Seq<char> {
    "setoption name "@ + name + " value "@ + value
}

/// The line that opens the handshake.
pub fn build_usi_command() -> (line: String)
    ensures
        line@ == "usi"@,
{
    "usi".to_string()
}

/// The line that asks the engine whether it is ready.
pub fn build_isready_command() -> (line: String)
    ensures
        line@ == "isready"@,
{
    "isready".to_string()
}

/// The line that sets up the position `sfen` with `moves` played from it:
/// `position sfen <sfen>`, followed by `moves` and the moves where there
/// are any.
pub fn build_position_command(sfen: &str, moves: &[String]) -> (line: String)
    ensures
        line@ == position_line(sfen@, moves.deep_view()),
{
    let mut line = "position sfen ".to_string();
    line.append(sfen);
    let n: usize = moves.len();
    if n > 0 {
        line.append(" moves ");
        let ghost head = line@;
        let ghost words = moves.deep_view();
        proof {
            reveal_strlit(" ");
            assert(words.take(0) =~= Seq::<Seq<char>>::empty());
            assert(head + join_spaced(words.take(0)) =~= head);
        }
        let mut i: usize = 0;
        while i < n
            invariant
                i <= n == moves@.len(),
                words == moves.deep_view(),
                " "@ == seq![' '],
                line@ == head + join_spaced(words.take(i as int)),
            decreases n - i,
        {
            if i > 0 {
                line.append(" ");
            }
            line.append(moves[i].as_str());
            proof {
                let upto = words.take(i + 1);
                assert(upto.drop_last() =~= words.take(i as int));
                assert(upto.last() == moves@[i as int]@);
                if i > 0 {
                    assert(head + join_spaced(words.take(i as int)) + seq![' '] + upto.last()
                        =~= head + join_spaced(upto));
                } else {
                    assert(head + join_spaced(words.take(0)) + upto.last() =~= head + join_spaced(
                        upto,
                    ));
                }
            }
            i += 1;
        }
        assert(words.take(n as int) =~= words);
    }
    line
}

/// The line that starts a search with `time_ms` milliseconds for the move.
pub fn build_go_byoyomi_command(time_ms: u32) -> (line: String)
    ensures
        line@ == go_byoyomi_line(time_ms as nat),
{
    let mut line = "go byoyomi ".to_string();
    push_decimal(&mut line, time_ms as u64);
    line
}

/// The line that starts a search under the two clocks and their
/// increments, all in milliseconds.
pub fn build_go_time_command(
    black_time_ms: u32,
    white_time_ms: u32,
    black_inc_ms: u32,
    white_inc_ms: u32,
) -> (line: String)
    ensures
        line@ == go_time_line(
            black_time_ms as nat,
            white_time_ms as nat,
            black_inc_ms as nat,
            white_inc_ms as nat,
        ),
{
    let mut line = "go btime ".to_string();
    push_decimal(&mut line, black_time_ms as u64);
    line.append(" wtime ");
    push_decimal(&mut line, white_time_ms as u64);
    line.append(" binc ");
    push_decimal(&mut line, black_inc_ms as u64);
    line.append(" winc ");
    push_decimal(&mut line, white_inc_ms as u64);
    line
}

/// The line that starts a search to the depth given.
pub fn build_go_depth_command(depth: u32) -> (line: String)
    ensures
        line@ == go_depth_line(depth as nat),
{
    let mut line = "go depth ".to_string();
    push_decimal(&mut line, depth as u64);
    line
}

/// The line that tells the engine to stop searching.
pub fn build_stop_command() -> (line: String)
    ensures
        line@ == "stop"@,
{
    "stop".to_string()
}

/// The line that tells the engine to exit.
pub fn build_quit_command() -> (line: String)
    ensures
        line@ == "quit"@,
{
    "quit".to_string()
}

/// The line that tells the engine that a new game begins.
pub fn build_usinewgame_command() -> (line: String)
    ensures
        line@ == "usinewgame"@,
{
    "usinewgame".to_string()
}

/// The line that sets the engine option `name` to `value`.
pub fn build_setoption_command(name: &str, value: &str) -> (line: String)
    ensures
        line@ == setoption_line(name@, value@),
{
    let mut line = "setoption name ".to_string();
    line.append(name);
    line.append(" value ");
    line.append(value);
    line
}

/// What follows the first occurrence of `word` among `parts`; nothing
/// where `word` does not occur.
pub open spec fn after_word(parts: Seq<Seq<char>>, word: Seq<char>) -> Seq<Seq<char>>
    decreases parts.len(),
{
    if parts.len() == 0 {
        Seq::empty()
    } else if parts[0] == word {
        parts.skip(1)
    } else {
        after_word(parts.skip(1), word)
    }
}

/// The moves that a `position` line names: the tokens after its first
/// `moves`.
pub open spec fn moves_of(line: Seq<char>) -> Seq<Seq<char>> {
    after_word(tokens(line), "moves"@)
}

/// Where `word` is not among `before`, what follows its first occurrence
/// in `before`, `word`, `rest` is `rest`.
pub proof fn lemma_after_word(before: Seq<Seq<char>>, word: Seq<char>, rest: Seq<Seq<char>>)
    requires
        !before.contains(word),
    ensures
        after_word(before + seq![word] + rest, word) == rest,
    decreases before.len(),
{
    let all = before + seq![word] + rest;
    if before.len() == 0 {
        assert(all.skip(1) =~= rest);
    } else {
        assert(all[0] == before[0]);
        assert(before.contains(before[0]));
        assert(all.skip(1) =~= before.skip(1) + seq![word] + rest);
        assert(!before.skip(1).contains(word)) by {
            if before.skip(1).contains(word) {
                let k = choose|k: int| 0 <= k < before.skip(1).len() && before.skip(1)[k] == word;
                assert(before[k + 1] == word);
            }
        }
        lemma_after_word(before.skip(1), word, rest);
    }
}

/// Where `word` is not among `parts`, nothing follows it.
pub proof fn lemma_after_absent_word(parts: Seq<Seq<char>>, word: Seq<char>)
    requires
        !parts.contains(word),
    ensures
        after_word(parts, word) == Seq::<Seq<char>>::empty(),
    decreases parts.len(),
{
    if parts.len() > 0 {
        assert(parts.contains(parts[0]));
        assert(!parts.skip(1).contains(word)) by {
            if parts.skip(1).contains(word) {
                let k = choose|k: int| 0 <= k < parts.skip(1).len() && parts.skip(1)[k] == word;
                assert(parts[k + 1] == word);
            }
        }
        lemma_after_absent_word(parts.skip(1), word);
    }
}

/// The tokens of a `position` line: `position`, `sfen`, the tokens of the
/// board, and then, where there are moves, `moves` and each move.
pub proof fn lemma_position_tokens(board: Seq<char>, moves: Seq<Seq<char>>)
    requires
        all_tokens(moves),
    ensures
        tokens(position_line(board, moves)) == seq!["position"@, "sfen"@] + tokens(board) + (
        if moves.len() == 0 {
            Seq::<Seq<char>>::empty()
        } else {
            seq!["moves"@] + moves
        }),
{
    reveal_strlit("position sfen ");
    reveal_strlit("position");
    reveal_strlit("sfen");
    reveal_strlit(" moves ");
    reveal_strlit("moves");
    let space = seq![' '];
    let head = "position sfen "@;
    assert(is_token("position"@));
    assert(is_token("sfen"@));
    assert(is_token("moves"@));
    assert(tokens(head) == seq!["position"@, "sfen"@]) by {
        let after = space + "sfen"@ + space;
        assert(head =~= "position"@ + after);
        lemma_tokens_after_token("position"@, after);
        assert(after.skip(1) =~= "sfen"@ + space);
        lemma_tokens_after_token("sfen"@, space);
        assert(tokens(space) =~= Seq::<Seq<char>>::empty()) by {
            assert(space.skip(1).len() == 0);
            assert(tokens(space.skip(1)) =~= Seq::<Seq<char>>::empty());
        }
        assert(seq!["position"@] + (seq!["sfen"@] + Seq::<Seq<char>>::empty()) =~= seq![
            "position"@,
            "sfen"@,
        ]);
    }
    assert(is_space(head.last()));
    lemma_tokens_concat(head, board);
    if moves.len() == 0 {
        assert(tokens(head) + tokens(board) + Seq::<Seq<char>>::empty() =~= tokens(head) + tokens(
            board,
        ));
    } else {
        let tail = " moves "@ + join_spaced(moves);
        assert(position_line(board, moves) =~= (head + board) + tail);
        lemma_tokens_concat(head + board, tail);
        assert(tokens(tail) == seq!["moves"@] + moves) by {
            let after = "moves"@ + (space + join_spaced(moves));
            assert(tail.skip(1) =~= after);
            lemma_tokens_after_token("moves"@, space + join_spaced(moves));
            assert((space + join_spaced(moves)).skip(1) =~= join_spaced(moves));
            lemma_tokens_of_joined(moves);
        }
    }
}

/// The moves come back out of a `position` line: the tokens after its
/// first `moves` are the moves that went in, in order, and with no moves
/// the line holds no token `moves`.
///
/// This is so where each move is a token and the board holds no token
/// `moves`.
pub proof fn lemma_position_round_trip(board: Seq<char>, moves: Seq<Seq<char>>)
    requires
        all_tokens(moves),
        !tokens(board).contains("moves"@),
    ensures
        moves_of(position_line(board, moves)) == moves,
        moves.len() == 0 ==> !tokens(position_line(board, moves)).contains("moves"@),
{
    lemma_position_tokens(board, moves);
    reveal_strlit("position");
    reveal_strlit("sfen");
    reveal_strlit("moves");
    let word = "moves"@;
    let before = seq!["position"@, "sfen"@] + tokens(board);
    assert("position"@ != word) by {
        assert("position"@.len() != word.len());
    }
    assert("sfen"@ != word) by {
        assert("sfen"@.len() != word.len());
    }
    assert(!before.contains(word)) by {
        if before.contains(word) {
            let k = choose|k: int| 0 <= k < before.len() && before[k] == word;
            if k >= 2 {
                assert(tokens(board)[k - 2] == word);
            }
        }
    }
    if moves.len() == 0 {
        assert(before + Seq::<Seq<char>>::empty() =~= before);
        lemma_after_absent_word(before, word);
        assert(moves =~= Seq::<Seq<char>>::empty());
    } else {
        assert(before + (seq![word] + moves) =~= before + seq![word] + moves);
        lemma_after_word(before, word, moves);
    }
}

} // verus!
