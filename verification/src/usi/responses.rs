//! Response lines as an engine writes them, and the proof that
//! [`classify`](crate::usi::parser::classify) reads them back as what they
//! were written from.

use vstd::prelude::*;
use vstd::string::*;
use crate::decimal::{
    decimal, lemma_decimal_is_token, lemma_decimal_round_trip, lemma_signed_decimal_round_trip,
    signed_decimal,
};
use crate::text::{
    all_tokens, is_space, is_token, join_spaced, lemma_all_tokens_concat, lemma_joined_ends,
    lemma_tokens_of_joined, trim,
};
use crate::usi::parser::{
    classify, is_field, lemma_keywords_differ, lemma_pv_takes_the_rest, lemma_scan_field,
    lemma_scan_is_local, no_info, scan_info, with_field, InfoView, ResponseView,
};

verus! {

/// The words by which an engine names its move, and the move to ponder on
/// where it names one.
pub open spec fn bestmove_words(best_move: Seq<char>, ponder: Option<Seq<char>>) -> Seq<
    Seq<char>,
> {
    match ponder {
        Some(reply) => seq!["bestmove"@, best_move, "ponder"@, reply],
        None => seq!["bestmove"@, best_move],
    }
}

/// The line by which an engine names its move, and the move to ponder on
/// where it names one.
pub open spec fn bestmove_line(best_move: Seq<char>, ponder: Option<Seq<char>>) -> Seq<char> {
    join_spaced(bestmove_words(best_move, ponder))
}

/// A `bestmove` line is read as what it was written from: the line that
/// names a move, with or without a move to ponder on, is classified as the
/// response with just that move and that move to ponder on.
///
/// This is so where the moves are tokens.
pub proof fn lemma_bestmove_line_is_read_back(best_move: Seq<char>, ponder: Option<Seq<char>>)
    requires
        is_token(best_move),
        ponder matches Some(reply) ==> is_token(reply),
    ensures
        classify(bestmove_line(best_move, ponder)) == (ResponseView::BestMove {
            best_move,
            ponder,
        }),
{
    let words = bestmove_words(best_move, ponder);
    let line = bestmove_line(best_move, ponder);
    assert(is_token("bestmove"@) && "bestmove"@[0] == 'b') by {
        reveal_strlit("bestmove");
    }
    assert(is_token("ponder"@)) by {
        reveal_strlit("ponder");
    }
    assert(all_tokens(words));
    lemma_tokens_of_joined(words);
    lemma_joined_ends(words);
    assert(is_token(words.last()));
    assert(!is_space(line[0]));
    assert(trim(line) == line);
    assert(line != "usiok"@) by {
        reveal_strlit("usiok");
    }
    assert(line != "readyok"@) by {
        reveal_strlit("readyok");
    }
}

/// The words by which an engine reports its depth, where it reports one.
pub open spec fn depth_words(info: InfoView) -> Seq<Seq<char>> {
    match info.depth {
        Some(depth) => seq!["depth"@, decimal(depth as nat)],
        None => Seq::empty(),
    }
}

/// The words by which an engine reports its evaluation, where it reports
/// one.
pub open spec fn score_words(info: InfoView) -> Seq<Seq<char>> {
    match info.score_cp {
        Some(score) => seq!["score"@, "cp"@, signed_decimal(score as int)],
        None => Seq::empty(),
    }
}

/// The words by which an engine reports its node count, where it reports
/// one.
pub open spec fn nodes_words(info: InfoView) -> Seq<Seq<char>> {
    match info.nodes {
        Some(nodes) => seq!["nodes"@, decimal(nodes as nat)],
        None => Seq::empty(),
    }
}

/// The words by which an engine reports its speed, where it reports one.
pub open spec fn nps_words(info: InfoView) -> Seq<Seq<char>> {
    match info.nps {
        Some(nps) => seq!["nps"@, decimal(nps as nat)],
        None => Seq::empty(),
    }
}

/// The words by which an engine reports the time spent, where it reports
/// one.
pub open spec fn time_words(info: InfoView) -> Seq<Seq<char>> {
    match info.time {
        Some(time) => seq!["time"@, decimal(time as nat)],
        None => Seq::empty(),
    }
}

/// The words by which an engine reports its principal variation, where it
/// has one.
pub open spec fn pv_words(info: InfoView) -> Seq<Seq<char>> {
    if info.pv.len() > 0 {
        seq!["pv"@] + info.pv
    } else {
        Seq::empty()
    }
}

/// The words of the fields of an `info` line, the principal variation
/// last.
pub open spec fn field_words(info: InfoView) -> Seq<Seq<char>> {
    depth_words(info) + (score_words(info) + (nodes_words(info) + (nps_words(info) + (time_words(
        info,
    ) + pv_words(info)))))
}

/// The line by which an engine reports `info`: `info`, then each field
/// that is given under its keyword, then the principal variation.
pub open spec fn info_line(info: InfoView) -> Seq<char> {
    join_spaced(seq!["info"@] + field_words(info))
}

/// Each word of an `info` line is a token where the moves of the
/// principal variation are.
proof fn lemma_info_words_are_tokens(info: InfoView)
    requires
        all_tokens(info.pv),
    ensures
        all_tokens(seq!["info"@] + field_words(info)),
{
    assert(is_token("info"@) && is_token("depth"@) && is_token("score"@) && is_token("cp"@)) by {
        reveal_strlit("info");
        reveal_strlit("depth");
        reveal_strlit("score");
        reveal_strlit("cp");
    }
    assert(is_token("nodes"@) && is_token("nps"@) && is_token("time"@) && is_token("pv"@)) by {
        reveal_strlit("nodes");
        reveal_strlit("nps");
        reveal_strlit("time");
        reveal_strlit("pv");
    }
    if let Some(depth) = info.depth {
        lemma_decimal_is_token(depth as int);
    }
    if let Some(score) = info.score_cp {
        lemma_decimal_is_token(score as int);
    }
    if let Some(nodes) = info.nodes {
        lemma_decimal_is_token(nodes as int);
    }
    if let Some(nps) = info.nps {
        lemma_decimal_is_token(nps as int);
    }
    if let Some(time) = info.time {
        lemma_decimal_is_token(time as int);
    }
    assert(all_tokens(depth_words(info)));
    assert(all_tokens(score_words(info)));
    assert(all_tokens(nodes_words(info)));
    assert(all_tokens(nps_words(info)));
    assert(all_tokens(time_words(info)));
    assert(all_tokens(pv_words(info))) by {
        let words = pv_words(info);
        assert forall|k: int| 0 <= k < words.len() implies is_token(#[trigger] words[k]) by {
            if k > 0 {
                assert(words[k] == info.pv[k - 1]);
            }
        }
    }
    lemma_all_tokens_concat(time_words(info), pv_words(info));
    lemma_all_tokens_concat(nps_words(info), time_words(info) + pv_words(info));
    lemma_all_tokens_concat(
        nodes_words(info),
        nps_words(info) + (time_words(info) + pv_words(info)),
    );
    lemma_all_tokens_concat(
        score_words(info),
        nodes_words(info) + (nps_words(info) + (time_words(info) + pv_words(info))),
    );
    lemma_all_tokens_concat(depth_words(info), score_words(info) + (nodes_words(info) + (nps_words(
        info,
    ) + (time_words(info) + pv_words(info)))));
    lemma_all_tokens_concat(seq!["info"@], field_words(info));
}

/// A field at the front of the words, or none there: the scan sets the
/// field, if there is one, and goes on behind it.
proof fn lemma_scan_words(words: Seq<Seq<char>>, rest: Seq<Seq<char>>, info: InfoView)
    requires
        words.len() == 0 || is_field(words),
    ensures
        scan_info(words + rest, 0, info) == scan_info(
            rest,
            0,
            if words.len() == 0 {
                info
            } else {
                with_field(info, words)
            },
        ),
{
    if words.len() == 0 {
        assert(words + rest =~= rest);
    } else {
        lemma_scan_field(words, rest, info);
    }
}

/// The words of the fields of a report are scanned to the report.
proof fn lemma_field_words_are_scanned(info: InfoView)
    ensures
        scan_info(field_words(info), 0, no_info()) == info,
{
    lemma_keywords_differ();
    let r4 = pv_words(info);
    let r3 = time_words(info) + r4;
    let r2 = nps_words(info) + r3;
    let r1 = nodes_words(info) + r2;
    let r0 = score_words(info) + r1;
    let a0 = no_info();
    lemma_scan_words(depth_words(info), r0, a0);
    let a1 = InfoView { depth: info.depth, ..a0 };
    assert(scan_info(field_words(info), 0, a0) == scan_info(r0, 0, a1)) by {
        if let Some(depth) = info.depth {
            lemma_decimal_round_trip(depth as nat);
        }
    }
    lemma_scan_words(score_words(info), r1, a1);
    let a2 = InfoView { score_cp: info.score_cp, ..a1 };
    assert(scan_info(r0, 0, a1) == scan_info(r1, 0, a2)) by {
        if let Some(score) = info.score_cp {
            lemma_signed_decimal_round_trip(score as int);
        }
    }
    lemma_scan_words(nodes_words(info), r2, a2);
    let a3 = InfoView { nodes: info.nodes, ..a2 };
    assert(scan_info(r1, 0, a2) == scan_info(r2, 0, a3)) by {
        if let Some(nodes) = info.nodes {
            lemma_decimal_round_trip(nodes as nat);
        }
    }
    lemma_scan_words(nps_words(info), r3, a3);
    let a4 = InfoView { nps: info.nps, ..a3 };
    assert(scan_info(r2, 0, a3) == scan_info(r3, 0, a4)) by {
        if let Some(nps) = info.nps {
            lemma_decimal_round_trip(nps as nat);
        }
    }
    lemma_scan_words(time_words(info), r4, a4);
    let a5 = InfoView { time: info.time, ..a4 };
    assert(scan_info(r3, 0, a4) == scan_info(r4, 0, a5)) by {
        if let Some(time) = info.time {
            lemma_decimal_round_trip(time as nat);
        }
    }
    assert(scan_info(r4, 0, a5) == info) by {
        if info.pv.len() > 0 {
            let none = Seq::<Seq<char>>::empty();
            assert(none + seq!["pv"@] + info.pv =~= r4);
            lemma_pv_takes_the_rest(none, info.pv, a5);
        } else {
            assert(info.pv =~= Seq::<Seq<char>>::empty());
        }
    }
}

/// An `info` line is read as what it was written from: the line that
/// reports any of depth, evaluation, node count, speed and time, and a
/// principal variation or none, is classified as the report of just
/// those.
///
/// This is so where the moves of the principal variation are tokens.
pub proof fn lemma_info_line_is_read_back(info: InfoView)
    requires
        all_tokens(info.pv),
    ensures
        classify(info_line(info)) == ResponseView::Info(info),
{
    let words = seq!["info"@] + field_words(info);
    let line = info_line(info);
    lemma_info_words_are_tokens(info);
    lemma_tokens_of_joined(words);
    lemma_joined_ends(words);
    assert(words[0] == "info"@);
    assert(is_token(words.last()));
    assert(line[0] == 'i') by {
        reveal_strlit("info");
    }
    assert(!is_space(line[0]));
    assert(trim(line) == line);
    assert(line != "usiok"@) by {
        reveal_strlit("usiok");
    }
    assert(line != "readyok"@) by {
        reveal_strlit("readyok");
    }
    assert(!"bestmove"@.is_prefix_of(line)) by {
        reveal_strlit("bestmove");
        if "bestmove"@.is_prefix_of(line) {
            assert(line.subrange(0, 8)[0] == 'b');
        }
    }
    lemma_scan_is_local(seq!["info"@], field_words(info), 0, no_info());
    lemma_field_words_are_scanned(info);
}

} // verus!
