//! The lines that an engine answers with, and their classification.
//!
//! Every line is classified; none is an error. A line that fits no known
//! form comes back as [`UsiResponse::Unknown`], and an `info` line gives
//! whatever fields could be read from it.

use vstd::prelude::*;
use vstd::string::*;
use crate::decimal::{parse_i32, parse_u32, parse_u64, read_i32, read_u32, read_u64};
use crate::text::{
    chars_of, lemma_trim_is_tight, span_has_prefix, span_is, span_string, token_spans, tokens,
    trim, trim_span, Span,
};

verus! {

/// What an engine reports about a search in progress. A field is `None`
/// where the line did not give it.
#[derive(Debug, Clone, PartialEq, Eq)]
pub struct ThinkingInfo {
    /// The search depth reached.
    pub depth: Option<u32>,
    /// The evaluation in centipawns.
    pub score_cp: Option<i32>,
    /// The number of nodes searched.
    pub nodes: Option<u64>,
    /// The nodes searched per second.
    pub nps: Option<u64>,
    /// The time spent, in milliseconds.
    pub time: Option<u32>,
    /// The principal variation: the line of play the engine expects.
    pub pv: Vec<String>,
}

/// A [`ThinkingInfo`] as a mathematical value.
pub struct InfoView {
    pub depth: Option<u32>,
    pub score_cp: Option<i32>,
    pub nodes: Option<u64>,
    pub nps: Option<u64>,
    pub time: Option<u32>,
    pub pv: Seq<Seq<char>>,
}

/// The report in which nothing is given.
pub open spec fn no_info() -> InfoView {
    InfoView {
        depth: None,
        score_cp: None,
        nodes: None,
        nps: None,
        time: None,
        pv: Seq::empty(),
    }
}

impl View for ThinkingInfo {
    type V = InfoView;

    open spec fn view(&self) -> InfoView {
        InfoView {
            depth: self.depth,
            score_cp: self.score_cp,
            nodes: self.nodes,
            nps: self.nps,
            time: self.time,
            pv: self.pv.deep_view(),
        }
    }
}

impl ThinkingInfo {
    /// The report in which nothing is given.
    pub fn new() -> (info: Self)
        ensures
            info@ == no_info(),
    {
        let info = ThinkingInfo {
            depth: None,
            score_cp: None,
            nodes: None,
            nps: None,
            time: None,
            pv: Vec::new(),
        };
        assert(info.pv.deep_view() =~= Seq::<Seq<char>>::empty());
        info
    }
}

impl Default for ThinkingInfo {
    fn default() -> (info: Self)
        ensures
            info@ == no_info(),
    {
        ThinkingInfo::new()
    }
}

/// One line of an engine's output, classified.
#[derive(Debug, Clone, PartialEq, Eq)]
pub enum UsiResponse {
    /// `usiok`: the engine acknowledges the handshake.
    UsiOk,
    /// `readyok`: the engine is ready.
    ReadyOk,
    /// `bestmove`: the search has ended with this move, and perhaps a move
    /// to ponder on.
    BestMove { best_move: String, ponder: Option<String> },
    /// `info`: a report on the search in progress.
    Info(ThinkingInfo),
    /// Any other line, without the white space around it.
    Unknown(String),
}

/// A [`UsiResponse`] as a mathematical value.
pub enum ResponseView {
    UsiOk,
    ReadyOk,
    BestMove { best_move: Seq<char>, ponder: Option<Seq<char>> },
    Info(InfoView),
    Unknown(Seq<char>),
}

impl View for UsiResponse {
    type V = ResponseView;

    open spec fn view(&self) -> ResponseView {
        match self {
            UsiResponse::UsiOk => ResponseView::UsiOk,
            UsiResponse::ReadyOk => ResponseView::ReadyOk,
            UsiResponse::BestMove { best_move, ponder } => ResponseView::BestMove {
                best_move: best_move@,
                ponder: match ponder {
                    Some(p) => Some(p@),
                    None => None,
                },
            },
            UsiResponse::Info(info) => ResponseView::Info(info@),
            UsiResponse::Unknown(line) => ResponseView::Unknown(line@),
        }
    }
}

/// What a line that begins with `bestmove` says. Its second token is the
/// move; a fourth token is the move to ponder on where the third is
/// `ponder`. With fewer than two tokens the line is not understood.
pub open spec fn bestmove_response(line: Seq<char>) -> ResponseView {
    let parts = tokens(line);
    if parts.len() < 2 {
        ResponseView::Unknown(line)
    } else {
        ResponseView::BestMove {
            best_move: parts[1],
            ponder: if parts.len() >= 4 && parts[2] == "ponder"@ {
                Some(parts[3])
            } else {
                None
            },
        }
    }
}

/// What the tokens of an `info` line from index `i` on add to `info`.
///
/// `depth`, `nodes`, `nps` and `time` each take the token after them as
/// their number, and `score` takes the token after a `cp`. A number that
/// cannot be read leaves the field `None`. `pv` takes all the tokens after
/// it. A token that is none of these, or a keyword without the tokens it
/// needs, is passed over.
pub open spec fn scan_info(parts: Seq<Seq<char>>, i: int, info: InfoView) -> InfoView
    decreases parts.len() - i,
{
    if i < 0 || i >= parts.len() {
        info
    } else if parts[i] == "depth"@ && i + 1 < parts.len() {
        scan_info(parts, i + 2, InfoView { depth: parse_u32(parts[i + 1]), ..info })
    } else if parts[i] == "score"@ && i + 2 < parts.len() && parts[i + 1] == "cp"@ {
        scan_info(parts, i + 3, InfoView { score_cp: parse_i32(parts[i + 2]), ..info })
    } else if parts[i] == "nodes"@ && i + 1 < parts.len() {
        scan_info(parts, i + 2, InfoView { nodes: parse_u64(parts[i + 1]), ..info })
    } else if parts[i] == "nps"@ && i + 1 < parts.len() {
        scan_info(parts, i + 2, InfoView { nps: parse_u64(parts[i + 1]), ..info })
    } else if parts[i] == "time"@ && i + 1 < parts.len() {
        scan_info(parts, i + 2, InfoView { time: parse_u32(parts[i + 1]), ..info })
    } else if parts[i] == "pv"@ {
        InfoView { pv: parts.skip(i + 1), ..info }
    } else {
        scan_info(parts, i + 1, info)
    }
}

/// What a line that begins with `info` says: the fields found in its
/// tokens after the first.
pub open spec fn info_response(line: Seq<char>) -> ResponseView {
    ResponseView::Info(scan_info(tokens(line), 1, no_info()))
}

/// What a line of engine output says.
///
/// The white space around the line does not count. An empty line is not
/// understood. `usiok` and `readyok` are the two acknowledgements. A line
/// that begins with `bestmove` or with `info` is read as such. Any other
/// line is not understood and is kept as it is.
pub open spec fn classify(line: Seq<char>) -> ResponseView {
    let trimmed = trim(line);
    if trimmed.len() == 0 {
        ResponseView::Unknown(Seq::empty())
    } else if trimmed == "usiok"@ {
        ResponseView::UsiOk
    } else if trimmed == "readyok"@ {
        ResponseView::ReadyOk
    } else if "bestmove"@.is_prefix_of(trimmed) {
        bestmove_response(trimmed)
    } else if "info"@.is_prefix_of(trimmed) {
        info_response(trimmed)
    } else {
        ResponseView::Unknown(trimmed)
    }
}

/// The white space around a line makes no difference to what the line
/// says.
pub proof fn lemma_classify_of_trimmed(line: Seq<char>)
    ensures
        classify(trim(line)) == classify(line),
{
    lemma_trim_is_tight(line);
}

/// Classifies one line of engine output.
pub fn parse_usi_line(line: &str) -> (response: UsiResponse)
    ensures
        response@ == classify(line@),
{
    let chars = chars_of(line);
    let span = trim_span(chars.as_slice());
    if span.start == span.end {
        return UsiResponse::Unknown(String::new());
    }
    let trimmed = line.substring_char(span.start, span.end);
    if span_is(chars.as_slice(), span, "usiok") {
        return UsiResponse::UsiOk;
    }
    if span_is(chars.as_slice(), span, "readyok") {
        return UsiResponse::ReadyOk;
    }
    if span_has_prefix(chars.as_slice(), span, "bestmove") {
        return parse_bestmove(trimmed);
    }
    if span_has_prefix(chars.as_slice(), span, "info") {
        return parse_info(trimmed);
    }
    UsiResponse::Unknown(trimmed.to_owned())
}

/// Reads a line that begins with `bestmove`.
pub fn parse_bestmove(line: &str) -> (response: UsiResponse)
    ensures
        response@ == bestmove_response(line@),
{
    let chars = chars_of(line);
    let spans = token_spans(chars.as_slice());
    if spans.len() < 2 {
        return UsiResponse::Unknown(line.to_owned());
    }
    let best_move = span_string(line, spans[1]);
    let ponder = if spans.len() >= 4 && span_is(chars.as_slice(), spans[2], "ponder") {
        Some(span_string(line, spans[3]))
    } else {
        None
    };
    UsiResponse::BestMove { best_move, ponder }
}

/// Reads a line that begins with `info`.
pub fn parse_info(line: &str) -> (response: UsiResponse)
    ensures
        response@ == info_response(line@),
{
    let chars = chars_of(line);
    let spans = token_spans(chars.as_slice());
    let n: usize = spans.len();
    let ghost parts = tokens(line@);
    let mut info = ThinkingInfo::new();
    let mut i: usize = 1;
    let mut done: bool = false;
    while i < n && !done
        invariant
            chars@ == line@,
            parts == tokens(line@),
            n == spans@.len() == parts.len(),
            forall|k: int|
                0 <= k < spans@.len() ==> (#[trigger] spans@[k]).within(chars@.len())
                    && spans@[k].text(chars@) == parts[k],
            1 <= i,
            done ==> info@ == scan_info(parts, 1, no_info()),
            !done ==> scan_info(parts, i as int, info@) == scan_info(parts, 1, no_info()),
        decreases n - i + (if done { 0int } else { 1int }),
    {
        let word = spans[i];
        if span_is(chars.as_slice(), word, "depth") && i + 1 < n {
            info.depth = read_u32(chars.as_slice(), spans[i + 1]);
            i += 2;
        } else if span_is(chars.as_slice(), word, "score") && n - i > 2 && span_is(
            chars.as_slice(),
            spans[i + 1],
            "cp",
        ) {
            info.score_cp = read_i32(chars.as_slice(), spans[i + 2]);
            i += 3;
        } else if span_is(chars.as_slice(), word, "nodes") && i + 1 < n {
            info.nodes = read_u64(chars.as_slice(), spans[i + 1]);
            i += 2;
        } else if span_is(chars.as_slice(), word, "nps") && i + 1 < n {
            info.nps = read_u64(chars.as_slice(), spans[i + 1]);
            i += 2;
        } else if span_is(chars.as_slice(), word, "time") && i + 1 < n {
            info.time = read_u32(chars.as_slice(), spans[i + 1]);
            i += 2;
        } else if span_is(chars.as_slice(), word, "pv") {
            info.pv = span_strings(line, &spans, i + 1);
            done = true;
            assert(info.pv.deep_view() =~= parts.skip(i + 1));
        } else {
            i += 1;
        }
    }
    UsiResponse::Info(info)
}

/// The parts of `line` that the spans from index `from` on name, each as a
/// string of its own.
fn span_strings(line: &str, spans: &Vec<Span>, from: usize) -> (texts: Vec<String>)
    requires
        from <= spans@.len(),
        forall|k: int| 0 <= k < spans@.len() ==> (#[trigger] spans@[k]).within(line@.len()),
    ensures
        texts.deep_view() == Seq::new(
            (spans@.len() - from) as nat,
            |k: int| spans@[from + k].text(line@),
        ),
{
    let mut texts: Vec<String> = Vec::new();
    let mut k: usize = from;
    while k < spans.len()
        invariant
            from <= k <= spans@.len(),
            forall|j: int| 0 <= j < spans@.len() ==> (#[trigger] spans@[j]).within(line@.len()),
            texts@.len() == k - from,
            forall|j: int|
                0 <= j < k - from ==> (#[trigger] texts@[j])@ == spans@[from + j].text(line@),
        decreases spans@.len() - k,
    {
        texts.push(span_string(line, spans[k]));
        k += 1;
    }
    assert(texts.deep_view() =~= Seq::new(
        (spans@.len() - from) as nat,
        |k: int| spans@[from + k].text(line@),
    ));
    texts
}

/// Whether `group` is a field of an `info` line: one of the keywords
/// `depth`, `nodes`, `nps` and `time` with the token it takes, or `score`
/// and `cp` with the token they take.
pub open spec fn is_field(group: Seq<Seq<char>>) -> bool {
    ||| group.len() == 2 && (group[0] == "depth"@ || group[0] == "nodes"@ || group[0] == "nps"@
        || group[0] == "time"@)
    ||| group.len() == 3 && group[0] == "score"@ && group[1] == "cp"@
}

/// `info` with the field that `group` gives.
pub open spec fn with_field(info: InfoView, group: Seq<Seq<char>>) -> InfoView {
    if group[0] == "depth"@ {
        InfoView { depth: parse_u32(group[1]), ..info }
    } else if group[0] == "score"@ {
        InfoView { score_cp: parse_i32(group[2]), ..info }
    } else if group[0] == "nodes"@ {
        InfoView { nodes: parse_u64(group[1]), ..info }
    } else if group[0] == "nps"@ {
        InfoView { nps: parse_u64(group[1]), ..info }
    } else {
        InfoView { time: parse_u32(group[1]), ..info }
    }
}

/// No two of the keywords of an `info` line are the same.
pub proof fn lemma_keywords_differ()
    ensures
        "depth"@ != "score"@,
        "depth"@ != "nodes"@,
        "depth"@ != "nps"@,
        "depth"@ != "time"@,
        "depth"@ != "pv"@,
        "score"@ != "nodes"@,
        "score"@ != "nps"@,
        "score"@ != "time"@,
        "score"@ != "pv"@,
        "nodes"@ != "nps"@,
        "nodes"@ != "time"@,
        "nodes"@ != "pv"@,
        "nps"@ != "time"@,
        "nps"@ != "pv"@,
        "time"@ != "pv"@,
{
    reveal_strlit("depth");
    reveal_strlit("score");
    reveal_strlit("nodes");
    reveal_strlit("nps");
    reveal_strlit("time");
    reveal_strlit("pv");
    assert("depth"@[0] != "score"@[0]);
    assert("depth"@[0] != "nodes"@[0]);
    assert("score"@[0] != "nodes"@[0]);
    assert("depth"@.len() == 5 && "score"@.len() == 5 && "nodes"@.len() == 5);
    assert("nps"@.len() == 3 && "time"@.len() == 4 && "pv"@.len() == 2);
}

/// What the tokens from some index on add does not depend on the tokens
/// before that index.
pub proof fn lemma_scan_is_local(
    before: Seq<Seq<char>>,
    rest: Seq<Seq<char>>,
    i: int,
    info: InfoView,
)
    requires
        0 <= i,
    ensures
        scan_info(before + rest, before.len() + i, info) == scan_info(rest, i, info),
    decreases rest.len() - i,
{
    let all = before + rest;
    let j = before.len() + i;
    if i < rest.len() {
        assert(all[j] == rest[i]);
        if i + 1 < rest.len() {
            assert(all[j + 1] == rest[i + 1]);
        }
        if i + 2 < rest.len() {
            assert(all[j + 2] == rest[i + 2]);
        }
        assert(all.skip(j + 1) =~= rest.skip(i + 1));
        if rest[i] == "depth"@ && i + 1 < rest.len() {
            lemma_scan_is_local(
                before,
                rest,
                i + 2,
                InfoView { depth: parse_u32(rest[i + 1]), ..info },
            );
        } else if rest[i] == "score"@ && i + 2 < rest.len() && rest[i + 1] == "cp"@ {
            lemma_scan_is_local(
                before,
                rest,
                i + 3,
                InfoView { score_cp: parse_i32(rest[i + 2]), ..info },
            );
        } else if rest[i] == "nodes"@ && i + 1 < rest.len() {
            lemma_scan_is_local(
                before,
                rest,
                i + 2,
                InfoView { nodes: parse_u64(rest[i + 1]), ..info },
            );
        } else if rest[i] == "nps"@ && i + 1 < rest.len() {
            lemma_scan_is_local(
                before,
                rest,
                i + 2,
                InfoView { nps: parse_u64(rest[i + 1]), ..info },
            );
        } else if rest[i] == "time"@ && i + 1 < rest.len() {
            lemma_scan_is_local(
                before,
                rest,
                i + 2,
                InfoView { time: parse_u32(rest[i + 1]), ..info },
            );
        } else if rest[i] == "pv"@ {
        } else {
            lemma_scan_is_local(before, rest, i + 1, info);
        }
    }
}

/// A field at the front of the tokens sets its field, and the scan goes
/// on behind it.
pub proof fn lemma_scan_field(group: Seq<Seq<char>>, rest: Seq<Seq<char>>, info: InfoView)
    requires
        is_field(group),
    ensures
        scan_info(group + rest, 0, info) == scan_info(rest, 0, with_field(info, group)),
{
    lemma_keywords_differ();
    let all = group + rest;
    assert(all[0] == group[0]);
    assert(all[1] == group[1]);
    if group.len() == 3 {
        assert(all[2] == group[2]);
    }
    lemma_scan_is_local(group, rest, 0, with_field(info, group));
}

/// The fields of an `info` line can come in any order: two fields with
/// different keywords that stand next to each other can change places, and
/// the line says the same.
pub proof fn lemma_fields_commute(
    before: Seq<Seq<char>>,
    first: Seq<Seq<char>>,
    second: Seq<Seq<char>>,
    after: Seq<Seq<char>>,
    info: InfoView,
)
    requires
        is_field(first),
        is_field(second),
        first[0] != second[0],
    ensures
        scan_info(before + first + second + after, before.len() as int, info) == scan_info(
            before + second + first + after,
            before.len() as int,
            info,
        ),
{
    lemma_keywords_differ();
    assert(before + first + second + after =~= before + (first + (second + after)));
    assert(before + second + first + after =~= before + (second + (first + after)));
    lemma_scan_is_local(before, first + (second + after), 0, info);
    lemma_scan_is_local(before, second + (first + after), 0, info);
    lemma_scan_field(first, second + after, info);
    lemma_scan_field(second, after, with_field(info, first));
    lemma_scan_field(second, first + after, info);
    lemma_scan_field(first, after, with_field(info, second));
    assert(with_field(with_field(info, first), second) == with_field(
        with_field(info, second),
        first,
    ));
}

/// `pv` takes all the tokens behind it as the principal variation and
/// ends the scan: whatever those tokens are, no other field is changed.
pub proof fn lemma_pv_takes_the_rest(
    before: Seq<Seq<char>>,
    rest: Seq<Seq<char>>,
    info: InfoView,
)
    ensures
        scan_info(before + seq!["pv"@] + rest, before.len() as int, info) == (InfoView {
            pv: rest,
            ..info
        }),
{
    lemma_keywords_differ();
    let all = before + seq!["pv"@] + rest;
    assert(all[before.len() as int] == "pv"@);
    assert(all.skip(before.len() as int + 1) =~= rest);
}

} // verus!
