//! White space, trimming and tokens of a line of text, and the joining of
//! tokens into a line.
//!
//! A line is modelled as its sequence of characters.

use vstd::prelude::*;
use vstd::string::*;

verus! {

/// Whether `c` is white space: one of the code points that carry the Unicode
/// property `White_Space`.
pub open spec fn is_space(c: char) -> bool {
    let n = c as u32;
    ||| 0x09 <= n <= 0x0D
    ||| n == 0x20
    ||| n == 0x85
    ||| n == 0xA0
    ||| n == 0x1680
    ||| 0x2000 <= n <= 0x200A
    ||| n == 0x2028
    ||| n == 0x2029
    ||| n == 0x202F
    ||| n == 0x205F
    ||| n == 0x3000
}

/// `s` without its leading white space.
pub open spec fn trim_start(s: Seq<char>) -> Seq<char>
    decreases s.len(),
{
    if s.len() > 0 && is_space(s[0]) {
        trim_start(s.skip(1))
    } else {
        s
    }
}

/// `s` without its trailing white space.
pub open spec fn trim_end(s: Seq<char>) -> Seq<char>
    decreases s.len(),
{
    if s.len() > 0 && is_space(s.last()) {
        trim_end(s.drop_last())
    } else {
        s
    }
}

/// `s` without the white space at either end.
pub open spec fn trim(s: Seq<char>) -> Seq<char> {
    trim_end(trim_start(s))
}

/// What is left of a line when its white space at the ends is taken away
/// begins and ends with something other than white space, unless nothing
/// is left; so to trim it again changes nothing.
pub proof fn lemma_trim_is_tight(s: Seq<char>)
    ensures
        trim(s).len() > 0 ==> !is_space(trim(s)[0]) && !is_space(trim(s).last()),
        trim(trim(s)) == trim(s),
{
    let front = trim_start(s);
    lemma_trim_start_is_tight(s);
    lemma_trim_end_is_tight(front);
    let t = trim(s);
    if t.len() > 0 {
        assert(t[0] == front[0]);
    }
}

/// What is left of a line when its leading white space is taken away
/// begins with something other than white space, unless nothing is left.
pub proof fn lemma_trim_start_is_tight(s: Seq<char>)
    ensures
        trim_start(s).len() > 0 ==> !is_space(trim_start(s)[0]),
    decreases s.len(),
{
    if s.len() > 0 && is_space(s[0]) {
        lemma_trim_start_is_tight(s.skip(1));
    }
}

/// What is left of a line when its trailing white space is taken away is
/// a beginning of the line, and ends with something other than white
/// space, unless nothing is left.
pub proof fn lemma_trim_end_is_tight(s: Seq<char>)
    ensures
        trim_end(s).len() <= s.len(),
        trim_end(s) == s.take(trim_end(s).len() as int),
        trim_end(s).len() > 0 ==> !is_space(trim_end(s).last()),
    decreases s.len(),
{
    if s.len() > 0 && is_space(s.last()) {
        lemma_trim_end_is_tight(s.drop_last());
        let n = trim_end(s).len() as int;
        assert(s.drop_last().take(n) =~= s.take(n));
    } else {
        assert(s.take(s.len() as int) =~= s);
    }
}

/// The number of characters at the front of `s` that come before the first
/// white space.
pub open spec fn word_len(s: Seq<char>) -> nat
    decreases s.len(),
{
    if s.len() == 0 || is_space(s[0]) {
        0
    } else {
        1 + word_len(s.skip(1))
    }
}

/// The word at the front of `s` lies within `s`, and is not empty when `s`
/// begins with something other than white space.
pub proof fn lemma_word_len_bounds(s: Seq<char>)
    ensures
        word_len(s) <= s.len(),
        s.len() > 0 && !is_space(s[0]) ==> word_len(s) >= 1,
    decreases s.len(),
{
    if s.len() > 0 && !is_space(s[0]) {
        lemma_word_len_bounds(s.skip(1));
    }
}

/// The tokens of `s`: its maximal runs of characters that are not white
/// space, in order.
pub open spec fn tokens(s: Seq<char>) -> Seq<Seq<char>>
    decreases s.len(),
{
    if s.len() == 0 {
        Seq::empty()
    } else if is_space(s[0]) {
        tokens(s.skip(1))
    } else {
        proof {
            lemma_word_len_bounds(s);
        }
        seq![s.take(word_len(s) as int)] + tokens(s.skip(word_len(s) as int))
    }
}

/// Whether `t` could be a token: it is not empty and holds no white space.
pub open spec fn is_token(t: Seq<char>) -> bool {
    &&& t.len() > 0
    &&& forall|i: int| 0 <= i < t.len() ==> !is_space(#[trigger] t[i])
}

/// The word at the front of `s` holds no white space.
pub proof fn lemma_word_has_no_space(s: Seq<char>, i: int)
    requires
        0 <= i < word_len(s),
    ensures
        i < s.len(),
        !is_space(s[i]),
    decreases s.len(),
{
    lemma_word_len_bounds(s);
    if i > 0 {
        lemma_word_has_no_space(s.skip(1), i - 1);
    }
}

/// A run of characters without white space is one word from end to end.
pub proof fn lemma_word_len_of_token(t: Seq<char>)
    requires
        forall|i: int| 0 <= i < t.len() ==> !is_space(#[trigger] t[i]),
    ensures
        word_len(t) == t.len(),
    decreases t.len(),
{
    if t.len() > 0 {
        lemma_word_len_of_token(t.skip(1));
    }
}

/// The word at the front of `a + b`: it is the word at the front of `a`
/// where that ends within `a`, and runs on into `b` where it does not.
pub proof fn lemma_word_len_concat(a: Seq<char>, b: Seq<char>)
    ensures
        word_len(a) < a.len() ==> word_len(a + b) == word_len(a),
        word_len(a) >= a.len() ==> word_len(a + b) == a.len() + word_len(b),
    decreases a.len(),
{
    lemma_word_len_bounds(a);
    if a.len() == 0 {
        assert(a + b =~= b);
    } else if !is_space(a[0]) {
        assert((a + b).skip(1) =~= a.skip(1) + b);
        lemma_word_len_concat(a.skip(1), b);
    }
}

/// Each token is not empty and holds no white space.
pub proof fn lemma_tokens_are_tokens(s: Seq<char>)
    ensures
        forall|k: int| 0 <= k < tokens(s).len() ==> is_token(#[trigger] tokens(s)[k]),
    decreases s.len(),
{
    if s.len() == 0 {
        assert(tokens(s).len() == 0);
    } else if is_space(s[0]) {
        lemma_tokens_are_tokens(s.skip(1));
        assert(tokens(s) == tokens(s.skip(1)));
    } else {
        lemma_word_len_bounds(s);
        let n = word_len(s) as int;
        let word = s.take(n);
        assert forall|i: int| 0 <= i < word.len() implies !is_space(#[trigger] word[i]) by {
            lemma_word_has_no_space(s, i);
        }
        lemma_tokens_are_tokens(s.skip(n));
        let rest = tokens(s.skip(n));
        assert(is_token(word));
        assert(tokens(s) == seq![word] + rest);
        assert forall|k: int| 0 <= k < tokens(s).len() implies is_token(
            #[trigger] tokens(s)[k],
        ) by {
            if k > 0 {
                assert(tokens(s)[k] == rest[k - 1]);
            } else {
                assert(tokens(s)[k] == word);
            }
        }
    }
}

/// A run of characters without white space is its own single token.
pub proof fn lemma_tokens_of_token(t: Seq<char>)
    requires
        is_token(t),
    ensures
        tokens(t) == seq![t],
{
    lemma_word_len_of_token(t);
    assert(t.take(t.len() as int) =~= t);
    assert(tokens(t.skip(t.len() as int)) =~= Seq::<Seq<char>>::empty());
    assert(seq![t] + Seq::<Seq<char>>::empty() =~= seq![t]);
}

/// Where white space stands at the seam of `a` and `b`, or one of them is
/// empty, the tokens of `a + b` are those of `a` followed by those of `b`.
pub proof fn lemma_tokens_concat(a: Seq<char>, b: Seq<char>)
    requires
        a.len() == 0 || b.len() == 0 || is_space(a.last()) || is_space(b[0]),
    ensures
        tokens(a + b) == tokens(a) + tokens(b),
    decreases a.len(),
{
    if a.len() == 0 {
        assert(a + b =~= b);
        assert(tokens(a) + tokens(b) =~= tokens(b));
    } else if b.len() == 0 {
        assert(a + b =~= a);
        assert(tokens(a) + tokens(b) =~= tokens(a));
    } else if is_space(a[0]) {
        assert((a + b).skip(1) =~= a.skip(1) + b);
        lemma_tokens_concat(a.skip(1), b);
    } else {
        lemma_word_len_bounds(a);
        lemma_word_len_concat(a, b);
        let n = word_len(a) as int;
        if n < a.len() {
        } else {
            assert(!is_space(a.last())) by {
                lemma_word_has_no_space(a, a.len() - 1);
            }
            assert(word_len(b) == 0);
        }
        assert(word_len(a + b) == n);
        assert((a + b).take(n) =~= a.take(n));
        assert((a + b).skip(n) =~= a.skip(n) + b);
        lemma_tokens_concat(a.skip(n), b);
        assert(seq![a.take(n)] + (tokens(a.skip(n)) + tokens(b)) =~= (seq![a.take(n)] + tokens(
            a.skip(n),
        )) + tokens(b));
    }
}

/// A token followed by white space and more: its tokens are the token and
/// those of what follows.
pub proof fn lemma_tokens_after_token(t: Seq<char>, rest: Seq<char>)
    requires
        is_token(t),
        rest.len() == 0 || is_space(rest[0]),
    ensures
        tokens(t + rest) == seq![t] + tokens(rest),
{
    lemma_tokens_concat(t, rest);
    lemma_tokens_of_token(t);
}

/// White space at the ends of a line makes no difference to its tokens.
pub proof fn lemma_tokens_of_trimmed(s: Seq<char>)
    ensures
        tokens(trim(s)) == tokens(s),
{
    lemma_tokens_of_trim_start(s);
    lemma_tokens_of_trim_end(trim_start(s));
}

/// White space at the front of a line makes no difference to its tokens.
pub proof fn lemma_tokens_of_trim_start(s: Seq<char>)
    ensures
        tokens(trim_start(s)) == tokens(s),
    decreases s.len(),
{
    if s.len() > 0 && is_space(s[0]) {
        lemma_tokens_of_trim_start(s.skip(1));
    }
}

/// White space at the end of a line makes no difference to its tokens.
pub proof fn lemma_tokens_of_trim_end(s: Seq<char>)
    ensures
        tokens(trim_end(s)) == tokens(s),
    decreases s.len(),
{
    if s.len() > 0 && is_space(s.last()) {
        let last = seq![s.last()];
        assert(s =~= s.drop_last() + last);
        lemma_tokens_concat(s.drop_last(), last);
        assert(tokens(last) =~= Seq::<Seq<char>>::empty()) by {
            assert(last.skip(1).len() == 0);
            assert(tokens(last.skip(1)) =~= Seq::<Seq<char>>::empty());
        }
        assert(tokens(s.drop_last()) + Seq::<Seq<char>>::empty() =~= tokens(s.drop_last()));
        lemma_tokens_of_trim_end(s.drop_last());
    }
}

/// `words` with one space between each two neighbours.
pub open spec fn join_spaced(words: Seq<Seq<char>>) -> Seq<char>
    decreases words.len(),
{
    if words.len() == 0 {
        Seq::empty()
    } else if words.len() == 1 {
        words[0]
    } else {
        join_spaced(words.drop_last()) + seq![' '] + words.last()
    }
}

/// Whether each of `words` is a token.
pub open spec fn all_tokens(words: Seq<Seq<char>>) -> bool {
    forall|k: int| 0 <= k < words.len() ==> is_token(#[trigger] words[k])
}

/// Tokens followed by tokens are tokens.
pub proof fn lemma_all_tokens_concat(first: Seq<Seq<char>>, second: Seq<Seq<char>>)
    requires
        all_tokens(first),
        all_tokens(second),
    ensures
        all_tokens(first + second),
{
    let all = first + second;
    assert forall|k: int| 0 <= k < all.len() implies is_token(#[trigger] all[k]) by {
        if k < first.len() {
            assert(all[k] == first[k]);
        } else {
            assert(all[k] == second[k - first.len()]);
        }
    }
}

/// Tokens joined by spaces come apart again as they were.
pub proof fn lemma_tokens_of_joined(words: Seq<Seq<char>>)
    requires
        all_tokens(words),
    ensures
        tokens(join_spaced(words)) == words,
    decreases words.len(),
{
    if words.len() == 0 {
        assert(tokens(join_spaced(words)) =~= words);
    } else if words.len() == 1 {
        lemma_tokens_of_token(words[0]);
        assert(seq![words[0]] =~= words);
    } else {
        let front = words.drop_last();
        let last = words.last();
        assert(all_tokens(front)) by {
            assert forall|k: int| 0 <= k < front.len() implies is_token(#[trigger] front[k]) by {
                assert(front[k] == words[k]);
            }
        }
        lemma_tokens_of_joined(front);
        let tail = seq![' '] + last;
        assert(join_spaced(words) =~= join_spaced(front) + tail);
        lemma_tokens_concat(join_spaced(front), tail);
        assert(tokens(tail) == seq![last]) by {
            assert(tail.skip(1) =~= last);
            lemma_tokens_of_token(last);
        }
        assert(front + seq![last] =~= words);
    }
}

/// Words that are joined by spaces begin with the first word and end as
/// the last word ends.
pub proof fn lemma_joined_ends(words: Seq<Seq<char>>)
    requires
        words.len() > 0,
        all_tokens(words),
    ensures
        words[0].is_prefix_of(join_spaced(words)),
        join_spaced(words).len() > 0,
        join_spaced(words)[0] == words[0][0],
        join_spaced(words).last() == words.last().last(),
    decreases words.len(),
{
    let joined = join_spaced(words);
    assert(is_token(words[0]));
    assert(is_token(words.last()));
    if words.len() == 1 {
        assert(words[0] =~= joined.subrange(0, words[0].len() as int));
    } else {
        let front = words.drop_last();
        assert(all_tokens(front)) by {
            assert forall|k: int| 0 <= k < front.len() implies is_token(#[trigger] front[k]) by {
                assert(front[k] == words[k]);
            }
        }
        lemma_joined_ends(front);
        assert(front[0] == words[0]);
        let before = join_spaced(front);
        assert(joined == before + seq![' '] + words.last());
        assert(before.subrange(0, words[0].len() as int) =~= joined.subrange(
            0,
            words[0].len() as int,
        ));
    }
}

/// A part of a line: the characters from index `start` up to, not
/// including, index `end`.
#[derive(Debug, Clone, Copy)]
pub(crate) struct Span {
    pub(crate) start: usize,
    pub(crate) end: usize,
}

impl Span {
    /// Whether the span lies within a line of `len` characters.
    pub(crate) open spec fn within(self, len: nat) -> bool {
        self.start <= self.end <= len
    }

    /// The characters of `s` that the span names.
    pub(crate) open spec fn text(self, s: Seq<char>) -> Seq<char> {
        s.subrange(self.start as int, self.end as int)
    }
}

/// The texts that `spans` name in `s`, in order.
pub(crate) open spec fn span_texts(s: Seq<char>, spans: Seq<Span>) -> Seq<Seq<char>> {
    Seq::new(spans.len(), |i: int| spans[i].text(s))
}

/// Tells whether `c` is white space.
pub fn is_whitespace(c: char) -> (b: bool)
    ensures
        b == is_space(c),
{
    let n: u32 = c as u32;
    (0x09 <= n && n <= 0x0D) || n == 0x20 || n == 0x85 || n == 0xA0 || n == 0x1680 || (0x2000 <= n
        && n <= 0x200A) || n == 0x2028 || n == 0x2029 || n == 0x202F || n == 0x205F || n == 0x3000
}

/// The characters of `s`, in order.
pub fn chars_of(s: &str) -> (chars: Vec<char>)
    ensures
        chars@ == s@,
{
    let mut chars: Vec<char> = Vec::new();
    for c in it: s.chars()
        invariant
            it.seq() == s@,
            chars@ == it.seq().take(it.index() as int),
    {
        chars.push(c);
    }
    chars
}

/// The span of `chars` that is left when the white space at either end is
/// taken away.
pub(crate) fn trim_span(chars: &[char]) -> (span: Span)
    ensures
        span.within(chars@.len()),
        span.text(chars@) == trim(chars@),
{
    let n: usize = chars.len();
    let mut start: usize = 0;
    assert(chars@.skip(0) =~= chars@);
    while start < n && is_whitespace(chars[start])
        invariant
            start <= n == chars@.len(),
            trim_start(chars@) == trim_start(chars@.skip(start as int)),
        decreases n - start,
    {
        assert(chars@.skip(start as int).skip(1) =~= chars@.skip(start + 1));
        start += 1;
    }
    let ghost rest = chars@.skip(start as int);
    assert(trim_start(chars@) == rest);
    let mut end: usize = n;
    assert(rest.take(n - start) =~= rest);
    while end > start && is_whitespace(chars[end - 1])
        invariant
            start <= end <= n == chars@.len(),
            rest == chars@.skip(start as int),
            trim_end(rest) == trim_end(rest.take(end - start)),
        decreases end,
    {
        assert(rest.take(end - start).drop_last() =~= rest.take(end - start - 1));
        end -= 1;
    }
    proof {
        let kept = rest.take(end - start);
        if end > start {
            assert(kept.last() == chars@[end - 1]);
        } else if start < n {
            assert(!is_space(rest[0]));
        }
        assert(trim_end(kept) == kept);
        assert(kept =~= chars@.subrange(start as int, end as int));
    }
    Span { start, end }
}

/// The spans of the tokens of `chars`, in order.
pub(crate) fn token_spans(chars: &[char]) -> (spans: Vec<Span>)
    ensures
        span_texts(chars@, spans@) == tokens(chars@),
        spans@.len() == tokens(chars@).len(),
        forall|k: int|
            0 <= k < spans@.len() ==> (#[trigger] spans@[k]).within(chars@.len()) && spans@[k].start
                < spans@[k].end && spans@[k].text(chars@) == tokens(chars@)[k],
{
    let n: usize = chars.len();
    let mut spans: Vec<Span> = Vec::new();
    let mut i: usize = 0;
    proof {
        assert(chars@.skip(0) =~= chars@);
        assert(span_texts(chars@, spans@) + tokens(chars@) =~= tokens(chars@));
    }
    while i < n
        invariant
            i <= n == chars@.len(),
            tokens(chars@) == span_texts(chars@, spans@) + tokens(chars@.skip(i as int)),
            forall|k: int|
                0 <= k < spans@.len() ==> (#[trigger] spans@[k]).within(chars@.len())
                    && spans@[k].start < spans@[k].end,
        decreases n - i,
    {
        let ghost here = chars@.skip(i as int);
        if is_whitespace(chars[i]) {
            assert(here.skip(1) =~= chars@.skip(i + 1));
            i += 1;
        } else {
            let mut j: usize = i + 1;
            assert(here.skip(1) =~= chars@.skip(i + 1));
            while j < n && !is_whitespace(chars[j])
                invariant
                    i < j <= n == chars@.len(),
                    here == chars@.skip(i as int),
                    word_len(here) == (j - i) + word_len(chars@.skip(j as int)),
                decreases n - j,
            {
                assert(chars@.skip(j as int).skip(1) =~= chars@.skip(j + 1));
                j += 1;
            }
            proof {
                assert(word_len(here) == j - i);
                assert(here.take(j - i) =~= chars@.subrange(i as int, j as int));
                assert(here.skip(j - i) =~= chars@.skip(j as int));
                let before = span_texts(chars@, spans@);
                let after = span_texts(chars@, spans@.push(Span { start: i, end: j }));
                assert(after =~= before + seq![chars@.subrange(i as int, j as int)]);
                assert(tokens(here) == seq![chars@.subrange(i as int, j as int)] + tokens(
                    chars@.skip(j as int),
                ));
                assert(before + (seq![chars@.subrange(i as int, j as int)] + tokens(
                    chars@.skip(j as int),
                )) =~= after + tokens(chars@.skip(j as int)));
            }
            spans.push(Span { start: i, end: j });
            i = j;
        }
    }
    proof {
        assert(tokens(chars@.skip(n as int)) =~= Seq::<Seq<char>>::empty());
        assert(span_texts(chars@, spans@) + Seq::<Seq<char>>::empty() =~= span_texts(
            chars@,
            spans@,
        ));
        assert forall|k: int| 0 <= k < spans@.len() implies (#[trigger] spans@[k]).text(chars@)
            == tokens(chars@)[k] by {
            assert(span_texts(chars@, spans@)[k] == spans@[k].text(chars@));
        }
    }
    spans
}

/// Tells whether the part of `chars` that `span` names is exactly `word`.
pub(crate) fn span_is(chars: &[char], span: Span, word: &str) -> (b: bool)
    requires
        span.within(chars@.len()),
    ensures
        b == (span.text(chars@) == word@),
{
    let starts = span_has_prefix(chars, span, word);
    let same_len = span.end - span.start == word.unicode_len();
    proof {
        let text = span.text(chars@);
        assert(text.subrange(0, text.len() as int) =~= text);
    }
    starts && same_len
}

/// Tells whether the part of `chars` that `span` names begins with `word`.
pub(crate) fn span_has_prefix(chars: &[char], span: Span, word: &str) -> (b: bool)
    requires
        span.within(chars@.len()),
    ensures
        b == word@.is_prefix_of(span.text(chars@)),
{
    let ghost text = span.text(chars@);
    let mut i: usize = span.start;
    let mut same: bool = true;
    for c in it: word.chars()
        invariant
            it.seq() == word@,
            span.within(chars@.len()),
            text == span.text(chars@),
            same ==> i == span.start + it.index() && i <= span.end && text.take(
                it.index() as int,
            ) == word@.take(it.index() as int),
            !same ==> !word@.is_prefix_of(text),
    {
        if same {
            if i < span.end && chars[i] == c {
                assert(text.take(it.index() + 1) =~= text.take(it.index() as int).push(
                    chars@[i as int],
                ));
                assert(word@.take(it.index() + 1) =~= word@.take(it.index() as int).push(c));
                i += 1;
            } else {
                same = false;
                assert(!word@.is_prefix_of(text)) by {
                    if word@.is_prefix_of(text) {
                        assert(text.subrange(0, word@.len() as int)[it.index() as int]
                            == word@[it.index() as int]);
                    }
                }
            }
        }
    }
    proof {
        if same {
            assert(word@.take(word@.len() as int) =~= word@);
        }
    }
    same
}

/// The part of `line` that `span` names, as a string of its own.
pub(crate) fn span_string(line: &str, span: Span) -> (text: String)
    requires
        span.within(line@.len()),
    ensures
        text@ == span.text(line@),
{
    line.substring_char(span.start, span.end).to_owned()
}

} // verus!
