//! Lexer: splits markup text into tag heads, tag tails and text runs.
//!
//! A `[` opens a tag run that a `]` closes. Where another `[` comes before the
//! closing `]`, the run so far is plain text and lexing goes on from the new
//! `[`. Nothing is ever rejected and no character is lost.

use vstd::prelude::*;

use crate::scanner::Scanner;
use crate::text::string_of_range;
use crate::token::{
    concat_sources, source_of, tokens_view, TagHead, TagTail, Token, TokenView, CLOSE, EQUAL,
    OPEN, SLASH,
};

verus! {

/// Index of the first `c` in `s` at or after `k`, or the length of `s`.
pub open spec fn first_index_of(s: Seq<char>, c: char, k: int) -> int
    decreases s.len() - k,
{
    if k >= s.len() {
        s.len() as int
    } else if s[k] == c {
        k
    } else {
        first_index_of(s, c, k + 1)
    }
}

/// Index of the first `[` or `]` in `s` at or after `k`, or the length of `s`.
pub open spec fn next_bracket(s: Seq<char>, k: int) -> int
    decreases s.len() - k,
{
    if k >= s.len() {
        s.len() as int
    } else if s[k] == OPEN || s[k] == CLOSE {
        k
    } else {
        next_bracket(s, k + 1)
    }
}

/// The head token for the characters between `[` and `]`: the name runs up
/// to the first `=`, and the attribute is what follows it.
pub open spec fn head_of(inner: Seq<char>) -> TokenView {
    let e = first_index_of(inner, EQUAL, 0);
    if e < inner.len() {
        TokenView::Head {
            name: inner.subrange(0, e),
            attr: Some(inner.subrange(e + 1, inner.len() as int)),
        }
    } else {
        TokenView::Head { name: inner, attr: None }
    }
}

/// The token that starts at index `i` of `s` (with `0 <= i < s.len()`), and
/// the index just after it.
pub open spec fn next_token(s: Seq<char>, i: int) -> (TokenView, int) {
    if s[i] != OPEN {
        let j = first_index_of(s, OPEN, i + 1);
        (TokenView::Text(s.subrange(i, j)), j)
    } else {
        let k = next_bracket(s, i + 1);
        if k >= s.len() {
            (TokenView::Text(s.subrange(i, s.len() as int)), s.len() as int)
        } else if s[k] == OPEN {
            (TokenView::Text(s.subrange(i, k)), k)
        } else if s[i + 1] == SLASH {
            (TokenView::Tail { name: s.subrange(i + 2, k) }, k + 1)
        } else {
            (head_of(s.subrange(i + 1, k)), k + 1)
        }
    }
}

/// The tokens of `s` from index `i` on.
pub open spec fn lex_from(s: Seq<char>, i: int) -> Seq<TokenView>
    decreases s.len() - i,
    via lex_from_decreases
{
    if i < 0 || i >= s.len() {
        Seq::empty()
    } else {
        let (t, j) = next_token(s, i);
        seq![t] + lex_from(s, j)
    }
}

/// The tokens of the whole text `s`.
pub open spec fn lex(s: Seq<char>) -> Seq<TokenView> {
    lex_from(s, 0)
}

pub proof fn lemma_first_index_of(s: Seq<char>, c: char, k: int)
    requires
        0 <= k <= s.len(),
    ensures
        k <= first_index_of(s, c, k) <= s.len(),
        first_index_of(s, c, k) < s.len() ==> s[first_index_of(s, c, k)] == c,
        forall|m: int| k <= m < first_index_of(s, c, k) ==> s[m] != c,
    decreases s.len() - k,
{
    if k < s.len() && s[k] != c {
        lemma_first_index_of(s, c, k + 1);
    }
}

pub proof fn lemma_next_bracket(s: Seq<char>, k: int)
    requires
        0 <= k <= s.len(),
    ensures
        k <= next_bracket(s, k) <= s.len(),
        next_bracket(s, k) < s.len() ==> (s[next_bracket(s, k)] == OPEN || s[next_bracket(
            s,
            k,
        )] == CLOSE),
    decreases s.len() - k,
{
    if k < s.len() && s[k] != OPEN && s[k] != CLOSE {
        lemma_next_bracket(s, k + 1);
    }
}

/// The token at `i` ends after `i` and within the text.
pub proof fn lemma_next_token_advances(s: Seq<char>, i: int)
    requires
        0 <= i < s.len(),
    ensures
        i < next_token(s, i).1 <= s.len(),
{
    lemma_first_index_of(s, OPEN, i + 1);
    lemma_next_bracket(s, i + 1);
}

#[via_fn]
proof fn lex_from_decreases(s: Seq<char>, i: int) {
    if 0 <= i < s.len() {
        lemma_next_token_advances(s, i);
    }
}

/// Each token's source text is the stretch of input that it was read from.
proof fn lemma_next_token_source(s: Seq<char>, i: int)
    requires
        0 <= i < s.len(),
    ensures
        source_of(next_token(s, i).0) == s.subrange(i, next_token(s, i).1),
{
    lemma_next_token_advances(s, i);
    if s[i] == OPEN {
        let k = next_bracket(s, i + 1);
        lemma_next_bracket(s, i + 1);
        if k < s.len() && s[k] == CLOSE {
            if s[i + 1] == SLASH {
                assert(source_of(next_token(s, i).0) =~= s.subrange(i, k + 1));
            } else {
                let inner = s.subrange(i + 1, k);
                let e = first_index_of(inner, EQUAL, 0);
                lemma_first_index_of(inner, EQUAL, 0);
                if e < inner.len() {
                    assert(source_of(head_of(inner)) =~= s.subrange(i, k + 1));
                } else {
                    assert(source_of(head_of(inner)) =~= s.subrange(i, k + 1));
                }
            }
        }
    }
}

proof fn lemma_concat_sources_cons(t: TokenView, rest: Seq<TokenView>)
    ensures
        concat_sources(seq![t] + rest) == source_of(t) + concat_sources(rest),
{
    let ts = seq![t] + rest;
    assert(ts.drop_first() =~= rest);
    assert(ts[0] == t);
}

/// Lexing loses nothing: the source texts of the tokens from `i` on, one
/// after another, are exactly the input from `i` on.
pub proof fn lemma_lex_from_concat(s: Seq<char>, i: int)
    requires
        0 <= i <= s.len(),
    ensures
        concat_sources(lex_from(s, i)) == s.subrange(i, s.len() as int),
    decreases s.len() - i,
{
    if i == s.len() {
        assert(s.subrange(i, s.len() as int) =~= Seq::<char>::empty());
    } else {
        let (t, j) = next_token(s, i);
        lemma_next_token_advances(s, i);
        lemma_next_token_source(s, i);
        lemma_lex_from_concat(s, j);
        lemma_concat_sources_cons(t, lex_from(s, j));
        assert(s.subrange(i, j) + s.subrange(j, s.len() as int) =~= s.subrange(
            i,
            s.len() as int,
        ));
    }
}

/// Lexing is a lossless split of the input: the source texts of all tokens,
/// in order, spell the input exactly.
pub proof fn lemma_lex_round_trip(s: Seq<char>)
    ensures
        concat_sources(lex(s)) == s,
{
    lemma_lex_from_concat(s, 0);
    assert(s.subrange(0, s.len() as int) =~= s);
}

/// No token is empty: each stands for at least one character of the input.
pub proof fn lemma_lex_from_nonempty(s: Seq<char>, i: int)
    requires
        0 <= i <= s.len(),
    ensures
        forall|k: int| 0 <= k < lex_from(s, i).len() ==> #[trigger] source_of(lex_from(s, i)[k]).len()
            > 0,
    decreases s.len() - i,
{
    if i < s.len() {
        let (t, j) = next_token(s, i);
        lemma_next_token_advances(s, i);
        lemma_next_token_source(s, i);
        lemma_lex_from_nonempty(s, j);
        assert forall|k: int| 0 <= k < lex_from(s, i).len() implies #[trigger] source_of(
            lex_from(s, i)[k],
        ).len() > 0 by {
            if k > 0 {
                assert(lex_from(s, i)[k] == lex_from(s, j)[k - 1]);
            }
        }
    }
}

/// A `[` that meets another `[` before any `]` is plain text up to the new
/// `[`, and lexing goes on from there: the later tag is never swallowed.
pub proof fn lemma_unclosed_open_falls_back(s: Seq<char>, i: int)
    requires
        0 <= i < s.len(),
        s[i] == OPEN,
        next_bracket(s, i + 1) < s.len(),
        s[next_bracket(s, i + 1)] == OPEN,
    ensures
        lex_from(s, i) == seq![TokenView::Text(s.subrange(i, next_bracket(s, i + 1)))]
            + lex_from(s, next_bracket(s, i + 1)),
{
}

/// Text without any `[` is a single text token spanning all of it.
pub proof fn lemma_plain_text_single_token(s: Seq<char>)
    requires
        s.len() > 0,
        forall|m: int| 0 <= m < s.len() ==> s[m] != OPEN,
    ensures
        lex(s) == seq![TokenView::Text(s)],
{
    lemma_first_index_of_absent(s, OPEN, 1);
    assert(s.subrange(0, s.len() as int) =~= s);
    assert(lex_from(s, s.len() as int) =~= Seq::<TokenView>::empty());
    assert(seq![TokenView::Text(s)] + Seq::<TokenView>::empty() =~= seq![TokenView::Text(s)]);
}

proof fn lemma_first_index_of_absent(s: Seq<char>, c: char, k: int)
    requires
        0 <= k <= s.len(),
        forall|m: int| k <= m < s.len() ==> s[m] != c,
    ensures
        first_index_of(s, c, k) == s.len(),
    decreases s.len() - k,
{
    if k < s.len() {
        lemma_first_index_of_absent(s, c, k + 1);
    }
}

/// Reads markup text into tokens, one forward pass with at most one step
/// back.
pub struct Lexer {
    /// Cursor over the input.
    source: Scanner,
    /// Where the token under construction starts.
    start: usize,
    /// Tokens read so far.
    tokens: Vec<Token>,
}

impl Lexer {
    /// The input text.
    pub closed spec fn text(&self) -> Seq<char> {
        self.source.text()
    }

    /// Where the next token starts.
    pub closed spec fn cursor(&self) -> int {
        self.start as int
    }

    /// The tokens read so far.
    pub closed spec fn token_seq(&self) -> Seq<TokenView> {
        tokens_view(self.tokens@)
    }

    /// Between tokens: the cursor and the scanner stand at the same place.
    pub closed spec fn wf(&self) -> bool {
        &&& self.source.wf()
        &&& self.start as int == self.source.pos()
    }

    /// A lexer at the start of `data`, with no tokens yet.
    pub fn new(data: &str) -> (r: Lexer)
        ensures
            r.wf(),
            r.text() == data@,
            r.cursor() == 0,
            r.token_seq() == Seq::<TokenView>::empty(),
    {
        let r = Lexer { source: Scanner::new(data), start: 0, tokens: vec![] };
        assert(tokens_view(r.tokens@) =~= Seq::<TokenView>::empty());
        r
    }

    /// Reads the rest of the input: the tokens of the text from the cursor on
    /// are added, in order, to those read before.
    pub fn scan(&mut self)
        requires
            old(self).wf(),
        ensures
            final(self).wf(),
            final(self).text() == old(self).text(),
            final(self).cursor() == old(self).text().len(),
            final(self).token_seq() == old(self).token_seq() + lex_from(
                old(self).text(),
                old(self).cursor(),
            ),
    {
        let ghost s = self.text();
        let ghost toks0 = self.token_seq();
        let ghost start0 = self.cursor();
        loop
            invariant
                self.wf(),
                self.text() == s,
                0 <= start0 <= self.cursor() <= s.len(),
                toks0 + lex_from(s, start0) == self.token_seq() + lex_from(s, self.cursor()),
            ensures
                self.cursor() == s.len(),
            decreases s.len() - self.cursor(),
        {
            let ghost before = self.token_seq();
            let ghost at = self.cursor();
            let ch = match self.source.next() {
                Some(ch) => ch,
                None => break,
            };
            let token = if ch == OPEN {
                self.scan_head_or_tail()
            } else {
                self.scan_text()
            };
            let token = match token {
                Some(t) => Some(t),
                None => self.try_fallback(),
            };
            if let Some(token) = token {
                self.tokens.push(token);
                proof {
                    let (t, j) = next_token(s, at);
                    lemma_next_token_advances(s, at);
                    assert(tokens_view(self.tokens@) =~= before.push(t));
                    assert(lex_from(s, at) == seq![t] + lex_from(s, j));
                    assert(before.push(t) + lex_from(s, j) =~= before + (seq![t] + lex_from(
                        s,
                        j,
                    )));
                }
            }
        }
        proof {
            assert(lex_from(s, s.len() as int) =~= Seq::<TokenView>::empty());
            assert(self.token_seq() + Seq::<TokenView>::empty() =~= self.token_seq());
        }
    }

    /// The tokens read so far.
    pub fn tokens(&self) -> (r: &Vec<Token>)
        ensures
            tokens_view(r@) == self.token_seq(),
    {
        &self.tokens
    }

    /// Reads a head `[name]` or `[name=attr]` whose `[` has just been
    /// consumed; falls back to text where another `[` comes first or the
    /// input ends.
    fn scan_head(&mut self) -> (r: Option<Token>)
        requires
            old(self).source.wf(),
            0 <= old(self).cursor() < old(self).text().len(),
            old(self).source.pos() == old(self).cursor() + 1,
            old(self).text()[old(self).cursor()] == OPEN,
            old(self).cursor() + 1 < old(self).text().len() ==> old(self).text()[old(self).cursor()
                + 1] != SLASH,
        ensures
            final(self).wf(),
            final(self).text() == old(self).text(),
            final(self).tokens == old(self).tokens,
            r matches Some(t) && t@ == next_token(old(self).text(), old(self).cursor()).0,
            final(self).cursor() == next_token(old(self).text(), old(self).cursor()).1,
    {
        if self.source.done() {
            return None;
        }
        let ghost s = self.text();
        let ghost i = self.cursor();
        proof {
            lemma_next_bracket(s, i + 1);
        }
        loop
            invariant
                self.source.wf(),
                self.text() == s,
                self.start == i,
                self.tokens == old(self).tokens,
                i + 1 <= self.source.pos() <= s.len(),
                next_bracket(s, i + 1) == next_bracket(s, self.source.pos()),
                s == old(self).text(),
                i == old(self).cursor(),
                0 <= i < s.len(),
                s[i] == OPEN,
                i + 1 < s.len() ==> s[i + 1] != SLASH,
            ensures
                self.source.pos() == s.len(),
            decreases s.len() - self.source.pos(),
        {
            let ch = match self.source.next() {
                Some(ch) => ch,
                None => break,
            };
            if ch == CLOSE {
                let token = self.collect_head();
                self.start = self.source.position();
                return Some(token);
            } else if ch == OPEN {
                self.source.back();
                let token = self.collect_text();
                self.start = self.source.position();
                return Some(token);
            }
        }
        self.try_fallback()
    }

    /// Reads a tail `[/name]` whose `[` has just been consumed; falls back to
    /// text where another `[` comes first or the input ends.
    fn scan_tail(&mut self) -> (r: Option<Token>)
        requires
            old(self).source.wf(),
            0 <= old(self).cursor() < old(self).text().len() - 1,
            old(self).source.pos() == old(self).cursor() + 1,
            old(self).text()[old(self).cursor()] == OPEN,
            old(self).text()[old(self).cursor() + 1] == SLASH,
        ensures
            final(self).wf(),
            final(self).text() == old(self).text(),
            final(self).tokens == old(self).tokens,
            r matches Some(t) && t@ == next_token(old(self).text(), old(self).cursor()).0,
            final(self).cursor() == next_token(old(self).text(), old(self).cursor()).1,
    {
        if self.source.done() {
            return None;
        }
        let ghost s = self.text();
        let ghost i = self.cursor();
        proof {
            lemma_next_bracket(s, i + 1);
        }
        loop
            invariant
                self.source.wf(),
                self.text() == s,
                self.start == i,
                self.tokens == old(self).tokens,
                i + 1 <= self.source.pos() <= s.len(),
                next_bracket(s, i + 1) == next_bracket(s, self.source.pos()),
                s == old(self).text(),
                i == old(self).cursor(),
                0 <= i < s.len() - 1,
                s[i] == OPEN,
                s[i + 1] == SLASH,
            ensures
                self.source.pos() == s.len(),
            decreases s.len() - self.source.pos(),
        {
            let ch = match self.source.next() {
                Some(ch) => ch,
                None => break,
            };
            if ch == CLOSE {
                let token = self.collect_tail();
                self.start = self.source.position();
                return Some(token);
            } else if ch == OPEN {
                self.source.back();
                let token = self.collect_text();
                self.start = self.source.position();
                return Some(token);
            }
        }
        self.try_fallback()
    }

    /// Reads the tag run whose `[` has just been consumed, as a tail where a
    /// `/` follows and as a head otherwise.
    fn scan_head_or_tail(&mut self) -> (r: Option<Token>)
        requires
            old(self).source.wf(),
            0 <= old(self).cursor() < old(self).text().len(),
            old(self).source.pos() == old(self).cursor() + 1,
            old(self).text()[old(self).cursor()] == OPEN,
        ensures
            final(self).wf(),
            final(self).text() == old(self).text(),
            final(self).tokens == old(self).tokens,
            r matches Some(t) && t@ == next_token(old(self).text(), old(self).cursor()).0,
            final(self).cursor() == next_token(old(self).text(), old(self).cursor()).1,
    {
        match self.source.curr() {
            Some(v) => {
                if *v == SLASH {
                    self.scan_tail()
                } else {
                    self.scan_head()
                }
            },
            None => self.scan_head(),
        }
    }

    /// Reads a text run whose first character, not a `[`, has just been
    /// consumed; it ends before the next `[` or at the end of the input.
    fn scan_text(&mut self) -> (r: Option<Token>)
        requires
            old(self).source.wf(),
            0 <= old(self).cursor() < old(self).text().len(),
            old(self).source.pos() == old(self).cursor() + 1,
            old(self).text()[old(self).cursor()] != OPEN,
        ensures
            final(self).wf(),
            final(self).text() == old(self).text(),
            final(self).tokens == old(self).tokens,
            r matches Some(t) && t@ == next_token(old(self).text(), old(self).cursor()).0,
            final(self).cursor() == next_token(old(self).text(), old(self).cursor()).1,
    {
        if self.source.done() {
            return None;
        }
        let ghost s = self.text();
        let ghost i = self.cursor();
        proof {
            lemma_first_index_of(s, OPEN, i + 1);
        }
        loop
            invariant
                self.source.wf(),
                self.text() == s,
                self.start == i,
                self.tokens == old(self).tokens,
                i + 1 <= self.source.pos() <= s.len(),
                first_index_of(s, OPEN, i + 1) == first_index_of(s, OPEN, self.source.pos()),
                s == old(self).text(),
                i == old(self).cursor(),
                0 <= i < s.len(),
                s[i] != OPEN,
            ensures
                self.source.pos() == s.len(),
            decreases s.len() - self.source.pos(),
        {
            let ch = match self.source.next() {
                Some(ch) => ch,
                None => break,
            };
            if ch == OPEN {
                self.source.back();
                let head = self.collect_text();
                self.start = self.source.position();
                return Some(head);
            }
        }
        let token = Some(self.collect_text());
        self.start = self.source.position();
        token
    }

    /// Turns what lies between the cursor and the scanner into a text token.
    fn try_fallback(&mut self) -> (r: Option<Token>)
        requires
            old(self).source.wf(),
            old(self).cursor() <= old(self).source.pos(),
        ensures
            final(self).wf(),
            final(self).text() == old(self).text(),
            final(self).tokens == old(self).tokens,
            final(self).source == old(self).source,
            r matches Some(t) && t@ == TokenView::Text(
                old(self).text().subrange(old(self).cursor(), old(self).source.pos()),
            ),
    {
        if self.source.done() {
            return None;
        }
        let token = self.collect_text();
        self.start = self.source.position();
        Some(token)
    }

    /// A text token of the characters between the cursor and the scanner.
    fn collect_text(&self) -> (r: Token)
        requires
            self.source.wf(),
            self.cursor() <= self.source.pos(),
        ensures
            r@ == TokenView::Text(self.text().subrange(self.cursor(), self.source.pos())),
    {
        let range = self.source.get_range(self.start, self.source.position());
        let text = string_of_range(range, 0, range.len());
        assert(text@ =~= range@);
        Token::Text(text)
    }

    /// A head token of the run `[...]` between the cursor and the scanner.
    fn collect_head(&self) -> (r: Token)
        requires
            self.source.wf(),
            self.cursor() + 2 <= self.source.pos(),
            self.text()[self.cursor()] == OPEN,
            self.text()[self.source.pos() - 1] == CLOSE,
        ensures
            r@ == head_of(self.text().subrange(self.cursor() + 1, self.source.pos() - 1)),
    {
        let head_content = self.source.get_range(self.start, self.source.position());
        let n = head_content.len();
        let ghost inner = self.text().subrange(self.cursor() + 1, self.source.pos() - 1);
        let mut v: usize = 1;
        proof {
            lemma_first_index_of(inner, EQUAL, 0);
        }
        while v < n - 1 && head_content[v] != EQUAL
            invariant
                1 <= v <= n - 1,
                n == head_content@.len(),
                n >= 2,
                inner =~= head_content@.subrange(1, n - 1),
                first_index_of(inner, EQUAL, 0) == first_index_of(inner, EQUAL, v - 1),
            decreases n - v,
        {
            v = v + 1;
        }
        if v < n - 1 {
            let name = string_of_range(head_content, 1, v);
            let attr = string_of_range(head_content, v + 1, n - 1);
            proof {
                assert(name@ =~= inner.subrange(0, v - 1));
                assert(attr@ =~= inner.subrange(v as int, inner.len() as int));
            }
            Token::Head(TagHead { name, attr: Some(attr) })
        } else {
            let name = string_of_range(head_content, 1, n - 1);
            Token::Head(TagHead { name, attr: None })
        }
    }

    /// A tail token of the run `[/...]` between the cursor and the scanner.
    fn collect_tail(&self) -> (r: Token)
        requires
            self.source.wf(),
            self.cursor() + 3 <= self.source.pos(),
        ensures
            r@ == (TokenView::Tail {
                name: self.text().subrange(self.cursor() + 2, self.source.pos() - 1),
            }),
    {
        let range = self.source.get_range(self.start + 2, self.source.position() - 1);
        let name = string_of_range(range, 0, range.len());
        assert(name@ =~= range@);
        Token::Tail(TagTail { name })
    }
}

/// Reads markup text into its token stream.
pub fn parse_bbcode(data: &str) -> (r: Vec<Token>)
    ensures
        tokens_view(r@) == lex(data@),
        concat_sources(tokens_view(r@)) == data@,
        forall|k: int| 0 <= k < r@.len() ==> #[trigger] source_of(r@[k]@).len() > 0,
{
    let mut lexer = Lexer::new(data);
    lexer.scan();
    proof {
        assert(Seq::<TokenView>::empty() + lex(data@) =~= lex(data@));
        lemma_lex_round_trip(data@);
        lemma_lex_from_nonempty(data@, 0);
        assert forall|k: int| 0 <= k < lexer.tokens@.len() implies #[trigger] source_of(
            lexer.tokens@[k]@,
        ).len() > 0 by {
            assert(tokens_view(lexer.tokens@)[k] == lexer.tokens@[k]@);
        }
    }
    lexer.tokens
}

} // verus!
