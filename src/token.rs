//! Tokens of bracket-tag markup text.

use vstd::prelude::*;

verus! {

/// Opening bracket of a tag.
pub const OPEN: char = '[';

/// Closing bracket of a tag.
pub const CLOSE: char = ']';

/// Marks a tail: `[/name]`.
pub const SLASH: char = '/';

/// Separates a tag name from its attribute: `[name=attr]`.
pub const EQUAL: char = '=';

/// Tag head: `[name=attr]` or `[name]`.
#[derive(Debug)]
pub struct TagHead {
    /// Tag name.
    pub name: String,
    /// Optional attribute.
    pub attr: Option<String>,
}

/// Tag tail: `[/name]`.
#[derive(Debug)]
pub struct TagTail {
    /// Tag name.
    pub name: String,
}

/// One unit of markup text.
#[derive(Debug)]
pub enum Token {
    /// Tag head.
    Head(TagHead),
    /// Tag tail.
    Tail(TagTail),
    /// Plain text.
    Text(String),
}

/// A token as a mathematical value.
pub enum TokenView {
    Head { name: Seq<char>, attr: Option<Seq<char>> },
    Tail { name: Seq<char> },
    Text(Seq<char>),
}

impl View for Token {
    type V = TokenView;

    open spec fn view(&self) -> TokenView {
        match self {
            Token::Head(h) => TokenView::Head {
                name: h.name@,
                attr: match h.attr {
                    Some(a) => Some(a@),
                    None => None,
                },
            },
            Token::Tail(t) => TokenView::Tail { name: t.name@ },
            Token::Text(s) => TokenView::Text(s@),
        }
    }
}

/// The views of a sequence of tokens.
pub open spec fn tokens_view(ts: Seq<Token>) -> Seq<TokenView> {
    ts.map_values(|t: Token| t@)
}

/// The text that a token stands for in its source.
pub open spec fn source_of(t: TokenView) -> Seq<char> {
    match t {
        TokenView::Head { name, attr } => match attr {
            Some(a) => seq![OPEN] + name + seq![EQUAL] + a + seq![CLOSE],
            None => seq![OPEN] + name + seq![CLOSE],
        },
        TokenView::Tail { name } => seq![OPEN, SLASH] + name + seq![CLOSE],
        TokenView::Text(s) => s,
    }
}

/// The source texts of a sequence of tokens, one after another.
pub open spec fn concat_sources(ts: Seq<TokenView>) -> Seq<char>
    decreases ts.len(),
{
    if ts.len() == 0 {
        Seq::empty()
    } else {
        source_of(ts[0]) + concat_sources(ts.drop_first())
    }
}

} // verus!
