//! Bracket-tag markup: a tree builder that renders `[name=attr]body[/name]`
//! text from a small template syntax, and a lexer that reads such text back
//! into head, tail and text tokens.

mod text;
pub mod scanner;
pub mod token;
pub mod lexer;
pub mod markup;
pub mod template;
pub mod color;
pub mod bbcode;
pub mod tag;
pub mod platform;
pub mod post;
pub mod participation;

pub use bbcode::{
    bbcode_to_string, AnyBBCode, BBCode, BBCodeItem, Bold, Color, Table, TableData, TableRow, Url,
};
pub use color::WebColor;
pub use lexer::{parse_bbcode, Lexer};
pub use markup::{AttrValue, Element, ElementChildren, Node, Text};
pub use platform::{Platform, PlatformValue};
pub use post::generate_find_post_link;
pub use scanner::Scanner;
pub use tag::Tag;
pub use template::{bbx, parse, Expected, TemplateSyntaxError};
pub use token::{TagHead, TagTail, Token};
