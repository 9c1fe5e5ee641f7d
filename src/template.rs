//! Template syntax: the textual form from which a markup tree is built.
//!
//! ```text
//! root     ::= [node (',' node)* [',']]
//! node     ::= element | text
//! element  ::= ident '{' ['{' value '}' [',']] children '}'
//! children ::= '/' | [node (',' node)* [',']]
//! value    ::= string | '$' '{' ident '}'
//! text     ::= string | '$' '{' ident '}' | '(' string (',' arg)* [','] ')'
//! arg      ::= string | ident
//! ```
//!
//! An identifier right before `{` names an element; a string literal is
//! literal text; `${name}` and a bare identifier among format arguments take
//! the text of the binding called `name`. A format string holds one `{}` for
//! each argument. Spaces, tabs and line breaks may stand between any two
//! parts.

use vstd::prelude::*;

use crate::markup::{
    all_models, attr_model, lemma_all_models_cons, node_model, opt_attr_model, render_nodes,
    render_seq, strings_view, text_model, AttrModel, AttrValue, Element, ElementChildren, Node,
    NodeModel, Text, TextModel,
};
use crate::text::{chars_of, push_char, string_of_range};

verus! {

/// What the template syntax asked for where it went wrong.
#[derive(Clone, Copy, Debug, PartialEq, Eq, Structural)]
pub enum Expected {
    /// An element or a text.
    Node,
    /// An opening brace.
    OpenBrace,
    /// A closing brace.
    CloseBrace,
    /// A comma, or the end of the list.
    Comma,
    /// An attribute value: a string literal or `${name}`.
    AttrValue,
    /// The name of a binding.
    BindingName,
    /// A name that some binding has.
    KnownBinding,
    /// A format string literal.
    FormatString,
    /// A format argument: a string literal or a binding name.
    FormatArg,
    /// As many `{}` in the format string as there are arguments.
    PlaceholderCount,
    /// The closing quote of a string literal.
    ClosingQuote,
    /// A known escape: `\"`, `\\`, `\n` or `\t`.
    Escape,
    /// An element name before `{`.
    ElementName,
    /// An attribute before the children, not among them.
    AttributeFirst,
}

/// A template that does not follow the syntax: where, and what was expected
/// there.
#[derive(Clone, Copy, Debug, PartialEq, Eq, Structural)]
pub struct TemplateSyntaxError {
    /// Index of the offending character.
    pub position: usize,
    /// What the syntax asked for there.
    pub expected: Expected,
}

pub open spec fn err(pos: int, expected: Expected) -> TemplateSyntaxError {
    TemplateSyntaxError { position: pos as usize, expected }
}

pub open spec fn is_space(c: char) -> bool {
    c == ' ' || c == '\t' || c == '\n' || c == '\r'
}

pub open spec fn is_ident_start(c: char) -> bool {
    ('a' <= c && c <= 'z') || ('A' <= c && c <= 'Z') || c == '_'
}

pub open spec fn is_ident_char(c: char) -> bool {
    is_ident_start(c) || ('0' <= c && c <= '9')
}

/// Whether reading moved forward from `from` to `to` within the input. The
/// recursive readings below test it so that they plainly end; it always
/// holds there (see `lemma_element_advances`, `lemma_list_advances` and
/// `lemma_args_advance`), so the test never rejects a template.
pub open spec fn advances(s: Seq<char>, from: int, to: int) -> bool {
    from < to <= s.len()
}

/// Whether `s[i]` is `c`.
pub open spec fn at(s: Seq<char>, i: int, c: char) -> bool {
    0 <= i < s.len() && s[i] == c
}

/// The first index at or after `i` that is not a space.
pub open spec fn skip_space(s: Seq<char>, i: int) -> int
    decreases s.len() - i,
{
    if 0 <= i < s.len() && is_space(s[i]) {
        skip_space(s, i + 1)
    } else {
        i
    }
}

/// The first index at or after `i` that does not continue an identifier.
pub open spec fn ident_end(s: Seq<char>, i: int) -> int
    decreases s.len() - i,
{
    if 0 <= i < s.len() && is_ident_char(s[i]) {
        ident_end(s, i + 1)
    } else {
        i
    }
}

/// The character that `\c` stands for in a string literal.
pub open spec fn unescape(c: char) -> Option<char> {
    if c == '"' {
        Some('"')
    } else if c == '\\' {
        Some('\\')
    } else if c == 'n' {
        Some('\n')
    } else if c == 't' {
        Some('\t')
    } else {
        None
    }
}

/// Puts `p` in front of a successfully read value.
pub open spec fn prepend(p: Seq<char>, r: Result<(Seq<char>, int), TemplateSyntaxError>) -> Result<
    (Seq<char>, int),
    TemplateSyntaxError,
> {
    match r {
        Ok((v, e)) => Ok((p + v, e)),
        Err(x) => Err(x),
    }
}

/// The rest of a string literal from `i`, just after its opening quote: its
/// value, and the index after its closing quote.
pub open spec fn str_body(s: Seq<char>, i: int) -> Result<(Seq<char>, int), TemplateSyntaxError>
    decreases s.len() - i,
{
    if i < 0 || i >= s.len() {
        Err(err(s.len() as int, Expected::ClosingQuote))
    } else if s[i] == '"' {
        Ok((Seq::empty(), i + 1))
    } else if s[i] == '\\' {
        if i + 1 < s.len() && unescape(s[i + 1]) is Some {
            prepend(seq![unescape(s[i + 1])->0], str_body(s, i + 2))
        } else {
            Err(err(i, Expected::Escape))
        }
    } else {
        prepend(seq![s[i]], str_body(s, i + 1))
    }
}

/// The value bound to `name`: the first binding with that name.
pub open spec fn lookup(env: Seq<(Seq<char>, Seq<char>)>, name: Seq<char>) -> Option<Seq<char>>
    decreases env.len(),
{
    if env.len() == 0 {
        None
    } else if env[0].0 == name {
        Some(env[0].1)
    } else {
        lookup(env.drop_first(), name)
    }
}

/// The number of `{}` placeholders in a format string.
pub open spec fn placeholder_count(f: Seq<char>) -> nat
    decreases f.len(),
{
    if f.len() == 0 {
        0
    } else if f.len() >= 2 && ((f[0] == '{' && f[1] == '{') || (f[0] == '}' && f[1] == '}')) {
        placeholder_count(f.skip(2))
    } else if f.len() >= 2 && f[0] == '{' && f[1] == '}' {
        1 + placeholder_count(f.skip(2))
    } else {
        placeholder_count(f.skip(1))
    }
}

/// `${name}` from its `$` at `i`: the bound text and the index after `}`.
pub open spec fn p_binding(s: Seq<char>, i: int, env: Seq<(Seq<char>, Seq<char>)>) -> Result<
    (Seq<char>, int),
    TemplateSyntaxError,
> {
    let j = skip_space(s, i + 1);
    if !at(s, j, '{') {
        Err(err(j, Expected::OpenBrace))
    } else {
        let k = skip_space(s, j + 1);
        if !(0 <= k < s.len() && is_ident_start(s[k])) {
            Err(err(k, Expected::BindingName))
        } else {
            let e = ident_end(s, k);
            let m = skip_space(s, e);
            if !at(s, m, '}') {
                Err(err(m, Expected::CloseBrace))
            } else {
                match lookup(env, s.subrange(k, e)) {
                    Some(v) => Ok((v, m + 1)),
                    None => Err(err(k, Expected::KnownBinding)),
                }
            }
        }
    }
}

/// An attribute value at `i`, and the index after it.
pub open spec fn p_attr_value(s: Seq<char>, i: int, env: Seq<(Seq<char>, Seq<char>)>) -> Result<
    (AttrModel, int),
    TemplateSyntaxError,
> {
    if at(s, i, '"') {
        match str_body(s, i + 1) {
            Ok((v, e)) => Ok((AttrModel::Str(v), e)),
            Err(x) => Err(x),
        }
    } else if at(s, i, '$') {
        match p_binding(s, i, env) {
            Ok((v, e)) => Ok((AttrModel::Expr(v), e)),
            Err(x) => Err(x),
        }
    } else {
        Err(err(i, Expected::AttrValue))
    }
}

/// One format argument at `i`, and the index after it.
pub open spec fn p_arg(s: Seq<char>, i: int, env: Seq<(Seq<char>, Seq<char>)>) -> Result<
    (Seq<char>, int),
    TemplateSyntaxError,
> {
    if at(s, i, '"') {
        str_body(s, i + 1)
    } else if 0 <= i < s.len() && is_ident_start(s[i]) {
        let e = ident_end(s, i);
        match lookup(env, s.subrange(i, e)) {
            Some(v) => Ok((v, e)),
            None => Err(err(i, Expected::KnownBinding)),
        }
    } else {
        Err(err(i, Expected::FormatArg))
    }
}

/// The format arguments after index `k` up to the closing `)`, and the index
/// after it.
pub open spec fn p_args(s: Seq<char>, k: int, env: Seq<(Seq<char>, Seq<char>)>) -> Result<
    (Seq<Seq<char>>, int),
    TemplateSyntaxError,
>
    decreases s.len() - k,
{
    let j = skip_space(s, k);
    if at(s, j, ')') {
        Ok((Seq::empty(), j + 1))
    } else if !at(s, j, ',') {
        Err(err(j, Expected::Comma))
    } else {
        let a = skip_space(s, j + 1);
        if at(s, a, ')') {
            Ok((Seq::empty(), a + 1))
        } else {
            match p_arg(s, a, env) {
                Err(x) => Err(x),
                Ok((v, e)) => if !advances(s, k, e) {
                    Err(err(a, Expected::FormatArg))
                } else {
                    match p_args(s, e, env) {
                        Err(x) => Err(x),
                        Ok((rest, end)) => Ok((seq![v] + rest, end)),
                    }
                },
            }
        }
    }
}

/// `(format, args...)` from its `(` at `i`, and the index after `)`.
pub open spec fn p_format(s: Seq<char>, i: int, env: Seq<(Seq<char>, Seq<char>)>) -> Result<
    (TextModel, int),
    TemplateSyntaxError,
> {
    let j = skip_space(s, i + 1);
    if !at(s, j, '"') {
        Err(err(j, Expected::FormatString))
    } else {
        match str_body(s, j + 1) {
            Err(x) => Err(x),
            Ok((f, k)) => match p_args(s, k, env) {
                Err(x) => Err(x),
                Ok((args, end)) => if placeholder_count(f) == args.len() {
                    Ok((TextModel::Format(f, args), end))
                } else {
                    Err(err(i, Expected::PlaceholderCount))
                },
            },
        }
    }
}

/// A text at `i`, and the index after it. Inside an element a brace there
/// is an attribute out of place; elsewhere it lacks an element name.
pub open spec fn p_text(
    s: Seq<char>,
    i: int,
    env: Seq<(Seq<char>, Seq<char>)>,
    nested: bool,
) -> Result<(TextModel, int), TemplateSyntaxError> {
    if at(s, i, '"') {
        match str_body(s, i + 1) {
            Ok((v, e)) => Ok((TextModel::Str(v), e)),
            Err(x) => Err(x),
        }
    } else if at(s, i, '$') {
        match p_binding(s, i, env) {
            Ok((v, e)) => Ok((TextModel::Expr(v), e)),
            Err(x) => Err(x),
        }
    } else if at(s, i, '(') {
        p_format(s, i, env)
    } else if at(s, i, '{') {
        if nested {
            Err(err(i, Expected::AttributeFirst))
        } else {
            Err(err(i, Expected::ElementName))
        }
    } else {
        Err(err(i, Expected::Node))
    }
}

/// The optional attribute of an element whose body starts at `k`, and where
/// its children start.
pub open spec fn p_attr(s: Seq<char>, k: int, env: Seq<(Seq<char>, Seq<char>)>) -> Result<
    (Option<AttrModel>, int),
    TemplateSyntaxError,
> {
    if at(s, k, '{') {
        match p_attr_value(s, skip_space(s, k + 1), env) {
            Err(x) => Err(x),
            Ok((a, m)) => {
                let m2 = skip_space(s, m);
                if !at(s, m2, '}') {
                    Err(err(m2, Expected::CloseBrace))
                } else {
                    let k3 = skip_space(s, m2 + 1);
                    if at(s, k3, ',') {
                        Ok((Some(a), skip_space(s, k3 + 1)))
                    } else {
                        Ok((Some(a), k3))
                    }
                }
            },
        }
    } else {
        Ok((None, k))
    }
}

/// Whether a list ends at `i`: at `}` inside an element, at the end of the
/// input at the top.
pub open spec fn list_ends(s: Seq<char>, i: int, nested: bool) -> bool {
    if nested {
        at(s, i, '}')
    } else {
        i >= s.len()
    }
}

/// An element whose name starts at `i`, and the index after its `}`.
pub open spec fn p_element(s: Seq<char>, i: int, env: Seq<(Seq<char>, Seq<char>)>) -> Result<
    (NodeModel, int),
    TemplateSyntaxError,
>
    decreases s.len() - i, 0int,
{
    let e = ident_end(s, i);
    let j = skip_space(s, e);
    if !at(s, j, '{') {
        Err(err(j, Expected::OpenBrace))
    } else {
        match p_attr(s, skip_space(s, j + 1), env) {
            Err(x) => Err(x),
            Ok((attr, c)) => if !advances(s, i, c) {
                Err(err(i, Expected::Node))
            } else if at(s, c, '/') {
                let d = skip_space(s, c + 1);
                if at(s, d, '}') {
                    Ok(
                        (
                            NodeModel::Element { name: s.subrange(i, e), attr, children: None },
                            d + 1,
                        ),
                    )
                } else {
                    Err(err(d, Expected::CloseBrace))
                }
            } else {
                match p_list(s, c, env, true) {
                    Err(x) => Err(x),
                    Ok((kids, d)) => Ok(
                        (
                            NodeModel::Element {
                                name: s.subrange(i, e),
                                attr,
                                children: Some(kids),
                            },
                            d + 1,
                        ),
                    ),
                }
            },
        }
    }
}

/// A node at `i`, and the index after it.
pub open spec fn p_node(
    s: Seq<char>,
    i: int,
    env: Seq<(Seq<char>, Seq<char>)>,
    nested: bool,
) -> Result<(NodeModel, int), TemplateSyntaxError>
    decreases s.len() - i, 1int,
{
    if 0 <= i < s.len() && is_ident_start(s[i]) {
        p_element(s, i, env)
    } else {
        match p_text(s, i, env, nested) {
            Ok((t, e)) => Ok((NodeModel::Text(t), e)),
            Err(x) => Err(x),
        }
    }
}

/// A comma-separated list of nodes from `i` (not a space) to its end, and
/// the index of that end.
pub open spec fn p_list(
    s: Seq<char>,
    i: int,
    env: Seq<(Seq<char>, Seq<char>)>,
    nested: bool,
) -> Result<(Seq<NodeModel>, int), TemplateSyntaxError>
    decreases s.len() - i, 2int,
{
    if list_ends(s, i, nested) {
        Ok((Seq::empty(), i))
    } else {
        match p_node(s, i, env, nested) {
            Err(x) => Err(x),
            Ok((n, k)) => {
                let j = skip_space(s, k);
                if list_ends(s, j, nested) {
                    Ok((seq![n], j))
                } else if !at(s, j, ',') {
                    Err(err(j, Expected::Comma))
                } else {
                    let a = skip_space(s, j + 1);
                    if !advances(s, i, a) {
                        Err(err(i, Expected::Node))
                    } else {
                        match p_list(s, a, env, nested) {
                            Err(x) => Err(x),
                            Ok((rest, end)) => Ok((seq![n] + rest, end)),
                        }
                    }
                }
            },
        }
    }
}

/// The nodes of a whole template, with the given bindings.
pub open spec fn parse_template(s: Seq<char>, env: Seq<(Seq<char>, Seq<char>)>) -> Result<
    Seq<NodeModel>,
    TemplateSyntaxError,
> {
    match p_list(s, skip_space(s, 0), env, false) {
        Ok((nodes, _)) => Ok(nodes),
        Err(x) => Err(x),
    }
}

pub proof fn lemma_skip_space(s: Seq<char>, i: int)
    requires
        0 <= i <= s.len(),
    ensures
        i <= skip_space(s, i) <= s.len(),
    decreases s.len() - i,
{
    if i < s.len() && is_space(s[i]) {
        lemma_skip_space(s, i + 1);
    }
}

pub proof fn lemma_ident_end(s: Seq<char>, i: int)
    requires
        0 <= i <= s.len(),
    ensures
        i <= ident_end(s, i) <= s.len(),
    decreases s.len() - i,
{
    if i < s.len() && is_ident_char(s[i]) {
        lemma_ident_end(s, i + 1);
    }
}

pub proof fn lemma_str_body_advances(s: Seq<char>, i: int)
    requires
        0 <= i <= s.len(),
    ensures
        str_body(s, i) matches Ok((_, e)) ==> i < e <= s.len(),
    decreases s.len() - i,
{
    if i < s.len() && s[i] != '"' {
        if s[i] == '\\' {
            if i + 1 < s.len() && unescape(s[i + 1]) is Some {
                lemma_str_body_advances(s, i + 2);
            }
        } else {
            lemma_str_body_advances(s, i + 1);
        }
    }
}

pub proof fn lemma_binding_advances(s: Seq<char>, i: int, env: Seq<(Seq<char>, Seq<char>)>)
    requires
        0 <= i < s.len(),
    ensures
        p_binding(s, i, env) matches Ok((_, e)) ==> i < e <= s.len(),
{
    lemma_skip_space(s, i + 1);
    let j = skip_space(s, i + 1);
    if j < s.len() {
        lemma_skip_space(s, j + 1);
        let k = skip_space(s, j + 1);
        lemma_ident_end(s, k);
        lemma_skip_space(s, ident_end(s, k));
    }
}

pub proof fn lemma_attr_value_advances(
    s: Seq<char>,
    i: int,
    env: Seq<(Seq<char>, Seq<char>)>,
)
    requires
        0 <= i <= s.len(),
    ensures
        p_attr_value(s, i, env) matches Ok((_, e)) ==> i < e <= s.len(),
        p_arg(s, i, env) matches Ok((_, e)) ==> i < e <= s.len(),
{
    if i < s.len() {
        lemma_str_body_advances(s, i + 1);
        lemma_binding_advances(s, i, env);
        lemma_ident_end(s, i + 1);
    }
}

pub proof fn lemma_attr_advances(s: Seq<char>, k: int, env: Seq<(Seq<char>, Seq<char>)>)
    requires
        0 <= k <= s.len(),
    ensures
        p_attr(s, k, env) matches Ok((_, c)) ==> k <= c <= s.len(),
{
    if at(s, k, '{') {
        lemma_skip_space(s, k + 1);
        let k2 = skip_space(s, k + 1);
        lemma_attr_value_advances(s, k2, env);
        match p_attr_value(s, k2, env) {
            Ok((_, m)) => {
                lemma_skip_space(s, m);
                let m2 = skip_space(s, m);
                if m2 < s.len() {
                    lemma_skip_space(s, m2 + 1);
                    let k3 = skip_space(s, m2 + 1);
                    if k3 < s.len() {
                        lemma_skip_space(s, k3 + 1);
                    }
                }
            },
            Err(_) => {},
        }
    }
}

pub proof fn lemma_args_advance(s: Seq<char>, k: int, env: Seq<(Seq<char>, Seq<char>)>)
    requires
        0 <= k <= s.len(),
    ensures
        p_args(s, k, env) matches Ok((_, e)) ==> k < e <= s.len(),
        ({
            let j = skip_space(s, k);
            at(s, j, ',') ==> (p_arg(s, skip_space(s, j + 1), env) matches Ok((_, e)) ==> advances(
                s,
                k,
                e,
            ))
        }),
    decreases s.len() - k,
{
    lemma_skip_space(s, k);
    let j = skip_space(s, k);
    if j < s.len() {
        lemma_skip_space(s, j + 1);
        let a = skip_space(s, j + 1);
        lemma_attr_value_advances(s, a, env);
        match p_arg(s, a, env) {
            Ok((_, e)) => {
                if advances(s, k, e) {
                    lemma_args_advance(s, e, env);
                }
            },
            Err(_) => {},
        }
    }
}

/// Every reading moves forward within the input, so the progress checks in
/// the grammar above never reject a template.
pub proof fn lemma_element_advances(s: Seq<char>, i: int, env: Seq<(Seq<char>, Seq<char>)>)
    requires
        0 <= i < s.len(),
    ensures
        p_element(s, i, env) matches Ok((_, e)) ==> i < e <= s.len(),
        ({
            let j = skip_space(s, ident_end(s, i));
            at(s, j, '{') ==> (p_attr(s, skip_space(s, j + 1), env) matches Ok((_, c))
                ==> advances(s, i, c))
        }),
    decreases s.len() - i, 0int,
{
    lemma_ident_end(s, i);
    let e = ident_end(s, i);
    lemma_skip_space(s, e);
    let j = skip_space(s, e);
    if at(s, j, '{') {
        lemma_skip_space(s, j + 1);
        let k = skip_space(s, j + 1);
        lemma_attr_advances(s, k, env);
        match p_attr(s, k, env) {
            Ok((_, c)) => {
                if advances(s, i, c) {
                    if at(s, c, '/') {
                        lemma_skip_space(s, c + 1);
                    } else {
                        lemma_list_advances(s, c, env, true);
                    }
                }
            },
            Err(_) => {},
        }
    }
}

pub proof fn lemma_node_advances(
    s: Seq<char>,
    i: int,
    env: Seq<(Seq<char>, Seq<char>)>,
    nested: bool,
)
    requires
        0 <= i <= s.len(),
    ensures
        p_node(s, i, env, nested) matches Ok((_, e)) ==> i < e <= s.len(),
    decreases s.len() - i, 1int,
{
    if 0 <= i < s.len() && is_ident_start(s[i]) {
        lemma_element_advances(s, i, env);
    } else if i < s.len() {
        lemma_str_body_advances(s, i + 1);
        lemma_binding_advances(s, i, env);
        if at(s, i, '(') {
            lemma_skip_space(s, i + 1);
            let j = skip_space(s, i + 1);
            if j < s.len() {
                lemma_str_body_advances(s, j + 1);
                match str_body(s, j + 1) {
                    Ok((_, k)) => lemma_args_advance(s, k, env),
                    Err(_) => {},
                }
            }
        }
    }
}

pub proof fn lemma_list_advances(
    s: Seq<char>,
    i: int,
    env: Seq<(Seq<char>, Seq<char>)>,
    nested: bool,
)
    requires
        0 <= i <= s.len(),
    ensures
        p_list(s, i, env, nested) matches Ok((_, e)) ==> i <= e <= s.len() && list_ends(
            s,
            e,
            nested,
        ),
        !list_ends(s, i, nested) ==> (p_node(s, i, env, nested) matches Ok((_, k)) ==> (at(
            s,
            skip_space(s, k),
            ',',
        ) ==> advances(s, i, skip_space(s, skip_space(s, k) + 1)))),
    decreases s.len() - i, 2int,
{
    if !list_ends(s, i, nested) {
        lemma_node_advances(s, i, env, nested);
        match p_node(s, i, env, nested) {
            Ok((_, k)) => {
                lemma_skip_space(s, k);
                let j = skip_space(s, k);
                if at(s, j, ',') {
                    lemma_skip_space(s, j + 1);
                    let a = skip_space(s, j + 1);
                    lemma_list_advances(s, a, env, nested);
                }
            },
            Err(_) => {},
        }
    }
}

/// Bindings read for lookup: each name as characters, with its text.
pub open spec fn env_view(env: Seq<(Vec<char>, String)>) -> Seq<(Seq<char>, Seq<char>)> {
    env.map_values(|p: (Vec<char>, String)| (p.0@, p.1@))
}

/// The bindings as given by a caller: name and text.
pub open spec fn bindings_view(b: Seq<(String, String)>) -> Seq<(Seq<char>, Seq<char>)> {
    b.map_values(|p: (String, String)| (p.0@, p.1@))
}

pub open spec fn res_str(r: Result<(String, usize), TemplateSyntaxError>) -> Result<
    (Seq<char>, int),
    TemplateSyntaxError,
> {
    match r {
        Ok((v, e)) => Ok((v@, e as int)),
        Err(x) => Err(x),
    }
}

pub open spec fn res_args(r: Result<(Vec<String>, usize), TemplateSyntaxError>) -> Result<
    (Seq<Seq<char>>, int),
    TemplateSyntaxError,
> {
    match r {
        Ok((v, e)) => Ok((strings_view(v@), e as int)),
        Err(x) => Err(x),
    }
}

pub open spec fn res_attr(r: Result<(AttrValue, usize), TemplateSyntaxError>) -> Result<
    (AttrModel, int),
    TemplateSyntaxError,
> {
    match r {
        Ok((v, e)) => Ok((attr_model(v), e as int)),
        Err(x) => Err(x),
    }
}

pub open spec fn res_opt_attr(r: Result<(Option<AttrValue>, usize), TemplateSyntaxError>) -> Result<
    (Option<AttrModel>, int),
    TemplateSyntaxError,
> {
    match r {
        Ok((v, e)) => Ok((opt_attr_model(v), e as int)),
        Err(x) => Err(x),
    }
}

pub open spec fn res_text(r: Result<(Text, usize), TemplateSyntaxError>) -> Result<
    (TextModel, int),
    TemplateSyntaxError,
> {
    match r {
        Ok((v, e)) => Ok((text_model(v), e as int)),
        Err(x) => Err(x),
    }
}

pub open spec fn res_node(r: Result<(Node, usize), TemplateSyntaxError>) -> Result<
    (NodeModel, int),
    TemplateSyntaxError,
> {
    match r {
        Ok((v, e)) => Ok((node_model(v), e as int)),
        Err(x) => Err(x),
    }
}

pub open spec fn res_nodes(r: Result<(Vec<Node>, usize), TemplateSyntaxError>) -> Result<
    (Seq<NodeModel>, int),
    TemplateSyntaxError,
> {
    match r {
        Ok((v, e)) => Ok((all_models(v@), e as int)),
        Err(x) => Err(x),
    }
}

/// Whether a result read up to an index within the input.
pub open spec fn ends_within<T>(r: Result<(T, usize), TemplateSyntaxError>, n: int) -> bool {
    r matches Ok((_, e)) ==> e <= n
}

fn space_char(c: char) -> (r: bool)
    ensures
        r == is_space(c),
{
    c == ' ' || c == '\t' || c == '\n' || c == '\r'
}

fn ident_start_char(c: char) -> (r: bool)
    ensures
        r == is_ident_start(c),
{
    ('a' <= c && c <= 'z') || ('A' <= c && c <= 'Z') || c == '_'
}

fn ident_char(c: char) -> (r: bool)
    ensures
        r == is_ident_char(c),
{
    ident_start_char(c) || ('0' <= c && c <= '9')
}

fn at_char(s: &Vec<char>, i: usize, c: char) -> (r: bool)
    ensures
        r == at(s@, i as int, c),
{
    i < s.len() && s[i] == c
}

fn skip_space_at(s: &Vec<char>, i: usize) -> (r: usize)
    requires
        i <= s@.len(),
    ensures
        r == skip_space(s@, i as int),
        i <= r <= s@.len(),
{
    let mut j = i;
    while j < s.len() && space_char(s[j])
        invariant
            i <= j <= s@.len(),
            skip_space(s@, i as int) == skip_space(s@, j as int),
        decreases s@.len() - j,
    {
        j = j + 1;
    }
    j
}

fn ident_end_at(s: &Vec<char>, i: usize) -> (r: usize)
    requires
        i <= s@.len(),
    ensures
        r == ident_end(s@, i as int),
        i <= r <= s@.len(),
{
    let mut j = i;
    while j < s.len() && ident_char(s[j])
        invariant
            i <= j <= s@.len(),
            ident_end(s@, i as int) == ident_end(s@, j as int),
        decreases s@.len() - j,
    {
        j = j + 1;
    }
    j
}

fn make_err(pos: usize, expected: Expected) -> (r: TemplateSyntaxError)
    ensures
        r == err(pos as int, expected),
{
    TemplateSyntaxError { position: pos, expected }
}

fn unescape_char(c: char) -> (r: Option<char>)
    ensures
        r == unescape(c),
{
    if c == '"' {
        Some('"')
    } else if c == '\\' {
        Some('\\')
    } else if c == 'n' {
        Some('\n')
    } else if c == 't' {
        Some('\t')
    } else {
        None
    }
}

/// Reads the rest of a string literal from `i`, just after its opening
/// quote.
fn str_body_at(s: &Vec<char>, i: usize) -> (r: Result<(String, usize), TemplateSyntaxError>)
    requires
        i <= s@.len(),
    ensures
        res_str(r) == str_body(s@, i as int),
        ends_within(r, s@.len() as int),
{
    let mut out = String::new();
    let mut j = i;
    assert(prepend(out@, str_body(s@, j as int)) == str_body(s@, i as int)) by {
        match str_body(s@, i as int) {
            Ok((v, e)) => assert(out@ + v =~= v),
            Err(_) => {},
        }
    }
    loop
        invariant
            i <= j <= s@.len(),
            prepend(out@, str_body(s@, j as int)) == str_body(s@, i as int),
        decreases s@.len() - j,
    {
        let ghost before = out@;
        if j >= s.len() {
            return Err(make_err(s.len(), Expected::ClosingQuote));
        }
        let c = s[j];
        if c == '"' {
            assert(out@ + Seq::<char>::empty() =~= out@);
            return Ok((out, j + 1));
        } else if c == '\\' {
            if j + 1 < s.len() {
                match unescape_char(s[j + 1]) {
                    Some(u) => {
                        push_char(&mut out, u);
                        j = j + 2;
                        proof {
                            match str_body(s@, j as int) {
                                Ok((v, e)) => assert(before + (seq![u] + v) =~= out@ + v),
                                Err(_) => {},
                            }
                        }
                    },
                    None => {
                        return Err(make_err(j, Expected::Escape));
                    },
                }
            } else {
                return Err(make_err(j, Expected::Escape));
            }
        } else {
            push_char(&mut out, c);
            j = j + 1;
            proof {
                match str_body(s@, j as int) {
                    Ok((v, e)) => assert(before + (seq![c] + v) =~= out@ + v),
                    Err(_) => {},
                }
            }
        }
    }
}

/// Whether `s[k..e]` spells `name`.
fn range_is(s: &Vec<char>, k: usize, e: usize, name: &Vec<char>) -> (r: bool)
    requires
        k <= e <= s@.len(),
    ensures
        r == (s@.subrange(k as int, e as int) == name@),
{
    if e - k != name.len() {
        return false;
    }
    let mut m: usize = 0;
    while m < name.len()
        invariant
            e - k == name@.len(),
            k <= e <= s@.len(),
            m <= name@.len(),
            forall|q: int| 0 <= q < m ==> s@[k + q] == name@[q],
        decreases name@.len() - m,
    {
        if s[k + m] != name[m] {
            assert(s@.subrange(k as int, e as int)[m as int] != name@[m as int]);
            return false;
        }
        m = m + 1;
    }
    assert(s@.subrange(k as int, e as int) =~= name@);
    true
}

/// The text bound to the name `s[k..e]`.
fn lookup_at(env: &Vec<(Vec<char>, String)>, s: &Vec<char>, k: usize, e: usize) -> (r: Option<
    String,
>)
    requires
        k <= e <= s@.len(),
    ensures
        r matches Some(v) ==> lookup(env_view(env@), s@.subrange(k as int, e as int)) == Some(
            v@,
        ),
        r is None ==> lookup(env_view(env@), s@.subrange(k as int, e as int)) is None,
{
    let ghost name = s@.subrange(k as int, e as int);
    let mut i: usize = 0;
    assert(env_view(env@).skip(0) =~= env_view(env@));
    while i < env.len()
        invariant
            k <= e <= s@.len(),
            name == s@.subrange(k as int, e as int),
            i <= env@.len(),
            lookup(env_view(env@), name) == lookup(env_view(env@).skip(i as int), name),
        decreases env@.len() - i,
    {
        let ghost rest = env_view(env@).skip(i as int);
        assert(rest.len() > 0);
        assert(rest[0] == (env@[i as int].0@, env@[i as int].1@));
        if range_is(s, k, e, &env[i].0) {
            let v = env[i].1.clone();
            return Some(v);
        }
        i = i + 1;
        assert(rest.drop_first() =~= env_view(env@).skip(i as int));
    }
    None
}

/// The number of `{}` placeholders in `f`.
fn count_placeholders(f: &String) -> (r: usize)
    ensures
        r == placeholder_count(f@),
{
    let chars = chars_of(f.as_str());
    let n = chars.len();
    let mut i: usize = 0;
    let mut c: usize = 0;
    assert(f@.skip(0) =~= f@);
    while i < n
        invariant
            n == chars@.len(),
            chars@ == f@,
            i <= n,
            c <= i,
            placeholder_count(f@) == c + placeholder_count(f@.skip(i as int)),
        decreases n - i,
    {
        let ghost rest = f@.skip(i as int);
        if i + 1 < n && ((chars[i] == '{' && chars[i + 1] == '{') || (chars[i] == '}' && chars[i
            + 1] == '}')) {
            i = i + 2;
            assert(rest.skip(2) =~= f@.skip(i as int));
        } else if i + 1 < n && chars[i] == '{' && chars[i + 1] == '}' {
            i = i + 2;
            c = c + 1;
            assert(rest.skip(2) =~= f@.skip(i as int));
        } else {
            i = i + 1;
            assert(rest.skip(1) =~= f@.skip(i as int));
        }
    }
    c
}

/// Reads `${name}` from its `$` at `i`.
fn binding_at(s: &Vec<char>, i: usize, env: &Vec<(Vec<char>, String)>) -> (r: Result<
    (String, usize),
    TemplateSyntaxError,
>)
    requires
        s@.len() <= usize::MAX,
        i < s@.len(),
    ensures
        res_str(r) == p_binding(s@, i as int, env_view(env@)),
        ends_within(r, s@.len() as int),
{
    let j = skip_space_at(s, i + 1);
    if !at_char(s, j, '{') {
        return Err(make_err(j, Expected::OpenBrace));
    }
    let k = skip_space_at(s, j + 1);
    if !(k < s.len() && ident_start_char(s[k])) {
        return Err(make_err(k, Expected::BindingName));
    }
    let e = ident_end_at(s, k);
    let m = skip_space_at(s, e);
    if !at_char(s, m, '}') {
        return Err(make_err(m, Expected::CloseBrace));
    }
    match lookup_at(env, s, k, e) {
        Some(v) => Ok((v, m + 1)),
        None => Err(make_err(k, Expected::KnownBinding)),
    }
}

/// Reads an attribute value at `i`.
fn attr_value_at(s: &Vec<char>, i: usize, env: &Vec<(Vec<char>, String)>) -> (r: Result<
    (AttrValue, usize),
    TemplateSyntaxError,
>)
    requires
        s@.len() <= usize::MAX,
        i <= s@.len(),
    ensures
        res_attr(r) == p_attr_value(s@, i as int, env_view(env@)),
        ends_within(r, s@.len() as int),
{
    if at_char(s, i, '"') {
        match str_body_at(s, i + 1) {
            Ok((v, e)) => Ok((AttrValue::Str(v), e)),
            Err(x) => Err(x),
        }
    } else if at_char(s, i, '$') {
        match binding_at(s, i, env) {
            Ok((v, e)) => Ok((AttrValue::Expr(v), e)),
            Err(x) => Err(x),
        }
    } else {
        Err(make_err(i, Expected::AttrValue))
    }
}

/// Reads one format argument at `i`.
fn arg_at(s: &Vec<char>, i: usize, env: &Vec<(Vec<char>, String)>) -> (r: Result<
    (String, usize),
    TemplateSyntaxError,
>)
    requires
        s@.len() <= usize::MAX,
        i <= s@.len(),
    ensures
        res_str(r) == p_arg(s@, i as int, env_view(env@)),
        ends_within(r, s@.len() as int),
{
    if at_char(s, i, '"') {
        str_body_at(s, i + 1)
    } else if i < s.len() && ident_start_char(s[i]) {
        let e = ident_end_at(s, i);
        match lookup_at(env, s, i, e) {
            Some(v) => Ok((v, e)),
            None => Err(make_err(i, Expected::KnownBinding)),
        }
    } else {
        Err(make_err(i, Expected::FormatArg))
    }
}

/// Reads the format arguments after index `k` up to the closing `)`.
fn args_at(s: &Vec<char>, k: usize, env: &Vec<(Vec<char>, String)>) -> (r: Result<
    (Vec<String>, usize),
    TemplateSyntaxError,
>)
    requires
        s@.len() <= usize::MAX,
        k <= s@.len(),
    ensures
        res_args(r) == p_args(s@, k as int, env_view(env@)),
        ends_within(r, s@.len() as int),
    decreases s@.len() - k,
{
    let j = skip_space_at(s, k);
    if at_char(s, j, ')') {
        let v: Vec<String> = Vec::new();
        assert(strings_view(v@) =~= Seq::<Seq<char>>::empty());
        return Ok((v, j + 1));
    }
    if !at_char(s, j, ',') {
        return Err(make_err(j, Expected::Comma));
    }
    let a = skip_space_at(s, j + 1);
    if at_char(s, a, ')') {
        let v: Vec<String> = Vec::new();
        assert(strings_view(v@) =~= Seq::<Seq<char>>::empty());
        return Ok((v, a + 1));
    }
    match arg_at(s, a, env) {
        Err(x) => Err(x),
        Ok((v, e)) => {
            if !(k < e && e <= s.len()) {
                return Err(make_err(a, Expected::FormatArg));
            }
            match args_at(s, e, env) {
                Err(x) => Err(x),
                Ok((rest, end)) => {
                    let ghost vv = v@;
                    let ghost rv = strings_view(rest@);
                    let mut all = rest;
                    all.insert(0, v);
                    assert(strings_view(all@) =~= seq![vv] + rv);
                    Ok((all, end))
                },
            }
        },
    }
}

/// Reads `(format, args...)` from its `(` at `i`.
fn format_at(s: &Vec<char>, i: usize, env: &Vec<(Vec<char>, String)>) -> (r: Result<
    (Text, usize),
    TemplateSyntaxError,
>)
    requires
        s@.len() <= usize::MAX,
        i < s@.len(),
    ensures
        res_text(r) == p_format(s@, i as int, env_view(env@)),
        ends_within(r, s@.len() as int),
{
    let j = skip_space_at(s, i + 1);
    if !at_char(s, j, '"') {
        return Err(make_err(j, Expected::FormatString));
    }
    match str_body_at(s, j + 1) {
        Err(x) => Err(x),
        Ok((f, k)) => match args_at(s, k, env) {
            Err(x) => Err(x),
            Ok((args, end)) => {
                if count_placeholders(&f) == args.len() {
                    Ok((Text::Format(f, args), end))
                } else {
                    Err(make_err(i, Expected::PlaceholderCount))
                }
            },
        },
    }
}

/// Reads a text at `i`.
fn text_at(s: &Vec<char>, i: usize, env: &Vec<(Vec<char>, String)>, nested: bool) -> (r: Result<
    (Text, usize),
    TemplateSyntaxError,
>)
    requires
        s@.len() <= usize::MAX,
        i <= s@.len(),
    ensures
        res_text(r) == p_text(s@, i as int, env_view(env@), nested),
        ends_within(r, s@.len() as int),
{
    if at_char(s, i, '"') {
        match str_body_at(s, i + 1) {
            Ok((v, e)) => Ok((Text::Str(v), e)),
            Err(x) => Err(x),
        }
    } else if at_char(s, i, '$') {
        match binding_at(s, i, env) {
            Ok((v, e)) => Ok((Text::Expr(v), e)),
            Err(x) => Err(x),
        }
    } else if at_char(s, i, '(') {
        format_at(s, i, env)
    } else if at_char(s, i, '{') {
        if nested {
            Err(make_err(i, Expected::AttributeFirst))
        } else {
            Err(make_err(i, Expected::ElementName))
        }
    } else {
        Err(make_err(i, Expected::Node))
    }
}

/// Reads the optional attribute of an element whose body starts at `k`.
fn attr_at(s: &Vec<char>, k: usize, env: &Vec<(Vec<char>, String)>) -> (r: Result<
    (Option<AttrValue>, usize),
    TemplateSyntaxError,
>)
    requires
        s@.len() <= usize::MAX,
        k <= s@.len(),
    ensures
        res_opt_attr(r) == p_attr(s@, k as int, env_view(env@)),
        ends_within(r, s@.len() as int),
{
    if !at_char(s, k, '{') {
        return Ok((None, k));
    }
    let k2 = skip_space_at(s, k + 1);
    match attr_value_at(s, k2, env) {
        Err(x) => Err(x),
        Ok((a, m)) => {
            let m2 = skip_space_at(s, m);
            if !at_char(s, m2, '}') {
                return Err(make_err(m2, Expected::CloseBrace));
            }
            let k3 = skip_space_at(s, m2 + 1);
            if at_char(s, k3, ',') {
                Ok((Some(a), skip_space_at(s, k3 + 1)))
            } else {
                Ok((Some(a), k3))
            }
        },
    }
}

/// Whether a list ends at `i`.
fn list_ends_at(s: &Vec<char>, i: usize, nested: bool) -> (r: bool)
    ensures
        r == list_ends(s@, i as int, nested),
{
    if nested {
        at_char(s, i, '}')
    } else {
        i >= s.len()
    }
}

/// Reads an element whose name starts at `i`.
fn element_at(s: &Vec<char>, i: usize, env: &Vec<(Vec<char>, String)>) -> (r: Result<
    (Node, usize),
    TemplateSyntaxError,
>)
    requires
        s@.len() <= usize::MAX,
        i <= s@.len(),
    ensures
        res_node(r) == p_element(s@, i as int, env_view(env@)),
        ends_within(r, s@.len() as int),
    decreases s@.len() - i, 0int,
{
    let e = ident_end_at(s, i);
    let j = skip_space_at(s, e);
    if !at_char(s, j, '{') {
        return Err(make_err(j, Expected::OpenBrace));
    }
    let k = skip_space_at(s, j + 1);
    match attr_at(s, k, env) {
        Err(x) => Err(x),
        Ok((attr, c)) => {
            if !(i < c && c <= s.len()) {
                return Err(make_err(i, Expected::Node));
            }
            let name = string_of_range(s.as_slice(), i, e);
            if at_char(s, c, '/') {
                let d = skip_space_at(s, c + 1);
                if at_char(s, d, '}') {
                    Ok((Node::Element(Element { name, attr, children: ElementChildren::SelfClose }), d + 1))
                } else {
                    Err(make_err(d, Expected::CloseBrace))
                }
            } else {
                match list_at(s, c, env, true) {
                    Err(x) => Err(x),
                    Ok((kids, d)) => {
                        let r = Node::Element(
                            Element { name, attr, children: ElementChildren::Nodes(kids) },
                        );
                        Ok((r, d + 1))
                    },
                }
            }
        },
    }
}

/// Reads a node at `i`.
fn node_at(s: &Vec<char>, i: usize, env: &Vec<(Vec<char>, String)>, nested: bool) -> (r: Result<
    (Node, usize),
    TemplateSyntaxError,
>)
    requires
        s@.len() <= usize::MAX,
        i <= s@.len(),
    ensures
        res_node(r) == p_node(s@, i as int, env_view(env@), nested),
        ends_within(r, s@.len() as int),
    decreases s@.len() - i, 1int,
{
    if i < s.len() && ident_start_char(s[i]) {
        element_at(s, i, env)
    } else {
        match text_at(s, i, env, nested) {
            Ok((t, e)) => Ok((Node::Text(t), e)),
            Err(x) => Err(x),
        }
    }
}

/// Reads a comma-separated list of nodes from `i` to its end.
fn list_at(s: &Vec<char>, i: usize, env: &Vec<(Vec<char>, String)>, nested: bool) -> (r: Result<
    (Vec<Node>, usize),
    TemplateSyntaxError,
>)
    requires
        s@.len() <= usize::MAX,
        i <= s@.len(),
    ensures
        res_nodes(r) == p_list(s@, i as int, env_view(env@), nested),
        r matches Ok((_, e)) ==> e <= s@.len() && list_ends(s@, e as int, nested),
    decreases s@.len() - i, 2int,
{
    if list_ends_at(s, i, nested) {
        let v: Vec<Node> = Vec::new();
        assert(all_models(v@) =~= Seq::<NodeModel>::empty());
        return Ok((v, i));
    }
    match node_at(s, i, env, nested) {
        Err(x) => Err(x),
        Ok((n, k)) => {
            let j = skip_space_at(s, k);
            if list_ends_at(s, j, nested) {
                let mut v: Vec<Node> = Vec::new();
                let ghost nm = node_model(n);
                v.push(n);
                proof {
                    lemma_all_models_cons(v@[0], Seq::<Node>::empty());
                    assert(seq![v@[0]] + Seq::<Node>::empty() =~= v@);
                    assert(all_models(Seq::<Node>::empty()) =~= Seq::<NodeModel>::empty());
                    assert(seq![nm] + Seq::<NodeModel>::empty() =~= seq![nm]);
                }
                return Ok((v, j));
            }
            if !at_char(s, j, ',') {
                return Err(make_err(j, Expected::Comma));
            }
            let a = skip_space_at(s, j + 1);
            if !(i < a && a <= s.len()) {
                return Err(make_err(i, Expected::Node));
            }
            match list_at(s, a, env, nested) {
                Err(x) => Err(x),
                Ok((rest, end)) => {
                    let ghost rs = rest@;
                    let ghost nn = n;
                    let mut all = rest;
                    all.insert(0, n);
                    proof {
                        assert(all@ =~= seq![nn] + rs);
                        lemma_all_models_cons(nn, rs);
                    }
                    Ok((all, end))
                },
            }
        },
    }
}

/// Reads the bindings into the form that lookups use.
fn read_bindings(bindings: &Vec<(String, String)>) -> (r: Vec<(Vec<char>, String)>)
    ensures
        env_view(r@) == bindings_view(bindings@),
{
    let mut r: Vec<(Vec<char>, String)> = Vec::new();
    let mut i: usize = 0;
    while i < bindings.len()
        invariant
            i <= bindings@.len(),
            r@.len() == i,
            env_view(r@) == bindings_view(bindings@).take(i as int),
        decreases bindings@.len() - i,
    {
        let name = chars_of(bindings[i].0.as_str());
        let value = bindings[i].1.clone();
        assert(name@ == bindings@[i as int].0@ && value@ == bindings@[i as int].1@);
        let ghost before = r@;
        r.push((name, value));
        i = i + 1;
        assert(env_view(r@) =~= bindings_view(bindings@).take(i as int)) by {
            assert(r@ == before.push((name, value)));
            assert forall|q: int| 0 <= q < i implies #[trigger] env_view(r@)[q] == bindings_view(
                bindings@,
            ).take(i as int)[q] by {
                if q < i - 1 {
                    assert(r@[q] == before[q]);
                }
            }
        }
    }
    assert(bindings_view(bindings@).take(i as int) =~= bindings_view(bindings@));
    r
}

/// Builds the nodes of a template. `bindings` gives, by name, the text of
/// each value that `${name}` or a format argument refers to.
pub fn parse(template: &str, bindings: &Vec<(String, String)>) -> (r: Result<
    Vec<Node>,
    TemplateSyntaxError,
>)
    ensures
        match r {
            Ok(v) => parse_template(template@, bindings_view(bindings@)) == Ok::<
                Seq<NodeModel>,
                TemplateSyntaxError,
            >(all_models(v@)),
            Err(x) => parse_template(template@, bindings_view(bindings@)) == Err::<
                Seq<NodeModel>,
                TemplateSyntaxError,
            >(x),
        },
{
    let s = chars_of(template);
    let n = s.len();
    assert(s@.len() <= usize::MAX);
    let env = read_bindings(bindings);
    let start = skip_space_at(&s, 0);
    match list_at(&s, start, &env, false) {
        Ok((nodes, _)) => Ok(nodes),
        Err(x) => Err(x),
    }
}

/// Renders a template: the bracket-tag text of its nodes, one after
/// another. `bindings` gives, by name, the text of each value that the
/// template refers to. A template that does not follow the syntax is
/// rejected, with where and what went wrong.
pub fn bbx(template: &str, bindings: &Vec<(String, String)>) -> (r: Result<
    String,
    TemplateSyntaxError,
>)
    ensures
        match parse_template(template@, bindings_view(bindings@)) {
            Ok(ms) => r matches Ok(out) && out@ == render_seq(ms),
            Err(x) => r == Err::<String, TemplateSyntaxError>(x),
        },
{
    match parse(template, bindings) {
        Ok(nodes) => Ok(render_nodes(&nodes)),
        Err(x) => Err(x),
    }
}

} // verus!
