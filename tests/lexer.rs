use tm_bbcode::{parse_bbcode, Lexer, Scanner, TagHead, TagTail, Token};

fn source_of(t: &Token) -> String {
    match t {
        Token::Head(TagHead { name, attr: Some(a) }) => format!("[{}={}]", name, a),
        Token::Head(TagHead { name, attr: None }) => format!("[{}]", name),
        Token::Tail(TagTail { name }) => format!("[/{}]", name),
        Token::Text(s) => s.clone(),
    }
}

fn text(t: &Token) -> Option<&str> {
    match t {
        Token::Text(s) => Some(s.as_str()),
        _ => None,
    }
}

fn head(t: &Token) -> Option<(&str, Option<&str>)> {
    match t {
        Token::Head(h) => Some((h.name.as_str(), h.attr.as_deref())),
        _ => None,
    }
}

fn tail(t: &Token) -> Option<&str> {
    match t {
        Token::Tail(t) => Some(t.name.as_str()),
        _ => None,
    }
}

#[test]
fn round_trip_concatenation() {
    let inputs = [
        "",
        "hello world",
        "[b]bold[/b]",
        "[url=https://a.b/c?x=1]link[/url] tail",
        "[abc[def]",
        "[[[]]]",
        "a]b[c",
        "[/",
        "[",
        "]",
        "中文[color=Red]红[/color]字",
        "[td=30]楼层[/td][td]x[/td",
    ];
    for input in inputs {
        let tokens = parse_bbcode(input);
        let joined: String = tokens.iter().map(source_of).collect();
        assert_eq!(joined, input);
    }
}

#[test]
fn malformed_bracket_falls_back_to_text() {
    let tokens = parse_bbcode("[abc[def]");
    assert_eq!(tokens.len(), 2);
    assert_eq!(text(&tokens[0]), Some("[abc"));
    assert_eq!(head(&tokens[1]), Some(("def", None)));
}

#[test]
fn unclosed_tail_falls_back_to_text() {
    let tokens = parse_bbcode("[/ab[/b]");
    assert_eq!(tokens.len(), 2);
    assert_eq!(text(&tokens[0]), Some("[/ab"));
    assert_eq!(tail(&tokens[1]), Some("b"));
}

#[test]
fn plain_text_is_one_token() {
    let tokens = parse_bbcode("hello world");
    assert_eq!(tokens.len(), 1);
    assert_eq!(text(&tokens[0]), Some("hello world"));
}

#[test]
fn empty_input_has_no_tokens() {
    assert!(parse_bbcode("").is_empty());
}

#[test]
fn head_tail_and_text() {
    let tokens = parse_bbcode("[url=a=b]x[/url]");
    assert_eq!(tokens.len(), 3);
    assert_eq!(head(&tokens[0]), Some(("url", Some("a=b"))));
    assert_eq!(text(&tokens[1]), Some("x"));
    assert_eq!(tail(&tokens[2]), Some("url"));
}

#[test]
fn empty_names() {
    let tokens = parse_bbcode("[][/][=]");
    assert_eq!(tokens.len(), 3);
    assert_eq!(head(&tokens[0]), Some(("", None)));
    assert_eq!(tail(&tokens[1]), Some(""));
    assert_eq!(head(&tokens[2]), Some(("", Some(""))));
}

#[test]
fn lone_brackets() {
    let tokens = parse_bbcode("a[");
    assert_eq!(tokens.len(), 2);
    assert_eq!(text(&tokens[0]), Some("a"));
    assert_eq!(text(&tokens[1]), Some("["));

    let tokens = parse_bbcode("a]b");
    assert_eq!(tokens.len(), 1);
    assert_eq!(text(&tokens[0]), Some("a]b"));

    let tokens = parse_bbcode("[b");
    assert_eq!(tokens.len(), 1);
    assert_eq!(text(&tokens[0]), Some("[b"));
}

#[test]
fn characters_not_bytes() {
    let tokens = parse_bbcode("中[色=红]文");
    assert_eq!(tokens.len(), 3);
    assert_eq!(text(&tokens[0]), Some("中"));
    assert_eq!(head(&tokens[1]), Some(("色", Some("红"))));
    assert_eq!(text(&tokens[2]), Some("文"));
}

#[test]
fn lexer_scans_in_steps() {
    let mut lexer = Lexer::new("[b]x[/b]");
    assert!(lexer.tokens().is_empty());
    lexer.scan();
    assert_eq!(lexer.tokens().len(), 3);
    lexer.scan();
    assert_eq!(lexer.tokens().len(), 3);
}

#[test]
fn scanner_moves() {
    let mut s = Scanner::new("ab中");
    assert_eq!(s.position(), 0);
    assert!(!s.done());
    assert_eq!(s.curr(), Some(&'a'));
    assert_eq!(s.peek(), Some(&'b'));
    assert_eq!(s.next(), Some('a'));
    assert_eq!(s.next(), Some('b'));
    assert_eq!(s.peek(), None);
    assert_eq!(s.curr(), Some(&'中'));
    assert_eq!(s.next(), Some('中'));
    assert_eq!(s.next(), None);
    assert_eq!(s.position(), 3);
    assert!(!s.done());
    s.back();
    assert_eq!(s.position(), 2);
    assert_eq!(s.get_range(0, 2), &['a', 'b']);

}

#[test]
fn scanner_back_stays_at_start() {
    let mut s = Scanner::new("x");
    s.back();
    assert_eq!(s.position(), 0);
    assert_eq!(s.curr(), Some(&'x'));
}
