use tm_bbcode::{bbx, parse, Expected, Node, TemplateSyntaxError};

fn no_bindings() -> Vec<(String, String)> {
    vec![]
}

fn bind(pairs: &[(&str, &str)]) -> Vec<(String, String)> {
    pairs.iter().map(|(k, v)| (k.to_string(), v.to_string())).collect()
}

fn render(template: &str) -> String {
    bbx(template, &no_bindings()).unwrap()
}

fn error(template: &str, bindings: &Vec<(String, String)>) -> TemplateSyntaxError {
    match bbx(template, bindings) {
        Err(e) => e,
        Ok(s) => panic!("unexpected success: {s}"),
    }
}

#[test]
fn test_bbx() {
    let x = bbx(
        r#"url {
                {"a"},
                ("{}", foo),
            },
            italic {
                {"c"},
                 "d"
            }"#,
        &bind(&[("foo", "1")]),
    );
    assert_eq!(x.unwrap(), "[url=a]1[/url][italic=c]d[/italic]");
}

#[test]
fn attribute_placement() {
    assert_eq!(render(r#"tag{ {"x"}, "body" }"#), "[tag=x]body[/tag]");
}

#[test]
fn attribute_comma_is_optional() {
    assert_eq!(render(r#"url{ {"a"} "b" }"#), "[url=a]b[/url]");
}

#[test]
fn nesting() {
    assert_eq!(render(r#"outer{ inner{ "a" } }"#), "[outer][inner]a[/inner][/outer]");
}

#[test]
fn empty_element_and_self_closing() {
    assert_eq!(render("tag{}"), "[tag][/tag]");
    assert_eq!(render("tag{ / }"), "[tag]");
    assert_ne!(render("tag{}"), render("tag{ / }"));
}

#[test]
fn self_closing_with_attribute() {
    assert_eq!(render(r#"hr{ {"x"}, / }"#), "[hr=x]");
    assert_eq!(render(r#"hr{ {"x"} / }, "after""#), "[hr=x]after");
}

#[test]
fn open_element_ends_with_tail() {
    let out = render(r#"b{ {"y"} }"#);
    assert!(out.starts_with("[b=y]"));
    assert!(out.ends_with("[/b]"));
    assert_eq!(out, "[b=y][/b]");
}

#[test]
fn plain_text_children() {
    assert_eq!(render("b{}"), "[b][/b]");
    assert_eq!(render("url{}"), "[url][/url]");
    assert_eq!(render(r#"bold{"bold text"}"#), "[bold]bold text[/bold]");
    assert_eq!(render("bold {\n    \"bold text\"\n}"), "[bold]bold text[/bold]");
}

#[test]
fn mixed_children() {
    let out = render(
        r##"underline {
            "underline text",
            color {
                {"#cc0000"},
                "text colored #cc0000",
                bold {
                    "bold text colored #cc0000"
                }
            },
        },
        italic {
            "italic text"
        }"##,
    );
    assert_eq!(out, "[underline]underline text[color=#cc0000]text colored #cc0000[bold]bold text colored #cc0000[/bold][/color][/underline][italic]italic text[/italic]");
}

#[test]
fn bindings_and_format() {
    let b = bind(&[
        ("crates_io_url", "https://crates.io"),
        ("rust", "Rust"),
        ("package", "package"),
        ("registry", "registry"),
    ]);
    let out = bbx(
        r#"url { {${crates_io_url}} },
           italic { ("The {}", rust) },
           bold { ${package}, " ", ${ registry }, }"#,
        &b,
    )
    .unwrap();
    assert_eq!(out, "[url=https://crates.io][/url][italic]The Rust[/italic][bold]package registry[/bold]");
}

#[test]
fn format_escapes_and_literal_args() {
    let out = bbx(r#"p{ ("{{{}}} {} ok", "a", n,) }"#, &bind(&[("n", "7")])).unwrap();
    assert_eq!(out, "[p]{a} 7 ok[/p]");
}

#[test]
fn string_escapes() {
    assert_eq!(render(r#""a\"b\\c\nd\te""#), "a\"b\\c\nd\te");
}

#[test]
fn first_binding_wins() {
    let out = bbx("${x}", &bind(&[("x", "1"), ("x", "2")])).unwrap();
    assert_eq!(out, "1");
}

#[test]
fn empty_template() {
    assert_eq!(render(""), "");
    assert_eq!(render("  \n "), "");
}

#[test]
fn top_level_text_and_trailing_comma() {
    assert_eq!(render(r#""a", b{}, "c","#), "a[b][/b]c");
}

#[test]
fn parse_builds_tree() {
    let nodes = parse(r#"t{ {"v"}, "x", u{/} }"#, &no_bindings()).unwrap();
    assert_eq!(nodes.len(), 1);
    match &nodes[0] {
        Node::Element(e) => {
            assert_eq!(e.name, "t");
            assert!(e.attr.is_some());
        }
        Node::Text(_) => panic!("expected an element"),
    }
    assert_eq!(nodes[0].render(), "[t=v]x[u][/t]");
}

#[test]
fn error_node() {
    assert_eq!(error("tag{ 5 }", &no_bindings()), TemplateSyntaxError { position: 5, expected: Expected::Node });
}

#[test]
fn error_unclosed_element() {
    assert_eq!(error(r#"tag{ "a""#, &no_bindings()), TemplateSyntaxError { position: 8, expected: Expected::Comma });
    assert_eq!(error(r#"tag{ "a","#, &no_bindings()), TemplateSyntaxError { position: 9, expected: Expected::Node });
}

#[test]
fn error_open_brace() {
    assert_eq!(error("tag", &no_bindings()), TemplateSyntaxError { position: 3, expected: Expected::OpenBrace });
    assert_eq!(error("$x", &no_bindings()), TemplateSyntaxError { position: 1, expected: Expected::OpenBrace });
}

#[test]
fn error_close_brace() {
    assert_eq!(error(r#"t{ {"x" "y" }"#, &no_bindings()), TemplateSyntaxError { position: 8, expected: Expected::CloseBrace });
    assert_eq!(error("t{ / x }", &no_bindings()), TemplateSyntaxError { position: 5, expected: Expected::CloseBrace });
}

#[test]
fn error_comma() {
    assert_eq!(error(r#""a" "b""#, &no_bindings()), TemplateSyntaxError { position: 4, expected: Expected::Comma });
}

#[test]
fn error_attr_value() {
    assert_eq!(error("t{ {5} }", &no_bindings()), TemplateSyntaxError { position: 4, expected: Expected::AttrValue });
}

#[test]
fn error_binding_name() {
    assert_eq!(error("${ }", &no_bindings()), TemplateSyntaxError { position: 3, expected: Expected::BindingName });
}

#[test]
fn error_known_binding() {
    assert_eq!(error("${nope}", &no_bindings()), TemplateSyntaxError { position: 2, expected: Expected::KnownBinding });
    assert_eq!(error(r#"("{}", nope)"#, &no_bindings()), TemplateSyntaxError { position: 7, expected: Expected::KnownBinding });
}

#[test]
fn error_format_string() {
    assert_eq!(error("( x )", &no_bindings()), TemplateSyntaxError { position: 2, expected: Expected::FormatString });
}

#[test]
fn error_format_arg() {
    assert_eq!(error(r#"("{}", 5)"#, &no_bindings()), TemplateSyntaxError { position: 7, expected: Expected::FormatArg });
}

#[test]
fn error_placeholder_count() {
    assert_eq!(error(r#"("{} {}", a)"#, &bind(&[("a", "1")])), TemplateSyntaxError { position: 0, expected: Expected::PlaceholderCount });
}

#[test]
fn error_closing_quote() {
    assert_eq!(error("\"abc", &no_bindings()), TemplateSyntaxError { position: 4, expected: Expected::ClosingQuote });
}

#[test]
fn error_escape() {
    assert_eq!(error(r#""a\q""#, &no_bindings()), TemplateSyntaxError { position: 2, expected: Expected::Escape });
}

#[test]
fn error_element_name() {
    assert_eq!(error(r#"{"x"}"#, &no_bindings()), TemplateSyntaxError { position: 0, expected: Expected::ElementName });
}

#[test]
fn error_attribute_first() {
    assert_eq!(error(r#"tag{ "body", {"x"} }"#, &no_bindings()), TemplateSyntaxError { position: 13, expected: Expected::AttributeFirst });
}
