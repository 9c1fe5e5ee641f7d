use tm_bbcode::{
    bbcode_to_string, generate_find_post_link, BBCodeItem, Bold, Color, Platform, PlatformValue,
    Table, TableData, TableRow, Url, WebColor,
};

fn text(s: &str) -> BBCodeItem {
    BBCodeItem::Text(s.to_string())
}

#[test]
fn empty_table() {
    assert_eq!(bbcode_to_string(&Table::empty()), "[table][/table]");
}

#[test]
fn table_of_rows() {
    let table = Table::new(vec![TableRow::new(vec![
        TableData::with_size(30, vec![text("楼层")]),
        TableData::with_size(110, vec![text("ID")]),
        TableData::no_size(vec![text("参与情况")]),
    ])]);
    assert_eq!(
        bbcode_to_string(&table),
        "[table][tr][td=30]楼层[/td][td=110]ID[/td][td]参与情况[/td][/tr][/table]"
    );
}

#[test]
fn cell_widths() {
    assert_eq!(bbcode_to_string(&TableData::new(Some(0), vec![])), "[td=0][/td]");
    assert_eq!(bbcode_to_string(&TableData::new(Some(1234567), vec![])), "[td=1234567][/td]");
    assert_eq!(bbcode_to_string(&TableData::new(None, vec![text("x")])), "[td]x[/td]");
}

#[test]
fn link_and_color() {
    let url = Url::new(
        generate_find_post_link("42"),
        vec![BBCodeItem::Color(Color::new(WebColor::DarkRed, vec![text("A组#3")]))],
    );
    assert_eq!(
        bbcode_to_string(&url),
        "[url=forum.php?mod=redirect&goto=findpost&pid=42][color=DarkRed]A组#3[/color][/url]"
    );
}

#[test]
fn bold_and_nested_items() {
    let bold = Bold(vec![text("a"), BBCodeItem::Table(Table::empty()), text("b")]);
    assert_eq!(bbcode_to_string(&bold), "[b]a[table][/table]b[/b]");
    let items = vec![BBCodeItem::Bold(Bold(vec![])), text("x")];
    assert_eq!(bbcode_to_string(&items), "[b][/b]x");
}

#[test]
fn color_names() {
    assert_eq!(WebColor::LemonChiffon.to_string(), "LemonChiffon");
    assert_eq!(WebColor::Black.to_string(), "Black");
    assert_eq!(WebColor::Custom("#cc0000".to_string()).to_string(), "#cc0000");
    let c = Color::new(WebColor::Custom("rgb(255, 0, 0)".to_string()), vec![text("r")]);
    assert_eq!(bbcode_to_string(&c), "[color=rgb(255, 0, 0)]r[/color]");
}

#[test]
fn find_post_link() {
    assert_eq!(generate_find_post_link("123"), "forum.php?mod=redirect&goto=findpost&pid=123");
    assert_eq!(generate_find_post_link(""), "forum.php?mod=redirect&goto=findpost&pid=");
}

#[test]
fn platform_from_string() {
    assert_eq!(PlatformValue::StringValue("-1".to_string()).platform(), Platform::WebMobile);
    assert_eq!(PlatformValue::StringValue("0".to_string()).platform(), Platform::Unknown);
    assert_eq!(PlatformValue::StringValue("1".to_string()).platform(), Platform::Android);
    assert_eq!(PlatformValue::StringValue("2".to_string()).platform(), Platform::Ios);
    assert_eq!(PlatformValue::StringValue("3".to_string()).platform(), Platform::Unknown);
    assert_eq!(PlatformValue::StringValue("".to_string()).platform(), Platform::Unknown);
}

#[test]
fn platform_from_int() {
    assert_eq!(PlatformValue::IntValue(-1).platform(), Platform::WebMobile);
    assert_eq!(PlatformValue::IntValue(0).platform(), Platform::Unknown);
    assert_eq!(PlatformValue::IntValue(1).platform(), Platform::Android);
    assert_eq!(PlatformValue::IntValue(2).platform(), Platform::Ios);
    assert_eq!(PlatformValue::IntValue(99).platform(), Platform::Unknown);
}
