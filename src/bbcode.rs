//! Markup value types: tables, rows, cells, bold text, links and colored
//! text, each rendering as its bracket tag around its children.

use vstd::prelude::*;

use crate::color::{color_name, WebColor};
use crate::text::push_char;

verus! {

broadcast use vstd::std_specs::vec::group_vec_axioms;

/// Anything that renders as markup text.
pub trait BBCode {
    /// The markup text of the value.
    spec fn bbcode(&self) -> Seq<char>;

    /// Appends the markup text of the value to `out`.
    fn to_bbcode(&self, out: &mut String)
        ensures
            final(out)@ == old(out)@ + self.bbcode(),
    ;
}

/// One piece of markup: plain text or a tag.
pub enum BBCodeItem {
    /// Plain text, emitted as it is.
    Text(String),
    /// `[table]...[/table]`.
    Table(Table),
    /// `[tr]...[/tr]`.
    Row(TableRow),
    /// `[td]...[/td]`.
    Data(TableData),
    /// `[b]...[/b]`.
    Bold(Bold),
    /// `[url=link]...[/url]`.
    Url(Url),
    /// `[color=name]...[/color]`.
    Color(Color),
}

/// Any sequence of markup pieces.
pub type AnyBBCode = Vec<BBCodeItem>;

/// Tag `[table][/table]`: a table of rows.
pub struct Table(pub Vec<TableRow>);

/// Tag `[tr][/tr]`: a table row of cells.
pub struct TableRow(pub Vec<TableData>);

/// Tag `[td][/td]` or `[td=width][/td]`: a table cell.
pub struct TableData {
    /// Optional width, emitted as `=width`.
    pub width: Option<usize>,
    /// Content of the cell.
    pub children: AnyBBCode,
}

/// Tag `[b][/b]`: bold text.
pub struct Bold(pub AnyBBCode);

/// Tag `[url=link][/url]`: a link.
pub struct Url {
    /// Link target.
    pub link: String,
    /// Linked content.
    pub children: AnyBBCode,
}

/// Tag `[color=name][/color]`: colored text.
pub struct Color {
    /// The color.
    pub color: WebColor,
    /// Colored content.
    pub children: AnyBBCode,
}

/// The decimal digits of `n`.
pub open spec fn decimal(n: nat) -> Seq<char>
    decreases n,
{
    if n < 10 {
        seq![digit(n)]
    } else {
        decimal(n / 10) + seq![digit(n % 10)]
    }
}

/// The digit character for `d < 10`.
pub open spec fn digit(d: nat) -> char {
    if d == 0 {
        '0'
    } else if d == 1 {
        '1'
    } else if d == 2 {
        '2'
    } else if d == 3 {
        '3'
    } else if d == 4 {
        '4'
    } else if d == 5 {
        '5'
    } else if d == 6 {
        '6'
    } else if d == 7 {
        '7'
    } else if d == 8 {
        '8'
    } else {
        '9'
    }
}

/// `open` + `body` + `close`.
pub open spec fn wrap(open: Seq<char>, body: Seq<char>, close: Seq<char>) -> Seq<char> {
    open + body + close
}

/// The markup text of one piece.
pub open spec fn item_text(i: BBCodeItem) -> Seq<char>
    decreases i, 0int,
{
    match i {
        BBCodeItem::Text(s) => s@,
        BBCodeItem::Table(t) => table_text(t),
        BBCodeItem::Row(r) => row_text(r),
        BBCodeItem::Data(d) => data_text(d),
        BBCodeItem::Bold(b) => wrap("[b]"@, items_text(b.0@, b.0@.len() as int), "[/b]"@),
        BBCodeItem::Url(u) => wrap(
            "[url="@ + u.link@ + "]"@,
            items_text(u.children@, u.children@.len() as int),
            "[/url]"@,
        ),
        BBCodeItem::Color(c) => wrap(
            "[color="@ + color_name(c.color) + "]"@,
            items_text(c.children@, c.children@.len() as int),
            "[/color]"@,
        ),
    }
}

/// The markup text of a table.
pub open spec fn table_text(t: Table) -> Seq<char>
    decreases t, 0int,
{
    wrap("[table]"@, rows_text(t.0@, t.0@.len() as int), "[/table]"@)
}

/// The markup text of a row.
pub open spec fn row_text(r: TableRow) -> Seq<char>
    decreases r, 0int,
{
    wrap("[tr]"@, datas_text(r.0@, r.0@.len() as int), "[/tr]"@)
}

/// The markup text of a cell.
pub open spec fn data_text(d: TableData) -> Seq<char>
    decreases d, 0int,
{
    let head = match d.width {
        Some(w) => "[td="@ + decimal(w as nat) + "]"@,
        None => "[td]"@,
    };
    wrap(head, items_text(d.children@, d.children@.len() as int), "[/td]"@)
}

/// The markup texts of the first `k` pieces of `s`, one after another.
pub open spec fn items_text(s: Seq<BBCodeItem>, k: int) -> Seq<char>
    decreases s, k,
{
    if k <= 0 || k > s.len() {
        Seq::empty()
    } else {
        items_text(s, k - 1) + item_text(s[k - 1])
    }
}

/// The markup texts of the first `k` rows of `s`, one after another.
pub open spec fn rows_text(s: Seq<TableRow>, k: int) -> Seq<char>
    decreases s, k,
{
    if k <= 0 || k > s.len() {
        Seq::empty()
    } else {
        rows_text(s, k - 1) + row_text(s[k - 1])
    }
}

/// The markup texts of the first `k` cells of `s`, one after another.
pub open spec fn datas_text(s: Seq<TableData>, k: int) -> Seq<char>
    decreases s, k,
{
    if k <= 0 || k > s.len() {
        Seq::empty()
    } else {
        datas_text(s, k - 1) + data_text(s[k - 1])
    }
}

/// A single piece renders as itself.
pub proof fn lemma_items_text_single(s: Seq<BBCodeItem>)
    requires
        s.len() == 1,
    ensures
        items_text(s, 1) == item_text(s[0]),
{
    assert(items_text(s, 1) == items_text(s, 0) + item_text(s[0]));
    assert(items_text(s, 0) + item_text(s[0]) =~= item_text(s[0]));
}

/// Appends a string slice to `out`.
pub(crate) fn put(out: &mut String, s: &str)
    ensures
        final(out)@ == old(out)@ + s@,
{
    out.append(s);
}

/// Appends the decimal digits of `n` to `out`.
pub(crate) fn put_decimal(out: &mut String, n: usize)
    ensures
        final(out)@ == old(out)@ + decimal(n as nat),
    decreases n,
{
    if n >= 10 {
        put_decimal(out, n / 10);
    }
    let d = n % 10;
    let c = if d == 0 {
        '0'
    } else if d == 1 {
        '1'
    } else if d == 2 {
        '2'
    } else if d == 3 {
        '3'
    } else if d == 4 {
        '4'
    } else if d == 5 {
        '5'
    } else if d == 6 {
        '6'
    } else if d == 7 {
        '7'
    } else if d == 8 {
        '8'
    } else {
        '9'
    };
    let ghost before = out@;
    push_char(out, c);
    proof {
        if n >= 10 {
            assert(out@ =~= old(out)@ + decimal(n as nat));
        } else {
            assert(out@ =~= old(out)@ + decimal(n as nat));
        }
    }
}

/// Appends the markup text of one piece to `out`.
fn item_into(out: &mut String, i: &BBCodeItem)
    ensures
        final(out)@ == old(out)@ + item_text(*i),
    decreases *i, 1int,
{
    let ghost start = out@;
    match i {
        BBCodeItem::Text(s) => put(out, s.as_str()),
        BBCodeItem::Table(t) => table_into(out, t),
        BBCodeItem::Row(r) => row_into(out, r),
        BBCodeItem::Data(d) => data_into(out, d),
        BBCodeItem::Bold(b) => {
            put(out, "[b]");
            items_into(out, &b.0);
            put(out, "[/b]");
            assert(out@ =~= start + item_text(*i));
        },
        BBCodeItem::Url(u) => {
            put(out, "[url=");
            put(out, u.link.as_str());
            put(out, "]");
            items_into(out, &u.children);
            put(out, "[/url]");
            assert(out@ =~= start + item_text(*i));
        },
        BBCodeItem::Color(c) => {
            put(out, "[color=");
            let name = c.color.to_string();
            put(out, name.as_str());
            put(out, "]");
            items_into(out, &c.children);
            put(out, "[/color]");
            assert(out@ =~= start + item_text(*i));
        },
    }
}

/// Appends the markup text of a table to `out`.
fn table_into(out: &mut String, t: &Table)
    ensures
        final(out)@ == old(out)@ + table_text(*t),
    decreases *t, 1int,
{
    let ghost start = out@;
    put(out, "[table]");
    let ghost mid = out@;
    let rows = &t.0;
    let mut k: usize = 0;
    assert(mid =~= mid + rows_text(rows@, 0));
    while k < rows.len()
        invariant
            k <= rows@.len(),
            rows == &t.0,
            out@ == mid + rows_text(rows@, k as int),
        decreases rows@.len() - k,
    {
        assert(decreases_to!(*t => rows@[k as int]));
        row_into(out, &rows[k]);
        k = k + 1;
        assert(out@ =~= mid + rows_text(rows@, k as int));
    }
    put(out, "[/table]");
    assert(out@ =~= start + table_text(*t));
}

/// Appends the markup text of a row to `out`.
fn row_into(out: &mut String, r: &TableRow)
    ensures
        final(out)@ == old(out)@ + row_text(*r),
    decreases *r, 1int,
{
    let ghost start = out@;
    put(out, "[tr]");
    let ghost mid = out@;
    let cells = &r.0;
    let mut k: usize = 0;
    assert(mid =~= mid + datas_text(cells@, 0));
    while k < cells.len()
        invariant
            k <= cells@.len(),
            cells == &r.0,
            out@ == mid + datas_text(cells@, k as int),
        decreases cells@.len() - k,
    {
        assert(decreases_to!(*r => cells@[k as int]));
        data_into(out, &cells[k]);
        k = k + 1;
        assert(out@ =~= mid + datas_text(cells@, k as int));
    }
    put(out, "[/tr]");
    assert(out@ =~= start + row_text(*r));
}

/// Appends the markup text of a cell to `out`.
fn data_into(out: &mut String, d: &TableData)
    ensures
        final(out)@ == old(out)@ + data_text(*d),
    decreases *d, 1int,
{
    let ghost start = out@;
    match d.width {
        Some(w) => {
            put(out, "[td=");
            put_decimal(out, w);
            put(out, "]");
        },
        None => put(out, "[td]"),
    }
    assert(decreases_to!(*d => d.children));
    items_into(out, &d.children);
    put(out, "[/td]");
    assert(out@ =~= start + data_text(*d));
}

/// Appends the markup texts of the pieces of `v`, in order, to `out`.
fn items_into(out: &mut String, v: &Vec<BBCodeItem>)
    ensures
        final(out)@ == old(out)@ + items_text(v@, v@.len() as int),
    decreases *v, 0int,
{
    let ghost start = out@;
    let mut k: usize = 0;
    assert(start =~= start + items_text(v@, 0));
    while k < v.len()
        invariant
            k <= v@.len(),
            out@ == start + items_text(v@, k as int),
        decreases v@.len() - k,
    {
        assert(decreases_to!(*v => v@[k as int]));
        item_into(out, &v[k]);
        k = k + 1;
        assert(out@ =~= start + items_text(v@, k as int));
    }
}

impl Table {
    /// A table of the given rows.
    pub fn new(rows: Vec<TableRow>) -> (r: Table)
        ensures
            r.0 == rows,
    {
        Table(rows)
    }

    /// A table without rows: `[table][/table]`.
    pub fn empty() -> (r: Table)
        ensures
            r.0@.len() == 0,
    {
        Table(vec![])
    }
}

impl TableRow {
    /// A row of the given cells.
    pub fn new(data: Vec<TableData>) -> (r: TableRow)
        ensures
            r.0 == data,
    {
        TableRow(data)
    }
}

impl TableData {
    /// A cell with an optional width.
    pub fn new(width: Option<usize>, children: AnyBBCode) -> (r: TableData)
        ensures
            r.width == width,
            r.children == children,
    {
        TableData { width, children }
    }

    /// A cell of the given width.
    pub fn with_size(width: usize, children: AnyBBCode) -> (r: TableData)
        ensures
            r.width == Some(width),
            r.children == children,
    {
        TableData { width: Some(width), children }
    }

    /// A cell without a width.
    pub fn no_size(children: AnyBBCode) -> (r: TableData)
        ensures
            r.width is None,
            r.children == children,
    {
        TableData { width: None, children }
    }
}

impl Url {
    /// A link to `link` around `children`.
    pub fn new(link: String, children: AnyBBCode) -> (r: Url)
        ensures
            r.link == link,
            r.children == children,
    {
        Url { link, children }
    }
}

impl Color {
    /// `children` in the color `color`.
    pub fn new(color: WebColor, children: AnyBBCode) -> (r: Color)
        ensures
            r.color == color,
            r.children == children,
    {
        Color { color, children }
    }
}

impl BBCode for BBCodeItem {
    open spec fn bbcode(&self) -> Seq<char> {
        item_text(*self)
    }

    fn to_bbcode(&self, out: &mut String) {
        item_into(out, self);
    }
}

impl BBCode for Vec<BBCodeItem> {
    open spec fn bbcode(&self) -> Seq<char> {
        items_text(self@, self@.len() as int)
    }

    fn to_bbcode(&self, out: &mut String) {
        items_into(out, self);
    }
}

impl BBCode for Table {
    open spec fn bbcode(&self) -> Seq<char> {
        table_text(*self)
    }

    fn to_bbcode(&self, out: &mut String) {
        table_into(out, self);
    }
}

impl BBCode for TableRow {
    open spec fn bbcode(&self) -> Seq<char> {
        row_text(*self)
    }

    fn to_bbcode(&self, out: &mut String) {
        row_into(out, self);
    }
}

impl BBCode for TableData {
    open spec fn bbcode(&self) -> Seq<char> {
        data_text(*self)
    }

    fn to_bbcode(&self, out: &mut String) {
        data_into(out, self);
    }
}

impl BBCode for Bold {
    open spec fn bbcode(&self) -> Seq<char> {
        wrap("[b]"@, items_text(self.0@, self.0@.len() as int), "[/b]"@)
    }

    fn to_bbcode(&self, out: &mut String) {
        let ghost start = out@;
        put(out, "[b]");
        items_into(out, &self.0);
        put(out, "[/b]");
        assert(out@ =~= start + self.bbcode());
    }
}

impl BBCode for Url {
    open spec fn bbcode(&self) -> Seq<char> {
        wrap(
            "[url="@ + self.link@ + "]"@,
            items_text(self.children@, self.children@.len() as int),
            "[/url]"@,
        )
    }

    fn to_bbcode(&self, out: &mut String) {
        let ghost start = out@;
        put(out, "[url=");
        put(out, self.link.as_str());
        put(out, "]");
        items_into(out, &self.children);
        put(out, "[/url]");
        assert(out@ =~= start + self.bbcode());
    }
}

impl BBCode for Color {
    open spec fn bbcode(&self) -> Seq<char> {
        wrap(
            "[color="@ + color_name(self.color) + "]"@,
            items_text(self.children@, self.children@.len() as int),
            "[/color]"@,
        )
    }

    fn to_bbcode(&self, out: &mut String) {
        let ghost start = out@;
        put(out, "[color=");
        let name = self.color.to_string();
        put(out, name.as_str());
        put(out, "]");
        items_into(out, &self.children);
        put(out, "[/color]");
        assert(out@ =~= start + self.bbcode());
    }
}

impl BBCode for String {
    open spec fn bbcode(&self) -> Seq<char> {
        self@
    }

    fn to_bbcode(&self, out: &mut String) {
        put(out, self.as_str());
    }
}

/// The markup text of a value.
pub fn bbcode_to_string<T: BBCode>(code: &T) -> (r: String)
    ensures
        r@ == code.bbcode(),
{
    let mut out = String::new();
    code.to_bbcode(&mut out);
    assert(out@ =~= code.bbcode());
    out
}

} // verus!
