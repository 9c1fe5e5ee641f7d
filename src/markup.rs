//! The markup tree: elements with an optional attribute and ordered
//! children, and text leaves; rendering turns a tree into bracket-tag text.

use vstd::prelude::*;

use crate::text::push_char;
use crate::token::{CLOSE, EQUAL, OPEN, SLASH};

verus! {

broadcast use vstd::std_specs::vec::group_vec_axioms;

/// Value of an attribute.
pub enum AttrValue {
    /// A literal string.
    Str(String),
    /// The text form of an interpolated value.
    Expr(String),
}

/// Text content: a leaf of the tree.
pub enum Text {
    /// A literal string, emitted as it is.
    Str(String),
    /// The text form of an interpolated value.
    Expr(String),
    /// A format string whose `{}` placeholders take the given arguments in
    /// order; `{{` and `}}` stand for `{` and `}`.
    Format(String, Vec<String>),
}

/// Children of an element.
pub enum ElementChildren {
    /// Ordered child nodes, possibly none.
    Nodes(Vec<Node>),
    /// A self-closing element: no body and no closing tag.
    SelfClose,
}

/// A named tag: `[name=attr]children[/name]`.
pub struct Element {
    /// Tag name, emitted verbatim.
    pub name: String,
    /// Optional attribute, emitted as `=value` right after the name.
    pub attr: Option<AttrValue>,
    /// Children, or the self-closing marker.
    pub children: ElementChildren,
}

/// One unit of a template: a tag or inline text.
pub enum Node {
    /// A tag, which may hold other nodes.
    Element(Element),
    /// Plain text.
    Text(Text),
}

/// `f` with each `{}` replaced by the next argument; `{{` and `}}` stand for
/// single braces. A placeholder without an argument left, and any other
/// brace, stays as it is.
pub open spec fn format_positional(f: Seq<char>, args: Seq<Seq<char>>) -> Seq<char>
    decreases f.len(),
{
    if f.len() == 0 {
        Seq::empty()
    } else if f.len() >= 2 && f[0] == '{' && f[1] == '{' {
        seq!['{'] + format_positional(f.skip(2), args)
    } else if f.len() >= 2 && f[0] == '}' && f[1] == '}' {
        seq!['}'] + format_positional(f.skip(2), args)
    } else if f.len() >= 2 && f[0] == '{' && f[1] == '}' && args.len() > 0 {
        args[0] + format_positional(f.skip(2), args.drop_first())
    } else {
        seq![f[0]] + format_positional(f.skip(1), args)
    }
}

/// The views of a sequence of strings.
pub open spec fn strings_view(v: Seq<String>) -> Seq<Seq<char>> {
    v.map_values(|s: String| s@)
}

/// An attribute value as a mathematical value.
pub enum AttrModel {
    Str(Seq<char>),
    Expr(Seq<char>),
}

/// A text leaf as a mathematical value.
pub enum TextModel {
    Str(Seq<char>),
    Expr(Seq<char>),
    Format(Seq<char>, Seq<Seq<char>>),
}

/// A node as a mathematical value; `children` is `None` for a self-closing
/// element.
pub enum NodeModel {
    Element { name: Seq<char>, attr: Option<AttrModel>, children: Option<Seq<NodeModel>> },
    Text(TextModel),
}

pub open spec fn attr_model(a: AttrValue) -> AttrModel {
    match a {
        AttrValue::Str(s) => AttrModel::Str(s@),
        AttrValue::Expr(v) => AttrModel::Expr(v@),
    }
}

pub open spec fn opt_attr_model(a: Option<AttrValue>) -> Option<AttrModel> {
    match a {
        Some(v) => Some(attr_model(v)),
        None => None,
    }
}

pub open spec fn text_model(t: Text) -> TextModel {
    match t {
        Text::Str(s) => TextModel::Str(s@),
        Text::Expr(v) => TextModel::Expr(v@),
        Text::Format(f, args) => TextModel::Format(f@, strings_view(args@)),
    }
}

/// The mathematical value of a node.
pub open spec fn node_model(n: Node) -> NodeModel
    decreases n, 0int,
{
    match n {
        Node::Text(t) => NodeModel::Text(text_model(t)),
        Node::Element(e) => NodeModel::Element {
            name: e.name@,
            attr: opt_attr_model(e.attr),
            children: match e.children {
                ElementChildren::SelfClose => None,
                ElementChildren::Nodes(v) => Some(nodes_model(v@, v@.len() as int)),
            },
        },
    }
}

/// The mathematical values of the first `k` nodes of `s`.
pub open spec fn nodes_model(s: Seq<Node>, k: int) -> Seq<NodeModel>
    decreases s, k,
{
    if k <= 0 || k > s.len() {
        Seq::empty()
    } else {
        nodes_model(s, k - 1).push(node_model(s[k - 1]))
    }
}

/// The mathematical values of all nodes of `s`.
pub open spec fn all_models(s: Seq<Node>) -> Seq<NodeModel> {
    nodes_model(s, s.len() as int)
}

pub proof fn lemma_nodes_model(s: Seq<Node>, k: int)
    requires
        0 <= k <= s.len(),
    ensures
        nodes_model(s, k).len() == k,
        forall|j: int| 0 <= j < k ==> #[trigger] nodes_model(s, k)[j] == node_model(s[j]),
    decreases k,
{
    if k > 0 {
        lemma_nodes_model(s, k - 1);
    }
}

/// Putting a node in front of a sequence puts its value in front of the
/// values.
pub proof fn lemma_all_models_cons(n: Node, s: Seq<Node>)
    ensures
        all_models(seq![n] + s) == seq![node_model(n)] + all_models(s),
{
    let t = seq![n] + s;
    lemma_nodes_model(t, t.len() as int);
    lemma_nodes_model(s, s.len() as int);
    assert(all_models(t) =~= seq![node_model(n)] + all_models(s)) by {
        assert forall|j: int| 0 <= j < t.len() implies all_models(t)[j] == (seq![node_model(n)]
            + all_models(s))[j] by {
            if j > 0 {
                assert(t[j] == s[j - 1]);
            }
        }
    }
}

/// The rendered form of an attribute value.
pub open spec fn render_attr(a: AttrModel) -> Seq<char> {
    match a {
        AttrModel::Str(s) => s,
        AttrModel::Expr(v) => v,
    }
}

/// The rendered form of a text leaf.
pub open spec fn render_text(t: TextModel) -> Seq<char> {
    match t {
        TextModel::Str(s) => s,
        TextModel::Expr(v) => v,
        TextModel::Format(f, args) => format_positional(f, args),
    }
}

/// The head of an element: `[name]` or `[name=value]`.
pub open spec fn head_text(name: Seq<char>, attr: Option<AttrModel>) -> Seq<char> {
    match attr {
        Some(a) => seq![OPEN] + name + seq![EQUAL] + render_attr(a) + seq![CLOSE],
        None => seq![OPEN] + name + seq![CLOSE],
    }
}

/// The tail of an element: `[/name]`.
pub open spec fn tail_text(name: Seq<char>) -> Seq<char> {
    seq![OPEN, SLASH] + name + seq![CLOSE]
}

/// The rendered form of a node: a text as its text; an element as its head,
/// then, unless it is self-closing, its children and its tail.
pub open spec fn render(n: NodeModel) -> Seq<char>
    decreases n,
{
    match n {
        NodeModel::Text(t) => render_text(t),
        NodeModel::Element { name, attr, children } => match children {
            None => head_text(name, attr),
            Some(kids) => head_text(name, attr) + render_seq(kids) + tail_text(name),
        },
    }
}

/// The rendered forms of the nodes of `s`, in order, with nothing between
/// them.
pub open spec fn render_seq(s: Seq<NodeModel>) -> Seq<char>
    decreases s,
{
    if s.len() == 0 {
        Seq::empty()
    } else {
        render_seq(s.subrange(0, s.len() - 1)) + render(s[s.len() - 1])
    }
}

/// Appends `s` to `out`.
fn append_str(out: &mut String, s: &String)
    ensures
        final(out)@ == old(out)@ + s@,
{
    out.append(s.as_str());
}

impl AttrValue {
    /// Appends the rendered value to `out`.
    pub fn render_into(&self, out: &mut String)
        ensures
            final(out)@ == old(out)@ + render_attr(attr_model(*self)),
    {
        match self {
            AttrValue::Str(s) => append_str(out, s),
            AttrValue::Expr(v) => append_str(out, v),
        }
    }
}

/// Appends `format_positional(f, args)` to `out`.
fn format_into(out: &mut String, f: &String, args: &Vec<String>)
    ensures
        final(out)@ == old(out)@ + format_positional(f@, strings_view(args@)),
{
    let chars = crate::text::chars_of(f.as_str());
    let n = chars.len();
    let mut i: usize = 0;
    let mut a: usize = 0;
    let ghost start = out@;
    proof {
        assert(f@.skip(0) =~= f@);
        assert(strings_view(args@).skip(0) =~= strings_view(args@));
        assert(start =~= start + Seq::<char>::empty());
    }
    while i < n
        invariant
            n == chars@.len(),
            chars@ == f@,
            i <= n,
            a <= args@.len(),
            start + format_positional(f@, strings_view(args@)) == out@ + format_positional(
                f@.skip(i as int),
                strings_view(args@).skip(a as int),
            ),
        decreases n - i,
    {
        let ghost rest = f@.skip(i as int);
        let ghost ra = strings_view(args@).skip(a as int);
        let c = chars[i];
        if i + 1 < n && c == '{' && chars[i + 1] == '{' {
            push_char(out, '{');
            i = i + 2;
            proof {
                assert(rest.skip(2) =~= f@.skip(i as int));
            }
        } else if i + 1 < n && c == '}' && chars[i + 1] == '}' {
            push_char(out, '}');
            i = i + 2;
            proof {
                assert(rest.skip(2) =~= f@.skip(i as int));
            }
        } else if i + 1 < n && c == '{' && chars[i + 1] == '}' && a < args.len() {
            append_str(out, &args[a]);
            i = i + 2;
            a = a + 1;
            proof {
                assert(rest.skip(2) =~= f@.skip(i as int));
                assert(ra.drop_first() =~= strings_view(args@).skip(a as int));
                assert(ra[0] == args@[a - 1]@);
            }
        } else {
            push_char(out, c);
            i = i + 1;
            proof {
                assert(rest.skip(1) =~= f@.skip(i as int));
            }
        }
    }
}

impl Text {
    /// Appends the rendered text to `out`.
    pub fn render_into(&self, out: &mut String)
        ensures
            final(out)@ == old(out)@ + render_text(text_model(*self)),
    {
        match self {
            Text::Str(s) => append_str(out, s),
            Text::Expr(v) => append_str(out, v),
            Text::Format(f, args) => format_into(out, f, args),
        }
    }
}

/// Appends `[name]` or `[name=value]` to `out`.
fn head_into(out: &mut String, name: &String, attr: &Option<AttrValue>)
    ensures
        final(out)@ == old(out)@ + head_text(name@, opt_attr_model(*attr)),
{
    let ghost start = out@;
    push_char(out, OPEN);
    append_str(out, name);
    match attr {
        Some(a) => {
            push_char(out, EQUAL);
            a.render_into(out);
            push_char(out, CLOSE);
            assert(out@ =~= start + head_text(name@, opt_attr_model(*attr)));
        },
        None => {
            push_char(out, CLOSE);
            assert(out@ =~= start + head_text(name@, opt_attr_model(*attr)));
        },
    }
}

/// Appends `[/name]` to `out`.
fn tail_into(out: &mut String, name: &String)
    ensures
        final(out)@ == old(out)@ + tail_text(name@),
{
    let ghost start = out@;
    push_char(out, OPEN);
    push_char(out, SLASH);
    append_str(out, name);
    push_char(out, CLOSE);
    assert(out@ =~= start + tail_text(name@));
}

impl Node {
    /// Appends the rendered node to `out`.
    pub fn render_into(&self, out: &mut String)
        ensures
            final(out)@ == old(out)@ + render(node_model(*self)),
        decreases *self, 1int,
    {
        match self {
            Node::Text(t) => t.render_into(out),
            Node::Element(e) => {
                let ghost start = out@;
                head_into(out, &e.name, &e.attr);
                match &e.children {
                    ElementChildren::SelfClose => {},
                    ElementChildren::Nodes(v) => {
                        nodes_into(out, v);
                        tail_into(out, &e.name);
                        assert(out@ =~= start + render(node_model(*self)));
                    },
                }
            },
        }
    }

    /// The rendered node.
    pub fn render(&self) -> (r: String)
        ensures
            r@ == render(node_model(*self)),
    {
        let mut out = String::new();
        self.render_into(&mut out);
        assert(out@ =~= render(node_model(*self)));
        out
    }
}

/// Appends the rendered nodes of `v`, in order and with nothing between
/// them, to `out`.
pub fn nodes_into(out: &mut String, v: &Vec<Node>)
    ensures
        final(out)@ == old(out)@ + render_seq(all_models(v@)),
    decreases v@, 2int,
{
    let ghost start = out@;
    let mut i: usize = 0;
    assert(start =~= start + render_seq(nodes_model(v@, 0)));
    while i < v.len()
        invariant
            i <= v@.len(),
            out@ == start + render_seq(nodes_model(v@, i as int)),
        decreases v@.len() - i,
    {
        assert(decreases_to!(v@ => v@[i as int]));
        let ghost before = nodes_model(v@, i as int);
        v[i].render_into(out);
        i = i + 1;
        proof {
            let now = nodes_model(v@, i as int);
            assert(now == before.push(node_model(v@[i - 1])));
            assert(now.subrange(0, now.len() - 1) =~= before);
        }
        assert(out@ =~= start + render_seq(nodes_model(v@, i as int)));
    }
}

/// The rendered nodes of `v`, one after another: each top-level node in
/// order, with no separator.
pub fn render_nodes(v: &Vec<Node>) -> (r: String)
    ensures
        r@ == render_seq(all_models(v@)),
{
    let mut out = String::new();
    nodes_into(&mut out, v);
    assert(out@ =~= render_seq(all_models(v@)));
    out
}

/// A self-closing element renders as its head alone, `[name]` or
/// `[name=value]`: no body and no `[/name]`.
pub proof fn lemma_self_closing_is_head_only(name: Seq<char>, attr: Option<AttrModel>)
    ensures
        render(NodeModel::Element { name, attr, children: None }) == head_text(name, attr),
        attr is None ==> render(NodeModel::Element { name, attr, children: None }) == seq![OPEN]
            + name + seq![CLOSE],
        attr matches Some(a) ==> render(NodeModel::Element { name, attr, children: None })
            == seq![OPEN] + name + seq![EQUAL] + render_attr(a) + seq![CLOSE],
{
}

/// An element that is not self-closing, even one without children, renders
/// starting with its head and ending with its tail `[/name]`.
pub proof fn lemma_open_element_has_tail(
    name: Seq<char>,
    attr: Option<AttrModel>,
    kids: Seq<NodeModel>,
)
    ensures
        ({
            let r = render(NodeModel::Element { name, attr, children: Some(kids) });
            &&& head_text(name, attr).len() + tail_text(name).len() <= r.len()
            &&& r.subrange(0, head_text(name, attr).len() as int) == head_text(name, attr)
            &&& r.subrange(r.len() - tail_text(name).len(), r.len() as int) == tail_text(name)
        }),
{
    let h = head_text(name, attr);
    let b = render_seq(kids);
    let t = tail_text(name);
    let r = h + b + t;
    assert(r.subrange(0, h.len() as int) =~= h);
    assert(r.subrange(r.len() - t.len(), r.len() as int) =~= t);
}

/// An element with an empty list of children renders as `[name][/name]`,
/// a self-closing one as `[name]`: the two never render alike.
pub proof fn lemma_empty_differs_from_self_closing(name: Seq<char>, attr: Option<AttrModel>)
    ensures
        render(NodeModel::Element { name, attr, children: Some(Seq::empty()) }) == head_text(
            name,
            attr,
        ) + tail_text(name),
        render(NodeModel::Element { name, attr, children: None }) == head_text(name, attr),
        render(NodeModel::Element { name, attr, children: Some(Seq::empty()) }) != render(
            NodeModel::Element { name, attr, children: None },
        ),
{
    let h = head_text(name, attr);
    let t = tail_text(name);
    assert(h + Seq::<char>::empty() =~= h);
    assert((h + t).len() > h.len());
}

/// Rendering a sequence of nodes puts the renderings of its parts one after
/// another, with no separator.
pub proof fn lemma_render_seq_append(a: Seq<NodeModel>, b: Seq<NodeModel>)
    ensures
        render_seq(a + b) == render_seq(a) + render_seq(b),
    decreases b.len(),
{
    if b.len() == 0 {
        assert(a + b =~= a);
        assert(render_seq(a) + Seq::<char>::empty() =~= render_seq(a));
    } else {
        let ab = a + b;
        let b1 = b.subrange(0, b.len() - 1);
        lemma_render_seq_append(a, b1);
        assert(ab.subrange(0, ab.len() - 1) =~= a + b1);
        assert(ab[ab.len() - 1] == b[b.len() - 1]);
        assert(render_seq(a) + render_seq(b1) + render(b[b.len() - 1]) =~= render_seq(a) + (
        render_seq(b1) + render(b[b.len() - 1])));
    }
}

} // verus!
