//! The content tree of a post and the search for its first image link.
//!
//! A document keeps its nodes in one row, level by level: the root first,
//! then the root's children, then theirs. Each node names its children by
//! the place of the first and their number, so the tree is walked and built
//! with loops only, however deep it is.

use vstd::prelude::*;
use markup5ever_rcdom::NodeData;
use std::rc::Rc;
use crate::link::{image_address, normalize_url, text_of};
use crate::text::same_text;

verus! {

/// One attribute of an element.
#[derive(Debug, PartialEq, Eq)]
pub struct Attribute {
    pub name: String,
    pub value: String,
}

/// What a node is: an element with its tag and attributes, or anything else
/// (the document itself, text, a comment).
#[derive(Debug, PartialEq, Eq)]
pub enum NodeKind {
    Element { name: String, attrs: Vec<Attribute> },
    Other,
}

/// A node of a document: its kind, and its children as a span of the
/// document's row of nodes.
#[derive(Debug, PartialEq, Eq)]
pub struct HtmlNode {
    pub kind: NodeKind,
    /// Where the node's children start in the row.
    pub first_child: usize,
    /// How many children the node has.
    pub child_count: usize,
}

/// A parsed document: a tree of nodes, rooted at the first of its row.
#[derive(Debug, PartialEq, Eq)]
pub struct HtmlDocument {
    nodes: Vec<HtmlNode>,
}

/// An attribute as a value.
pub struct AttributeView {
    pub name: Seq<char>,
    pub value: Seq<char>,
}

/// The kind of a node as a value.
pub enum KindView {
    Element { name: Seq<char>, attrs: Seq<AttributeView> },
    Other,
}

/// A tree as a value: a node's kind and the trees of its children, in
/// document order.
pub struct NodeView {
    pub kind: KindView,
    pub children: Seq<NodeView>,
}

impl View for Attribute {
    type V = AttributeView;

    open spec fn view(&self) -> AttributeView {
        AttributeView { name: self.name@, value: self.value@ }
    }
}

/// The views of a row of attributes.
pub open spec fn attrs_view(attrs: Seq<Attribute>) -> Seq<AttributeView> {
    attrs.map_values(|a: Attribute| a@)
}

impl View for NodeKind {
    type V = KindView;

    open spec fn view(&self) -> KindView {
        match self {
            NodeKind::Element { name, attrs } => KindView::Element {
                name: name@,
                attrs: attrs_view(attrs@),
            },
            NodeKind::Other => KindView::Other,
        }
    }
}

/// The children of node `j` lie after it and within the row.
pub open spec fn in_range(nodes: Seq<HtmlNode>, j: int) -> bool {
    &&& 0 <= j < nodes.len()
    &&& j < nodes[j].first_child
    &&& nodes[j].first_child + nodes[j].child_count <= nodes.len()
}

/// The children of node `j` start where those of the node before it end.
pub open spec fn follows(nodes: Seq<HtmlNode>, j: int) -> bool {
    nodes[j].first_child == nodes[j - 1].first_child + nodes[j - 1].child_count
}

/// The row is a tree laid out level by level: the root's children start
/// right after the root, each node's children follow those of the node
/// before it, and the last span ends with the row. So every node but the
/// root is the child of exactly one node, which stands before it.
pub open spec fn linked(nodes: Seq<HtmlNode>) -> bool {
    &&& nodes.len() > 0
    &&& nodes[0].first_child == 1
    &&& forall|j: int| 0 <= j < nodes.len() ==> #[trigger] in_range(nodes, j)
    &&& forall|j: int| 0 < j < nodes.len() ==> #[trigger] follows(nodes, j)
    &&& nodes.last().first_child + nodes.last().child_count == nodes.len()
}

/// The tree below node `j` of the row.
pub open spec fn tree_at(nodes: Seq<HtmlNode>, j: int) -> NodeView
    decreases nodes.len() - j, 0nat,
{
    if in_range(nodes, j) {
        NodeView {
            kind: nodes[j].kind@,
            children: subtrees(nodes, nodes[j].first_child as int, nodes[j].child_count as nat),
        }
    } else {
        NodeView { kind: KindView::Other, children: Seq::empty() }
    }
}

/// The trees below the `count` nodes that start at `first`.
pub open spec fn subtrees(nodes: Seq<HtmlNode>, first: int, count: nat) -> Seq<NodeView>
    decreases nodes.len() - first, count + 1,
{
    if count == 0 || first < 0 || first + count > nodes.len() {
        Seq::empty()
    } else {
        subtrees(nodes, first, (count - 1) as nat).push(tree_at(nodes, first + count - 1))
    }
}

/// `subtrees` holds, position by position, the trees of the span.
pub proof fn lemma_subtrees(nodes: Seq<HtmlNode>, first: int, count: nat)
    requires
        0 <= first,
        first + count <= nodes.len(),
    ensures
        subtrees(nodes, first, count).len() == count,
        forall|k: int|
            0 <= k < count ==> #[trigger] subtrees(nodes, first, count)[k] == tree_at(
                nodes,
                first + k,
            ),
    decreases count,
{
    if count > 0 {
        lemma_subtrees(nodes, first, (count - 1) as nat);
    }
}

/// The first of two optional results.
pub open spec fn or_else(a: Option<Seq<char>>, b: Option<Seq<char>>) -> Option<Seq<char>> {
    if a is Some {
        a
    } else {
        b
    }
}

/// The image address of the first `href` attribute that has one.
pub open spec fn link_of_attrs(attrs: Seq<AttributeView>) -> Option<Seq<char>>
    decreases attrs.len(),
{
    if attrs.len() == 0 {
        None
    } else {
        let here = if attrs[0].name == "href"@ {
            image_address(attrs[0].value)
        } else {
            None
        };
        or_else(here, link_of_attrs(attrs.drop_first()))
    }
}

/// The image link that a node itself carries: that of an anchor element.
pub open spec fn link_at(kind: KindView) -> Option<Seq<char>> {
    match kind {
        KindView::Element { name, attrs } => if name == "a"@ {
            link_of_attrs(attrs)
        } else {
            None
        },
        KindView::Other => None,
    }
}

/// The first image link of the tree below `node` in document order: the
/// node's own, else the first one found among its children, left to right.
pub open spec fn first_link(node: NodeView) -> Option<Seq<char>>
    decreases node,
{
    or_else(link_at(node.kind), first_link_among(node.children))
}

/// The first image link of a row of trees, left to right.
pub open spec fn first_link_among(nodes: Seq<NodeView>) -> Option<Seq<char>>
    decreases nodes,
{
    if nodes.len() == 0 {
        None
    } else {
        or_else(first_link(nodes[0]), first_link_among(nodes.drop_first()))
    }
}

/// Number of nodes in the tree below `node`, itself included.
pub open spec fn node_count(node: NodeView) -> nat
    decreases node,
{
    1 + forest_count(node.children)
}

/// Number of nodes in a row of trees.
pub open spec fn forest_count(nodes: Seq<NodeView>) -> nat
    decreases nodes,
{
    if nodes.len() == 0 {
        0
    } else {
        node_count(nodes[0]) + forest_count(nodes.drop_first())
    }
}

/// Searching two rows one after the other is searching them joined.
pub proof fn lemma_first_link_among_concat(a: Seq<NodeView>, b: Seq<NodeView>)
    ensures
        first_link_among(a + b) == or_else(first_link_among(a), first_link_among(b)),
        forest_count(a + b) == forest_count(a) + forest_count(b),
    decreases a.len(),
{
    if a.len() == 0 {
        assert(a + b =~= b);
    } else {
        assert((a + b)[0] == a[0]);
        assert((a + b).drop_first() =~= a.drop_first() + b);
        lemma_first_link_among_concat(a.drop_first(), b);
    }
}

impl HtmlDocument {
    /// The nodes of a document always form a tree.
    #[verifier::type_invariant]
    pub closed spec fn wf(self) -> bool {
        linked(self.nodes@)
    }

    /// The document's row of nodes.
    pub closed spec fn records(self) -> Seq<HtmlNode> {
        self.nodes@
    }

    /// Makes a document of a row of nodes, if the row is a tree laid out
    /// level by level.
    pub fn from_nodes(nodes: Vec<HtmlNode>) -> (r: Option<HtmlDocument>)
        ensures
            r is Some <==> linked(nodes@),
            r matches Some(doc) ==> doc.records() == nodes@,
    {
        let n: usize = nodes.len();
        if n == 0 || nodes[0].first_child != 1 {
            return None;
        }
        let mut j: usize = 0;
        while j < n
            invariant
                j <= n,
                n == nodes@.len(),
                n > 0,
                nodes@[0].first_child == 1,
                forall|m: int| 0 <= m < j ==> #[trigger] in_range(nodes@, m),
                forall|m: int| 0 < m < j ==> #[trigger] follows(nodes@, m),
            decreases n - j,
        {
            let first: usize = nodes[j].first_child;
            let count: usize = nodes[j].child_count;
            if first <= j || first > n || count > n - first {
                assert(!in_range(nodes@, j as int));
                return None;
            }
            if j > 0 {
                assert(in_range(nodes@, j - 1));
                if first != nodes[j - 1].first_child + nodes[j - 1].child_count {
                    assert(!follows(nodes@, j as int));
                    return None;
                }
            }
            j += 1;
        }
        assert(in_range(nodes@, n - 1));
        if nodes[n - 1].first_child + nodes[n - 1].child_count != n {
            return None;
        }
        Some(HtmlDocument { nodes })
    }

    /// The document's row of nodes.
    pub fn nodes(&self) -> (r: &Vec<HtmlNode>)
        ensures
            r@ == self.records(),
    {
        &self.nodes
    }
}

impl View for HtmlDocument {
    type V = NodeView;

    open spec fn view(&self) -> NodeView {
        tree_at(self.records(), 0)
    }
}

/// The trees still to be searched, in the order in which they will be: the
/// top of the stack first.
spec fn pending(nodes: Seq<HtmlNode>, stack: Seq<usize>) -> Seq<NodeView> {
    Seq::new(stack.len(), |i: int| tree_at(nodes, stack[stack.len() - 1 - i] as int))
}

/// The image link that a node of kind `kind` itself carries, if it is an
/// anchor with a recognised `href`.
pub fn link_here(kind: &NodeKind) -> (r: Option<String>)
    ensures
        text_of(r) == link_at(kind@),
{
    match kind {
        NodeKind::Element { name, attrs } => {
            if same_text(name.as_str(), "a") {
                let ghost all = attrs_view(attrs@);
                let mut i: usize = 0;
                proof {
                    assert(all.skip(0) =~= all);
                }
                while i < attrs.len()
                    invariant
                        i <= attrs.len(),
                        all == attrs_view(attrs@),
                        link_at(kind@) == link_of_attrs(all),
                        link_of_attrs(all) == link_of_attrs(all.skip(i as int)),
                    decreases attrs.len() - i,
                {
                    let attr = &attrs[i];
                    proof {
                        let rest = all.skip(i as int);
                        assert(rest[0] == attr@);
                        assert(rest.drop_first() =~= all.skip(i + 1));
                        assert(link_of_attrs(rest) == or_else(
                            if attr@.name == "href"@ {
                                image_address(attr@.value)
                            } else {
                                None
                            },
                            link_of_attrs(all.skip(i + 1)),
                        ));
                    }
                    if same_text(attr.name.as_str(), "href") {
                        match normalize_url(attr.value.as_str()) {
                            Some(url) => {
                                return Some(url);
                            },
                            None => {},
                        }
                    }
                    i += 1;
                }
                None
            } else {
                None
            }
        },
        NodeKind::Other => None,
    }
}

/// Searches the document in document order, parents before their children,
/// and returns the first image link found. The search keeps its own stack
/// of nodes to visit, so its depth does not grow with the tree's.
pub fn walk_for_img(doc: &HtmlDocument) -> (r: Option<String>)
    ensures
        text_of(r) == first_link(doc@),
{
    proof {
        use_type_invariant(doc);
    }
    let nodes = &doc.nodes;
    assert(nodes@.len() == nodes.len());
    let mut stack: Vec<usize> = Vec::new();
    stack.push(0);
    proof {
        assert(pending(nodes@, stack@) =~= seq![doc@]);
        assert(seq![doc@].drop_first() =~= Seq::<NodeView>::empty());
        assert(first_link_among(Seq::<NodeView>::empty()) is None);
        assert(first_link_among(seq![doc@]) == or_else(
            first_link(doc@),
            first_link_among(Seq::<NodeView>::empty()),
        ));
    }
    while stack.len() > 0
        invariant
            linked(nodes@),
            nodes@.len() <= usize::MAX,
            doc@ == tree_at(nodes@, 0),
            forall|s: int| 0 <= s < stack@.len() ==> stack@[s] < nodes@.len(),
            first_link_among(pending(nodes@, stack@)) == first_link(tree_at(nodes@, 0)),
        decreases forest_count(pending(nodes@, stack@)),
    {
        let ghost before = pending(nodes@, stack@);
        let j: usize = stack.pop().unwrap();
        let node = &nodes[j];
        let ghost rest = pending(nodes@, stack@);
        let ghost here = tree_at(nodes@, j as int);
        proof {
            assert(in_range(nodes@, j as int));
            assert(before[0] == here);
            assert(before.drop_first() =~= rest);
            lemma_first_link_among_concat(here.children, rest);
            lemma_subtrees(nodes@, node.first_child as int, node.child_count as nat);
            assert(first_link_among(before) == or_else(first_link(here), first_link_among(rest)));
            assert(first_link(here) == or_else(link_at(here.kind), first_link_among(here.children)));
            assert(forest_count(before) == node_count(here) + forest_count(rest));
            assert(node_count(here) == 1 + forest_count(here.children));
        }
        match link_here(&node.kind) {
            Some(url) => {
                return Some(url);
            },
            None => {},
        }
        let mut k: usize = node.child_count;
        proof {
            assert(here.children.skip(k as int) + rest =~= rest);
        }
        while k > 0
            invariant
                k <= node.child_count,
                nodes@.len() <= usize::MAX,
                in_range(nodes@, j as int),
                node == nodes@[j as int],
                here == tree_at(nodes@, j as int),
                forall|s: int| 0 <= s < stack@.len() ==> stack@[s] < nodes@.len(),
                pending(nodes@, stack@) == here.children.skip(k as int) + rest,
            decreases k,
        {
            k -= 1;
            let ghost below = pending(nodes@, stack@);
            stack.push(node.first_child + k);
            proof {
                lemma_subtrees(nodes@, node.first_child as int, node.child_count as nat);
                assert(here.children[k as int] == tree_at(nodes@, node.first_child + k));
                assert(pending(nodes@, stack@) =~= seq![here.children[k as int]] + below);
                assert(pending(nodes@, stack@) =~= here.children.skip(k as int) + rest);
            }
        }
        proof {
            assert(here.children.skip(0) =~= here.children);
        }
    }
    None
}

/// A node of the tree that `markup5ever_rcdom` builds. Nothing of it is
/// known here but what `dom_tree` names.
#[verifier::external_type_specification]
#[verifier::external_body]
pub struct ExDomNode(markup5ever_rcdom::Node);

/// The tree that the HTML parser builds from the document `text`: the
/// document node at the root, below it the elements, texts and comments in
/// document order, each element with its local tag name and its attributes'
/// local names and values.
pub uninterp spec fn html_tree(text: Seq<char>) -> NodeView;

/// The tree below a node of the parser's own tree.
pub uninterp spec fn dom_tree(handle: Rc<markup5ever_rcdom::Node>) -> NodeView;

/// The trees below a row of the parser's nodes.
pub open spec fn dom_trees(handles: Seq<Rc<markup5ever_rcdom::Node>>) -> Seq<NodeView> {
    handles.map_values(|h: Rc<markup5ever_rcdom::Node>| dom_tree(h))
}

/// Parses `text` as an HTML document with `html5ever::parse_document`, fed
/// through its lossy UTF-8 decoder and built by `markup5ever_rcdom::RcDom`,
/// and returns the document node. The parser accepts every input; the
/// contract only names the tree it builds.
#[verifier::external_body]
fn parse_dom(text: &str) -> (root: Rc<markup5ever_rcdom::Node>)
    ensures
        dom_tree(root) == html_tree(text@),
{
    let sink = markup5ever_rcdom::RcDom::default();
    let parser = html5ever::parse_document(sink, html5ever::ParseOpts::default());
    let mut bytes = text.as_bytes();
    let dom = html5ever::tendril::TendrilSink::read_from(parser.from_utf8(), &mut bytes).unwrap();
    dom.document
}

/// Reads the kind of one of the parser's nodes: of an element its local
/// name and its attributes' local names and values, in order; of every
/// other node only that it is no element.
#[verifier::external_body]
fn node_kind(handle: &Rc<markup5ever_rcdom::Node>) -> (kind: NodeKind)
    ensures
        kind@ == dom_tree(*handle).kind,
{
    let attribute =
        |a: &html5ever::Attribute| Attribute { name: a.name.local.to_string(), value: a.value.to_string() };
    match &handle.data {
        NodeData::Element { name, attrs, .. } => NodeKind::Element {
            name: name.local.to_string(),
            attrs: attrs.borrow().iter().map(attribute).collect(),
        },
        NodeData::Document => NodeKind::Other,
        NodeData::Doctype { .. } => NodeKind::Other,
        NodeData::Text { .. } => NodeKind::Other,
        NodeData::Comment { .. } => NodeKind::Other,
        NodeData::ProcessingInstruction { .. } => NodeKind::Other,
    }
}

/// Reads the children of one of the parser's nodes, in order.
#[verifier::external_body]
fn node_children(handle: &Rc<markup5ever_rcdom::Node>) -> (kids: Vec<Rc<markup5ever_rcdom::Node>>)
    ensures
        dom_trees(kids@) == dom_tree(*handle).children,
{
    handle.children.borrow().clone()
}

/// Node `j` of the row is the parser's node `j`: the same kind, and its
/// span holds the parser's children of that node, in order.
spec fn mirrors(
    nodes: Seq<HtmlNode>,
    handles: Seq<Rc<markup5ever_rcdom::Node>>,
    j: int,
) -> bool {
    let t = dom_tree(handles[j]);
    &&& nodes[j].kind@ == t.kind
    &&& j < nodes[j].first_child
    &&& nodes[j].first_child + nodes[j].child_count <= handles.len()
    &&& dom_trees(
        handles.subrange(
            nodes[j].first_child as int,
            nodes[j].first_child + nodes[j].child_count,
        ),
    ) == t.children
}

/// Where every node of the row mirrors the parser's node at its place, the
/// tree below each is the parser's tree below that node.
proof fn lemma_row_is_dom(
    nodes: Seq<HtmlNode>,
    handles: Seq<Rc<markup5ever_rcdom::Node>>,
    j: int,
)
    requires
        nodes.len() == handles.len(),
        forall|m: int| 0 <= m < nodes.len() ==> #[trigger] mirrors(nodes, handles, m),
        0 <= j < nodes.len(),
    ensures
        in_range(nodes, j),
        tree_at(nodes, j) == dom_tree(handles[j]),
    decreases nodes.len() - j,
{
    let t = dom_tree(handles[j]);
    let first = nodes[j].first_child as int;
    let count = nodes[j].child_count as nat;
    assert(mirrors(nodes, handles, j));
    lemma_subtrees(nodes, first, count);
    let span = handles.subrange(first, first + count);
    assert(dom_trees(span).len() == count);
    assert forall|k: int| 0 <= k < count implies subtrees(nodes, first, count)[k]
        == t.children[k] by {
        lemma_row_is_dom(nodes, handles, first + k);
        assert(dom_trees(span)[k] == dom_tree(span[k]));
        assert(span[k] == handles[first + k]);
    }
    assert(subtrees(nodes, first, count) =~= t.children);
}

/// Parses `text` as an HTML document and lays the parser's tree out as a
/// document of this crate, level by level.
pub fn parse_html(text: &str) -> (doc: HtmlDocument)
    ensures
        doc@ == html_tree(text@),
{
    let root = parse_dom(text);
    let mut handles: Vec<Rc<markup5ever_rcdom::Node>> = Vec::new();
    handles.push(root);
    let mut nodes: Vec<HtmlNode> = Vec::new();
    let mut i: usize = 0;
    while i < handles.len()
        invariant
            i == nodes@.len(),
            i <= handles@.len(),
            handles@.len() >= 1,
            dom_tree(handles@[0]) == html_tree(text@),
            forall|m: int| 0 <= m < i ==> #[trigger] mirrors(nodes@, handles@, m),
            forall|m: int| 0 < m < i ==> #[trigger] follows(nodes@, m),
            i == 0 ==> handles@.len() == 1,
            i > 0 ==> nodes@[0].first_child == 1,
            i > 0 ==> nodes@[i - 1].first_child + nodes@[i - 1].child_count == handles@.len(),
        decreases forest_count(dom_trees(handles@).skip(i as int)),
    {
        let ghost old_nodes = nodes@;
        let ghost old_handles = handles@;
        let ghost t = dom_tree(handles@[i as int]);
        let kind = node_kind(&handles[i]);
        let mut kids = node_children(&handles[i]);
        let ghost added = kids@;
        let first: usize = handles.len();
        let count: usize = kids.len();
        handles.append(&mut kids);
        nodes.push(HtmlNode { kind, first_child: first, child_count: count });
        proof {
            assert(dom_trees(added).len() == added.len());
            assert(handles@.subrange(first as int, first + count) =~= added);
            assert forall|m: int| 0 <= m < i + 1 implies #[trigger] mirrors(
                nodes@,
                handles@,
                m,
            ) by {
                if m < i {
                    assert(mirrors(old_nodes, old_handles, m));
                    assert(nodes@[m] == old_nodes[m]);
                    assert(handles@[m] == old_handles[m]);
                    assert(handles@.subrange(
                        nodes@[m].first_child as int,
                        nodes@[m].first_child + nodes@[m].child_count,
                    ) =~= old_handles.subrange(
                        nodes@[m].first_child as int,
                        nodes@[m].first_child + nodes@[m].child_count,
                    ));
                }
            }
            assert forall|m: int| 0 < m < i + 1 implies #[trigger] follows(nodes@, m) by {
                if m < i {
                    assert(follows(old_nodes, m));
                }
            }
            let views = dom_trees(old_handles);
            let after = dom_trees(handles@);
            assert(views.skip(i as int)[0] == t);
            assert(views.skip(i as int).drop_first() =~= views.skip(i + 1));
            assert(after.skip(i + 1) =~= views.skip(i + 1) + t.children);
            lemma_first_link_among_concat(views.skip(i + 1), t.children);
            assert(forest_count(views.skip(i as int)) == node_count(t) + forest_count(
                views.skip(i + 1),
            ));
            assert(node_count(t) == 1 + forest_count(t.children));
        }
        i += 1;
    }
    proof {
        lemma_row_is_dom(nodes@, handles@, 0);
        assert forall|m: int| 0 <= m < nodes@.len() implies #[trigger] in_range(nodes@, m) by {
            lemma_row_is_dom(nodes@, handles@, m);
        }
    }
    HtmlDocument { nodes }
}

/// The first image link in the HTML document `text`.
pub fn image_link_in_html(text: &str) -> (r: Option<String>)
    ensures
        text_of(r) == first_link(html_tree(text@)),
{
    let doc = parse_html(text);
    walk_for_img(&doc)
}

} // verus!
