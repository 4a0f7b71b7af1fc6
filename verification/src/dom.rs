//! The parsed document tree, as read through the `tl` crate.
//!
//! The tree itself is opaque here. What this crate reads from it is named by
//! [`dom_nodes`] and [`dom_select`]; the functions below that call into `tl`
//! are believed to return what those names say and are not proved.

use vstd::prelude::*;
use vstd::utf8::encode_utf8;
use crate::extract::{element_role, role_of, section_class, title_class, Child, ChildView, Role};

verus! {

/// `tl::VDom`, the tree that a parse yields. Nothing inside it is read here
/// but through the functions below.
#[verifier::external_type_specification]
#[verifier::external_body]
pub struct ExVDom<'a>(tl::VDom<'a>);

/// `tl::ParseError`, the failure of a parse. It is carried, never read.
#[verifier::external_type_specification]
#[verifier::external_body]
pub struct ExParseError(tl::ParseError);

/// What a node of the tree holds, as far as this crate reads it.
pub enum Node {
    /// An element.
    Element {
        /// The members of its class list.
        classes: Set<Seq<char>>,
        /// Its direct children, by number, in document order.
        children: Seq<u32>,
        /// Its text without any markup.
        inner_text: Seq<char>,
        /// Its markup as it stands in the source.
        markup: Seq<char>,
    },
    /// A run of text.
    Text { text: Seq<char> },
    /// A comment.
    Comment,
}

/// The node table of a tree: node number `i` is `dom_nodes(dom)[i]`.
pub uninterp spec fn dom_nodes(dom: tl::VDom<'_>) -> Seq<Node>;

/// The nodes that a selector matches, in the order in which they are found;
/// `None` where the selector cannot be read.
pub uninterp spec fn dom_select(dom: tl::VDom<'_>, selector: Seq<char>) -> Option<Seq<u32>>;

/// The tree that parsing a text yields.
pub uninterp spec fn parsed_dom(html: Seq<char>) -> tl::VDom<'static>;

/// The length of a text in bytes.
pub open spec fn byte_len(text: Seq<char>) -> nat {
    encode_utf8(text).len()
}

/// Whether a text is short enough to be parsed: its length fits in 32 bits.
pub open spec fn parses(html: Seq<char>) -> bool {
    byte_len(html) <= u32::MAX
}

/// The node with a number, if the table has one there.
pub open spec fn node_at(nodes: Seq<Node>, node: u32) -> Option<Node> {
    if node < nodes.len() {
        Some(nodes[node as int])
    } else {
        None
    }
}

/// `tl::parse` with default options. Believed: it fails exactly when the text
/// is longer than `u32::MAX` bytes, and otherwise returns the tree that
/// [`parsed_dom`] names.
#[verifier::external_body]
pub(crate) fn parse_html<'a>(html: &'a str) -> (r: Result<tl::VDom<'a>, tl::ParseError>)
    ensures
        r is Ok <==> parses(html@),
        r matches Ok(dom) ==> dom == parsed_dom(html@),
{
    tl::parse(html, tl::ParserOptions::default())
}

/// `VDom::query_selector`. Believed: it returns the numbers of the nodes that
/// its iterator yields, in that order, as [`dom_select`] names them, and `None`
/// where it returns `None`.
#[verifier::external_body]
pub(crate) fn select(dom: &tl::VDom<'_>, selector: &str) -> (r: Option<Vec<u32>>)
    ensures
        match r {
            Some(found) => dom_select(*dom, selector@) == Some(found@),
            None => dom_select(*dom, selector@) is None,
        },
{
    let found = dom.query_selector(selector)?;
    Some(found.map(|handle| handle.get_inner()).collect())
}

/// `Node::children` and `Children::top` on the node that `NodeHandle::get`
/// finds. Believed: for an element, the numbers of its direct children in
/// order; `None` for any other node and where there is no such node.
#[verifier::external_body]
pub(crate) fn child_ids(dom: &tl::VDom<'_>, node: u32) -> (r: Option<Vec<u32>>)
    ensures
        match r {
            Some(ids) => node_at(dom_nodes(*dom), node) matches Some(Node::Element { children, .. })
                && children == ids@,
            None => !(node_at(dom_nodes(*dom), node) matches Some(Node::Element { .. })),
        },
{
    let children = tl::NodeHandle::new(node).get(dom.parser())?.children()?;
    Some(children.top().iter().map(|handle| handle.get_inner()).collect())
}

/// `Attributes::is_class_member` on an element's attributes. Believed: for an
/// element, whether `class` is a member of its class list; `None` for any other
/// node and where there is no such node.
#[verifier::external_body]
pub(crate) fn has_class(dom: &tl::VDom<'_>, node: u32, class: &str) -> (r: Option<bool>)
    ensures
        match r {
            Some(member) => node_at(dom_nodes(*dom), node) matches Some(
                Node::Element { classes, .. },
            ) && member == classes.contains(class@),
            None => !(node_at(dom_nodes(*dom), node) matches Some(Node::Element { .. })),
        },
{
    let tag = tl::NodeHandle::new(node).get(dom.parser())?.as_tag()?;
    Some(tag.attributes().is_class_member(class))
}

/// `HTMLTag::inner_text`. Believed: for an element, its text without markup;
/// `None` for any other node and where there is no such node.
#[verifier::external_body]
pub(crate) fn inner_text_of(dom: &tl::VDom<'_>, node: u32) -> (r: Option<String>)
    ensures
        match r {
            Some(text) => node_at(dom_nodes(*dom), node) matches Some(
                Node::Element { inner_text, .. },
            ) && inner_text == text@,
            None => !(node_at(dom_nodes(*dom), node) matches Some(Node::Element { .. })),
        },
{
    let tag = tl::NodeHandle::new(node).get(dom.parser())?.as_tag()?;
    Some(tag.inner_text(dom.parser()).to_string())
}

/// `HTMLTag::raw`, read as text by `Bytes::as_utf8_str`. Believed: for an
/// element, its markup as it stands in the source; `None` for any other node
/// and where there is no such node.
#[verifier::external_body]
pub(crate) fn markup_of(dom: &tl::VDom<'_>, node: u32) -> (r: Option<String>)
    ensures
        match r {
            Some(text) => node_at(dom_nodes(*dom), node) matches Some(Node::Element { markup, .. })
                && markup == text@,
            None => !(node_at(dom_nodes(*dom), node) matches Some(Node::Element { .. })),
        },
{
    let tag = tl::NodeHandle::new(node).get(dom.parser())?.as_tag()?;
    Some(tag.raw().as_utf8_str().to_string())
}

/// `Node::as_raw`, read as text by `Bytes::as_utf8_str`. Believed: for a run of
/// text, that text; `None` for any other node and where there is no such node.
#[verifier::external_body]
pub(crate) fn text_of(dom: &tl::VDom<'_>, node: u32) -> (r: Option<String>)
    ensures
        match r {
            Some(run) => node_at(dom_nodes(*dom), node) matches Some(Node::Text { text })
                && text == run@,
            None => !(node_at(dom_nodes(*dom), node) matches Some(Node::Text { .. })),
        },
{
    let bytes = tl::NodeHandle::new(node).get(dom.parser())?.as_raw()?;
    Some(bytes.as_utf8_str().to_string())
}

/// The selector of the preformatted block.
pub open spec fn block_selector() -> Seq<char> {
    "pre"@
}

/// What a node is to the extraction when it is met as a child of a block.
pub open spec fn child_of(nodes: Seq<Node>, node: u32) -> ChildView {
    match node_at(nodes, node) {
        Some(Node::Element { classes, inner_text, markup, .. }) => match role_of(
            classes.contains(title_class()),
            classes.contains(section_class()),
        ) {
            Role::Title => ChildView::Title(inner_text),
            Role::Section => ChildView::Section,
            Role::Content => ChildView::Markup(markup),
        },
        Some(Node::Text { text }) => ChildView::Text(text),
        _ => ChildView::Other,
    }
}

/// The children with these numbers, in order.
pub open spec fn children_at(nodes: Seq<Node>, ids: Seq<u32>) -> Seq<ChildView> {
    Seq::new(ids.len(), |i: int| child_of(nodes, ids[i]))
}

/// The direct children of one block; none where the block is no element.
pub open spec fn block_children(nodes: Seq<Node>, block: u32) -> Seq<ChildView> {
    match node_at(nodes, block) {
        Some(Node::Element { children, .. }) => children_at(nodes, children),
        _ => Seq::empty(),
    }
}

/// The direct children of all the blocks, block after block.
pub open spec fn blocks_children(nodes: Seq<Node>, blocks: Seq<u32>) -> Seq<ChildView>
    decreases blocks.len(),
{
    if blocks.len() == 0 {
        Seq::empty()
    } else {
        blocks_children(nodes, blocks.drop_last()) + block_children(nodes, blocks.last())
    }
}

/// The children that the extraction walks: the direct children of every
/// preformatted block of the tree, in the order in which the blocks are found.
pub open spec fn preformatted_children(dom: tl::VDom<'_>) -> Seq<ChildView> {
    match dom_select(dom, block_selector()) {
        Some(blocks) => blocks_children(dom_nodes(dom), blocks),
        None => Seq::empty(),
    }
}

/// Reads one node as a child of a block.
fn read_child(dom: &tl::VDom<'_>, node: u32) -> (child: Child)
    ensures
        child@ == child_of(dom_nodes(*dom), node),
{
    match has_class(dom, node, "h1") {
        Some(in_title_class) => {
            let in_section_class = has_class(dom, node, "h4").unwrap();
            match element_role(in_title_class, in_section_class) {
                Role::Title => Child::Title(inner_text_of(dom, node).unwrap()),
                Role::Section => Child::Section,
                Role::Content => Child::Markup(markup_of(dom, node).unwrap()),
            }
        },
        None => match text_of(dom, node) {
            Some(run) => Child::Text(run),
            None => Child::Other,
        },
    }
}

/// Reads the direct children of every preformatted block of the tree.
pub(crate) fn read_preformatted(dom: &tl::VDom<'_>) -> (found: Vec<Child>)
    ensures
        found.deep_view() == preformatted_children(*dom),
{
    let mut found: Vec<Child> = Vec::new();
    let blocks = match select(dom, "pre") {
        Some(blocks) => blocks,
        None => {
            return found;
        },
    };
    let ghost nodes = dom_nodes(*dom);
    let mut b: usize = 0;
    assert(blocks@.take(0) =~= Seq::<u32>::empty());
    while b < blocks.len()
        invariant
            b <= blocks.len(),
            nodes == dom_nodes(*dom),
            found.deep_view() =~= blocks_children(nodes, blocks@.take(b as int)),
        decreases blocks.len() - b,
    {
        let block = blocks[b];
        proof {
            assert(blocks@.take(b + 1).drop_last() =~= blocks@.take(b as int));
            assert(blocks@.take(b + 1).last() == block);
        }
        let ghost before = found.deep_view();
        match child_ids(dom, block) {
            Some(ids) => {
                let mut c: usize = 0;
                while c < ids.len()
                    invariant
                        c <= ids.len(),
                        nodes == dom_nodes(*dom),
                        found.deep_view() =~= before + children_at(nodes, ids@.take(c as int)),
                    decreases ids.len() - c,
                {
                    let child = read_child(dom, ids[c]);
                    let ghost earlier = found.deep_view();
                    found.push(child);
                    assert(found.deep_view() =~= earlier.push(child@));
                    c += 1;
                }
                assert(ids@.take(c as int) =~= ids@);
            },
            None => {
                assert(found.deep_view() =~= before + Seq::<ChildView>::empty());
            },
        }
        b += 1;
    }
    assert(blocks@.take(b as int) =~= blocks@);
    found
}

} // verus!
