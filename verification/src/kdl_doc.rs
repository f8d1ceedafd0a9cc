//! The calls into the `kdl` crate: reading a document into the plain model
//! of `manifest`, and writing a dependency node into a document's text.
use vstd::prelude::*;
use crate::manifest::{KdlChildData, KdlEntryData, KdlNodeData, NodeView};
use kdl::{KdlDocument, KdlNode};

verus! {

/// The nodes that `kdl`'s parser reads from `text`, in the plain model;
/// `None` when `kdl` refuses the text.
pub uninterp spec fn kdl_nodes(text: Seq<char>) -> Option<Seq<NodeView>>;

/// The text `kdl` writes out after replacing child `index` of top-level node
/// `section` of the document `text` by a new node `alias` with the string
/// properties `props`.
pub uninterp spec fn kdl_replace_child_text(
    text: Seq<char>,
    section: usize,
    index: usize,
    alias: Seq<char>,
    props: Seq<(Seq<char>, Seq<char>)>,
) -> Seq<char>;

/// The text `kdl` writes out after appending such a node to the children of
/// top-level node `section`, which has a children block.
pub uninterp spec fn kdl_append_child_text(
    text: Seq<char>,
    section: usize,
    alias: Seq<char>,
    props: Seq<(Seq<char>, Seq<char>)>,
) -> Seq<char>;

/// The text `kdl` writes out after giving top-level node `section`, which has
/// no children block, a new one holding only such a node.
pub uninterp spec fn kdl_open_children_text(
    text: Seq<char>,
    section: usize,
    alias: Seq<char>,
    props: Seq<(Seq<char>, Seq<char>)>,
) -> Seq<char>;

/// The text `kdl` writes out after appending a new top-level node named
/// `section_name` whose children block holds only such a node.
pub uninterp spec fn kdl_new_section_text(
    text: Seq<char>,
    section_name: Seq<char>,
    alias: Seq<char>,
    props: Seq<(Seq<char>, Seq<char>)>,
) -> Seq<char>;

/// `text` is a KDL document whose top-level node `section` has a children
/// block (`has_block`) or has none (`!has_block`).
pub open spec fn block_state_at(text: Seq<char>, section: usize, has_block: bool) -> bool {
    match kdl_nodes(text) {
        Some(nodes) => section < nodes.len() && (nodes[section as int].children is Some)
            == has_block,
        None => false,
    }
}

/// `text` is a KDL document whose top-level node `section` has a child at
/// `index`.
pub open spec fn has_child_at(text: Seq<char>, section: usize, index: usize) -> bool {
    match kdl_nodes(text) {
        Some(nodes) => section < nodes.len() && match nodes[section as int].children {
            Some(c) => index < c.len(),
            None => false,
        },
        None => false,
    }
}

/// Parses `text` with `kdl::KdlDocument::parse` (what its `FromStr` calls)
/// and copies out each top-level node's name, its entries (name, and value
/// when it is a string) and its children, one level down. Claimed: the
/// result is `kdl_nodes` of the text.
#[verifier::external_body]
pub(crate) fn parse_kdl(text: &str) -> (r: Option<Vec<KdlNodeData>>)
    ensures
        r.deep_view() == kdl_nodes(text@),
{
    let entries = |n: &KdlNode| n.entries().iter().map(|e| KdlEntryData(
        e.name().map(|k| k.value().into()), e.value().as_string().map(Into::into),
    )).collect();
    Some(KdlDocument::parse(text).ok()?.nodes().iter().map(|n| KdlNodeData(
        n.name().value().into(),
        entries(n),
        n.children().map(|c| c.nodes().iter().map(|m| KdlChildData(
            m.name().value().into(), entries(m), m.children().is_some(),
        )).collect()),
    )).collect())
}

/// Calls `kdl::KdlDocument::parse` on a text it refuses and gives the
/// error's `Display` text. Claimed: that text is the fixed message that
/// `KdlError`'s `Display` writes.
#[verifier::external_body]
pub(crate) fn kdl_error_text(text: &str) -> (m: String)
    requires
        kdl_nodes(text@) is None,
    ensures
        m@ == "Failed to parse KDL document"@,
{
    KdlDocument::parse(text).err().map(|e| e.to_string()).unwrap_or_default()
}

/// Re-parses `text` with `kdl`, puts a new `KdlNode` named `alias` with
/// the properties `props` (pushed as `(key, value)` entries) in place of
/// child `index` of node `section`, and writes the document out with its
/// `Display`. Claimed: the result is `kdl_replace_child_text` of the
/// arguments.
#[verifier::external_body]
pub(crate) fn kdl_replace_child(
    text: &str,
    section: usize,
    index: usize,
    alias: &str,
    props: &Vec<(String, String)>,
) -> (r: String)
    requires
        has_child_at(text@, section, index),
    ensures
        r@ == kdl_replace_child_text(text@, section, index, alias@, props.deep_view()),
{
    let mut doc: KdlDocument = text.parse().unwrap();
    let mut node = KdlNode::new(alias);
    for (k, v) in props.iter() {
        node.push((k.as_str(), v.as_str()));
    }
    let children = doc.nodes_mut()[section].children_mut().as_mut().unwrap();
    children.nodes_mut()[index] = node;
    doc.to_string()
}

/// As `kdl_replace_child`, but the new node is pushed after the children of
/// node `section` (`KdlDocument::nodes_mut` and `Vec::push`). Claimed: the
/// result is `kdl_append_child_text` of the arguments.
#[verifier::external_body]
pub(crate) fn kdl_append_child(
    text: &str,
    section: usize,
    alias: &str,
    props: &Vec<(String, String)>,
) -> (r: String)
    requires
        block_state_at(text@, section, true),
    ensures
        r@ == kdl_append_child_text(text@, section, alias@, props.deep_view()),
{
    let mut doc: KdlDocument = text.parse().unwrap();
    let mut node = KdlNode::new(alias);
    for (k, v) in props.iter() {
        node.push((k.as_str(), v.as_str()));
    }
    let children = doc.nodes_mut()[section].children_mut().as_mut().unwrap();
    children.nodes_mut().push(node);
    doc.to_string()
}

/// As `kdl_replace_child`, but node `section` gets, with
/// `KdlNode::set_children`, a new `KdlDocument` holding only the new node.
/// Claimed: the result is `kdl_open_children_text` of the arguments.
#[verifier::external_body]
pub(crate) fn kdl_open_children(
    text: &str,
    section: usize,
    alias: &str,
    props: &Vec<(String, String)>,
) -> (r: String)
    requires
        block_state_at(text@, section, false),
    ensures
        r@ == kdl_open_children_text(text@, section, alias@, props.deep_view()),
{
    let mut doc: KdlDocument = text.parse().unwrap();
    let mut node = KdlNode::new(alias);
    for (k, v) in props.iter() {
        node.push((k.as_str(), v.as_str()));
    }
    let mut children = KdlDocument::new();
    children.nodes_mut().push(node);
    doc.nodes_mut()[section].set_children(children);
    doc.to_string()
}

/// As `kdl_open_children`, but the node given the new children block is a
/// new `KdlNode` named `section_name`, pushed at the end of the document.
/// Claimed: the result is `kdl_new_section_text` of the arguments.
#[verifier::external_body]
pub(crate) fn kdl_new_section(
    text: &str,
    section_name: &str,
    alias: &str,
    props: &Vec<(String, String)>,
) -> (r: String)
    requires
        kdl_nodes(text@) is Some,
    ensures
        r@ == kdl_new_section_text(text@, section_name@, alias@, props.deep_view()),
{
    let mut doc: KdlDocument = text.parse().unwrap();
    let mut node = KdlNode::new(alias);
    for (k, v) in props.iter() {
        node.push((k.as_str(), v.as_str()));
    }
    let mut section = KdlNode::new(section_name);
    let mut children = KdlDocument::new();
    children.nodes_mut().push(node);
    section.set_children(children);
    doc.nodes_mut().push(section);
    doc.to_string()
}

} // verus!
