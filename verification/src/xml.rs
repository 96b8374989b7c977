//! A parsed XML document as the discovery rules see it: nodes with a kind,
//! a name, a text, children, attributes and namespaces.
//!
//! The parsing is roxmltree's. What this module states of a document it
//! states over [`document_nodes`], the nodes of the document in the order
//! in which roxmltree numbers them; node 0 is the root of the document,
//! above the root element.

use vstd::prelude::*;

verus! {

/// `roxmltree::Document`, of which nothing is known but what the functions
/// below state.
#[verifier::external_type_specification]
#[verifier::external_body]
pub struct ExDocument<'input>(roxmltree::Document<'input>);

/// A namespace that an element has in scope.
pub struct XmlNamespace {
    /// The prefix; `None` for the default namespace.
    pub name: Option<Seq<char>>,
    pub uri: Seq<char>,
}

/// One node of a document.
pub struct XmlNode {
    pub is_element: bool,
    pub is_text: bool,
    /// The local name of an element's tag; empty for other nodes.
    pub name: Seq<char>,
    /// For a text node and for a comment its own text, for an element the
    /// text of its first child where that is a text node, and `None` for
    /// every other node.
    pub text: Option<Seq<char>>,
    /// The numbers of the children, in document order.
    pub children: Seq<u32>,
    /// The values of the attributes that have no namespace, by name.
    pub attributes: Map<Seq<char>, Seq<char>>,
    /// The namespaces in scope, in roxmltree's order.
    pub namespaces: Seq<XmlNamespace>,
}

/// The nodes of a parsed document, by number.
pub uninterp spec fn document_nodes(doc: roxmltree::Document) -> Seq<XmlNode>;

/// The nodes of the document that the text `xml` is; `None` where it is no
/// document.
pub uninterp spec fn xml_nodes(xml: Seq<char>) -> Option<Seq<XmlNode>>;

/// `roxmltree::Document::parse`: the document of the text, or `None` where
/// roxmltree rejects it.
#[verifier::external_body]
pub(crate) fn parse_document<'a>(xml: &'a str) -> (doc: Option<roxmltree::Document<'a>>)
    ensures
        match doc {
            Some(d) => xml_nodes(xml@) == Some(document_nodes(d)),
            None => xml_nodes(xml@) is None,
        },
{
    roxmltree::Document::parse(xml).ok()
}

/// `roxmltree::Document::root`: the root node, which every document has
/// and which is node 0.
#[verifier::external_body]
pub(crate) fn document_root(doc: &roxmltree::Document) -> (id: u32)
    ensures
        id == 0,
        id < document_nodes(*doc).len(),
{
    doc.root().id().get()
}

/// `roxmltree::Node::children`: the numbers of the children of the node
/// `id`, each of them a node of the document.
#[verifier::external_body]
pub(crate) fn node_children(doc: &roxmltree::Document, id: u32) -> (children: Vec<u32>)
    requires
        id < document_nodes(*doc).len(),
    ensures
        children@ == document_nodes(*doc)[id as int].children,
        forall|i: int| 0 <= i < children.len() ==> children[i] < document_nodes(*doc).len(),
{
    let node = doc.get_node(roxmltree::NodeId::new(id)).unwrap();
    node.children().map(|child| child.id().get()).collect()
}

/// `roxmltree::Node::is_element`.
#[verifier::external_body]
pub(crate) fn node_is_element(doc: &roxmltree::Document, id: u32) -> (yes: bool)
    requires
        id < document_nodes(*doc).len(),
    ensures
        yes == document_nodes(*doc)[id as int].is_element,
{
    doc.get_node(roxmltree::NodeId::new(id)).unwrap().is_element()
}

/// `roxmltree::Node::is_text`.
#[verifier::external_body]
pub(crate) fn node_is_text(doc: &roxmltree::Document, id: u32) -> (yes: bool)
    requires
        id < document_nodes(*doc).len(),
    ensures
        yes == document_nodes(*doc)[id as int].is_text,
{
    doc.get_node(roxmltree::NodeId::new(id)).unwrap().is_text()
}

/// `roxmltree::Node::tag_name`, of which the local name.
#[verifier::external_body]
pub(crate) fn node_name(doc: &roxmltree::Document, id: u32) -> (name: String)
    requires
        id < document_nodes(*doc).len(),
    ensures
        name@ == document_nodes(*doc)[id as int].name,
{
    doc.get_node(roxmltree::NodeId::new(id)).unwrap().tag_name().name().to_string()
}

/// `roxmltree::Node::text`.
#[verifier::external_body]
pub(crate) fn node_text(doc: &roxmltree::Document, id: u32) -> (text: Option<String>)
    requires
        id < document_nodes(*doc).len(),
    ensures
        match text {
            Some(t) => document_nodes(*doc)[id as int].text == Some(t@),
            None => document_nodes(*doc)[id as int].text is None,
        },
{
    doc.get_node(roxmltree::NodeId::new(id)).unwrap().text().map(|text| text.to_string())
}

/// `roxmltree::Node::attribute` with a name without namespace.
#[verifier::external_body]
pub(crate) fn node_attribute(doc: &roxmltree::Document, id: u32, name: &str) -> (value: Option<
    String,
>)
    requires
        id < document_nodes(*doc).len(),
    ensures
        match value {
            Some(v) => document_nodes(*doc)[id as int].attributes.contains_key(name@)
                && document_nodes(*doc)[id as int].attributes[name@] == v@,
            None => !document_nodes(*doc)[id as int].attributes.contains_key(name@),
        },
{
    doc.get_node(roxmltree::NodeId::new(id)).unwrap().attribute(name).map(|v| v.to_string())
}

/// A namespace as a pair of texts.
pub open spec fn namespace_view(ns: (Option<String>, String)) -> XmlNamespace {
    XmlNamespace {
        name: match ns.0 {
            Some(name) => Some(name@),
            None => None,
        },
        uri: ns.1@,
    }
}

/// `roxmltree::Node::namespaces`, each namespace with its
/// `Namespace::name` and `Namespace::uri`.
#[verifier::external_body]
pub(crate) fn node_namespaces(doc: &roxmltree::Document, id: u32) -> (namespaces: Vec<
    (Option<String>, String),
>)
    requires
        id < document_nodes(*doc).len(),
    ensures
        namespaces@.map_values(|ns: (Option<String>, String)| namespace_view(ns))
            == document_nodes(*doc)[id as int].namespaces,
{
    let node = doc.get_node(roxmltree::NodeId::new(id)).unwrap();
    node.namespaces().map(|ns| (ns.name().map(|n| n.to_string()), ns.uri().to_string())).collect()
}

} // verus!
