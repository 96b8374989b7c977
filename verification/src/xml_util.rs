//! The few questions that discovery asks of a document: the only child of
//! a node, its only text, its children by name, its namespaces.
//!
//! Any deviation from the expected shape is an error. Nothing is repaired
//! or skipped.

use crate::text::{lemma_position, lemma_position_is, position, same_text};
use crate::xml::{document_nodes, document_root, namespace_view, node_children, node_is_element,
    node_is_text, node_name, node_namespaces, node_text, XmlNamespace, XmlNode};
use vstd::prelude::*;
use vstd::string::StringExecFns;

verus! {

/// Why a document is no discovery document.
#[derive(Debug, Clone, Copy, PartialEq, Eq)]
pub enum DiscoveryError {
    /// The text is no XML document.
    Malformed,
    /// The document has no root element.
    NoRootElement,
    /// The root element has more or fewer namespaces than expected.
    NamespaceCount,
    /// An expected namespace is missing from the root element.
    NamespaceMismatch,
    /// A node has no child of the kind that was asked for.
    NoChildren,
    /// A node has more than one child where one was expected.
    TooManyChildren,
    /// A node has another number of element children than expected.
    UnexpectedChildCount,
    /// An element has another tag name than expected.
    UnexpectedTag,
    /// A text node has no text.
    EmptyText,
    /// A service has no priority.
    MissingPriority,
    /// The priority of a service is no 32-bit integer.
    InvalidPriority,
    /// The document names no service.
    NoService,
    /// A service is of another type than an OpenID 2.0 provider endpoint.
    WrongServiceType,
}

/// A namespace that a document is expected to declare.
#[derive(Debug, Clone, Copy, PartialEq, Eq)]
pub struct Namespace<'a> {
    name: Option<&'a str>,
    uri: &'a str,
}

impl<'a> View for Namespace<'a> {
    type V = XmlNamespace;

    closed spec fn view(&self) -> XmlNamespace {
        XmlNamespace {
            name: match self.name {
                Some(name) => Some(name@),
                None => None,
            },
            uri: self.uri@,
        }
    }
}

impl<'a> Namespace<'a> {
    /// The namespace of the prefix `name`, or the default namespace where
    /// `name` is `None`, and of the URI `uri`.
    pub fn new(name: Option<&'a str>, uri: &'a str) -> (ns: Namespace<'a>)
        ensures
            ns@ == (XmlNamespace {
                name: match name {
                    Some(n) => Some(n@),
                    None => None,
                },
                uri: uri@,
            }),
    {
        Namespace { name, uri }
    }

    /// Whether `other`, a namespace of a document, has the same prefix and
    /// the same URI.
    pub fn matches(&self, other: &(Option<String>, String)) -> (same: bool)
        ensures
            same == (self@ == namespace_view(*other)),
    {
        let same_name = match (self.name, &other.0) {
            (Some(a), Some(b)) => same_text(a, b.as_str()),
            (None, None) => true,
            _ => false,
        };
        same_name && same_text(self.uri, other.1.as_str())
    }
}

/// Those of the nodes `ids` that are elements, or those that are texts.
pub open spec fn pick(nodes: Seq<XmlNode>, ids: Seq<u32>, texts: bool) -> Seq<u32>
    decreases ids.len(),
{
    if ids.len() == 0 {
        ids
    } else {
        let before = pick(nodes, ids.drop_last(), texts);
        let node = nodes[ids.last() as int];
        if (texts && node.is_text) || (!texts && node.is_element) {
            before.push(ids.last())
        } else {
            before
        }
    }
}

/// The children of the node `id` that are elements.
pub open spec fn element_children(nodes: Seq<XmlNode>, id: u32) -> Seq<u32> {
    pick(nodes, nodes[id as int].children, false)
}

/// The children of the node `id` that are texts.
pub open spec fn text_children(nodes: Seq<XmlNode>, id: u32) -> Seq<u32> {
    pick(nodes, nodes[id as int].children, true)
}

/// The tag names of the nodes `ids`.
pub open spec fn names(nodes: Seq<XmlNode>, ids: Seq<u32>) -> Seq<Seq<char>> {
    ids.map_values(|id: u32| nodes[id as int].name)
}

/// Whether every node of `ids` is a node of the document.
pub open spec fn in_document(nodes: Seq<XmlNode>, ids: Seq<u32>) -> bool {
    forall|i: int| 0 <= i < ids.len() ==> (#[trigger] ids[i]) < nodes.len()
}

/// The root element: the first element below the root of the document.
pub open spec fn root_element_spec(nodes: Seq<XmlNode>) -> Result<u32, DiscoveryError> {
    let elements = element_children(nodes, 0);
    if elements.len() == 0 {
        Err(DiscoveryError::NoRootElement)
    } else {
        Ok(elements[0])
    }
}

/// The one element below the node `id`, which must have the tag name `tag`.
pub open spec fn only_child_spec(nodes: Seq<XmlNode>, id: u32, tag: Seq<char>) -> Result<
    u32,
    DiscoveryError,
> {
    let elements = element_children(nodes, id);
    if elements.len() == 0 {
        Err(DiscoveryError::NoChildren)
    } else if elements.len() > 1 {
        Err(DiscoveryError::TooManyChildren)
    } else if nodes[elements[0] as int].name != tag {
        Err(DiscoveryError::UnexpectedTag)
    } else {
        Ok(elements[0])
    }
}

/// The first element below the node `id` that has the tag name `tag`.
pub open spec fn child_opt_spec(nodes: Seq<XmlNode>, id: u32, tag: Seq<char>) -> Option<u32> {
    let elements = element_children(nodes, id);
    let i = position(names(nodes, elements), tag);
    if i < elements.len() {
        Some(elements[i])
    } else {
        None
    }
}

/// The elements below the node `id`, all of which must have the tag name
/// `tag`.
pub open spec fn children_exact_spec(nodes: Seq<XmlNode>, id: u32, tag: Seq<char>) -> Result<
    Seq<u32>,
    DiscoveryError,
> {
    let elements = element_children(nodes, id);
    if forall|i: int|
        0 <= i < elements.len() ==> nodes[(#[trigger] elements[i]) as int].name == tag {
        Ok(elements)
    } else {
        Err(DiscoveryError::UnexpectedTag)
    }
}

/// The text of the one text below the node `id`.
pub open spec fn only_text_child_spec(nodes: Seq<XmlNode>, id: u32) -> Result<
    Seq<char>,
    DiscoveryError,
> {
    let texts = text_children(nodes, id);
    if texts.len() == 0 {
        Err(DiscoveryError::NoChildren)
    } else if texts.len() > 1 {
        Err(DiscoveryError::TooManyChildren)
    } else {
        match nodes[texts[0] as int].text {
            Some(text) => Ok(text),
            None => Err(DiscoveryError::EmptyText),
        }
    }
}

/// The elements below the node `id`, which must be as many as `tags` and
/// one of each tag name: the result holds, for each tag name, the element
/// that has it.
pub open spec fn child_set_spec(nodes: Seq<XmlNode>, id: u32, tags: Seq<Seq<char>>) -> Result<
    Seq<u32>,
    DiscoveryError,
> {
    let elements = element_children(nodes, id);
    if elements.len() != tags.len() {
        Err(DiscoveryError::UnexpectedChildCount)
    } else if forall|i: int|
        0 <= i < tags.len() ==> names(nodes, elements).contains(#[trigger] tags[i]) {
        Ok(Seq::new(tags.len(), |i: int| elements[position(names(nodes, elements), tags[i])]))
    } else {
        Err(DiscoveryError::UnexpectedTag)
    }
}

/// Whether the node `id` has exactly the namespaces `expected`, in any
/// order.
pub open spec fn namespaces_spec(nodes: Seq<XmlNode>, id: u32, expected: Seq<XmlNamespace>)
    -> Result<(), DiscoveryError> {
    let found = nodes[id as int].namespaces;
    if found.len() != expected.len() {
        Err(DiscoveryError::NamespaceCount)
    } else if forall|i: int| 0 <= i < expected.len() ==> found.contains(#[trigger] expected[i]) {
        Ok(())
    } else {
        Err(DiscoveryError::NamespaceMismatch)
    }
}

/// The children of the node `id` that are elements, or those that are
/// texts.
pub fn children_of_kind(doc: &roxmltree::Document, id: u32, texts: bool) -> (kids: Vec<u32>)
    requires
        id < document_nodes(*doc).len(),
    ensures
        kids@ == pick(document_nodes(*doc), document_nodes(*doc)[id as int].children, texts),
        in_document(document_nodes(*doc), kids@),
{
    let all = node_children(doc, id);
    let ghost nodes = document_nodes(*doc);
    let mut kids: Vec<u32> = Vec::new();
    let mut i: usize = 0;
    assert(all@.take(0) =~= Seq::empty());
    while i < all.len()
        invariant
            0 <= i <= all.len(),
            nodes == document_nodes(*doc),
            in_document(nodes, all@),
            kids@ == pick(nodes, all@.take(i as int), texts),
            in_document(nodes, kids@),
        decreases all.len() - i,
    {
        let child = all[i];
        assert(all@[i as int] < nodes.len());
        proof {
            assert(all@.take(i + 1).drop_last() =~= all@.take(i as int));
            assert(all@.take(i + 1).last() == child);
        }
        let wanted = if texts {
            node_is_text(doc, child)
        } else {
            node_is_element(doc, child)
        };
        if wanted {
            kids.push(child);
        }
        i = i + 1;
    }
    assert(all@.take(i as int) =~= all@);
    kids
}

/// The root element of the document.
pub fn root_element(doc: &roxmltree::Document) -> (r: Result<u32, DiscoveryError>)
    ensures
        r == root_element_spec(document_nodes(*doc)),
        r matches Ok(id) ==> id < document_nodes(*doc).len(),
{
    let elements = children_of_kind(doc, document_root(doc), false);
    if elements.len() == 0 {
        return Err(DiscoveryError::NoRootElement);
    }
    assert(elements@[0] < document_nodes(*doc).len());
    Ok(elements[0])
}

/// The one element below `node`, which must have the tag name `tag_name`.
pub fn get_only_child(doc: &roxmltree::Document, node: u32, tag_name: &str) -> (r: Result<
    u32,
    DiscoveryError,
>)
    requires
        node < document_nodes(*doc).len(),
    ensures
        r == only_child_spec(document_nodes(*doc), node, tag_name@),
        r matches Ok(id) ==> id < document_nodes(*doc).len(),
{
    let elements = children_of_kind(doc, node, false);
    if elements.len() == 0 {
        return Err(DiscoveryError::NoChildren);
    }
    if elements.len() > 1 {
        return Err(DiscoveryError::TooManyChildren);
    }
    let first = elements[0];
    assert(elements@[0] < document_nodes(*doc).len());
    if !same_text(node_name(doc, first).as_str(), tag_name) {
        return Err(DiscoveryError::UnexpectedTag);
    }
    Ok(first)
}

/// The first element below `node` that has the tag name `tag_name`.
pub fn get_child_opt(doc: &roxmltree::Document, node: u32, tag_name: &str) -> (r: Option<u32>)
    requires
        node < document_nodes(*doc).len(),
    ensures
        r == child_opt_spec(document_nodes(*doc), node, tag_name@),
        r matches Some(id) ==> id < document_nodes(*doc).len(),
{
    let elements = children_of_kind(doc, node, false);
    let ghost nodes = document_nodes(*doc);
    let ghost tags = names(nodes, elements@);
    let mut i: usize = 0;
    while i < elements.len()
        invariant
            0 <= i <= elements.len(),
            nodes == document_nodes(*doc),
            in_document(nodes, elements@),
            elements@ == element_children(nodes, node),
            tags == names(nodes, elements@),
            forall|j: int| 0 <= j < i ==> tags[j] != tag_name@,
        decreases elements.len() - i,
    {
        let child = elements[i];
        assert(elements@[i as int] < nodes.len());
        if same_text(node_name(doc, child).as_str(), tag_name) {
            proof {
                assert(tags[i as int] == tag_name@);
                lemma_position_is(tags, tag_name@, i as int);
            }
            return Some(child);
        }
        assert(tags[i as int] != tag_name@);
        i = i + 1;
    }
    proof {
        lemma_position_is(tags, tag_name@, i as int);
    }
    None
}

/// The elements below `node`, all of which must have the tag name
/// `tag_name`.
pub fn get_children_exact(doc: &roxmltree::Document, node: u32, tag_name: &str) -> (r: Result<
    Vec<u32>,
    DiscoveryError,
>)
    requires
        node < document_nodes(*doc).len(),
    ensures
        match r {
            Ok(kids) => children_exact_spec(document_nodes(*doc), node, tag_name@) == Ok::<
                _,
                DiscoveryError,
            >(kids@) && in_document(document_nodes(*doc), kids@),
            Err(e) => children_exact_spec(document_nodes(*doc), node, tag_name@) == Err::<
                Seq<u32>,
                _,
            >(e),
        },
{
    let elements = children_of_kind(doc, node, false);
    let ghost nodes = document_nodes(*doc);
    let mut i: usize = 0;
    while i < elements.len()
        invariant
            0 <= i <= elements.len(),
            nodes == document_nodes(*doc),
            in_document(nodes, elements@),
            elements@ == element_children(nodes, node),
            forall|j: int| 0 <= j < i ==> nodes[(#[trigger] elements@[j]) as int].name == tag_name@,
        decreases elements.len() - i,
    {
        let child = elements[i];
        assert(elements@[i as int] < nodes.len());
        if !same_text(node_name(doc, child).as_str(), tag_name) {
            assert(nodes[elements@[i as int] as int].name != tag_name@);
            return Err(DiscoveryError::UnexpectedTag);
        }
        i = i + 1;
    }
    Ok(elements)
}

/// The text of the one text below `node`.
pub fn get_only_text_child(doc: &roxmltree::Document, node: u32) -> (r: Result<
    String,
    DiscoveryError,
>)
    requires
        node < document_nodes(*doc).len(),
    ensures
        match r {
            Ok(text) => only_text_child_spec(document_nodes(*doc), node) == Ok::<
                _,
                DiscoveryError,
            >(text@),
            Err(e) => only_text_child_spec(document_nodes(*doc), node) == Err::<Seq<char>, _>(e),
        },
{
    let texts = children_of_kind(doc, node, true);
    if texts.len() == 0 {
        return Err(DiscoveryError::NoChildren);
    }
    if texts.len() > 1 {
        return Err(DiscoveryError::TooManyChildren);
    }
    assert(texts@[0] < document_nodes(*doc).len());
    match node_text(doc, texts[0]) {
        Some(text) => Ok(text),
        None => Err(DiscoveryError::EmptyText),
    }
}

/// The texts of a list of tag names.
pub open spec fn tag_texts(tags: Seq<&str>) -> Seq<Seq<char>> {
    tags.map_values(|t: &str| t@)
}

/// The first of the nodes `elements` that has the tag name `tag`, as an
/// index into `elements`, or their number where none has it.
fn find_named(doc: &roxmltree::Document, elements: &Vec<u32>, tag: &str) -> (i: usize)
    requires
        in_document(document_nodes(*doc), elements@),
    ensures
        i == position(names(document_nodes(*doc), elements@), tag@),
        i <= elements.len(),
{
    let ghost nodes = document_nodes(*doc);
    let ghost tags = names(nodes, elements@);
    let mut i: usize = 0;
    while i < elements.len()
        invariant
            0 <= i <= elements.len(),
            nodes == document_nodes(*doc),
            in_document(nodes, elements@),
            tags == names(nodes, elements@),
            forall|j: int| 0 <= j < i ==> tags[j] != tag@,
        decreases elements.len() - i,
    {
        let child = elements[i];
        assert(elements@[i as int] < nodes.len());
        if same_text(node_name(doc, child).as_str(), tag) {
            proof {
                assert(tags[i as int] == tag@);
                lemma_position_is(tags, tag@, i as int);
            }
            return i;
        }
        assert(tags[i as int] != tag@);
        i = i + 1;
    }
    proof {
        lemma_position_is(tags, tag@, i as int);
    }
    i
}

/// The elements below `node`, which must be as many as `tag_names` and one
/// of each tag name. The result holds, in the order of `tag_names`, the
/// element of each name.
pub fn get_child_set(doc: &roxmltree::Document, node: u32, tag_names: &Vec<&str>) -> (r: Result<
    Vec<u32>,
    DiscoveryError,
>)
    requires
        node < document_nodes(*doc).len(),
        tag_texts(tag_names@).no_duplicates(),
    ensures
        match r {
            Ok(kids) => child_set_spec(document_nodes(*doc), node, tag_texts(tag_names@)) == Ok::<
                _,
                DiscoveryError,
            >(kids@) && in_document(document_nodes(*doc), kids@) && kids.len() == tag_names.len(),
            Err(e) => child_set_spec(document_nodes(*doc), node, tag_texts(tag_names@)) == Err::<
                Seq<u32>,
                _,
            >(e),
        },
{
    let elements = children_of_kind(doc, node, false);
    if elements.len() != tag_names.len() {
        return Err(DiscoveryError::UnexpectedChildCount);
    }
    let ghost nodes = document_nodes(*doc);
    let ghost found = names(nodes, elements@);
    let ghost tags = tag_texts(tag_names@);
    let mut kids: Vec<u32> = Vec::new();
    let mut i: usize = 0;
    while i < tag_names.len()
        invariant
            0 <= i <= tag_names.len(),
            nodes == document_nodes(*doc),
            elements@ == element_children(nodes, node),
            elements.len() == tag_names.len(),
            in_document(nodes, elements@),
            found == names(nodes, elements@),
            tags == tag_texts(tag_names@),
            kids.len() == i,
            in_document(nodes, kids@),
            forall|k: int| 0 <= k < i ==> found.contains(#[trigger] tags[k]),
            forall|k: int| 0 <= k < i ==> kids@[k] == elements@[position(found, tags[k])],
        decreases tag_names.len() - i,
    {
        let at = find_named(doc, &elements, tag_names[i]);
        proof {
            assert(tags[i as int] == tag_names@[i as int]@);
            lemma_position(found, tags[i as int]);
        }
        if at == elements.len() {
            assert(!found.contains(tags[i as int]));
            return Err(DiscoveryError::UnexpectedTag);
        }
        assert(elements@[at as int] < nodes.len());
        kids.push(elements[at]);
        i = i + 1;
    }
    assert(kids@ =~= Seq::new(tags.len(), |k: int| elements@[position(found, tags[k])]));
    Ok(kids)
}

/// The views of a list of expected namespaces.
pub open spec fn namespace_views(expected: Seq<Namespace>) -> Seq<XmlNamespace> {
    expected.map_values(|ns: Namespace| ns@)
}

/// Whether `node` has exactly the namespaces `namespaces`, in any order.
pub fn namespaces_eq(doc: &roxmltree::Document, node: u32, namespaces: &Vec<Namespace>) -> (r:
    Result<(), DiscoveryError>)
    requires
        node < document_nodes(*doc).len(),
        namespace_views(namespaces@).no_duplicates(),
    ensures
        r == namespaces_spec(document_nodes(*doc), node, namespace_views(namespaces@)),
{
    let found = node_namespaces(doc, node);
    if found.len() != namespaces.len() {
        return Err(DiscoveryError::NamespaceCount);
    }
    let ghost have = document_nodes(*doc)[node as int].namespaces;
    let ghost expected = namespace_views(namespaces@);
    let mut i: usize = 0;
    while i < namespaces.len()
        invariant
            0 <= i <= namespaces.len(),
            have == document_nodes(*doc)[node as int].namespaces,
            have == found@.map_values(|ns: (Option<String>, String)| namespace_view(ns)),
            expected == namespace_views(namespaces@),
            have.len() == expected.len(),
            forall|k: int| 0 <= k < i ==> have.contains(#[trigger] expected[k]),
        decreases namespaces.len() - i,
    {
        let mut j: usize = 0;
        while j < found.len() && !namespaces[i].matches(&found[j])
            invariant
                0 <= j <= found.len(),
                i < namespaces.len(),
                have == found@.map_values(|ns: (Option<String>, String)| namespace_view(ns)),
                expected == namespace_views(namespaces@),
                forall|k: int| 0 <= k < j ==> have[k] != expected[i as int],
            decreases found.len() - j,
        {
            assert(have[j as int] == namespace_view(found@[j as int]));
            j = j + 1;
        }
        if j == found.len() {
            assert(!have.contains(expected[i as int]));
            return Err(DiscoveryError::NamespaceMismatch);
        }
        assert(have[j as int] == namespace_view(found@[j as int]));
        assert(have[j as int] == expected[i as int]);
        i = i + 1;
    }
    Ok(())
}

impl DiscoveryError {
    /// What the error says in words.
    pub open spec fn message_text(self) -> Seq<char> {
        match self {
            DiscoveryError::Malformed => "couldn't parse input document xml"@,
            DiscoveryError::NoRootElement => "document has no root element"@,
            DiscoveryError::NamespaceCount =>
                "root node doesn't have expected number of namespaces"@,
            DiscoveryError::NamespaceMismatch =>
                "at least one namespace differs from the expected"@,
            DiscoveryError::NoChildren => "node doesn't have any children"@,
            DiscoveryError::TooManyChildren => "node has more than one child"@,
            DiscoveryError::UnexpectedChildCount => "node has unexpected number of children"@,
            DiscoveryError::UnexpectedTag => "child has unexpected tag name"@,
            DiscoveryError::EmptyText => "node is only text child but it is empty"@,
            DiscoveryError::MissingPriority => "service element is missing priority attribute"@,
            DiscoveryError::InvalidPriority => "couldn't parse priority as an integer"@,
            DiscoveryError::NoService => "document names no service"@,
            DiscoveryError::WrongServiceType => "service is no OpenID 2.0 provider endpoint"@,
        }
    }

    /// What the error says in words.
    pub fn message(&self) -> (text: String)
        ensures
            text@ == self.message_text(),
    {
        match self {
            DiscoveryError::Malformed => String::from_str("couldn't parse input document xml"),
            DiscoveryError::NoRootElement => String::from_str("document has no root element"),
            DiscoveryError::NamespaceCount => String::from_str(
                "root node doesn't have expected number of namespaces",
            ),
            DiscoveryError::NamespaceMismatch => String::from_str(
                "at least one namespace differs from the expected",
            ),
            DiscoveryError::NoChildren => String::from_str("node doesn't have any children"),
            DiscoveryError::TooManyChildren => String::from_str("node has more than one child"),
            DiscoveryError::UnexpectedChildCount => String::from_str(
                "node has unexpected number of children",
            ),
            DiscoveryError::UnexpectedTag => String::from_str("child has unexpected tag name"),
            DiscoveryError::EmptyText => String::from_str(
                "node is only text child but it is empty",
            ),
            DiscoveryError::MissingPriority => String::from_str(
                "service element is missing priority attribute",
            ),
            DiscoveryError::InvalidPriority => String::from_str(
                "couldn't parse priority as an integer",
            ),
            DiscoveryError::NoService => String::from_str("document names no service"),
            DiscoveryError::WrongServiceType => String::from_str(
                "service is no OpenID 2.0 provider endpoint",
            ),
        }
    }
}

} // verus!
