//! The provider that discovery resolved: where its endpoint is and which
//! protocol version it speaks.

use crate::constants::{OPENID_AUTH_NAMESPACE, OPENID_PRIORITY_ATTRIBUTE,
    OPENID_PROVIDER_IDENTIFIER};
use crate::number::{integer_in, parse_integer};
use crate::text::{chars_of, same_text};
use crate::xml::{document_nodes, node_attribute, node_name, parse_document, xml_nodes,
    XmlNamespace, XmlNode};
use crate::xml_util::{child_set_spec, children_exact_spec, get_child_set, get_children_exact,
    get_only_child, get_only_text_child, in_document, namespace_views, namespaces_eq,
    namespaces_spec, only_child_spec, only_text_child_spec, root_element, root_element_spec,
    tag_texts, DiscoveryError, Namespace};
use vstd::prelude::*;
use vstd::string::StringExecFns;

verus! {

/// One service of a discovery document.
#[derive(Debug, Clone, PartialEq, Eq)]
pub struct Service {
    pub version: String,
    pub endpoint: String,
    pub local_id: Option<String>,
    pub priority: Option<i32>,
}

/// The mathematical value of a [`Service`].
pub struct ServiceView {
    pub version: Seq<char>,
    pub endpoint: Seq<char>,
    pub local_id: Option<Seq<char>>,
    pub priority: Option<int>,
}

impl View for Service {
    type V = ServiceView;

    open spec fn view(&self) -> ServiceView {
        ServiceView {
            version: self.version@,
            endpoint: self.endpoint@,
            local_id: match self.local_id {
                Some(id) => Some(id@),
                None => None,
            },
            priority: match self.priority {
                Some(p) => Some(p as int),
                None => None,
            },
        }
    }
}

/// An OpenID provider: the service that discovery chose.
#[derive(Debug, Clone, PartialEq, Eq)]
pub struct Provider {
    pub service: Service,
}

impl View for Provider {
    type V = ServiceView;

    open spec fn view(&self) -> ServiceView {
        self.service@
    }
}

impl Provider {
    /// The provider of the Steam community, as its discovery document
    /// states it.
    pub fn steam() -> (provider: Provider)
        ensures
            provider@ == (ServiceView {
                version: "http://specs.openid.net/auth/2.0/server"@,
                endpoint: "https://steamcommunity.com/openid/login"@,
                local_id: None,
                priority: Some(0int),
            }),
    {
        let service = Service {
            version: String::from_str("http://specs.openid.net/auth/2.0/server"),
            endpoint: String::from_str("https://steamcommunity.com/openid/login"),
            local_id: None,
            priority: Some(0),
        };
        Provider { service }
    }

    /// The URL that takes the provider's protocol messages.
    pub fn endpoint(&self) -> (url: &str)
        ensures
            url@ == self@.endpoint,
    {
        self.service.endpoint.as_str()
    }

    /// The protocol version of the provider.
    pub fn version(&self) -> (version: &str)
        ensures
            version@ == self@.version,
    {
        self.service.version.as_str()
    }
}

/// The default namespace of a discovery document.
pub const NAMESPACE_DEFAULT: &'static str = "xri://$xrd*($v*2.0)";

/// The namespace that a discovery document declares under the prefix
/// `xrds`.
pub const NAMESPACE_XRDS: &'static str = "xri://$xrds";

/// The prefix of [`NAMESPACE_XRDS`].
pub const PREFIX_XRDS: &'static str = "xrds";

/// The element that describes a provider.
pub const TAG_NAME_XRD: &'static str = "XRD";

/// The element that describes one service of a provider.
pub const TAG_NAME_SERVICE: &'static str = "Service";

/// The element that holds the type of a service.
pub const TAG_NAME_TYPE: &'static str = "Type";

/// The element that holds the endpoint of a service.
pub const TAG_NAME_URI: &'static str = "URI";

/// The two namespaces that the root element of a discovery document must
/// have, and no others.
pub open spec fn expected_namespaces() -> Seq<XmlNamespace> {
    seq![
        XmlNamespace { name: None, uri: NAMESPACE_DEFAULT@ },
        XmlNamespace { name: Some(PREFIX_XRDS@), uri: NAMESPACE_XRDS@ },
    ]
}

/// What the element `id` says as a service. The element must be named
/// `Service`, carry a priority that is a 32-bit integer, and hold exactly a
/// `Type` and a `URI`, each with one text; the type must be that of an
/// OpenID 2.0 provider endpoint. Anything else is an error.
pub open spec fn service_spec(nodes: Seq<XmlNode>, id: u32) -> Result<ServiceView, DiscoveryError> {
    let node = nodes[id as int];
    if node.name != TAG_NAME_SERVICE@ {
        Err(DiscoveryError::UnexpectedTag)
    } else if !node.attributes.contains_key(OPENID_PRIORITY_ATTRIBUTE@) {
        Err(DiscoveryError::MissingPriority)
    } else {
        match integer_in(
            node.attributes[OPENID_PRIORITY_ATTRIBUTE@],
            true,
            -0x8000_0000,
            0x7fff_ffff,
        ) {
            None => Err(DiscoveryError::InvalidPriority),
            Some(priority) => match child_set_spec(nodes, id, seq![TAG_NAME_URI@, TAG_NAME_TYPE@]) {
                Err(e) => Err(e),
                Ok(kids) => match only_text_child_spec(nodes, kids[1]) {
                    Err(e) => Err(e),
                    Ok(kind) => match only_text_child_spec(nodes, kids[0]) {
                        Err(e) => Err(e),
                        Ok(endpoint) => if kind != OPENID_PROVIDER_IDENTIFIER@ {
                            Err(DiscoveryError::WrongServiceType)
                        } else {
                            Ok(
                                ServiceView {
                                    version: OPENID_AUTH_NAMESPACE@,
                                    endpoint,
                                    local_id: None,
                                    priority: Some(priority),
                                },
                            )
                        },
                    },
                },
            },
        }
    }
}

/// The rank of a service: its priority, the lowest first. A service
/// without priority comes after all that have one.
pub open spec fn rank(service: ServiceView) -> int {
    match service.priority {
        Some(p) => p,
        None => 0x8000_0000,
    }
}

/// The better of the best service so far and a new one: the new one only
/// where its rank is strictly lower.
pub open spec fn better(best: ServiceView, candidate: ServiceView) -> ServiceView {
    if rank(candidate) < rank(best) {
        candidate
    } else {
        best
    }
}

/// The service of the lowest rank among `best` and the services that the
/// elements `ids` state; of two with the same rank, the earlier. One
/// element that states no service is an error.
pub open spec fn choose_service(nodes: Seq<XmlNode>, ids: Seq<u32>, best: ServiceView) -> Result<
    ServiceView,
    DiscoveryError,
>
    decreases ids.len(),
{
    if ids.len() == 0 {
        Ok(best)
    } else {
        match service_spec(nodes, ids[0]) {
            Err(e) => Err(e),
            Ok(s) => choose_service(nodes, ids.drop_first(), better(best, s)),
        }
    }
}

/// The provider that the element `xrd` describes: the service of the
/// lowest priority among its elements, all of which must state a service.
pub open spec fn provider_of_node(nodes: Seq<XmlNode>, xrd: u32) -> Result<
    ServiceView,
    DiscoveryError,
> {
    if nodes[xrd as int].name != TAG_NAME_XRD@ {
        Err(DiscoveryError::UnexpectedTag)
    } else {
        match children_exact_spec(nodes, xrd, TAG_NAME_SERVICE@) {
            Err(e) => Err(e),
            Ok(ids) => if ids.len() == 0 {
                Err(DiscoveryError::NoService)
            } else {
                match service_spec(nodes, ids[0]) {
                    Err(e) => Err(e),
                    Ok(first) => choose_service(nodes, ids.drop_first(), first),
                }
            },
        }
    }
}

/// The provider that a document describes: its root element has exactly
/// the two expected namespaces and one child, `XRD`, which holds the
/// services.
pub open spec fn provider_of_document(nodes: Seq<XmlNode>) -> Result<ServiceView, DiscoveryError> {
    match root_element_spec(nodes) {
        Err(e) => Err(e),
        Ok(root) => match namespaces_spec(nodes, root, expected_namespaces()) {
            Err(e) => Err(e),
            Ok(_) => match only_child_spec(nodes, root, TAG_NAME_XRD@) {
                Err(e) => Err(e),
                Ok(xrd) => provider_of_node(nodes, xrd),
            },
        },
    }
}

/// The provider that the text `xml` describes.
pub open spec fn discover_spec(xml: Seq<char>) -> Result<ServiceView, DiscoveryError> {
    match xml_nodes(xml) {
        None => Err(DiscoveryError::Malformed),
        Some(nodes) => provider_of_document(nodes),
    }
}

/// A service that was read, or the reason why none was.
pub open spec fn service_outcome(r: Result<Service, DiscoveryError>) -> Result<
    ServiceView,
    DiscoveryError,
> {
    match r {
        Ok(s) => Ok(s@),
        Err(e) => Err(e),
    }
}

/// A provider that was resolved, or the reason why none was.
pub open spec fn provider_outcome(r: Result<Provider, DiscoveryError>) -> Result<
    ServiceView,
    DiscoveryError,
> {
    match r {
        Ok(p) => Ok(p@),
        Err(e) => Err(e),
    }
}

/// A service is built only from an element that is wholly as expected, and
/// then it holds what the element says: the text of its `URI` as endpoint
/// and its priority attribute as priority.
pub proof fn lemma_service_is_what_the_element_says(nodes: Seq<XmlNode>, id: u32)
    ensures
        service_spec(nodes, id) matches Ok(s) ==> {
            let node = nodes[id as int];
            let kids = child_set_spec(nodes, id, seq![TAG_NAME_URI@, TAG_NAME_TYPE@]);
            &&& node.name == TAG_NAME_SERVICE@
            &&& node.attributes.contains_key(OPENID_PRIORITY_ATTRIBUTE@)
            &&& integer_in(
                node.attributes[OPENID_PRIORITY_ATTRIBUTE@],
                true,
                -0x8000_0000,
                0x7fff_ffff,
            ) == s.priority
            &&& s.priority is Some
            &&& kids is Ok
            &&& only_text_child_spec(nodes, kids->Ok_0[1]) == Ok::<_, DiscoveryError>(
                OPENID_PROVIDER_IDENTIFIER@,
            )
            &&& only_text_child_spec(nodes, kids->Ok_0[0]) == Ok::<_, DiscoveryError>(s.endpoint)
            &&& s.version == OPENID_AUTH_NAMESPACE@
            &&& s.local_id is None
        },
{
}

/// What was chosen is the best so far or one of the services, and neither
/// the best so far nor any of the services has a lower rank. Nothing is
/// chosen exactly where one of the elements states no service.
pub proof fn lemma_chosen_is_least(nodes: Seq<XmlNode>, ids: Seq<u32>, best: ServiceView)
    ensures
        match choose_service(nodes, ids, best) {
            Ok(s) => {
                &&& s == best || exists|i: int|
                    0 <= i < ids.len() && service_spec(nodes, ids[i]) == Ok::<_, DiscoveryError>(s)
                &&& rank(s) <= rank(best)
                &&& forall|i: int|
                    0 <= i < ids.len() ==> (service_spec(nodes, #[trigger] ids[i]) matches Ok(o)
                        && rank(s) <= rank(o))
            },
            Err(e) => exists|i: int|
                0 <= i < ids.len() && service_spec(nodes, ids[i]) == Err::<ServiceView, _>(e),
        },
    decreases ids.len(),
{
    if ids.len() > 0 {
        let rest = ids.drop_first();
        match service_spec(nodes, ids[0]) {
            Err(e) => {},
            Ok(first) => {
                let next = better(best, first);
                lemma_chosen_is_least(nodes, rest, next);
                match choose_service(nodes, rest, next) {
                    Ok(s) => {
                        if s != next {
                            let i = choose|i: int|
                                0 <= i < rest.len() && service_spec(nodes, rest[i]) == Ok::<
                                    _,
                                    DiscoveryError,
                                >(s);
                            assert(rest[i] == ids[i + 1]);
                        } else if s != best {
                            assert(service_spec(nodes, ids[0]) == Ok::<_, DiscoveryError>(s));
                        }
                        assert forall|i: int| 0 <= i < ids.len() implies (service_spec(
                            nodes,
                            #[trigger] ids[i],
                        ) matches Ok(o) && rank(s) <= rank(o)) by {
                            if i > 0 {
                                assert(rest[i - 1] == ids[i]);
                            }
                        }
                    },
                    Err(e) => {
                        let i = choose|i: int|
                            0 <= i < rest.len() && service_spec(nodes, rest[i]) == Err::<
                                ServiceView,
                                _,
                            >(e);
                        assert(rest[i] == ids[i + 1]);
                    },
                }
            },
        }
    }
}

/// The provider that an element describes is one of the services that its
/// elements state, and none of them has a lower priority. There is no
/// provider where one of the elements states no service.
pub proof fn lemma_provider_is_least(nodes: Seq<XmlNode>, xrd: u32)
    ensures
        match provider_of_node(nodes, xrd) {
            Ok(s) => children_exact_spec(nodes, xrd, TAG_NAME_SERVICE@) matches Ok(ids) && {
                &&& exists|i: int|
                    0 <= i < ids.len() && service_spec(nodes, ids[i]) == Ok::<_, DiscoveryError>(s)
                &&& forall|i: int|
                    0 <= i < ids.len() ==> (service_spec(nodes, #[trigger] ids[i]) matches Ok(o)
                        && rank(s) <= rank(o))
            },
            Err(e) => true,
        },
{
    if nodes[xrd as int].name == TAG_NAME_XRD@ {
        if let Ok(ids) = children_exact_spec(nodes, xrd, TAG_NAME_SERVICE@) {
            if ids.len() > 0 {
                if let Ok(first) = service_spec(nodes, ids[0]) {
                    let rest = ids.drop_first();
                    lemma_chosen_is_least(nodes, rest, first);
                    if let Ok(s) = choose_service(nodes, rest, first) {
                        if s != first {
                            let i = choose|i: int|
                                0 <= i < rest.len() && service_spec(nodes, rest[i]) == Ok::<
                                    _,
                                    DiscoveryError,
                                >(s);
                            assert(rest[i] == ids[i + 1]);
                        }
                        assert forall|i: int| 0 <= i < ids.len() implies (service_spec(
                            nodes,
                            #[trigger] ids[i],
                        ) matches Ok(o) && rank(s) <= rank(o)) by {
                            if i > 0 {
                                assert(rest[i - 1] == ids[i]);
                            }
                        }
                    }
                }
            }
        }
    }
}

/// A document whose root element lacks one of the two expected namespaces
/// describes no provider.
pub proof fn lemma_missing_namespace(nodes: Seq<XmlNode>, root: u32, i: int)
    requires
        root_element_spec(nodes) == Ok::<_, DiscoveryError>(root),
        0 <= i < expected_namespaces().len(),
        !nodes[root as int].namespaces.contains(expected_namespaces()[i]),
    ensures
        provider_of_document(nodes) is Err,
        provider_of_document(nodes) == Err::<ServiceView, _>(DiscoveryError::NamespaceCount)
            || provider_of_document(nodes) == Err::<ServiceView, _>(
            DiscoveryError::NamespaceMismatch,
        ),
{
}

/// The rank of a service.
pub fn rank_of(service: &Service) -> (r: i64)
    ensures
        r == rank(service@),
{
    match service.priority {
        Some(p) => p as i64,
        None => 0x8000_0000,
    }
}

impl Service {
    /// Reads the element `service_node` as a service.
    pub fn from_node(doc: &roxmltree::Document, service_node: u32) -> (r: Result<
        Service,
        DiscoveryError,
    >)
        requires
            service_node < document_nodes(*doc).len(),
        ensures
            service_outcome(r) == service_spec(document_nodes(*doc), service_node),
    {
        if !same_text(node_name(doc, service_node).as_str(), TAG_NAME_SERVICE) {
            return Err(DiscoveryError::UnexpectedTag);
        }
        let priority = match node_attribute(doc, service_node, OPENID_PRIORITY_ATTRIBUTE) {
            Some(text) => match parse_integer(
                &chars_of(text.as_str()),
                true,
                -0x8000_0000,
                0x7fff_ffff,
            ) {
                Some(p) => p as i32,
                None => {
                    return Err(DiscoveryError::InvalidPriority);
                },
            },
            None => {
                return Err(DiscoveryError::MissingPriority);
            },
        };
        let mut tags: Vec<&str> = Vec::new();
        tags.push(TAG_NAME_URI);
        tags.push(TAG_NAME_TYPE);
        proof {
            reveal_strlit("URI");
            reveal_strlit("Type");
            assert(tag_texts(tags@) =~= seq![TAG_NAME_URI@, TAG_NAME_TYPE@]);
            assert(TAG_NAME_URI@.len() != TAG_NAME_TYPE@.len());
        }
        let kids = match get_child_set(doc, service_node, &tags) {
            Ok(kids) => kids,
            Err(e) => {
                return Err(e);
            },
        };
        assert(kids@[0] < document_nodes(*doc).len());
        assert(kids@[1] < document_nodes(*doc).len());
        let kind = match get_only_text_child(doc, kids[1]) {
            Ok(kind) => kind,
            Err(e) => {
                return Err(e);
            },
        };
        let endpoint = match get_only_text_child(doc, kids[0]) {
            Ok(endpoint) => endpoint,
            Err(e) => {
                return Err(e);
            },
        };
        if !same_text(kind.as_str(), OPENID_PROVIDER_IDENTIFIER) {
            return Err(DiscoveryError::WrongServiceType);
        }
        Ok(
            Service {
                version: String::from_str(OPENID_AUTH_NAMESPACE),
                endpoint,
                local_id: None,
                priority: Some(priority),
            },
        )
    }
}

impl Provider {
    /// Reads the element `xrd_node` as the description of a provider: all
    /// its elements are services, and the one of the lowest priority among
    /// them is the provider.
    pub fn from_node(doc: &roxmltree::Document, xrd_node: u32) -> (r: Result<
        Provider,
        DiscoveryError,
    >)
        requires
            xrd_node < document_nodes(*doc).len(),
        ensures
            provider_outcome(r) == provider_of_node(document_nodes(*doc), xrd_node),
    {
        if !same_text(node_name(doc, xrd_node).as_str(), TAG_NAME_XRD) {
            return Err(DiscoveryError::UnexpectedTag);
        }
        let ids = match get_children_exact(doc, xrd_node, TAG_NAME_SERVICE) {
            Ok(ids) => ids,
            Err(e) => {
                return Err(e);
            },
        };
        if ids.len() == 0 {
            return Err(DiscoveryError::NoService);
        }
        let ghost nodes = document_nodes(*doc);
        assert(ids@[0] < nodes.len());
        let mut best = match Service::from_node(doc, ids[0]) {
            Ok(first) => first,
            Err(e) => {
                return Err(e);
            },
        };
        let mut i: usize = 1;
        assert(ids@.skip(1) =~= ids@.drop_first());
        while i < ids.len()
            invariant
                1 <= i <= ids.len(),
                nodes == document_nodes(*doc),
                in_document(nodes, ids@),
                provider_of_node(nodes, xrd_node) == choose_service(
                    nodes,
                    ids@.skip(i as int),
                    best@,
                ),
            decreases ids.len() - i,
        {
            assert(ids@[i as int] < nodes.len());
            proof {
                assert(ids@.skip(i as int)[0] == ids@[i as int]);
                assert(ids@.skip(i as int).drop_first() =~= ids@.skip(i + 1));
            }
            match Service::from_node(doc, ids[i]) {
                Err(e) => {
                    return Err(e);
                },
                Ok(candidate) => {
                    if rank_of(&candidate) < rank_of(&best) {
                        best = candidate;
                    }
                },
            }
            i = i + 1;
        }
        Ok(Provider { service: best })
    }

    /// Resolves the provider that a parsed discovery document describes.
    pub fn from_document(doc: &roxmltree::Document) -> (r: Result<Provider, DiscoveryError>)
        ensures
            provider_outcome(r) == provider_of_document(document_nodes(*doc)),
    {
        let root = match root_element(doc) {
            Ok(root) => root,
            Err(e) => {
                return Err(e);
            },
        };
        let mut expected: Vec<Namespace> = Vec::new();
        expected.push(Namespace::new(None, NAMESPACE_DEFAULT));
        expected.push(Namespace::new(Some(PREFIX_XRDS), NAMESPACE_XRDS));
        assert(namespace_views(expected@) =~= expected_namespaces());
        match namespaces_eq(doc, root, &expected) {
            Ok(_) => {},
            Err(e) => {
                return Err(e);
            },
        }
        let xrd = match get_only_child(doc, root, TAG_NAME_XRD) {
            Ok(xrd) => xrd,
            Err(e) => {
                return Err(e);
            },
        };
        Provider::from_node(doc, xrd)
    }

    /// Resolves the provider that the discovery document `xml` describes.
    pub fn from_xml(xml: &str) -> (r: Result<Provider, DiscoveryError>)
        ensures
            provider_outcome(r) == discover_spec(xml@),
    {
        match parse_document(xml) {
            None => Err(DiscoveryError::Malformed),
            Some(doc) => Provider::from_document(&doc),
        }
    }
}

/// Resolves the provider that the discovery document `xml` describes.
pub fn parse_xml(xml: &str) -> (r: Result<Provider, DiscoveryError>)
    ensures
        provider_outcome(r) == discover_spec(xml@),
{
    Provider::from_xml(xml)
}

} // verus!
