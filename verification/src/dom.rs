//! A simple DOM-like tree for XML content.
//!
//! The types here mirror their `xml-rs` counterparts so that arbitrary XML
//! content can be stored verbatim as plain owned data that can be serialized
//! on its own. Every value type converts losslessly to and from its `xml-rs`
//! counterpart.

use vstd::prelude::*;
use std::collections::BTreeMap;

verus! {

broadcast use vstd::std_specs::vec::group_vec_axioms, vstd::seq::group_seq_axioms;

/// Mathematical model of an [`OwnedName`]: the three name parts as character
/// sequences.
#[verifier::ext_equal]
pub ghost struct NameView {
    pub local_name: Seq<char>,
    pub namespace: Option<Seq<char>>,
    pub prefix: Option<Seq<char>>,
}

/// Mathematical model of an [`OwnedAttribute`].
#[verifier::ext_equal]
pub ghost struct AttributeView {
    pub name: NameView,
    pub value: Seq<char>,
}

/// Mathematical model of an [`Element`]: its name, attributes in document
/// order, namespace mapping, and children in document order.
#[verifier::ext_equal]
pub ghost struct ElementView {
    pub name: NameView,
    pub attributes: Seq<AttributeView>,
    pub namespace: Map<Seq<char>, Seq<char>>,
    pub children: Seq<NodeView>,
}

/// Mathematical model of a [`ProcessingInstruction`].
#[verifier::ext_equal]
pub ghost struct ProcessingInstructionView {
    pub name: Seq<char>,
    pub data: Option<Seq<char>>,
}

/// Mathematical model of a [`Node`].
#[verifier::ext_equal]
pub ghost enum NodeView {
    Element(ElementView),
    ProcessingInstruction(ProcessingInstructionView),
    Text(Seq<char>),
    Comment(Seq<char>),
}

/// Our version of `xml::name::OwnedName`: a qualified XML name, split into
/// the local name, the resolved namespace URI (if any) and the namespace
/// prefix (if any).
#[derive(Debug, PartialEq, Eq, Hash)]
pub struct OwnedName {
    /// The local name ("tag name") of the element.
    pub local_name: String,
    /// The resolved namespace URI, if any is given.
    pub namespace: Option<String>,
    /// The namespace prefix.
    pub prefix: Option<String>,
}

impl Clone for OwnedName {
    /// A clone equals the original.
    fn clone(&self) -> (res: Self)
        ensures
            res == *self,
    {
        OwnedName {
            local_name: self.local_name.clone(),
            namespace: match &self.namespace {
                Some(s) => Some(s.clone()),
                None => None,
            },
            prefix: match &self.prefix {
                Some(s) => Some(s.clone()),
                None => None,
            },
        }
    }
}

/// The `xml-rs` counterpart of a name, field for field.
pub open spec fn spec_name_to_xml(n: OwnedName) -> xml::name::OwnedName {
    xml::name::OwnedName { local_name: n.local_name, namespace: n.namespace, prefix: n.prefix }
}

/// Our counterpart of an `xml-rs` name, field for field.
pub open spec fn spec_name_from_xml(x: xml::name::OwnedName) -> OwnedName {
    OwnedName { local_name: x.local_name, namespace: x.namespace, prefix: x.prefix }
}

/// Round-trip law: converting a name to the `xml-rs` representation and
/// back yields a value equal to the original.
pub proof fn lemma_name_round_trip(n: OwnedName)
    ensures
        spec_name_from_xml(spec_name_to_xml(n)) == n,
{
}

/// Round-trip law in the other direction: an `xml-rs` name survives the
/// trip through our representation unchanged.
pub proof fn lemma_xml_name_round_trip(x: xml::name::OwnedName)
    ensures
        spec_name_to_xml(spec_name_from_xml(x)) == x,
{
}

impl DeepView for OwnedName {
    type V = NameView;

    open spec fn deep_view(&self) -> NameView {
        NameView {
            local_name: self.local_name.deep_view(),
            namespace: self.namespace.deep_view(),
            prefix: self.prefix.deep_view(),
        }
    }
}

impl OwnedName {
    /// Create a new [`OwnedName`] with just the local name part set.
    pub fn from_local_name(name: String) -> (r: Self)
        ensures
            r.deep_view() == (NameView { local_name: name@, namespace: None, prefix: None }),
    {
        OwnedName { local_name: name, namespace: None, prefix: None }
    }

    /// Convert from the `xml-rs` name representation, losslessly.
    pub fn from_xml(other: xml::name::OwnedName) -> (r: Self)
        ensures
            r == spec_name_from_xml(other),
    {
        OwnedName {
            local_name: other.local_name,
            namespace: other.namespace,
            prefix: other.prefix,
        }
    }

    /// Convert into the `xml-rs` name representation, losslessly.
    pub fn into_xml(self) -> (r: xml::name::OwnedName)
        ensures
            r == spec_name_to_xml(self),
    {
        xml::name::OwnedName {
            local_name: self.local_name,
            namespace: self.namespace,
            prefix: self.prefix,
        }
    }

    /// Create a borrowed version of this name, for use in a writer.
    pub fn borrow<'a>(&'a self) -> (r: xml::name::Name<'a>)
        ensures
            r.local_name@ == self.local_name@,
            r.namespace is Some <==> self.namespace is Some,
            self.namespace is Some ==> r.namespace->0@ == self.namespace->0@,
            r.prefix is Some <==> self.prefix is Some,
            self.prefix is Some ==> r.prefix->0@ == self.prefix->0@,
    {
        xml::name::Name {
            local_name: self.local_name.as_str(),
            namespace: match &self.namespace {
                Some(s) => Some(s.as_str()),
                None => None,
            },
            prefix: match &self.prefix {
                Some(s) => Some(s.as_str()),
                None => None,
            },
        }
    }

    /// Structural equality of two names: local name, namespace and prefix
    /// must all agree.
    pub fn same_name(&self, other: &OwnedName) -> (r: bool)
        ensures
            r == (self.deep_view() == other.deep_view()),
    {
        let local_eq = self.local_name == other.local_name;
        let ns_eq = match (&self.namespace, &other.namespace) {
            (Some(a), Some(b)) => *a == *b,
            (None, None) => true,
            _ => false,
        };
        let prefix_eq = match (&self.prefix, &other.prefix) {
            (Some(a), Some(b)) => *a == *b,
            (None, None) => true,
            _ => false,
        };
        let r = local_eq && ns_eq && prefix_eq;
        proof {
            if r {
                assert(self.deep_view() =~= other.deep_view());
            }
        }
        r
    }

    /// Equality across representations: this name equals the `xml-rs` name
    /// exactly when local name, namespace and prefix all match.
    pub fn same_xml_name(&self, other: &xml::name::OwnedName) -> (r: bool)
        ensures
            r == (self.deep_view() == spec_name_from_xml(*other).deep_view()),
    {
        let local_eq = self.local_name == other.local_name;
        let ns_eq = match (&self.namespace, &other.namespace) {
            (Some(a), Some(b)) => *a == *b,
            (None, None) => true,
            _ => false,
        };
        let prefix_eq = match (&self.prefix, &other.prefix) {
            (Some(a), Some(b)) => *a == *b,
            (None, None) => true,
            _ => false,
        };
        let r = local_eq && ns_eq && prefix_eq;
        proof {
            if r {
                assert(self.deep_view() =~= spec_name_from_xml(*other).deep_view());
            }
        }
        r
    }
}

/// Our version of `xml::attribute::OwnedAttribute`: an attribute name
/// together with its value.
#[derive(Debug, PartialEq, Eq, Hash)]
pub struct OwnedAttribute {
    /// Name of the attribute.
    pub name: OwnedName,
    /// Value of the attribute.
    pub value: String,
}

impl Clone for OwnedAttribute {
    /// A clone equals the original.
    fn clone(&self) -> (res: Self)
        ensures
            res == *self,
    {
        OwnedAttribute { name: self.name.clone(), value: self.value.clone() }
    }
}

impl DeepView for OwnedAttribute {
    type V = AttributeView;

    open spec fn deep_view(&self) -> AttributeView {
        AttributeView { name: self.name.deep_view(), value: self.value.deep_view() }
    }
}

/// The `xml-rs` counterpart of an attribute, field for field.
pub open spec fn spec_attribute_to_xml(a: OwnedAttribute) -> xml::attribute::OwnedAttribute {
    xml::attribute::OwnedAttribute { name: spec_name_to_xml(a.name), value: a.value }
}

/// Our counterpart of an `xml-rs` attribute, field for field.
pub open spec fn spec_attribute_from_xml(x: xml::attribute::OwnedAttribute) -> OwnedAttribute {
    OwnedAttribute { name: spec_name_from_xml(x.name), value: x.value }
}

/// Round-trip law: converting an attribute to the `xml-rs` representation
/// and back yields a value equal to the original.
pub proof fn lemma_attribute_round_trip(a: OwnedAttribute)
    ensures
        spec_attribute_from_xml(spec_attribute_to_xml(a)) == a,
{
    lemma_name_round_trip(a.name);
}

/// Round-trip law in the other direction: an `xml-rs` attribute survives
/// the trip through our representation unchanged.
pub proof fn lemma_xml_attribute_round_trip(x: xml::attribute::OwnedAttribute)
    ensures
        spec_attribute_to_xml(spec_attribute_from_xml(x)) == x,
{
    lemma_xml_name_round_trip(x.name);
}

impl OwnedAttribute {
    /// Convert from the `xml-rs` attribute representation, losslessly.
    pub fn from_xml(other: xml::attribute::OwnedAttribute) -> (r: Self)
        ensures
            r == spec_attribute_from_xml(other),
    {
        OwnedAttribute { name: OwnedName::from_xml(other.name), value: other.value }
    }

    /// Convert into the `xml-rs` attribute representation, losslessly.
    pub fn into_xml(self) -> (r: xml::attribute::OwnedAttribute)
        ensures
            r == spec_attribute_to_xml(self),
    {
        xml::attribute::OwnedAttribute { name: self.name.into_xml(), value: self.value }
    }

    /// Equality across representations: this attribute equals the `xml-rs`
    /// attribute exactly when their names and values all match.
    pub fn same_xml_attribute(&self, other: &xml::attribute::OwnedAttribute) -> (r: bool)
        ensures
            r == (self.deep_view() == spec_attribute_from_xml(*other).deep_view()),
    {
        let r = self.name.same_xml_name(&other.name) && self.value == other.value;
        proof {
            if r {
                assert(self.deep_view() =~= spec_attribute_from_xml(*other).deep_view());
            }
        }
        r
    }

    /// Create a borrowed version of this attribute, for use in a writer.
    pub fn borrow<'a>(&'a self) -> (r: xml::attribute::Attribute<'a>)
        ensures
            r.name.local_name@ == self.name.local_name@,
            r.name.namespace is Some <==> self.name.namespace is Some,
            self.name.namespace is Some ==> r.name.namespace->0@ == self.name.namespace->0@,
            r.name.prefix is Some <==> self.name.prefix is Some,
            self.name.prefix is Some ==> r.name.prefix->0@ == self.name.prefix->0@,
            r.value@ == self.value@,
    {
        xml::attribute::Attribute { name: self.name.borrow(), value: self.value.as_str() }
    }
}

/// Our version of `xml::namespace::Namespace`: a mapping from namespace
/// prefixes to namespace URIs.
#[derive(Debug, PartialEq, Eq, Hash)]
pub struct Namespace(pub BTreeMap<String, String>);

impl Clone for Namespace {
    /// A clone holds the same mapping.
    fn clone(&self) -> (res: Self)
        ensures
            res.0@ == self.0@,
            res.deep_view() == self.deep_view(),
    {
        let res = Namespace(self.0.clone());
        proof {
            reveal(vstd::std_specs::btree::btree_map_deep_view_impl);
            assert(res.deep_view() =~= self.deep_view());
        }
        res
    }
}

impl DeepView for Namespace {
    type V = Map<Seq<char>, Seq<char>>;

    open spec fn deep_view(&self) -> Map<Seq<char>, Seq<char>> {
        self.0.deep_view()
    }
}

/// The `xml-rs` counterpart of a namespace mapping: the same map, rewrapped.
pub open spec fn spec_namespace_to_xml(ns: Namespace) -> xml::namespace::Namespace {
    xml::namespace::Namespace(ns.0)
}

/// Our counterpart of an `xml-rs` namespace mapping: the same map, rewrapped.
pub open spec fn spec_namespace_from_xml(x: xml::namespace::Namespace) -> Namespace {
    Namespace(x.0)
}

/// Round-trip law: converting a namespace mapping to the `xml-rs`
/// representation and back yields a value equal to the original.
pub proof fn lemma_namespace_round_trip(ns: Namespace)
    ensures
        spec_namespace_from_xml(spec_namespace_to_xml(ns)) == ns,
{
}

/// Round-trip law in the other direction: an `xml-rs` namespace mapping
/// survives the trip through our representation unchanged.
pub proof fn lemma_xml_namespace_round_trip(x: xml::namespace::Namespace)
    ensures
        spec_namespace_to_xml(spec_namespace_from_xml(x)) == x,
{
}

impl Namespace {
    /// Convert from the `xml-rs` namespace representation, losslessly.
    pub fn from_xml(other: xml::namespace::Namespace) -> (r: Self)
        ensures
            r == spec_namespace_from_xml(other),
    {
        Namespace(other.0)
    }

    /// Convert into the `xml-rs` namespace representation, losslessly.
    pub fn into_xml(self) -> (r: xml::namespace::Namespace)
        ensures
            r == spec_namespace_to_xml(self),
    {
        xml::namespace::Namespace(self.0)
    }

    /// Creates a new, empty namespace mapping.
    pub fn new() -> (r: Self)
        ensures
            r.deep_view() == Map::<Seq<char>, Seq<char>>::empty(),
    {
        let r = Namespace(BTreeMap::new());
        proof {
            reveal(vstd::std_specs::btree::btree_map_deep_view_impl);
            assert(r.deep_view() =~= Map::<Seq<char>, Seq<char>>::empty());
        }
        r
    }
}

impl Default for Namespace {
    fn default() -> (r: Self)
        ensures
            r.deep_view() == Map::<Seq<char>, Seq<char>>::empty(),
    {
        Namespace::new()
    }
}

/// Represents an XML element: the only recursive node kind, holding its
/// children in document order.
#[derive(Debug, PartialEq, Eq, Hash)]
pub struct Element {
    /// The name of the element.
    pub name: OwnedName,
    /// The attributes of the element.
    pub attributes: Vec<OwnedAttribute>,
    /// The namespace of the element.
    pub namespace: Namespace,
    /// Children nodes.
    pub children: Vec<Node>,
}

/// Model of an [`Element`], defined mutually with [`node_model`] so that the
/// recursion through the child vector is well-founded.
pub open spec fn element_model(e: Element) -> ElementView
    decreases e,
    via element_model_decreases
{
    ElementView {
        name: e.name.deep_view(),
        attributes: e.attributes.deep_view(),
        namespace: e.namespace.deep_view(),
        children: nodes_model(e.children@),
    }
}

#[via_fn]
proof fn element_model_decreases(e: Element) {
    assert(decreases_to!(e => e.children));
    assert(decreases_to!(e.children => e.children@));
}

/// Model of a sequence of [`Node`]s, in order; see [`element_model`].
pub open spec fn nodes_model(v: Seq<Node>) -> Seq<NodeView>
    decreases v,
{
    if v.len() == 0 {
        Seq::empty()
    } else {
        seq![node_model(v[0])] + nodes_model(v.subrange(1, v.len() as int))
    }
}

/// [`nodes_model`] is the pointwise [`node_model`]: it keeps length and
/// document order.
pub broadcast proof fn lemma_nodes_model(s: Seq<Node>)
    ensures
        (#[trigger] nodes_model(s)).len() == s.len(),
        forall|i: int| 0 <= i < s.len() ==> nodes_model(s)[i] == node_model(s[i]),
    decreases s.len(),
{
    if s.len() > 0 {
        lemma_nodes_model(s.subrange(1, s.len() as int));
        assert forall|i: int| 0 <= i < s.len() implies nodes_model(s)[i] == node_model(s[i]) by {
            if i > 0 {
                assert(s.subrange(1, s.len() as int)[i - 1] == s[i]);
            }
        }
    }
}

/// Model of a [`Node`]; see [`element_model`].
pub open spec fn node_model(n: Node) -> NodeView
    decreases n,
{
    match n {
        Node::Element(e) => NodeView::Element(element_model(e)),
        Node::ProcessingInstruction(pi) => NodeView::ProcessingInstruction(pi.deep_view()),
        Node::Text(t) => NodeView::Text(t.deep_view()),
        Node::Comment(c) => NodeView::Comment(c.deep_view()),
    }
}

impl DeepView for Element {
    type V = ElementView;

    open spec fn deep_view(&self) -> ElementView {
        element_model(*self)
    }
}

/// See [`Element::clone`]: defined mutually with [`clone_node`] so that the
/// recursion through the child vector is well-founded.
fn clone_element(e: &Element) -> (res: Element)
    ensures
        res.deep_view() == e.deep_view(),
    decreases *e,
{
    let mut attributes: Vec<OwnedAttribute> = Vec::new();
    let mut i: usize = 0;
    while i < e.attributes.len()
        invariant
            i <= e.attributes.len(),
            attributes@.len() == i,
            forall|j: int| 0 <= j < i ==> attributes@[j] == e.attributes@[j],
        decreases e.attributes.len() - i,
    {
        attributes.push(e.attributes[i].clone());
        i += 1;
    }
    let mut children: Vec<Node> = Vec::new();
    let mut i: usize = 0;
    while i < e.children.len()
        invariant
            i <= e.children.len(),
            children@.len() == i,
            forall|j: int|
                0 <= j < i ==> children@[j].deep_view() == e.children@[j].deep_view(),
        decreases e.children.len() - i,
    {
        proof {
            assert(decreases_to!(e.children => e.children@));
            assert(decreases_to!(e.children@ => e.children@[i as int]));
        }
        let child = clone_node(&e.children[i]);
        children.push(child);
        i += 1;
    }
    let res = Element {
        name: e.name.clone(),
        attributes,
        namespace: e.namespace.clone(),
        children,
    };
    proof {
        lemma_nodes_model(res.children@);
        lemma_nodes_model(e.children@);
        assert(element_model(res).attributes =~= element_model(*e).attributes);
        assert(element_model(res).children =~= element_model(*e).children);
        assert(element_model(res) =~= element_model(*e));
    }
    res
}

/// See [`clone_element`].
fn clone_node(n: &Node) -> (res: Node)
    ensures
        res.deep_view() == n.deep_view(),
    decreases *n,
{
    match n {
        Node::Element(e) => Node::Element(clone_element(e)),
        Node::ProcessingInstruction(pi) => Node::ProcessingInstruction(pi.clone()),
        Node::Text(t) => Node::Text(t.clone()),
        Node::Comment(c) => Node::Comment(c.clone()),
    }
}

impl Clone for Element {
    /// A clone has the same model as the original: the same name, attributes,
    /// namespace mapping and children, in order, all the way down.
    fn clone(&self) -> (res: Self)
        ensures
            res.deep_view() == self.deep_view(),
    {
        clone_element(self)
    }
}

impl Element {
    /// Create a new element with the given name, attributes and namespace,
    /// and no children.
    pub fn new(name: OwnedName, attributes: Vec<OwnedAttribute>, namespace: Namespace) -> (r: Self)
        ensures
            r.deep_view() == (ElementView {
                name: name.deep_view(),
                attributes: attributes.deep_view(),
                namespace: namespace.deep_view(),
                children: Seq::empty(),
            }),
    {
        let r = Element { name, attributes, namespace, children: Vec::new() };
        proof {
            assert(element_model(r).children =~= Seq::<NodeView>::empty());
        }
        r
    }

    /// Creates a new element with the given name and neither attributes nor
    /// namespace entries.
    pub fn with_name(name: OwnedName) -> (r: Self)
        ensures
            r.deep_view() == (ElementView {
                name: name.deep_view(),
                attributes: Seq::empty(),
                namespace: Map::empty(),
                children: Seq::empty(),
            }),
    {
        let attributes: Vec<OwnedAttribute> = Vec::new();
        proof {
            assert(attributes.deep_view() =~= Seq::<AttributeView>::empty());
        }
        Element::new(name, attributes, Namespace::new())
    }

    /// Creates a new element with the given local name, and no prefix and
    /// namespace set.
    pub fn with_local_name(name: String) -> (r: Self)
        ensures
            r.deep_view() == (ElementView {
                name: NameView { local_name: name@, namespace: None, prefix: None },
                attributes: Seq::empty(),
                namespace: Map::empty(),
                children: Seq::empty(),
            }),
    {
        Element::with_name(OwnedName::from_local_name(name))
    }
}

/// Represents a processing instruction.
#[derive(Debug, PartialEq, Eq, Hash)]
pub struct ProcessingInstruction {
    /// Target of the processing instruction.
    pub name: String,
    /// (Opaque) data of the processing instruction.
    pub data: Option<String>,
}

impl Clone for ProcessingInstruction {
    /// A clone equals the original.
    fn clone(&self) -> (res: Self)
        ensures
            res == *self,
    {
        ProcessingInstruction {
            name: self.name.clone(),
            data: match &self.data {
                Some(s) => Some(s.clone()),
                None => None,
            },
        }
    }
}

impl DeepView for ProcessingInstruction {
    type V = ProcessingInstructionView;

    open spec fn deep_view(&self) -> ProcessingInstructionView {
        ProcessingInstructionView { name: self.name.deep_view(), data: self.data.deep_view() }
    }
}

/// Represents raw characters in the input string, outside of tags.
#[derive(Debug, PartialEq, Eq, Hash)]
pub struct Text(pub String);

impl Clone for Text {
    /// A clone equals the original.
    fn clone(&self) -> (res: Self)
        ensures
            res == *self,
    {
        Text(self.0.clone())
    }
}

impl DeepView for Text {
    type V = Seq<char>;

    open spec fn deep_view(&self) -> Seq<char> {
        self.0.deep_view()
    }
}

/// Represents a comment.
#[derive(Debug, PartialEq, Eq, Hash)]
pub struct Comment(pub String);

impl Clone for Comment {
    /// A clone equals the original.
    fn clone(&self) -> (res: Self)
        ensures
            res == *self,
    {
        Comment(self.0.clone())
    }
}

impl DeepView for Comment {
    type V = Seq<char>;

    open spec fn deep_view(&self) -> Seq<char> {
        self.0.deep_view()
    }
}

/// Represents any XML node.
#[derive(Debug, PartialEq, Eq, Hash)]
pub enum Node {
    Element(Element),
    ProcessingInstruction(ProcessingInstruction),
    Text(Text),
    Comment(Comment),
}

impl DeepView for Node {
    type V = NodeView;

    open spec fn deep_view(&self) -> NodeView {
        node_model(*self)
    }
}

impl Clone for Node {
    /// A clone has the same model as the original.
    fn clone(&self) -> (res: Self)
        ensures
            res.deep_view() == self.deep_view(),
    {
        clone_node(self)
    }
}

impl From<Element> for Node {
    fn from(element: Element) -> (r: Self) {
        Node::Element(element)
    }
}

impl vstd::std_specs::convert::FromSpecImpl<Element> for Node {
    open spec fn obeys_from_spec() -> bool {
        true
    }

    open spec fn from_spec(element: Element) -> Node {
        Node::Element(element)
    }
}

impl From<ProcessingInstruction> for Node {
    fn from(pi: ProcessingInstruction) -> (r: Self) {
        Node::ProcessingInstruction(pi)
    }
}

impl vstd::std_specs::convert::FromSpecImpl<ProcessingInstruction> for Node {
    open spec fn obeys_from_spec() -> bool {
        true
    }

    open spec fn from_spec(pi: ProcessingInstruction) -> Node {
        Node::ProcessingInstruction(pi)
    }
}

impl From<Text> for Node {
    fn from(text: Text) -> (r: Self) {
        Node::Text(text)
    }
}

impl vstd::std_specs::convert::FromSpecImpl<Text> for Node {
    open spec fn obeys_from_spec() -> bool {
        true
    }

    open spec fn from_spec(text: Text) -> Node {
        Node::Text(text)
    }
}

impl From<Comment> for Node {
    fn from(comment: Comment) -> (r: Self) {
        Node::Comment(comment)
    }
}

impl vstd::std_specs::convert::FromSpecImpl<Comment> for Node {
    open spec fn obeys_from_spec() -> bool {
        true
    }

    open spec fn from_spec(comment: Comment) -> Node {
        Node::Comment(comment)
    }
}

} // verus!
