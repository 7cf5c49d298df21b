//! The tree builder for extension regions.
//!
//! An extension region is a bounded sub-sequence of a streaming XML event
//! source: it begins at a start tag whose local name equals a configured root
//! tag name and ends at the matching end tag. The builder consumes such a
//! sequence of events one at a time and materializes it into one completed
//! [`Element`], or reports a classified [`ExtensionError`].

use vstd::prelude::*;
use crate::dom::{
    AttributeView, Comment, Element, ElementView, NameView, Namespace, Node, NodeView,
    OwnedAttribute, OwnedName, Text,
};

verus! {

broadcast use vstd::std_specs::vec::group_vec_axioms, vstd::seq::group_seq_axioms,
    crate::dom::lemma_nodes_model;

/// One structural token of an XML document, as handed to the tree builder.
///
/// `Other` stands for every event kind the builder ignores (document
/// start and end, whitespace-only character data, CDATA and processing
/// instructions; the latter are a documented scope gap of the builder).
#[derive(Debug)]
pub enum Event {
    /// An opening tag, with its attributes and in-scope namespace mapping.
    StartElement { name: OwnedName, attributes: Vec<OwnedAttribute>, namespace: Namespace },
    /// A closing tag.
    EndElement { name: OwnedName },
    /// Raw character data, verbatim and untrimmed.
    Characters(String),
    /// A comment.
    Comment(String),
    /// An error the underlying event source reported, with its message; the
    /// builder propagates it unchanged as `UnderlyingReaderError`.
    StreamError(String),
    /// Any event kind the builder ignores.
    Other,
}

/// Mathematical model of an [`Event`].
#[verifier::ext_equal]
pub ghost enum EventView {
    StartElement { name: NameView, attributes: Seq<AttributeView>, namespace: Map<Seq<char>, Seq<char>> },
    EndElement { name: NameView },
    Characters(Seq<char>),
    Comment(Seq<char>),
    StreamError(Seq<char>),
    Other,
}

impl DeepView for Event {
    type V = EventView;

    open spec fn deep_view(&self) -> EventView {
        match self {
            Event::StartElement { name, attributes, namespace } => EventView::StartElement {
                name: name.deep_view(),
                attributes: attributes.deep_view(),
                namespace: namespace.deep_view(),
            },
            Event::EndElement { name } => EventView::EndElement { name: name.deep_view() },
            Event::Characters(s) => EventView::Characters(s.deep_view()),
            Event::Comment(s) => EventView::Comment(s.deep_view()),
            Event::StreamError(s) => EventView::StreamError(s.deep_view()),
            Event::Other => EventView::Other,
        }
    }
}

/// The event kind an `xml-rs` reader event stands for, over views: start
/// and end tags, character data and comments keep their content; every
/// other kind is ignored.
pub open spec fn spec_event_from_xml(ev: xml::reader::XmlEvent) -> EventView {
    match ev {
        xml::reader::XmlEvent::StartElement { name, attributes, namespace } => EventView::StartElement {
            name: crate::dom::spec_name_from_xml(name).deep_view(),
            attributes: Seq::new(
                attributes@.len(),
                |i: int| crate::dom::spec_attribute_from_xml(attributes@[i]).deep_view(),
            ),
            namespace: crate::dom::spec_namespace_from_xml(namespace).deep_view(),
        },
        xml::reader::XmlEvent::EndElement { name } => EventView::EndElement {
            name: crate::dom::spec_name_from_xml(name).deep_view(),
        },
        xml::reader::XmlEvent::Characters(s) => EventView::Characters(s@),
        xml::reader::XmlEvent::Comment(s) => EventView::Comment(s@),
        _ => EventView::Other,
    }
}

impl Event {
    /// Reduce one `xml-rs` reader event to the builder's event kinds,
    /// converting names, attributes and namespaces losslessly.
    pub fn from_xml_event(event: xml::reader::XmlEvent) -> (r: Event)
        ensures
            r.deep_view() == spec_event_from_xml(event),
    {
        match event {
            xml::reader::XmlEvent::StartElement { name, attributes, namespace } => {
                let ghost xs = attributes@;
                let mut converted: Vec<OwnedAttribute> = Vec::new();
                let mut attributes = attributes;
                while attributes.len() > 0
                    invariant
                        attributes@.len() + converted@.len() == xs.len(),
                        forall|i: int|
                            0 <= i < attributes@.len() ==> attributes@[i] == xs[converted@.len()
                                + i],
                        forall|i: int|
                            0 <= i < converted@.len() ==> converted@[i]
                                == crate::dom::spec_attribute_from_xml(xs[i]),
                    decreases attributes@.len(),
                {
                    let a = attributes.remove(0);
                    converted.push(OwnedAttribute::from_xml(a));
                }
                let r = Event::StartElement {
                    name: OwnedName::from_xml(name),
                    attributes: converted,
                    namespace: Namespace::from_xml(namespace),
                };
                proof {
                    assert(r.deep_view() =~~= spec_event_from_xml(event));
                }
                r
            },
            xml::reader::XmlEvent::EndElement { name } => Event::EndElement {
                name: OwnedName::from_xml(name),
            },
            xml::reader::XmlEvent::Characters(s) => Event::Characters(s),
            xml::reader::XmlEvent::Comment(s) => Event::Comment(s),
            _ => Event::Other,
        }
    }
}

/// Why consuming an extension region failed. Every variant is terminal for
/// the consumption call: no partial tree is returned.
#[derive(Clone, Debug, PartialEq, Eq)]
pub enum ExtensionError {
    /// The root tag was opened a second time before the first was closed.
    DuplicateRootTag,
    /// A closing tag did not match the most recently opened element.
    MalformedExtension,
    /// The event stream ended before the root element was closed.
    UnterminatedRoot,
    /// The underlying event source itself reported an error; its message is
    /// propagated unchanged.
    UnderlyingReaderError(String),
}

/// Mathematical model of an [`ExtensionError`].
#[verifier::ext_equal]
pub ghost enum ErrorView {
    DuplicateRootTag,
    MalformedExtension,
    UnterminatedRoot,
    UnderlyingReaderError(Seq<char>),
}

impl DeepView for ExtensionError {
    type V = ErrorView;

    open spec fn deep_view(&self) -> ErrorView {
        match self {
            ExtensionError::DuplicateRootTag => ErrorView::DuplicateRootTag,
            ExtensionError::MalformedExtension => ErrorView::MalformedExtension,
            ExtensionError::UnterminatedRoot => ErrorView::UnterminatedRoot,
            ExtensionError::UnderlyingReaderError(s) => ErrorView::UnderlyingReaderError(
                s.deep_view(),
            ),
        }
    }
}

/// Mathematical model of a [`TreeBuilder`]: the configured root tag name,
/// whether the root start tag has been seen, and the stack of open elements
/// (bottom is the root shell).
#[verifier::ext_equal]
pub ghost struct BuilderView {
    pub root: Seq<char>,
    pub started: bool,
    pub stack: Seq<ElementView>,
}

/// Mathematical model of a [`BuildStep`]: what one transition of the builder
/// state machine yields.
#[verifier::ext_equal]
pub ghost enum StepView {
    More(BuilderView),
    Done(ElementView),
    Failed(ErrorView),
}

/// An empty element shell carrying only a local name: the state the root
/// shell starts in.
pub open spec fn root_shell(root: Seq<char>) -> ElementView {
    ElementView {
        name: NameView { local_name: root, namespace: None, prefix: None },
        attributes: Seq::empty(),
        namespace: Map::empty(),
        children: Seq::empty(),
    }
}

/// The builder state before any event was consumed.
pub open spec fn initial_builder(root: Seq<char>) -> BuilderView {
    BuilderView { root, started: false, stack: seq![root_shell(root)] }
}

/// `e` with one more child appended, preserving document order.
pub open spec fn with_child(e: ElementView, n: NodeView) -> ElementView {
    ElementView {
        name: e.name,
        attributes: e.attributes,
        namespace: e.namespace,
        children: e.children.push(n),
    }
}

/// `b` with node `n` appended to the children of the innermost open element.
pub open spec fn append_to_top(b: BuilderView, n: NodeView) -> BuilderView {
    BuilderView {
        root: b.root,
        started: b.started,
        stack: b.stack.update(b.stack.len() - 1, with_child(b.stack.last(), n)),
    }
}

/// The transition relation of the builder state machine: what consuming one
/// event does to the builder state.
pub open spec fn spec_step(b: BuilderView, ev: EventView) -> StepView {
    match ev {
        EventView::StartElement { name, attributes, namespace } => {
            if name.local_name == b.root {
                if b.started {
                    StepView::Failed(ErrorView::DuplicateRootTag)
                } else {
                    StepView::More(BuilderView { root: b.root, started: true, stack: b.stack })
                }
            } else {
                StepView::More(
                    BuilderView {
                        root: b.root,
                        started: b.started,
                        stack: b.stack.push(
                            ElementView { name, attributes, namespace, children: Seq::empty() },
                        ),
                    },
                )
            }
        },
        EventView::EndElement { name } => {
            if name.local_name == b.root {
                if b.stack.len() == 1 {
                    StepView::Done(b.stack[0])
                } else {
                    StepView::Failed(ErrorView::MalformedExtension)
                }
            } else if b.stack.len() <= 1 {
                StepView::Failed(ErrorView::MalformedExtension)
            } else {
                let top = b.stack.last();
                if top.name == name {
                    StepView::More(
                        BuilderView {
                            root: b.root,
                            started: b.started,
                            stack: b.stack.drop_last().update(
                                b.stack.len() - 2,
                                with_child(b.stack[b.stack.len() - 2], NodeView::Element(top)),
                            ),
                        },
                    )
                } else {
                    StepView::Failed(ErrorView::MalformedExtension)
                }
            }
        },
        EventView::Characters(s) => StepView::More(append_to_top(b, NodeView::Text(s))),
        EventView::Comment(s) => StepView::More(append_to_top(b, NodeView::Comment(s))),
        EventView::StreamError(s) => StepView::Failed(ErrorView::UnderlyingReaderError(s)),
        EventView::Other => StepView::More(b),
    }
}

/// Running the state machine over a whole event sequence, stopping at the
/// first terminal step.
pub open spec fn run_steps(b: BuilderView, evs: Seq<EventView>) -> StepView
    decreases evs.len(),
{
    if evs.len() == 0 {
        StepView::More(b)
    } else {
        match spec_step(b, evs[0]) {
            StepView::More(b2) => run_steps(b2, evs.subrange(1, evs.len() as int)),
            r => r,
        }
    }
}

/// The outcome of consuming a complete event sequence from the initial
/// state: the completed root element, or the first classified error; a
/// sequence that runs out before the root is closed is unterminated.
pub open spec fn consume_outcome(root: Seq<char>, evs: Seq<EventView>) -> Result<
    ElementView,
    ErrorView,
> {
    match run_steps(initial_builder(root), evs) {
        StepView::More(_) => Err(ErrorView::UnterminatedRoot),
        StepView::Done(e) => Ok(e),
        StepView::Failed(err) => Err(err),
    }
}

/// The tree builder: a state machine over [`Event`]s. Feed it events one at
/// a time with [`TreeBuilder::step`] until it yields a completed element or
/// an error.
pub struct TreeBuilder {
    root: String,
    started: bool,
    stack: Vec<Element>,
}

impl DeepView for TreeBuilder {
    type V = BuilderView;

    closed spec fn deep_view(&self) -> BuilderView {
        BuilderView {
            root: self.root.deep_view(),
            started: self.started,
            stack: self.stack.deep_view(),
        }
    }
}

/// What one call to [`TreeBuilder::step`] yields: the builder ready for the
/// next event, the completed root element, or a classified error.
pub enum BuildStep {
    More(TreeBuilder),
    Done(Element),
    Failed(ExtensionError),
}

impl DeepView for BuildStep {
    type V = StepView;

    open spec fn deep_view(&self) -> StepView {
        match self {
            BuildStep::More(b) => StepView::More(b.deep_view()),
            BuildStep::Done(e) => StepView::Done(e.deep_view()),
            BuildStep::Failed(err) => StepView::Failed(err.deep_view()),
        }
    }
}

impl TreeBuilder {
    /// The open-element stack is never empty: its bottom is the root shell.
    pub open spec fn wf(&self) -> bool {
        self.deep_view().stack.len() >= 1
    }

    /// A builder for a region bounded by the given root tag name.
    pub fn with_root(root: String) -> (r: TreeBuilder)
        ensures
            r.deep_view() == initial_builder(root@),
            r.wf(),
    {
        let shell = Element::with_local_name(root.clone());
        let mut stack: Vec<Element> = Vec::new();
        stack.push(shell);
        let r = TreeBuilder { root, started: false, stack };
        proof {
            assert(r.deep_view().stack =~= seq![root_shell(r.root@)]);
            assert(r.deep_view() =~= initial_builder(r.root@));
        }
        r
    }

    /// A builder for the default "extensions" wrapper tag.
    pub fn new() -> (r: TreeBuilder)
        ensures
            r.deep_view() == initial_builder("extensions"@),
            r.wf(),
    {
        TreeBuilder::with_root("extensions".to_owned())
    }

    /// Consume one event: exactly the transition [`spec_step`] prescribes.
    pub fn step(self, event: Event) -> (r: BuildStep)
        requires
            self.wf(),
        ensures
            r.deep_view() == spec_step(self.deep_view(), event.deep_view()),
            match r {
                BuildStep::More(b) => b.wf(),
                _ => true,
            },
    {
        let ghost bv = self.deep_view();
        let ghost ev = event.deep_view();
        let TreeBuilder { root, started, mut stack } = self;
        match event {
            Event::StartElement { name, attributes, namespace } => {
                if name.local_name == root {
                    if started {
                        BuildStep::Failed(ExtensionError::DuplicateRootTag)
                    } else {
                        let r = BuildStep::More(TreeBuilder { root, started: true, stack });
                        proof {
                            assert(r.deep_view() =~= spec_step(bv, ev));
                        }
                        r
                    }
                } else {
                    let new_element = Element::new(name, attributes, namespace);
                    stack.push(new_element);
                    let r = BuildStep::More(TreeBuilder { root, started, stack });
                    proof {
                        assert(r.deep_view() =~~= spec_step(bv, ev));
                    }
                    r
                }
            },
            Event::EndElement { name } => {
                if name.local_name == root {
                    if stack.len() == 1 {
                        let shell = stack.remove(0);
                        BuildStep::Done(shell)
                    } else {
                        BuildStep::Failed(ExtensionError::MalformedExtension)
                    }
                } else if stack.len() <= 1 {
                    BuildStep::Failed(ExtensionError::MalformedExtension)
                } else {
                    let element = stack.remove(stack.len() - 1);
                    if element.name.same_name(&name) {
                        let mut parent = stack.remove(stack.len() - 1);
                        let ghost parent0 = parent.deep_view();
                        let ghost c0 = parent.children@;
                        parent.children.push(Node::Element(element));
                        proof {
                            crate::dom::lemma_nodes_model(c0);
                            crate::dom::lemma_nodes_model(parent.children@);
                            assert(parent.children@ =~= c0.push(Node::Element(element)));
                            assert(parent.deep_view().children =~= parent0.children.push(
                                NodeView::Element(element.deep_view()),
                            ));
                            assert(parent.deep_view() =~= with_child(
                                parent0,
                                NodeView::Element(element.deep_view()),
                            ));
                        }
                        stack.push(parent);
                        let r = BuildStep::More(TreeBuilder { root, started, stack });
                        proof {
                            let got = r.deep_view()->More_0;
                            let expected = spec_step(bv, ev)->More_0;
                            assert(got.stack =~= expected.stack);
                            assert(got =~= expected);
                        }
                        r
                    } else {
                        BuildStep::Failed(ExtensionError::MalformedExtension)
                    }
                }
            },
            Event::Characters(data) => {
                let mut top = stack.remove(stack.len() - 1);
                let ghost top0 = top.deep_view();
                let ghost c0 = top.children@;
                top.children.push(Node::Text(Text(data)));
                proof {
                    crate::dom::lemma_nodes_model(c0);
                    crate::dom::lemma_nodes_model(top.children@);
                    assert(top.deep_view().children =~= top0.children.push(
                        NodeView::Text(ev->Characters_0),
                    ));
                    assert(top.deep_view() =~= with_child(top0, NodeView::Text(ev->Characters_0)));
                }
                stack.push(top);
                let r = BuildStep::More(TreeBuilder { root, started, stack });
                proof {
                    let got = r.deep_view()->More_0;
                    let expected = spec_step(bv, ev)->More_0;
                    assert(got.stack =~= expected.stack);
                    assert(got =~= expected);
                }
                r
            },
            Event::Comment(data) => {
                let mut top = stack.remove(stack.len() - 1);
                let ghost top0 = top.deep_view();
                let ghost c0 = top.children@;
                top.children.push(Node::Comment(Comment(data)));
                proof {
                    crate::dom::lemma_nodes_model(c0);
                    crate::dom::lemma_nodes_model(top.children@);
                    assert(top.deep_view().children =~= top0.children.push(
                        NodeView::Comment(ev->Comment_0),
                    ));
                    assert(top.deep_view() =~= with_child(top0, NodeView::Comment(ev->Comment_0)));
                }
                stack.push(top);
                let r = BuildStep::More(TreeBuilder { root, started, stack });
                proof {
                    let got = r.deep_view()->More_0;
                    let expected = spec_step(bv, ev)->More_0;
                    assert(got.stack =~= expected.stack);
                    assert(got =~= expected);
                }
                r
            },
            Event::StreamError(message) => BuildStep::Failed(
                ExtensionError::UnderlyingReaderError(message),
            ),
            Event::Other => BuildStep::More(TreeBuilder { root, started, stack }),
        }
    }
}

/// Consume a complete event sequence bounded by the default "extensions"
/// wrapper tag: the event-sequence form of the extension consumer. Returns
/// the completed root element, or the first classified error; consumption
/// stops at the first terminal step.
pub fn consume(events: Vec<Event>) -> (r: Result<Element, ExtensionError>)
    ensures
        match r {
            Ok(e) => consume_outcome("extensions"@, events.deep_view()) == Ok::<
                ElementView,
                ErrorView,
            >(e.deep_view()),
            Err(err) => consume_outcome("extensions"@, events.deep_view()) == Err::<
                ElementView,
                ErrorView,
            >(err.deep_view()),
        },
{
    let ghost all = events.deep_view();
    let mut evs = events;
    let mut builder = TreeBuilder::new();
    while evs.len() > 0
        invariant
            all == events.deep_view(),
            builder.wf(),
            run_steps(initial_builder("extensions"@), all) == run_steps(
                builder.deep_view(),
                evs.deep_view(),
            ),
        decreases evs.len(),
    {
        let ghost pre = evs.deep_view();
        let ghost bv = builder.deep_view();
        let ev = evs.remove(0);
        proof {
            assert(ev.deep_view() == pre[0]);
            assert(evs.deep_view() =~= pre.subrange(1, pre.len() as int));
        }
        match builder.step(ev) {
            BuildStep::More(b) => {
                builder = b;
            },
            BuildStep::Done(e) => {
                proof {
                    assert(run_steps(bv, pre) == StepView::Done(e.deep_view()));
                    assert(run_steps(initial_builder("extensions"@), all) == StepView::Done(
                        e.deep_view(),
                    ));
                    assert(consume_outcome("extensions"@, all) == Ok::<ElementView, ErrorView>(
                        e.deep_view(),
                    ));

                }
                return Ok(e);
            },
            BuildStep::Failed(err) => {
                proof {
                    assert(run_steps(bv, pre) == StepView::Failed(err.deep_view()));
                }
                return Err(err);
            },
        }
    }
    proof {
        assert(evs.deep_view() =~= Seq::<EventView>::empty());
    }
    Err(ExtensionError::UnterminatedRoot)
}

} // verus!
