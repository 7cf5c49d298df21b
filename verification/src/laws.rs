//! Proved laws of the tree builder.
//!
//! These lemmas relate whole event sequences to the trees and errors that
//! [`crate::extensions::consume_outcome`] yields for them: a well-formed,
//! properly nested region is rebuilt exactly; a duplicated root start tag, a
//! mismatched closing tag and a missing root end tag each yield their
//! classified error.

use vstd::prelude::*;
use crate::dom::{AttributeView, ElementView, NameView, NodeView};
use crate::extensions::{
    BuilderView, ErrorView, EventView, StepView, append_to_top, consume_outcome, initial_builder,
    root_shell, run_steps, spec_step, with_child,
};

verus! {

broadcast use vstd::seq::group_seq_axioms;

/// The event sequence an element prints to: its start tag, its children in
/// document order, its end tag.
pub open spec fn events_of_element(e: ElementView) -> Seq<EventView>
    decreases e, 1int,
{
    seq![
        EventView::StartElement { name: e.name, attributes: e.attributes, namespace: e.namespace },
    ] + events_of_children(e.children, 0) + seq![EventView::EndElement { name: e.name }]
}

/// The event sequence a node prints to. Processing instructions print to
/// nothing: the builder drops them, a documented scope gap.
pub open spec fn events_of_node(n: NodeView) -> Seq<EventView>
    decreases n, 0int,
{
    match n {
        NodeView::Element(e) => events_of_element(e),
        NodeView::ProcessingInstruction(_) => Seq::empty(),
        NodeView::Text(s) => seq![EventView::Characters(s)],
        NodeView::Comment(s) => seq![EventView::Comment(s)],
    }
}

/// The event sequences of the nodes `cs[i..]`, concatenated in order.
pub open spec fn events_of_children(cs: Seq<NodeView>, i: int) -> Seq<EventView>
    decreases cs, cs.len() - i,
{
    if i < 0 || i >= cs.len() {
        Seq::empty()
    } else {
        events_of_node(cs[i]) + events_of_children(cs, i + 1)
    }
}

/// A tree that prints to a well-formed region body: no element is named
/// after the root tag, and no processing instructions occur (they print to
/// nothing, so a tree holding one does not mirror its own event sequence).
pub open spec fn element_wf(e: ElementView, root: Seq<char>) -> bool
    decreases e, 1int,
{
    e.name.local_name != root && children_wf(e.children, 0, root)
}

/// See [`element_wf`].
pub open spec fn node_wf(n: NodeView, root: Seq<char>) -> bool
    decreases n, 0int,
{
    match n {
        NodeView::Element(e) => element_wf(e, root),
        NodeView::ProcessingInstruction(_) => false,
        NodeView::Text(_) => true,
        NodeView::Comment(_) => true,
    }
}

/// Every node of `cs[i..]` satisfies [`node_wf`].
pub open spec fn children_wf(cs: Seq<NodeView>, i: int, root: Seq<char>) -> bool
    decreases cs, cs.len() - i,
{
    i < 0 || i >= cs.len() || (node_wf(cs[i], root) && children_wf(cs, i + 1, root))
}

/// `b` with the nodes `cs[i..]` appended, in order, to the children of the
/// innermost open element.
pub open spec fn with_tail_children(b: BuilderView, cs: Seq<NodeView>, i: int) -> BuilderView {
    let top = b.stack.last();
    BuilderView {
        root: b.root,
        started: b.started,
        stack: b.stack.update(
            b.stack.len() - 1,
            ElementView {
                name: top.name,
                attributes: top.attributes,
                namespace: top.namespace,
                children: top.children + cs.subrange(i, cs.len() as int),
            },
        ),
    }
}

/// One event runs exactly one transition.
pub proof fn lemma_run_single(b: BuilderView, ev: EventView)
    ensures
        run_steps(b, seq![ev]) == spec_step(b, ev),
{
    let s = seq![ev];
    assert(s[0] == ev);
    assert(s.subrange(1, 1) =~= Seq::<EventView>::empty());
    match spec_step(b, ev) {
        StepView::More(b1) => {
            assert(run_steps(b1, s.subrange(1, 1)) == StepView::More(b1));
        },
        _ => {},
    }
}

/// Running the machine over a concatenation runs the pieces in sequence,
/// stopping at the first terminal step.
pub proof fn lemma_run_steps_concat(b: BuilderView, s1: Seq<EventView>, s2: Seq<EventView>)
    ensures
        run_steps(b, s1 + s2) == (match run_steps(b, s1) {
            StepView::More(b1) => run_steps(b1, s2),
            r => r,
        }),
    decreases s1.len(),
{
    if s1.len() == 0 {
        assert(s1 + s2 =~= s2);
    } else {
        assert((s1 + s2)[0] == s1[0]);
        assert((s1 + s2).len() > 0);
        match spec_step(b, s1[0]) {
            StepView::More(b2) => {
                assert((s1 + s2).subrange(1, (s1 + s2).len() as int) =~= s1.subrange(
                    1,
                    s1.len() as int,
                ) + s2);
                lemma_run_steps_concat(b2, s1.subrange(1, s1.len() as int), s2);
            },
            _ => {},
        }
    }
}

/// Feeding the machine the events a well-formed node prints to appends
/// exactly that node to the innermost open element.
pub proof fn lemma_run_node(b: BuilderView, n: NodeView, root: Seq<char>)
    requires
        b.root == root,
        b.stack.len() >= 1,
        node_wf(n, root),
    ensures
        run_steps(b, events_of_node(n)) == StepView::More(append_to_top(b, n)),
    decreases n, 0int,
{
    match n {
        NodeView::Element(e) => {
            lemma_run_element(b, e, root);
            assert(n == NodeView::Element(e));
            assert(events_of_node(n) == events_of_element(e));
            assert(append_to_top(b, n) == append_to_top(b, NodeView::Element(e)));
            assert(run_steps(b, events_of_node(n)) == StepView::More(append_to_top(b, n)));
        },
        NodeView::ProcessingInstruction(_) => {
            assert(false);
        },
        NodeView::Text(s) => {
            lemma_run_single(b, EventView::Characters(s));
            assert(events_of_node(n) == seq![EventView::Characters(s)]);
        },
        NodeView::Comment(s) => {
            lemma_run_single(b, EventView::Comment(s));
            assert(events_of_node(n) == seq![EventView::Comment(s)]);
        },
    }
}

/// See [`lemma_run_node`]: the element case.
pub proof fn lemma_run_element(b: BuilderView, e: ElementView, root: Seq<char>)
    requires
        b.root == root,
        b.stack.len() >= 1,
        element_wf(e, root),
    ensures
        run_steps(b, events_of_element(e)) == StepView::More(
            append_to_top(b, NodeView::Element(e)),
        ),
    decreases e, 1int,
{
    let start = EventView::StartElement {
        name: e.name,
        attributes: e.attributes,
        namespace: e.namespace,
    };
    let end = EventView::EndElement { name: e.name };
    let mid = events_of_children(e.children, 0);
    let shell = ElementView {
        name: e.name,
        attributes: e.attributes,
        namespace: e.namespace,
        children: Seq::empty(),
    };
    let b1 = BuilderView { root: b.root, started: b.started, stack: b.stack.push(shell) };

    assert(spec_step(b, start) == StepView::More(b1));
    lemma_run_single(b, start);

    lemma_run_steps_concat(b, seq![start], mid);
    lemma_run_children(b1, e.children, 0, root);
    let b2 = with_tail_children(b1, e.children, 0);
    assert(run_steps(b, seq![start] + mid) == StepView::More(b2));

    // The filled shell is `e` itself.
    let full = b2.stack.last();
    assert(e.children.subrange(0, e.children.len() as int) =~= e.children);
    assert(full.children =~= e.children);
    assert(full =~= e);

    lemma_run_steps_concat(b, seq![start] + mid, seq![end]);
    assert(events_of_element(e) == (seq![start] + mid) + seq![end]);

    // Closing the element pops it onto its parent.
    assert(b2.stack.len() == b.stack.len() + 1);
    let b3 = BuilderView {
        root: b2.root,
        started: b2.started,
        stack: b2.stack.drop_last().update(
            b2.stack.len() - 2,
            with_child(b2.stack[b2.stack.len() - 2], NodeView::Element(full)),
        ),
    };
    assert(spec_step(b2, end) == StepView::More(b3));
    lemma_run_single(b2, end);

    assert(b2.stack.drop_last() =~= b.stack);
    assert(b2.stack[b2.stack.len() - 2] == b.stack.last());
    assert(b3.stack =~= append_to_top(b, NodeView::Element(e)).stack);
    assert(b3 =~= append_to_top(b, NodeView::Element(e)));
}

/// See [`lemma_run_node`]: the events of `cs[i..]` append those nodes in
/// document order.
pub proof fn lemma_run_children(b: BuilderView, cs: Seq<NodeView>, i: int, root: Seq<char>)
    requires
        b.root == root,
        b.stack.len() >= 1,
        children_wf(cs, i, root),
        0 <= i <= cs.len(),
    ensures
        run_steps(b, events_of_children(cs, i)) == StepView::More(with_tail_children(b, cs, i)),
    decreases cs, cs.len() - i,
{
    if i == cs.len() {
        assert(cs.subrange(i, cs.len() as int) =~= Seq::<NodeView>::empty());
        assert(with_tail_children(b, cs, i).stack =~= b.stack);
        assert(with_tail_children(b, cs, i) =~= b);
    } else {
        lemma_run_steps_concat(b, events_of_node(cs[i]), events_of_children(cs, i + 1));
        lemma_run_node(b, cs[i], root);
        let b1 = append_to_top(b, cs[i]);
        assert(b1.stack.len() == b.stack.len());
        lemma_run_children(b1, cs, i + 1, root);
        let t0 = b.stack.last();
        let t1 = b1.stack.last();
        assert(t1 == with_child(t0, cs[i]));
        assert(t1.children + cs.subrange(i + 1, cs.len() as int) =~= t0.children + cs.subrange(
            i,
            cs.len() as int,
        ));
        let filled0 = with_tail_children(b, cs, i).stack.last();
        let filled1 = with_tail_children(b1, cs, i + 1).stack.last();
        assert(filled1 =~= filled0);
        assert(with_tail_children(b1, cs, i + 1).stack =~= with_tail_children(b, cs, i).stack);
        assert(with_tail_children(b1, cs, i + 1) =~= with_tail_children(b, cs, i));
    }
}

/// The builder state after the root start tag and a well-formed region body:
/// started, with the root shell holding exactly the body's nodes.
pub open spec fn open_root_state(root: Seq<char>, cs: Seq<NodeView>) -> BuilderView {
    BuilderView {
        root,
        started: true,
        stack: seq![
            ElementView {
                name: NameView { local_name: root, namespace: None, prefix: None },
                attributes: Seq::empty(),
                namespace: Map::empty(),
                children: cs,
            },
        ],
    }
}

/// Opening the root and printing a well-formed body leaves the machine in
/// [`open_root_state`], still waiting for the root end tag.
pub proof fn lemma_open_region(
    root: Seq<char>,
    start_name: NameView,
    attributes: Seq<AttributeView>,
    namespace: Map<Seq<char>, Seq<char>>,
    cs: Seq<NodeView>,
)
    requires
        start_name.local_name == root,
        children_wf(cs, 0, root),
    ensures
        run_steps(
            initial_builder(root),
            seq![
                EventView::StartElement { name: start_name, attributes: attributes, namespace: namespace },
            ] + events_of_children(cs, 0),
        ) == StepView::More(open_root_state(root, cs)),
{
    let b0 = initial_builder(root);
    let start = EventView::StartElement {
        name: start_name,
        attributes: attributes,
        namespace: namespace,
    };
    let b1 = BuilderView { root: b0.root, started: true, stack: b0.stack };
    assert(spec_step(b0, start) == StepView::More(b1));
    lemma_run_single(b0, start);

    lemma_run_steps_concat(b0, seq![start], events_of_children(cs, 0));
    lemma_run_children(b1, cs, 0, root);
    assert(cs.subrange(0, cs.len() as int) =~= cs);
    assert(root_shell(root).children + cs =~= cs);
    assert(with_tail_children(b1, cs, 0).stack =~= open_root_state(root, cs).stack);
    assert(with_tail_children(b1, cs, 0) =~= open_root_state(root, cs));
}

/// For any well-formed, properly nested event sequence bounded by a root
/// start/end pair, consumption succeeds and returns an element named after
/// the root tag whose descendants exactly mirror the input's nesting and
/// document order.
pub proof fn lemma_consume_well_formed(
    root: Seq<char>,
    start_name: NameView,
    attributes: Seq<AttributeView>,
    namespace: Map<Seq<char>, Seq<char>>,
    end_name: NameView,
    cs: Seq<NodeView>,
)
    requires
        start_name.local_name == root,
        end_name.local_name == root,
        children_wf(cs, 0, root),
    ensures
        consume_outcome(
            root,
            (seq![
                EventView::StartElement { name: start_name, attributes: attributes, namespace: namespace },
            ] + events_of_children(cs, 0)) + seq![EventView::EndElement { name: end_name }],
        ) == Ok::<ElementView, ErrorView>(
            ElementView {
                name: NameView { local_name: root, namespace: None, prefix: None },
                attributes: Seq::empty(),
                namespace: Map::empty(),
                children: cs,
            },
        ),
{
    let start = EventView::StartElement {
        name: start_name,
        attributes: attributes,
        namespace: namespace,
    };
    let end = EventView::EndElement { name: end_name };
    let opening = seq![start] + events_of_children(cs, 0);
    lemma_open_region(root, start_name, attributes, namespace, cs);
    lemma_run_steps_concat(initial_builder(root), opening, seq![end]);
    let b2 = open_root_state(root, cs);
    assert(spec_step(b2, end) == StepView::Done(b2.stack[0]));
    lemma_run_single(b2, end);
}

/// An input that opens the root tag a second time before it was closed
/// fails with `DuplicateRootTag`, whatever follows.
pub proof fn lemma_duplicate_root_tag(
    root: Seq<char>,
    start_name: NameView,
    attributes: Seq<AttributeView>,
    namespace: Map<Seq<char>, Seq<char>>,
    cs: Seq<NodeView>,
    second_name: NameView,
    second_attributes: Seq<AttributeView>,
    second_namespace: Map<Seq<char>, Seq<char>>,
    rest: Seq<EventView>,
)
    requires
        start_name.local_name == root,
        second_name.local_name == root,
        children_wf(cs, 0, root),
    ensures
        consume_outcome(
            root,
            (seq![
                EventView::StartElement { name: start_name, attributes: attributes, namespace: namespace },
            ] + events_of_children(cs, 0)) + (seq![
                EventView::StartElement { name: second_name, attributes: second_attributes, namespace: second_namespace },
            ] + rest),
        ) == Err::<ElementView, ErrorView>(ErrorView::DuplicateRootTag),
{
    let start = EventView::StartElement {
        name: start_name,
        attributes: attributes,
        namespace: namespace,
    };
    let second = EventView::StartElement {
        name: second_name,
        attributes: second_attributes,
        namespace: second_namespace,
    };
    let opening = seq![start] + events_of_children(cs, 0);
    lemma_open_region(root, start_name, attributes, namespace, cs);
    lemma_run_steps_concat(initial_builder(root), opening, seq![second] + rest);
    let b2 = open_root_state(root, cs);
    assert(spec_step(b2, second) == StepView::Failed(ErrorView::DuplicateRootTag));
    assert((seq![second] + rest)[0] == second);
    assert(run_steps(b2, seq![second] + rest) == StepView::Failed(ErrorView::DuplicateRootTag));
}

/// An input whose closing tag does not match the innermost open element
/// fails with `MalformedExtension`, whatever follows.
pub proof fn lemma_mismatched_closing_tag(
    root: Seq<char>,
    start_name: NameView,
    attributes: Seq<AttributeView>,
    namespace: Map<Seq<char>, Seq<char>>,
    cs: Seq<NodeView>,
    open_name: NameView,
    open_attributes: Seq<AttributeView>,
    open_namespace: Map<Seq<char>, Seq<char>>,
    inner: Seq<NodeView>,
    close_name: NameView,
    rest: Seq<EventView>,
)
    requires
        start_name.local_name == root,
        open_name.local_name != root,
        close_name.local_name != root,
        close_name != open_name,
        children_wf(cs, 0, root),
        children_wf(inner, 0, root),
    ensures
        consume_outcome(
            root,
            (seq![
                EventView::StartElement { name: start_name, attributes: attributes, namespace: namespace },
            ] + events_of_children(cs, 0)) + ((seq![
                EventView::StartElement { name: open_name, attributes: open_attributes, namespace: open_namespace },
            ] + events_of_children(inner, 0)) + (seq![
                EventView::EndElement { name: close_name },
            ] + rest)),
        ) == Err::<ElementView, ErrorView>(ErrorView::MalformedExtension),
{
    let start = EventView::StartElement {
        name: start_name,
        attributes: attributes,
        namespace: namespace,
    };
    let open_ev = EventView::StartElement {
        name: open_name,
        attributes: open_attributes,
        namespace: open_namespace,
    };
    let close_ev = EventView::EndElement { name: close_name };
    let opening = seq![start] + events_of_children(cs, 0);
    lemma_open_region(root, start_name, attributes, namespace, cs);
    let b2 = open_root_state(root, cs);

    let shell = ElementView {
        name: open_name,
        attributes: open_attributes,
        namespace: open_namespace,
        children: Seq::empty(),
    };
    let b3 = BuilderView { root: b2.root, started: b2.started, stack: b2.stack.push(shell) };
    assert(spec_step(b2, open_ev) == StepView::More(b3));
    lemma_run_single(b2, open_ev);

    lemma_run_steps_concat(b2, seq![open_ev], events_of_children(inner, 0));
    lemma_run_children(b3, inner, 0, root);
    let b4 = with_tail_children(b3, inner, 0);
    assert(run_steps(b2, seq![open_ev] + events_of_children(inner, 0)) == StepView::More(b4));

    assert(b4.stack.len() == 2);
    assert(b4.stack.last().name == open_name);
    assert(spec_step(b4, close_ev) == StepView::Failed(ErrorView::MalformedExtension));
    assert((seq![close_ev] + rest)[0] == close_ev);
    assert(run_steps(b4, seq![close_ev] + rest) == StepView::Failed(
        ErrorView::MalformedExtension,
    ));

    lemma_run_steps_concat(
        b2,
        seq![open_ev] + events_of_children(inner, 0),
        seq![close_ev] + rest,
    );
    assert((seq![open_ev] + events_of_children(inner, 0)) + (seq![close_ev] + rest) =~= seq![
        open_ev,
    ] + events_of_children(inner, 0) + (seq![close_ev] + rest));
    lemma_run_steps_concat(
        initial_builder(root),
        opening,
        (seq![open_ev] + events_of_children(inner, 0)) + (seq![close_ev] + rest),
    );
}

/// An input that ends before the root element is closed fails with
/// `UnterminatedRoot`.
pub proof fn lemma_unterminated_root(
    root: Seq<char>,
    start_name: NameView,
    attributes: Seq<AttributeView>,
    namespace: Map<Seq<char>, Seq<char>>,
    cs: Seq<NodeView>,
)
    requires
        start_name.local_name == root,
        children_wf(cs, 0, root),
    ensures
        consume_outcome(
            root,
            seq![
                EventView::StartElement { name: start_name, attributes: attributes, namespace: namespace },
            ] + events_of_children(cs, 0),
        ) == Err::<ElementView, ErrorView>(ErrorView::UnterminatedRoot),
{
    lemma_open_region(root, start_name, attributes, namespace, cs);
}

} // verus!
