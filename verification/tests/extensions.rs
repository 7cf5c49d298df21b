//! Tests for the extension tree builder: whole regions, classified errors,
//! and the step-by-step state machine.

use gpx_extensions::dom::{Element, Namespace, Node, OwnedAttribute, OwnedName, Text};
use gpx_extensions::extensions::{consume, BuildStep, Event, ExtensionError, TreeBuilder};

fn name(local: &str) -> OwnedName {
    OwnedName::from_local_name(local.to_string())
}

fn start(local: &str) -> Event {
    Event::StartElement { name: name(local), attributes: Vec::new(), namespace: Namespace::new() }
}

fn start_with_attr(local: &str, key: &str, value: &str) -> Event {
    Event::StartElement {
        name: name(local),
        attributes: vec![OwnedAttribute { name: name(key), value: value.to_string() }],
        namespace: Namespace::new(),
    }
}

fn end(local: &str) -> Event {
    Event::EndElement { name: name(local) }
}

fn chars(text: &str) -> Event {
    Event::Characters(text.to_string())
}

/// The events an XML document parses to, in order.
fn events_of(input: &str) -> Vec<Event> {
    let reader = xml::reader::EventReader::from_str(input);
    let mut events = Vec::new();
    for ev in reader {
        events.push(Event::from_xml_event(ev.expect("the input must parse")));
    }
    events
}

#[test]
fn consume_arbitrary_extensions() {
    let result = consume(events_of(
        "<extensions>
                hello world
                <a><b cond=\"no\"><c>derp</c></b></a>
                <tag>yadda yadda we dont care</tag>
            </extensions>",
    ));

    assert!(result.is_ok());
}

#[test]
fn consume_nested_tree_mirrors_input() {
    // <extensions>hello<a><b cond="no"><c>derp</c></b></a>tail</extensions>
    let result = consume(vec![
        start("extensions"),
        chars("hello"),
        start("a"),
        start_with_attr("b", "cond", "no"),
        start("c"),
        chars("derp"),
        end("c"),
        end("b"),
        end("a"),
        chars("tail"),
        end("extensions"),
    ]);

    let root = result.expect("well-formed region must parse");
    assert_eq!(root.name, name("extensions"));
    assert!(root.attributes.is_empty());
    assert_eq!(root.namespace, Namespace::new());
    assert_eq!(root.children.len(), 3);

    match &root.children[0] {
        Node::Text(t) => assert_eq!(t.0, "hello"),
        _ => panic!("first child must be the text 'hello'"),
    }

    let a = match &root.children[1] {
        Node::Element(a) => a,
        _ => panic!("second child must be the element <a>"),
    };
    assert_eq!(a.name, name("a"));
    assert!(a.attributes.is_empty());
    assert_eq!(a.children.len(), 1);

    let b = match &a.children[0] {
        Node::Element(b) => b,
        _ => panic!("<a> must hold the element <b>"),
    };
    assert_eq!(b.name, name("b"));
    assert_eq!(b.attributes.len(), 1);
    assert_eq!(b.attributes[0].name, name("cond"));
    assert_eq!(b.attributes[0].value, "no");
    assert_eq!(b.children.len(), 1);

    let c = match &b.children[0] {
        Node::Element(c) => c,
        _ => panic!("<b> must hold the element <c>"),
    };
    assert_eq!(c.name, name("c"));
    assert_eq!(c.children.len(), 1);
    match &c.children[0] {
        Node::Text(t) => assert_eq!(t.0, "derp"),
        _ => panic!("<c> must hold the text 'derp'"),
    }

    match &root.children[2] {
        Node::Text(t) => assert_eq!(t.0, "tail"),
        _ => panic!("last child must be the text 'tail'"),
    }
}

#[test]
fn consume_keeps_comments_in_order() {
    let result = consume(vec![
        start("extensions"),
        Event::Comment("first".to_string()),
        chars("middle"),
        Event::Comment("last".to_string()),
        end("extensions"),
    ]);

    let root = result.expect("comments are preserved");
    assert_eq!(root.children.len(), 3);
    match &root.children[0] {
        Node::Comment(c) => assert_eq!(c.0, "first"),
        _ => panic!("first child must be a comment"),
    }
    match &root.children[1] {
        Node::Text(t) => assert_eq!(t.0, "middle"),
        _ => panic!("second child must be text"),
    }
    match &root.children[2] {
        Node::Comment(c) => assert_eq!(c.0, "last"),
        _ => panic!("third child must be a comment"),
    }
}

#[test]
fn mismatched_closing_tag_is_malformed() {
    // <extensions><a></b></extensions>
    let result = consume(vec![start("extensions"), start("a"), end("b"), end("extensions")]);
    assert_eq!(result.unwrap_err(), ExtensionError::MalformedExtension);
}

#[test]
fn stream_ending_inside_region_is_unterminated() {
    // <extensions><a>  (stream ends here)
    let result = consume(vec![start("extensions"), start("a")]);
    assert_eq!(result.unwrap_err(), ExtensionError::UnterminatedRoot);
}

#[test]
fn empty_stream_is_unterminated() {
    let result = consume(Vec::new());
    assert_eq!(result.unwrap_err(), ExtensionError::UnterminatedRoot);
}

#[test]
fn reopened_root_tag_is_duplicate() {
    let result = consume(vec![start("extensions"), start("a"), end("a"), start("extensions")]);
    assert_eq!(result.unwrap_err(), ExtensionError::DuplicateRootTag);
}

#[test]
fn root_closed_over_open_child_is_malformed() {
    let result = consume(vec![start("extensions"), start("a"), end("extensions")]);
    assert_eq!(result.unwrap_err(), ExtensionError::MalformedExtension);
}

#[test]
fn stream_error_fails_with_the_reader_error() {
    let result = consume(vec![
        start("extensions"),
        start("a"),
        Event::StreamError("unexpected token".to_string()),
    ]);
    assert_eq!(
        result.unwrap_err(),
        ExtensionError::UnderlyingReaderError("unexpected token".to_string())
    );
}

#[test]
fn stream_error_before_the_root_also_fails() {
    let result = consume(vec![Event::StreamError("no opening tag".to_string())]);
    assert_eq!(
        result.unwrap_err(),
        ExtensionError::UnderlyingReaderError("no opening tag".to_string())
    );
}

#[test]
fn cloned_trees_compare_equal() {
    let result = consume(vec![
        start("extensions"),
        chars("hello"),
        start_with_attr("b", "cond", "no"),
        chars("derp"),
        end("b"),
        end("extensions"),
    ]);
    let root = result.unwrap();
    let copy = root.clone();
    assert_eq!(copy, root);
    assert_eq!(Node::from(copy), Node::from(root));
}

#[test]
fn attributes_compare_across_representations() {
    let ours = OwnedAttribute { name: name("cond"), value: "no".to_string() };
    let theirs = ours.clone().into_xml();
    assert!(ours.same_xml_attribute(&theirs));
    let other = OwnedAttribute { name: name("cond"), value: "yes".to_string() };
    assert!(!other.same_xml_attribute(&theirs));
    assert!(!OwnedAttribute { name: name("kind"), value: "no".to_string() }
        .same_xml_attribute(&theirs));
}

#[test]
fn reader_error_variant_carries_its_message() {
    let err = ExtensionError::UnderlyingReaderError("unexpected token".to_string());
    assert_eq!(err, ExtensionError::UnderlyingReaderError("unexpected token".to_string()));
    assert_ne!(err, ExtensionError::MalformedExtension);
}

#[test]
fn step_machine_finishes_on_root_end() {
    let builder = TreeBuilder::new();
    let builder = match builder.step(start("extensions")) {
        BuildStep::More(b) => b,
        _ => panic!("the root start tag must not finish the build"),
    };
    let builder = match builder.step(chars("x")) {
        BuildStep::More(b) => b,
        _ => panic!("characters must not finish the build"),
    };
    match builder.step(end("extensions")) {
        BuildStep::Done(e) => {
            assert_eq!(e.name, name("extensions"));
            assert_eq!(e.children.len(), 1);
            match &e.children[0] {
                Node::Text(t) => assert_eq!(t.0, "x"),
                _ => panic!("the single child must be the text 'x'"),
            }
        }
        _ => panic!("the root end tag must finish the build"),
    }
}

#[test]
fn step_machine_reports_duplicate_root() {
    let builder = TreeBuilder::new();
    let builder = match builder.step(start("extensions")) {
        BuildStep::More(b) => b,
        _ => panic!("the root start tag must not finish the build"),
    };
    match builder.step(start("extensions")) {
        BuildStep::Failed(err) => assert_eq!(err, ExtensionError::DuplicateRootTag),
        _ => panic!("a reopened root tag must fail"),
    }
}

#[test]
fn custom_root_tag_bounds_the_region() {
    let builder = TreeBuilder::with_root("metadata".to_string());
    let builder = match builder.step(start("metadata")) {
        BuildStep::More(b) => b,
        _ => panic!("the root start tag must not finish the build"),
    };
    // A nested element may reuse any other name, "extensions" included.
    let builder = match builder.step(start("extensions")) {
        BuildStep::More(b) => b,
        _ => panic!("a non-root tag must push a new element"),
    };
    let builder = match builder.step(end("extensions")) {
        BuildStep::More(b) => b,
        _ => panic!("closing the nested element must continue"),
    };
    match builder.step(end("metadata")) {
        BuildStep::Done(e) => assert_eq!(e.name, name("metadata")),
        _ => panic!("the root end tag must finish the build"),
    }
}

#[test]
fn ignored_events_leave_no_trace() {
    let result = consume(vec![start("extensions"), Event::Other, Event::Other, end("extensions")]);
    let root = result.expect("ignored events must not fail the build");
    assert!(root.children.is_empty());
}

#[test]
fn text_is_kept_verbatim() {
    let result = consume(vec![
        start("extensions"),
        chars("  spaced\n\tout  "),
        end("extensions"),
    ]);
    let root = result.unwrap();
    match &root.children[0] {
        Node::Text(t) => assert_eq!(t.0, "  spaced\n\tout  "),
        _ => panic!("the child must be text"),
    }
}

#[test]
fn element_constructors_set_all_fields() {
    let attr = OwnedAttribute { name: name("k"), value: "v".to_string() };
    let e = Element::new(name("node"), vec![attr.clone()], Namespace::new());
    assert_eq!(e.name, name("node"));
    assert_eq!(e.attributes, vec![attr]);
    assert_eq!(e.namespace, Namespace::new());
    assert!(e.children.is_empty());

    let e = Element::with_name(name("other"));
    assert_eq!(e.name, name("other"));
    assert!(e.attributes.is_empty());
    assert!(e.children.is_empty());

    let e = Element::with_local_name("third".to_string());
    assert_eq!(e.name.local_name, "third");
    assert_eq!(e.name.namespace, None);
    assert_eq!(e.name.prefix, None);
}

#[test]
fn names_compare_by_all_three_parts() {
    let plain = name("tag");
    let qualified = OwnedName {
        local_name: "tag".to_string(),
        namespace: Some("urn:example".to_string()),
        prefix: Some("ex".to_string()),
    };
    assert!(plain.same_name(&name("tag")));
    assert!(!plain.same_name(&name("other")));
    assert!(!plain.same_name(&qualified));
    assert!(qualified.same_name(&qualified.clone()));
}

#[test]
fn nodes_wrap_each_leaf_kind() {
    let e = Element::with_local_name("x".to_string());
    assert!(matches!(Node::from(e), Node::Element(_)));
    assert!(matches!(Node::from(Text("t".to_string())), Node::Text(_)));
    assert!(matches!(
        Node::from(gpx_extensions::dom::Comment("c".to_string())),
        Node::Comment(_)
    ));
    let pi = gpx_extensions::dom::ProcessingInstruction { name: "p".to_string(), data: None };
    assert!(matches!(Node::from(pi), Node::ProcessingInstruction(_)));
}

#[test]
fn xml_names_round_trip() {
    let original = OwnedName {
        local_name: "tag".to_string(),
        namespace: Some("urn:example".to_string()),
        prefix: Some("ex".to_string()),
    };
    let there = original.clone().into_xml();
    assert_eq!(there.local_name, "tag");
    assert_eq!(there.namespace.as_deref(), Some("urn:example"));
    assert_eq!(there.prefix.as_deref(), Some("ex"));
    let back = OwnedName::from_xml(there);
    assert_eq!(back, original);
}

#[test]
fn xml_attributes_round_trip() {
    let original = OwnedAttribute { name: name("cond"), value: "no".to_string() };
    let back = OwnedAttribute::from_xml(original.clone().into_xml());
    assert_eq!(back, original);
}

#[test]
fn xml_namespaces_round_trip() {
    let mut ns = Namespace::new();
    ns.0.insert("ex".to_string(), "urn:example".to_string());
    ns.0.insert("other".to_string(), "urn:other".to_string());
    let back = Namespace::from_xml(ns.clone().into_xml());
    assert_eq!(back, ns);
}

#[test]
fn borrowed_names_share_their_parts() {
    let qualified = OwnedName {
        local_name: "tag".to_string(),
        namespace: Some("urn:example".to_string()),
        prefix: Some("ex".to_string()),
    };
    let borrowed = qualified.borrow();
    assert_eq!(borrowed.local_name, "tag");
    assert_eq!(borrowed.namespace, Some("urn:example"));
    assert_eq!(borrowed.prefix, Some("ex"));

    let attr = OwnedAttribute { name: name("cond"), value: "no".to_string() };
    let borrowed = attr.borrow();
    assert_eq!(borrowed.name.local_name, "cond");
    assert_eq!(borrowed.value, "no");
}

#[test]
fn names_compare_across_representations() {
    let ours = OwnedName {
        local_name: "tag".to_string(),
        namespace: Some("urn:example".to_string()),
        prefix: Some("ex".to_string()),
    };
    let theirs = ours.clone().into_xml();
    assert!(ours.same_xml_name(&theirs));
    assert!(!name("tag").same_xml_name(&theirs));
    assert!(!ours.same_xml_name(&name("tag").into_xml()));
}

#[test]
fn reader_events_are_reduced_faithfully() {
    let events = events_of("<extensions><b cond=\"no\">x</b></extensions>");
    // StartDocument is reduced to an ignored event.
    assert!(matches!(events[0], Event::Other));
    match &events[1] {
        Event::StartElement { name: n, attributes, .. } => {
            assert_eq!(n.local_name, "extensions");
            assert!(attributes.is_empty());
        }
        _ => panic!("the root start tag must come through"),
    }
    match &events[2] {
        Event::StartElement { name: n, attributes, .. } => {
            assert_eq!(n.local_name, "b");
            assert_eq!(attributes.len(), 1);
            assert_eq!(attributes[0].name, name("cond"));
            assert_eq!(attributes[0].value, "no");
        }
        _ => panic!("the inner start tag must keep its attribute"),
    }
    assert!(matches!(&events[3], Event::Characters(s) if s == "x"));
    assert!(matches!(&events[4], Event::EndElement { name: n } if n.local_name == "b"));
    assert!(matches!(&events[5], Event::EndElement { name: n } if n.local_name == "extensions"));
}

#[test]
fn namespace_default_is_empty() {
    let ns: Namespace = Default::default();
    assert_eq!(ns, Namespace::new());
    assert!(ns.0.is_empty());
}
