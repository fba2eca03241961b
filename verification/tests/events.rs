//! Decoding over hand-built event sequences, and the value parsers.

use osmxml::Attr;
use osmxml::Event;
use osmxml::Osm;
use osmxml::OsmElement;
use osmxml::OsmParseError;
use osmxml::Tags;

fn attr(key: &str, value: &str) -> Attr {
    Attr { key: key.to_string(), value: value.to_string() }
}

fn start(name: &str, attrs: Vec<Attr>) -> Event {
    Event::ElementStart { name: name.to_string(), attrs }
}

fn end(name: &str) -> Event {
    Event::ElementEnd { name: name.to_string() }
}

fn node_attrs() -> Vec<Attr> {
    vec![
        attr("id", "1"),
        attr("lat", "1.0"),
        attr("lon", "2.0"),
        attr("visible", "true"),
    ]
}

#[test]
fn document_end_inside_open_way_is_a_premature_end() {
    let events = vec![
        start("way", vec![attr("id", "1")]),
        Event::DocumentEnd,
    ];
    let err = Osm::from_events(&events).unwrap_err();
    assert_eq!(err, OsmParseError::PrematureEnd);
}

#[test]
fn exhausted_events_inside_open_way_is_a_premature_end() {
    let events = vec![start("way", vec![attr("id", "1")])];
    let err = Osm::from_events(&events).unwrap_err();
    assert_eq!(err, OsmParseError::PrematureEnd);
}

#[test]
fn mismatched_closing_tag_is_reported() {
    let events = vec![start("node", node_attrs()), end("way"), Event::DocumentEnd];
    let err = Osm::from_events(&events).unwrap_err();
    assert_eq!(
        err,
        OsmParseError::MismatchedClose { expected: "node".to_string(), actual: "way".to_string() },
    );
}

#[test]
fn source_error_event_aborts_the_pass() {
    let events = vec![
        start("node", node_attrs()),
        Event::SourceError { message: "boom".to_string() },
    ];
    let err = Osm::from_events(&events).unwrap_err();
    assert_eq!(err, OsmParseError::Source { message: "boom".to_string() });
}

#[test]
fn empty_event_sequence_decodes_to_nothing() {
    let osm = Osm::from_events(&vec![]).unwrap();
    assert!(osm.elements.is_empty());
}

#[test]
fn stray_end_and_text_at_top_level_are_ignored() {
    let events = vec![
        Event::Other,
        end("osm"),
        start("node", node_attrs()),
        end("node"),
        Event::DocumentEnd,
    ];
    let osm = Osm::from_events(&events).unwrap();
    assert_eq!(osm.elements.len(), 1);
}

#[test]
fn parse_node_consumes_its_subtree() {
    let events = vec![
        start("tag", vec![attr("k", "name"), attr("v", "X")]),
        end("tag"),
        end("node"),
        Event::DocumentEnd,
    ];
    let (el, next) = osmxml::parse_node(&node_attrs(), &events, 0).unwrap();
    assert_eq!(next, 3);
    match el {
        OsmElement::Node { id, tags, .. } => {
            assert_eq!(id, 1);
            assert_eq!(tags.get(&"name".to_string()).unwrap().as_str(), "X");
        },
        other => panic!("expected a node, got {:?}", other),
    }
}

#[test]
fn parse_nd_returns_its_reference() {
    let events = vec![end("nd")];
    let (n, next) = osmxml::parse_nd(&vec![attr("ref", "42")], &events, 0).unwrap();
    assert_eq!(n, 42);
    assert_eq!(next, 1);
}

#[test]
fn parse_member_returns_its_reference() {
    let events = vec![Event::Other, end("member")];
    let (n, next) = osmxml::parse_member(&vec![attr("ref", "-7")], &events, 0).unwrap();
    assert_eq!(n, -7);
    assert_eq!(next, 2);
}

#[test]
fn parse_tag_captures_key_and_value() {
    let events = vec![end("tag")];
    let (k, v, next) = osmxml::parse_tag(&vec![attr("k", "a"), attr("v", "b")], &events, 0)
        .unwrap();
    assert_eq!(k.as_str(), "a");
    assert_eq!(v.as_str(), "b");
    assert_eq!(next, 1);
}

#[test]
fn scan_leaf_rejects_any_child() {
    let events = vec![start("x", vec![]), end("nd")];
    let err = osmxml::scan_leaf(&events, 0, &"nd".to_string()).unwrap_err();
    assert_eq!(
        err,
        OsmParseError::UnexpectedChild { child: "x".to_string(), scope: "nd".to_string() },
    );
}

#[test]
fn find_attribute_takes_the_first_match() {
    let attrs = vec![attr("a", "1"), attr("a", "2"), attr("b", "3")];
    assert_eq!(
        osmxml::find_attribute(&attrs, &"a".to_string()).unwrap().as_str(),
        "1",
    );
    assert!(osmxml::find_attribute(&attrs, &"c".to_string()).is_none());
}

#[test]
fn tags_keep_the_latest_value_per_key() {
    let mut tags = Tags::new();
    assert!(tags.is_empty());
    tags.insert("a".to_string(), "1".to_string());
    tags.insert("b".to_string(), "2".to_string());
    tags.insert("a".to_string(), "3".to_string());
    assert!(!tags.is_empty());
    assert_eq!(tags.get(&"a".to_string()).unwrap().as_str(), "3");
    assert_eq!(tags.get(&"b".to_string()).unwrap().as_str(), "2");
    assert!(tags.get(&"c".to_string()).is_none());
}
