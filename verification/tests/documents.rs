//! Whole-document decoding through the real XML tokenizer.

use osmxml::Osm;
use osmxml::OsmElement;
use osmxml::OsmParseError;

fn decode(doc: &str) -> Result<Osm, OsmParseError> {
    Osm::new(doc.as_bytes())
}

#[test]
fn minimal_node_document() {
    let osm = decode(r#"<node id="1" lat="1.0" lon="2.0" visible="true"></node>"#).unwrap();
    assert_eq!(osm.elements.len(), 1);
    match osm.elements.get(&1).unwrap() {
        OsmElement::Node { id, lat, lng, visible, tags } => {
            assert_eq!(*id, 1);
            assert_eq!(lat.as_str(), "1.0");
            assert_eq!(lng.as_str(), "2.0");
            assert!(*visible);
            assert!(tags.is_empty());
        },
        other => panic!("expected a node, got {:?}", other),
    }
}

#[test]
fn node_with_tag_scenario() {
    let osm = decode(
        r#"<node id="1" lat="1.0" lon="2.0" visible="true"><tag k="name" v="X"/></node>"#,
    )
    .unwrap();
    match osm.elements.get(&1).unwrap() {
        OsmElement::Node { id, lat, lng, visible, tags } => {
            assert_eq!(*id, 1);
            assert_eq!(lat.parse::<f64>().unwrap(), 1.0);
            assert_eq!(lng.parse::<f64>().unwrap(), 2.0);
            assert!(*visible);
            assert_eq!(tags.get(&"name".to_string()).unwrap().as_str(), "X");
        },
        other => panic!("expected a node, got {:?}", other),
    }
}

#[test]
fn way_preserves_reference_order() {
    let osm = decode(
        r#"<osm><way id="7"><nd ref="5"/><nd ref="3"/><nd ref="5"/><nd ref="9"/><tag k="highway" v="residential"/></way></osm>"#,
    )
    .unwrap();
    match osm.elements.get(&7).unwrap() {
        OsmElement::Way { id, nodes, tags } => {
            assert_eq!(*id, 7);
            assert_eq!(nodes, &vec![5, 3, 5, 9]);
            assert_eq!(tags.get(&"highway".to_string()).unwrap().as_str(), "residential");
        },
        other => panic!("expected a way, got {:?}", other),
    }
}

#[test]
fn relation_preserves_member_order() {
    let osm = decode(
        r#"<osm><relation id="4"><member ref="2"/><member ref="1"/><member ref="2"/></relation></osm>"#,
    )
    .unwrap();
    match osm.elements.get(&4).unwrap() {
        OsmElement::Relation { id, members, .. } => {
            assert_eq!(*id, 4);
            assert_eq!(members, &vec![2, 1, 2]);
        },
        other => panic!("expected a relation, got {:?}", other),
    }
}

#[test]
fn decoding_twice_is_idempotent() {
    let doc = r#"<osm><node id="1" lat="1.0" lon="2.0" visible="false"><tag k="a" v="b"/></node><way id="2"><nd ref="1"/></way></osm>"#;
    let first = decode(doc).unwrap();
    let second = decode(doc).unwrap();
    assert_eq!(first, second);
}

#[test]
fn tag_missing_value_attribute_fails() {
    let err = decode(r#"<node id="1" lat="1.0" lon="2.0" visible="true"><tag k="name"/></node>"#)
        .unwrap_err();
    assert_eq!(
        err,
        OsmParseError::Attribute { attribute: "v".to_string(), element: "tag".to_string() },
    );
}

#[test]
fn unexpected_child_in_node_fails() {
    let err = decode(r#"<node id="1" lat="1.0" lon="2.0" visible="true"><foo/></node>"#)
        .unwrap_err();
    assert_eq!(
        err,
        OsmParseError::UnexpectedChild { child: "foo".to_string(), scope: "node".to_string() },
    );
}

#[test]
fn malformed_document_is_a_source_error() {
    let err = decode(r#"<node id="1" lat="1.0""#).unwrap_err();
    assert!(matches!(err, OsmParseError::Source { .. }), "got {:?}", err);
}

#[test]
fn unrecognized_top_level_elements_are_skipped() {
    let osm = decode(
        r#"<osm><bounds/><node id="3" lat="0.5" lon="0.25" visible="true"></node></osm>"#,
    )
    .unwrap();
    assert_eq!(osm.elements.len(), 1);
    assert!(osm.elements.contains_key(&3));
}

#[test]
fn later_tag_value_replaces_earlier_one() {
    let osm = decode(
        r#"<node id="1" lat="1.0" lon="2.0" visible="true"><tag k="a" v="1"/><tag k="a" v="2"/></node>"#,
    )
    .unwrap();
    match osm.elements.get(&1).unwrap() {
        OsmElement::Node { tags, .. } => {
            assert_eq!(tags.get(&"a".to_string()).unwrap().as_str(), "2");
        },
        other => panic!("expected a node, got {:?}", other),
    }
}

#[test]
fn node_missing_visible_fails() {
    let err = decode(r#"<node id="1" lat="1.0" lon="2.0"></node>"#).unwrap_err();
    assert_eq!(
        err,
        OsmParseError::Attribute { attribute: "visible".to_string(), element: "node".to_string() },
    );
}

#[test]
fn node_with_malformed_latitude_fails() {
    let err = decode(r#"<node id="1" lat="abc" lon="2.0" visible="true"></node>"#).unwrap_err();
    assert_eq!(
        err,
        OsmParseError::Attribute { attribute: "lat".to_string(), element: "node".to_string() },
    );
}

#[test]
fn way_missing_id_fails() {
    let err = decode(r#"<way><nd ref="1"/></way>"#).unwrap_err();
    assert_eq!(
        err,
        OsmParseError::Attribute { attribute: "id".to_string(), element: "way".to_string() },
    );
}

#[test]
fn nd_missing_ref_fails() {
    let err = decode(r#"<way id="1"><nd/></way>"#).unwrap_err();
    assert_eq!(
        err,
        OsmParseError::Attribute { attribute: "ref".to_string(), element: "nd".to_string() },
    );
}

#[test]
fn exponent_and_special_coordinates_are_accepted() {
    let osm = decode(r#"<node id="1" lat="5e-1" lon="-inf" visible="false"></node>"#).unwrap();
    match osm.elements.get(&1).unwrap() {
        OsmElement::Node { lat, lng, .. } => {
            assert_eq!(lat.parse::<f64>().unwrap(), 0.5);
            assert_eq!(lng.parse::<f64>().unwrap(), f64::NEG_INFINITY);
        },
        other => panic!("expected a node, got {:?}", other),
    }
}

#[test]
fn comments_and_text_are_ignored() {
    let osm = decode(
        "<osm><!-- note --><node id=\"1\" lat=\"1.0\" lon=\"2.0\" visible=\"true\">\n  <!-- inner -->\n</node></osm>",
    )
    .unwrap();
    assert!(osm.elements.contains_key(&1));
}

#[test]
fn all_three_kinds_decode_in_one_pass() {
    let osm = decode(
        r#"<osm><node id="1" lat="1.0" lon="2.0" visible="true"></node><way id="2"><nd ref="1"/></way><relation id="3"><member ref="2"/><tag k="type" v="route"/></relation></osm>"#,
    )
    .unwrap();
    assert_eq!(osm.elements.len(), 3);
    assert!(matches!(osm.elements.get(&1), Some(OsmElement::Node { .. })));
    assert!(matches!(osm.elements.get(&2), Some(OsmElement::Way { .. })));
    assert!(matches!(osm.elements.get(&3), Some(OsmElement::Relation { .. })));
}

#[test]
fn later_element_with_same_id_replaces_earlier() {
    let osm = decode(
        r#"<osm><node id="1" lat="1.0" lon="2.0" visible="true"></node><way id="1"><nd ref="9"/></way></osm>"#,
    )
    .unwrap();
    assert_eq!(osm.elements.len(), 1);
    assert!(matches!(osm.elements.get(&1), Some(OsmElement::Way { .. })));
}

#[test]
fn lookup_by_identifier() {
    let osm = decode(r#"<osm><way id="9"><nd ref="1"/></way></osm>"#).unwrap();
    assert!(osm.get(9).is_some());
    assert!(osm.get(8).is_none());
}
