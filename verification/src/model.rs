//! The decoded element types and their mathematical models.

use std::collections::HashMap;

use vstd::prelude::*;

use crate::tags::Tags;

verus! {

/// One decoded map element: a point, a path, or a grouping.
///
/// Coordinates are kept as their source text, checked to be well-formed
/// floating-point syntax when the element is decoded.
#[derive(Debug, Clone, PartialEq)]
pub enum OsmElement {
    Node { id: i64, lat: String, lng: String, visible: bool, tags: Tags },
    Way { id: i64, nodes: Vec<i64>, tags: Tags },
    Relation { id: i64, members: Vec<i64>, tags: Tags },
}

/// The mathematical shape of an [`OsmElement`]: identifiers as integers,
/// strings as character sequences, reference lists as integer sequences
/// and the tag set as a mapping.
pub enum ElementModel {
    Node {
        id: int,
        lat: Seq<char>,
        lng: Seq<char>,
        visible: bool,
        tags: Map<Seq<char>, Seq<char>>,
    },
    Way { id: int, nodes: Seq<int>, tags: Map<Seq<char>, Seq<char>> },
    Relation { id: int, members: Seq<int>, tags: Map<Seq<char>, Seq<char>> },
}

/// The identifier an element is filed under.
pub open spec fn spec_elem_id(e: ElementModel) -> int {
    match e {
        ElementModel::Node { id, .. } => id,
        ElementModel::Way { id, .. } => id,
        ElementModel::Relation { id, .. } => id,
    }
}

/// A sequence of machine integers as a sequence of mathematical integers.
pub open spec fn ids_model(s: Seq<i64>) -> Seq<int> {
    Seq::new(s.len(), |k: int| s[k] as int)
}

impl View for OsmElement {
    type V = ElementModel;

    open spec fn view(&self) -> ElementModel {
        match self {
            OsmElement::Node { id, lat, lng, visible, tags } => ElementModel::Node {
                id: *id as int,
                lat: lat@,
                lng: lng@,
                visible: *visible,
                tags: tags@,
            },
            OsmElement::Way { id, nodes, tags } => ElementModel::Way {
                id: *id as int,
                nodes: ids_model(nodes@),
                tags: tags@,
            },
            OsmElement::Relation { id, members, tags } => ElementModel::Relation {
                id: *id as int,
                members: ids_model(members@),
                tags: tags@,
            },
        }
    }
}

/// The mapping from identifier to element model described by a decoded
/// element table.
pub open spec fn elements_model(m: Map<i64, OsmElement>) -> Map<int, ElementModel> {
    Map::new(
        |k: int| i64::MIN <= k <= i64::MAX && m.contains_key(k as i64),
        |k: int| m[k as i64]@,
    )
}

/// Filing one element extends the model mapping pointwise.
pub proof fn lemma_elements_model_insert(m: Map<i64, OsmElement>, id: i64, e: OsmElement)
    ensures
        elements_model(m.insert(id, e)) == elements_model(m).insert(id as int, e@),
{
    assert(elements_model(m.insert(id, e)) =~= elements_model(m).insert(id as int, e@));
}

/// An empty element table describes an empty model mapping.
pub proof fn lemma_elements_model_empty(m: Map<i64, OsmElement>)
    requires
        m == Map::<i64, OsmElement>::empty(),
    ensures
        elements_model(m) == Map::<int, ElementModel>::empty(),
{
    assert(elements_model(m) =~= Map::<int, ElementModel>::empty());
}

/// Appending one machine integer extends the integer-sequence model.
pub proof fn lemma_ids_model_push(s: Seq<i64>, x: i64)
    ensures
        ids_model(s.push(x)) == ids_model(s).push(x as int),
{
    assert(ids_model(s.push(x)) =~= ids_model(s).push(x as int));
}

/// The empty sequence of machine integers models the empty sequence.
pub proof fn lemma_ids_model_empty()
    ensures
        ids_model(Seq::<i64>::empty()) == Seq::<int>::empty(),
{
    assert(ids_model(Seq::<i64>::empty()) =~= Seq::<int>::empty());
}

/// The decoded document: a mapping from identifier to element, built in
/// one pass and immutable afterwards.
#[derive(Debug, Clone, PartialEq)]
pub struct Osm {
    pub elements: HashMap<i64, OsmElement>,
}

} // verus!
