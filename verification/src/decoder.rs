//! The per-element decoders and the top-level dispatch: one full pass over
//! the event stream produces the document result or the first error.

use std::collections::HashMap;

use vstd::prelude::*;

use crate::attrs::find_attribute;
use crate::attrs::parse_bool;
use crate::attrs::parse_int_attr;
use crate::attrs::spec_find_attr;
use crate::attrs::spec_int_attr;
use crate::attrs::spec_parse_bool;
use crate::errors::ErrorModel;
use crate::errors::OsmParseError;
use crate::events::Attr;
use crate::events::Event;
use crate::floats::is_float_text;
use crate::floats::spec_float_text;
use crate::model::elements_model;
use crate::model::lemma_elements_model_empty;
use crate::model::lemma_elements_model_insert;
use crate::model::lemma_ids_model_empty;
use crate::model::ElementModel;
use crate::model::Osm;
use crate::model::OsmElement;
use crate::model::spec_elem_id;
use crate::scan::lemma_elem_scan_bounds;
use crate::scan::spec_elem_scan;
use crate::scan::sub_scan;
use crate::scan::ElementKind;
use crate::source::events_of;
use crate::source::is_terminal_event;
use crate::source::next_event;
use crate::source::reader_from_bytes;
use crate::source::remaining_events;
use crate::source::stream_wf;
use crate::tags::Tags;

verus! {

broadcast use vstd::std_specs::hash::group_hash_axioms;

/// The value of the attribute `name`, provided it is present and is
/// well-formed floating-point text.
pub open spec fn spec_float_attr(attrs: Seq<Attr>, name: Seq<char>) -> Option<Seq<char>> {
    match spec_find_attr(attrs, name) {
        None => None,
        Some(v) => if spec_float_text(v) {
            Some(v)
        } else {
            None
        },
    }
}

/// The boolean value of the attribute `name`, if present and well formed.
pub open spec fn spec_bool_attr(attrs: Seq<Attr>, name: Seq<char>) -> Option<bool> {
    match spec_find_attr(attrs, name) {
        None => None,
        Some(v) => spec_parse_bool(v),
    }
}

/// Looks up the required floating-point attribute `name` and keeps its
/// source text; a missing or malformed value aborts with an attribute
/// error naming the attribute and the element kind.
fn parse_float_attr(name: &String, attributes: &Vec<Attr>, element: &String) -> (r: Result<
    String,
    OsmParseError,
>)
    ensures
        match r {
            Ok(v) => spec_float_attr(attributes@, name@) == Some(v@),
            Err(e) => spec_float_attr(attributes@, name@) is None && e@ == (ErrorModel::Attribute {
                attribute: name@,
                element: element@,
            }),
        },
{
    match find_attribute(attributes, name) {
        None => Err(OsmParseError::Attribute {
            attribute: name.clone(),
            element: element.clone(),
        }),
        Some(v) => {
            if is_float_text(v.as_str()) {
                Ok(v.clone())
            } else {
                Err(OsmParseError::Attribute {
                    attribute: name.clone(),
                    element: element.clone(),
                })
            }
        },
    }
}

/// Looks up the required boolean attribute `name`; a missing or malformed
/// value aborts with an attribute error naming the attribute and the
/// element kind.
fn parse_bool_attr(name: &String, attributes: &Vec<Attr>, element: &String) -> (r: Result<
    bool,
    OsmParseError,
>)
    ensures
        match r {
            Ok(b) => spec_bool_attr(attributes@, name@) == Some(b),
            Err(e) => spec_bool_attr(attributes@, name@) is None && e@ == (ErrorModel::Attribute {
                attribute: name@,
                element: element@,
            }),
        },
{
    match find_attribute(attributes, name) {
        None => Err(OsmParseError::Attribute {
            attribute: name.clone(),
            element: element.clone(),
        }),
        Some(v) => match parse_bool(v) {
            Some(b) => Ok(b),
            None => Err(OsmParseError::Attribute {
                attribute: name.clone(),
                element: element.clone(),
            }),
        },
    }
}

/// The required attributes of a `node`: integer `id`, floating-point
/// `lat` and `lon`, boolean `visible`, each checked in that order.
pub open spec fn spec_node_attrs(attrs: Seq<Attr>) -> Result<
    (int, Seq<char>, Seq<char>, bool),
    ErrorModel,
> {
    match spec_int_attr(attrs, "id"@) {
        None => Err(ErrorModel::Attribute { attribute: "id"@, element: "node"@ }),
        Some(id) => match spec_float_attr(attrs, "lat"@) {
            None => Err(ErrorModel::Attribute { attribute: "lat"@, element: "node"@ }),
            Some(lat) => match spec_float_attr(attrs, "lon"@) {
                None => Err(ErrorModel::Attribute { attribute: "lon"@, element: "node"@ }),
                Some(lon) => match spec_bool_attr(attrs, "visible"@) {
                    None => Err(ErrorModel::Attribute {
                        attribute: "visible"@,
                        element: "node"@,
                    }),
                    Some(visible) => Ok((id, lat, lon, visible)),
                },
            },
        },
    }
}

/// Decoding one `node` whose start event carried `attrs`, with its
/// children's events beginning at `i`: the required attributes, then the
/// bounded sub-scan of the node scope.
pub open spec fn spec_parse_node(attrs: Seq<Attr>, evs: Seq<Event>, i: int) -> Result<
    (ElementModel, int),
    ErrorModel,
> {
    match spec_node_attrs(attrs) {
        Err(e) => Err(e),
        Ok((id, lat, lon, visible)) => match spec_elem_scan(
            ElementKind::Node,
            evs,
            i,
            Map::empty(),
            Seq::empty(),
        ) {
            Err(e) => Err(e),
            Ok((tags, _refs, j)) => Ok(
                (ElementModel::Node { id, lat, lng: lon, visible, tags }, j),
            ),
        },
    }
}

/// Decoding one `way`: its required integer `id`, then the bounded
/// sub-scan collecting `nd` references in document order and tags.
pub open spec fn spec_parse_way(attrs: Seq<Attr>, evs: Seq<Event>, i: int) -> Result<
    (ElementModel, int),
    ErrorModel,
> {
    match spec_int_attr(attrs, "id"@) {
        None => Err(ErrorModel::Attribute { attribute: "id"@, element: "way"@ }),
        Some(id) => match spec_elem_scan(ElementKind::Way, evs, i, Map::empty(), Seq::empty()) {
            Err(e) => Err(e),
            Ok((tags, refs, j)) => Ok((ElementModel::Way { id, nodes: refs, tags }, j)),
        },
    }
}

/// Decoding one `relation`: its required integer `id`, then the bounded
/// sub-scan collecting `member` references in document order and tags.
pub open spec fn spec_parse_relation(attrs: Seq<Attr>, evs: Seq<Event>, i: int) -> Result<
    (ElementModel, int),
    ErrorModel,
> {
    match spec_int_attr(attrs, "id"@) {
        None => Err(ErrorModel::Attribute { attribute: "id"@, element: "relation"@ }),
        Some(id) => match spec_elem_scan(
            ElementKind::Relation,
            evs,
            i,
            Map::empty(),
            Seq::empty(),
        ) {
            Err(e) => Err(e),
            Ok((tags, refs, j)) => Ok((ElementModel::Relation { id, members: refs, tags }, j)),
        },
    }
}

/// The top-level dispatch on one element-start named `name` with
/// attributes `attrs`, its children's events beginning at `i`: `node`,
/// `way` and `relation` are decoded and filed under their identifier; any
/// other name is skipped without descending.  Yields the element mapping
/// and the position the pass continues from.
pub open spec fn spec_dispatch(
    name: Seq<char>,
    attrs: Seq<Attr>,
    evs: Seq<Event>,
    i: int,
    elems: Map<int, ElementModel>,
) -> Result<(Map<int, ElementModel>, int), ErrorModel> {
    if name == "node"@ {
        match spec_parse_node(attrs, evs, i) {
            Err(e) => Err(e),
            Ok((el, j)) => Ok((elems.insert(spec_elem_id(el), el), j)),
        }
    } else if name == "way"@ {
        match spec_parse_way(attrs, evs, i) {
            Err(e) => Err(e),
            Ok((el, j)) => Ok((elems.insert(spec_elem_id(el), el), j)),
        }
    } else if name == "relation"@ {
        match spec_parse_relation(attrs, evs, i) {
            Err(e) => Err(e),
            Ok((el, j)) => Ok((elems.insert(spec_elem_id(el), el), j)),
        }
    } else {
        Ok((elems, i))
    }
}

/// A successful dispatch never moves backwards and stays inside the event
/// sequence, provided it starts inside it.
pub proof fn lemma_dispatch_bounds(
    name: Seq<char>,
    attrs: Seq<Attr>,
    evs: Seq<Event>,
    i: int,
    elems: Map<int, ElementModel>,
)
    requires
        0 <= i <= evs.len(),
    ensures
        spec_dispatch(name, attrs, evs, i, elems) matches Ok((m, j)) ==> i <= j <= evs.len(),
{
    lemma_elem_scan_bounds(ElementKind::Node, evs, i, Map::empty(), Seq::empty());
    lemma_elem_scan_bounds(ElementKind::Way, evs, i, Map::empty(), Seq::empty());
    lemma_elem_scan_bounds(ElementKind::Relation, evs, i, Map::empty(), Seq::empty());
}

/// The whole pass from position `i` with the elements decoded so far:
/// element starts are dispatched, stray element ends and text are
/// ignored, document end (or an exhausted sequence) completes the pass,
/// and a lexical failure aborts it.
pub open spec fn spec_top(evs: Seq<Event>, i: int, elems: Map<int, ElementModel>) -> Result<
    Map<int, ElementModel>,
    ErrorModel,
>
    decreases evs.len() - i,
    via spec_top_dec
{
    if i < 0 || i >= evs.len() {
        Ok(elems)
    } else {
        match evs[i] {
            Event::ElementStart { name, attrs } => {
                match spec_dispatch(name@, attrs@, evs, i + 1, elems) {
                    Err(e) => Err(e),
                    Ok((elems2, j)) => spec_top(evs, j, elems2),
                }
            },
            Event::ElementEnd { .. } => spec_top(evs, i + 1, elems),
            Event::DocumentEnd => Ok(elems),
            Event::SourceError { message } => Err(ErrorModel::Source { message: message@ }),
            Event::Other => spec_top(evs, i + 1, elems),
        }
    }
}

#[via_fn]
proof fn spec_top_dec(evs: Seq<Event>, i: int, elems: Map<int, ElementModel>) {
    if 0 <= i < evs.len() {
        match evs[i] {
            Event::ElementStart { name, attrs } => {
                lemma_dispatch_bounds(name@, attrs@, evs, i + 1, elems);
            },
            _ => {},
        }
    }
}

/// What decoding an event sequence yields: the mapping from identifier to
/// element, or the first error of the pass.
pub open spec fn spec_decode(evs: Seq<Event>) -> Result<Map<int, ElementModel>, ErrorModel> {
    spec_top(evs, 0, Map::empty())
}

/// Decodes one `node` element whose start event carried `attributes`,
/// consuming its subtree from `start` up to its closing tag.
pub fn parse_node(attributes: &Vec<Attr>, events: &Vec<Event>, start: usize) -> (r: Result<
    (OsmElement, usize),
    OsmParseError,
>)
    ensures
        match r {
            Ok((el, j)) => spec_parse_node(attributes@, events@, start as int) == Ok::<
                _,
                ErrorModel,
            >((el@, j as int)),
            Err(e) => spec_parse_node(attributes@, events@, start as int) == Err::<
                (ElementModel, int),
                _,
            >(e@),
        },
{
    let node_name: String = "node".to_owned();
    let id = match parse_int_attr(&"id".to_owned(), attributes, &node_name) {
        Ok(v) => v,
        Err(e) => {
            return Err(e);
        },
    };
    let lat = match parse_float_attr(&"lat".to_owned(), attributes, &node_name) {
        Ok(v) => v,
        Err(e) => {
            return Err(e);
        },
    };
    let lng = match parse_float_attr(&"lon".to_owned(), attributes, &node_name) {
        Ok(v) => v,
        Err(e) => {
            return Err(e);
        },
    };
    let visible = match parse_bool_attr(&"visible".to_owned(), attributes, &node_name) {
        Ok(v) => v,
        Err(e) => {
            return Err(e);
        },
    };
    let mut tags = Tags::new();
    let mut refs: Vec<i64> = Vec::new();
    proof {
        lemma_ids_model_empty();
    }
    match sub_scan(ElementKind::Node, events, start, &mut tags, &mut refs) {
        Ok(j) => Ok((OsmElement::Node { id, lat, lng, visible, tags }, j)),
        Err(e) => Err(e),
    }
}

/// Decodes one `way` element, collecting its `nd` references in document
/// order and its tags.
pub fn parse_way(attributes: &Vec<Attr>, events: &Vec<Event>, start: usize) -> (r: Result<
    (OsmElement, usize),
    OsmParseError,
>)
    ensures
        match r {
            Ok((el, j)) => spec_parse_way(attributes@, events@, start as int) == Ok::<
                _,
                ErrorModel,
            >((el@, j as int)),
            Err(e) => spec_parse_way(attributes@, events@, start as int) == Err::<
                (ElementModel, int),
                _,
            >(e@),
        },
{
    let way_name: String = "way".to_owned();
    let id = match parse_int_attr(&"id".to_owned(), attributes, &way_name) {
        Ok(v) => v,
        Err(e) => {
            return Err(e);
        },
    };
    let mut tags = Tags::new();
    let mut nodes: Vec<i64> = Vec::new();
    proof {
        lemma_ids_model_empty();
    }
    match sub_scan(ElementKind::Way, events, start, &mut tags, &mut nodes) {
        Ok(j) => Ok((OsmElement::Way { id, nodes, tags }, j)),
        Err(e) => Err(e),
    }
}

/// Decodes one `relation` element, collecting its `member` references in
/// document order and its tags.
pub fn parse_relation(attributes: &Vec<Attr>, events: &Vec<Event>, start: usize) -> (r: Result<
    (OsmElement, usize),
    OsmParseError,
>)
    ensures
        match r {
            Ok((el, j)) => spec_parse_relation(attributes@, events@, start as int) == Ok::<
                _,
                ErrorModel,
            >((el@, j as int)),
            Err(e) => spec_parse_relation(attributes@, events@, start as int) == Err::<
                (ElementModel, int),
                _,
            >(e@),
        },
{
    let relation_name: String = "relation".to_owned();
    let id = match parse_int_attr(&"id".to_owned(), attributes, &relation_name) {
        Ok(v) => v,
        Err(e) => {
            return Err(e);
        },
    };
    let mut tags = Tags::new();
    let mut members: Vec<i64> = Vec::new();
    proof {
        lemma_ids_model_empty();
    }
    match sub_scan(ElementKind::Relation, events, start, &mut tags, &mut members) {
        Ok(j) => Ok((OsmElement::Relation { id, members, tags }, j)),
        Err(e) => Err(e),
    }
}

/// Dispatches one top-level element start: `node`, `way` and `relation`
/// are decoded and filed under their identifier, anything else is skipped
/// without descending.  On success returns the position the pass
/// continues from; on failure the element table is untouched.
pub fn parse_start_element(
    name: &String,
    attributes: &Vec<Attr>,
    events: &Vec<Event>,
    start: usize,
    elements: &mut HashMap<i64, OsmElement>,
) -> (r: Result<usize, OsmParseError>)
    ensures
        match r {
            Ok(j) => spec_dispatch(
                name@,
                attributes@,
                events@,
                start as int,
                elements_model(old(elements)@),
            ) == Ok::<_, ErrorModel>((elements_model(final(elements)@), j as int)),
            Err(e) => spec_dispatch(
                name@,
                attributes@,
                events@,
                start as int,
                elements_model(old(elements)@),
            ) == Err::<(Map<int, ElementModel>, int), _>(e@) && final(elements)@ == old(
                elements,
            )@,
        },
{
    if *name == "node".to_owned() {
        match parse_node(attributes, events, start) {
            Ok((el, j)) => {
                let id = match &el {
                    OsmElement::Node { id, .. } => *id,
                    OsmElement::Way { id, .. } => *id,
                    OsmElement::Relation { id, .. } => *id,
                };
                proof {
                    lemma_elements_model_insert(elements@, id, el);
                }
                elements.insert(id, el);
                Ok(j)
            },
            Err(e) => Err(e),
        }
    } else if *name == "way".to_owned() {
        match parse_way(attributes, events, start) {
            Ok((el, j)) => {
                let id = match &el {
                    OsmElement::Node { id, .. } => *id,
                    OsmElement::Way { id, .. } => *id,
                    OsmElement::Relation { id, .. } => *id,
                };
                proof {
                    lemma_elements_model_insert(elements@, id, el);
                }
                elements.insert(id, el);
                Ok(j)
            },
            Err(e) => Err(e),
        }
    } else if *name == "relation".to_owned() {
        match parse_relation(attributes, events, start) {
            Ok((el, j)) => {
                let id = match &el {
                    OsmElement::Node { id, .. } => *id,
                    OsmElement::Way { id, .. } => *id,
                    OsmElement::Relation { id, .. } => *id,
                };
                proof {
                    lemma_elements_model_insert(elements@, id, el);
                }
                elements.insert(id, el);
                Ok(j)
            },
            Err(e) => Err(e),
        }
    } else {
        Ok(start)
    }
}

impl Osm {
    /// Runs one full decode pass over an already-pulled event sequence:
    /// the result holds exactly the elements the events describe, or the
    /// first error of the pass.
    pub fn from_events(events: &Vec<Event>) -> (r: Result<Osm, OsmParseError>)
        ensures
            match r {
                Ok(osm) => spec_decode(events@) == Ok::<_, ErrorModel>(
                    elements_model(osm.elements@),
                ),
                Err(e) => spec_decode(events@) == Err::<Map<int, ElementModel>, _>(e@),
            },
    {
        let mut elements: HashMap<i64, OsmElement> = HashMap::new();
        proof {
            lemma_elements_model_empty(elements@);
        }
        let mut i: usize = 0;
        loop
            invariant
                i <= events@.len(),
                spec_decode(events@) == spec_top(events@, i as int, elements_model(elements@)),
            decreases events@.len() - i,
        {
            if i >= events.len() {
                return Ok(Osm { elements });
            }
            match &events[i] {
                Event::ElementStart { name, attrs } => {
                    match parse_start_element(name, attrs, events, i + 1, &mut elements) {
                        Ok(j) => {
                            proof {
                                lemma_dispatch_bounds(
                                    name@,
                                    attrs@,
                                    events@,
                                    i + 1,
                                    elements_model(elements@),
                                );
                            }
                            i = j;
                        },
                        Err(e) => {
                            return Err(e);
                        },
                    }
                },
                Event::ElementEnd { .. } => {
                    i = i + 1;
                },
                Event::DocumentEnd => {
                    return Ok(Osm { elements });
                },
                Event::SourceError { message } => {
                    return Err(OsmParseError::Source { message: message.clone() });
                },
                Event::Other => {
                    i = i + 1;
                },
            }
        }
    }

    /// Decodes one whole document from its bytes: pulls the lexical
    /// event stream of those bytes from the tokenizer — through its
    /// first document end or failure — and runs the decode pass over it.
    /// The result is exactly the decoding of that stream.
    pub fn new(data: &[u8]) -> (r: Result<Osm, OsmParseError>)
        ensures
            match r {
                Ok(osm) => spec_decode(events_of(data@)) == Ok::<_, ErrorModel>(
                    elements_model(osm.elements@),
                ),
                Err(e) => spec_decode(events_of(data@)) == Err::<Map<int, ElementModel>, _>(e@),
            },
    {
        let ghost total = events_of(data@);
        let mut source = reader_from_bytes(data);
        let mut events: Vec<Event> = Vec::new();
        loop
            invariant_except_break
                events@.len() < total.len(),
                events@ == total.take(events@.len() as int),
                remaining_events(source) == total.skip(events@.len() as int),
            invariant
                total == events_of(data@),
                stream_wf(total),
            ensures
                events@ == total,
            decreases total.len() - events@.len(),
        {
            let ghost n = events@.len() as int;
            let ev = next_event(&mut source);
            proof {
                assert(total.skip(n).len() > 0);
                assert(total.skip(n)[0] == total[n]);
                assert(total.skip(n).skip(1) =~= total.skip(n + 1));
            }
            let stop = match &ev {
                Event::DocumentEnd => true,
                Event::SourceError { .. } => true,
                _ => false,
            };
            events.push(ev);
            proof {
                assert(events@ =~= total.take(n + 1));
            }
            if stop {
                proof {
                    // A terminal event stands only at the stream's end.
                    assert(is_terminal_event(total[n]));
                    assert(n == total.len() - 1);
                    assert(events@ =~= total);
                }
                break;
            }
            proof {
                // Not terminal, so the stream's last event is still owed.
                assert(!is_terminal_event(total[n]));
                assert(n + 1 < total.len());
            }
        }
        Osm::from_events(&events)
    }

    /// The element filed under `id`, if the pass decoded one.
    pub fn get(&self, id: i64) -> (r: Option<&OsmElement>)
        ensures
            match r {
                Some(el) => elements_model(self.elements@).contains_key(id as int)
                    && elements_model(self.elements@)[id as int] == el@,
                None => !elements_model(self.elements@).contains_key(id as int),
            },
    {
        self.elements.get(&id)
    }
}

} // verus!
