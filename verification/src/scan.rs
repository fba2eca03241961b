//! The bounded sub-scan: the one algorithm shared by every element
//! decoder.
//!
//! Given the closing tag that terminates the current scope and the set of
//! child tags the scope recognizes, the scan consumes events until that
//! closing tag appears.  A recognized child is decoded by its handler,
//! which consumes the child's whole subtree before the scan continues; an
//! unrecognized child, a mismatched closing tag, a lexical failure, or the
//! end of the document while the scope is still open each abort the scan
//! with the corresponding error.

use vstd::prelude::*;

use crate::attrs::find_attribute;
use crate::attrs::parse_int_attr;
use crate::attrs::spec_find_attr;
use crate::attrs::spec_int_attr;
use crate::errors::ErrorModel;
use crate::errors::OsmParseError;
use crate::events::Attr;
use crate::events::Event;
use crate::tags::Tags;

verus! {

/// The three element kinds whose scopes the decoder descends into.
#[derive(Clone, Copy, Debug, PartialEq, Eq, Structural)]
pub enum ElementKind {
    Node,
    Way,
    Relation,
}

impl ElementKind {
    /// The tag name that opens and closes an element of this kind.
    pub open spec fn spec_name(self) -> Seq<char> {
        match self {
            ElementKind::Node => "node"@,
            ElementKind::Way => "way"@,
            ElementKind::Relation => "relation"@,
        }
    }

    /// Executable copy of [`Self::spec_name`].
    pub fn name(self) -> (r: String)
        ensures
            r@ == self.spec_name(),
    {
        match self {
            ElementKind::Node => "node".to_owned(),
            ElementKind::Way => "way".to_owned(),
            ElementKind::Relation => "relation".to_owned(),
        }
    }

    /// The reference-collecting child tag this kind recognizes, if any:
    /// `nd` inside a way, `member` inside a relation.  Every kind also
    /// recognizes `tag` children.
    pub open spec fn spec_ref_child_name(self) -> Option<Seq<char>> {
        match self {
            ElementKind::Node => None,
            ElementKind::Way => Some("nd"@),
            ElementKind::Relation => Some("member"@),
        }
    }

    /// Executable copy of [`Self::spec_ref_child_name`].
    pub fn ref_child_name(self) -> (r: Option<String>)
        ensures
            match r {
                Some(n) => self.spec_ref_child_name() == Some(n@),
                None => self.spec_ref_child_name() is None,
            },
    {
        match self {
            ElementKind::Node => None,
            ElementKind::Way => Some("nd".to_owned()),
            ElementKind::Relation => Some("member".to_owned()),
        }
    }
}

/// The scan of a scope that recognizes no child at all (`tag`, `nd`,
/// `member`): events from position `i` are consumed up to the matching
/// `close`, and the position after it is returned.  Text and comments are
/// ignored; anything else is an error.
pub open spec fn spec_leaf_scan(evs: Seq<Event>, i: int, close: Seq<char>) -> Result<
    int,
    ErrorModel,
>
    decreases evs.len() - i,
{
    if i < 0 || i >= evs.len() {
        Err(ErrorModel::PrematureEnd)
    } else {
        match evs[i] {
            Event::ElementStart { name, .. } => Err(ErrorModel::UnexpectedChild {
                child: name@,
                scope: close,
            }),
            Event::ElementEnd { name } => if name@ == close {
                Ok(i + 1)
            } else {
                Err(ErrorModel::MismatchedClose { expected: close, actual: name@ })
            },
            Event::DocumentEnd => Err(ErrorModel::PrematureEnd),
            Event::SourceError { message } => Err(ErrorModel::Source { message: message@ }),
            Event::Other => spec_leaf_scan(evs, i + 1, close),
        }
    }
}

/// A successful leaf scan moves strictly forward and stays inside the
/// event sequence.
pub proof fn lemma_leaf_scan_bounds(evs: Seq<Event>, i: int, close: Seq<char>)
    ensures
        spec_leaf_scan(evs, i, close) matches Ok(j) ==> i < j <= evs.len(),
    decreases evs.len() - i,
{
    if 0 <= i < evs.len() {
        match evs[i] {
            Event::Other => lemma_leaf_scan_bounds(evs, i + 1, close),
            _ => {},
        }
    }
}

/// The required `k` and `v` attributes of a `tag` child.
pub open spec fn spec_tag_attrs(attrs: Seq<Attr>) -> Result<(Seq<char>, Seq<char>), ErrorModel> {
    match spec_find_attr(attrs, "k"@) {
        None => Err(ErrorModel::Attribute { attribute: "k"@, element: "tag"@ }),
        Some(k) => match spec_find_attr(attrs, "v"@) {
            None => Err(ErrorModel::Attribute { attribute: "v"@, element: "tag"@ }),
            Some(v) => Ok((k, v)),
        },
    }
}

/// One whole `tag` child: its attributes, then the scan to its closing
/// tag; yields the key, the value and the position after the child.
pub open spec fn spec_tag_child(attrs: Seq<Attr>, evs: Seq<Event>, i: int) -> Result<
    (Seq<char>, Seq<char>, int),
    ErrorModel,
> {
    match spec_tag_attrs(attrs) {
        Err(e) => Err(e),
        Ok((k, v)) => match spec_leaf_scan(evs, i, "tag"@) {
            Err(e) => Err(e),
            Ok(j) => Ok((k, v, j)),
        },
    }
}

/// One whole `nd` or `member` child, named `name`: its required integer
/// `ref` attribute, then the scan to its closing tag; yields the
/// reference and the position after the child.
pub open spec fn spec_ref_child(name: Seq<char>, attrs: Seq<Attr>, evs: Seq<Event>, i: int) -> Result<
    (int, int),
    ErrorModel,
> {
    match spec_int_attr(attrs, "ref"@) {
        None => Err(ErrorModel::Attribute { attribute: "ref"@, element: name }),
        Some(n) => match spec_leaf_scan(evs, i, name) {
            Err(e) => Err(e),
            Ok(j) => Ok((n, j)),
        },
    }
}

/// The scan of a `node`, `way` or `relation` scope from position `i`:
/// `tag` children grow the tag mapping, `nd` / `member` children (where
/// the kind recognizes them) append to the reference sequence in document
/// order, and the matching closing tag ends the scope.  Yields the final
/// tag mapping, the final reference sequence and the position after the
/// closing tag.
pub open spec fn spec_elem_scan(
    kind: ElementKind,
    evs: Seq<Event>,
    i: int,
    tags: Map<Seq<char>, Seq<char>>,
    refs: Seq<int>,
) -> Result<(Map<Seq<char>, Seq<char>>, Seq<int>, int), ErrorModel>
    decreases evs.len() - i,
    via spec_elem_scan_dec
{
    if i < 0 || i >= evs.len() {
        Err(ErrorModel::PrematureEnd)
    } else {
        match evs[i] {
            Event::ElementStart { name, attrs } => {
                if name@ == "tag"@ {
                    match spec_tag_child(attrs@, evs, i + 1) {
                        Err(e) => Err(e),
                        Ok((k, v, j)) => spec_elem_scan(kind, evs, j, tags.insert(k, v), refs),
                    }
                } else if kind.spec_ref_child_name() == Some(name@) {
                    match spec_ref_child(name@, attrs@, evs, i + 1) {
                        Err(e) => Err(e),
                        Ok((n, j)) => spec_elem_scan(kind, evs, j, tags, refs.push(n)),
                    }
                } else {
                    Err(ErrorModel::UnexpectedChild { child: name@, scope: kind.spec_name() })
                }
            },
            Event::ElementEnd { name } => if name@ == kind.spec_name() {
                Ok((tags, refs, i + 1))
            } else {
                Err(ErrorModel::MismatchedClose { expected: kind.spec_name(), actual: name@ })
            },
            Event::DocumentEnd => Err(ErrorModel::PrematureEnd),
            Event::SourceError { message } => Err(ErrorModel::Source { message: message@ }),
            Event::Other => spec_elem_scan(kind, evs, i + 1, tags, refs),
        }
    }
}

#[via_fn]
proof fn spec_elem_scan_dec(
    kind: ElementKind,
    evs: Seq<Event>,
    i: int,
    tags: Map<Seq<char>, Seq<char>>,
    refs: Seq<int>,
) {
    lemma_leaf_scan_bounds(evs, i + 1, "tag"@);
    if 0 <= i < evs.len() {
        match evs[i] {
            Event::ElementStart { name, .. } => {
                lemma_leaf_scan_bounds(evs, i + 1, name@);
            },
            _ => {},
        }
    }
}

/// A successful element scan moves strictly forward and stays inside the
/// event sequence.
pub proof fn lemma_elem_scan_bounds(
    kind: ElementKind,
    evs: Seq<Event>,
    i: int,
    tags: Map<Seq<char>, Seq<char>>,
    refs: Seq<int>,
)
    ensures
        spec_elem_scan(kind, evs, i, tags, refs) matches Ok((t, r, j)) ==> i < j <= evs.len(),
    decreases evs.len() - i,
{
    if 0 <= i < evs.len() {
        match evs[i] {
            Event::ElementStart { name, attrs } => {
                if name@ == "tag"@ {
                    lemma_leaf_scan_bounds(evs, i + 1, "tag"@);
                    if let Ok((k, v, j)) = spec_tag_child(attrs@, evs, i + 1) {
                        lemma_elem_scan_bounds(kind, evs, j, tags.insert(k, v), refs);
                    }
                } else if kind.spec_ref_child_name() == Some(name@) {
                    lemma_leaf_scan_bounds(evs, i + 1, name@);
                    if let Ok((n, j)) = spec_ref_child(name@, attrs@, evs, i + 1) {
                        lemma_elem_scan_bounds(kind, evs, j, tags, refs.push(n));
                    }
                }
            },
            Event::Other => {
                lemma_elem_scan_bounds(kind, evs, i + 1, tags, refs);
            },
            _ => {},
        }
    }
}

/// Consumes events up to the closing tag of a childless scope.
pub fn scan_leaf(events: &Vec<Event>, start: usize, close: &String) -> (r: Result<
    usize,
    OsmParseError,
>)
    ensures
        match r {
            Ok(j) => spec_leaf_scan(events@, start as int, close@) == Ok::<int, ErrorModel>(j as int),
            Err(e) => spec_leaf_scan(events@, start as int, close@) == Err::<int, ErrorModel>(e@),
        },
{
    let mut i = start;
    loop
        invariant
            start <= i,
            spec_leaf_scan(events@, start as int, close@) == spec_leaf_scan(
                events@,
                i as int,
                close@,
            ),
        decreases events@.len() - i,
    {
        if i >= events.len() {
            return Err(OsmParseError::PrematureEnd);
        }
        match &events[i] {
            Event::ElementStart { name, .. } => {
                return Err(OsmParseError::UnexpectedChild {
                    child: name.clone(),
                    scope: close.clone(),
                });
            },
            Event::ElementEnd { name } => {
                if *name == *close {
                    return Ok(i + 1);
                }
                return Err(OsmParseError::MismatchedClose {
                    expected: close.clone(),
                    actual: name.clone(),
                });
            },
            Event::DocumentEnd => {
                return Err(OsmParseError::PrematureEnd);
            },
            Event::SourceError { message } => {
                return Err(OsmParseError::Source { message: message.clone() });
            },
            Event::Other => {
                i = i + 1;
            },
        }
    }
}

/// Decodes one `tag` child from its attribute list: captures the required
/// `k` and `v`, then consumes events to the closing tag.
pub fn parse_tag(attributes: &Vec<Attr>, events: &Vec<Event>, start: usize) -> (r: Result<
    (String, String, usize),
    OsmParseError,
>)
    ensures
        match r {
            Ok((k, v, j)) => spec_tag_child(attributes@, events@, start as int) == Ok::<_, ErrorModel>(
                (k@, v@, j as int),
            ),
            Err(e) => spec_tag_child(attributes@, events@, start as int) == Err::<(Seq<char>, Seq<char>, int), ErrorModel>(e@),
        },
{
    let tag_name: String = "tag".to_owned();
    let k_name: String = "k".to_owned();
    let k = match find_attribute(attributes, &k_name) {
        Some(k) => k.clone(),
        None => {
            return Err(OsmParseError::Attribute { attribute: k_name, element: tag_name });
        },
    };
    let v_name: String = "v".to_owned();
    let v = match find_attribute(attributes, &v_name) {
        Some(v) => v.clone(),
        None => {
            return Err(OsmParseError::Attribute { attribute: v_name, element: tag_name });
        },
    };
    match scan_leaf(events, start, &tag_name) {
        Ok(j) => Ok((k, v, j)),
        Err(e) => Err(e),
    }
}

/// Decodes one reference-carrying child (`nd` or `member`, passed as
/// `element`): captures the required integer `ref`, then consumes events
/// to the closing tag.
fn parse_ref_child(element: String, attributes: &Vec<Attr>, events: &Vec<Event>, start: usize) -> (r:
    Result<(i64, usize), OsmParseError>)
    ensures
        match r {
            Ok((n, j)) => spec_ref_child(element@, attributes@, events@, start as int) == Ok::<_, ErrorModel>(
                (n as int, j as int),
            ),
            Err(e) => spec_ref_child(element@, attributes@, events@, start as int) == Err::<(int, int), ErrorModel>(e@),
        },
{
    let ref_name: String = "ref".to_owned();
    let n = match parse_int_attr(&ref_name, attributes, &element) {
        Ok(n) => n,
        Err(e) => {
            return Err(e);
        },
    };
    match scan_leaf(events, start, &element) {
        Ok(j) => Ok((n, j)),
        Err(e) => Err(e),
    }
}

/// Decodes one `nd` child of a way: its integer `ref`, then the scan to
/// its closing tag.
pub fn parse_nd(attributes: &Vec<Attr>, events: &Vec<Event>, start: usize) -> (r: Result<
    (i64, usize),
    OsmParseError,
>)
    ensures
        match r {
            Ok((n, j)) => spec_ref_child("nd"@, attributes@, events@, start as int) == Ok::<_, ErrorModel>(
                (n as int, j as int),
            ),
            Err(e) => spec_ref_child("nd"@, attributes@, events@, start as int) == Err::<(int, int), ErrorModel>(e@),
        },
{
    parse_ref_child("nd".to_owned(), attributes, events, start)
}

/// Decodes one `member` child of a relation: its integer `ref`, then the
/// scan to its closing tag.
pub fn parse_member(attributes: &Vec<Attr>, events: &Vec<Event>, start: usize) -> (r: Result<
    (i64, usize),
    OsmParseError,
>)
    ensures
        match r {
            Ok((n, j)) => spec_ref_child("member"@, attributes@, events@, start as int) == Ok::<_, ErrorModel>(
                (n as int, j as int),
            ),
            Err(e) => spec_ref_child("member"@, attributes@, events@, start as int) == Err::<(int, int), ErrorModel>(e@),
        },
{
    parse_ref_child("member".to_owned(), attributes, events, start)
}

/// Runs the bounded sub-scan of a `node`, `way` or `relation` scope,
/// growing `tags` and `refs` as recognized children are decoded; on
/// success returns the position after the scope's closing tag.  On
/// failure the two collections may hold a decoded prefix, of which the
/// contract says nothing: callers abort and discard them.
pub fn sub_scan(
    kind: ElementKind,
    events: &Vec<Event>,
    start: usize,
    tags: &mut Tags,
    refs: &mut Vec<i64>,
) -> (r: Result<usize, OsmParseError>)
    ensures
        match r {
            Ok(j) => spec_elem_scan(
                kind,
                events@,
                start as int,
                old(tags)@,
                crate::model::ids_model(old(refs)@),
            ) == Ok::<_, ErrorModel>((final(tags)@, crate::model::ids_model(final(refs)@), j as int)),
            Err(e) => spec_elem_scan(
                kind,
                events@,
                start as int,
                old(tags)@,
                crate::model::ids_model(old(refs)@),
            ) == Err::<(Map<Seq<char>, Seq<char>>, Seq<int>, int), ErrorModel>(e@),
        },
{
    let close = kind.name();
    let tag_name: String = "tag".to_owned();
    let mut i = start;
    loop
        invariant
            start <= i,
            close@ == kind.spec_name(),
            tag_name@ == "tag"@,
            spec_elem_scan(
                kind,
                events@,
                start as int,
                old(tags)@,
                crate::model::ids_model(old(refs)@),
            ) == spec_elem_scan(
                kind,
                events@,
                i as int,
                tags@,
                crate::model::ids_model(refs@),
            ),
        decreases events@.len() - i,
    {
        if i >= events.len() {
            return Err(OsmParseError::PrematureEnd);
        }
        match &events[i] {
            Event::ElementStart { name, attrs } => {
                if *name == tag_name {
                    match parse_tag(attrs, events, i + 1) {
                        Ok((k, v, j)) => {
                            proof {
                                lemma_leaf_scan_bounds(events@, i + 1, "tag"@);
                            }
                            tags.insert(k, v);
                            i = j;
                        },
                        Err(e) => {
                            return Err(e);
                        },
                    }
                } else {
                    let is_ref = match kind.ref_child_name() {
                        Some(rn) => *name == rn,
                        None => false,
                    };
                    if is_ref {
                        match parse_ref_child(name.clone(), attrs, events, i + 1) {
                            Ok((n, j)) => {
                                proof {
                                    lemma_leaf_scan_bounds(events@, i + 1, name@);
                                    crate::model::lemma_ids_model_push(refs@, n);
                                }
                                refs.push(n);
                                i = j;
                            },
                            Err(e) => {
                                return Err(e);
                            },
                        }
                    } else {
                        return Err(OsmParseError::UnexpectedChild {
                            child: name.clone(),
                            scope: close.clone(),
                        });
                    }
                }
            },
            Event::ElementEnd { name } => {
                if *name == close {
                    return Ok(i + 1);
                }
                return Err(OsmParseError::MismatchedClose {
                    expected: close.clone(),
                    actual: name.clone(),
                });
            },
            Event::DocumentEnd => {
                return Err(OsmParseError::PrematureEnd);
            },
            Event::SourceError { message } => {
                return Err(OsmParseError::Source { message: message.clone() });
            },
            Event::Other => {
                i = i + 1;
            },
        }
    }
}

} // verus!
