//! Laws of the decoder, stated and proved over its specification.

use vstd::prelude::*;

use crate::attrs::spec_int_attr;
use crate::decoder::spec_bool_attr;
use crate::decoder::spec_decode;
use crate::decoder::spec_float_attr;
use crate::errors::ErrorModel;
use crate::events::Event;
use crate::model::ElementModel;
use crate::scan::lemma_leaf_scan_bounds;
use crate::scan::spec_elem_scan;
use crate::scan::spec_ref_child;
use crate::scan::spec_tag_child;
use crate::scan::ElementKind;

verus! {

/// Whether the top-level pass ignores this event without decoding
/// anything: text, comments and other lexical material, stray element
/// ends, and element starts whose tag name the top level does not
/// recognize — those it skips without descending.
pub open spec fn top_level_ignored(ev: Event) -> bool {
    match ev {
        Event::Other => true,
        Event::ElementEnd { .. } => true,
        Event::ElementStart { name, .. } => name@ != "node"@ && name@ != "way"@ && name@
            != "relation"@,
        _ => false,
    }
}

/// Ignored events pass through the top level unchanged: the pass from
/// `i` equals the pass from `j` when everything in between is ignored.
pub proof fn lemma_top_skips_ignored(evs: Seq<Event>, i: int, j: int, elems: Map<int, ElementModel>)
    requires
        0 <= i <= j <= evs.len(),
        forall|k: int| i <= k < j ==> top_level_ignored(#[trigger] evs[k]),
    ensures
        crate::decoder::spec_top(evs, i, elems) == crate::decoder::spec_top(evs, j, elems),
    decreases j - i,
{
    if i < j {
        assert(top_level_ignored(evs[i]));
        match evs[i] {
            Event::ElementStart { name, attrs } => {
                assert(crate::decoder::spec_dispatch(name@, attrs@, evs, i + 1, elems) == Ok::<
                    _,
                    ErrorModel,
                >((elems, i + 1)));
            },
            _ => {},
        }
        lemma_top_skips_ignored(evs, i + 1, j, elems);
    }
}

/// Text and comments pass through an element scope's scan unchanged.
pub proof fn lemma_scan_skips_text(
    kind: ElementKind,
    evs: Seq<Event>,
    i: int,
    j: int,
    tags: Map<Seq<char>, Seq<char>>,
    refs: Seq<int>,
)
    requires
        0 <= i <= j <= evs.len(),
        forall|k: int| i <= k < j ==> (#[trigger] evs[k]) is Other,
    ensures
        spec_elem_scan(kind, evs, i, tags, refs) == spec_elem_scan(kind, evs, j, tags, refs),
    decreases j - i,
{
    if i < j {
        assert(evs[i] is Other);
        lemma_scan_skips_text(kind, evs, i + 1, j, tags, refs);
    }
}

/// For every well-formed minimal document holding one `node` with valid
/// required attributes and zero tags — however much ignored material
/// stands around it: document declarations, text, comments, stray
/// element ends and skipped wrapper elements at the top level (before
/// `p` and between `q` and `e`), and text or comments inside the node —
/// decoding yields exactly one node whose fields equal the source
/// attributes, with an empty tag set.
pub proof fn lemma_minimal_node_document(
    evs: Seq<Event>,
    p: int,
    q: int,
    e: int,
    id: int,
    lat: Seq<char>,
    lon: Seq<char>,
    visible: bool,
)
    requires
        0 <= p < q < e <= evs.len(),
        forall|k: int| 0 <= k < p ==> top_level_ignored(#[trigger] evs[k]),
        evs[p] matches Event::ElementStart { name, attrs } && name@ == "node"@ && spec_int_attr(
            attrs@,
            "id"@,
        ) == Some(id) && spec_float_attr(attrs@, "lat"@) == Some(lat) && spec_float_attr(
            attrs@,
            "lon"@,
        ) == Some(lon) && spec_bool_attr(attrs@, "visible"@) == Some(visible),
        forall|k: int| p < k < q ==> (#[trigger] evs[k]) is Other,
        evs[q] matches Event::ElementEnd { name } && name@ == "node"@,
        forall|k: int| q < k < e ==> top_level_ignored(#[trigger] evs[k]),
        e == evs.len() || evs[e] is DocumentEnd,
    ensures
        spec_decode(evs) == Ok::<_, ErrorModel>(
            Map::<int, ElementModel>::empty().insert(
                id,
                ElementModel::Node { id, lat, lng: lon, visible, tags: Map::empty() },
            ),
        ),
{
    let m0 = Map::<int, ElementModel>::empty();
    let node = ElementModel::Node { id, lat, lng: lon, visible, tags: Map::empty() };
    lemma_top_skips_ignored(evs, 0, p, m0);
    match evs[p] {
        Event::ElementStart { name, attrs } => {
            assert(crate::decoder::spec_node_attrs(attrs@) == Ok::<_, ErrorModel>(
                (id, lat, lon, visible),
            ));
            lemma_scan_skips_text(ElementKind::Node, evs, p + 1, q, Map::empty(), Seq::empty());
            assert(spec_elem_scan(ElementKind::Node, evs, q, Map::empty(), Seq::empty()) == Ok::<
                _,
                ErrorModel,
            >((Map::<Seq<char>, Seq<char>>::empty(), Seq::<int>::empty(), q + 1)));
            assert(crate::decoder::spec_parse_node(attrs@, evs, p + 1) == Ok::<_, ErrorModel>(
                (node, q + 1),
            ));
            assert(crate::decoder::spec_dispatch(name@, attrs@, evs, p + 1, m0) == Ok::<
                _,
                ErrorModel,
            >((m0.insert(id, node), q + 1)));
            lemma_top_skips_ignored(evs, q + 1, e, m0.insert(id, node));
            assert(crate::decoder::spec_top(evs, e, m0.insert(id, node)) == Ok::<_, ErrorModel>(
                m0.insert(id, node),
            ));
            assert(crate::decoder::spec_top(evs, 0, m0) == Ok::<_, ErrorModel>(
                m0.insert(id, node),
            ));
        },
        _ => {},
    }
}

/// The reference sequence a scan yields is what it decodes from the
/// events alone, appended after the references already collected: the
/// accumulator only ever grows at its end, in document order.
pub proof fn lemma_elem_scan_refs(
    kind: ElementKind,
    evs: Seq<Event>,
    i: int,
    tags: Map<Seq<char>, Seq<char>>,
    refs: Seq<int>,
)
    ensures
        spec_elem_scan(kind, evs, i, tags, refs) == (match spec_elem_scan(
            kind,
            evs,
            i,
            tags,
            Seq::empty(),
        ) {
            Ok((t, s, j)) => Ok::<_, ErrorModel>((t, refs + s, j)),
            Err(e) => Err::<(Map<Seq<char>, Seq<char>>, Seq<int>, int), _>(e),
        }),
    decreases evs.len() - i,
{
    if 0 <= i < evs.len() {
        match evs[i] {
            Event::ElementStart { name, attrs } => {
                if name@ == "tag"@ {
                    match spec_tag_child(attrs@, evs, i + 1) {
                        Ok((k, v, j)) => {
                            lemma_leaf_scan_bounds(evs, i + 1, "tag"@);
                            lemma_elem_scan_refs(kind, evs, j, tags.insert(k, v), refs);
                        },
                        Err(_) => {},
                    }
                } else if kind.spec_ref_child_name() == Some(name@) {
                    match spec_ref_child(name@, attrs@, evs, i + 1) {
                        Ok((n, j)) => {
                            lemma_leaf_scan_bounds(evs, i + 1, name@);
                            lemma_elem_scan_refs(kind, evs, j, tags, refs.push(n));
                            lemma_elem_scan_refs(kind, evs, j, tags, Seq::empty().push(n));
                            match spec_elem_scan(kind, evs, j, tags, Seq::empty()) {
                                Ok((t, s, j2)) => {
                                    assert(refs.push(n) + s =~= refs + (Seq::empty().push(n)
                                        + s));
                                },
                                Err(_) => {},
                            }
                        },
                        Err(_) => {},
                    }
                }
            },
            Event::ElementEnd { name } => {
                if name@ == kind.spec_name() {
                    assert(refs + Seq::<int>::empty() =~= refs);
                }
            },
            Event::Other => {
                lemma_elem_scan_refs(kind, evs, i + 1, tags, refs);
            },
            _ => {},
        }
    }
}

/// Whether the events from `i` on encode exactly the reference children
/// `vals`: one immediately closed element named `name` per value, each
/// carrying that value as its integer `ref` attribute, in order.
pub open spec fn encodes_ref_children(
    evs: Seq<Event>,
    i: int,
    name: Seq<char>,
    vals: Seq<int>,
) -> bool
    decreases vals.len(),
{
    vals.len() == 0 || {
        &&& evs[i] matches Event::ElementStart { name: n, attrs } && n@ == name && spec_int_attr(
            attrs@,
            "ref"@,
        ) == Some(vals[0])
        &&& evs[i + 1] matches Event::ElementEnd { name: n2 } && n2@ == name
        &&& encodes_ref_children(evs, i + 2, name, vals.skip(1))
    }
}

/// Order preservation: a `way` or `relation` scope whose children are the
/// reference children `vals` followed by the closing tag decodes to
/// exactly the sequence `vals` — document order, duplicates and repeats
/// included.
pub proof fn lemma_ref_children_in_order(
    kind: ElementKind,
    evs: Seq<Event>,
    i: int,
    tags: Map<Seq<char>, Seq<char>>,
    rn: Seq<char>,
    vals: Seq<int>,
)
    requires
        kind.spec_ref_child_name() == Some(rn),
        0 <= i,
        i + 2 * vals.len() < evs.len(),
        encodes_ref_children(evs, i, rn, vals),
        evs[i + 2 * vals.len()] matches Event::ElementEnd { name } && name@ == kind.spec_name(),
    ensures
        spec_elem_scan(kind, evs, i, tags, Seq::empty()) == Ok::<_, ErrorModel>(
            (tags, vals, i + 2 * vals.len() + 1),
        ),
    decreases vals.len(),
{
    reveal_strlit("tag");
    reveal_strlit("nd");
    reveal_strlit("member");
    if vals.len() == 0 {
        assert(vals =~= Seq::<int>::empty());
    } else {
        let v0 = vals[0];
        let rest = vals.skip(1);
        match kind {
            ElementKind::Node => {
                // A node recognizes no reference child, contradicting the
                // precondition.
                assert(false);
            },
            ElementKind::Way => {
                assert(rn == "nd"@);
            },
            ElementKind::Relation => {
                assert(rn == "member"@);
            },
        }
        match evs[i] {
            Event::ElementStart { name, attrs } => {
                assert(rn != "tag"@);
                assert(crate::scan::spec_leaf_scan(evs, i + 1, rn) == Ok::<int, ErrorModel>(
                    i + 2,
                ));
                assert(i + 2 + 2 * rest.len() == i + 2 * vals.len());
                lemma_ref_children_in_order(kind, evs, i + 2, tags, rn, rest);
                lemma_elem_scan_refs(kind, evs, i + 2, tags, Seq::empty().push(v0));
                assert(Seq::empty().push(v0) + rest =~= vals);
            },
            _ => {},
        }
    }
}

/// Whether the element `e` is well formed for the key `k` it is filed
/// under: it carries that identifier itself, and a node's coordinates are
/// well-formed floating-point text.
pub open spec fn wf_element(k: int, e: ElementModel) -> bool {
    match e {
        ElementModel::Node { id, lat, lng, .. } => id == k && crate::floats::spec_float_text(lat)
            && crate::floats::spec_float_text(lng),
        ElementModel::Way { id, .. } => id == k,
        ElementModel::Relation { id, .. } => id == k,
    }
}

/// Whether every element of the mapping is well formed for its key.
pub open spec fn wf_elements(m: Map<int, ElementModel>) -> bool {
    forall|k: int| m.contains_key(k) ==> wf_element(k, #[trigger] m[k])
}

/// The pass only ever files well-formed elements: each under its own
/// identifier, nodes with checked coordinate text.
proof fn lemma_top_preserves_wf(evs: Seq<Event>, i: int, elems: Map<int, ElementModel>)
    requires
        0 <= i,
        wf_elements(elems),
    ensures
        crate::decoder::spec_top(evs, i, elems) matches Ok(m) ==> wf_elements(m),
    decreases evs.len() - i,
{
    if 0 <= i < evs.len() {
        match evs[i] {
            Event::ElementStart { name, attrs } => {
                match crate::decoder::spec_dispatch(name@, attrs@, evs, i + 1, elems) {
                    Ok((elems2, j)) => {
                        assert(wf_elements(elems2)) by {
                            assert forall|k: int| elems2.contains_key(k) implies wf_element(
                                k,
                                #[trigger] elems2[k],
                            ) by {
                                if !(elems.contains_key(k) && elems2[k] == elems[k]) {
                                    assert(wf_element(k, elems2[k]));
                                }
                            }
                        }
                        crate::decoder::lemma_dispatch_bounds(name@, attrs@, evs, i + 1, elems);
                        lemma_top_preserves_wf(evs, j, elems2);
                    },
                    Err(_) => {},
                }
            },
            Event::ElementEnd { .. } => {
                lemma_top_preserves_wf(evs, i + 1, elems);
            },
            Event::Other => {
                lemma_top_preserves_wf(evs, i + 1, elems);
            },
            _ => {},
        }
    }
}

/// A successful decode yields only well-formed elements: each filed under
/// its own identifier, and every node carrying coordinate text that is
/// well-formed floating-point syntax.
pub proof fn lemma_decode_well_formed(evs: Seq<Event>)
    ensures
        spec_decode(evs) matches Ok(m) ==> wf_elements(m),
{
    lemma_top_preserves_wf(evs, 0, Map::empty());
}

/// Idempotence: decoding is a function of the event sequence alone, so
/// two passes over the same sequence yield structurally equal results —
/// the same elements on success, the same error on failure.
pub proof fn lemma_decode_deterministic(
    evs1: Seq<Event>,
    evs2: Seq<Event>,
    r1: Result<Map<int, ElementModel>, ErrorModel>,
    r2: Result<Map<int, ElementModel>, ErrorModel>,
)
    requires
        evs1 == evs2,
        r1 == spec_decode(evs1),
        r2 == spec_decode(evs2),
    ensures
        r1 == r2,
{
}

/// A `tag` child missing its `v` attribute fails the enclosing scan with
/// an attribute error naming `v` and `tag`; the scan yields only that
/// error, so nothing of the partially built tag set is exposed.
pub proof fn lemma_tag_missing_v(
    kind: ElementKind,
    evs: Seq<Event>,
    i: int,
    tags: Map<Seq<char>, Seq<char>>,
    refs: Seq<int>,
)
    requires
        0 <= i < evs.len(),
        evs[i] matches Event::ElementStart { name, attrs } && name@ == "tag"@
            && crate::attrs::spec_find_attr(attrs@, "k"@) is Some && crate::attrs::spec_find_attr(
            attrs@,
            "v"@,
        ) is None,
    ensures
        spec_elem_scan(kind, evs, i, tags, refs) == Err::<
            (Map<Seq<char>, Seq<char>>, Seq<int>, int),
            ErrorModel,
        >(ErrorModel::Attribute { attribute: "v"@, element: "tag"@ }),
{
}

/// An element start for an unrecognized tag name inside a `node` scope
/// fails the scan with an unexpected-child error naming the offending
/// tag and `node`.
pub proof fn lemma_unexpected_child_in_node(
    evs: Seq<Event>,
    i: int,
    tags: Map<Seq<char>, Seq<char>>,
    refs: Seq<int>,
    child: Seq<char>,
)
    requires
        0 <= i < evs.len(),
        evs[i] matches Event::ElementStart { name, .. } && name@ == child,
        child != "tag"@,
    ensures
        spec_elem_scan(ElementKind::Node, evs, i, tags, refs) == Err::<
            (Map<Seq<char>, Seq<char>>, Seq<int>, int),
            ErrorModel,
        >(ErrorModel::UnexpectedChild { child, scope: "node"@ }),
{
}

/// The event stream ending — a document end, or the sequence running out
/// — while an element scope is still open fails that scope's scan with a
/// premature-end error.
pub proof fn lemma_premature_end(
    kind: ElementKind,
    evs: Seq<Event>,
    i: int,
    tags: Map<Seq<char>, Seq<char>>,
    refs: Seq<int>,
)
    requires
        0 <= i,
        i >= evs.len() || evs[i] is DocumentEnd,
    ensures
        spec_elem_scan(kind, evs, i, tags, refs) == Err::<
            (Map<Seq<char>, Seq<char>>, Seq<int>, int),
            ErrorModel,
        >(ErrorModel::PrematureEnd),
{
}

} // verus!
