//! Resolving a path of address steps against a document.

use crate::document::entries;
use crate::document::first_under;
use crate::document::json;
use crate::document::distinct_keys;
use crate::document::object_get;
use crate::document::shape_of;
use crate::document::Json;
use crate::document::Shape;
use crate::selector::Selector;
use crate::selector::SelectorView;
use serde_json::Value;
use vstd::prelude::*;

verus! {

/// The child of `doc` that `step` addresses, if there is one: the member under a key of
/// an object, the element at an index of an array within its bounds. Every other
/// pairing of document and step addresses nothing.
pub open spec fn child(doc: Json, step: SelectorView) -> Option<Json> {
    match (doc, step) {
        (Json::Object(members), SelectorView::ObjectKey(key)) => first_under(members, key),
        (Json::Array(items), SelectorView::ArrayIndex(index)) => if index < items.len() {
            Some(items[index as int])
        } else {
            None
        },
        _ => None,
    }
}

/// The value that `path` leads to from `doc`: each step in turn takes the child it
/// addresses, and the first step that addresses nothing ends the walk with `None`.
pub open spec fn descend(doc: Json, path: Seq<SelectorView>) -> Option<Json>
    decreases path.len(),
{
    if path.len() == 0 {
        Some(doc)
    } else {
        match child(doc, path[0]) {
            Some(next) => descend(next, path.drop_first()),
            None => None,
        }
    }
}

/// A path as a sequence of mathematical steps.
pub open spec fn path_view(path: Seq<Selector>) -> Seq<SelectorView> {
    path.map_values(|step: Selector| step@)
}

/// Looking a key up among the members of an object finds what the entry under that key
/// holds.
proof fn lemma_first_under_members(pairs: Seq<(Seq<char>, Value)>, key: Seq<char>)
    ensures
        first_under(pairs.map_values(|entry: (Seq<char>, Value)| (entry.0, json(entry.1))), key)
            == match first_under(pairs, key) {
            Some(value) => Some(json(value)),
            None => None,
        },
    decreases pairs.len(),
{
    let lift = |entry: (Seq<char>, Value)| (entry.0, json(entry.1));
    if pairs.len() > 0 && pairs[0].0 != key {
        lemma_first_under_members(pairs.drop_first(), key);
        assert(pairs.map_values(lift).drop_first() =~= pairs.drop_first().map_values(lift));
    }
}

/// Select one layer into `root`.
///
/// Returns the value that `selector` addresses in `root`, and `None` where it addresses
/// nothing: a missing key, an index past the end, a step of the wrong kind for the
/// container, or any step into a scalar.
pub fn select_one<'v>(root: &'v Value, selector: &Selector) -> (found: Option<&'v Value>)
    ensures
        match found {
            Some(value) => child(json(*root), selector@) == Some(json(*value)),
            None => child(json(*root), selector@) is None,
        },
{
    match shape_of(root) {
        Shape::Object(object) => match selector {
            Selector::ObjectKey(key) => {
                proof {
                    lemma_first_under_members(entries(*object), key@);
                }
                object_get(object, key)
            },
            _ => None,
        },
        Shape::Array(array) => match selector {
            Selector::ArrayIndex(index) => array.as_slice().get(*index),
            _ => None,
        },
        _ => None,
    }
}

/// Select a part of the document `root`.
///
/// Walks `selector` from `root`, one step at a time, and returns the value reached. The
/// first step that addresses nothing makes the result `None`; the empty path returns
/// `root` itself.
#[must_use]
pub fn select<'v>(root: &'v Value, selector: &[Selector]) -> (found: Option<&'v Value>)
    ensures
        match found {
            Some(value) => descend(json(*root), path_view(selector@)) == Some(json(*value)),
            None => descend(json(*root), path_view(selector@)) is None,
        },
{
    let ghost path = path_view(selector@);
    let mut current = root;
    let mut taken: usize = 0;
    proof {
        assert(path.skip(0) =~= path);
    }
    while taken < selector.len()
        invariant
            taken <= selector.len(),
            path == path_view(selector@),
            descend(json(*root), path) == descend(json(*current), path.skip(taken as int)),
        decreases selector.len() - taken,
    {
        proof {
            assert(path.skip(taken as int).drop_first() =~= path.skip(taken + 1));
        }
        match select_one(current, &selector[taken]) {
            Some(next) => {
                current = next;
            },
            None => {
                return None;
            },
        }
        taken = taken + 1;
    }
    Some(current)
}

/// A scalar has no addressable children: no step leads anywhere from it.
pub proof fn lemma_scalar_has_no_child(doc: Json, step: SelectorView)
    requires
        !doc.is_container(),
    ensures
        child(doc, step) is None,
{
}

/// An index step into an array leads to the element at that index when the index is
/// within bounds, and nowhere when it is not.
pub proof fn lemma_array_child(items: Seq<Json>, index: nat)
    ensures
        index < items.len() ==> child(Json::Array(items), SelectorView::ArrayIndex(index)) == Some(
            items[index as int],
        ),
        index >= items.len() ==> child(Json::Array(items), SelectorView::ArrayIndex(index))
            is None,
{
}

/// A key step into an object leads to the value of the member under that key.
pub proof fn lemma_object_child_present(members: Seq<(Seq<char>, Json)>, position: int)
    requires
        distinct_keys(members),
        0 <= position < members.len(),
    ensures
        child(Json::Object(members), SelectorView::ObjectKey(members[position].0)) == Some(
            members[position].1,
        ),
    decreases position,
{
    if position > 0 {
        lemma_object_child_present(members.drop_first(), position - 1);
    }
}

/// A key step into an object leads nowhere when no member is under that key.
pub proof fn lemma_object_child_absent(members: Seq<(Seq<char>, Json)>, key: Seq<char>)
    requires
        forall|i: int| 0 <= i < members.len() ==> (#[trigger] members[i]).0 != key,
    ensures
        child(Json::Object(members), SelectorView::ObjectKey(key)) is None,
    decreases members.len(),
{
    if members.len() > 0 {
        lemma_object_child_absent(members.drop_first(), key);
    }
}

/// A step of the wrong kind for a container leads nowhere: an index into an object, a
/// key into an array, and the empty step into either.
pub proof fn lemma_mismatched_step(doc: Json, step: SelectorView)
    requires
        (doc is Object && step is ArrayIndex) || (doc is Array && step is ObjectKey) || step
            is Root,
    ensures
        child(doc, step) is None,
{
}

/// The empty path leads to the document itself, and a path of one step to the child
/// that the step addresses.
pub proof fn lemma_descend_short(doc: Json, step: SelectorView)
    ensures
        descend(doc, Seq::empty()) == Some(doc),
        descend(doc, seq![step]) == child(doc, step),
{
    reveal_with_fuel(descend, 2);
}

/// Walking a path is walking its steps one after another: a path in two parts leads
/// where the second part leads from the end of the first, and nowhere if the first part
/// leads nowhere.
pub proof fn lemma_descend_concat(doc: Json, first: Seq<SelectorView>, second: Seq<SelectorView>)
    ensures
        descend(doc, first + second) == match descend(doc, first) {
            Some(reached) => descend(reached, second),
            None => None,
        },
    decreases first.len(),
{
    if first.len() > 0 {
        assert((first + second).drop_first() =~= first.drop_first() + second);
        if let Some(next) = child(doc, first[0]) {
            lemma_descend_concat(next, first.drop_first(), second);
        }
    }
}

} // verus!
