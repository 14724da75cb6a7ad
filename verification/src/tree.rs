//! Laying a document out as a tree of labelled nodes.

use crate::document::entries;
use crate::document::items_of;
use crate::document::json;
use crate::document::members_of;
use crate::document::object_entries;
use crate::document::scalar_text;
use crate::document::shape_of;
use crate::document::value_text;
use crate::document::Json;
use crate::document::Shape;
use crate::selector::Selector;
use crate::selector::SelectorView;
use serde_json::Value;
use vstd::prelude::*;
use vstd::string::StringExecFns;

verus! {

/// A node of the tree: the step that leads to it from its parent, the text under which
/// it is shown, and its children in the order of the document.
///
/// A node is told from its siblings by its step, not by its place among them.
#[derive(Debug, PartialEq, Eq)]
pub struct TreeItem {
    identifier: Selector,
    text: String,
    children: Vec<TreeItem>,
}

/// A node as a mathematical value.
pub struct TreeItemView {
    pub identifier: SelectorView,
    pub text: Seq<char>,
    pub children: Seq<TreeItemView>,
}

/// The nodes of `items` as mathematical values.
pub open spec fn tree_view(items: Seq<TreeItem>) -> Seq<TreeItemView> {
    Seq::new(items.len(), |i: int| items[i]@)
}

/// The recursion behind the view of a node.
pub closed spec fn view_of(item: TreeItem) -> TreeItemView
    decreases item,
{
    TreeItemView {
        identifier: item.identifier@,
        text: item.text@,
        children: Seq::new(
            item.children@.len(),
            |i: int|
                if 0 <= i < item.children@.len() {
                    view_of(item.children@[i])
                } else {
                    arbitrary()
                },
        ),
    }
}

impl View for TreeItem {
    type V = TreeItemView;

    open spec fn view(&self) -> TreeItemView {
        view_of(*self)
    }
}

/// The two characters that stand between a step and a scalar in a label.
pub open spec fn separator() -> Seq<char> {
    seq![':', ' ']
}

/// The text of the node that `step` leads to when the value there is `doc`: the step
/// alone for a container, the step, the separator and the scalar's text for a scalar.
pub open spec fn label(step: SelectorView, doc: Json) -> Seq<char> {
    if doc.is_container() {
        step.text()
    } else {
        step.text() + separator() + scalar_text(doc)
    }
}

/// The nodes for the children of `doc`, one for each, in the order of the document:
/// the elements of an array under their indices, the members of an object under their
/// keys. A scalar has none.
pub open spec fn child_nodes(doc: Json) -> Seq<TreeItemView>
    decreases doc, 0int,
{
    match doc {
        Json::Array(items) => Seq::new(
            items.len(),
            |i: int|
                if 0 <= i < items.len() {
                    node(SelectorView::ArrayIndex(i as nat), items[i])
                } else {
                    arbitrary()
                },
        ),
        Json::Object(members) => Seq::new(
            members.len(),
            |i: int|
                if 0 <= i < members.len() {
                    node(SelectorView::ObjectKey(members[i].0), members[i].1)
                } else {
                    arbitrary()
                },
        ),
        _ => Seq::empty(),
    }
}

/// The node that `step` leads to when the value there is `doc`.
pub open spec fn node(step: SelectorView, doc: Json) -> TreeItemView
    decreases doc, 1int,
{
    TreeItemView { identifier: step, text: label(step, doc), children: child_nodes(doc) }
}

/// The top level of the tree of `doc`: the nodes of its children where it is a
/// container, and where it is a scalar one node without a step and without children,
/// shown as the scalar's text.
pub open spec fn tree(doc: Json) -> Seq<TreeItemView> {
    if doc.is_container() {
        child_nodes(doc)
    } else {
        seq![
            TreeItemView {
                identifier: SelectorView::Root,
                text: scalar_text(doc),
                children: Seq::empty(),
            },
        ]
    }
}

/// No two of `nodes` have the same step.
pub open spec fn distinct_identifiers(nodes: Seq<TreeItemView>) -> bool {
    forall|i: int, j: int|
        0 <= i < j < nodes.len() ==> (#[trigger] nodes[i]).identifier != (
        #[trigger] nodes[j]).identifier
}

/// At `node` and everywhere below it, no two siblings have the same step.
pub open spec fn well_formed(node: TreeItemView) -> bool
    decreases node,
{
    &&& distinct_identifiers(node.children)
    &&& forall|i: int| 0 <= i < node.children.len() ==> well_formed(#[trigger] node.children[i])
}

impl TreeItem {
    /// The children of a node's view are the views of its children.
    proof fn lemma_children_view(&self)
        ensures
            self@.children == tree_view(self.children@),
    {
        assert forall|i: int| 0 <= i < self.children@.len() implies self@.children[i]
            == self.children@[i]@ by {}
    }

    /// A node without children.
    pub fn new_leaf(identifier: Selector, text: String) -> (item: TreeItem)
        ensures
            item@ == (TreeItemView {
                identifier: identifier@,
                text: text@,
                children: Seq::empty(),
            }),
    {
        let item = TreeItem { identifier, text, children: Vec::new() };
        assert(item@.children =~= Seq::empty());
        item
    }

    /// A node with the given children, no two of which may have the same step.
    pub fn new(identifier: Selector, text: String, children: Vec<TreeItem>) -> (item: TreeItem)
        requires
            distinct_identifiers(tree_view(children@)),
        ensures
            item@ == (TreeItemView {
                identifier: identifier@,
                text: text@,
                children: tree_view(children@),
            }),
    {
        let item = TreeItem { identifier, text, children };
        proof {
            item.lemma_children_view();
        }
        item
    }

    /// The step that leads to this node from its parent.
    pub fn identifier(&self) -> (identifier: &Selector)
        ensures
            identifier@ == self@.identifier,
    {
        &self.identifier
    }

    /// The text under which this node is shown.
    pub fn text(&self) -> (text: &str)
        ensures
            text@ == self@.text,
    {
        self.text.as_str()
    }

    /// The children of this node, in the order of the document.
    pub fn children(&self) -> (children: &[TreeItem])
        ensures
            tree_view(children@) == self@.children,
    {
        proof {
            self.lemma_children_view();
        }
        self.children.as_slice()
    }
}

/// Create the tree items of a document.
///
/// A container gives one node for each of its children, in the order of the document,
/// and so none when it is empty. A scalar gives a single node without a step, shown as
/// the scalar's text. Below the top level every value has its node, an empty container
/// too. No two siblings anywhere in the result have the same step.
#[must_use]
pub fn tree_items(root: &Value) -> (items: Vec<TreeItem>)
    ensures
        tree_view(items@) == tree(json(*root)),
        distinct_identifiers(tree_view(items@)),
        forall|i: int| 0 <= i < items@.len() ==> well_formed(#[trigger] items@[i]@),
{
    match shape_of(root) {
        Shape::Object(object) => from_object(object),
        Shape::Array(array) => from_array(array.as_slice()),
        _ => {
            let item = TreeItem::new_leaf(Selector::Root, value_text(root));
            let mut items: Vec<TreeItem> = Vec::new();
            items.push(item);
            items
        },
    }
}

/// The node for `value`, reached from its parent by `key`.
fn recurse(key: Selector, value: &Value) -> (item: TreeItem)
    ensures
        item@ == node(key@, json(*value)),
        well_formed(item@),
    decreases json(*value),
{
    match shape_of(value) {
        Shape::Object(object) => {
            let text = key.to_string();
            TreeItem::new(key, text, from_object(object))
        },
        Shape::Array(array) => {
            let text = key.to_string();
            TreeItem::new(key, text, from_array(array.as_slice()))
        },
        _ => {
            let mut text = key.to_string();
            proof {
                reveal_strlit(": ");
                assert(": "@ =~= separator());
            }
            text.append(": ");
            let shown = value_text(value);
            text.append(shown.as_str());
            TreeItem::new_leaf(key, text)
        },
    }
}

/// The nodes for the members of `object`, each under its key.
fn from_object(object: &serde_json::Map<String, Value>) -> (items: Vec<TreeItem>)
    ensures
        tree_view(items@) == child_nodes(Json::Object(members_of(*object))),
        distinct_identifiers(tree_view(items@)),
        forall|i: int| 0 <= i < items@.len() ==> well_formed(#[trigger] items@[i]@),
    decreases members_of(*object),
{
    let listed = object_entries(object);
    let ghost members = members_of(*object);
    let mut items: Vec<TreeItem> = Vec::new();
    let mut index: usize = 0;
    while index < listed.len()
        invariant
            index <= listed@.len(),
            items@.len() == index,
            members == members_of(*object),
            listed@.len() == entries(*object).len(),
            forall|i: int|
                0 <= i < listed@.len() ==> (#[trigger] listed@[i]).0@ == entries(*object)[i].0
                    && *listed@[i].1 == entries(*object)[i].1,
            forall|i: int|
                0 <= i < index ==> (#[trigger] items@[i])@ == node(
                    SelectorView::ObjectKey(members[i].0),
                    members[i].1,
                ),
            forall|i: int| 0 <= i < index ==> well_formed(#[trigger] items@[i]@),
        decreases listed@.len() - index,
    {
        let (key, value) = listed[index];
        proof {
            assert(decreases_to!(members[index as int] => members[index as int].1));
        }
        let item = recurse(Selector::ObjectKey(key.clone()), value);
        items.push(item);
        index = index + 1;
    }
    proof {
        assert forall|i: int, j: int| 0 <= i < j < items@.len() implies (#[trigger] tree_view(
            items@,
        )[i]).identifier != (#[trigger] tree_view(items@)[j]).identifier by {
            assert(listed@[i].0@ != listed@[j].0@);
        }
    }
    items
}

/// The nodes for the elements of `array`, each under its index.
fn from_array(array: &[Value]) -> (items: Vec<TreeItem>)
    ensures
        tree_view(items@) == child_nodes(Json::Array(items_of(array@))),
        distinct_identifiers(tree_view(items@)),
        forall|i: int| 0 <= i < items@.len() ==> well_formed(#[trigger] items@[i]@),
    decreases items_of(array@),
{
    let ghost elements = items_of(array@);
    let mut items: Vec<TreeItem> = Vec::new();
    let mut index: usize = 0;
    while index < array.len()
        invariant
            index <= array@.len(),
            items@.len() == index,
            elements == items_of(array@),
            forall|i: int|
                0 <= i < index ==> (#[trigger] items@[i])@ == node(
                    SelectorView::ArrayIndex(i as nat),
                    elements[i],
                ),
            forall|i: int| 0 <= i < index ==> well_formed(#[trigger] items@[i]@),
        decreases array@.len() - index,
    {
        proof {
            assert(decreases_to!(elements => elements[index as int]));
        }
        let item = recurse(Selector::ArrayIndex(index), &array[index]);
        items.push(item);
        index = index + 1;
    }
    items
}

/// An empty object and an empty array have an empty tree.
pub proof fn lemma_empty_document_has_no_nodes()
    ensures
        tree(Json::Object(Seq::empty())) == Seq::<TreeItemView>::empty(),
        tree(Json::Array(Seq::empty())) == Seq::<TreeItemView>::empty(),
{
}

/// The tree of an object has one top-level node for each member, in the order of the
/// members, each reached by the member's key.
pub proof fn lemma_object_nodes(members: Seq<(Seq<char>, Json)>)
    ensures
        tree(Json::Object(members)).len() == members.len(),
        forall|i: int|
            0 <= i < members.len() ==> #[trigger] tree(Json::Object(members))[i] == node(
                SelectorView::ObjectKey(members[i].0),
                members[i].1,
            ),
        forall|i: int|
            0 <= i < members.len() ==> (#[trigger] tree(Json::Object(members))[i]).identifier
                == SelectorView::ObjectKey(members[i].0),
{
}

/// The tree of an array has one top-level node for each element, in the order of the
/// elements, each reached by the element's index.
pub proof fn lemma_array_nodes(items: Seq<Json>)
    ensures
        tree(Json::Array(items)).len() == items.len(),
        forall|i: int|
            0 <= i < items.len() ==> #[trigger] tree(Json::Array(items))[i] == node(
                SelectorView::ArrayIndex(i as nat),
                items[i],
            ),
        forall|i: int|
            0 <= i < items.len() ==> (#[trigger] tree(Json::Array(items))[i]).identifier
                == SelectorView::ArrayIndex(i as nat),
{
}

/// Below the top level an empty container still has its node, which is shown as its
/// step alone and has no children; at the top level it has none.
pub proof fn lemma_nested_empty_container(step: SelectorView, doc: Json)
    requires
        doc == Json::Array(Seq::empty()) || doc == Json::Object(Seq::empty()),
    ensures
        node(step, doc) == (TreeItemView {
            identifier: step,
            text: step.text(),
            children: Seq::empty(),
        }),
        tree(doc).len() == 0,
{
    assert(child_nodes(doc) =~= Seq::empty());
}

/// A node has no children exactly when its value is a scalar or an empty container.
pub proof fn lemma_childless_node(step: SelectorView, doc: Json)
    ensures
        node(step, doc).children.len() == 0 <==> !doc.is_container() || doc == Json::Array(
            Seq::empty(),
        ) || doc == Json::Object(Seq::empty()),
{
    match doc {
        Json::Array(items) => {
            assert(items.len() == 0 ==> items =~= Seq::empty());
        },
        Json::Object(members) => {
            assert(members.len() == 0 ==> members =~= Seq::empty());
        },
        _ => {},
    }
}

/// Two trees built of one document are the same tree.
pub proof fn lemma_tree_is_determined(root: Value, first: Seq<TreeItem>, second: Seq<TreeItem>)
    requires
        tree_view(first) == tree(json(root)),
        tree_view(second) == tree(json(root)),
    ensures
        tree_view(first) == tree_view(second),
{
}

} // verus!
