use json_tree::tree_items;
use json_tree::Selector;
use json_tree::TreeItem;
use serde_json::Number;
use serde_json::Value;

fn object(members: Vec<(&str, Value)>) -> Value {
    let mut map = serde_json::Map::new();
    for (key, value) in members {
        map.insert(key.to_owned(), value);
    }
    Value::Object(map)
}

fn identifiers(items: &[TreeItem]) -> Vec<Selector> {
    items.iter().map(|item| item.identifier().clone()).collect()
}

fn texts(items: &[TreeItem]) -> Vec<String> {
    items.iter().map(|item| item.text().to_owned()).collect()
}

#[test]
fn empty_creates_empty_tree() {
    let json = Value::Object(serde_json::Map::new());
    let tree_items = tree_items(&json);
    assert!(tree_items.is_empty());
}

#[test]
fn empty_array_creates_empty_tree() {
    let tree = tree_items(&Value::Array(vec![]));
    assert!(tree.is_empty());
}

#[test]
fn scalar_root_is_a_single_leaf_without_step() {
    let cases = vec![
        (Value::Null, "null"),
        (Value::Bool(true), "true"),
        (Value::Bool(false), "false"),
        (Value::Number(Number::from(42u64)), "42"),
        (Value::Number(Number::from(-7i64)), "-7"),
        (Value::Number(Number::from_f64(1.5).unwrap()), "1.5"),
        (Value::String("bla".to_owned()), "\"bla\""),
        (Value::String(String::new()), "\"\""),
    ];
    for (root, text) in cases {
        let tree = tree_items(&root);
        assert_eq!(tree.len(), 1);
        assert_eq!(tree[0].identifier(), &Selector::Root);
        assert_eq!(tree[0].text(), text);
        assert!(tree[0].children().is_empty());
    }
}

#[test]
fn object_gives_one_node_per_member_in_insertion_order() {
    let root = object(vec![
        ("zeta", Value::Null),
        ("alpha", Value::Bool(true)),
        ("mid", Value::Number(Number::from(3u64))),
    ]);
    let tree = tree_items(&root);
    assert_eq!(
        identifiers(&tree),
        vec![
            Selector::ObjectKey("zeta".to_owned()),
            Selector::ObjectKey("alpha".to_owned()),
            Selector::ObjectKey("mid".to_owned()),
        ]
    );
    assert_eq!(texts(&tree), vec!["zeta: null", "alpha: true", "mid: 3"]);
}

#[test]
fn array_gives_one_node_per_element_in_index_order() {
    let elements: Vec<Value> = (0..12u64).map(|n| Value::Number(Number::from(n * 2))).collect();
    let tree = tree_items(&Value::Array(elements));
    assert_eq!(tree.len(), 12);
    for (index, item) in tree.iter().enumerate() {
        assert_eq!(item.identifier(), &Selector::ArrayIndex(index));
        assert_eq!(item.text(), format!("{}: {}", index, index * 2));
        assert!(item.children().is_empty());
    }
}

#[test]
fn leaf_label_is_step_separator_and_value_text() {
    let root = object(vec![
        ("nothing", Value::Null),
        ("yes", Value::Bool(true)),
        ("no", Value::Bool(false)),
        ("count", Value::Number(Number::from(18446744073709551615u64))),
        ("below", Value::Number(Number::from(-12i64))),
        ("half", Value::Number(Number::from_f64(0.5).unwrap()),),
        ("name", Value::String("bla".to_owned())),
        ("quoted", Value::String("say \"hi\"\n".to_owned())),
        ("", Value::String(String::new())),
    ]);
    assert_eq!(
        texts(&tree_items(&root)),
        vec![
            "nothing: null",
            "yes: true",
            "no: false",
            "count: 18446744073709551615",
            "below: -12",
            "half: 0.5",
            "name: \"bla\"",
            "quoted: \"say \\\"hi\\\"\\n\"",
            ": \"\"",
        ]
    );
}

#[test]
fn container_label_is_the_step_alone() {
    let root = Value::Array(vec![
        object(vec![("inner", Value::Array(vec![Value::Null]))]),
        Value::Array(vec![Value::Bool(true), Value::Bool(false)]),
    ]);
    let tree = tree_items(&root);
    assert_eq!(texts(&tree), vec!["0", "1"]);

    let first = tree[0].children();
    assert_eq!(identifiers(first), vec![Selector::ObjectKey("inner".to_owned())]);
    assert_eq!(texts(first), vec!["inner"]);
    let innermost = first[0].children();
    assert_eq!(identifiers(innermost), vec![Selector::ArrayIndex(0)]);
    assert_eq!(texts(innermost), vec!["0: null"]);
    assert!(innermost[0].children().is_empty());

    let second = tree[1].children();
    assert_eq!(
        identifiers(second),
        vec![Selector::ArrayIndex(0), Selector::ArrayIndex(1)]
    );
    assert_eq!(texts(second), vec!["0: true", "1: false"]);
}

#[test]
fn nested_empty_container_still_has_its_node() {
    let root = object(vec![
        ("list", Value::Array(vec![])),
        ("map", Value::Object(serde_json::Map::new())),
    ]);
    let tree = tree_items(&root);
    assert_eq!(tree.len(), 2);
    assert_eq!(texts(&tree), vec!["list", "map"]);
    assert!(tree[0].children().is_empty());
    assert!(tree[1].children().is_empty());

    let only = tree_items(&Value::Array(vec![Value::Array(vec![])]));
    assert_eq!(only.len(), 1);
    assert_eq!(only[0].identifier(), &Selector::ArrayIndex(0));
    assert_eq!(only[0].text(), "0");
    assert!(only[0].children().is_empty());
}

#[test]
fn building_twice_gives_the_same_tree() {
    let root = object(vec![
        ("list", Value::Array(vec![Value::Null, Value::Array(vec![]), Value::Bool(true)])),
        ("name", Value::String("bla".to_owned())),
        ("map", object(vec![("deep", Value::Number(Number::from(1u64)))])),
    ]);
    assert_eq!(tree_items(&root), tree_items(&root));
    assert_eq!(tree_items(&Value::Null), tree_items(&Value::Null));
}

#[test]
fn siblings_have_distinct_steps() {
    let mut map = serde_json::Map::new();
    map.insert("bla".to_owned(), Value::Null);
    map.insert("blubb".to_owned(), Value::Null);
    map.insert("bla".to_owned(), Value::Bool(true));
    let tree = tree_items(&Value::Object(map));
    assert_eq!(
        identifiers(&tree),
        vec![
            Selector::ObjectKey("bla".to_owned()),
            Selector::ObjectKey("blubb".to_owned()),
        ]
    );
    assert_eq!(texts(&tree), vec!["bla: true", "blubb: null"]);
}

#[test]
fn deep_document_is_built_level_by_level() {
    let mut root = Value::Null;
    for _ in 0..200 {
        root = Value::Array(vec![root]);
    }
    let tree = tree_items(&root);
    let mut level: &[TreeItem] = &tree;
    for _ in 0..199 {
        assert_eq!(level.len(), 1);
        assert_eq!(level[0].text(), "0");
        level = level[0].children();
    }
    assert_eq!(level.len(), 1);
    assert_eq!(level[0].text(), "0: null");
    assert!(level[0].children().is_empty());
}

#[test]
fn new_leaf_and_new_keep_what_they_are_given() {
    let leaf = TreeItem::new_leaf(Selector::ArrayIndex(0), "0: null".to_owned());
    assert_eq!(leaf.identifier(), &Selector::ArrayIndex(0));
    assert_eq!(leaf.text(), "0: null");
    assert!(leaf.children().is_empty());

    let second = TreeItem::new_leaf(Selector::ArrayIndex(1), "1: true".to_owned());
    let parent = TreeItem::new(
        Selector::ObjectKey("list".to_owned()),
        "list".to_owned(),
        vec![leaf, second],
    );
    assert_eq!(parent.identifier(), &Selector::ObjectKey("list".to_owned()));
    assert_eq!(parent.text(), "list");
    assert_eq!(
        identifiers(parent.children()),
        vec![Selector::ArrayIndex(0), Selector::ArrayIndex(1)]
    );
    assert_eq!(
        parent,
        tree_items(&object(vec![(
            "list",
            Value::Array(vec![Value::Null, Value::Bool(true)])
        )]))
        .remove(0)
    );
}
