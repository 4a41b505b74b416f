use todomvc::items::{copy_items, same_items, Item, Items};
use todomvc::value::DocValue;

fn record(id: DocValue, task: DocValue, done: DocValue) -> DocValue {
    DocValue::Object(vec![
        ("id".to_string(), id),
        ("value".to_string(), task),
        ("completed".to_string(), done),
    ])
}

fn text(s: &str) -> DocValue {
    DocValue::Str(s.to_string())
}

fn document(elems: Vec<DocValue>) -> DocValue {
    DocValue::Object(vec![("todos".to_string(), DocValue::List(elems))])
}

#[test]
fn new_item_is_not_done_and_keeps_its_text() {
    let item = Item::new("buy milk");
    assert_eq!(item.task, "buy milk");
    assert!(!item.done);
}

#[test]
fn new_items_get_distinct_ids() {
    let first = Item::new("a");
    let second = Item::new("a");
    assert_ne!(first.id, second.id);
    assert_eq!(first.id.len(), 36);
}

#[test]
fn with_id_keeps_the_id() {
    let item = Item::with_id("walk dog", "42".to_string());
    assert_eq!(item.task, "walk dog");
    assert_eq!(item.id, "42");
    assert!(!item.done);
}

#[test]
fn item_from_record() {
    let value = record(text("7"), text("buy milk"), DocValue::Bool(true));
    let item = Item::try_from(&value).unwrap();
    assert_eq!(item.id, "7");
    assert_eq!(item.task, "buy milk");
    assert!(item.done);
}

#[test]
fn item_from_record_ignores_other_keys() {
    let value = DocValue::Object(vec![
        ("extra".to_string(), DocValue::Other),
        ("completed".to_string(), DocValue::Bool(false)),
        ("value".to_string(), text("t")),
        ("id".to_string(), text("i")),
    ]);
    let item = Item::try_from(&value).unwrap();
    assert_eq!(item.id, "i");
    assert_eq!(item.task, "t");
    assert!(!item.done);
}

#[test]
fn item_from_record_takes_the_first_of_repeated_keys() {
    let value = DocValue::Object(vec![
        ("id".to_string(), text("first")),
        ("id".to_string(), text("second")),
        ("value".to_string(), text("t")),
        ("completed".to_string(), DocValue::Bool(false)),
    ]);
    assert_eq!(Item::try_from(&value).unwrap().id, "first");
}

#[test]
fn item_from_record_with_missing_key_is_invalid() {
    let value = DocValue::Object(vec![
        ("id".to_string(), text("i")),
        ("value".to_string(), text("t")),
    ]);
    assert_eq!(Item::try_from(&value).unwrap_err(), "invalid value for item");
}

#[test]
fn item_from_record_with_wrong_types_is_invalid() {
    let value = record(text("i"), text("t"), text("yes"));
    assert_eq!(Item::try_from(&value).unwrap_err(), "invalid value for item");
    let value = record(DocValue::Other, text("t"), DocValue::Bool(true));
    assert_eq!(Item::try_from(&value).unwrap_err(), "invalid value for item");
    let value = record(text("i"), DocValue::Bool(true), DocValue::Bool(true));
    assert_eq!(Item::try_from(&value).unwrap_err(), "invalid value for item");
}

#[test]
fn item_from_non_map_is_refused() {
    for value in [text("x"), DocValue::Bool(true), DocValue::List(vec![]), DocValue::Other] {
        assert_eq!(
            Item::try_from(&value).unwrap_err(),
            "attempted to create an item from a non-map type"
        );
    }
}

#[test]
fn item_to_value_and_back() {
    let mut item = Item::with_id("water plants", "id-9".to_string());
    item.done = true;
    let back = Item::try_from(&item.to_value()).unwrap();
    assert_eq!(back.task, "water plants");
    assert_eq!(back.id, "id-9");
    assert!(back.done);
}

#[test]
fn item_label_strikes_done_items_through() {
    let mut item = Item::with_id("buy milk", "1".to_string());
    assert_eq!(item.label(), "buy milk");
    item.done = true;
    assert_eq!(
        item.label(),
        "<span strikethrough=\"true\" alpha=\"50%\">buy milk</span>"
    );
}

#[test]
fn items_from_document() {
    let value = document(vec![
        record(text("1"), text("a"), DocValue::Bool(false)),
        record(text("2"), text("b"), DocValue::Bool(true)),
    ]);
    let items = Items::try_from(&value).unwrap();
    assert_eq!(items.len(), 2);
    assert!(!items.is_empty());
    assert_eq!(items.get(0).unwrap().task, "a");
    assert_eq!(items.get(1).unwrap().id, "2");
    assert!(items.get(1).unwrap().done);
    assert!(items.get(2).is_none());
}

#[test]
fn items_from_empty_list() {
    let items = Items::try_from(&document(vec![])).unwrap();
    assert_eq!(items.len(), 0);
    assert!(items.is_empty());
}

#[test]
fn items_without_todos_key() {
    let value = DocValue::Object(vec![("other".to_string(), DocValue::List(vec![]))]);
    assert_eq!(Items::try_from(&value).unwrap_err(), "No 'todos' key found");
}

#[test]
fn items_with_todos_that_is_no_sequence() {
    let value = DocValue::Object(vec![("todos".to_string(), text("nope"))]);
    assert_eq!(
        Items::try_from(&value).unwrap_err(),
        "todos key did not contain a sequence"
    );
}

#[test]
fn items_from_non_map() {
    assert_eq!(
        Items::try_from(&DocValue::List(vec![])).unwrap_err(),
        "attempted to create items from something which wasn't a map"
    );
}

#[test]
fn items_report_the_first_bad_element() {
    let value = document(vec![
        record(text("1"), text("a"), DocValue::Bool(false)),
        DocValue::Object(vec![]),
        text("not a map"),
    ]);
    assert_eq!(Items::try_from(&value).unwrap_err(), "invalid value for item");
    let value = document(vec![text("not a map"), DocValue::Object(vec![])]);
    assert_eq!(
        Items::try_from(&value).unwrap_err(),
        "attempted to create an item from a non-map type"
    );
}

#[test]
fn items_vector_round_trip() {
    let items = Items::from_vec(vec![
        Item::with_id("a", "1".to_string()),
        Item::with_id("b", "2".to_string()),
    ]);
    assert_eq!(items.as_vec().len(), 2);
    let copy = items.clone();
    let inner = copy.into_vec();
    assert_eq!(inner[1].task, "b");
    assert!(same_items(items.as_vec(), &inner));
}

#[test]
fn same_items_tells_lists_apart() {
    let left = vec![Item::with_id("a", "1".to_string())];
    let mut right = copy_items(&left);
    assert!(same_items(&left, &right));
    right[0].done = true;
    assert!(!same_items(&left, &right));
    right[0].done = false;
    right[0].task = "b".to_string();
    assert!(!same_items(&left, &right));
    right[0].task = "a".to_string();
    right[0].id = "2".to_string();
    assert!(!same_items(&left, &right));
    right.push(Item::with_id("c", "3".to_string()));
    assert!(!same_items(&left, &right));
}

#[test]
fn value_lookup() {
    let value = DocValue::Object(vec![("k".to_string(), DocValue::Bool(true))]);
    assert!(matches!(value.get(&"k".to_string()), Some(DocValue::Bool(true))));
    assert!(value.get(&"missing".to_string()).is_none());
    assert!(DocValue::Other.get(&"k".to_string()).is_none());
}
