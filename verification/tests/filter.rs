use todomvc::filter::{decimal_string, filter_items, left_label, Filter};
use todomvc::items::Item;

fn sample() -> Vec<Item> {
    let mut items = vec![
        Item::with_id("a", "1".to_string()),
        Item::with_id("b", "2".to_string()),
        Item::with_id("c", "3".to_string()),
        Item::with_id("d", "4".to_string()),
    ];
    items[1].done = true;
    items[3].done = true;
    items
}

fn tasks(items: &[Item]) -> Vec<String> {
    items.iter().map(|item| item.task.clone()).collect()
}

#[test]
fn default_filter_is_all() {
    assert_eq!(Filter::default(), Filter::All);
}

#[test]
fn filter_labels() {
    assert_eq!(Filter::All.label(), "All");
    assert_eq!(Filter::Active.label(), "Active");
    assert_eq!(Filter::Completed.label(), "Completed");
}

#[test]
fn filter_admits() {
    let mut item = Item::with_id("a", "1".to_string());
    assert!(Filter::All.admits(&item));
    assert!(Filter::Active.admits(&item));
    assert!(!Filter::Completed.admits(&item));
    item.done = true;
    assert!(Filter::All.admits(&item));
    assert!(!Filter::Active.admits(&item));
    assert!(Filter::Completed.admits(&item));
}

#[test]
fn filter_all_keeps_everything_in_order() {
    assert_eq!(tasks(&filter_items(&sample(), Filter::All)), ["a", "b", "c", "d"]);
}

#[test]
fn filter_active_keeps_order() {
    assert_eq!(tasks(&filter_items(&sample(), Filter::Active)), ["a", "c"]);
}

#[test]
fn filter_completed_keeps_order() {
    assert_eq!(tasks(&filter_items(&sample(), Filter::Completed)), ["b", "d"]);
}

#[test]
fn filter_of_empty_list() {
    assert!(filter_items(&Vec::new(), Filter::Active).is_empty());
}

#[test]
fn decimal_numerals() {
    assert_eq!(decimal_string(0), "0");
    assert_eq!(decimal_string(7), "7");
    assert_eq!(decimal_string(10), "10");
    assert_eq!(decimal_string(42), "42");
    assert_eq!(decimal_string(1000), "1000");
    assert_eq!(decimal_string(9876543210), "9876543210");
    assert_eq!(decimal_string(usize::MAX), usize::MAX.to_string());
}

#[test]
fn left_label_texts() {
    assert_eq!(left_label(0), "0 items left");
    assert_eq!(left_label(1), "1 item left");
    assert_eq!(left_label(2), "2 items left");
    assert_eq!(left_label(11), "11 items left");
    assert_eq!(left_label(120), "120 items left");
}
