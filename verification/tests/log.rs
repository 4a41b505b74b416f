use automerge::transaction::Transactable;
use automerge::{ActorId, Automerge, ROOT};
use todomvc::history::{same_bytes, seen_before, Change};
use todomvc::intents::{add_ops, clear_completed_ops, toggle_ops};
use todomvc::items::{Item, Items};
use todomvc::error::{DecodeError, LocalError, MergeError, SyncError};
use todomvc::log::{confirm, initial_document, ChangeLog, INITIAL_DOCUMENT};
use todomvc::ops::{InvalidChangeRequest, LocalChange};
use todomvc::path::Path;
use todomvc::value::DocValue;
use todomvc::view::{OptimisticView, Patch};

fn tasks(items: &[Item]) -> Vec<String> {
    items.iter().map(|item| item.task.clone()).collect()
}

fn add(log: &mut ChangeLog, task: &str, id: &str) -> Change {
    let item = Item::with_id(task, id.to_string());
    let ops = add_ops(log.snapshot().as_vec(), &item).unwrap();
    log.apply_local(None, ops).unwrap().unwrap().0
}

fn history_of(log: &ChangeLog) -> Vec<Vec<u8>> {
    let all = log.changes().unwrap();
    let mut ids: Vec<Vec<u8>> = all.iter().map(|change| change.hash().clone()).collect();
    ids.sort();
    ids
}

/// A history that disagrees with the schema: `todos` is a string.
fn history_without_list() -> Vec<u8> {
    let doc = Automerge::load(&INITIAL_DOCUMENT).unwrap();
    let mut tx = doc.into_transaction(None, None).unwrap();
    tx.put(ROOT, "todos", "nope").unwrap();
    let (doc, _, _) = tx.commit();
    doc.save()
}

#[test]
fn initial_document_is_the_constant() {
    assert_eq!(initial_document(), INITIAL_DOCUMENT.to_vec());
}

#[test]
fn new_log_holds_the_empty_list() {
    let log = ChangeLog::new().unwrap();
    assert_eq!(log.snapshot().len(), 0);
    assert_eq!(log.len(), 1);
    assert_eq!(log.changes().unwrap().len(), 1);
    assert_eq!(log.changes().unwrap()[0].label().as_deref(), Some("Initialization"));
}

#[test]
fn every_replica_starts_from_the_same_change() {
    let left = ChangeLog::new().unwrap();
    let right = ChangeLog::new().unwrap();
    assert_eq!(history_of(&left), history_of(&right));
}

#[test]
fn a_log_starts_from_the_empty_list_only() {
    let log = ChangeLog::starting_from(&initial_document()).unwrap();
    assert!(log.snapshot().is_empty());
    assert_eq!(log.len(), 1);
    // A list that already holds an item.
    let mut filled = ChangeLog::new().unwrap();
    add(&mut filled, "a", "1");
    assert_eq!(
        ChangeLog::starting_from(&filled.serialize()).err(),
        Some(DecodeError::Unexpected)
    );
    // A document without the list.
    assert_eq!(
        ChangeLog::starting_from(&history_without_list()).err(),
        Some(DecodeError::Unexpected)
    );
    assert_eq!(
        ChangeLog::starting_from(&Automerge::new().save()).err(),
        Some(DecodeError::Unexpected)
    );
    assert!(matches!(
        ChangeLog::starting_from(&vec![1, 2, 3]),
        Err(DecodeError::Malformed(_))
    ));
}

#[test]
fn empty_log_has_recorded_nothing() {
    let log = ChangeLog::empty();
    assert_eq!(log.len(), 0);
    assert!(log.changes().unwrap().is_empty());
    assert!(log.snapshot().is_empty());
}

#[test]
fn local_change_is_recorded_once() {
    let mut log = ChangeLog::new().unwrap();
    let item = Item::with_id("buy milk", "id-1".to_string());
    let ops = add_ops(log.snapshot().as_vec(), &item).unwrap();
    let (change, patch) = log.apply_local(Some("Add item".to_string()), ops).unwrap().unwrap();
    assert_eq!(log.len(), 2);
    assert!(log.contains(change.hash()));
    assert_eq!(change.hash().len(), 32);
    assert!(!change.bytes().is_empty());
    assert_eq!(tasks(log.snapshot().as_vec()), ["buy milk"]);
    assert_eq!(log.snapshot().as_vec()[0].id, "id-1");
    // The patch brings a view of the old list up to date.
    let mut view = OptimisticView::new();
    view.apply_patch(patch).unwrap();
    assert_eq!(tasks(view.items()), ["buy milk"]);
}

#[test]
fn recorded_change_carries_its_label() {
    let mut log = ChangeLog::new().unwrap();
    let item = Item::with_id("buy milk", "id-1".to_string());
    let ops = add_ops(log.snapshot().as_vec(), &item).unwrap();
    let (change, _) = log.apply_local(Some("Add item".to_string()), ops).unwrap().unwrap();
    assert_eq!(change.label().as_deref(), Some("Add item"));
    let ops = toggle_ops(log.snapshot().as_vec(), 0).unwrap();
    let (change, _) = log.apply_local(None, ops).unwrap().unwrap();
    assert_eq!(change.label().as_deref(), None);
}

#[test]
fn no_operations_record_nothing() {
    let mut log = ChangeLog::new().unwrap();
    assert!(log.apply_local(Some("empty".to_string()), Vec::new()).unwrap().is_none());
    assert_eq!(log.len(), 1);
}

#[test]
fn operations_without_effect_record_nothing() {
    let mut log = ChangeLog::new().unwrap();
    add(&mut log, "a", "1");
    let ops = vec![LocalChange::set(
        Path::root().key("todos").index(0).key("completed"),
        DocValue::Bool(false),
    )];
    assert!(log.apply_local(None, ops).unwrap().is_none());
    assert_eq!(log.len(), 2);
}

#[test]
fn of_repeated_keys_the_first_is_recorded() {
    let mut log = ChangeLog::new().unwrap();
    let record = DocValue::Object(vec![
        ("id".to_string(), DocValue::Str("first".to_string())),
        ("id".to_string(), DocValue::Str("second".to_string())),
        ("value".to_string(), DocValue::Str("a".to_string())),
        ("completed".to_string(), DocValue::Bool(false)),
        ("value".to_string(), DocValue::Str("b".to_string())),
    ]);
    let ops = vec![LocalChange::insert(Path::root().key("todos").index(0), record)];
    assert!(log.apply_local(None, ops).unwrap().is_some());
    let items = log.snapshot().into_vec();
    assert_eq!(items[0].id, "first");
    assert_eq!(items[0].task, "a");
}

#[test]
fn text_is_overwritten_in_place() {
    let mut log = ChangeLog::new().unwrap();
    add(&mut log, "a", "1");
    add(&mut log, "b", "2");
    let ops = vec![LocalChange::set(
        Path::root().key("todos").index(1).key("value"),
        DocValue::Str("walk the dog".to_string()),
    )];
    assert!(log.apply_local(None, ops).unwrap().is_some());
    let items = log.snapshot().into_vec();
    assert_eq!(tasks(&items), ["a", "walk the dog"]);
    assert_eq!(items[1].id, "2");
}

#[test]
fn invalid_intent_is_abandoned_whole() {
    let mut log = ChangeLog::new().unwrap();
    add(&mut log, "a", "1");
    let ops = vec![
        LocalChange::set(Path::root().key("todos").index(0).key("completed"), DocValue::Bool(true)),
        LocalChange::delete(Path::root().key("todos").index(5)),
    ];
    assert_eq!(
        log.apply_local(None, ops).unwrap_err(),
        LocalError::Invalid(InvalidChangeRequest::OutOfBounds)
    );
    assert_eq!(log.len(), 2);
    assert!(!log.snapshot().as_vec()[0].done);
    let ops = vec![LocalChange::set(Path::root().key("todos").index(0), DocValue::Bool(true))];
    assert_eq!(
        log.apply_local(None, ops).unwrap_err(),
        LocalError::Invalid(InvalidChangeRequest::NoSuchPath)
    );
    let ops = vec![LocalChange::insert(Path::root().key("todos").index(0), DocValue::Other)];
    assert_eq!(
        log.apply_local(None, ops).unwrap_err(),
        LocalError::Invalid(InvalidChangeRequest::WrongType)
    );
    assert_eq!(log.len(), 2);
}

#[test]
fn a_log_without_the_list_refuses_local_changes() {
    let mut log = ChangeLog::empty();
    let item = Item::with_id("a", "1".to_string());
    let ops = add_ops(log.snapshot().as_vec(), &item).unwrap();
    assert!(matches!(log.apply_local(None, ops), Err(LocalError::Refused(_))));
    assert_eq!(log.len(), 0);
}

#[test]
fn confirm_compares_with_the_prediction() {
    let predicted = vec![Item::with_id("a", "1".to_string())];
    let state = DocValue::Object(vec![(
        "todos".to_string(),
        DocValue::List(vec![predicted[0].to_value()]),
    )]);
    assert_eq!(tasks(&confirm(predicted, &state).unwrap()), ["a"]);
    let other = vec![Item::with_id("b", "1".to_string())];
    assert_eq!(confirm(other, &state).unwrap_err(), LocalError::Diverged);
    assert_eq!(confirm(Vec::new(), &DocValue::Other).unwrap_err(), LocalError::Diverged);
}

#[test]
fn add_toggle_add_clear() {
    let mut log = ChangeLog::new().unwrap();
    add(&mut log, "buy milk", "id-1");
    let items = log.snapshot().into_vec();
    assert_eq!(tasks(&items), ["buy milk"]);
    assert!(!items[0].done);

    let ops = toggle_ops(&items, 0).unwrap();
    assert!(log.apply_local(None, ops).unwrap().is_some());
    assert!(log.snapshot().as_vec()[0].done);

    add(&mut log, "walk dog", "id-2");
    let items = log.snapshot().into_vec();
    assert_eq!(tasks(&items), ["buy milk", "walk dog"]);
    assert!(!items[1].done);

    let ops = clear_completed_ops(&items).unwrap();
    assert!(log.apply_local(None, ops).unwrap().is_some());
    let items = log.snapshot().into_vec();
    assert_eq!(tasks(&items), ["walk dog"]);
    assert!(!items[0].done);
    assert_eq!(log.len(), 5);
}

#[test]
fn merge_is_idempotent() {
    let mut source = ChangeLog::new().unwrap();
    add(&mut source, "a", "1");
    add(&mut source, "b", "2");
    let batch = source.changes().unwrap();

    let mut log = ChangeLog::new().unwrap();
    log.apply_changes(&batch).unwrap();
    let once = log.snapshot().into_vec();
    let history = history_of(&log);
    log.apply_changes(&batch).unwrap();
    assert_eq!(tasks(log.snapshot().as_vec()), tasks(&once));
    assert_eq!(history_of(&log), history);
    assert_eq!(tasks(&once), ["a", "b"]);
    assert_eq!(log.len(), 3);
}

#[test]
fn repetitions_within_a_batch_count_once() {
    let mut source = ChangeLog::new().unwrap();
    add(&mut source, "a", "1");
    let mut batch = source.changes().unwrap();
    batch.extend(source.changes().unwrap());
    let mut log = ChangeLog::new().unwrap();
    log.apply_changes(&batch).unwrap();
    assert_eq!(log.len(), 2);
    assert_eq!(tasks(log.snapshot().as_vec()), ["a"]);
}

#[test]
fn a_batch_merges_in_any_order() {
    let mut source = ChangeLog::new().unwrap();
    add(&mut source, "a", "1");
    add(&mut source, "b", "2");
    let mut batch = source.changes().unwrap();
    batch.reverse();
    let mut log = ChangeLog::new().unwrap();
    log.apply_changes(&batch).unwrap();
    assert_eq!(tasks(log.snapshot().as_vec()), ["a", "b"]);
    assert_eq!(history_of(&log), history_of(&source));
}

#[test]
fn the_empty_batch_changes_nothing() {
    let mut log = ChangeLog::new().unwrap();
    add(&mut log, "a", "1");
    let history = history_of(&log);
    let patch = log.apply_changes(&Vec::new()).unwrap();
    assert_eq!(history_of(&log), history);
    let mut view = OptimisticView::new();
    view.apply_patch(patch).unwrap();
    assert_eq!(tasks(view.items()), ["a"]);
}

#[test]
fn merge_commutes() {
    let mut left = ChangeLog::new().unwrap();
    let a = add(&mut left, "a", "1");
    let mut right = ChangeLog::new().unwrap();
    let b = add(&mut right, "b", "2");
    let batch_a = vec![a];
    let batch_b = vec![b];

    let mut first = ChangeLog::new().unwrap();
    first.apply_changes(&batch_a).unwrap();
    first.apply_changes(&batch_b).unwrap();
    let mut second = ChangeLog::new().unwrap();
    second.apply_changes(&batch_b).unwrap();
    second.apply_changes(&batch_a).unwrap();

    assert_eq!(history_of(&first), history_of(&second));
    let one = first.snapshot().into_vec();
    let other = second.snapshot().into_vec();
    assert_eq!(tasks(&one), tasks(&other));
    assert_eq!(one.len(), 2);
}

#[test]
fn merge_patch_brings_a_view_up_to_date() {
    let mut source = ChangeLog::new().unwrap();
    add(&mut source, "a", "1");
    let mut log = ChangeLog::new().unwrap();
    let patch = log.apply_changes(&source.changes().unwrap()).unwrap();
    assert!(matches!(patch, Patch::Snapshot(_)));
    let mut view = OptimisticView::new();
    view.apply_patch(patch).unwrap();
    assert_eq!(tasks(view.items()), ["a"]);
}

#[test]
fn serialized_history_round_trips() {
    let mut log = ChangeLog::new().unwrap();
    add(&mut log, "a", "1");
    add(&mut log, "b", "2");
    let ops = toggle_ops(log.snapshot().as_vec(), 1).unwrap();
    log.apply_local(None, ops).unwrap();

    let decoded = ChangeLog::decode(&log.serialize()).unwrap();
    assert_eq!(decoded.len(), 4);
    let mut copy = ChangeLog::empty();
    copy.apply_changes(&decoded).unwrap();
    assert_eq!(history_of(&copy), history_of(&log));
    let before = log.snapshot().into_vec();
    let rebuilt = copy.snapshot().into_vec();
    assert_eq!(tasks(&rebuilt), ["a", "b"]);
    for (left, right) in before.iter().zip(rebuilt.iter()) {
        assert_eq!(left.task, right.task);
        assert_eq!(left.id, right.id);
        assert_eq!(left.done, right.done);
    }
}

#[test]
fn a_blank_log_takes_a_history_in() {
    let mut log = ChangeLog::new().unwrap();
    add(&mut log, "a", "1");
    let mut copy = ChangeLog::empty();
    let patch = copy.receive(&log.serialize()).unwrap();
    assert!(matches!(patch, Patch::Snapshot(_)));
    assert_eq!(tasks(copy.snapshot().as_vec()), ["a"]);
    assert_eq!(history_of(&copy), history_of(&log));

    let mut blank = ChangeLog::empty();
    assert!(matches!(
        blank.receive(&vec![1, 2, 3]),
        Err(SyncError::Decode(DecodeError::Malformed(_)))
    ));
    assert!(matches!(
        blank.receive(&history_without_list()),
        Err(SyncError::Merge(MergeError::Malformed(_)))
    ));
    assert_eq!(blank.len(), 0);
}

#[test]
fn replacing_a_list_by_itself_records_what_the_store_did() {
    let mut log = ChangeLog::new().unwrap();
    add(&mut log, "a", "1");
    add(&mut log, "b", "2");
    let items = log.snapshot().into_vec();
    let ops = todomvc::intents::replace_ops(&items, &items).unwrap();
    assert_eq!(ops.len(), 4);
    let (change, _) = log.apply_local(Some("Open".to_string()), ops).unwrap().unwrap();
    assert_eq!(change.label().as_deref(), Some("Open"));
    assert_eq!(log.len(), 4);
    assert_eq!(tasks(log.snapshot().as_vec()), ["a", "b"]);
}

#[test]
fn a_log_pulls_from_another() {
    let mut x = ChangeLog::new().unwrap();
    let mut y = ChangeLog::new().unwrap();
    add(&mut x, "a", "1");
    add(&mut y, "b", "2");
    x.pull_from(&y).unwrap();
    y.pull_from(&x).unwrap();
    assert_eq!(history_of(&x), history_of(&y));
    assert_eq!(tasks(x.snapshot().as_vec()), tasks(y.snapshot().as_vec()));
    assert_eq!(x.len(), 3);
}

#[test]
fn decoded_changes_carry_their_labels() {
    let mut log = ChangeLog::new().unwrap();
    let item = Item::with_id("a", "1".to_string());
    let ops = add_ops(log.snapshot().as_vec(), &item).unwrap();
    let (recorded, _) = log.apply_local(Some("Add item".to_string()), ops).unwrap().unwrap();
    let decoded = ChangeLog::decode(&log.serialize()).unwrap();
    let found = decoded.iter().find(|change| change.hash() == recorded.hash()).unwrap();
    assert_eq!(found.label().as_deref(), Some("Add item"));
    assert_eq!(found.bytes(), recorded.bytes());
    found.attest();
}

#[test]
fn an_insert_at_a_key_is_refused_before_the_store() {
    let mut log = ChangeLog::new().unwrap();
    let item = Item::with_id("a", "1".to_string());
    let ops = vec![LocalChange::insert(Path::root().key("todos").key("x"), item.to_value())];
    assert_eq!(
        log.apply_local(None, ops).unwrap_err(),
        LocalError::Invalid(InvalidChangeRequest::NoSuchPath)
    );
    assert_eq!(log.len(), 1);
}

#[test]
fn decoded_changes_come_dependencies_first() {
    let mut log = ChangeLog::new().unwrap();
    let a = add(&mut log, "a", "1");
    let b = add(&mut log, "b", "2");
    let decoded = ChangeLog::decode(&log.serialize()).unwrap();
    let position = |change: &Change| {
        decoded.iter().position(|other| other.hash() == change.hash()).unwrap()
    };
    assert!(position(&a) < position(&b));
    assert_eq!(position(&a), 1);
}

#[test]
fn malformed_bytes_do_not_decode() {
    assert!(matches!(ChangeLog::decode(&vec![1, 2, 3]), Err(DecodeError::Malformed(_))));
    let mut bytes = initial_document();
    bytes.truncate(20);
    assert!(matches!(ChangeLog::decode(&bytes), Err(DecodeError::Malformed(_))));
    let mut bytes = initial_document();
    bytes[60] ^= 0xff;
    assert!(matches!(ChangeLog::decode(&bytes), Err(DecodeError::Malformed(_))));
}

#[test]
fn a_batch_with_a_missing_dependency_is_not_merged() {
    let mut source = ChangeLog::new().unwrap();
    add(&mut source, "a", "1");
    let second = add(&mut source, "b", "2");
    let mut log = ChangeLog::new().unwrap();
    assert_eq!(log.apply_changes(&vec![second]).unwrap_err(), MergeError::Incomplete);
    assert_eq!(log.len(), 1);
    assert!(log.snapshot().is_empty());
    // With its dependency the same change is merged.
    log.apply_changes(&source.changes().unwrap()).unwrap();
    assert_eq!(tasks(log.snapshot().as_vec()), ["a", "b"]);
}

#[test]
fn a_history_that_is_no_list_is_not_merged() {
    let batch = ChangeLog::decode(&history_without_list()).unwrap();
    let mut log = ChangeLog::new().unwrap();
    add(&mut log, "a", "1");
    assert_eq!(
        log.apply_changes(&batch).unwrap_err(),
        MergeError::Malformed("todos key did not contain a sequence".to_string())
    );
    assert_eq!(log.len(), 2);
    assert_eq!(tasks(log.snapshot().as_vec()), ["a"]);
}

#[test]
fn a_record_with_a_number_for_a_mark_is_no_item() {
    let doc = Automerge::load(&INITIAL_DOCUMENT).unwrap();
    let mut tx = doc.into_transaction(None, None).unwrap();
    let (_, todos) = automerge::ReadDoc::get(&tx, ROOT, "todos").unwrap().unwrap();
    let item = tx.insert_object(&todos, 0, automerge::ObjType::Map).unwrap();
    tx.put(&item, "id", "1").unwrap();
    tx.put(&item, "value", "a").unwrap();
    tx.put(&item, "completed", 1_i64).unwrap();
    let (doc, _, _) = tx.commit();
    let batch = ChangeLog::decode(&doc.save()).unwrap();
    let mut log = ChangeLog::new().unwrap();
    assert_eq!(
        log.apply_changes(&batch).unwrap_err(),
        MergeError::Malformed("invalid value for item".to_string())
    );
    assert!(log.snapshot().is_empty());
}

#[test]
fn items_of_another_writer_are_read() {
    let doc = Automerge::load(&INITIAL_DOCUMENT).unwrap();
    let mut tx = doc.into_transaction(None, None).unwrap();
    let (_, todos) = automerge::ReadDoc::get(&tx, ROOT, "todos").unwrap().unwrap();
    let item = tx.insert_object(&todos, 0, automerge::ObjType::Map).unwrap();
    tx.put(&item, "id", "1").unwrap();
    tx.put(&item, "value", "a").unwrap();
    tx.put(&item, "completed", true).unwrap();
    tx.put(&item, "note", 7_i64).unwrap();
    let (doc, _, _) = tx.commit();
    let batch = ChangeLog::decode(&doc.save()).unwrap();
    let mut log = ChangeLog::new().unwrap();
    log.apply_changes(&batch).unwrap();
    let items = log.snapshot().into_vec();
    assert_eq!(tasks(&items), ["a"]);
    assert_eq!(items[0].id, "1");
    assert!(items[0].done);
}

#[test]
fn a_batch_that_the_store_refuses_is_not_merged() {
    // Two different changes that claim the same place in one actor's sequence.
    let make = |text: &str| {
        let doc = Automerge::load(&INITIAL_DOCUMENT).unwrap();
        let doc = doc.with_actor(ActorId::from(vec![7u8; 16]));
        let mut tx = doc.into_transaction(None, None).unwrap();
        tx.put(ROOT, "note", text).unwrap();
        let (doc, _, _) = tx.commit();
        ChangeLog::decode(&doc.save()).unwrap()
    };
    let mut log = ChangeLog::new().unwrap();
    log.apply_changes(&make("one")).unwrap();
    assert!(matches!(log.apply_changes(&make("two")), Err(MergeError::Refused(_))));
    assert_eq!(log.len(), 2);
}

#[test]
fn contains_tells_recorded_changes() {
    let mut log = ChangeLog::new().unwrap();
    let change = add(&mut log, "a", "1");
    assert!(log.contains(change.hash()));
    assert!(!log.contains(&vec![0u8; 32]));
    assert!(!log.contains(&vec![1, 2, 3]));
    assert!(!ChangeLog::new().unwrap().contains(change.hash()));
}

#[test]
fn byte_strings_compare() {
    assert!(same_bytes(&vec![1, 2], &vec![1, 2]));
    assert!(!same_bytes(&vec![1, 2], &vec![1, 3]));
    assert!(!same_bytes(&vec![1, 2], &vec![1]));
    assert!(same_bytes(&Vec::new(), &Vec::new()));
}

#[test]
fn seen_before_finds_repetitions() {
    let mut log = ChangeLog::new().unwrap();
    add(&mut log, "a", "1");
    let mut batch = log.changes().unwrap();
    batch.extend(log.changes().unwrap());
    assert!(!seen_before(&batch, 0));
    assert!(!seen_before(&batch, 1));
    assert!(seen_before(&batch, 2));
    assert!(seen_before(&batch, 3));
}

#[test]
fn snapshot_patch_replaces_and_edits_replay() {
    let mut view = OptimisticView::new();
    view.apply_patch(Patch::Snapshot(vec![Item::with_id("a", "1".to_string())])).unwrap();
    assert_eq!(tasks(view.items()), ["a"]);
    let ops = toggle_ops(view.items(), 0).unwrap();
    view.apply_patch(Patch::Edits(ops)).unwrap();
    assert!(view.items()[0].done);
    let bad = vec![LocalChange::delete(Path::root().key("todos").index(3))];
    assert_eq!(
        view.apply_patch(Patch::Edits(bad)).unwrap_err(),
        InvalidChangeRequest::OutOfBounds
    );
    assert_eq!(tasks(view.items()), ["a"]);
    assert_eq!(view.snapshot().len(), 1);
    assert_eq!(view.filtered(todomvc::filter::Filter::Active).len(), 0);
    assert_eq!(Items::from_vec(view.filtered(todomvc::filter::Filter::Completed)).len(), 1);
}
