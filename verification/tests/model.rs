use todomvc::filter::Filter;
use todomvc::items::Item;
use todomvc::error::{DecodeError, LocalError, MergeError, SyncError, UpdateError};
use todomvc::model::{Model, Msg, Remote, UpdateAction};
use todomvc::ops::InvalidChangeRequest;
use todomvc::store::Store;

fn tasks(items: &[Item]) -> Vec<String> {
    items.iter().map(|item| item.task.clone()).collect()
}

fn marks(items: &[Item]) -> Vec<bool> {
    items.iter().map(|item| item.done).collect()
}

fn list(model: &Model) -> Vec<Item> {
    model.items().into_vec()
}

fn add(model: &mut Model, text: &str) {
    let action = model.update(Msg::Add { item: text.to_string() }).unwrap();
    assert!(matches!(action, UpdateAction::Render));
}

fn pull(into: &mut Model, from: &mut Model) {
    let body = match from.update(Msg::PushToRemote { remote_index: 0 }).unwrap() {
        UpdateAction::Push { body, .. } => body,
        other => panic!("unexpected action {:?}", other),
    };
    into.receive(&body).unwrap();
}

fn with_peer() -> Model {
    let mut model = Model::default().unwrap();
    model.update(Msg::AddRemote { url: "http://peer.example/doc".to_string() }).unwrap();
    model
}

#[test]
fn default_model() {
    let model = Model::default().unwrap();
    assert!(list(&model).is_empty());
    assert_eq!(model.current_filter(), Filter::All);
    assert!(model.is_clean());
    assert!(model.remotes().is_empty());
    assert_eq!(model.recorded(), 1);
    assert_eq!(model.left_label(), "0 items left");
}

#[test]
fn scenario_add_toggle_add_clear() {
    let mut model = Model::default().unwrap();
    add(&mut model, "buy milk");
    let items = list(&model);
    assert_eq!(tasks(&items), ["buy milk"]);
    assert_eq!(marks(&items), [false]);

    assert!(matches!(model.update(Msg::Toggle { index: 0 }), Ok(UpdateAction::Render)));
    assert_eq!(marks(&list(&model)), [true]);

    add(&mut model, "walk dog");
    let items = list(&model);
    assert_eq!(tasks(&items), ["buy milk", "walk dog"]);
    assert_eq!(marks(&items), [true, false]);

    assert!(matches!(model.update(Msg::ClearCompleted), Ok(UpdateAction::Render)));
    let items = list(&model);
    assert_eq!(tasks(&items), ["walk dog"]);
    assert_eq!(marks(&items), [false]);
    assert!(!model.is_clean());
}

#[test]
fn scenario_toggle_all() {
    let mut model = Model::default().unwrap();
    add(&mut model, "a");
    add(&mut model, "b");
    add(&mut model, "c");
    let before = model.recorded();

    // Every item is active: all are marked as done, in one change.
    assert!(matches!(model.update(Msg::ToggleAll), Ok(UpdateAction::Render)));
    assert_eq!(marks(&list(&model)), [true, true, true]);
    assert_eq!(model.recorded(), before + 1);

    // Nothing shown is left undone: nothing happens and nothing is recorded.
    assert!(matches!(model.update(Msg::ToggleAll), Ok(UpdateAction::Nothing)));
    assert_eq!(marks(&list(&model)), [true, true, true]);
    assert_eq!(model.recorded(), before + 1);

    // Under the filter for active items no item is shown at all.
    model.update(Msg::Filter { filter: Filter::Active }).unwrap();
    assert!(model.filter(Filter::Active).is_empty());
    assert!(matches!(model.update(Msg::ToggleAll), Ok(UpdateAction::Nothing)));
    assert_eq!(marks(&list(&model)), [true, true, true]);
    assert_eq!(model.recorded(), before + 1);
}

#[test]
fn toggle_all_marks_only_what_is_shown() {
    let mut model = Model::default().unwrap();
    add(&mut model, "a");
    add(&mut model, "b");
    model.update(Msg::Toggle { index: 0 }).unwrap();
    model.update(Msg::Filter { filter: Filter::Active }).unwrap();
    assert!(matches!(model.update(Msg::ToggleAll), Ok(UpdateAction::Render)));
    assert_eq!(marks(&list(&model)), [true, true]);
}

#[test]
fn scenario_replicas_converge() {
    let mut x = with_peer();
    let mut y = with_peer();
    add(&mut x, "a");
    add(&mut y, "b");
    let id_a = list(&x)[0].id.clone();
    let id_b = list(&y)[0].id.clone();

    // X pulls from Y, then pushes to Y.
    pull(&mut x, &mut y);
    pull(&mut y, &mut x);

    let xs = list(&x);
    let ys = list(&y);
    assert_eq!(xs.len(), 2);
    assert_eq!(tasks(&xs), tasks(&ys));
    for (left, right) in xs.iter().zip(ys.iter()) {
        assert_eq!(left.id, right.id);
        assert_eq!(left.done, right.done);
    }
    let id_of = |task: &str| xs.iter().find(|item| item.task == task).unwrap().id.clone();
    assert_eq!(id_of("a"), id_a);
    assert_eq!(id_of("b"), id_b);
    assert_eq!(x.recorded(), y.recorded());
}

#[test]
fn the_view_never_diverges_from_the_log() {
    let mut model = with_peer();
    let msgs = vec![
        Msg::Add { item: "a".to_string() },
        Msg::Add { item: "b".to_string() },
        Msg::Toggle { index: 1 },
        Msg::Add { item: "c".to_string() },
        Msg::Filter { filter: Filter::Active },
        Msg::Remove { index: 1 },
        Msg::ToggleAll,
        Msg::Filter { filter: Filter::All },
        Msg::Add { item: "d".to_string() },
        Msg::ClearCompleted,
        Msg::Toggle { index: 7 },
    ];
    for msg in msgs {
        let _ = model.update(msg);
        // A replica rebuilt from the recorded history shows the same list.
        let body = match model.update(Msg::PushToRemote { remote_index: 0 }).unwrap() {
            UpdateAction::Push { body, .. } => body,
            other => panic!("unexpected action {:?}", other),
        };
        let mut replica = Store::new().unwrap();
        replica.receive(&body).unwrap();
        let shown = list(&model);
        let projected = replica.snapshot().into_vec();
        assert_eq!(tasks(&shown), tasks(&projected));
        assert_eq!(marks(&shown), marks(&projected));
    }
    assert_eq!(tasks(&list(&model)), ["d"]);
}

#[test]
fn remove_goes_through_the_filter() {
    let mut model = Model::default().unwrap();
    add(&mut model, "a");
    add(&mut model, "b");
    add(&mut model, "c");
    model.update(Msg::Toggle { index: 0 }).unwrap();
    model.update(Msg::Filter { filter: Filter::Active }).unwrap();
    // The reader sees "b" and "c"; position 1 is "c".
    assert_eq!(tasks(&model.filter(model.current_filter())), ["b", "c"]);
    assert!(matches!(model.update(Msg::Remove { index: 1 }), Ok(UpdateAction::Render)));
    assert_eq!(tasks(&list(&model)), ["a", "b"]);
    model.update(Msg::Filter { filter: Filter::Completed }).unwrap();
    assert!(matches!(model.update(Msg::Remove { index: 0 }), Ok(UpdateAction::Render)));
    assert_eq!(tasks(&list(&model)), ["b"]);
}

#[test]
fn intents_past_the_end_leave_the_model() {
    let mut model = Model::default().unwrap();
    add(&mut model, "a");
    model.mark_clean();
    let recorded = model.recorded();
    let out_of_bounds = UpdateError::Intent(LocalError::Invalid(InvalidChangeRequest::OutOfBounds));
    assert_eq!(model.update(Msg::Toggle { index: 1 }).unwrap_err(), out_of_bounds);
    assert_eq!(model.update(Msg::Remove { index: 1 }).unwrap_err(), out_of_bounds);
    model.update(Msg::Filter { filter: Filter::Completed }).unwrap();
    assert_eq!(model.update(Msg::Remove { index: 0 }).unwrap_err(), out_of_bounds);
    assert_eq!(tasks(&list(&model)), ["a"]);
    assert_eq!(model.recorded(), recorded);
    assert!(model.is_clean());
}

#[test]
fn messages_without_effect_on_the_list() {
    let mut model = Model::default().unwrap();
    add(&mut model, "a");
    let recorded = model.recorded();
    assert!(matches!(model.update(Msg::NoOp), Ok(UpdateAction::Nothing)));
    assert!(matches!(model.update(Msg::Exit), Ok(UpdateAction::Quit)));
    assert!(matches!(model.update(Msg::MenuAbout), Ok(UpdateAction::About)));
    assert!(matches!(model.update(Msg::PullComplete), Ok(UpdateAction::Render)));
    assert!(matches!(
        model.update(Msg::Filter { filter: Filter::Completed }),
        Ok(UpdateAction::Render)
    ));
    assert_eq!(model.current_filter(), Filter::Completed);
    assert_eq!(tasks(&list(&model)), ["a"]);
    assert_eq!(model.recorded(), recorded);
    // Clearing when nothing is done records nothing.
    assert!(matches!(model.update(Msg::ClearCompleted), Ok(UpdateAction::Render)));
    assert_eq!(model.recorded(), recorded);
}

#[test]
fn remotes_are_added_in_order_and_empty_ones_skipped() {
    let mut model = Model::default().unwrap();
    assert!(matches!(
        model.update(Msg::AddRemote { url: "http://one".to_string() }),
        Ok(UpdateAction::Render)
    ));
    assert!(matches!(
        model.update(Msg::AddRemote { url: String::new() }),
        Ok(UpdateAction::Render)
    ));
    model.update(Msg::AddRemote { url: "http://two".to_string() }).unwrap();
    let urls: Vec<String> = model.remotes().iter().map(|remote| remote.url().clone()).collect();
    assert_eq!(urls, ["http://one", "http://two"]);
    assert!(model.is_clean());
    assert_eq!(Remote::new("u".to_string()).clone().url(), "u");
}

#[test]
fn pull_and_push_name_the_peer() {
    let mut model = with_peer();
    add(&mut model, "a");
    match model.update(Msg::PullFromRemote { remote_index: 0 }).unwrap() {
        UpdateAction::Pull { url } => assert_eq!(url, "http://peer.example/doc"),
        other => panic!("unexpected action {:?}", other),
    }
    match model.update(Msg::PushToRemote { remote_index: 0 }).unwrap() {
        UpdateAction::Push { url, body } => {
            assert_eq!(url, "http://peer.example/doc");
            let mut replica = Store::new().unwrap();
            replica.receive(&body).unwrap();
            assert_eq!(tasks(replica.items_ref()), ["a"]);
            assert_eq!(replica.serialize().len() > 0, true);
        },
        other => panic!("unexpected action {:?}", other),
    }
    assert_eq!(
        model.update(Msg::PullFromRemote { remote_index: 1 }).unwrap_err(),
        UpdateError::NoSuchRemote
    );
    assert_eq!(
        model.update(Msg::PushToRemote { remote_index: 1 }).unwrap_err(),
        UpdateError::NoSuchRemote
    );
}

#[test]
fn a_failed_pull_leaves_the_model() {
    let mut model = Model::default().unwrap();
    add(&mut model, "a");
    let recorded = model.recorded();
    assert!(matches!(
        model.receive(&vec![9, 9, 9]),
        Err(SyncError::Decode(DecodeError::Malformed(_)))
    ));
    assert_eq!(tasks(&list(&model)), ["a"]);
    assert_eq!(model.recorded(), recorded);

    // A peer whose document is no todo list.
    let doc = automerge::Automerge::load(&todomvc::log::INITIAL_DOCUMENT).unwrap();
    let mut tx = doc.into_transaction(None, None).unwrap();
    automerge::transaction::Transactable::delete(&mut tx, automerge::ROOT, "todos").unwrap();
    let (doc, _, _) = tx.commit();
    assert_eq!(
        model.receive(&doc.save()).unwrap_err(),
        SyncError::Merge(MergeError::Malformed("No 'todos' key found".to_string()))
    );
    assert_eq!(tasks(&list(&model)), ["a"]);
    assert_eq!(model.recorded(), recorded);
}

#[test]
fn models_pull_from_one_another() {
    let mut x = Model::default().unwrap();
    let mut y = Model::default().unwrap();
    add(&mut x, "a");
    add(&mut y, "b");
    x.pull_from(&y).unwrap();
    y.pull_from(&x).unwrap();
    assert_eq!(tasks(&list(&x)), tasks(&list(&y)));
    assert_eq!(list(&x).len(), 2);
    assert_eq!(x.recorded(), y.recorded());
}

#[test]
fn pulling_the_same_history_twice_changes_nothing() {
    let mut x = with_peer();
    let mut y = with_peer();
    add(&mut y, "b");
    pull(&mut x, &mut y);
    let once = list(&x);
    let recorded = x.recorded();
    pull(&mut x, &mut y);
    assert_eq!(tasks(&list(&x)), tasks(&once));
    assert_eq!(x.recorded(), recorded);
}

#[test]
fn concurrent_edits_of_one_item_converge() {
    let mut x = with_peer();
    add(&mut x, "a");
    let mut y = with_peer();
    pull(&mut y, &mut x);
    x.update(Msg::Toggle { index: 0 }).unwrap();
    y.update(Msg::Add { item: "b".to_string() }).unwrap();
    pull(&mut x, &mut y);
    pull(&mut y, &mut x);
    assert_eq!(tasks(&list(&x)), ["a", "b"]);
    assert_eq!(marks(&list(&x)), [true, false]);
    assert_eq!(tasks(&list(&y)), ["a", "b"]);
    assert_eq!(marks(&list(&y)), [true, false]);
}

#[test]
fn replace_swaps_the_list_in_one_change() {
    let mut model = Model::default().unwrap();
    add(&mut model, "a");
    add(&mut model, "b");
    let recorded = model.recorded();
    let mut loaded = vec![
        Item::with_id("x", "10".to_string()),
        Item::with_id("y", "11".to_string()),
        Item::with_id("z", "12".to_string()),
    ];
    loaded[2].done = true;
    assert!(matches!(model.replace(&loaded), Ok(UpdateAction::Render)));
    let items = list(&model);
    assert_eq!(tasks(&items), ["x", "y", "z"]);
    assert_eq!(marks(&items), [false, false, true]);
    assert_eq!(items[1].id, "11");
    assert_eq!(model.recorded(), recorded + 1);
    model.mark_clean();
    assert!(model.is_clean());
}

#[test]
fn left_label_counts_active_items() {
    let mut model = Model::default().unwrap();
    add(&mut model, "a");
    assert_eq!(model.left_label(), "1 item left");
    add(&mut model, "b");
    assert_eq!(model.left_label(), "2 items left");
    model.update(Msg::Toggle { index: 0 }).unwrap();
    assert_eq!(model.left_label(), "1 item left");
    model.update(Msg::Filter { filter: Filter::Completed }).unwrap();
    assert_eq!(model.left_label(), "1 item left");
}

#[test]
fn window_title() {
    let mut model = Model::default().unwrap();
    assert_eq!(model.title(None), "TodoMVC - Untitled todo list");
    assert_eq!(model.title(Some("shopping.todo")), "TodoMVC - shopping.todo");
    add(&mut model, "a");
    assert_eq!(model.title(None), "TodoMVC - Untitled todo list *");
    assert_eq!(model.title(Some("shopping.todo")), "TodoMVC - shopping.todo *");
}

#[test]
fn store_commit_and_merge() {
    let mut store = Store::new().unwrap();
    let item = Item::with_id("a", "1".to_string());
    let ops = todomvc::intents::add_ops(store.items_ref(), &item).unwrap();
    assert_eq!(store.commit(Some("Add item".to_string()), ops), Ok(true));
    assert_eq!(store.commit(None, Vec::new()), Ok(false));
    assert_eq!(store.recorded(), 2);
    assert_eq!(tasks(&store.filtered(Filter::Active)), ["a"]);

    let mut other = Store::new().unwrap();
    let batch = todomvc::log::ChangeLog::decode(&store.serialize()).unwrap();
    other.merge(&batch).unwrap();
    assert_eq!(tasks(other.items_ref()), ["a"]);
    assert_eq!(other.recorded(), 2);
}
