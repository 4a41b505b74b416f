//! The change log: the authoritative, append-only history of the list.

use vstd::prelude::*;
use vstd::set_lib::{lemma_len_subset, lemma_subset_equality};
use crate::backend;
use crate::backend::{change_id, change_label, loaded, materialized, readable};
use crate::error::{DecodeError, LocalError, MergeError, SyncError};
use crate::history::{
    copy_text, encodings, ids, merged, same_bytes, same_text, seen_before, text_of, Change,
};
use crate::items::{copy_items, item_of, items_of, same_items, views, Item, ItemView, Items};
use crate::ops::{
    apply_ops, op_views, path_of, stage_all, InvalidChangeRequest, LocalChange, LocalChangeView,
};
use crate::path::{Step, StepView};
use crate::value::{DocValue, ValueView};
use crate::view::Patch;

verus! {

/// The list that a history stands for: the projection of what it
/// materializes to, and the empty list where that is no todo list.
pub open spec fn projected(history: Set<Seq<u8>>) -> Seq<ItemView> {
    match items_of(materialized(history)) {
        Ok(items) => items,
        Err(_) => Seq::empty(),
    }
}

/// The history materializes to a todo list.
pub open spec fn is_list(history: Set<Seq<u8>>) -> bool {
    items_of(materialized(history)) is Ok
}

/// The identities of the changes with these encodings.
pub open spec fn hashes(list: Seq<Seq<u8>>) -> Set<Seq<u8>> {
    Set::new(
        |id: Seq<u8>|
            exists|i: int| 0 <= i < list.len() && change_id(#[trigger] list[i]) == Some(id),
    )
}

/// No two of the encodings are of one change.
pub open spec fn distinct(list: Seq<Seq<u8>>) -> bool {
    forall|i: int, j: int|
        0 <= i < j < list.len() ==> change_id(#[trigger] list[i]) != change_id(#[trigger] list[j])
}

/// The list holds every change of the history, each once, and no other.
pub open spec fn faithful(list: Seq<Seq<u8>>, history: Set<Seq<u8>>) -> bool {
    distinct(list) && hashes(list) == history
}

/// The bytes load, and the document that they load to lists its history
/// faithfully.
pub open spec fn decodes(bytes: Seq<u8>) -> bool {
    loaded(bytes) matches Some(history) && faithful(crate::backend::listing(bytes), history)
}

/// The changes that a document lists, where it lists its history
/// faithfully: every listed change is looked up under its identity, no
/// identity may come twice, and the count has to be that of the history.
fn listing_of(doc: &automerge::Automerge) -> (out: Option<Vec<Change>>)
    requires
        backend::history(*doc).finite(),
    ensures
        match out {
            Some(all) => {
                &&& encodings(all@) == backend::listed(*doc)
                &&& ids(all@) == backend::history(*doc)
                &&& forall|i: int| 0 <= i < all@.len() ==> (#[trigger] all@[i]).wf()
                &&& faithful(backend::listed(*doc), backend::history(*doc))
            },
            None => !faithful(backend::listed(*doc), backend::history(*doc)),
        },
{
    let all = backend::changes(doc);
    let ghost list = encodings(all@);
    let ghost history = backend::history(*doc);
    let ghost mut seen = Set::<Seq<u8>>::empty();
    let mut i: usize = 0;
    proof {
        assert(ids(all@.take(0)) =~= Set::<Seq<u8>>::empty());
    }
    while i < all.len()
        invariant
            0 <= i <= all.len(),
            list == encodings(all@),
            list == backend::listed(*doc),
            history == backend::history(*doc),
            history.finite(),
            forall|k: int| 0 <= k < all@.len() ==> (#[trigger] all@[k]).wf(),
            seen == ids(all@.take(i as int)),
            seen.finite(),
            seen.len() == i,
            seen.subset_of(history),
            forall|a: int, b: int|
                0 <= a < b < i ==> (#[trigger] all@[a]).id() != (#[trigger] all@[b]).id(),
        decreases all.len() - i,
    {
        let id = all[i].hash();
        proof {
            assert(list[i as int] == all@[i as int].encoding());
            assert(change_id(list[i as int]) == Some(id@));
        }
        if backend::change_by_hash(doc, id).is_none() {
            proof {
                assert(hashes(list).contains(id@));
            }
            return None;
        }
        if seen_before(&all, i) {
            proof {
                let j = choose|j: int|
                    0 <= j < all@.take(i as int).len() && (#[trigger] all@.take(i as int)[j]).id()
                        == id@;
                assert(all@.take(i as int)[j] == all@[j]);
                assert(list[j] == all@[j].encoding());
                assert(change_id(list[j]) == change_id(list[i as int]));
            }
            return None;
        }
        proof {
            let grown = ids(all@.take(i + 1));
            assert(grown =~= seen.insert(id@)) by {
                assert forall|h: Seq<u8>| grown.contains(h) <==> seen.insert(id@).contains(h) by {
                    if grown.contains(h) {
                        let j = choose|j: int|
                            0 <= j < all@.take(i + 1).len() && (#[trigger] all@.take(i + 1)[j]).id()
                                == h;
                        if j < i {
                            assert(all@.take(i as int)[j].id() == h);
                        }
                    }
                    if seen.contains(h) {
                        let j = choose|j: int|
                            0 <= j < all@.take(i as int).len() && (#[trigger] all@.take(
                                i as int,
                            )[j]).id() == h;
                        assert(all@.take(i + 1)[j].id() == h);
                    }
                    if h == id@ {
                        assert(all@.take(i + 1)[i as int].id() == h);
                    }
                }
            }
            assert forall|a: int| 0 <= a < i implies (#[trigger] all@[a]).id() != id@ by {
                if all@[a].id() == id@ {
                    assert(all@.take(i as int)[a].id() == id@);
                }
            }
            seen = seen.insert(id@);
        }
        i += 1;
    }
    proof {
        assert(all@.take(all@.len() as int) =~= all@);
        assert(hashes(list) =~= ids(all@)) by {
            assert forall|h: Seq<u8>| hashes(list).contains(h) <==> ids(all@).contains(h) by {
                if hashes(list).contains(h) {
                    let k = choose|k: int|
                        0 <= k < list.len() && change_id(#[trigger] list[k]) == Some(h);
                    assert(all@[k].id() == h);
                }
                if ids(all@).contains(h) {
                    let k = choose|k: int| 0 <= k < all@.len() && (#[trigger] all@[k]).id() == h;
                    assert(change_id(list[k]) == Some(h));
                }
            }
        }
        assert(distinct(list)) by {
            assert forall|a: int, b: int| 0 <= a < b < list.len() implies change_id(
                #[trigger] list[a],
            ) != change_id(#[trigger] list[b]) by {
                assert(list[a] == all@[a].encoding());
                assert(list[b] == all@[b].encoding());
                assert(all@[a].id() != all@[b].id());
            }
        }
    }
    if backend::recorded(doc) != all.len() {
        return None;
    }
    proof {
        lemma_subset_equality(seen, history);
    }
    Some(all)
}

/// The encoding of the document that every replica starts from. Its one
/// change creates the empty `todos` sequence, so that all replicas insert
/// into the same one.
pub const INITIAL_DOCUMENT: [u8; 140] = [
    133, 111, 74, 131, 231, 83, 195, 39, 0, 129, 1, 1, 16, 0, 0, 0, 0, 0, 0, 0, 0, 0, 0, 0, 0, 0,
    0, 0, 0, 1, 206, 125, 155, 217, 12, 40, 162, 232, 90, 138, 247, 70, 166, 89, 210, 206, 213,
    220, 206, 58, 121, 90, 113, 65, 63, 242, 51, 17, 84, 223, 14, 203, 7, 1, 2, 3, 2, 19, 2, 35, 2,
    53, 16, 64, 2, 86, 2, 7, 21, 7, 33, 2, 35, 2, 52, 1, 66, 2, 86, 2, 128, 1, 2, 127, 0, 127, 1,
    127, 1, 127, 0, 127, 14, 73, 110, 105, 116, 105, 97, 108, 105, 122, 97, 116, 105, 111, 110,
    127, 0, 127, 7, 127, 5, 116, 111, 100, 111, 115, 127, 0, 127, 1, 1, 127, 2, 127, 0, 127, 0, 0,
];

/// The initial document's encoding as a vector.
pub fn initial_document() -> (bytes: Vec<u8>)
    ensures
        bytes@ == INITIAL_DOCUMENT@,
{
    let mut bytes: Vec<u8> = Vec::new();
    let mut i: usize = 0;
    while i < 140
        invariant
            0 <= i <= 140,
            bytes@ == INITIAL_DOCUMENT@.take(i as int),
        decreases 140 - i,
    {
        bytes.push(INITIAL_DOCUMENT[i]);
        proof {
            assert(INITIAL_DOCUMENT@.take(i + 1) =~= INITIAL_DOCUMENT@.take(i as int).push(
                INITIAL_DOCUMENT@[i as int],
            ));
        }
        i += 1;
    }
    proof {
        assert(INITIAL_DOCUMENT@.take(140) =~= INITIAL_DOCUMENT@);
    }
    bytes
}

/// Checks what the document store holds after a local change against the
/// list that the operations describe.
pub fn confirm(predicted: Vec<Item>, state: &DocValue) -> (out: Result<Vec<Item>, LocalError>)
    ensures
        match out {
            Ok(items) => items@ == predicted@ && items_of(state@) == Ok::<
                Seq<ItemView>,
                Seq<char>,
            >(views(predicted@)),
            Err(reason) => reason == LocalError::Diverged && items_of(state@) != Ok::<
                Seq<ItemView>,
                Seq<char>,
            >(views(predicted@)),
        },
{
    match Items::try_from(state) {
        Ok(read) => if same_items(read.as_vec(), &predicted) {
            Ok(predicted)
        } else {
            Err(LocalError::Diverged)
        },
        Err(_) => Err(LocalError::Diverged),
    }
}

/// Why an operation is not handed to the store at all: its path is empty;
/// or it inserts at what is no position, or what is no item record; or it
/// overwrites with a value that is neither a string nor a boolean.
pub open spec fn unfit(op: LocalChangeView) -> Option<Seq<char>> {
    if path_of(op).len() == 0 {
        Some("the path is empty"@)
    } else {
        match op {
            LocalChangeView::Insert { path, value } => if !(path.last() is Index) {
                Some("the place to insert at is no position"@)
            } else if item_of(value) is Err {
                Some("the value is no item record"@)
            } else {
                None
            },
            LocalChangeView::Delete { .. } => None,
            LocalChangeView::Assign { value, .. } => if !(value is Str || value is Bool) {
                Some("the value is no string and no boolean"@)
            } else {
                None
            },
        }
    }
}

/// The object that the steps lead to from the root (`Some(None)` for the
/// root itself), or `None` where a step finds nothing.
pub open spec fn reached(
    tx: automerge::transaction::OwnedTransaction,
    steps: Seq<StepView>,
) -> Option<Option<automerge::ObjId>>
    decreases steps.len(),
{
    if steps.len() == 0 {
        Some(None)
    } else {
        match reached(tx, steps.drop_last()) {
            Some(obj) => match backend::found(tx, obj, steps.last()) {
                Some(next) => Some(Some(next)),
                None => None,
            },
            None => None,
        }
    }
}

/// The transaction after an item's record has been staged at position
/// `index` of `obj`: a new map there, then its `value`, its `completed` and
/// its `id`, in this order; `None` where the store refuses one of the four.
pub open spec fn filled(
    tx: automerge::transaction::OwnedTransaction,
    obj: Option<automerge::ObjId>,
    index: nat,
    item: ItemView,
) -> Option<automerge::transaction::OwnedTransaction> {
    match backend::inserted(tx, obj, index) {
        None => None,
        Some((made, record)) => match backend::overwritten(
            made,
            Some(record),
            StepView::Key("value"@),
            ValueView::Str(item.task),
        ) {
            None => None,
            Some(named) => match backend::overwritten(
                named,
                Some(record),
                StepView::Key("completed"@),
                ValueView::Bool(item.done),
            ) {
                None => None,
                Some(marked) => backend::overwritten(
                    marked,
                    Some(record),
                    StepView::Key("id"@),
                    ValueView::Str(item.id),
                ),
            },
        },
    }
}

/// The transaction after one operation has been staged: the object that
/// all but the last step of the path lead to is found, and at the last step
/// the item is filled in, the value overwritten, or what is there deleted.
/// `None` where the operation is unfit or the store refuses.
pub open spec fn staged_one(
    tx: automerge::transaction::OwnedTransaction,
    op: LocalChangeView,
) -> Option<automerge::transaction::OwnedTransaction> {
    if unfit(op) is Some {
        None
    } else {
        match reached(tx, path_of(op).drop_last()) {
            None => None,
            Some(obj) => match op {
                LocalChangeView::Insert { path, value } => filled(
                    tx,
                    obj,
                    path.last()->Index_0,
                    item_of(value)->Ok_0,
                ),
                LocalChangeView::Delete { path } => backend::removed(tx, obj, path.last()),
                LocalChangeView::Assign { path, value } => backend::overwritten(
                    tx,
                    obj,
                    path.last(),
                    value,
                ),
            },
        }
    }
}

/// The transaction after the operations have been staged in order, each on
/// what the one before it left; `None` where one of them is not staged.
pub open spec fn staged_all(
    tx: automerge::transaction::OwnedTransaction,
    ops: Seq<LocalChangeView>,
) -> Option<automerge::transaction::OwnedTransaction>
    decreases ops.len(),
{
    if ops.len() == 0 {
        Some(tx)
    } else {
        match staged_all(tx, ops.drop_last()) {
            Some(before) => staged_one(before, ops.last()),
            None => None,
        }
    }
}

/// Where a step finds nothing, no longer path leads anywhere.
proof fn lemma_reached_stops(
    tx: automerge::transaction::OwnedTransaction,
    steps: Seq<StepView>,
    upto: int,
)
    requires
        0 <= upto <= steps.len(),
        reached(tx, steps.take(upto)) is None,
    ensures
        reached(tx, steps) is None,
    decreases steps.len() - upto,
{
    if upto < steps.len() {
        assert(steps.take(upto + 1).drop_last() =~= steps.take(upto));
        lemma_reached_stops(tx, steps, upto + 1);
    } else {
        assert(steps.take(upto) =~= steps);
    }
}

/// Once an operation is not staged, the batch is not.
proof fn lemma_staged_stops(
    tx: automerge::transaction::OwnedTransaction,
    ops: Seq<LocalChangeView>,
    upto: int,
)
    requires
        0 <= upto <= ops.len(),
        staged_all(tx, ops.take(upto)) is None,
    ensures
        staged_all(tx, ops) is None,
    decreases ops.len() - upto,
{
    if upto < ops.len() {
        assert(ops.take(upto + 1).drop_last() =~= ops.take(upto));
        lemma_staged_stops(tx, ops, upto + 1);
    } else {
        assert(ops.take(upto) =~= ops);
    }
}

/// Whether an operation can be handed to the store, and if not, why.
fn fits(op: &LocalChange) -> (out: Result<(), String>)
    ensures
        match unfit(op@) {
            Some(text) => out matches Err(reason) && reason@ == text,
            None => out is Ok,
        },
{
    let path = op.path();
    if path.len() == 0 {
        return Err(String::from_str("the path is empty"));
    }
    match op {
        LocalChange::Insert { value, .. } => {
            match path.step(path.len() - 1) {
                Step::Index(_) => {},
                _ => {
                    return Err(String::from_str("the place to insert at is no position"));
                },
            }
            match Item::try_from(value) {
                Ok(_) => Ok(()),
                Err(_) => Err(String::from_str("the value is no item record")),
            }
        },
        LocalChange::Delete { .. } => Ok(()),
        LocalChange::Assign { value, .. } => match value {
            DocValue::Str(_) | DocValue::Bool(_) => Ok(()),
            _ => Err(String::from_str("the value is no string and no boolean")),
        },
    }
}

/// Stages the record of an item at position `index` of `obj`.
fn fill(
    tx: &mut automerge::transaction::OwnedTransaction,
    obj: &Option<automerge::ObjId>,
    index: u32,
    item: &Item,
) -> (staged: Result<(), String>)
    ensures
        backend::base(*final(tx)) == backend::base(*old(tx)),
        match staged {
            Ok(()) => filled(*old(tx), *obj, index as nat, item@) == Some(*final(tx)),
            Err(_) => filled(*old(tx), *obj, index as nat, item@) is None,
        },
{
    let record = match backend::insert_map(tx, obj, index) {
        Ok(record) => Some(record),
        Err(reason) => {
            return Err(reason.to_string());
        },
    };
    let task = DocValue::Str(item.task.clone());
    match backend::put(tx, &record, &Step::Key(String::from_str("value")), &task) {
        Ok(()) => {},
        Err(reason) => {
            return Err(reason.to_string());
        },
    }
    let done = DocValue::Bool(item.done);
    match backend::put(tx, &record, &Step::Key(String::from_str("completed")), &done) {
        Ok(()) => {},
        Err(reason) => {
            return Err(reason.to_string());
        },
    }
    let id = DocValue::Str(item.id.clone());
    match backend::put(tx, &record, &Step::Key(String::from_str("id")), &id) {
        Ok(()) => Ok(()),
        Err(reason) => Err(reason.to_string()),
    }
}

/// Stages one operation on the transaction: resolves the path, then fills
/// in, overwrites or deletes at its last step. An unfit operation is refused
/// before the store sees it; the store's own refusals come with its reason.
fn execute_one(tx: &mut automerge::transaction::OwnedTransaction, op: &LocalChange) -> (staged:
    Result<(), String>)
    ensures
        backend::base(*final(tx)) == backend::base(*old(tx)),
        unfit(op@) matches Some(text) ==> staged matches Err(reason) && reason@ == text,
        match staged {
            Ok(()) => staged_one(*old(tx), op@) == Some(*final(tx)),
            Err(_) => staged_one(*old(tx), op@) is None,
        },
{
    match fits(op) {
        Ok(()) => {},
        Err(reason) => {
            return Err(reason);
        },
    }
    let path = op.path();
    let steps = path.len();
    let mut obj: Option<automerge::ObjId> = None;
    let mut k: usize = 0;
    proof {
        assert(path@.take(0) =~= Seq::<StepView>::empty());
    }
    while k + 1 < steps
        invariant
            0 <= k < steps,
            steps == path@.len(),
            path@ == path_of(op@),
            unfit(op@) is None,
            *tx == *old(tx),
            reached(*tx, path@.take(k as int)) == Some(obj),
        decreases steps - k,
    {
        proof {
            assert(path@.take(k + 1).drop_last() =~= path@.take(k as int));
            assert(path@.take(k + 1).last() == path@[k as int]);
        }
        match backend::child(tx, &obj, path.step(k)) {
            Ok(Some(next)) => {
                obj = Some(next);
            },
            Ok(None) => {
                proof {
                    assert(path@.drop_last().take(k + 1) =~= path@.take(k + 1));
                    lemma_reached_stops(*tx, path@.drop_last(), k + 1);
                }
                return Err(String::from_str("the path leads nowhere"));
            },
            Err(reason) => {
                proof {
                    assert(path@.drop_last().take(k + 1) =~= path@.take(k + 1));
                    lemma_reached_stops(*tx, path@.drop_last(), k + 1);
                }
                return Err(reason.to_string());
            },
        }
        k += 1;
    }
    proof {
        assert(path@.drop_last() =~= path@.take(steps - 1));
    }
    let last = path.step(steps - 1);
    match op {
        LocalChange::Insert { value, .. } => {
            let item = match Item::try_from(value) {
                Ok(item) => item,
                Err(reason) => {
                    return Err(reason);
                },
            };
            match last {
                Step::Index(index) => fill(tx, &obj, *index, &item),
                Step::Key(_) => Err(String::from_str("the place to insert at is no position")),
            }
        },
        LocalChange::Delete { .. } => match backend::delete(tx, &obj, last) {
            Ok(()) => Ok(()),
            Err(reason) => Err(reason.to_string()),
        },
        LocalChange::Assign { value, .. } => match backend::put(tx, &obj, last, value) {
            Ok(()) => Ok(()),
            Err(reason) => Err(reason.to_string()),
        },
    }
}

/// Stages the operations in order; stops at the first that is refused.
fn execute(tx: &mut automerge::transaction::OwnedTransaction, ops: &Vec<LocalChange>) -> (staged:
    Result<(), String>)
    ensures
        backend::base(*final(tx)) == backend::base(*old(tx)),
        match staged {
            Ok(()) => staged_all(*old(tx), op_views(ops@)) == Some(*final(tx)),
            Err(_) => staged_all(*old(tx), op_views(ops@)) is None,
        },
{
    let mut i: usize = 0;
    proof {
        assert(op_views(ops@).take(0) =~= Seq::<LocalChangeView>::empty());
    }
    while i < ops.len()
        invariant
            0 <= i <= ops.len(),
            backend::base(*tx) == backend::base(*old(tx)),
            staged_all(*old(tx), op_views(ops@).take(i as int)) == Some(*tx),
        decreases ops.len() - i,
    {
        proof {
            assert(op_views(ops@).take(i + 1).drop_last() =~= op_views(ops@).take(i as int));
            assert(op_views(ops@).take(i + 1).last() == ops@[i as int]@);
        }
        match execute_one(tx, &ops[i]) {
            Ok(()) => {},
            Err(reason) => {
                proof {
                    lemma_staged_stops(*old(tx), op_views(ops@), i + 1);
                }
                return Err(reason);
            },
        }
        i += 1;
    }
    proof {
        assert(op_views(ops@).take(ops@.len() as int) =~= op_views(ops@));
    }
    Ok(())
}

/// A log whose store holds the list `items` holds it itself.
spec fn same_list(log: &ChangeLog, items: Seq<Item>) -> bool {
    views(items) == log.items()
}

/// The authoritative store of the list: an append-only history of changes
/// and the list that it stands for.
pub struct ChangeLog {
    doc: automerge::Automerge,
    items: Vec<Item>,
}

impl ChangeLog {
    /// The identities of the recorded changes.
    pub closed spec fn history(&self) -> Set<Seq<u8>> {
        backend::history(self.doc)
    }

    /// The list as the log holds it.
    pub closed spec fn items(&self) -> Seq<ItemView> {
        views(self.items@)
    }

    /// The log holds the projection of its history, and is a todo list
    /// unless nothing has been recorded yet.
    pub open spec fn wf(&self) -> bool {
        &&& self.history().finite()
        &&& self.items() == projected(self.history())
        &&& is_list(self.history()) || self.history() == Set::<Seq<u8>>::empty()
    }

    /// Takes a document over, where it is a todo list.
    fn adopt(doc: automerge::Automerge) -> (out: Result<ChangeLog, String>)
        requires
            backend::history(doc).finite(),
        ensures
            match out {
                Ok(log) => log.wf() && log.history() == backend::history(doc) && is_list(
                    log.history(),
                ),
                Err(reason) => items_of(materialized(backend::history(doc))) == Err::<
                    Seq<ItemView>,
                    Seq<char>,
                >(reason@),
            },
    {
        let value = backend::hydrate(&doc);
        let state = backend::plain(&value);
        match Items::try_from(&state) {
            Ok(items) => Ok(ChangeLog { doc, items: items.into_vec() }),
            Err(reason) => Err(reason),
        }
    }

    /// A log that has recorded nothing, not even the change that creates
    /// the list; it holds no item.
    pub fn empty() -> (log: ChangeLog)
        ensures
            log.wf(),
            log.history() == Set::<Seq<u8>>::empty(),
            log.items() == Seq::<ItemView>::empty(),
    {
        let log = ChangeLog { doc: backend::new_document(), items: Vec::new() };
        assert(log.items() =~= Seq::<ItemView>::empty());
        log
    }

    /// A log that starts from an encoded document, which has to be one
    /// that holds the todo list, empty.
    ///
    /// It fails where the document does not decode (`Malformed`) and where
    /// it is not the empty list (`Unexpected`).
    pub fn starting_from(bytes: &Vec<u8>) -> (out: Result<ChangeLog, DecodeError>)
        requires
            readable(bytes@),
        ensures
            match out {
                Ok(log) => {
                    &&& log.wf()
                    &&& is_list(log.history())
                    &&& log.items() == Seq::<ItemView>::empty()
                    &&& loaded(bytes@) == Some(log.history())
                },
                Err(DecodeError::Malformed(_)) => loaded(bytes@) is None,
                Err(DecodeError::Unexpected) => loaded(bytes@) matches Some(history) && items_of(
                    materialized(history),
                ) != Ok::<Seq<ItemView>, Seq<char>>(Seq::empty()),
            },
    {
        let doc = match backend::load(bytes) {
            Ok(doc) => doc,
            Err(reason) => {
                return Err(DecodeError::Malformed(reason.to_string()));
            },
        };
        match ChangeLog::adopt(doc) {
            Ok(log) => if log.items.len() == 0 {
                assert(log.items() =~= Seq::<ItemView>::empty());
                Ok(log)
            } else {
                assert(log.items().len() != 0);
                Err(DecodeError::Unexpected)
            },
            Err(_) => Err(DecodeError::Unexpected),
        }
    }

    /// The log that every replica starts from: it has recorded the initial
    /// change and holds the empty list.
    pub fn new() -> (out: Result<ChangeLog, DecodeError>)
        ensures
            match out {
                Ok(log) => {
                    &&& log.wf()
                    &&& is_list(log.history())
                    &&& log.items() == Seq::<ItemView>::empty()
                    &&& loaded(INITIAL_DOCUMENT@) == Some(log.history())
                },
                Err(DecodeError::Malformed(_)) => loaded(INITIAL_DOCUMENT@) is None,
                Err(DecodeError::Unexpected) => loaded(INITIAL_DOCUMENT@) matches Some(history)
                    && items_of(materialized(history)) != Ok::<Seq<ItemView>, Seq<char>>(
                    Seq::empty(),
                ),
            },
    {
        let bytes = initial_document();
        ChangeLog::starting_from(&bytes)
    }

    /// The store takes every one of the operations, staged in order on a
    /// transaction begun on the log's document.
    pub closed spec fn stages(&self, ops: Seq<LocalChangeView>) -> bool {
        staged_all(backend::begun(self.doc), ops) is Some
    }

    /// The document that the store hands back when the staged operations
    /// are committed under `label`.
    pub closed spec fn outcome(
        &self,
        label: Option<Seq<char>>,
        ops: Seq<LocalChangeView>,
    ) -> automerge::Automerge {
        backend::committed(staged_all(backend::begun(self.doc), ops)->Some_0, label)
    }

    /// The store has recorded something for the operations: its history
    /// after the commit is another than before.
    pub closed spec fn records(&self, label: Option<Seq<char>>, ops: Seq<LocalChangeView>) -> bool {
        self.stages(ops) && backend::history(self.outcome(label, ops)) != self.history()
    }

    /// The change with the identity `id` is what the store has recorded for
    /// the operations: it is the one change that is new, and the store hands
    /// it out under that identity and with the label.
    pub closed spec fn names(
        &self,
        label: Option<Seq<char>>,
        ops: Seq<LocalChangeView>,
        id: Seq<u8>,
    ) -> bool {
        &&& !self.history().contains(id)
        &&& backend::history(self.outcome(label, ops)) == self.history().insert(id)
        &&& backend::lookup(self.outcome(label, ops), id) matches Some(encoding)
        &&& change_id(encoding) == Some(id)
        &&& change_label(encoding) == label
    }

    /// The store takes the operations, what it holds after the commit is
    /// the list that they describe, and where it has recorded something,
    /// that is one new change which it hands out under the label.
    pub closed spec fn takes(&self, label: Option<Seq<char>>, ops: Seq<LocalChangeView>) -> bool {
        &&& self.stages(ops)
        &&& apply_ops(self.items(), ops) matches Ok(after)
        &&& items_of(materialized(backend::history(self.outcome(label, ops)))) == Ok::<
            Seq<ItemView>,
            Seq<char>,
        >(after)
        &&& self.records(label, ops) ==> exists|id: Seq<u8>| self.names(label, ops, id)
    }

    /// The encoding that `serialize` returns for the log.
    pub closed spec fn encoding(&self) -> Seq<u8> {
        backend::encoded(self.doc)
    }

    /// The log's document lists its history faithfully.
    pub closed spec fn lists_itself(&self) -> bool {
        faithful(backend::listed(self.doc), self.history())
    }

    /// The store refuses the batch.
    pub closed spec fn refuses(&self, batch: Seq<Change>) -> bool {
        backend::merge_outcome(self.doc, encodings(batch)) is None
    }

    /// The store accepts the batch and then has recorded exactly the
    /// changes of the log and of the batch: none of the batch is left
    /// waiting for a change that is missing.
    pub closed spec fn admits(&self, batch: Seq<Change>) -> bool {
        backend::merge_outcome(self.doc, encodings(batch)) == Some(
            merged(self.history(), ids(batch)),
        )
    }

    /// The bytes decode to a history that the store admits, and merged
    /// with it the log is still a todo list.
    pub closed spec fn welcomes(&self, bytes: Seq<u8>) -> bool {
        &&& decodes(bytes)
        &&& loaded(bytes) matches Some(theirs)
        &&& backend::merge_outcome(self.doc, backend::listing(bytes)) == Some(
            merged(self.history(), theirs),
        )
        &&& is_list(merged(self.history(), theirs))
    }

    /// An admitted batch is not a refused one.
    pub proof fn lemma_admits_or_refuses(&self, batch: Seq<Change>)
        ensures
            !(self.admits(batch) && self.refuses(batch)),
    {
    }

    /// What is taken has been staged.
    pub proof fn lemma_takes_stages(&self, label: Option<Seq<char>>, ops: Seq<LocalChangeView>)
        ensures
            self.takes(label, ops) ==> self.stages(ops),
    {
    }

    /// The list, in order.
    pub fn snapshot(&self) -> (items: Items)
        ensures
            items@ == self.items(),
    {
        Items::from_vec(copy_items(&self.items))
    }

    /// How many changes have been recorded.
    pub fn len(&self) -> (count: usize)
        ensures
            count == self.history().len(),
    {
        backend::recorded(&self.doc)
    }

    /// Whether the change with this identity has been recorded.
    pub fn contains(&self, id: &Vec<u8>) -> (found: bool)
        ensures
            found == self.history().contains(id@),
    {
        backend::change_by_hash(&self.doc, id).is_some()
    }

    /// Every recorded change, as the store lists them; `None` where what
    /// it lists is not its history, each change once.
    pub fn changes(&self) -> (out: Option<Vec<Change>>)
        requires
            self.wf(),
        ensures
            out is Some <==> self.lists_itself(),
            out matches Some(all) ==> {
                &&& ids(all@) == self.history()
                &&& forall|i: int| 0 <= i < all@.len() ==> (#[trigger] all@[i]).wf()
            },
    {
        listing_of(&self.doc)
    }

    /// Records one local intent: the operations, applied in order, as one
    /// change under `label`.
    ///
    /// Operations that cannot be applied to the list as it stands are not
    /// handed to the store at all. With no operations nothing is staged and
    /// nothing recorded. Otherwise the operations are staged on the store:
    /// where it refuses one the answer is `Refused`; where it takes them but
    /// does not end up with the list that they describe, or does not hand
    /// out what it recorded under its identity and label, `Diverged`. What
    /// the store then has recorded is returned: one new change, or nothing
    /// where the store found nothing to record. Whenever anything goes wrong
    /// the log is left exactly as it was.
    pub fn apply_local(&mut self, label: Option<String>, ops: Vec<LocalChange>) -> (out: Result<
        Option<(Change, Patch)>,
        LocalError,
    >)
        requires
            old(self).wf(),
        ensures
            final(self).wf(),
            match apply_ops(old(self).items(), op_views(ops@)) {
                Err(reason) => out matches Err(LocalError::Invalid(given)) && given == reason,
                Ok(_) => if ops@.len() == 0 {
                    out matches Ok(None)
                } else if !old(self).stages(op_views(ops@)) {
                    out matches Err(LocalError::Refused(_))
                } else if !old(self).takes(text_of(label), op_views(ops@)) {
                    out matches Err(LocalError::Diverged)
                } else if old(self).records(text_of(label), op_views(ops@)) {
                    out matches Ok(Some(_))
                } else {
                    out matches Ok(None)
                },
            },
            match out {
                Ok(Some((change, patch))) => {
                    &&& apply_ops(old(self).items(), op_views(ops@)) == Ok::<
                        Seq<ItemView>,
                        InvalidChangeRequest,
                    >(final(self).items())
                    &&& !old(self).history().contains(change.id())
                    &&& final(self).history() == old(self).history().insert(change.id())
                    &&& is_list(final(self).history())
                    &&& change.wf()
                    &&& change.label_view() == text_of(label)
                    &&& patch.applied_to(old(self).items()) == Ok::<
                        Seq<ItemView>,
                        InvalidChangeRequest,
                    >(final(self).items())
                },
                Ok(None) => {
                    &&& apply_ops(old(self).items(), op_views(ops@)) == Ok::<
                        Seq<ItemView>,
                        InvalidChangeRequest,
                    >(old(self).items())
                    &&& final(self).history() == old(self).history()
                    &&& final(self).items() == old(self).items()
                },
                Err(_) => {
                    &&& final(self).history() == old(self).history()
                    &&& final(self).items() == old(self).items()
                },
            },
    {
        let predicted = match stage_all(&self.items, &ops) {
            Ok(predicted) => predicted,
            Err(reason) => {
                return Err(LocalError::Invalid(reason));
            },
        };
        if ops.len() == 0 {
            assert(op_views(ops@) =~= Seq::<LocalChangeView>::empty());
            return Ok(None);
        }
        let staged = backend::copy_document(&self.doc);
        let mut tx = match backend::begin(staged) {
            Ok(tx) => tx,
            Err(reason) => {
                return Err(LocalError::Refused(reason.to_string()));
            },
        };
        match execute(&mut tx, &ops) {
            Ok(()) => {},
            Err(reason) => {
                return Err(LocalError::Refused(reason));
            },
        }
        let ghost said = text_of(label);
        let ghost plan = op_views(ops@);
        assert(staged_all(backend::begun(self.doc), plan) == Some(tx));
        let (doc, recorded) = backend::commit(tx, copy_text(&label));
        assert(doc == self.outcome(said, plan));
        let value = backend::hydrate(&doc);
        let state = backend::plain(&value);
        let items = match confirm(predicted, &state) {
            Ok(items) => items,
            Err(reason) => {
                return Err(reason);
            },
        };
        let id = match recorded {
            Some(id) => id,
            None => {
                proof {
                    assert(same_list(self, items@));
                }
                return Ok(None);
            },
        };
        if backend::change_by_hash(&self.doc, &id).is_some() {
            proof {
                assert(self.history().insert(id@) =~= self.history());
                assert(same_list(self, items@));
            }
            return Ok(None);
        }
        proof {
            assert(backend::history(doc).contains(id@));
            assert(self.records(said, plan));
            assert forall|other: Seq<u8>| self.names(said, plan, other) implies other == id@ by {
                assert(self.history().insert(other).contains(other));
            }
        }
        let change = match backend::change_by_hash(&doc, &id) {
            Some(change) => change,
            None => {
                return Err(LocalError::Diverged);
            },
        };
        if !same_bytes(change.hash(), &id) || !same_text(change.label(), &label) {
            return Err(LocalError::Diverged);
        }
        proof {
            assert(self.names(said, plan, id@));
        }
        self.doc = doc;
        self.items = items;
        Ok(Some((change, Patch::Edits(ops))))
    }

    /// Merges a batch of changes into the history. Changes that are already
    /// recorded, and repetitions within the batch, count once.
    ///
    /// The batch is merged as a whole or not at all. It is merged exactly
    /// where the store admits it and the merged document is a todo list.
    /// Where the store refuses it the answer is `Refused`; where a change of
    /// it is left waiting for one that is missing, `Incomplete`; where the
    /// merged document would be no todo list, `Malformed` with the reason.
    /// On every error the log is left exactly as it was.
    pub fn apply_changes(&mut self, batch: &Vec<Change>) -> (out: Result<Patch, MergeError>)
        requires
            old(self).wf(),
        ensures
            final(self).wf(),
            out is Ok <==> old(self).admits(batch@) && is_list(
                merged(old(self).history(), ids(batch@)),
            ),
            out matches Err(MergeError::Refused(_)) <==> old(self).refuses(batch@),
            out matches Err(MergeError::Incomplete) <==> !old(self).refuses(batch@) && !old(
                self,
            ).admits(batch@),
            match out {
                Ok(patch) => {
                    &&& final(self).history() == merged(old(self).history(), ids(batch@))
                    &&& is_list(final(self).history())
                    &&& patch.applied_to(old(self).items()) == Ok::<
                        Seq<ItemView>,
                        InvalidChangeRequest,
                    >(final(self).items())
                },
                Err(reason) => {
                    &&& final(self).history() == old(self).history()
                    &&& final(self).items() == old(self).items()
                    &&& reason matches MergeError::Malformed(text) ==> items_of(
                        materialized(merged(old(self).history(), ids(batch@))),
                    ) == Err::<Seq<ItemView>, Seq<char>>(text@)
                },
            },
    {
        let mut checked: usize = 0;
        while checked < batch.len()
            invariant
                0 <= checked <= batch.len(),
                forall|j: int| 0 <= j < checked ==> (#[trigger] batch@[j]).wf(),
            decreases batch.len() - checked,
        {
            batch[checked].attest();
            checked += 1;
        }
        let mut staged = backend::copy_document(&self.doc);
        match backend::apply(&mut staged, batch) {
            Ok(()) => {},
            Err(reason) => {
                return Err(MergeError::Refused(reason.to_string()));
            },
        }
        let ghost before = self.history();
        let ghost after = backend::history(staged);
        assert(backend::merge_outcome(self.doc, encodings(batch@)) == Some(after));
        let ghost mut target = before;
        let total = backend::recorded(&staged);
        let mut expected = backend::recorded(&self.doc);
        let mut i: usize = 0;
        proof {
            assert(ids(batch@.take(0)) =~= Set::<Seq<u8>>::empty());
            assert(target =~= merged(before, ids(batch@.take(0))));
        }
        while i < batch.len()
            invariant
                0 <= i <= batch.len(),
                *self == *old(self),
                self.wf(),
                before == self.history(),
                after == backend::history(staged),
                backend::merge_outcome(self.doc, encodings(batch@)) == Some(after),
                total == after.len(),
                before.finite(),
                after.finite(),
                target == merged(before, ids(batch@.take(i as int))),
                target.finite(),
                target.subset_of(after),
                expected == target.len(),
            decreases batch.len() - i,
        {
            let id = batch[i].hash();
            if backend::change_by_hash(&staged, id).is_none() {
                proof {
                    assert(batch@[i as int].id() == id@);
                    assert(ids(batch@).contains(id@));
                }
                return Err(MergeError::Incomplete);
            }
            let known = backend::change_by_hash(&self.doc, id).is_some() || seen_before(batch, i);
            proof {
                let grown = merged(before, ids(batch@.take(i + 1)));
                assert(grown =~= target.insert(id@)) by {
                    assert forall|h: Seq<u8>| grown.contains(h) <==> target.insert(id@).contains(
                        h,
                    ) by {
                        if ids(batch@.take(i + 1)).contains(h) {
                            let j = choose|j: int|
                                0 <= j < batch@.take(i + 1).len() && (#[trigger] batch@.take(
                                    i + 1,
                                )[j]).id() == h;
                            if j < i {
                                assert(batch@.take(i as int)[j].id() == h);
                            }
                        }
                        if ids(batch@.take(i as int)).contains(h) {
                            let j = choose|j: int|
                                0 <= j < batch@.take(i as int).len() && (#[trigger] batch@.take(
                                    i as int,
                                )[j]).id() == h;
                            assert(batch@.take(i + 1)[j].id() == h);
                        }
                        if h == id@ {
                            assert(batch@.take(i + 1)[i as int].id() == h);
                        }
                    }
                }
                assert(known == target.contains(id@));
                lemma_len_subset(target.insert(id@), after);
                target = target.insert(id@);
            }
            if !known {
                expected += 1;
            }
            i += 1;
        }
        proof {
            assert(batch@.take(batch@.len() as int) =~= batch@);
        }
        if total != expected {
            return Err(MergeError::Incomplete);
        }
        proof {
            lemma_subset_equality(target, after);
        }
        match ChangeLog::adopt(staged) {
            Ok(log) => {
                let patch = Patch::Snapshot(copy_items(&log.items));
                *self = log;
                Ok(patch)
            },
            Err(reason) => Err(MergeError::Malformed(reason)),
        }
    }

    /// Takes an encoded history in: decodes it and merges its changes. It
    /// is taken in exactly where the log welcomes the bytes; bytes that do
    /// not decode are answered with `Decode`. On every error the log is left
    /// exactly as it was.
    ///
    /// The bytes have to be readable: the store does not return on a forged
    /// history, so a caller that cannot vouch for the bytes has to be ready
    /// for the call not to return.
    pub fn receive(&mut self, bytes: &Vec<u8>) -> (out: Result<Patch, SyncError>)
        requires
            old(self).wf(),
            readable(bytes@),
        ensures
            final(self).wf(),
            out is Ok <==> old(self).welcomes(bytes@),
            out matches Err(SyncError::Decode(_)) <==> !decodes(bytes@),
            match out {
                Ok(patch) => {
                    &&& loaded(bytes@) matches Some(theirs)
                    &&& final(self).history() == merged(old(self).history(), theirs)
                    &&& is_list(final(self).history())
                    &&& patch.applied_to(old(self).items()) == Ok::<
                        Seq<ItemView>,
                        InvalidChangeRequest,
                    >(final(self).items())
                },
                Err(_) => {
                    &&& final(self).history() == old(self).history()
                    &&& final(self).items() == old(self).items()
                },
            },
    {
        let batch = match ChangeLog::decode(bytes) {
            Ok(batch) => batch,
            Err(reason) => {
                return Err(SyncError::Decode(reason));
            },
        };
        match self.apply_changes(&batch) {
            Ok(patch) => Ok(patch),
            Err(reason) => Err(SyncError::Merge(reason)),
        }
    }

    /// The whole history in one self-contained encoding.
    pub fn serialize(&self) -> (bytes: Vec<u8>)
        ensures
            bytes@ == self.encoding(),
            backend::written(bytes@),
            loaded(bytes@) matches Some(theirs) ==> theirs == self.history(),
    {
        backend::save(&self.doc)
    }

    /// The changes of an encoded history. The bytes have to load, and the
    /// document that they load to has to list its history faithfully.
    pub fn decode(bytes: &Vec<u8>) -> (out: Result<Vec<Change>, DecodeError>)
        requires
            readable(bytes@),
        ensures
            out is Ok <==> decodes(bytes@),
            out matches Err(DecodeError::Malformed(_)) <==> loaded(bytes@) is None,
            out matches Ok(batch) ==> {
                &&& loaded(bytes@) == Some(ids(batch@))
                &&& encodings(batch@) == backend::listing(bytes@)
                &&& forall|i: int| 0 <= i < batch@.len() ==> (#[trigger] batch@[i]).wf()
            },
    {
        let doc = match backend::load(bytes) {
            Ok(doc) => doc,
            Err(reason) => {
                return Err(DecodeError::Malformed(reason.to_string()));
            },
        };
        match listing_of(&doc) {
            Some(batch) => Ok(batch),
            None => Err(DecodeError::Unexpected),
        }
    }

    /// Takes in the history of another log of this process: what that log
    /// serializes to is received. It is taken in exactly where this log
    /// welcomes those bytes.
    pub fn pull_from(&mut self, from: &ChangeLog) -> (out: Result<Patch, SyncError>)
        requires
            old(self).wf(),
        ensures
            final(self).wf(),
            out is Ok <==> old(self).welcomes(from.encoding()),
            out matches Err(SyncError::Decode(_)) <==> !decodes(from.encoding()),
            match out {
                Ok(patch) => {
                    &&& final(self).history() == merged(old(self).history(), from.history())
                    &&& is_list(final(self).history())
                    &&& patch.applied_to(old(self).items()) == Ok::<
                        Seq<ItemView>,
                        InvalidChangeRequest,
                    >(final(self).items())
                },
                Err(_) => {
                    &&& final(self).history() == old(self).history()
                    &&& final(self).items() == old(self).items()
                },
            },
    {
        let bytes = from.serialize();
        self.receive(&bytes)
    }
}

} // verus!
