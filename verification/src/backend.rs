//! The document store: what this library takes on trust from `automerge`.
//!
//! Nothing in this file is proved. Each function makes one call into
//! `automerge`, or turns a value of `automerge` into one of this library
//! or back, and states what the rest of the library relies on. The spec
//! functions without a body give names to what the store holds and returns.
//!
//! `automerge` imports changes without checking them against the document,
//! and does not return on forged ones. So `load` and `apply` ask for bytes
//! and changes that automerge itself has written: `readable` and `genuine`.

use vstd::prelude::*;
use crate::history::{encodings, ids, text_of, Change};
use crate::path::{Step, StepView};
use crate::value::{DocValue, ValueView};

verus! {

#[verifier::external_type_specification]
#[verifier::external_body]
pub struct ExAutomerge(automerge::Automerge);

#[verifier::external_type_specification]
#[verifier::external_body]
pub struct ExOwnedTransaction(automerge::transaction::OwnedTransaction);

#[verifier::external_type_specification]
#[verifier::external_body]
pub struct ExObjId(automerge::ObjId);

#[verifier::external_type_specification]
#[verifier::external_body]
pub struct ExHydrated(automerge::hydrate::Value);

#[verifier::external_type_specification]
#[verifier::external_body]
pub struct ExAutomergeError(automerge::AutomergeError);

#[verifier::external_type_specification]
#[verifier::external_body]
pub struct ExPatchLogMismatch(automerge::PatchLogMismatch);

/// The hashes of the changes that a document has recorded: those in its
/// change graph, which `Automerge::get_changes(&[])` lists.
pub uninterp spec fn history(doc: automerge::Automerge) -> Set<Seq<u8>>;

/// What a document that has recorded exactly the changes `history` reads as:
/// the value that `Automerge::hydrate(None)` returns for it. That it depends
/// on the set of changes alone, and not on the order in which they came, is
/// what makes replicas converge.
pub uninterp spec fn materialized(history: Set<Seq<u8>>) -> ValueView;

/// What a hydrated value holds: maps by key, lists in order, strings and
/// booleans as they are, everything else as `Other`.
pub uninterp spec fn hydrated(value: automerge::hydrate::Value) -> ValueView;

/// The history of the document that a transaction was begun on.
pub uninterp spec fn base(tx: automerge::transaction::OwnedTransaction) -> Set<Seq<u8>>;

/// The transaction that `Automerge::into_transaction` begins on a document,
/// without a patch log and at the document's heads.
pub uninterp spec fn begun(doc: automerge::Automerge) -> automerge::transaction::OwnedTransaction;

/// What `ReadDoc::get` finds in a transaction at `step` of the object `obj`
/// (the root, where `obj` is `None`): the id that comes with the value
/// there, or `None` where there is no value or the store refuses to look.
pub uninterp spec fn found(
    tx: automerge::transaction::OwnedTransaction,
    obj: Option<automerge::ObjId>,
    step: StepView,
) -> Option<automerge::ObjId>;

/// What `Transactable::insert_object` makes of a transaction when it is
/// asked for a new map at position `index` of the object `obj`: the
/// transaction afterwards and the id of the new map, or `None` where the
/// store refuses.
pub uninterp spec fn inserted(
    tx: automerge::transaction::OwnedTransaction,
    obj: Option<automerge::ObjId>,
    index: nat,
) -> Option<(automerge::transaction::OwnedTransaction, automerge::ObjId)>;

/// What `Transactable::put` makes of a transaction when it is asked to put
/// the string or boolean `value` at `step` of the object `obj`: the
/// transaction afterwards, or `None` where the store refuses.
pub uninterp spec fn overwritten(
    tx: automerge::transaction::OwnedTransaction,
    obj: Option<automerge::ObjId>,
    step: StepView,
    value: ValueView,
) -> Option<automerge::transaction::OwnedTransaction>;

/// What `Transactable::delete` makes of a transaction when it is asked to
/// delete what is at `step` of the object `obj`: the transaction afterwards,
/// or `None` where the store refuses.
pub uninterp spec fn removed(
    tx: automerge::transaction::OwnedTransaction,
    obj: Option<automerge::ObjId>,
    step: StepView,
) -> Option<automerge::transaction::OwnedTransaction>;

/// The document that `OwnedTransaction::commit_with` hands back for a
/// transaction committed under `message`, without a time.
pub uninterp spec fn committed(
    tx: automerge::transaction::OwnedTransaction,
    message: Option<Seq<char>>,
) -> automerge::Automerge;

/// What `Automerge::apply_changes` answers when the changes with the
/// encodings `batch` are handed to a document: the history that the document
/// then has, or `None` where it refuses the batch.
pub uninterp spec fn merge_outcome(doc: automerge::Automerge, batch: Seq<Seq<u8>>) -> Option<
    Set<Seq<u8>>,
>;

/// The encodings of the changes that a document has recorded, in the order
/// in which `Automerge::get_changes(&[])` lists them.
pub uninterp spec fn listed(doc: automerge::Automerge) -> Seq<Seq<u8>>;

/// What the document that `Automerge::load` makes of `bytes` lists.
pub uninterp spec fn listing(bytes: Seq<u8>) -> Seq<Seq<u8>>;

/// The history of the document that `Automerge::load` makes of `bytes`, or
/// `None` where it refuses them.
pub uninterp spec fn loaded(bytes: Seq<u8>) -> Option<Set<Seq<u8>>>;

/// The identity of the change that `bytes` encode: the hash of what
/// `automerge::Change::from_bytes` makes of them, or `None` where it refuses them.
pub uninterp spec fn change_id(bytes: Seq<u8>) -> Option<Seq<u8>>;

/// The message of the change that `bytes` encode, as `Change::message`
/// gives it for what `automerge::Change::from_bytes` makes of them.
pub uninterp spec fn change_label(bytes: Seq<u8>) -> Option<Seq<char>>;

/// The encoding of the change that `ReadDoc::get_change_by_hash` returns
/// for `hash`, or `None` where it returns none.
pub uninterp spec fn lookup(doc: automerge::Automerge, hash: Seq<u8>) -> Option<Seq<u8>>;

/// The bytes encode a change as automerge itself writes one: a change that
/// a document hands out of what it has recorded. Such a change names no
/// actor and no object but those that it, or a change that it depends on,
/// has begun or made.
pub uninterp spec fn genuine(bytes: Seq<u8>) -> bool;

/// The encoding that `Automerge::save` writes for a document.
pub uninterp spec fn encoded(doc: automerge::Automerge) -> Seq<u8>;

/// The bytes are an encoding as `Automerge::save` writes one, of a document
/// that has recorded genuine changes only.
pub uninterp spec fn written(bytes: Seq<u8>) -> bool;

/// The bytes that `Automerge::load` is handed: an encoding that automerge
/// has written, or the built-in initial document, which is one.
pub open spec fn readable(bytes: Seq<u8>) -> bool {
    written(bytes) || bytes == crate::log::INITIAL_DOCUMENT@
}

/// `Automerge::new`: a document that has recorded nothing, and reads as
/// the map without entries.
#[verifier::external_body]
pub(crate) fn new_document() -> (doc: automerge::Automerge)
    ensures
        history(doc) == Set::<Seq<u8>>::empty(),
        history(doc).finite(),
        materialized(history(doc)) == ValueView::Object(Map::<Seq<char>, ValueView>::empty()),
{
    automerge::Automerge::new()
}

/// `Automerge::clone`: a second document that is the same in everything.
#[verifier::external_body]
pub(crate) fn copy_document(doc: &automerge::Automerge) -> (copy: automerge::Automerge)
    ensures
        copy == *doc,
{
    doc.clone()
}

/// `Automerge::into_transaction`, without a patch log and at the document's
/// heads: a transaction on the document. With no patch log to disagree with
/// the document it is always begun.
#[verifier::external_body]
pub(crate) fn begin(doc: automerge::Automerge) -> (tx: Result<
    automerge::transaction::OwnedTransaction,
    automerge::PatchLogMismatch,
>)
    ensures
        tx matches Ok(tx) && tx == begun(doc) && base(tx) == history(doc),
{
    doc.into_transaction(None, None)
}

/// `ReadDoc::get` on a transaction: the id that comes with the value at
/// `step` of `obj`, where there is a value.
#[verifier::external_body]
pub(crate) fn child(
    tx: &automerge::transaction::OwnedTransaction,
    obj: &Option<automerge::ObjId>,
    step: &Step,
) -> (out: Result<Option<automerge::ObjId>, automerge::AutomergeError>)
    ensures
        match out {
            Ok(Some(id)) => found(*tx, *obj, step@) == Some(id),
            _ => found(*tx, *obj, step@) is None,
        },
{
    let prop = match step {
        Step::Key(key) => automerge::Prop::Map(key.clone()),
        Step::Index(index) => automerge::Prop::Seq(*index as usize),
    };
    let value = automerge::ReadDoc::get(tx, obj.as_ref().unwrap_or(&automerge::ROOT), prop)?;
    Ok(value.map(|found| found.1))
}

/// `Transactable::insert_object`: stages a new map at position `index` of
/// `obj` and returns its id. The transaction stays on the document it was
/// begun on.
#[verifier::external_body]
pub(crate) fn insert_map(
    tx: &mut automerge::transaction::OwnedTransaction,
    obj: &Option<automerge::ObjId>,
    index: u32,
) -> (out: Result<automerge::ObjId, automerge::AutomergeError>)
    ensures
        base(*final(tx)) == base(*old(tx)),
        match out {
            Ok(id) => inserted(*old(tx), *obj, index as nat) == Some((*final(tx), id)),
            Err(_) => inserted(*old(tx), *obj, index as nat) is None,
        },
{
    let obj = obj.clone().unwrap_or(automerge::ROOT);
    automerge::transaction::Transactable::insert_object(
        tx,
        obj,
        index as usize,
        automerge::ObjType::Map,
    )
}

/// `Transactable::put`: stages the string or boolean `value` at `step` of
/// `obj`. The transaction stays on the document it was begun on.
#[verifier::external_body]
pub(crate) fn put(
    tx: &mut automerge::transaction::OwnedTransaction,
    obj: &Option<automerge::ObjId>,
    step: &Step,
    value: &DocValue,
) -> (out: Result<(), automerge::AutomergeError>)
    requires
        value is Str || value is Bool,
    ensures
        base(*final(tx)) == base(*old(tx)),
        match out {
            Ok(()) => overwritten(*old(tx), *obj, step@, value@) == Some(*final(tx)),
            Err(_) => overwritten(*old(tx), *obj, step@, value@) is None,
        },
{
    let prop = match step {
        Step::Key(key) => automerge::Prop::Map(key.clone()),
        Step::Index(index) => automerge::Prop::Seq(*index as usize),
    };
    let scalar: automerge::ScalarValue = match value {
        DocValue::Str(text) => text.as_str().into(),
        DocValue::Bool(flag) => (*flag).into(),
        _ => automerge::ScalarValue::Null,
    };
    let obj = obj.clone().unwrap_or(automerge::ROOT);
    automerge::transaction::Transactable::put(tx, obj, prop, scalar)
}

/// `Transactable::delete`: stages the removal of what is at `step` of
/// `obj`. The transaction stays on the document it was begun on.
#[verifier::external_body]
pub(crate) fn delete(
    tx: &mut automerge::transaction::OwnedTransaction,
    obj: &Option<automerge::ObjId>,
    step: &Step,
) -> (out: Result<(), automerge::AutomergeError>)
    ensures
        base(*final(tx)) == base(*old(tx)),
        match out {
            Ok(()) => removed(*old(tx), *obj, step@) == Some(*final(tx)),
            Err(_) => removed(*old(tx), *obj, step@) is None,
        },
{
    let prop = match step {
        Step::Key(key) => automerge::Prop::Map(key.clone()),
        Step::Index(index) => automerge::Prop::Seq(*index as usize),
    };
    let obj = obj.clone().unwrap_or(automerge::ROOT);
    automerge::transaction::Transactable::delete(tx, obj, prop)
}

/// `OwnedTransaction::commit_with`: hands the document back. Where
/// operations were staged they are recorded as one change, whose hash is
/// returned and joins the history; where none were, the history is as it was.
#[verifier::external_body]
pub(crate) fn commit(tx: automerge::transaction::OwnedTransaction, message: Option<String>) -> (out:
    (automerge::Automerge, Option<Vec<u8>>))
    ensures
        out.0 == committed(tx, text_of(message)),
        match out.1 {
            Some(id) => history(out.0) == base(tx).insert(id@),
            None => history(out.0) == base(tx),
        },
{
    let options = automerge::transaction::CommitOptions { message, time: None };
    let (doc, hash, _) = tx.commit_with(options);
    (doc, hash.map(|hash| hash.0.to_vec()))
}

/// `Automerge::hydrate(None)`: the document's current value.
#[verifier::external_body]
pub(crate) fn hydrate(doc: &automerge::Automerge) -> (value: automerge::hydrate::Value)
    ensures
        hydrated(value) == materialized(history(*doc)),
{
    doc.hydrate(None)
}

/// A hydrated value as a value of this library.
#[verifier::external_body]
pub(crate) fn plain(value: &automerge::hydrate::Value) -> (out: DocValue)
    ensures
        out@ == hydrated(*value),
{
    match value {
        automerge::hydrate::Value::Map(entries) => DocValue::Object(
            entries.iter().map(|(key, entry)| (key.clone(), plain(&entry.value))).collect(),
        ),
        automerge::hydrate::Value::List(elems) => DocValue::List(
            elems.iter().map(|elem| plain(&elem.value)).collect(),
        ),
        automerge::hydrate::Value::Scalar(automerge::ScalarValue::Str(text)) => DocValue::Str(
            text.to_string(),
        ),
        automerge::hydrate::Value::Scalar(automerge::ScalarValue::Boolean(flag)) => DocValue::Bool(
            *flag,
        ),
        _ => DocValue::Other,
    }
}

/// `Automerge::apply_changes`: hands the batch to the document and returns
/// its answer. Whatever the answer, no recorded change is lost, and the
/// document has recorded finitely many.
///
/// Every change of the batch has to be genuine: automerge imports a change
/// without checking it against the document, and does not return on one
/// that names an actor or an object that nothing has begun or made.
#[verifier::external_body]
pub(crate) fn apply(doc: &mut automerge::Automerge, batch: &Vec<Change>) -> (applied: Result<
    (),
    automerge::AutomergeError,
>)
    requires
        forall|i: int|
            0 <= i < batch@.len() ==> change_id((#[trigger] batch@[i]).encoding()) is Some
                && genuine(batch@[i].encoding()),
    ensures
        history(*old(doc)).subset_of(history(*final(doc))),
        history(*final(doc)).finite(),
        match applied {
            Ok(()) => merge_outcome(*old(doc), encodings(batch@)) == Some(history(*final(doc))),
            Err(_) => merge_outcome(*old(doc), encodings(batch@)) is None,
        },
{
    doc.apply_changes(
        batch.iter().map(|change| automerge::Change::from_bytes(change.bytes().clone()).unwrap())
            .collect::<Vec<_>>(),
    )
}

/// `Automerge::save`: the document's encoding. If `Automerge::load` takes
/// the bytes at all, it makes of them a document with the same history.
#[verifier::external_body]
pub(crate) fn save(doc: &automerge::Automerge) -> (bytes: Vec<u8>)
    ensures
        bytes@ == encoded(*doc),
        written(bytes@),
        loaded(bytes@) matches Some(theirs) ==> theirs == history(*doc),
{
    doc.save()
}

/// `Automerge::load`: the document that the bytes encode, where they
/// encode one; it has recorded finitely many changes, and lists them as
/// `listing` says.
///
/// The bytes have to be readable: `load` hands the changes that it finds in
/// them to `apply_changes`, and so does not return on forged ones.
#[verifier::external_body]
pub(crate) fn load(bytes: &Vec<u8>) -> (doc: Result<
    automerge::Automerge,
    automerge::AutomergeError,
>)
    requires
        readable(bytes@),
    ensures
        match doc {
            Ok(doc) => loaded(bytes@) == Some(history(doc)) && history(doc).finite() && listed(
                doc,
            ) == listing(bytes@),
            Err(_) => loaded(bytes@) is None,
        },
{
    automerge::Automerge::load(bytes.as_slice())
}

/// `Automerge::get_changes(&[])`: the changes that the document lists,
/// each with its hash, its encoding and its message. Each is genuine, and
/// its encoding is one that `Change::from_bytes` turns back into a change
/// with that hash and that message.
#[verifier::external_body]
pub(crate) fn changes(doc: &automerge::Automerge) -> (all: Vec<Change>)
    ensures
        encodings(all@) == listed(*doc),
        forall|i: int|
            0 <= i < all@.len() ==> {
                &&& genuine((#[trigger] all@[i]).encoding())
                &&& change_id(all@[i].encoding()) == Some(all@[i].id())
                &&& change_label(all@[i].encoding()) == all@[i].label_view()
            },
{
    doc.get_changes(&[]).iter().map(
        |change|
            Change::from_parts(
                change.hash().0.to_vec(),
                change.raw_bytes().to_vec(),
                change.message().map(|text| text.to_string()),
            ),
    ).collect()
}

/// `ReadDoc::get_change_by_hash`: the change that the document hands out
/// for this hash; it hands one out exactly for the hashes that it has
/// recorded, and bytes that are no hash find nothing. The change is genuine,
/// and its encoding is one that `Change::from_bytes` turns back into a
/// change with its hash and message.
#[verifier::external_body]
pub(crate) fn change_by_hash(doc: &automerge::Automerge, hash: &Vec<u8>) -> (found: Option<Change>)
    ensures
        found is Some <==> history(*doc).contains(hash@),
        match found {
            Some(change) => {
                &&& lookup(*doc, hash@) == Some(change.encoding())
                &&& genuine(change.encoding())
                &&& change_id(change.encoding()) == Some(change.id())
                &&& change_label(change.encoding()) == change.label_view()
            },
            None => lookup(*doc, hash@) is None,
        },
{
    let hash = automerge::ChangeHash::try_from(hash.as_slice()).ok()?;
    automerge::ReadDoc::get_change_by_hash(doc, &hash).map(
        |change|
            Change::from_parts(
                change.hash().0.to_vec(),
                change.raw_bytes().to_vec(),
                change.message().map(|text| text.to_string()),
            ),
    )
}

/// `ReadDoc::stats`: how many changes the document has recorded.
#[verifier::external_body]
pub(crate) fn recorded(doc: &automerge::Automerge) -> (count: usize)
    ensures
        count == history(*doc).len(),
{
    automerge::ReadDoc::stats(doc).num_changes as usize
}

} // verus!
