//! The document store: the change log and the optimistic view, kept together.

use vstd::prelude::*;
use crate::backend::loaded;
use crate::filter::{filtered, Filter};
use crate::history::{ids, merged, text_of, Change};
use crate::items::{views, Item, ItemView, Items};
use crate::error::{DecodeError, LocalError, MergeError, SyncError};
use crate::log::{is_list, projected, ChangeLog};
use crate::ops::{apply_ops, op_views, InvalidChangeRequest, LocalChange, LocalChangeView};
use crate::view::OptimisticView;

verus! {

/// The one owner of the list: every change goes into the log and from
/// there into the view, so that the view never shows anything but the
/// projection of what the log has recorded.
pub struct Store {
    log: ChangeLog,
    view: OptimisticView,
}

impl Store {
    /// The identities of the recorded changes.
    pub closed spec fn history(&self) -> Set<Seq<u8>> {
        self.log.history()
    }

    /// The list as readers see it.
    pub closed spec fn items(&self) -> Seq<ItemView> {
        self.view@
    }

    /// The log is well formed and the view shows what the log holds.
    pub closed spec fn coupled(&self) -> bool {
        self.log.wf() && self.view@ == self.log.items()
    }

    /// The view shows the projection of the recorded history, which is a todo list.
    pub open spec fn wf(&self) -> bool {
        &&& self.coupled()
        &&& self.history().finite()
        &&& is_list(self.history())
        &&& self.items() == projected(self.history())
    }

    /// The store that every replica starts from: the initial change
    /// recorded, the list empty.
    pub fn new() -> (out: Result<Store, DecodeError>)
        ensures
            match out {
                Ok(store) => {
                    &&& store.wf()
                    &&& store.items() == Seq::<ItemView>::empty()
                    &&& loaded(crate::log::INITIAL_DOCUMENT@) == Some(store.history())
                },
                Err(DecodeError::Malformed(_)) => loaded(crate::log::INITIAL_DOCUMENT@) is None,
                Err(DecodeError::Unexpected) => loaded(
                    crate::log::INITIAL_DOCUMENT@,
                ) matches Some(history) && crate::items::items_of(
                    crate::backend::materialized(history),
                ) != Ok::<Seq<ItemView>, Seq<char>>(Seq::empty()),
            },
    {
        match ChangeLog::new() {
            Ok(log) => Ok(Store { log, view: OptimisticView::new() }),
            Err(reason) => Err(reason),
        }
    }

    /// The list, in order.
    pub fn items_ref(&self) -> (items: &Vec<Item>)
        ensures
            views(items@) == self.items(),
    {
        self.view.items()
    }

    /// The list, in order.
    pub fn snapshot(&self) -> (items: Items)
        ensures
            items@ == self.items(),
    {
        self.view.snapshot()
    }

    /// The items that the filter lets through, in the order of the list.
    pub fn filtered(&self, filter: Filter) -> (items: Vec<Item>)
        ensures
            views(items@) == filtered(self.items(), filter),
    {
        self.view.filtered(filter)
    }

    /// How many changes have been recorded.
    pub fn recorded(&self) -> (count: usize)
        ensures
            count == self.history().len(),
    {
        self.log.len()
    }

    /// The store takes every one of the operations.
    pub closed spec fn stages(&self, ops: Seq<LocalChangeView>) -> bool {
        self.log.stages(ops)
    }

    /// The store takes the operations and then holds the list that they
    /// describe; what it has recorded for them, it hands out under `label`.
    pub closed spec fn takes(&self, label: Option<Seq<char>>, ops: Seq<LocalChangeView>) -> bool {
        self.log.takes(label, ops)
    }

    /// The store has recorded something for the operations.
    pub closed spec fn records(&self, label: Option<Seq<char>>, ops: Seq<LocalChangeView>) -> bool {
        self.log.records(label, ops)
    }

    /// What is taken has been staged.
    pub proof fn lemma_takes_stages(&self, label: Option<Seq<char>>, ops: Seq<LocalChangeView>)
        ensures
            self.takes(label, ops) ==> self.stages(ops),
    {
        self.log.lemma_takes_stages(label, ops);
    }

    /// The encoding that `serialize` returns for the store.
    pub closed spec fn encoding(&self) -> Seq<u8> {
        self.log.encoding()
    }

    /// The store refuses the batch.
    pub closed spec fn refuses(&self, batch: Seq<Change>) -> bool {
        self.log.refuses(batch)
    }

    /// The store accepts the batch and records exactly its changes.
    pub closed spec fn admits(&self, batch: Seq<Change>) -> bool {
        self.log.admits(batch)
    }

    /// The bytes decode to a history that the store admits, and merged
    /// with it the list is still a todo list.
    pub closed spec fn welcomes(&self, bytes: Seq<u8>) -> bool {
        self.log.welcomes(bytes)
    }

    /// Carries out one local intent: records the operations as one change
    /// and brings the view up to date. Says whether a change was recorded.
    ///
    /// Operations that cannot be applied to the list are refused before the
    /// store sees them, and no operations record nothing. Otherwise the
    /// intent is carried out exactly where the store takes the operations,
    /// and a change is recorded where the store found something to record.
    /// On any error the store is as it was.
    pub fn commit(&mut self, label: Option<String>, ops: Vec<LocalChange>) -> (out: Result<
        bool,
        LocalError,
    >)
        requires
            old(self).wf(),
        ensures
            final(self).wf(),
            match apply_ops(old(self).items(), op_views(ops@)) {
                Err(reason) => out matches Err(LocalError::Invalid(given)) && given == reason,
                Ok(_) => if ops@.len() == 0 {
                    out matches Ok(false)
                } else if !old(self).stages(op_views(ops@)) {
                    out matches Err(LocalError::Refused(_))
                } else if !old(self).takes(text_of(label), op_views(ops@)) {
                    out matches Err(LocalError::Diverged)
                } else if old(self).records(text_of(label), op_views(ops@)) {
                    out matches Ok(true)
                } else {
                    out matches Ok(false)
                },
            },
            match out {
                Ok(recorded) => {
                    &&& apply_ops(old(self).items(), op_views(ops@)) == Ok::<
                        Seq<ItemView>,
                        InvalidChangeRequest,
                    >(final(self).items())
                    &&& recorded ==> exists|id: Seq<u8>|
                        {
                            &&& !old(self).history().contains(id)
                            &&& final(self).history() == old(self).history().insert(id)
                        }
                    &&& !recorded ==> {
                        &&& final(self).history() == old(self).history()
                        &&& final(self).items() == old(self).items()
                    }
                },
                Err(_) => {
                    &&& final(self).history() == old(self).history()
                    &&& final(self).items() == old(self).items()
                },
            },
    {
        match self.log.apply_local(label, ops) {
            Ok(Some((change, patch))) => {
                let taken = self.view.apply_patch(patch);
                assert(taken is Ok);
                assert({
                    &&& !old(self).history().contains(change.id())
                    &&& self.history() == old(self).history().insert(change.id())
                });
                Ok(true)
            },
            Ok(None) => Ok(false),
            Err(reason) => Err(reason),
        }
    }

    /// Merges a batch of changes and brings the view up to date. The batch
    /// is merged exactly where the store admits it and the merged list is
    /// a todo list. On any error the store is as it was.
    pub fn merge(&mut self, batch: &Vec<Change>) -> (out: Result<(), MergeError>)
        requires
            old(self).wf(),
        ensures
            final(self).wf(),
            out is Ok <==> old(self).admits(batch@) && is_list(
                merged(old(self).history(), ids(batch@)),
            ),
            out matches Err(MergeError::Refused(_)) <==> old(self).refuses(batch@),
            out matches Err(MergeError::Incomplete) <==> !old(self).refuses(batch@) && !old(
                self,
            ).admits(batch@),
            match out {
                Ok(()) => final(self).history() == merged(old(self).history(), ids(batch@)),
                Err(reason) => {
                    &&& final(self).history() == old(self).history()
                    &&& final(self).items() == old(self).items()
                    &&& reason matches MergeError::Malformed(text) ==> crate::items::items_of(
                        crate::backend::materialized(merged(old(self).history(), ids(batch@))),
                    ) == Err::<Seq<ItemView>, Seq<char>>(text@)
                },
            },
    {
        match self.log.apply_changes(batch) {
            Ok(patch) => {
                let taken = self.view.apply_patch(patch);
                assert(taken is Ok);
                Ok(())
            },
            Err(reason) => Err(reason),
        }
    }

    /// Pull, once the bytes are here: decodes a peer's history and merges
    /// it. It is taken in exactly where the store welcomes the bytes. On
    /// any error the store is as it was. The bytes have to be readable.
    pub fn receive(&mut self, bytes: &Vec<u8>) -> (out: Result<(), SyncError>)
        requires
            old(self).wf(),
            crate::backend::readable(bytes@),
        ensures
            final(self).wf(),
            out is Ok <==> old(self).welcomes(bytes@),
            out matches Err(SyncError::Decode(_)) <==> !crate::log::decodes(bytes@),
            match out {
                Ok(()) => loaded(bytes@) matches Some(theirs) && final(self).history() == merged(
                    old(self).history(),
                    theirs,
                ),
                Err(_) => {
                    &&& final(self).history() == old(self).history()
                    &&& final(self).items() == old(self).items()
                },
            },
    {
        match self.log.receive(bytes) {
            Ok(patch) => {
                let taken = self.view.apply_patch(patch);
                assert(taken is Ok);
                Ok(())
            },
            Err(reason) => Err(reason),
        }
    }

    /// Push, before the bytes leave: the whole history in one
    /// self-contained encoding.
    pub fn serialize(&self) -> (bytes: Vec<u8>)
        ensures
            bytes@ == self.encoding(),
            crate::backend::written(bytes@),
            loaded(bytes@) matches Some(theirs) ==> theirs == self.history(),
    {
        self.log.serialize()
    }

    /// Takes in the history of another store of this process: what that
    /// store serializes to is received, exactly where this store welcomes
    /// it. On any error the store is as it was.
    pub fn pull_from(&mut self, from: &Store) -> (out: Result<(), SyncError>)
        requires
            old(self).wf(),
        ensures
            final(self).wf(),
            out is Ok <==> old(self).welcomes(from.encoding()),
            out matches Err(SyncError::Decode(_)) <==> !crate::log::decodes(from.encoding()),
            match out {
                Ok(()) => final(self).history() == merged(old(self).history(), from.history()),
                Err(_) => {
                    &&& final(self).history() == old(self).history()
                    &&& final(self).items() == old(self).items()
                },
            },
    {
        let bytes = from.serialize();
        self.receive(&bytes)
    }
}

} // verus!
