//! The optimistic view: the materialized list that every read is served from.

use vstd::prelude::*;
use crate::filter::{filter_items, filtered, Filter};
use crate::items::{copy_items, views, Item, ItemView, Items};
use crate::ops::{apply_ops, op_views, stage_all, InvalidChangeRequest, LocalChange};

verus! {

/// What changed in the list, for a view to catch up with.
#[derive(Debug)]
pub enum Patch {
    /// The operations that changed it, in order.
    Edits(Vec<LocalChange>),
    /// The list as it is now.
    Snapshot(Vec<Item>),
}

impl Patch {
    /// The list that a view holding `before` holds once it has taken the
    /// patch in, or why the patch does not fit it.
    pub open spec fn applied_to(&self, before: Seq<ItemView>) -> Result<
        Seq<ItemView>,
        InvalidChangeRequest,
    > {
        match self {
            Patch::Edits(ops) => apply_ops(before, op_views(ops@)),
            Patch::Snapshot(items) => Ok(views(items@)),
        }
    }
}

/// A materialized copy of the list.
#[derive(Debug)]
pub struct OptimisticView {
    items: Vec<Item>,
}

impl View for OptimisticView {
    type V = Seq<ItemView>;

    closed spec fn view(&self) -> Seq<ItemView> {
        views(self.items@)
    }
}

impl OptimisticView {
    /// A view of the empty list.
    pub fn new() -> (view: OptimisticView)
        ensures
            view@ == Seq::<ItemView>::empty(),
    {
        let view = OptimisticView { items: Vec::new() };
        assert(view@ =~= Seq::<ItemView>::empty());
        view
    }

    /// Takes a patch in. A patch that does not fit leaves the view as it was.
    pub fn apply_patch(&mut self, patch: Patch) -> (out: Result<(), InvalidChangeRequest>)
        ensures
            match patch.applied_to(old(self)@) {
                Ok(after) => out is Ok && final(self)@ == after,
                Err(reason) => out == Err::<(), InvalidChangeRequest>(reason) && final(self)@
                    == old(self)@,
            },
    {
        match patch {
            Patch::Edits(ops) => match stage_all(&self.items, &ops) {
                Ok(items) => {
                    self.items = items;
                    Ok(())
                },
                Err(reason) => Err(reason),
            },
            Patch::Snapshot(items) => {
                self.items = items;
                Ok(())
            },
        }
    }

    /// The whole list, in order.
    pub fn snapshot(&self) -> (items: Items)
        ensures
            items@ == self@,
    {
        Items::from_vec(copy_items(&self.items))
    }

    /// The whole list, in order.
    pub fn items(&self) -> (items: &Vec<Item>)
        ensures
            views(items@) == self@,
    {
        &self.items
    }

    /// The items that the filter lets through, in the order of the list.
    pub fn filtered(&self, filter: Filter) -> (items: Vec<Item>)
        ensures
            views(items@) == filtered(self@, filter),
    {
        filter_items(&self.items, filter)
    }
}

} // verus!
