//! Translating user intents into structural operations.
//!
//! Each function reads the list as it stands and returns the operations that
//! carry the intent out. Its contract says what the list is once they are
//! applied in order, every operation to what the one before it left.

use vstd::prelude::*;
use crate::filter::{filtered, lemma_filter_push, Filter};
use crate::items::{record_of, views, Item, ItemView};
use crate::ops::{
    apply_op, apply_ops, op_views, InvalidChangeRequest, LocalChange, LocalChangeView,
};
use crate::path::{Path, StepView};
use crate::value::{DocValue, ValueView};

verus! {

/// The most items a list can hold: positions are 32-bit.
pub open spec fn capacity() -> nat {
    0xffff_ffff
}

/// Applying one more operation.
pub proof fn lemma_apply_ops_push(
    items: Seq<ItemView>,
    ops: Seq<LocalChangeView>,
    op: LocalChangeView,
)
    ensures
        apply_ops(items, ops.push(op)) == match apply_ops(items, ops) {
            Ok(before) => apply_op(before, op),
            Err(reason) => Err(reason),
        },
{
    assert(ops.push(op).drop_last() =~= ops);
}

/// The steps to the element at `at`.
pub open spec fn element_steps(at: nat) -> Seq<StepView> {
    seq![StepView::Key("todos"@), StepView::Index(at)]
}

/// The steps to the `completed` field of the element at `at`.
pub open spec fn completed_steps(at: nat) -> Seq<StepView> {
    seq![StepView::Key("todos"@), StepView::Index(at), StepView::Key("completed"@)]
}

/// The operation that inserts `item` at `at`.
pub open spec fn insert_at(at: nat, item: ItemView) -> LocalChangeView {
    LocalChangeView::Insert { path: element_steps(at), value: record_of(item) }
}

/// The operation that deletes the element at `at`.
pub open spec fn delete_at(at: nat) -> LocalChangeView {
    LocalChangeView::Delete { path: element_steps(at) }
}

/// The operation that sets the `done` mark of the element at `at`.
pub open spec fn mark_at(at: nat, done: bool) -> LocalChangeView {
    LocalChangeView::Assign { path: completed_steps(at), value: ValueView::Bool(done) }
}

/// The path of the element at `at`.
fn element_path(at: u32) -> (path: Path)
    ensures
        path@ == element_steps(at as nat),
        crate::ops::element_of(path@) == Some(at as nat),
{
    let path = Path::root().key("todos").index(at);
    assert(path@ =~= element_steps(at as nat));
    path
}

/// The path of the `completed` field of the element at `at`.
fn completed_path(at: u32) -> (path: Path)
    ensures
        path@ == completed_steps(at as nat),
        crate::ops::field_of(path@) == Some((at as nat, "completed"@)),
{
    let path = Path::root().key("todos").index(at).key("completed");
    assert(path@ =~= completed_steps(at as nat));
    path
}

/// The list with `item` at its end.
pub open spec fn added(items: Seq<ItemView>, item: ItemView) -> Seq<ItemView> {
    items.push(item)
}

/// The operations of Add: one insert at the end.
pub open spec fn add_plan(items: Seq<ItemView>, item: ItemView) -> Seq<LocalChangeView> {
    seq![insert_at(items.len(), item)]
}

/// Add: insert `item` at the end of the list.
pub fn add_ops(items: &Vec<Item>, item: &Item) -> (out: Result<
    Vec<LocalChange>,
    InvalidChangeRequest,
>)
    ensures
        match out {
            Ok(ops) => {
                &&& items@.len() <= capacity()
                &&& op_views(ops@) == add_plan(views(items@), item@)
                &&& apply_ops(views(items@), op_views(ops@)) == Ok::<
                    Seq<ItemView>,
                    InvalidChangeRequest,
                >(added(views(items@), item@))
            },
            Err(reason) => items@.len() > capacity() && reason
                == InvalidChangeRequest::OutOfBounds,
        },
{
    if items.len() > 0xffff_ffff {
        return Err(InvalidChangeRequest::OutOfBounds);
    }
    let at = items.len() as u32;
    let mut ops: Vec<LocalChange> = Vec::new();
    ops.push(LocalChange::insert(element_path(at), item.to_value()));
    proof {
        let before = views(items@);
        assert(op_views(ops@) =~= Seq::<LocalChangeView>::empty().push(ops@[0]@));
        assert(op_views(ops@) =~= add_plan(before, item@));
        lemma_apply_ops_push(before, Seq::<LocalChangeView>::empty(), ops@[0]@);
        assert(before.insert(at as int, item@) =~= before.push(item@));
    }
    Ok(ops)
}

/// `at` is where the list holds the `n`-th of the items that the filter lets through.
pub open spec fn shown_at(items: Seq<ItemView>, filter: Filter, n: nat, at: int) -> bool {
    &&& 0 <= at < items.len()
    &&& filter.accepts(items[at])
    &&& filtered(items.take(at), filter).len() == n
}

/// The item shown at the `n`-th place is the one that `shown_at` points to.
pub proof fn lemma_shown_at(items: Seq<ItemView>, filter: Filter, n: nat, at: int)
    requires
        shown_at(items, filter, n, at),
    ensures
        n < filtered(items, filter).len(),
        filtered(items, filter)[n as int] == items[at],
{
    let pred = |item: ItemView| filter.accepts(item);
    let head = items.take(at + 1);
    let tail = items.skip(at + 1);
    assert(items =~= head + tail);
    Seq::filter_distributes_over_add(head, tail, pred);
    assert(head =~= items.take(at).push(items[at]));
    lemma_filter_push(items.take(at), items[at], filter);
}

/// The `n`-th of the items that the filter lets through stands at one place only.
pub proof fn lemma_shown_once(items: Seq<ItemView>, filter: Filter, n: nat, at: int, other: int)
    requires
        shown_at(items, filter, n, at),
        shown_at(items, filter, n, other),
    ensures
        at == other,
{
    let pred = |item: ItemView| filter.accepts(item);
    if at < other {
        let head = items.take(at + 1);
        let rest = items.subrange(at + 1, other);
        assert(items.take(other) =~= head + rest);
        Seq::filter_distributes_over_add(head, rest, pred);
        assert(head =~= items.take(at).push(items[at]));
        lemma_filter_push(items.take(at), items[at], filter);
    } else if other < at {
        let head = items.take(other + 1);
        let rest = items.subrange(other + 1, at);
        assert(items.take(at) =~= head + rest);
        Seq::filter_distributes_over_add(head, rest, pred);
        assert(head =~= items.take(other).push(items[other]));
        lemma_filter_push(items.take(other), items[other], filter);
    }
}

/// Where the list holds the item that a reader of the filtered list sees at `index`.
pub fn absolute_index(items: &Vec<Item>, filter: Filter, index: usize) -> (out: Option<usize>)
    ensures
        match out {
            Some(at) => shown_at(views(items@), filter, index as nat, at as int),
            None => index >= filtered(views(items@), filter).len(),
        },
{
    let ghost all = views(items@);
    let mut seen: usize = 0;
    let mut i: usize = 0;
    proof {
        reveal(Seq::filter);
        assert(all.take(0) =~= Seq::<ItemView>::empty());
    }
    while i < items.len()
        invariant
            0 <= i <= items.len(),
            all == views(items@),
            seen == filtered(all.take(i as int), filter).len(),
            seen <= index,
            seen <= i,
        decreases items.len() - i,
    {
        proof {
            lemma_filter_push(all.take(i as int), all[i as int], filter);
            assert(all.take(i + 1) =~= all.take(i as int).push(all[i as int]));
        }
        if filter.admits(&items[i]) {
            if seen == index {
                return Some(i);
            }
            seen += 1;
        }
        i += 1;
    }
    proof {
        assert(all.take(items@.len() as int) =~= all);
    }
    None
}

/// The operations of Remove: one delete at the item's place in the list.
pub open spec fn remove_plan(at: int) -> Seq<LocalChangeView> {
    seq![delete_at(at as nat)]
}

/// The rows that a reader of the filtered list sees: for each item that the
/// filter lets through, in order, its place in the whole list and the item.
pub fn shown_rows(items: &Vec<Item>, filter: Filter) -> (rows: Vec<(usize, Item)>)
    ensures
        rows@.len() == filtered(views(items@), filter).len(),
        forall|k: int|
            0 <= k < rows@.len() ==> shown_at(
                views(items@),
                filter,
                k as nat,
                (#[trigger] rows@[k]).0 as int,
            ) && rows@[k].1@ == views(items@)[rows@[k].0 as int],
{
    let ghost all = views(items@);
    let mut rows: Vec<(usize, Item)> = Vec::new();
    let mut i: usize = 0;
    proof {
        reveal(Seq::filter);
        assert(all.take(0) =~= Seq::<ItemView>::empty());
    }
    while i < items.len()
        invariant
            0 <= i <= items.len(),
            all == views(items@),
            rows@.len() == filtered(all.take(i as int), filter).len(),
            forall|k: int|
                0 <= k < rows@.len() ==> shown_at(
                    all,
                    filter,
                    k as nat,
                    (#[trigger] rows@[k]).0 as int,
                )
                    && rows@[k].1@ == all[rows@[k].0 as int],
        decreases items.len() - i,
    {
        proof {
            lemma_filter_push(all.take(i as int), all[i as int], filter);
            assert(all.take(i + 1) =~= all.take(i as int).push(all[i as int]));
        }
        if filter.admits(&items[i]) {
            rows.push((i, items[i].clone()));
        }
        i += 1;
    }
    proof {
        assert(all.take(items@.len() as int) =~= all);
    }
    rows
}

/// Remove: delete the item that a reader of the filtered list sees at `index`.
pub fn remove_ops(items: &Vec<Item>, filter: Filter, index: usize) -> (out: Result<
    Vec<LocalChange>,
    InvalidChangeRequest,
>)
    ensures
        match out {
            Ok(ops) => exists|at: int|
                {
                    &&& shown_at(views(items@), filter, index as nat, at)
                    &&& at <= capacity()
                    &&& op_views(ops@) == remove_plan(at)
                    &&& #[trigger] apply_ops(views(items@), op_views(ops@)) == Ok::<
                        Seq<ItemView>,
                        InvalidChangeRequest,
                    >(views(items@).remove(at))
                },
            Err(reason) => {
                &&& reason == InvalidChangeRequest::OutOfBounds
                &&& index >= filtered(views(items@), filter).len() || exists|at: int|
                    shown_at(views(items@), filter, index as nat, at) && at > capacity()
            },
        },
{
    let at = match absolute_index(items, filter, index) {
        Some(at) => at,
        None => {
            return Err(InvalidChangeRequest::OutOfBounds);
        },
    };
    if at > 0xffff_ffff {
        return Err(InvalidChangeRequest::OutOfBounds);
    }
    let mut ops: Vec<LocalChange> = Vec::new();
    ops.push(LocalChange::delete(element_path(at as u32)));
    proof {
        let before = views(items@);
        assert(op_views(ops@) =~= Seq::<LocalChangeView>::empty().push(ops@[0]@));
        assert(op_views(ops@) =~= remove_plan(at as int));
        lemma_apply_ops_push(before, Seq::<LocalChangeView>::empty(), ops@[0]@);
    }
    Ok(ops)
}

/// The list with the `done` mark of the item at `at` flipped.
pub open spec fn toggled(items: Seq<ItemView>, at: int) -> Seq<ItemView> {
    items.update(at, ItemView { done: !items[at].done, ..items[at] })
}

/// The operations of Toggle: one mark, the opposite of the item's.
pub open spec fn toggle_plan(items: Seq<ItemView>, at: int) -> Seq<LocalChangeView> {
    seq![mark_at(at as nat, !items[at].done)]
}

/// Toggle: flip the `done` mark of the item at `index`.
pub fn toggle_ops(items: &Vec<Item>, index: usize) -> (out: Result<
    Vec<LocalChange>,
    InvalidChangeRequest,
>)
    ensures
        match out {
            Ok(ops) => {
                &&& index < items@.len()
                &&& index <= capacity()
                &&& op_views(ops@) == toggle_plan(views(items@), index as int)
                &&& apply_ops(views(items@), op_views(ops@)) == Ok::<
                    Seq<ItemView>,
                    InvalidChangeRequest,
                >(toggled(views(items@), index as int))
            },
            Err(reason) => {
                &&& reason == InvalidChangeRequest::OutOfBounds
                &&& index >= items@.len() || index > capacity()
            },
        },
{
    if index >= items.len() || index > 0xffff_ffff {
        return Err(InvalidChangeRequest::OutOfBounds);
    }
    let current = items[index].done;
    let mut ops: Vec<LocalChange> = Vec::new();
    ops.push(LocalChange::set(completed_path(index as u32), DocValue::Bool(!current)));
    proof {
        let before = views(items@);
        crate::items::lemma_record_keys();
        assert(op_views(ops@) =~= Seq::<LocalChangeView>::empty().push(ops@[0]@));
        assert(op_views(ops@) =~= toggle_plan(before, index as int));
        lemma_apply_ops_push(before, Seq::<LocalChangeView>::empty(), ops@[0]@);
    }
    Ok(ops)
}

/// Some item that the filter lets through has the id `id`.
pub open spec fn shows_id(items: Seq<ItemView>, filter: Filter, id: Seq<char>) -> bool {
    exists|j: int| 0 <= j < items.len() && filter.accepts(#[trigger] items[j]) && items[j].id == id
}

/// Some item that the filter lets through is not done.
pub open spec fn any_left(items: Seq<ItemView>, filter: Filter) -> bool {
    exists|j: int| 0 <= j < items.len() && filter.accepts(#[trigger] items[j]) && !items[j].done
}

/// The list with every item done whose id is that of an item that the filter lets through.
pub open spec fn all_marked(items: Seq<ItemView>, filter: Filter) -> Seq<ItemView> {
    Seq::new(
        items.len(),
        |i: int|
            if shows_id(items, filter, items[i].id) {
                ItemView { done: true, ..items[i] }
            } else {
                items[i]
            },
    )
}

/// The list in which the first `upto` items have been dealt with as `all_marked` does.
pub open spec fn marked_upto(items: Seq<ItemView>, filter: Filter, upto: int) -> Seq<ItemView> {
    Seq::new(
        items.len(),
        |i: int|
            if i < upto && shows_id(items, filter, items[i].id) {
                ItemView { done: true, ..items[i] }
            } else {
                items[i]
            },
    )
}

/// The marks that ToggleAll gives the first `upto` items: one for every
/// item whose id is that of an item that the filter lets through.
pub open spec fn marks_upto(items: Seq<ItemView>, filter: Filter, upto: int) -> Seq<
    LocalChangeView,
>
    decreases upto,
{
    if upto <= 0 {
        Seq::empty()
    } else if shows_id(items, filter, items[upto - 1].id) {
        marks_upto(items, filter, upto - 1).push(mark_at((upto - 1) as nat, true))
    } else {
        marks_upto(items, filter, upto - 1)
    }
}

/// The operations of ToggleAll: none where nothing that the filter lets
/// through is left undone, else a mark for every item shown by id.
pub open spec fn toggle_all_plan(items: Seq<ItemView>, filter: Filter) -> Seq<LocalChangeView> {
    if any_left(items, filter) {
        marks_upto(items, filter, items.len() as int)
    } else {
        Seq::empty()
    }
}

/// Whether some item that the filter lets through has the id `id`.
pub fn has_shown_id(items: &Vec<Item>, filter: Filter, id: &String) -> (b: bool)
    ensures
        b == shows_id(views(items@), filter, id@),
{
    let ghost all = views(items@);
    let mut j: usize = 0;
    while j < items.len()
        invariant
            0 <= j <= items.len(),
            all == views(items@),
            forall|k: int| 0 <= k < j ==> !(filter.accepts(#[trigger] all[k]) && all[k].id == id@),
        decreases items.len() - j,
    {
        if filter.admits(&items[j]) && items[j].id == *id {
            assert(filter.accepts(all[j as int]) && all[j as int].id == id@);
            return true;
        }
        j += 1;
    }
    false
}

/// Whether some item that the filter lets through is not done.
pub fn has_left(items: &Vec<Item>, filter: Filter) -> (b: bool)
    ensures
        b == any_left(views(items@), filter),
{
    let ghost all = views(items@);
    let mut j: usize = 0;
    while j < items.len()
        invariant
            0 <= j <= items.len(),
            all == views(items@),
            forall|k: int| 0 <= k < j ==> !(filter.accepts(#[trigger] all[k]) && !all[k].done),
        decreases items.len() - j,
    {
        if filter.admits(&items[j]) && !items[j].done {
            assert(filter.accepts(all[j as int]) && !all[j as int].done);
            return true;
        }
        j += 1;
    }
    false
}

/// ToggleAll: where some item that the filter lets through is not done, mark
/// as done every item whose id is that of an item that the filter lets
/// through; otherwise nothing.
pub fn toggle_all_ops(items: &Vec<Item>, filter: Filter) -> (out: Result<
    Vec<LocalChange>,
    InvalidChangeRequest,
>)
    ensures
        match out {
            Ok(ops) => op_views(ops@) == toggle_all_plan(views(items@), filter) && if any_left(
                views(items@),
                filter,
            ) {
                &&& items@.len() <= capacity()
                &&& ops@.len() > 0
                &&& apply_ops(views(items@), op_views(ops@)) == Ok::<
                    Seq<ItemView>,
                    InvalidChangeRequest,
                >(all_marked(views(items@), filter))
            } else {
                ops@.len() == 0
            },
            Err(reason) => {
                &&& reason == InvalidChangeRequest::OutOfBounds
                &&& any_left(views(items@), filter)
                &&& items@.len() > capacity()
            },
        },
{
    let mut ops: Vec<LocalChange> = Vec::new();
    if !has_left(items, filter) {
        assert(op_views(ops@) =~= Seq::<LocalChangeView>::empty());
        return Ok(ops);
    }
    if items.len() > 0xffff_ffff {
        return Err(InvalidChangeRequest::OutOfBounds);
    }
    let ghost all = views(items@);
    let mut i: usize = 0;
    proof {
        assert(marked_upto(all, filter, 0) =~= all);
        assert(op_views(ops@) =~= Seq::<LocalChangeView>::empty());
    }
    while i < items.len()
        invariant
            0 <= i <= items.len(),
            items@.len() <= capacity(),
            all == views(items@),
            op_views(ops@) == marks_upto(all, filter, i as int),
            apply_ops(all, op_views(ops@)) == Ok::<Seq<ItemView>, InvalidChangeRequest>(
                marked_upto(all, filter, i as int),
            ),
            ops@.len() > 0 <==> exists|k: int|
                0 <= k < i && shows_id(all, filter, #[trigger] all[k].id),
        decreases items.len() - i,
    {
        let ghost before_ops = op_views(ops@);
        let ghost before = marked_upto(all, filter, i as int);
        if has_shown_id(items, filter, &items[i].id) {
            ops.push(LocalChange::set(completed_path(i as u32), DocValue::Bool(true)));
            proof {
                crate::items::lemma_record_keys();
                let op = ops@[ops@.len() - 1]@;
                assert(op_views(ops@) =~= before_ops.push(op));
                lemma_apply_ops_push(all, before_ops, op);
                assert(before.update(i as int, ItemView { done: true, ..before[i as int] })
                    =~= marked_upto(all, filter, i + 1));
                assert(shows_id(all, filter, all[i as int].id));
            }
        } else {
            proof {
                assert(before =~= marked_upto(all, filter, i + 1));
            }
        }
        i += 1;
    }
    proof {
        assert(marked_upto(all, filter, items@.len() as int) =~= all_marked(all, filter));
        let j = choose|j: int|
            0 <= j < all.len() && filter.accepts(#[trigger] all[j]) && !all[j].done;
        assert(shows_id(all, filter, all[j].id));
    }
    Ok(ops)
}

/// The items that are not done, in their order.
pub open spec fn cleared(items: Seq<ItemView>) -> Seq<ItemView> {
    filtered(items, Filter::Active)
}

/// The operations of ClearCompleted: for every item that is done, in the
/// order of the list, a delete at the place where the item stands once the
/// done items before it are gone.
pub open spec fn clear_plan(items: Seq<ItemView>) -> Seq<LocalChangeView>
    decreases items.len(),
{
    if items.len() == 0 {
        Seq::empty()
    } else if items.last().done {
        clear_plan(items.drop_last()).push(delete_at(cleared(items.drop_last()).len()))
    } else {
        clear_plan(items.drop_last())
    }
}

/// ClearCompleted: delete every item that is done. The position of each
/// delete is the item's position in the list as the deletes before it left it.
pub fn clear_completed_ops(items: &Vec<Item>) -> (out: Result<
    Vec<LocalChange>,
    InvalidChangeRequest,
>)
    ensures
        match out {
            Ok(ops) => {
                &&& items@.len() <= capacity()
                &&& op_views(ops@) == clear_plan(views(items@))
                &&& ops@.len() == items@.len() - cleared(views(items@)).len()
                &&& apply_ops(views(items@), op_views(ops@)) == Ok::<
                    Seq<ItemView>,
                    InvalidChangeRequest,
                >(cleared(views(items@)))
            },
            Err(reason) => reason == InvalidChangeRequest::OutOfBounds && items@.len()
                > capacity(),
        },
{
    if items.len() > 0xffff_ffff {
        return Err(InvalidChangeRequest::OutOfBounds);
    }
    let ghost all = views(items@);
    let mut ops: Vec<LocalChange> = Vec::new();
    // `read` walks the list as it was; `at` is where that item stands now.
    let mut read: usize = 0;
    let mut at: usize = 0;
    proof {
        reveal(Seq::filter);
        assert(all.take(0) =~= Seq::<ItemView>::empty());
        assert(cleared(all.take(0)) + all.skip(0) =~= all);
        assert(op_views(ops@) =~= Seq::<LocalChangeView>::empty());
    }
    while read < items.len()
        invariant
            0 <= at <= read <= items.len(),
            items@.len() <= capacity(),
            all == views(items@),
            at == cleared(all.take(read as int)).len(),
            ops@.len() == read - at,
            op_views(ops@) == clear_plan(all.take(read as int)),
            apply_ops(all, op_views(ops@)) == Ok::<Seq<ItemView>, InvalidChangeRequest>(
                cleared(all.take(read as int)) + all.skip(read as int),
            ),
        decreases items.len() - read,
    {
        let ghost before_ops = op_views(ops@);
        let ghost kept = cleared(all.take(read as int));
        let ghost before = kept + all.skip(read as int);
        proof {
            lemma_filter_push(all.take(read as int), all[read as int], Filter::Active);
            assert(all.take(read + 1) =~= all.take(read as int).push(all[read as int]));
            assert(all.take(read + 1).drop_last() =~= all.take(read as int));
        }
        if items[read].done {
            ops.push(LocalChange::delete(element_path(at as u32)));
            proof {
                let op = ops@[ops@.len() - 1]@;
                assert(op_views(ops@) =~= before_ops.push(op));
                lemma_apply_ops_push(all, before_ops, op);
                assert(before.remove(at as int) =~= kept + all.skip(read + 1));
            }
        } else {
            proof {
                assert(before =~= kept.push(all[read as int]) + all.skip(read + 1));
            }
            at += 1;
        }
        read += 1;
    }
    proof {
        assert(all.take(items@.len() as int) =~= all);
        assert(cleared(all) + all.skip(items@.len() as int) =~= cleared(all));
    }
    Ok(ops)
}

/// The operations of Replace: as many deletes at the front as the list
/// has items, then the new items inserted one after the other.
pub open spec fn replace_plan(count: nat, with: Seq<ItemView>) -> Seq<LocalChangeView> {
    Seq::new(count, |i: int| delete_at(0)) + Seq::new(
        with.len(),
        |j: int| insert_at(j as nat, with[j]),
    )
}

/// Replace: delete every item of the list, then insert the given ones in
/// their order.
pub fn replace_ops(items: &Vec<Item>, with: &Vec<Item>) -> (out: Result<
    Vec<LocalChange>,
    InvalidChangeRequest,
>)
    ensures
        match out {
            Ok(ops) => {
                &&& with@.len() <= capacity()
                &&& op_views(ops@) == replace_plan(items@.len(), views(with@))
                &&& ops@.len() == items@.len() + with@.len()
                &&& apply_ops(views(items@), op_views(ops@)) == Ok::<
                    Seq<ItemView>,
                    InvalidChangeRequest,
                >(views(with@))
            },
            Err(reason) => reason == InvalidChangeRequest::OutOfBounds && with@.len()
                > capacity(),
        },
{
    if with.len() > 0xffff_ffff {
        return Err(InvalidChangeRequest::OutOfBounds);
    }
    let ghost all = views(items@);
    let ghost target = views(with@);
    let mut ops: Vec<LocalChange> = Vec::new();
    let mut gone: usize = 0;
    proof {
        assert(op_views(ops@) =~= Seq::<LocalChangeView>::empty());
        assert(all.skip(0) =~= all);
    }
    while gone < items.len()
        invariant
            0 <= gone <= items.len(),
            all == views(items@),
            ops@.len() == gone,
            op_views(ops@) == Seq::new(gone as nat, |i: int| delete_at(0)),
            apply_ops(all, op_views(ops@)) == Ok::<Seq<ItemView>, InvalidChangeRequest>(
                all.skip(gone as int),
            ),
        decreases items.len() - gone,
    {
        let ghost before_ops = op_views(ops@);
        ops.push(LocalChange::delete(element_path(0)));
        proof {
            let op = ops@[ops@.len() - 1]@;
            assert(op_views(ops@) =~= before_ops.push(op));
            lemma_apply_ops_push(all, before_ops, op);
            assert(all.skip(gone as int).remove(0) =~= all.skip(gone + 1));
            assert(op_views(ops@) =~= Seq::new((gone + 1) as nat, |i: int| delete_at(0)));
        }
        gone += 1;
    }
    let mut put: usize = 0;
    proof {
        assert(all.skip(items@.len() as int) =~= target.take(0));
        assert(op_views(ops@) =~= replace_plan(items@.len(), target.take(0)));
    }
    while put < with.len()
        invariant
            0 <= put <= with.len(),
            with@.len() <= capacity(),
            target == views(with@),
            ops@.len() == items@.len() + put,
            op_views(ops@) == replace_plan(items@.len(), target.take(put as int)),
            apply_ops(all, op_views(ops@)) == Ok::<Seq<ItemView>, InvalidChangeRequest>(
                target.take(put as int),
            ),
        decreases with.len() - put,
    {
        let ghost before_ops = op_views(ops@);
        ops.push(LocalChange::insert(element_path(put as u32), with[put].to_value()));
        proof {
            let op = ops@[ops@.len() - 1]@;
            assert(op_views(ops@) =~= before_ops.push(op));
            lemma_apply_ops_push(all, before_ops, op);
            assert(target.take(put as int).insert(put as int, with@[put as int]@) =~= target.take(
                put + 1,
            ));
            assert(op_views(ops@) =~= replace_plan(items@.len(), target.take(put + 1)));
        }
        put += 1;
    }
    proof {
        assert(target.take(with@.len() as int) =~= target);
    }
    Ok(ops)
}

} // verus!
