//! Structural operations on the todo list and what they do to it.

use vstd::prelude::*;
use crate::items::{item_of, views, Item, ItemView};
use crate::path::{Path, Step, StepView};
use crate::value::{DocValue, ValueView};

verus! {

/// One structural operation, as a local writer stages it.
#[derive(Debug)]
pub enum LocalChange {
    /// Put `value` in front of the element that `path` addresses.
    Insert { path: Path, value: DocValue },
    /// Take out the element that `path` addresses.
    Delete { path: Path },
    /// Overwrite the field that `path` addresses with `value`.
    Assign { path: Path, value: DocValue },
}

/// The mathematical model of a [`LocalChange`].
pub enum LocalChangeView {
    Insert { path: Seq<StepView>, value: ValueView },
    Delete { path: Seq<StepView> },
    Assign { path: Seq<StepView>, value: ValueView },
}

impl View for LocalChange {
    type V = LocalChangeView;

    open spec fn view(&self) -> LocalChangeView {
        match self {
            LocalChange::Insert { path, value } => LocalChangeView::Insert {
                path: path@,
                value: value@,
            },
            LocalChange::Delete { path } => LocalChangeView::Delete { path: path@ },
            LocalChange::Assign { path, value } => LocalChangeView::Assign {
                path: path@,
                value: value@,
            },
        }
    }
}

/// Why an operation cannot be applied to the list as it stands.
#[derive(PartialEq, Eq, Clone, Copy, Debug, Structural)]
pub enum InvalidChangeRequest {
    /// The path addresses nothing that the operation can act on.
    NoSuchPath,
    /// The path's position lies past the end of the list.
    OutOfBounds,
    /// The value is not of the kind that the addressed place holds.
    WrongType,
}

impl InvalidChangeRequest {
    /// What went wrong, in words.
    pub fn message(&self) -> (text: String)
        ensures
            text@ == match self {
                InvalidChangeRequest::NoSuchPath => "the path does not exist"@,
                InvalidChangeRequest::OutOfBounds => "the index is out of bounds"@,
                InvalidChangeRequest::WrongType => "the value has the wrong type for the path"@,
            },
    {
        match self {
            InvalidChangeRequest::NoSuchPath => String::from_str("the path does not exist"),
            InvalidChangeRequest::OutOfBounds => String::from_str("the index is out of bounds"),
            InvalidChangeRequest::WrongType => String::from_str(
                "the value has the wrong type for the path",
            ),
        }
    }
}

/// The path that an operation acts on.
pub open spec fn path_of(op: LocalChangeView) -> Seq<StepView> {
    match op {
        LocalChangeView::Insert { path, .. } => path,
        LocalChangeView::Delete { path } => path,
        LocalChangeView::Assign { path, .. } => path,
    }
}

/// The models of a sequence of operations, in order.
pub open spec fn op_views(ops: Seq<LocalChange>) -> Seq<LocalChangeView> {
    ops.map_values(|op: LocalChange| op@)
}

/// The position that an element path `todos[i]` addresses.
pub open spec fn element_of(path: Seq<StepView>) -> Option<nat> {
    if path.len() == 2 && path[0] == StepView::Key("todos"@) && path[1] is Index {
        Some(path[1]->Index_0)
    } else {
        None
    }
}

/// The position and key that a field path `todos[i].key` addresses.
pub open spec fn field_of(path: Seq<StepView>) -> Option<(nat, Seq<char>)> {
    if path.len() == 3 && path[0] == StepView::Key("todos"@) && path[1] is Index && path[2] is Key {
        Some((path[1]->Index_0, path[2]->Key_0))
    } else {
        None
    }
}

/// The list after one operation, or why the operation is refused.
///
/// An insert takes an element path at most one past the end and an item
/// record. A delete takes the path of an existing element. A set takes the
/// path of the `completed` field of an existing element with a boolean, or
/// of its `value` field with a string; an item's `id` is never overwritten.
pub open spec fn apply_op(items: Seq<ItemView>, op: LocalChangeView) -> Result<
    Seq<ItemView>,
    InvalidChangeRequest,
> {
    match op {
        LocalChangeView::Insert { path, value } => match element_of(path) {
            None => Err(InvalidChangeRequest::NoSuchPath),
            Some(at) => if at > items.len() {
                Err(InvalidChangeRequest::OutOfBounds)
            } else {
                match item_of(value) {
                    Ok(item) => Ok(items.insert(at as int, item)),
                    Err(_) => Err(InvalidChangeRequest::WrongType),
                }
            },
        },
        LocalChangeView::Delete { path } => match element_of(path) {
            None => Err(InvalidChangeRequest::NoSuchPath),
            Some(at) => if at >= items.len() {
                Err(InvalidChangeRequest::OutOfBounds)
            } else {
                Ok(items.remove(at as int))
            },
        },
        LocalChangeView::Assign { path, value } => match field_of(path) {
            None => Err(InvalidChangeRequest::NoSuchPath),
            Some((at, key)) => if key != "completed"@ && key != "value"@ {
                Err(InvalidChangeRequest::NoSuchPath)
            } else if at >= items.len() {
                Err(InvalidChangeRequest::OutOfBounds)
            } else if key == "completed"@ {
                match value {
                    ValueView::Bool(done) => Ok(
                        items.update(at as int, ItemView { done, ..items[at as int] }),
                    ),
                    _ => Err(InvalidChangeRequest::WrongType),
                }
            } else {
                match value {
                    ValueView::Str(task) => Ok(
                        items.update(at as int, ItemView { task, ..items[at as int] }),
                    ),
                    _ => Err(InvalidChangeRequest::WrongType),
                }
            },
        },
    }
}

/// The list after the operations, each applied to what the one before it
/// left; the first refusal ends it.
pub open spec fn apply_ops(items: Seq<ItemView>, ops: Seq<LocalChangeView>) -> Result<
    Seq<ItemView>,
    InvalidChangeRequest,
>
    decreases ops.len(),
{
    if ops.len() == 0 {
        Ok(items)
    } else {
        match apply_ops(items, ops.drop_last()) {
            Ok(before) => apply_op(before, ops.last()),
            Err(reason) => Err(reason),
        }
    }
}

/// Operations applied one batch after the other are the two batches applied as one.
pub proof fn lemma_apply_ops_concat(
    items: Seq<ItemView>,
    first: Seq<LocalChangeView>,
    second: Seq<LocalChangeView>,
)
    ensures
        apply_ops(items, first + second) == match apply_ops(items, first) {
            Ok(between) => apply_ops(between, second),
            Err(reason) => Err(reason),
        },
    decreases second.len(),
{
    if second.len() == 0 {
        assert(first + second =~= first);
    } else {
        assert((first + second).drop_last() =~= first + second.drop_last());
        assert((first + second).last() == second.last());
        lemma_apply_ops_concat(items, first, second.drop_last());
    }
}

impl LocalChange {
    /// The operation that puts `value` in front of the element at `path`.
    pub fn insert(path: Path, value: DocValue) -> (op: LocalChange)
        ensures
            op@ == (LocalChangeView::Insert { path: path@, value: value@ }),
    {
        LocalChange::Insert { path, value }
    }

    /// The operation that takes out the element at `path`.
    pub fn delete(path: Path) -> (op: LocalChange)
        ensures
            op@ == (LocalChangeView::Delete { path: path@ }),
    {
        LocalChange::Delete { path }
    }

    /// The operation that overwrites the field at `path` with `value`.
    pub fn set(path: Path, value: DocValue) -> (op: LocalChange)
        ensures
            op@ == (LocalChangeView::Assign { path: path@, value: value@ }),
    {
        LocalChange::Assign { path, value }
    }

    /// The path that the operation acts on.
    pub fn path(&self) -> (path: &Path)
        ensures
            path@ == path_of(self@),
    {
        match self {
            LocalChange::Insert { path, .. } => path,
            LocalChange::Delete { path } => path,
            LocalChange::Assign { path, .. } => path,
        }
    }
}

/// Whether `key` is the string `text`.
fn key_is(key: &String, text: &str) -> (b: bool)
    ensures
        b == (key@ == text@),
{
    *key == String::from_str(text)
}

/// The position that an element path addresses.
pub fn element(path: &Path) -> (out: Option<u32>)
    ensures
        match out {
            Some(at) => element_of(path@) == Some(at as nat),
            None => element_of(path@) is None,
        },
{
    if path.len() != 2 {
        return None;
    }
    match (path.step(0), path.step(1)) {
        (Step::Key(key), Step::Index(at)) => if key_is(key, "todos") {
            Some(*at)
        } else {
            None
        },
        _ => None,
    }
}

/// The position and key that a field path addresses.
pub fn field(path: &Path) -> (out: Option<(u32, &String)>)
    ensures
        match out {
            Some((at, key)) => field_of(path@) == Some((at as nat, key@)),
            None => field_of(path@) is None,
        },
{
    if path.len() != 3 {
        return None;
    }
    match (path.step(0), path.step(1), path.step(2)) {
        (Step::Key(root), Step::Index(at), Step::Key(key)) => if key_is(root, "todos") {
            Some((*at, key))
        } else {
            None
        },
        _ => None,
    }
}

/// Applies one operation to the list in place; a refused operation leaves
/// the list as it was.
pub fn stage(items: &mut Vec<Item>, op: &LocalChange) -> (out: Result<(), InvalidChangeRequest>)
    ensures
        match apply_op(views(old(items)@), op@) {
            Ok(after) => out is Ok && views(final(items)@) == after,
            Err(reason) => out == Err::<(), InvalidChangeRequest>(reason) && final(items)@ == old(
                items,
            )@,
        },
{
    match op {
        LocalChange::Insert { path, value } => {
            let at = match element(path) {
                Some(at) => at as usize,
                None => {
                    return Err(InvalidChangeRequest::NoSuchPath);
                },
            };
            if at > items.len() {
                return Err(InvalidChangeRequest::OutOfBounds);
            }
            match Item::try_from(value) {
                Ok(item) => {
                    items.insert(at, item);
                    proof {
                        assert(views(items@) =~= views(old(items)@).insert(at as int, item@));
                    }
                    Ok(())
                },
                Err(_) => Err(InvalidChangeRequest::WrongType),
            }
        },
        LocalChange::Delete { path } => {
            let at = match element(path) {
                Some(at) => at as usize,
                None => {
                    return Err(InvalidChangeRequest::NoSuchPath);
                },
            };
            if at >= items.len() {
                return Err(InvalidChangeRequest::OutOfBounds);
            }
            items.remove(at);
            proof {
                assert(views(items@) =~= views(old(items)@).remove(at as int));
            }
            Ok(())
        },
        LocalChange::Assign { path, value } => {
            let (at, key) = match field(path) {
                Some((at, key)) => (at as usize, key),
                None => {
                    return Err(InvalidChangeRequest::NoSuchPath);
                },
            };
            let completed = key_is(key, "completed");
            if !completed && !key_is(key, "value") {
                return Err(InvalidChangeRequest::NoSuchPath);
            }
            if at >= items.len() {
                return Err(InvalidChangeRequest::OutOfBounds);
            }
            let mut item = items[at].clone();
            match (completed, value) {
                (true, DocValue::Bool(done)) => {
                    item.done = *done;
                },
                (false, DocValue::Str(task)) => {
                    item.task = task.clone();
                },
                _ => {
                    return Err(InvalidChangeRequest::WrongType);
                },
            }
            items.set(at, item);
            proof {
                assert(views(items@) =~= views(old(items)@).update(at as int, item@));
            }
            Ok(())
        },
    }
}

/// Applies the operations in order to a copy of the list. The result is the
/// list after all of them, or the first refusal.
pub fn stage_all(items: &Vec<Item>, ops: &Vec<LocalChange>) -> (out: Result<
    Vec<Item>,
    InvalidChangeRequest,
>)
    ensures
        match apply_ops(views(items@), op_views(ops@)) {
            Ok(after) => out is Ok && views(out->Ok_0@) == after,
            Err(reason) => out == Err::<Vec<Item>, InvalidChangeRequest>(reason),
        },
{
    let mut staged = crate::items::copy_items(items);
    let mut i: usize = 0;
    proof {
        assert(op_views(ops@).take(0) =~= Seq::<LocalChangeView>::empty());
    }
    while i < ops.len()
        invariant
            0 <= i <= ops.len(),
            apply_ops(views(items@), op_views(ops@).take(i as int)) == Ok::<
                Seq<ItemView>,
                InvalidChangeRequest,
            >(views(staged@)),
        decreases ops.len() - i,
    {
        let ghost done = op_views(ops@).take(i as int);
        let ghost next = op_views(ops@).take(i + 1);
        proof {
            assert(next.drop_last() =~= done);
            assert(next.last() == ops@[i as int]@);
        }
        match stage(&mut staged, &ops[i]) {
            Ok(()) => {},
            Err(reason) => {
                proof {
                    lemma_apply_ops_stops(views(items@), op_views(ops@), i + 1);
                }
                return Err(reason);
            },
        }
        i += 1;
    }
    proof {
        assert(op_views(ops@).take(ops@.len() as int) =~= op_views(ops@));
    }
    Ok(staged)
}

/// Once a prefix of the operations is refused, the whole sequence is, for the same reason.
pub proof fn lemma_apply_ops_stops(items: Seq<ItemView>, ops: Seq<LocalChangeView>, upto: int)
    requires
        0 <= upto <= ops.len(),
        apply_ops(items, ops.take(upto)) is Err,
    ensures
        apply_ops(items, ops) == apply_ops(items, ops.take(upto)),
{
    assert(ops =~= ops.take(upto) + ops.skip(upto));
    lemma_apply_ops_concat(items, ops.take(upto), ops.skip(upto));
}

} // verus!
