//! Todo items and their projection out of a materialized document.

use vstd::prelude::*;
use crate::value::{DocValue, ValueView};

verus! {

/// One entry of the todo list.
#[derive(Debug)]
pub struct Item {
    pub task: String,
    pub id: String,
    pub done: bool,
}

/// The mathematical model of an [`Item`].
pub struct ItemView {
    pub task: Seq<char>,
    pub id: Seq<char>,
    pub done: bool,
}

impl View for Item {
    type V = ItemView;

    open spec fn view(&self) -> ItemView {
        ItemView { task: self.task@, id: self.id@, done: self.done }
    }
}

impl Clone for Item {
    fn clone(&self) -> (out: Item)
        ensures
            out == *self,
    {
        Item { task: self.task.clone(), id: self.id.clone(), done: self.done }
    }
}

/// The item with this text and id that is not yet done.
pub open spec fn fresh_item(task: Seq<char>, id: Seq<char>) -> ItemView {
    ItemView { task, id, done: false }
}

/// The item's text as it is shown: in markup that strikes it through once
/// the item is done.
pub open spec fn label_of(item: ItemView) -> Seq<char> {
    if item.done {
        "<span strikethrough=\"true\" alpha=\"50%\">"@ + item.task + "</span>"@
    } else {
        item.task
    }
}

/// The models of a sequence of items, in order.
pub open spec fn views(items: Seq<Item>) -> Seq<ItemView> {
    items.map_values(|item: Item| item@)
}

/// What an item record of a document stands for: an object whose `id` and
/// `value` are strings and whose `completed` is a boolean.
pub open spec fn item_of(value: ValueView) -> Result<ItemView, Seq<char>> {
    match value {
        ValueView::Object(_) => match (
            value.field("id"@),
            value.field("value"@),
            value.field("completed"@),
        ) {
            (
                Some(ValueView::Str(id)),
                Some(ValueView::Str(task)),
                Some(ValueView::Bool(done)),
            ) => Ok(ItemView { task, id, done }),
            _ => Err("invalid value for item"@),
        },
        _ => Err("attempted to create an item from a non-map type"@),
    }
}

/// Every element of the sequence is an item record.
pub open spec fn all_items(elems: Seq<ValueView>) -> bool {
    forall|i: int| 0 <= i < elems.len() ==> (#[trigger] item_of(elems[i])) is Ok
}

/// `i` is the first element that is no item record.
pub open spec fn first_bad(elems: Seq<ValueView>, i: int) -> bool {
    &&& 0 <= i < elems.len()
    &&& item_of(elems[i]) is Err
    &&& forall|j: int| 0 <= j < i ==> (#[trigger] item_of(elems[j])) is Ok
}

/// What a document stands for: the items under its `todos` key, in order;
/// failing that, the reason, which for a bad element is that of the first one.
pub open spec fn items_of(value: ValueView) -> Result<Seq<ItemView>, Seq<char>> {
    match value {
        ValueView::Object(_) => match value.field("todos"@) {
            None => Err("No 'todos' key found"@),
            Some(ValueView::List(elems)) => if all_items(elems) {
                Ok(Seq::new(elems.len(), |i: int| item_of(elems[i])->Ok_0))
            } else {
                Err(item_of(elems[choose|i: int| first_bad(elems, i)])->Err_0)
            },
            Some(_) => Err("todos key did not contain a sequence"@),
        },
        _ => Err("attempted to create items from something which wasn't a map"@),
    }
}

/// The record that stands for an item: the inverse of `item_of`.
pub open spec fn record_of(item: ItemView) -> ValueView {
    ValueView::Object(
        map![
            "value"@ => ValueView::Str(item.task),
            "completed"@ => ValueView::Bool(item.done),
            "id"@ => ValueView::Str(item.id),
        ],
    )
}

/// The three keys of an item record differ from one another.
pub proof fn lemma_record_keys()
    ensures
        "value"@ != "completed"@,
        "value"@ != "id"@,
        "completed"@ != "id"@,
{
    reveal_strlit("value");
    reveal_strlit("completed");
    reveal_strlit("id");
    assert("value"@.len() == 5);
    assert("completed"@.len() == 9);
    assert("id"@.len() == 2);
}

/// Reading back the record of an item gives the item.
pub proof fn lemma_record_round_trip(item: ItemView)
    ensures
        item_of(record_of(item)) == Ok::<ItemView, Seq<char>>(item),
{
    lemma_record_keys();
}

impl Item {
    /// An item with the given text and id, not yet done.
    pub fn with_id(label: &str, id: String) -> (item: Item)
        ensures
            item@ == fresh_item(label@, id@),
    {
        Item { task: String::from_str(label), id, done: false }
    }

    /// A new item with the given text, not yet done, under a fresh random
    /// id: a UUID in its 36 characters.
    pub fn new(label: &str) -> (item: Item)
        ensures
            item@.task == label@,
            !item@.done,
            item@.id.len() == 36,
    {
        Item::with_id(label, fresh_id())
    }

    /// The item's text as it is shown: struck through once the item is done.
    pub fn label(&self) -> (label: String)
        ensures
            label@ == label_of(self@),
    {
        if self.done {
            let mut label = String::from_str("<span strikethrough=\"true\" alpha=\"50%\">");
            label.append(self.task.as_str());
            label.append("</span>");
            label
        } else {
            self.task.clone()
        }
    }

    /// Reads an item out of its record.
    pub fn try_from(value: &DocValue) -> (out: Result<Item, String>)
        ensures
            match out {
                Ok(item) => item_of(value@) == Ok::<ItemView, Seq<char>>(item@),
                Err(reason) => item_of(value@) == Err::<ItemView, Seq<char>>(reason@),
            },
    {
        match value {
            DocValue::Object(_) => {
                let id = value.get(&String::from_str("id"));
                let task = value.get(&String::from_str("value"));
                let completed = value.get(&String::from_str("completed"));
                match (id, task, completed) {
                    (
                        Some(DocValue::Str(id)),
                        Some(DocValue::Str(task)),
                        Some(DocValue::Bool(done)),
                    ) => Ok(Item { id: id.clone(), task: task.clone(), done: *done }),
                    _ => Err(String::from_str("invalid value for item")),
                }
            },
            _ => Err(String::from_str("attempted to create an item from a non-map type")),
        }
    }

    /// The record that stands for this item in a document.
    pub fn to_value(&self) -> (out: DocValue)
        ensures
            out@ == record_of(self@),
            item_of(out@) == Ok::<ItemView, Seq<char>>(self@),
    {
        let mut entries: Vec<(String, DocValue)> = Vec::new();
        entries.push((String::from_str("value"), DocValue::Str(self.task.clone())));
        entries.push((String::from_str("completed"), DocValue::Bool(self.done)));
        entries.push((String::from_str("id"), DocValue::Str(self.id.clone())));
        let out = DocValue::Object(entries);
        proof {
            lemma_record_keys();
            crate::value::lemma_position_is(entries@, "value"@, 0);
            crate::value::lemma_position_is(entries@, "completed"@, 1);
            crate::value::lemma_position_is(entries@, "id"@, 2);
            let m = out@->Object_0;
            let r = record_of(self@)->Object_0;
            assert forall|k: Seq<char>| m.contains_key(k) <==> r.contains_key(k) by {
                crate::value::lemma_position(entries@, k);
            }
            assert(m["value"@] == entries@[0].1@);
            assert(m["completed"@] == entries@[1].1@);
            assert(m["id"@] == entries@[2].1@);
            assert(m =~= r);
            lemma_record_round_trip(self@);
        }
        out
    }
}

/// The todo list of a document, in order.
#[derive(Debug)]
pub struct Items {
    items: Vec<Item>,
}

impl View for Items {
    type V = Seq<ItemView>;

    closed spec fn view(&self) -> Seq<ItemView> {
        views(self.items@)
    }
}

impl Clone for Items {
    fn clone(&self) -> (out: Items)
        ensures
            out@ == self@,
    {
        Items { items: copy_items(&self.items) }
    }
}

/// A copy of a vector of items.
pub fn copy_items(items: &Vec<Item>) -> (out: Vec<Item>)
    ensures
        out@ == items@,
{
    let mut out: Vec<Item> = Vec::new();
    let mut i: usize = 0;
    while i < items.len()
        invariant
            0 <= i <= items.len(),
            out@ == items@.take(i as int),
        decreases items.len() - i,
    {
        out.push(items[i].clone());
        proof {
            assert(items@.take(i + 1) =~= items@.take(i as int).push(items@[i as int]));
        }
        i += 1;
    }
    proof {
        assert(items@.take(items@.len() as int) =~= items@);
    }
    out
}

/// Whether two vectors hold the same items in the same order.
pub fn same_items(left: &Vec<Item>, right: &Vec<Item>) -> (same: bool)
    ensures
        same == (views(left@) == views(right@)),
{
    if left.len() != right.len() {
        assert(views(left@).len() != views(right@).len());
        return false;
    }
    let mut i: usize = 0;
    while i < left.len()
        invariant
            0 <= i <= left.len(),
            left.len() == right.len(),
            forall|j: int| 0 <= j < i ==> (#[trigger] left@[j])@ == right@[j]@,
        decreases left.len() - i,
    {
        if !(left[i].task == right[i].task && left[i].id == right[i].id && left[i].done
            == right[i].done) {
            assert(views(left@)[i as int] != views(right@)[i as int]);
            return false;
        }
        i += 1;
    }
    assert(views(left@) =~= views(right@));
    true
}

impl Items {
    /// The list made of the given items.
    pub fn from_vec(items: Vec<Item>) -> (out: Items)
        ensures
            out@ == views(items@),
    {
        Items { items }
    }

    /// The items, in order.
    pub fn as_vec(&self) -> (out: &Vec<Item>)
        ensures
            views(out@) == self@,
    {
        &self.items
    }

    /// The items, in order.
    pub fn into_vec(self) -> (out: Vec<Item>)
        ensures
            views(out@) == self@,
    {
        self.items
    }

    /// How many items there are.
    pub fn len(&self) -> (n: usize)
        ensures
            n == self@.len(),
    {
        self.items.len()
    }

    /// Whether there is no item.
    pub fn is_empty(&self) -> (b: bool)
        ensures
            b == (self@.len() == 0),
    {
        self.items.len() == 0
    }

    /// The item at `index`, if there is one.
    pub fn get(&self, index: usize) -> (out: Option<&Item>)
        ensures
            match out {
                Some(item) => index < self@.len() && item@ == self@[index as int],
                None => index >= self@.len(),
            },
    {
        if index < self.items.len() {
            Some(&self.items[index])
        } else {
            None
        }
    }

    /// Reads the todo list out of a materialized document.
    pub fn try_from(value: &DocValue) -> (out: Result<Items, String>)
        ensures
            match out {
                Ok(items) => items_of(value@) == Ok::<Seq<ItemView>, Seq<char>>(items@),
                Err(reason) => items_of(value@) == Err::<Seq<ItemView>, Seq<char>>(reason@),
            },
    {
        match value {
            DocValue::Object(_) => match value.get(&String::from_str("todos")) {
                None => Err(String::from_str("No 'todos' key found")),
                Some(DocValue::List(elems)) => {
                    let ghost ev = value@.field("todos"@)->Some_0->List_0;
                    let mut items: Vec<Item> = Vec::new();
                    let mut i: usize = 0;
                    while i < elems.len()
                        invariant
                            0 <= i <= elems.len(),
                            value@ is Object,
                            value@.field("todos"@) == Some(ValueView::List(ev)),
                            ev.len() == elems.len(),
                            forall|j: int| 0 <= j < ev.len() ==> ev[j] == (#[trigger] elems@[j])@,
                            items.len() == i,
                            forall|j: int|
                                0 <= j < i ==> (#[trigger] item_of(ev[j]))
                                    == Ok::<ItemView, Seq<char>>(items@[j]@),
                        decreases elems.len() - i,
                    {
                        match Item::try_from(&elems[i]) {
                            Ok(item) => {
                                items.push(item);
                            },
                            Err(reason) => {
                                proof {
                                    assert(ev[i as int] == elems@[i as int]@);
                                    assert(first_bad(ev, i as int));
                                    let k = choose|k: int| first_bad(ev, k);
                                    assert(k == i) by {
                                        if k < i {
                                            assert(item_of(ev[k]) is Ok);
                                        }
                                        if i < k {
                                            assert(item_of(ev[i as int]) is Ok);
                                        }
                                    }
                                    assert(!all_items(ev));
                                }
                                return Err(reason);
                            },
                        }
                        i += 1;
                    }
                    proof {
                        assert(all_items(ev));
                        assert(views(items@) =~= Seq::new(
                            ev.len(),
                            |i: int| item_of(ev[i])->Ok_0,
                        ));
                    }
                    Ok(Items { items })
                },
                Some(_) => Err(String::from_str("todos key did not contain a sequence")),
            },
            _ => Err(
                String::from_str("attempted to create items from something which wasn't a map"),
            ),
        }
    }
}

/// `uuid::Uuid::new_v4`, as text: a fresh version-4 UUID in its hyphenated
/// form. The id is random; all that is claimed of it is that form's length.
#[verifier::external_body]
fn fresh_id() -> (id: String)
    ensures
        id@.len() == 36,
{
    uuid::Uuid::new_v4().to_string()
}

} // verus!
