//! The plain, nested value that a document materializes to.

use vstd::prelude::*;

verus! {

/// A materialized document value.
///
/// An object keeps its entries as a list of pairs; where a key occurs more
/// than once the first occurrence is the one that counts.
#[derive(Debug)]
pub enum DocValue {
    /// Keyed entries.
    Object(Vec<(String, DocValue)>),
    /// An ordered sequence.
    List(Vec<DocValue>),
    /// A string scalar.
    Str(String),
    /// A boolean scalar.
    Bool(bool),
    /// Anything else a document may hold (numbers, text objects, ...).
    Other,
}

/// The mathematical model of a [`DocValue`].
pub enum ValueView {
    Object(Map<Seq<char>, ValueView>),
    List(Seq<ValueView>),
    Str(Seq<char>),
    Bool(bool),
    Other,
}

/// Index of the first entry stored under `key`, or `entries.len()` if there is none.
pub open spec fn position(entries: Seq<(String, DocValue)>, key: Seq<char>) -> int
    decreases entries.len(),
{
    if entries.len() == 0 {
        0
    } else if entries[0].0@ == key {
        0
    } else {
        1 + position(entries.skip(1), key)
    }
}

/// `position` finds the first entry with the key and nothing before it.
pub proof fn lemma_position(entries: Seq<(String, DocValue)>, key: Seq<char>)
    ensures
        0 <= position(entries, key) <= entries.len(),
        position(entries, key) < entries.len() ==> entries[position(entries, key)].0@ == key,
        forall|j: int| 0 <= j < position(entries, key) ==> (#[trigger] entries[j]).0@ != key,
    decreases entries.len(),
{
    if entries.len() != 0 && entries[0].0@ != key {
        let rest = entries.skip(1);
        lemma_position(rest, key);
        assert forall|j: int| 0 <= j < position(entries, key) implies (#[trigger] entries[j]).0@
            != key by {
            if j > 0 {
                assert(entries[j] == rest[j - 1]);
            }
        }
    }
}

/// An entry with the key, preceded by none, is where `position` points.
pub proof fn lemma_position_is(entries: Seq<(String, DocValue)>, key: Seq<char>, i: int)
    requires
        0 <= i <= entries.len(),
        i < entries.len() ==> entries[i].0@ == key,
        forall|j: int| 0 <= j < i ==> (#[trigger] entries[j]).0@ != key,
    ensures
        position(entries, key) == i,
{
    lemma_position(entries, key);
    let p = position(entries, key);
    if p < i {
        assert(entries[p].0@ != key);
    }
}

impl View for DocValue {
    type V = ValueView;

    open spec fn view(&self) -> ValueView
        decreases self,
    {
        match self {
            DocValue::Object(entries) => ValueView::Object(
                Map::new(
                    |k: Seq<char>| 0 <= position(entries@, k) < entries@.len(),
                    |k: Seq<char>|
                        if 0 <= position(entries@, k) < entries@.len() {
                            entries@[position(entries@, k)].1.view()
                        } else {
                            ValueView::Other
                        },
                ),
            ),
            DocValue::List(elems) => ValueView::List(
                Seq::new(
                    elems@.len(),
                    |i: int|
                        if 0 <= i < elems@.len() {
                            elems@[i].view()
                        } else {
                            ValueView::Other
                        },
                ),
            ),
            DocValue::Str(s) => ValueView::Str(s@),
            DocValue::Bool(b) => ValueView::Bool(*b),
            DocValue::Other => ValueView::Other,
        }
    }
}

impl ValueView {
    /// The value stored under `key`, if this is an object that has the key.
    pub open spec fn field(self, key: Seq<char>) -> Option<ValueView> {
        match self {
            ValueView::Object(entries) => if entries.contains_key(key) {
                Some(entries[key])
            } else {
                None
            },
            _ => None,
        }
    }
}

impl DocValue {
    /// Looks `key` up in an object; `None` for a missing key and for anything
    /// that is not an object.
    pub fn get(&self, key: &String) -> (out: Option<&DocValue>)
        ensures
            match out {
                Some(v) => self@.field(key@) == Some(v@),
                None => self@.field(key@) is None,
            },
    {
        match self {
            DocValue::Object(entries) => {
                let mut i: usize = 0;
                while i < entries.len()
                    invariant
                        0 <= i <= entries.len(),
                        *self == DocValue::Object(*entries),
                        forall|j: int| 0 <= j < i ==> (#[trigger] entries@[j]).0@ != key@,
                    decreases entries.len() - i,
                {
                    if entries[i].0 == *key {
                        proof {
                            lemma_position_is(entries@, key@, i as int);
                            assert(self@ matches ValueView::Object(m) && m.contains_key(key@)
                                && m[key@] == entries@[i as int].1@);
                        }
                        return Some(&entries[i].1);
                    }
                    i += 1;
                }
                proof {
                    lemma_position_is(entries@, key@, entries@.len() as int);
                }
                None
            },
            _ => None,
        }
    }
}

} // verus!
