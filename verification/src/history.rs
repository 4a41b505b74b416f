//! Changes: the immutable records that histories are made of.

use vstd::prelude::*;
use crate::backend::{change_id, change_label, genuine};

verus! {

/// The text of an optional string.
pub open spec fn text_of(text: Option<String>) -> Option<Seq<char>> {
    match text {
        Some(text) => Some(text@),
        None => None,
    }
}

/// One recorded change: the unit that replicas exchange.
#[derive(Debug)]
pub struct Change {
    hash: Vec<u8>,
    bytes: Vec<u8>,
    message: Option<String>,
}

impl Change {
    /// The change's content-derived identity.
    pub closed spec fn id(&self) -> Seq<u8> {
        self.hash@
    }

    /// The change in its encoded form.
    pub closed spec fn encoding(&self) -> Seq<u8> {
        self.bytes@
    }

    /// The label that the writer gave the change.
    pub closed spec fn label_view(&self) -> Option<Seq<char>> {
        text_of(self.message)
    }

    /// The change is genuine, and its identity and its label are those
    /// that its encoding gives.
    pub open spec fn wf(&self) -> bool {
        &&& genuine(self.encoding())
        &&& change_id(self.encoding()) == Some(self.id())
        &&& change_label(self.encoding()) == self.label_view()
    }

    #[verifier::type_invariant]
    spec fn consistent(self) -> bool {
        &&& genuine(self.bytes@)
        &&& change_id(self.bytes@) == Some(self.hash@)
        &&& change_label(self.bytes@) == text_of(self.message)
    }

    /// Every change is well formed.
    pub fn attest(&self)
        ensures
            self.wf(),
    {
        proof {
            use_type_invariant(self);
        }
    }

    /// A change with these parts.
    pub(crate) fn from_parts(hash: Vec<u8>, bytes: Vec<u8>, message: Option<String>) -> (change:
        Change)
        requires
            genuine(bytes@),
            change_id(bytes@) == Some(hash@),
            change_label(bytes@) == text_of(message),
        ensures
            change.id() == hash@,
            change.encoding() == bytes@,
            change.label_view() == text_of(message),
    {
        Change { hash, bytes, message }
    }

    /// The change's content-derived identity.
    pub fn hash(&self) -> (hash: &Vec<u8>)
        ensures
            hash@ == self.id(),
    {
        &self.hash
    }

    /// The change in its encoded form.
    pub fn bytes(&self) -> (bytes: &Vec<u8>)
        ensures
            bytes@ == self.encoding(),
    {
        &self.bytes
    }

    /// The label that the writer gave the change.
    pub fn label(&self) -> (label: &Option<String>)
        ensures
            text_of(*label) == self.label_view(),
    {
        &self.message
    }
}

/// Whether two optional strings are the same.
pub fn same_text(left: &Option<String>, right: &Option<String>) -> (same: bool)
    ensures
        same == (text_of(*left) == text_of(*right)),
{
    match (left, right) {
        (Some(left), Some(right)) => *left == *right,
        (None, None) => true,
        _ => false,
    }
}

/// A copy of an optional string.
pub fn copy_text(text: &Option<String>) -> (copy: Option<String>)
    ensures
        copy == *text,
{
    match text {
        Some(text) => Some(text.clone()),
        None => None,
    }
}

/// The encodings of the changes of a batch, in order.
pub open spec fn encodings(batch: Seq<Change>) -> Seq<Seq<u8>> {
    batch.map_values(|change: Change| change.encoding())
}

/// The identities of the changes of a batch.
pub open spec fn ids(batch: Seq<Change>) -> Set<Seq<u8>> {
    Set::new(|id: Seq<u8>| exists|j: int| 0 <= j < batch.len() && (#[trigger] batch[j]).id() == id)
}

/// A history after a batch has been merged into it: every change of either, once.
pub open spec fn merged(history: Set<Seq<u8>>, batch: Set<Seq<u8>>) -> Set<Seq<u8>> {
    history.union(batch)
}

/// Whether two byte strings are the same.
pub fn same_bytes(left: &Vec<u8>, right: &Vec<u8>) -> (same: bool)
    ensures
        same == (left@ == right@),
{
    if left.len() != right.len() {
        return false;
    }
    let mut i: usize = 0;
    while i < left.len()
        invariant
            0 <= i <= left.len(),
            left.len() == right.len(),
            forall|j: int| 0 <= j < i ==> left@[j] == right@[j],
        decreases left.len() - i,
    {
        if left[i] != right[i] {
            return false;
        }
        i += 1;
    }
    assert(left@ =~= right@);
    true
}

/// Whether the change at `at` has the identity of one before it in the batch.
pub fn seen_before(batch: &Vec<Change>, at: usize) -> (seen: bool)
    requires
        at < batch@.len(),
    ensures
        seen == ids(batch@.take(at as int)).contains(batch@[at as int].id()),
{
    let mut j: usize = 0;
    while j < at
        invariant
            0 <= j <= at < batch@.len(),
            forall|k: int| 0 <= k < j ==> (#[trigger] batch@[k]).id() != batch@[at as int].id(),
        decreases at - j,
    {
        if same_bytes(batch[j].hash(), batch[at].hash()) {
            assert(batch@.take(at as int)[j as int].id() == batch@[at as int].id());
            return true;
        }
        j += 1;
    }
    proof {
        assert forall|k: int| 0 <= k < at implies (#[trigger] batch@.take(at as int)[k]).id()
            != batch@[at as int].id() by {
            assert(batch@.take(at as int)[k] == batch@[k]);
        }
    }
    false
}

} // verus!
