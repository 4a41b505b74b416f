//! What holds of the library as a whole.
//!
//! Each law is stated over the same spec functions as the contracts of the
//! functions that it is about: `ChangeLog::history` and `ChangeLog::items`,
//! `merged`, `ids`, `projected` and `loaded`.

use vstd::prelude::*;
use crate::backend::loaded;
use crate::history::{ids, merged, Change};
use crate::log::{projected, ChangeLog};
use crate::model::Model;
use crate::store::Store;

verus! {

/// No divergence: what a well-formed store shows is the projection of the
/// history that it has recorded. Every operation of a store preserves its
/// well-formedness, so this holds after any sequence of them.
pub proof fn law_view_is_projection(store: &Store)
    requires
        store.wf(),
    ensures
        store.items() == projected(store.history()),
{
}

/// No divergence, for the application's state: after any sequence of
/// messages the list shown is the projection of the recorded history.
pub proof fn law_model_is_projection(model: &Model)
    requires
        model.wf(),
    ensures
        model.list() == projected(model.history()),
{
}

/// Merging a batch is idempotent on histories.
pub proof fn law_merged_twice(history: Set<Seq<u8>>, batch: Set<Seq<u8>>)
    ensures
        merged(merged(history, batch), batch) == merged(history, batch),
{
    assert(merged(merged(history, batch), batch) =~= merged(history, batch));
}

/// Merging two batches commutes on histories.
pub proof fn law_merged_either_way(
    history: Set<Seq<u8>>,
    first: Set<Seq<u8>>,
    second: Set<Seq<u8>>,
)
    ensures
        merged(merged(history, first), second) == merged(merged(history, second), first),
{
    assert(merged(merged(history, first), second) =~= merged(merged(history, second), first));
}

/// `apply_changes` is idempotent: a log into which a batch has been merged
/// twice holds the same history and the same list as after the first time.
///
/// `once` is the log after `apply_changes(batch)` on `before`, `twice` the
/// log after a second `apply_changes(batch)`.
pub proof fn law_merge_idempotent(
    before: &ChangeLog,
    once: &ChangeLog,
    twice: &ChangeLog,
    batch: Seq<Change>,
)
    requires
        once.wf(),
        twice.wf(),
        once.history() == merged(before.history(), ids(batch)),
        twice.history() == merged(once.history(), ids(batch)),
    ensures
        twice.history() == once.history(),
        twice.items() == once.items(),
{
    law_merged_twice(before.history(), ids(batch));
}

/// Merging commutes: two logs that started from the same history and took
/// the same two batches in, one in this order and one in the other, hold
/// the same history and the same list. This holds of any two batches,
/// disjoint or not.
///
/// `left` took `first` and then `second`, `right` took `second` and then `first`.
pub proof fn law_merge_commutes(
    before: &ChangeLog,
    left: &ChangeLog,
    right: &ChangeLog,
    first: Seq<Change>,
    second: Seq<Change>,
)
    requires
        left.wf(),
        right.wf(),
        left.history() == merged(merged(before.history(), ids(first)), ids(second)),
        right.history() == merged(merged(before.history(), ids(second)), ids(first)),
    ensures
        left.history() == right.history(),
        left.items() == right.items(),
{
    law_merged_either_way(before.history(), ids(first), ids(second));
}

/// Round trip: where the serialized history of a log decodes, its changes,
/// merged into a log that has recorded nothing, give a log with the same
/// history and the same list.
///
/// `bytes` is what `serialize` returned for `source`, `decoded` what
/// `decode` made of them, `blank` a log as `ChangeLog::empty` returns it and
/// `rebuilt` that log after `apply_changes(decoded)`.
pub proof fn law_round_trip(
    source: &ChangeLog,
    bytes: Seq<u8>,
    decoded: Seq<Change>,
    blank: &ChangeLog,
    rebuilt: &ChangeLog,
)
    requires
        source.wf(),
        rebuilt.wf(),
        loaded(bytes) == Some(source.history()),
        loaded(bytes) == Some(ids(decoded)),
        blank.history() == Set::<Seq<u8>>::empty(),
        rebuilt.history() == merged(blank.history(), ids(decoded)),
    ensures
        rebuilt.history() == source.history(),
        rebuilt.items() == source.items(),
{
    assert(merged(Set::<Seq<u8>>::empty(), ids(decoded)) =~= ids(decoded));
}

/// Convergence: two replicas that have recorded the same changes show the
/// same list, however the changes reached them.
pub proof fn law_replicas_converge(left: &Store, right: &Store)
    requires
        left.wf(),
        right.wf(),
        left.history() == right.history(),
    ensures
        left.items() == right.items(),
{
}

/// Pull, then push: when one replica has taken the other's history in and
/// the other then takes the first one's, both have recorded the same changes
/// and show the same list, item by item.
///
/// `ours` is the first replica after its pull from `theirs_before`;
/// `theirs` is the second after it took in what `ours` pushed.
pub proof fn law_pull_then_push(
    ours_before: &Store,
    theirs_before: &Store,
    ours: &Store,
    theirs: &Store,
)
    requires
        ours.wf(),
        theirs.wf(),
        ours.history() == merged(ours_before.history(), theirs_before.history()),
        theirs.history() == merged(theirs_before.history(), ours.history()),
    ensures
        theirs.history() == ours.history(),
        theirs.items() == ours.items(),
{
    assert(merged(theirs_before.history(), ours.history()) =~= ours.history());
}

} // verus!
