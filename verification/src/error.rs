//! What can go wrong, and how it is told apart.

use vstd::prelude::*;
use crate::ops::InvalidChangeRequest;

verus! {

/// Why a local intent was not recorded.
#[derive(PartialEq, Eq, Debug)]
pub enum LocalError {
    /// One of its operations cannot be applied to the list as it stands.
    Invalid(InvalidChangeRequest),
    /// The document store refused one of its operations; its reason is given.
    Refused(String),
    /// The document store took the operations, but what it then held was not
    /// the list that they describe.
    Diverged,
}

/// Why a batch of changes was not merged.
#[derive(PartialEq, Eq, Debug)]
pub enum MergeError {
    /// The document store refused the batch; its reason is given.
    Refused(String),
    /// The document store did not record exactly the batch: a change of it
    /// waits for one that is missing.
    Incomplete,
    /// With the batch merged the document would no longer be a todo list;
    /// the reason is given.
    Malformed(String),
}

/// Why bytes were not decoded.
#[derive(PartialEq, Eq, Debug)]
pub enum DecodeError {
    /// The bytes are no encoding of what was asked for; the decoder's
    /// reason is given.
    Malformed(String),
    /// The bytes encode a history that is not the one expected.
    Unexpected,
}

/// Why an encoded history was not taken in.
#[derive(PartialEq, Eq, Debug)]
pub enum SyncError {
    /// The bytes are no encoding of a history.
    Decode(DecodeError),
    /// The history could not be merged.
    Merge(MergeError),
}

/// Why a message was not carried out.
#[derive(PartialEq, Eq, Debug)]
pub enum UpdateError {
    /// The intent could not be recorded.
    Intent(LocalError),
    /// There is no peer at that position.
    NoSuchRemote,
}

} // verus!
