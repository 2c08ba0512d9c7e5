//! A resolved commit: an immutable snapshot of one commit's identifiers and
//! raw message.

use vstd::prelude::*;

use crate::store;

verus! {

/// A commit yielded by branch or file history: its identifiers and message,
/// captured when the commit was resolved.
pub struct Commit {
    pub(crate) full: String,
    pub(crate) short: String,
    pub(crate) message: String,
}

/// The mathematical content of a [`Commit`].
pub ghost struct CommitView {
    /// The full hex identifier.
    pub full: Seq<char>,
    /// The abbreviated identifier.
    pub short: Seq<char>,
    /// The raw commit message.
    pub message: Seq<char>,
}

impl View for Commit {
    type V = CommitView;

    closed spec fn view(&self) -> CommitView {
        CommitView { full: self.full@, short: self.short@, message: self.message@ }
    }
}

impl Commit {
    /// Builds the snapshot of a resolved commit: the full id is kept as
    /// given, and the raw bytes of the abbreviated id and the message are
    /// decoded lossily.
    pub(crate) fn assemble(full: String, short_bytes: &Vec<u8>, msg_bytes: &Vec<u8>) -> (r: Commit)
        ensures
            r@.full == full@,
            r@.short == store::lossy_decode(short_bytes@),
            r@.message == store::lossy_decode(msg_bytes@),
    {
        Commit {
            full,
            short: store::lossy_string(short_bytes),
            message: store::lossy_string(msg_bytes),
        }
    }

    /// The abbreviated identifier of the commit.
    pub fn id(&self) -> (r: String)
        ensures
            r@ == self@.short,
    {
        self.short.clone()
    }

    /// The full hex identifier of the commit.
    pub fn long_id(&self) -> (r: &str)
        ensures
            r@ == self@.full,
    {
        self.full.as_str()
    }

    /// The raw message of the commit.
    pub fn message(&self) -> (r: &str)
        ensures
            r@ == self@.message,
    {
        self.message.as_str()
    }
}

} // verus!
