//! Writing an aggregated repository list into the key-value store's hash, one
//! field per repository, in list order.
//!
//! The writes are not a transaction: a failed write leaves the earlier ones in
//! place and no later one is attempted. The caller performs each write that a
//! [`Persistor`] asks for and reports how it went.
use vstd::prelude::*;
use crate::aggregate::{RecordView, records_view};

verus! {

/// The hash that maps each repository's name to its URL.
pub const REPOS_HASH: &'static str = "github_repos";

/// How one write to the hash went.
#[derive(Debug)]
pub enum WriteOutcome {
    Written,
    WriteFailed(String),
}

/// What a [`Persistor`] asks for next.
#[derive(Debug)]
pub enum StoreAction {
    /// Set field `.0` of [`REPOS_HASH`] to `.1`.
    Upsert(String, String),
    /// Every record has been written.
    Finished,
    /// A write failed; nothing more is to be written.
    Abort(String),
}

/// The progress of writing one list of records.
pub struct Persistor {
    repos: Vec<(String, String)>,
    written: usize,
    failure: Option<String>,
}

impl Persistor {
    /// The records to write, in order.
    pub closed spec fn records(&self) -> Seq<RecordView> {
        records_view(self.repos@)
    }

    /// How many records have been written.
    pub closed spec fn written(&self) -> nat {
        self.written as nat
    }

    /// The failure that stopped the writes, if one did.
    pub closed spec fn failure(&self) -> Option<Seq<char>> {
        match self.failure {
            Some(e) => Some(e@),
            None => None,
        }
    }

    /// No more is written than there are records, and a failure leaves the
    /// record it stopped at unwritten.
    pub closed spec fn wf(&self) -> bool {
        &&& self.written <= self.repos@.len()
        &&& self.failure is Some ==> self.written < self.repos@.len()
    }

    /// Starts writing `repos`, none of them written yet.
    pub fn new(repos: Vec<(String, String)>) -> (r: Persistor)
        ensures
            r.wf(),
            r.records() == records_view(repos@),
            r.written() == 0,
            r.failure() is None,
    {
        Persistor { repos, written: 0, failure: None }
    }

    /// The next step: the failure, once a write has failed; else the next
    /// record in list order; else the end.
    pub fn next_action(&self) -> (r: StoreAction)
        requires
            self.wf(),
        ensures
            match r {
                StoreAction::Abort(e) => self.failure() == Some(e@),
                StoreAction::Upsert(field, value) => {
                    &&& self.failure() is None
                    &&& self.written() < self.records().len()
                    &&& self.records()[self.written() as int] == (field@, value@)
                },
                StoreAction::Finished => {
                    &&& self.failure() is None
                    &&& self.written() == self.records().len()
                },
            },
    {
        match &self.failure {
            Some(e) => StoreAction::Abort(e.clone()),
            None => {
                if self.written < self.repos.len() {
                    let (field, value) = &self.repos[self.written];
                    StoreAction::Upsert(field.clone(), value.clone())
                } else {
                    StoreAction::Finished
                }
            },
        }
    }

    /// Takes in how the write of the next record went: a success moves on to
    /// the record after it, a failure stops the writes.
    pub fn record(&mut self, outcome: WriteOutcome)
        requires
            old(self).wf(),
            old(self).failure() is None,
            old(self).written() < old(self).records().len(),
        ensures
            final(self).wf(),
            final(self).records() == old(self).records(),
            match outcome {
                WriteOutcome::Written => {
                    &&& final(self).written() == old(self).written() + 1
                    &&& final(self).failure() is None
                },
                WriteOutcome::WriteFailed(e) => {
                    &&& final(self).written() == old(self).written()
                    &&& final(self).failure() == Some(e@)
                },
            },
    {
        let count = self.repos.len();
        assert(self.records().len() == count);
        match outcome {
            WriteOutcome::Written => {
                self.written = self.written + 1;
            },
            WriteOutcome::WriteFailed(e) => {
                self.failure = Some(e);
            },
        }
    }

    /// Whether the list has been written in full.
    pub fn is_finished(&self) -> (r: bool)
        ensures
            r == (self.failure() is None && self.written() == self.records().len()),
    {
        self.failure.is_none() && self.written == self.repos.len()
    }
}

} // verus!
