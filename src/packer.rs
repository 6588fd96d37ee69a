use vstd::prelude::*;
use crate::layout::{dir_names, job_matches, plan_archives, ArchiveJob, RootEntry};

verus! {

/// What the caller does next.
pub enum Action {
    /// Pack the subdirectory of the job at this index: read its files, build
    /// the archive and write it, then report with `Packer::record`.
    Pack(usize),
    /// Every subdirectory has been packed.
    Done,
    /// A job failed: stop the whole run, leaving later jobs undone.
    Abort,
}

/// Drives one run over the root's subdirectories: the jobs are packed one
/// after another in listing order, and the first failure ends the run.
pub struct Packer {
    jobs: Vec<ArchiveJob>,
    next: usize,
    failed: bool,
}

impl Packer {
    /// The planned jobs, in order.
    pub closed spec fn jobs_spec(&self) -> Seq<ArchiveJob> {
        self.jobs@
    }

    /// How many jobs have been packed.
    pub closed spec fn packed(&self) -> nat {
        self.next as nat
    }

    /// Whether a job has failed.
    pub closed spec fn has_failed(&self) -> bool {
        self.failed
    }

    /// The count of packed jobs never passes the number of jobs.
    pub closed spec fn wf(&self) -> bool {
        self.next <= self.jobs@.len()
    }

    /// Starts a run over `root`, whose immediate children are `entries`,
    /// with one job per directory among them (see `plan_archives`).
    pub fn new(root: &str, ext: &str, entries: &Vec<RootEntry>) -> (r: Packer)
        ensures
            r.wf(),
            r.jobs_spec().len() == dir_names(entries@).len(),
            forall|i: int|
                0 <= i < r.jobs_spec().len() ==> job_matches(
                    #[trigger] r.jobs_spec()[i],
                    root@,
                    ext@,
                    dir_names(entries@)[i],
                ),
            r.packed() == 0,
            !r.has_failed(),
    {
        Packer { jobs: plan_archives(root, ext, entries), next: 0, failed: false }
    }

    /// The planned jobs.
    pub fn jobs(&self) -> (r: &Vec<ArchiveJob>)
        ensures
            r@ == self.jobs_spec(),
    {
        &self.jobs
    }

    /// The job at index `i`.
    pub fn job(&self, i: usize) -> (r: &ArchiveJob)
        requires
            i < self.jobs_spec().len(),
        ensures
            *r == self.jobs_spec()[i as int],
    {
        &self.jobs[i]
    }

    /// The next thing to do: abort after a failure, else pack the first job
    /// not yet packed, else nothing is left.
    pub fn next_action(&self) -> (r: Action)
        requires
            self.wf(),
        ensures
            self.has_failed() ==> r is Abort,
            !self.has_failed() && self.packed() < self.jobs_spec().len() ==> r == Action::Pack(
                self.packed() as usize,
            ),
            !self.has_failed() && self.packed() == self.jobs_spec().len() ==> r is Done,
    {
        if self.failed {
            Action::Abort
        } else if self.next < self.jobs.len() {
            Action::Pack(self.next)
        } else {
            Action::Done
        }
    }

    /// Reports how packing the current job went.
    pub fn record(&mut self, succeeded: bool)
        requires
            old(self).wf(),
            !old(self).has_failed(),
            old(self).packed() < old(self).jobs_spec().len(),
        ensures
            final(self).wf(),
            final(self).jobs_spec() == old(self).jobs_spec(),
            succeeded ==> final(self).packed() == old(self).packed() + 1 && !final(self).has_failed(),
            !succeeded ==> final(self).packed() == old(self).packed() && final(self).has_failed(),
    {
        if succeeded {
            assert(self.next < self.jobs.len());
            self.next = self.next + 1;
        } else {
            self.failed = true;
        }
    }
}

} // verus!
