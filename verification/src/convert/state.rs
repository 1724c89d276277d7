//! The convert task table: at most one conversion runs at a time.
use vstd::prelude::*;

use crate::registry::{
    any_running, lemma_running_count_remove, lemma_running_count_settle, lemma_single_running,
    lemma_status_after_entry, lemma_status_after_set, position, running_count, status_of,
    with_entry, with_status, without, Registry, Table,
};

verus! {

/// Convert tasks by id. At most one is running (the busy check on start), independent
/// from the translation table. `H` is the handle that cancels a task.
pub struct ConvertRegistry<H> {
    inner: Registry<H>,
}

impl<H> View for ConvertRegistry<H> {
    type V = Table;

    closed spec fn view(&self) -> Table {
        self.inner@
    }
}

impl<H> ConvertRegistry<H> {
    /// The handle stored for `id`.
    pub closed spec fn handle_of(&self, id: Seq<char>) -> Option<H> {
        self.inner.handle_of(id)
    }

    /// An empty table.
    pub fn new() -> (r: Self)
        ensures
            r@ == Seq::<(Seq<char>, Seq<char>)>::empty(),
    {
        ConvertRegistry { inner: Registry::new() }
    }

    /// Whether any convert task is currently running.
    pub fn is_busy(&self) -> (r: bool)
        ensures
            r == any_running(self@),
    {
        self.inner.is_busy()
    }

    /// Claim the single convert slot: `false`, and no change, when a task is already
    /// running; otherwise `task_id` is recorded as running with its cancel handle, and it is
    /// the only running task.
    pub fn try_begin(&mut self, task_id: String, cancel_tx: H) -> (r: bool)
        ensures
            r == !any_running(old(self)@),
            !r ==> final(self)@ == old(self)@,
            r ==> final(self)@ == with_entry(old(self)@, task_id@, "running"@),
            r ==> status_of(final(self)@, task_id@) == Some("running"@),
            r ==> running_count(final(self)@) == 1,
            r ==> final(self).handle_of(task_id@) == Some(cancel_tx),
    {
        if self.inner.is_busy() {
            return false;
        }
        let ghost before = self@;
        proof {
            lemma_status_after_entry(before, task_id@, "running"@);
            lemma_single_running(before, task_id@);
        }
        self.inner.insert(task_id, cancel_tx, "running".to_string());
        true
    }

    /// Set the status of `task_id`, when present.
    pub fn set_status(&mut self, task_id: &str, status: &str)
        ensures
            final(self)@ == with_status(old(self)@, task_id@, status@),
    {
        self.inner.set_status(task_id, status)
    }

    /// Mark `task_id` cancelled, so that its runner stops it through its handle. `true`
    /// exactly when the task exists.
    pub fn kill(&mut self, task_id: &str) -> (r: bool)
        ensures
            r == (position(old(self)@, task_id@) is Some),
            final(self)@ == with_status(old(self)@, task_id@, "cancelled"@),
            r ==> status_of(final(self)@, task_id@) == Some("cancelled"@),
    {
        let present = self.inner.status(task_id).is_some();
        if present {
            proof {
                lemma_status_after_set(self@, task_id@, "cancelled"@);
            }
        }
        self.inner.set_status(task_id, "cancelled");
        present
    }

    /// The cancel handle of `task_id`.
    pub fn handle(&self, task_id: &str) -> (r: Option<&H>)
        ensures
            match r {
                Some(h) => self.handle_of(task_id@) == Some(*h),
                None => self.handle_of(task_id@) is None,
            },
    {
        self.inner.handle(task_id)
    }

    /// The status of `task_id`.
    pub fn status(&self, task_id: &str) -> (r: Option<String>)
        ensures
            match r {
                Some(s) => status_of(self@, task_id@) == Some(s@),
                None => status_of(self@, task_id@) is None,
            },
    {
        self.inner.status(task_id)
    }

    /// Drop `task_id` from the table.
    pub fn remove(&mut self, task_id: &str)
        ensures
            final(self)@ == without(old(self)@, task_id@),
            status_of(final(self)@, task_id@) is None,
    {
        self.inner.remove(task_id)
    }
}

/// At most one conversion runs at a time: from a table with at most one running task,
/// claiming the free slot leaves exactly one, and cancelling, finishing (any status but
/// running) or removing a task never adds one.
pub proof fn law_at_most_one_conversion(t: Table, id: Seq<char>, status: Seq<char>)
    requires
        running_count(t) <= 1,
        status != "running"@,
    ensures
        !any_running(t) ==> running_count(with_entry(t, id, "running"@)) == 1,
        running_count(with_status(t, id, status)) <= 1,
        running_count(without(t, id)) <= 1,
{
    if !any_running(t) {
        lemma_single_running(t, id);
    }
    match position(t, id) {
        Some(i) => {
            lemma_running_count_settle(t, i, (id, status));
            lemma_running_count_remove(t, i);
        },
        None => {},
    }
}

} // verus!
