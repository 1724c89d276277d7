//! The table of running translations.
use vstd::prelude::*;

use crate::registry::{
    lemma_status_after_entry, lemma_status_after_set, position, status_of, with_entry,
    with_status, without, Registry, Table,
};

verus! {

/// One running (or just finished) translation: the handle that cancels it and its status.
pub struct RunningTask<H> {
    pub cancel_tx: H,
    pub status: String,
}

/// Running translations by task id. `H` is the handle that cancels a task.
pub struct TaskRegistry<H> {
    inner: Registry<H>,
}

impl<H> View for TaskRegistry<H> {
    type V = Table;

    closed spec fn view(&self) -> Table {
        self.inner@
    }
}

impl<H> TaskRegistry<H> {
    /// The handle stored for `id`.
    pub closed spec fn handle_of(&self, id: Seq<char>) -> Option<H> {
        self.inner.handle_of(id)
    }

    /// An empty table.
    pub fn new() -> (r: Self)
        ensures
            r@ == Seq::<(Seq<char>, Seq<char>)>::empty(),
    {
        TaskRegistry { inner: Registry::new() }
    }

    /// Record `task` under `task_id`, replacing any entry of that id.
    pub fn insert(&mut self, task_id: String, task: RunningTask<H>)
        ensures
            final(self)@ == with_entry(old(self)@, task_id@, task.status@),
            status_of(final(self)@, task_id@) == Some(task.status@),
            final(self).handle_of(task_id@) == Some(task.cancel_tx),
    {
        let _ = self.inner.is_busy();
        proof {
            lemma_status_after_entry(self@, task_id@, task.status@);
        }
        self.inner.insert(task_id, task.cancel_tx, task.status);
    }

    /// Set the status of `task_id`, when present.
    pub fn set_status(&mut self, task_id: &str, status: &str)
        ensures
            final(self)@ == with_status(old(self)@, task_id@, status@),
    {
        self.inner.set_status(task_id, status)
    }

    /// Mark `task_id` cancelled, so that its runner stops the child through its handle.
    /// `true` exactly when the task exists.
    pub fn kill(&mut self, task_id: &str) -> (r: bool)
        ensures
            r == (position(old(self)@, task_id@) is Some),
            final(self)@ == with_status(old(self)@, task_id@, "cancelled"@),
            r ==> status_of(final(self)@, task_id@) == Some("cancelled"@),
    {
        let present = self.inner.status(task_id).is_some();
        if present {
            proof {
                lemma_status_after_set(self@, task_id@, "cancelled"@);
            }
        }
        self.inner.set_status(task_id, "cancelled");
        present
    }

    /// The cancel handle of `task_id`.
    pub fn handle(&self, task_id: &str) -> (r: Option<&H>)
        ensures
            match r {
                Some(h) => self.handle_of(task_id@) == Some(*h),
                None => self.handle_of(task_id@) is None,
            },
    {
        self.inner.handle(task_id)
    }

    /// The status of `task_id`.
    pub fn status(&self, task_id: &str) -> (r: Option<String>)
        ensures
            match r {
                Some(s) => status_of(self@, task_id@) == Some(s@),
                None => status_of(self@, task_id@) is None,
            },
    {
        self.inner.status(task_id)
    }

    /// Remove a task entry (after the runner finishes).
    pub fn remove(&mut self, task_id: &str)
        ensures
            final(self)@ == without(old(self)@, task_id@),
            status_of(final(self)@, task_id@) is None,
    {
        self.inner.remove(task_id)
    }
}

} // verus!
