//! A table of running tasks keyed by task id: each task has a status and a handle through
//! which it can be told to stop. Ids are unique; inserting an id that is present replaces
//! its entry.
use vstd::prelude::*;

use crate::text::str_eq;

verus! {

/// One task: its id, the handle that cancels it, and its status.
pub struct Entry<H> {
    pub id: String,
    pub handle: H,
    pub status: String,
}

/// The task table as plain values: (id, status) pairs in insertion order.
pub type Table = Seq<(Seq<char>, Seq<char>)>;

pub open spec fn ids_unique(t: Table) -> bool {
    forall|i: int, j: int| 0 <= i < j < t.len() ==> #[trigger] t[i].0 != #[trigger] t[j].0
}

/// Where `id` stands in the table.
pub open spec fn position(t: Table, id: Seq<char>) -> Option<int> {
    if exists|i: int| 0 <= i < t.len() && t[i].0 == id {
        Some(choose|i: int| 0 <= i < t.len() && t[i].0 == id)
    } else {
        None
    }
}

/// The status of task `id`, if it is in the table.
pub open spec fn status_of(t: Table, id: Seq<char>) -> Option<Seq<char>> {
    match position(t, id) {
        Some(i) => Some(t[i].1),
        None => None,
    }
}

/// Some task is running.
pub open spec fn any_running(t: Table) -> bool {
    exists|i: int| 0 <= i < t.len() && t[i].1 == "running"@
}

/// The number of running tasks.
pub open spec fn running_count(t: Table) -> nat
    decreases t.len(),
{
    if t.len() == 0 {
        0
    } else {
        running_count(t.drop_last()) + if t.last().1 == "running"@ {
            1nat
        } else {
            0nat
        }
    }
}

/// `t` with the status of `id` set to `status` (no change when `id` is absent).
pub open spec fn with_status(t: Table, id: Seq<char>, status: Seq<char>) -> Table {
    match position(t, id) {
        Some(i) => t.update(i, (id, status)),
        None => t,
    }
}

/// `t` without `id`.
pub open spec fn without(t: Table, id: Seq<char>) -> Table {
    match position(t, id) {
        Some(i) => t.remove(i),
        None => t,
    }
}

/// `t` with `id` set to `status`: its entry replaced when present, appended otherwise.
pub open spec fn with_entry(t: Table, id: Seq<char>, status: Seq<char>) -> Table {
    match position(t, id) {
        Some(i) => t.update(i, (id, status)),
        None => t.push((id, status)),
    }
}

pub proof fn lemma_position_unique(t: Table, id: Seq<char>, k: int)
    requires
        ids_unique(t),
        0 <= k < t.len(),
        t[k].0 == id,
    ensures
        position(t, id) == Some(k),
{
    let i = choose|i: int| 0 <= i < t.len() && t[i].0 == id;
    if i < k {
        assert(t[i].0 != t[k].0);
    } else if k < i {
        assert(t[k].0 != t[i].0);
    }
}

pub proof fn lemma_running_count_zero(t: Table)
    requires
        !any_running(t),
    ensures
        running_count(t) == 0,
    decreases t.len(),
{
    if t.len() > 0 {
        assert(!any_running(t.drop_last())) by {
            if any_running(t.drop_last()) {
                let i = choose|i: int| 0 <= i < t.drop_last().len() && t.drop_last()[i].1 == "running"@;
                assert(t[i] == t.drop_last()[i]);
            }
        }
        lemma_running_count_zero(t.drop_last());
        assert(t.last() == t[t.len() - 1]);
    }
}

pub proof fn lemma_running_count_update(t: Table, i: int, e: (Seq<char>, Seq<char>))
    requires
        0 <= i < t.len(),
        running_count(t) == 0,
    ensures
        running_count(t.update(i, e)) == if e.1 == "running"@ {
            1nat
        } else {
            0nat
        },
    decreases t.len(),
{
    let u = t.update(i, e);
    if i == t.len() - 1 {
        assert(u.drop_last() =~= t.drop_last());
        lemma_zero_prefix(t);
    } else {
        assert(u.drop_last() =~= t.drop_last().update(i, e));
        lemma_zero_prefix(t);
        lemma_running_count_update(t.drop_last(), i, e);
        assert(u.last() == t.last());
    }
}

/// Setting an entry to a status other than running does not add a running task.
pub proof fn lemma_running_count_settle(t: Table, i: int, e: (Seq<char>, Seq<char>))
    requires
        0 <= i < t.len(),
        e.1 != "running"@,
    ensures
        running_count(t.update(i, e)) <= running_count(t),
    decreases t.len(),
{
    let u = t.update(i, e);
    if i == t.len() - 1 {
        assert(u.drop_last() =~= t.drop_last());
    } else {
        assert(u.drop_last() =~= t.drop_last().update(i, e));
        lemma_running_count_settle(t.drop_last(), i, e);
        assert(u.last() == t.last());
    }
}

/// Removing an entry does not add a running task.
pub proof fn lemma_running_count_remove(t: Table, i: int)
    requires
        0 <= i < t.len(),
    ensures
        running_count(t.remove(i)) <= running_count(t),
    decreases t.len(),
{
    let u = t.remove(i);
    if i == t.len() - 1 {
        assert(u =~= t.drop_last());
    } else {
        assert(u.drop_last() =~= t.drop_last().remove(i));
        lemma_running_count_remove(t.drop_last(), i);
        assert(u.last() == t.last());
    }
}

proof fn lemma_zero_prefix(t: Table)
    requires
        t.len() > 0,
        running_count(t) == 0,
    ensures
        running_count(t.drop_last()) == 0,
        t.last().1 != "running"@,
{
}

/// A task table.
pub struct Registry<H> {
    entries: Vec<Entry<H>>,
}

pub open spec fn entry_view<H>(e: Entry<H>) -> (Seq<char>, Seq<char>) {
    (e.id@, e.status@)
}

pub open spec fn table_of<H>(es: Seq<Entry<H>>) -> Table {
    es.map_values(|e: Entry<H>| entry_view(e))
}

impl<H> View for Registry<H> {
    type V = Table;

    closed spec fn view(&self) -> Table {
        table_of(self.entries@)
    }
}

impl<H> Registry<H> {
    #[verifier::type_invariant]
    spec fn inv(self) -> bool {
        ids_unique(self@)
    }

    /// The handle stored for `id`.
    pub closed spec fn handle_of(&self, id: Seq<char>) -> Option<H> {
        match position(self@, id) {
            Some(i) => Some(self.entries@[i].handle),
            None => None,
        }
    }

    pub fn new() -> (r: Self)
        ensures
            r@ == Seq::<(Seq<char>, Seq<char>)>::empty(),
    {
        let r = Registry { entries: Vec::new() };
        assert(r@ =~= Seq::<(Seq<char>, Seq<char>)>::empty());
        r
    }

    proof fn lemma_view_index(&self, i: int)
        requires
            0 <= i < self.entries@.len(),
        ensures
            self@.len() == self.entries@.len(),
            self@[i] == entry_view(self.entries@[i]),
    {
    }

    fn find(&self, id: &str) -> (r: Option<usize>)
        ensures
            r matches Some(i) ==> i < self@.len() && position(self@, id@) == Some(i as int),
            r is None ==> position(self@, id@) is None,
    {
        proof {
            use_type_invariant(self);
        }
        let mut i: usize = 0;
        while i < self.entries.len()
            invariant
                i <= self.entries.len(),
                self@.len() == self.entries@.len(),
                ids_unique(self@),
                forall|j: int| 0 <= j < i ==> #[trigger] self@[j].0 != id@,
            decreases self.entries.len() - i,
        {
            proof {
                self.lemma_view_index(i as int);
            }
            if str_eq(self.entries[i].id.as_str(), id) {
                proof {
                    lemma_position_unique(self@, id@, i as int);
                }
                return Some(i);
            }
            i = i + 1;
        }
        None
    }

    /// The status of `id`.
    pub fn status(&self, id: &str) -> (r: Option<String>)
        ensures
            ids_unique(self@),
            match r {
                Some(s) => status_of(self@, id@) == Some(s@),
                None => status_of(self@, id@) is None,
            },
    {
        proof {
            use_type_invariant(self);
        }
        match self.find(id) {
            Some(i) => {
                proof {
                    self.lemma_view_index(i as int);
                }
                Some(self.entries[i].status.clone())
            },
            None => None,
        }
    }

    /// The handle of `id`.
    pub fn handle(&self, id: &str) -> (r: Option<&H>)
        ensures
            match r {
                Some(h) => self.handle_of(id@) == Some(*h),
                None => self.handle_of(id@) is None,
            },
    {
        match self.find(id) {
            Some(i) => Some(&self.entries[i].handle),
            None => None,
        }
    }

    /// Whether some task is running.
    pub fn is_busy(&self) -> (r: bool)
        ensures
            r == any_running(self@),
            ids_unique(self@),
    {
        proof {
            use_type_invariant(self);
        }
        let mut i: usize = 0;
        while i < self.entries.len()
            invariant
                i <= self.entries.len(),
                self@.len() == self.entries@.len(),
                ids_unique(self@),
                forall|j: int| 0 <= j < i ==> #[trigger] self@[j].1 != "running"@,
            decreases self.entries.len() - i,
        {
            proof {
                self.lemma_view_index(i as int);
            }
            if str_eq(self.entries[i].status.as_str(), "running") {
                return true;
            }
            i = i + 1;
        }
        false
    }

    /// Set the status of `id`, when present.
    pub fn set_status(&mut self, id: &str, status: &str)
        ensures
            final(self)@ == with_status(old(self)@, id@, status@),
            forall|k: Seq<char>| #[trigger] final(self).handle_of(k) == old(self).handle_of(k),
    {
        proof {
            use_type_invariant(&*self);
        }
        match self.find(id) {
            Some(i) => {
                let ghost before = self@;
                let ghost old_entries = self.entries@;
                proof {
                    self.lemma_view_index(i as int);
                }
                let mut entries: Vec<Entry<H>> = Vec::new();
                std::mem::swap(&mut entries, &mut self.entries);
                let mut e = entries.remove(i);
                e.status = status.to_string();
                entries.insert(i, e);
                proof {
                    assert(entries@ =~= old_entries.update(i as int, entries@[i as int]));
                    assert(table_of(entries@) =~= before.update(i as int, (id@, status@)));
                    let t = table_of(entries@);
                    assert forall|a: int, b: int| 0 <= a < b < t.len() implies #[trigger] t[a].0
                        != #[trigger] t[b].0 by {
                        assert(t[a].0 == before[a].0);
                        assert(t[b].0 == before[b].0);
                    }
                }
                self.entries = entries;
                proof {
                    assert forall|k: Seq<char>| #[trigger] self.handle_of(k) == old(self).handle_of(k) by {
                        if let Some(j) = position(before, k) {
                            lemma_position_unique(self@, k, j);
                        } else {
                            if position(self@, k) is Some {
                                let j = choose|j: int| 0 <= j < self@.len() && self@[j].0 == k;
                                assert(before[j].0 == k);
                            }
                        }
                    }
                }
            },
            None => {},
        }
    }

    /// Add or replace the entry of `id`.
    pub fn insert(&mut self, id: String, handle: H, status: String)
        ensures
            final(self)@ == with_entry(old(self)@, id@, status@),
            final(self).handle_of(id@) == Some(handle),
    {
        proof {
            use_type_invariant(&*self);
        }
        let ghost before = self@;
        let ghost idv = id@;
        let ghost stv = status@;
        match self.find(id.as_str()) {
            Some(i) => {
                let mut entries: Vec<Entry<H>> = Vec::new();
                std::mem::swap(&mut entries, &mut self.entries);
                entries.remove(i);
                entries.insert(i, Entry { id, handle, status });
                proof {
                    let t = table_of(entries@);
                    assert(t =~= before.update(i as int, (idv, stv)));
                    assert forall|a: int, b: int| 0 <= a < b < t.len() implies #[trigger] t[a].0
                        != #[trigger] t[b].0 by {
                        assert(t[a].0 == before[a].0);
                        assert(t[b].0 == before[b].0);
                    }
                }
                self.entries = entries;
                proof {
                    lemma_position_unique(self@, idv, i as int);
                }
            },
            None => {
                let mut entries: Vec<Entry<H>> = Vec::new();
                std::mem::swap(&mut entries, &mut self.entries);
                entries.push(Entry { id, handle, status });
                proof {
                    let t = table_of(entries@);
                    assert(t =~= before.push((idv, stv)));
                    assert forall|a: int, b: int| 0 <= a < b < t.len() implies #[trigger] t[a].0
                        != #[trigger] t[b].0 by {
                        if b == before.len() {
                            assert(t[a].0 == before[a].0);
                        } else {
                            assert(t[a].0 == before[a].0);
                            assert(t[b].0 == before[b].0);
                        }
                    }
                }
                self.entries = entries;
                proof {
                    lemma_position_unique(self@, idv, before.len() as int);
                }
            },
        }
    }

    /// Remove the entry of `id`.
    pub fn remove(&mut self, id: &str)
        ensures
            final(self)@ == without(old(self)@, id@),
            status_of(final(self)@, id@) is None,
    {
        proof {
            use_type_invariant(&*self);
            lemma_without_absent(self@, id@);
        }
        let ghost before = self@;
        match self.find(id) {
            Some(i) => {
                let mut entries: Vec<Entry<H>> = Vec::new();
                std::mem::swap(&mut entries, &mut self.entries);
                entries.remove(i);
                proof {
                    let t = table_of(entries@);
                    assert(t =~= before.remove(i as int));
                    assert forall|a: int, b: int| 0 <= a < b < t.len() implies #[trigger] t[a].0
                        != #[trigger] t[b].0 by {
                        let a0 = if a < i { a } else { a + 1 };
                        let b0 = if b < i { b } else { b + 1 };
                        assert(t[a] == before[a0]);
                        assert(t[b] == before[b0]);
                    }
                }
                self.entries = entries;
            },
            None => {},
        }
    }
}

/// Setting a present id's status is what a later lookup sees.
pub proof fn lemma_status_after_set(t: Table, id: Seq<char>, s: Seq<char>)
    requires
        ids_unique(t),
        position(t, id) is Some,
    ensures
        status_of(with_status(t, id, s), id) == Some(s),
        ids_unique(with_status(t, id, s)),
{
    let i = position(t, id)->0;
    let u = t.update(i, (id, s));
    assert forall|a: int, b: int| 0 <= a < b < u.len() implies #[trigger] u[a].0 != #[trigger] u[b].0 by {
        assert(u[a].0 == t[a].0);
        assert(u[b].0 == t[b].0);
    }
    lemma_position_unique(u, id, i);
}

/// An entry just set is what a later lookup sees.
pub proof fn lemma_status_after_entry(t: Table, id: Seq<char>, s: Seq<char>)
    requires
        ids_unique(t),
    ensures
        status_of(with_entry(t, id, s), id) == Some(s),
        ids_unique(with_entry(t, id, s)),
{
    match position(t, id) {
        Some(i) => lemma_status_after_set(t, id, s),
        None => {
            let u = t.push((id, s));
            assert forall|a: int, b: int| 0 <= a < b < u.len() implies #[trigger] u[a].0
                != #[trigger] u[b].0 by {
                assert(u[a].0 == t[a].0);
                if b < t.len() {
                    assert(u[b].0 == t[b].0);
                } else {
                    assert(!(0 <= a < t.len() && t[a].0 == id));
                }
            }
            lemma_position_unique(u, id, t.len() as int);
        },
    }
}

/// When nothing runs, adding a running entry leaves exactly one running.
pub proof fn lemma_single_running(t: Table, id: Seq<char>)
    requires
        !any_running(t),
    ensures
        running_count(with_entry(t, id, "running"@)) == 1,
{
    lemma_running_count_zero(t);
    match position(t, id) {
        Some(i) => lemma_running_count_update(t, i, (id, "running"@)),
        None => {
            let u = t.push((id, "running"@));
            assert(u.drop_last() =~= t);
        },
    }
}

/// After removal the id is gone and nobody else moved status.
pub proof fn lemma_without_absent(t: Table, id: Seq<char>)
    requires
        ids_unique(t),
    ensures
        status_of(without(t, id), id) is None,
{
    match position(t, id) {
        Some(i) => {
            let u = t.remove(i);
            if position(u, id) is Some {
                let j = choose|j: int| 0 <= j < u.len() && u[j].0 == id;
                let j0 = if j < i { j } else { j + 1 };
                assert(u[j] == t[j0]);
                lemma_position_unique(t, id, i);
                if j0 < i {
                    assert(t[j0].0 != t[i].0);
                } else {
                    assert(t[i].0 != t[j0].0);
                }
            }
        },
        None => {},
    }
}

proof fn lemma_other_after_update(t: Table, i: int, e: (Seq<char>, Seq<char>), other: Seq<char>)
    requires
        ids_unique(t),
        ids_unique(t.update(i, e)),
        0 <= i < t.len(),
        t[i].0 != other,
        e.0 != other,
    ensures
        status_of(t.update(i, e), other) == status_of(t, other),
{
    let u = t.update(i, e);
    match position(t, other) {
        Some(k) => {
            assert(t[k].0 == other);
            assert(u[k] == t[k]);
            lemma_position_unique(u, other, k);
        },
        None => {
            if position(u, other) is Some {
                let j = choose|j: int| 0 <= j < u.len() && u[j].0 == other;
                assert(u[j] == t[j]);
                assert(t[j].0 == other);
            }
        },
    }
}

proof fn lemma_other_after_remove(t: Table, i: int, other: Seq<char>)
    requires
        ids_unique(t),
        0 <= i < t.len(),
        t[i].0 != other,
    ensures
        status_of(t.remove(i), other) == status_of(t, other),
{
    let r = t.remove(i);
    assert forall|a: int, b: int| 0 <= a < b < r.len() implies #[trigger] r[a].0
        != #[trigger] r[b].0 by {
        let a0 = if a < i { a } else { a + 1 };
        let b0 = if b < i { b } else { b + 1 };
        assert(r[a] == t[a0] && r[b] == t[b0]);
    }
    match position(t, other) {
        Some(k) => {
            assert(t[k].0 == other);
            let k1 = if k < i { k } else { k - 1 };
            assert(r[k1] == t[k]);
            lemma_position_unique(r, other, k1);
        },
        None => {
            if position(r, other) is Some {
                let j = choose|j: int| 0 <= j < r.len() && r[j].0 == other;
                let j0 = if j < i { j } else { j + 1 };
                assert(r[j] == t[j0]);
                assert(t[j0].0 == other);
            }
        },
    }
}

proof fn lemma_other_after_push(t: Table, e: (Seq<char>, Seq<char>), other: Seq<char>)
    requires
        ids_unique(t),
        ids_unique(t.push(e)),
        e.0 != other,
    ensures
        status_of(t.push(e), other) == status_of(t, other),
{
    let u = t.push(e);
    match position(t, other) {
        Some(k) => {
            assert(t[k].0 == other);
            assert(u[k] == t[k]);
            lemma_position_unique(u, other, k);
        },
        None => {
            if position(u, other) is Some {
                let j = choose|j: int| 0 <= j < u.len() && u[j].0 == other;
                assert(j < t.len());
                assert(u[j] == t[j]);
                assert(t[j].0 == other);
            }
        },
    }
}

/// Changing one task leaves every other task's status as it was: setting a status, adding
/// or replacing an entry, or removing one. Setting the status of a task that is not in the
/// table changes nothing.
pub proof fn law_other_tasks_untouched(t: Table, id: Seq<char>, s: Seq<char>, other: Seq<char>)
    requires
        ids_unique(t),
        other != id,
    ensures
        status_of(with_status(t, id, s), other) == status_of(t, other),
        status_of(with_entry(t, id, s), other) == status_of(t, other),
        status_of(without(t, id), other) == status_of(t, other),
        position(t, id) is None ==> with_status(t, id, s) == t,
{
    match position(t, id) {
        Some(i) => {
            assert(t[i].0 == id);
            lemma_status_after_set(t, id, s);
            lemma_other_after_update(t, i, (id, s), other);
            lemma_other_after_remove(t, i, other);
        },
        None => {
            lemma_status_after_entry(t, id, s);
            lemma_other_after_push(t, (id, s), other);
        },
    }
}

} // verus!
