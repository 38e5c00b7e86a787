//! Scanline scheduler state: one three-state entry per image row.
//!
//! A row moves NotStarted -> Running -> Completed and never backward. The
//! coordinator claims at most one row per decision, so no two workers ever
//! hold the same row; the thread pool around the table only regulates how
//! many claimed rows run at once.
use vstd::prelude::*;

verus! {

/// Lifecycle of one image row.
#[derive(Clone, Copy, Debug, PartialEq, Eq, Structural)]
pub enum TaskStatus {
    NotStarted,
    Running,
    Completed,
}

/// Position of a status in the NotStarted -> Running -> Completed order.
pub open spec fn status_rank(t: TaskStatus) -> int {
    match t {
        TaskStatus::NotStarted => 0,
        TaskStatus::Running => 1,
        TaskStatus::Completed => 2,
    }
}

/// How many entries of `s` hold status `t`.
pub open spec fn count_status(s: Seq<TaskStatus>, t: TaskStatus) -> nat
    decreases s.len(),
{
    if s.len() == 0 {
        0
    } else {
        count_status(s.drop_last(), t) + (if s.last() == t {
            1nat
        } else {
            0nat
        })
    }
}

/// Every row of `s` has been completed.
pub open spec fn all_rows_completed(s: Seq<TaskStatus>) -> bool {
    forall|j: int| 0 <= j < s.len() ==> s[j] is Completed
}

/// A table is fully completed exactly when no row is left unstarted or
/// running, so the coordinator's exit test leaves nothing pending behind.
pub proof fn lemma_completed_iff_none_pending(s: Seq<TaskStatus>)
    ensures
        all_rows_completed(s) <==> (count_status(s, TaskStatus::NotStarted) == 0 && count_status(
            s,
            TaskStatus::Running,
        ) == 0),
    decreases s.len(),
{
    if s.len() > 0 {
        let head = s.drop_last();
        lemma_completed_iff_none_pending(head);
        if all_rows_completed(s) {
            assert forall|j: int| 0 <= j < head.len() implies head[j] is Completed by {
                assert(s[j] is Completed);
            }
        }
        if all_rows_completed(head) && s.last() is Completed {
            assert forall|j: int| 0 <= j < s.len() implies s[j] is Completed by {
                if j < s.len() - 1 {
                    assert(head[j] is Completed);
                } else {
                    assert(s[j] == s.last());
                }
            }
        }
    }
}

/// Updating one entry moves the counts by exactly the statuses exchanged.
pub proof fn lemma_count_update(s: Seq<TaskStatus>, i: int, v: TaskStatus, t: TaskStatus)
    requires
        0 <= i < s.len(),
    ensures
        count_status(s.update(i, v), t) == count_status(s, t) + (if v == t {
            1int
        } else {
            0int
        }) - (if s[i] == t {
            1int
        } else {
            0int
        }),
    decreases s.len(),
{
    let su = s.update(i, v);
    if i == s.len() - 1 {
        assert(su.drop_last() =~= s.drop_last());
    } else {
        assert(su.drop_last() =~= s.drop_last().update(i, v));
        lemma_count_update(s.drop_last(), i, v, t);
    }
}

/// Extending a sequence by one entry extends the count by that entry.
pub proof fn lemma_count_push(s: Seq<TaskStatus>, v: TaskStatus, t: TaskStatus)
    ensures
        count_status(s.push(v), t) == count_status(s, t) + (if v == t {
            1nat
        } else {
            0nat
        }),
{
    assert(s.push(v).drop_last() =~= s);
}

/// The row-status table: one entry per image row, all transitions through
/// the methods below, each monotone in `status_rank`.
pub struct StatusTable {
    rows: Vec<TaskStatus>,
}

impl View for StatusTable {
    type V = Seq<TaskStatus>;

    closed spec fn view(&self) -> Seq<TaskStatus> {
        self.rows@
    }
}

impl StatusTable {
    /// A table for `height` rows, none of them started.
    pub fn new(height: usize) -> (t: StatusTable)
        ensures
            t@.len() == height,
            forall|j: int| 0 <= j < height ==> t@[j] is NotStarted,
            count_status(t@, TaskStatus::Running) == 0,
    {
        let mut rows: Vec<TaskStatus> = Vec::new();
        let mut i: usize = 0;
        while i < height
            invariant
                i <= height,
                rows@.len() == i,
                forall|j: int| 0 <= j < i ==> rows@[j] is NotStarted,
                count_status(rows@, TaskStatus::Running) == 0,
            decreases height - i,
        {
            proof {
                lemma_count_push(rows@, TaskStatus::NotStarted, TaskStatus::Running);
            }
            rows.push(TaskStatus::NotStarted);
            i += 1;
        }
        StatusTable { rows }
    }

    /// Number of rows in the table.
    pub fn len(&self) -> (n: usize)
        ensures
            n == self@.len(),
    {
        self.rows.len()
    }

    /// Status of row `y`.
    pub fn status(&self, y: usize) -> (t: TaskStatus)
        requires
            y < self@.len(),
        ensures
            t == self@[y as int],
    {
        self.rows[y]
    }

    /// How many rows are currently running.
    pub fn running_count(&self) -> (n: usize)
        ensures
            n == count_status(self@, TaskStatus::Running),
    {
        let len: usize = self.rows.len();
        let mut n: usize = 0;
        let mut i: usize = 0;
        while i < len
            invariant
                i <= len,
                len == self@.len(),
                n == count_status(self@.subrange(0, i as int), TaskStatus::Running),
                n <= i,
            decreases len - i,
        {
            proof {
                assert(self@.subrange(0, i + 1).drop_last() =~= self@.subrange(0, i as int));
            }
            match self.rows[i] {
                TaskStatus::Running => {
                    n += 1;
                },
                _ => {},
            }
            i += 1;
        }
        proof {
            assert(self@.subrange(0, len as int) =~= self@);
        }
        n
    }

    /// Whether every row has been completed.
    pub fn all_completed(&self) -> (b: bool)
        ensures
            b == all_rows_completed(self@),
    {
        let len: usize = self.rows.len();
        let mut i: usize = 0;
        while i < len
            invariant
                i <= len,
                len == self@.len(),
                forall|j: int| 0 <= j < i ==> self@[j] is Completed,
            decreases len - i,
        {
            match self.rows[i] {
                TaskStatus::Completed => {},
                _ => {
                    return false;
                },
            }
            i += 1;
        }
        true
    }

    /// Claims the first not-yet-started row, marking it Running, or reports
    /// that none is left. At most one row changes, and only forward.
    pub fn claim_next(&mut self) -> (r: Option<usize>)
        ensures
            final(self)@.len() == old(self)@.len(),
            forall|j: int|
                0 <= j < old(self)@.len() ==> status_rank(old(self)@[j]) <= status_rank(
                    final(self)@[j],
                ),
            match r {
                Some(y) => {
                    &&& y < old(self)@.len()
                    &&& old(self)@[y as int] is NotStarted
                    &&& forall|j: int| 0 <= j < y ==> !(old(self)@[j] is NotStarted)
                    &&& final(self)@ == old(self)@.update(y as int, TaskStatus::Running)
                    &&& count_status(final(self)@, TaskStatus::NotStarted) + 1 == count_status(
                        old(self)@,
                        TaskStatus::NotStarted,
                    )
                    &&& count_status(final(self)@, TaskStatus::Running) == count_status(
                        old(self)@,
                        TaskStatus::Running,
                    ) + 1
                    &&& count_status(final(self)@, TaskStatus::Completed) == count_status(
                        old(self)@,
                        TaskStatus::Completed,
                    )
                },
                None => {
                    &&& final(self)@ == old(self)@
                    &&& forall|j: int| 0 <= j < old(self)@.len() ==> !(old(self)@[j] is NotStarted)
                },
            },
    {
        let len: usize = self.rows.len();
        let mut i: usize = 0;
        while i < len
            invariant
                i <= len,
                len == self@.len(),
                self@ == old(self)@,
                forall|j: int| 0 <= j < i ==> !(self@[j] is NotStarted),
            decreases len - i,
        {
            match self.rows[i] {
                TaskStatus::NotStarted => {
                    proof {
                        lemma_count_update(self@, i as int, TaskStatus::Running,
                            TaskStatus::NotStarted);
                        lemma_count_update(self@, i as int, TaskStatus::Running,
                            TaskStatus::Running);
                        lemma_count_update(self@, i as int, TaskStatus::Running,
                            TaskStatus::Completed);
                    }
                    self.rows.set(i, TaskStatus::Running);
                    return Some(i);
                },
                _ => {},
            }
            i += 1;
        }
        None
    }

    /// Marks a running row completed: the one forward transition a worker
    /// makes after its row has been merged into the image.
    pub fn mark_completed(&mut self, y: usize)
        requires
            y < old(self)@.len(),
            old(self)@[y as int] is Running,
        ensures
            final(self)@ == old(self)@.update(y as int, TaskStatus::Completed),
            forall|j: int|
                0 <= j < old(self)@.len() ==> status_rank(old(self)@[j]) <= status_rank(
                    final(self)@[j],
                ),
            count_status(final(self)@, TaskStatus::Running) + 1 == count_status(
                old(self)@,
                TaskStatus::Running,
            ),
            count_status(final(self)@, TaskStatus::Completed) == count_status(
                old(self)@,
                TaskStatus::Completed,
            ) + 1,
            count_status(final(self)@, TaskStatus::NotStarted) == count_status(
                old(self)@,
                TaskStatus::NotStarted,
            ),
    {
        proof {
            lemma_count_update(self@, y as int, TaskStatus::Completed, TaskStatus::NotStarted);
            lemma_count_update(self@, y as int, TaskStatus::Completed, TaskStatus::Running);
            lemma_count_update(self@, y as int, TaskStatus::Completed, TaskStatus::Completed);
        }
        self.rows.set(y, TaskStatus::Completed);
    }
}

/// What the coordinator does next with the table in its current state.
#[derive(Clone, Copy, Debug, PartialEq, Eq, Structural)]
pub enum SchedulerAction {
    /// At worker capacity, or every remaining row is already claimed: idle
    /// briefly and decide again.
    Wait,
    /// The carried row was just claimed: spawn a worker for it.
    Spawn(usize),
    /// Every row is completed: the render is finished.
    Done,
}

/// One coordinator decision: idle at capacity, finish when every row is
/// completed, otherwise claim the first unstarted row for a new worker.
pub fn next_action(table: &mut StatusTable, max_running: usize) -> (a: SchedulerAction)
    ensures
        final(table)@.len() == old(table)@.len(),
        forall|j: int|
            0 <= j < old(table)@.len() ==> status_rank(old(table)@[j]) <= status_rank(
                final(table)@[j],
            ),
        a is Done <==> (count_status(old(table)@, TaskStatus::Running) < max_running
            && all_rows_completed(old(table)@)),
        a is Done ==> count_status(old(table)@, TaskStatus::NotStarted) == 0 && count_status(
            old(table)@,
            TaskStatus::Running,
        ) == 0,
        a is Wait <==> (count_status(old(table)@, TaskStatus::Running) >= max_running || (
        !all_rows_completed(old(table)@) && (forall|j: int|
            0 <= j < old(table)@.len() ==> !(old(table)@[j] is NotStarted)))),
        a is Wait ==> final(table)@ == old(table)@,
        a is Done ==> final(table)@ == old(table)@,
        a matches SchedulerAction::Spawn(y) ==> {
            &&& count_status(old(table)@, TaskStatus::Running) < max_running
            &&& y < old(table)@.len()
            &&& old(table)@[y as int] is NotStarted
            &&& forall|j: int| 0 <= j < y ==> !(old(table)@[j] is NotStarted)
            &&& final(table)@ == old(table)@.update(y as int, TaskStatus::Running)
        },
{
    let running: usize = table.running_count();
    if running >= max_running {
        return SchedulerAction::Wait;
    }
    if table.all_completed() {
        proof {
            lemma_completed_iff_none_pending(table@);
        }
        return SchedulerAction::Done;
    }
    match table.claim_next() {
        Some(y) => SchedulerAction::Spawn(y),
        None => SchedulerAction::Wait,
    }
}

} // verus!
