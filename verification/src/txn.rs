//! The transaction driver of the batch writer.
//!
//! The embedding application opens one transaction, then follows the
//! driver's instructions: execute the next statement of the plan, commit, or
//! abort.  After each executed statement it reports back what the store
//! said.  The laws proved here: the driver commits only when every statement
//! of the plan succeeded, it aborts as soon as one fails — so a failed batch
//! leaves no rows visible — and the row count it reports is the sum of the
//! rows the store reported.

use vstd::prelude::*;

verus! {

/// What the store said about one executed statement.
#[derive(Debug, PartialEq)]
pub enum WriteEvent {
    /// The statement succeeded and affected this many rows.
    Done(u64),
    /// The statement failed; the detail text is the store's message.
    Failed(String),
}

/// What the embedding application must do next.
#[derive(Clone, Copy, Debug, PartialEq, Eq, Structural)]
pub enum WriteAction {
    /// Execute statement `i` of the plan, within the open transaction.
    Execute(usize),
    /// Every statement succeeded: commit the transaction.
    Commit,
    /// A statement failed: abort the transaction, making the whole batch
    /// invisible.
    Abort,
}

/// The driver's state across one batch write.
#[derive(Clone, Copy, Debug, PartialEq, Eq, Structural)]
pub struct BatchWriter {
    pub plan_len: usize,
    pub next: usize,
    pub rows: u64,
    pub finished: bool,
    pub committed: bool,
    pub aborted: bool,
}

impl BatchWriter {
    /// The driver's structural invariant.
    pub open spec fn wf(self) -> bool {
        &&& self.next <= self.plan_len
        &&& (!self.finished ==> self.next < self.plan_len)
        &&& (self.committed ==> self.finished)
        &&& (self.aborted ==> self.finished)
        &&& !(self.committed && self.aborted)
    }
}

/// The state and instruction a batch of `plan_len` statements starts with.
pub open spec fn spec_writer_start(plan_len: usize) -> (BatchWriter, WriteAction) {
    if plan_len == 0 {
        (
            BatchWriter {
                plan_len,
                next: 0,
                rows: 0,
                finished: true,
                committed: true,
                aborted: false,
            },
            WriteAction::Commit,
        )
    } else {
        (
            BatchWriter {
                plan_len,
                next: 0,
                rows: 0,
                finished: false,
                committed: false,
                aborted: false,
            },
            WriteAction::Execute(0),
        )
    }
}

/// The state and instruction after the store reported on statement
/// `st.next`: rows accumulate (saturating), failure aborts, and the last
/// success commits.
pub open spec fn spec_writer_step(st: BatchWriter, ev: WriteEvent) -> (BatchWriter, WriteAction) {
    match ev {
        WriteEvent::Done(n) => {
            let rows2 = if st.rows + n <= u64::MAX {
                (st.rows + n) as u64
            } else {
                u64::MAX
            };
            if st.next + 1 < st.plan_len {
                (
                    BatchWriter {
                        plan_len: st.plan_len,
                        next: (st.next + 1) as usize,
                        rows: rows2,
                        finished: false,
                        committed: false,
                        aborted: false,
                    },
                    WriteAction::Execute((st.next + 1) as usize),
                )
            } else {
                (
                    BatchWriter {
                        plan_len: st.plan_len,
                        next: st.plan_len,
                        rows: rows2,
                        finished: true,
                        committed: true,
                        aborted: false,
                    },
                    WriteAction::Commit,
                )
            }
        },
        WriteEvent::Failed(_) => (
            BatchWriter {
                plan_len: st.plan_len,
                next: st.next,
                rows: st.rows,
                finished: true,
                committed: false,
                aborted: true,
            },
            WriteAction::Abort,
        ),
    }
}

/// Starts one batch write.
pub fn writer_start(plan_len: usize) -> (r: (BatchWriter, WriteAction))
    ensures
        r == spec_writer_start(plan_len),
        r.0.wf(),
{
    if plan_len == 0 {
        (
            BatchWriter {
                plan_len,
                next: 0,
                rows: 0,
                finished: true,
                committed: true,
                aborted: false,
            },
            WriteAction::Commit,
        )
    } else {
        (
            BatchWriter {
                plan_len,
                next: 0,
                rows: 0,
                finished: false,
                committed: false,
                aborted: false,
            },
            WriteAction::Execute(0),
        )
    }
}

/// Advances the driver by one store report.
pub fn writer_step(st: BatchWriter, ev: WriteEvent) -> (r: (BatchWriter, WriteAction))
    requires
        st.wf(),
        !st.finished,
    ensures
        r == spec_writer_step(st, ev),
        r.0.wf(),
{
    match ev {
        WriteEvent::Done(n) => {
            let rows2 = if n <= u64::MAX - st.rows {
                st.rows + n
            } else {
                u64::MAX
            };
            if st.next + 1 < st.plan_len {
                (
                    BatchWriter {
                        plan_len: st.plan_len,
                        next: st.next + 1,
                        rows: rows2,
                        finished: false,
                        committed: false,
                        aborted: false,
                    },
                    WriteAction::Execute(st.next + 1),
                )
            } else {
                (
                    BatchWriter {
                        plan_len: st.plan_len,
                        next: st.plan_len,
                        rows: rows2,
                        finished: true,
                        committed: true,
                        aborted: false,
                    },
                    WriteAction::Commit,
                )
            }
        },
        WriteEvent::Failed(_) => (
            BatchWriter {
                plan_len: st.plan_len,
                next: st.next,
                rows: st.rows,
                finished: true,
                committed: false,
                aborted: true,
            },
            WriteAction::Abort,
        ),
    }
}

/// The driver's final state after consuming store reports in order, one per
/// executed statement, stopping once finished.
pub open spec fn writer_run(st: BatchWriter, events: Seq<WriteEvent>) -> BatchWriter
    decreases events.len(),
{
    if st.finished || events.len() == 0 {
        st
    } else {
        writer_run(spec_writer_step(st, events[0]).0, events.skip(1))
    }
}

/// Whether the first `n` events all report success.
pub open spec fn all_done(events: Seq<WriteEvent>, n: int) -> bool {
    forall|k: int| 0 <= k < n ==> (#[trigger] events[k]) is Done
}

/// The sum of the rows reported by the first `n` events.
pub open spec fn sum_done(events: Seq<WriteEvent>, n: int) -> int
    decreases n,
{
    if n <= 0 {
        0
    } else {
        sum_done(events, n - 1) + (match events[n - 1] {
            WriteEvent::Done(r) => r as int,
            WriteEvent::Failed(_) => 0,
        })
    }
}

proof fn lemma_sum_done_nonneg(events: Seq<WriteEvent>, n: int)
    ensures
        sum_done(events, n) >= 0,
    decreases n,
{
    if n > 0 {
        lemma_sum_done_nonneg(events, n - 1);
    }
}

proof fn lemma_sum_done_prepend(ev: WriteEvent, events: Seq<WriteEvent>, n: int)
    requires
        0 <= n <= events.len(),
    ensures
        sum_done(seq![ev].add(events), n + 1) == (match ev {
            WriteEvent::Done(r) => r as int,
            WriteEvent::Failed(_) => 0,
        }) + sum_done(events, n),
    decreases n,
{
    let s = seq![ev].add(events);
    if n == 0 {
        assert(s[0] == ev);
        assert(sum_done(s, 0) == 0);
        assert(sum_done(events, 0) == 0);
    } else {
        lemma_sum_done_prepend(ev, events, n - 1);
        assert(s[n] == events[n - 1]);
    }
}

/// Atomicity, the commit direction: the driver commits only when the store
/// reported success for every statement of the plan; its row count is then
/// the exact sum of the reported rows, saturating at the counter's limit.
pub proof fn lemma_writer_commit_needs_all_done(st: BatchWriter, events: Seq<WriteEvent>)
    requires
        st.wf(),
        !st.finished,
        writer_run(st, events).committed,
    ensures
        st.plan_len - st.next <= events.len(),
        all_done(events, st.plan_len - st.next),
        writer_run(st, events).rows == (
            if st.rows + sum_done(events, st.plan_len - st.next) <= u64::MAX {
                st.rows + sum_done(events, st.plan_len - st.next)
            } else {
                u64::MAX as int
            }
        ),
    decreases events.len(),
{
    assert(events.len() > 0) by {
        if events.len() == 0 {
            assert(writer_run(st, events) == st);
        }
    }
    let (st2, _) = spec_writer_step(st, events[0]);
    let m = st.plan_len - st.next;
    match events[0] {
        WriteEvent::Done(n) => {
            if st.next + 1 < st.plan_len {
                assert(writer_run(st, events) == writer_run(st2, events.skip(1)));
                lemma_writer_commit_needs_all_done(st2, events.skip(1));
                assert forall|k: int| 0 <= k < m implies (#[trigger] events[k]) is Done by {
                    if k > 0 {
                        assert(events.skip(1)[k - 1] is Done);
                    }
                }
                lemma_sum_done_prepend(events[0], events.skip(1), m - 1);
                assert(seq![events[0]].add(events.skip(1)) =~= events);
                assert(sum_done(events, m) == n + sum_done(events.skip(1), m - 1));
                lemma_sum_done_nonneg(events.skip(1), m - 1);
                let rest = sum_done(events.skip(1), m - 1);
                if st.rows + n <= u64::MAX {
                    assert(st2.rows == st.rows + n);
                } else {
                    assert(st2.rows == u64::MAX);
                    assert(st.rows + n + rest > u64::MAX);
                }
            } else {
                assert(st.next + 1 == st.plan_len);
                assert(m == 1);
                assert(st2.finished && st2.committed);
                assert(writer_run(st, events) == writer_run(st2, events.skip(1)));
                assert(writer_run(st2, events.skip(1)) == st2);
                assert(sum_done(events, 0) == 0);
                assert(sum_done(events, 1) == n as int);
            }
        },
        WriteEvent::Failed(_) => {
            assert(writer_run(st, events) == writer_run(st2, events.skip(1)));
            assert(writer_run(st2, events.skip(1)) == st2);
            assert(!st2.committed);
            assert(false);
        },
    }
}

/// Atomicity, the abort direction: if the store reports a failure while the
/// batch is still running, the driver never commits — it aborts, so no row
/// of the batch becomes visible.
pub proof fn lemma_writer_failure_aborts(st: BatchWriter, events: Seq<WriteEvent>, k: int)
    requires
        st.wf(),
        !st.finished,
        0 <= k < events.len(),
        k < st.plan_len - st.next,
        events[k] is Failed,
        all_done(events, k),
    ensures
        !writer_run(st, events).committed,
        writer_run(st, events).aborted,
    decreases events.len(),
{
    let (st2, _) = spec_writer_step(st, events[0]);
    assert(writer_run(st, events) == writer_run(st2, events.skip(1)));
    if k == 0 {
        assert(st2.aborted && !st2.committed);
        assert(writer_run(st2, events.skip(1)) == st2);
    } else {
        assert(events[0] is Done);
        assert(st.next + 1 < st.plan_len);
        assert forall|j: int| 0 <= j < k - 1 implies (#[trigger] events.skip(1)[j]) is Done by {
            assert(events.skip(1)[j] == events[j + 1]);
        }
        assert(events.skip(1)[k - 1] == events[k]);
        lemma_writer_failure_aborts(st2, events.skip(1), k - 1);
    }
}

} // verus!
