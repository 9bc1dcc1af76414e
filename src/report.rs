//! The report of a run: every outcome in work-list order, with counts per
//! status and the mean duration.
use vstd::prelude::*;
use crate::dispatch::{Dispatcher, TransferResult, TransferStatus};
use vstd::arithmetic::div_mod::{lemma_div_is_ordered, lemma_div_multiples_vanish};

verus! {

pub struct Report {
    pub outcomes: Vec<TransferResult>,
    pub success_count: usize,
    pub failed_count: usize,
    pub timeout_count: usize,
    /// Sum of the outcomes' durations.
    pub total_duration_ms: u128,
    /// Mean duration, rounded down; 0 for an empty report.
    pub average_duration_ms: u64,
}

pub open spec fn count_success(s: Seq<TransferResult>) -> nat
    decreases s.len(),
{
    if s.len() == 0 {
        0
    } else {
        count_success(s.drop_last()) + if s.last().status is Success {
            1nat
        } else {
            0nat
        }
    }
}

pub open spec fn count_failed(s: Seq<TransferResult>) -> nat
    decreases s.len(),
{
    if s.len() == 0 {
        0
    } else {
        count_failed(s.drop_last()) + if s.last().status is Failed {
            1nat
        } else {
            0nat
        }
    }
}

pub open spec fn count_timeout(s: Seq<TransferResult>) -> nat
    decreases s.len(),
{
    if s.len() == 0 {
        0
    } else {
        count_timeout(s.drop_last()) + if s.last().status is Timeout {
            1nat
        } else {
            0nat
        }
    }
}

pub open spec fn total_duration(s: Seq<TransferResult>) -> nat
    decreases s.len(),
{
    if s.len() == 0 {
        0
    } else {
        total_duration(s.drop_last()) + s.last().duration_ms as nat
    }
}

pub open spec fn average_duration(s: Seq<TransferResult>) -> nat {
    if s.len() == 0 {
        0
    } else {
        total_duration(s) / s.len()
    }
}

/// `r` reports exactly the outcomes `s`.
pub open spec fn reports(r: Report, s: Seq<TransferResult>) -> bool {
    &&& r.outcomes@ == s
    &&& r.success_count == count_success(s)
    &&& r.failed_count == count_failed(s)
    &&& r.timeout_count == count_timeout(s)
    &&& r.total_duration_ms == total_duration(s)
    &&& r.average_duration_ms == average_duration(s)
}

proof fn lemma_counts_bounded(s: Seq<TransferResult>)
    ensures
        count_success(s) + count_failed(s) + count_timeout(s) == s.len(),
        total_duration(s) <= s.len() * u64::MAX,
    decreases s.len(),
{
    if s.len() > 0 {
        lemma_counts_bounded(s.drop_last());
        assert(total_duration(s.drop_last()) + s.last().duration_ms <= s.len() * u64::MAX)
            by (nonlinear_arith)
            requires
                total_duration(s.drop_last()) <= s.drop_last().len() * u64::MAX,
                s.drop_last().len() + 1 == s.len(),
                s.last().duration_ms <= u64::MAX,
        ;
    }
}

/// Counts the outcomes by status and averages their durations.
pub fn summarize(outcomes: Vec<TransferResult>) -> (r: Report)
    ensures
        reports(r, outcomes@),
        r.success_count + r.failed_count + r.timeout_count == outcomes@.len(),
{
    let n = outcomes.len();
    let mut success: usize = 0;
    let mut failed: usize = 0;
    let mut timeout: usize = 0;
    let mut total: u128 = 0;
    let mut i: usize = 0;
    while i < n
        invariant
            n == outcomes@.len(),
            i <= n,
            success == count_success(outcomes@.take(i as int)),
            failed == count_failed(outcomes@.take(i as int)),
            timeout == count_timeout(outcomes@.take(i as int)),
            total == total_duration(outcomes@.take(i as int)),
        decreases n - i,
    {
        let ghost pre = outcomes@.take(i as int);
        let ghost next = outcomes@.take(i + 1);
        proof {
            assert(next.drop_last() =~= pre);
            lemma_counts_bounded(pre);
            lemma_counts_bounded(next);
            assert(total_duration(next) <= (i + 1) * u64::MAX);
            assert((i + 1) * u64::MAX <= u128::MAX) by (nonlinear_arith)
                requires i < usize::MAX;
        }
        let o = &outcomes[i];
        match &o.status {
            TransferStatus::Success => {
                success = success + 1;
            },
            TransferStatus::Failed(_) => {
                failed = failed + 1;
            },
            TransferStatus::Timeout => {
                timeout = timeout + 1;
            },
        }
        total = total + o.duration_ms as u128;
        i = i + 1;
    }
    proof {
        assert(outcomes@.take(n as int) =~= outcomes@);
        lemma_counts_bounded(outcomes@);
    }
    let average: u64 = if n == 0 {
        0
    } else {
        proof {
            lemma_div_is_ordered(total as int, n * u64::MAX, n as int);
            lemma_div_multiples_vanish(u64::MAX as int, n as int);
            assert(n * u64::MAX == u64::MAX * n) by (nonlinear_arith);
        }
        (total / n as u128) as u64
    };
    Report {
        outcomes,
        success_count: success,
        failed_count: failed,
        timeout_count: timeout,
        total_duration_ms: total,
        average_duration_ms: average,
    }
}

impl Dispatcher {
    /// The report of a finished run: one outcome per transfer of the work
    /// list, in work-list order.
    pub fn into_report(self) -> (r: Report)
        requires
            self.wf(),
            self.finished(),
        ensures
            r.outcomes@.len() == self.total(),
            forall|k: int| 0 <= k < r.outcomes@.len() ==> self.slots()[k] == Some(
                #[trigger] r.outcomes@[k],
            ),
            reports(r, r.outcomes@),
    {
        summarize(self.into_results())
    }
}

} // verus!
