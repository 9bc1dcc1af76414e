//! Confirmation polling as a state machine.
//!
//! While a submitted transaction is pending, the poller queries its status
//! until the ledger resolves it or the deadline passes. "Not known yet" is
//! followed by a short wait, a failed query by a longer one. The caller
//! performs each query and wait and feeds the reply back.
use vstd::prelude::*;
use vstd::string::*;
use crate::dispatch::TransferStatus;

verus! {

/// Wait after the ledger reports the status as not yet known.
pub const PENDING_WAIT_MS: u64 = 500;

/// Wait after a status query itself failed.
pub const ERROR_WAIT_MS: u64 = 1000;

/// What one status query returned.
pub enum StatusReply {
    /// The ledger reports the transaction as executed successfully.
    Confirmed,
    /// The ledger reports the transaction as failed, with its error.
    Rejected(String),
    /// The ledger does not know the final status yet.
    Unknown,
    /// The query could not be made or answered.
    QueryFailed,
}

/// What the caller does next.
pub enum PollAction {
    /// Query the status now.
    Query,
    /// Wait this many milliseconds, then ask for the next action.
    Wait(u64),
    /// Stop: the transfer ends with this status.
    Finish(TransferStatus),
}

/// The deadline: `timeout_secs` after `start_ms`, saturating at the largest
/// representable time.
pub open spec fn deadline_spec(start_ms: u64, timeout_secs: u64) -> u64 {
    if start_ms + timeout_secs * 1000 > u64::MAX {
        u64::MAX
    } else {
        (start_ms + timeout_secs * 1000) as u64
    }
}

pub fn confirmation_deadline(start_ms: u64, timeout_secs: u64) -> (r: u64)
    ensures
        r == deadline_spec(start_ms, timeout_secs),
{
    if timeout_secs > (u64::MAX - start_ms) / 1000 {
        proof {
            assert(start_ms + timeout_secs * 1000 > u64::MAX) by (nonlinear_arith)
                requires timeout_secs > (u64::MAX - start_ms) / 1000, start_ms <= u64::MAX;
        }
        u64::MAX
    } else {
        proof {
            assert(start_ms + timeout_secs * 1000 <= u64::MAX) by (nonlinear_arith)
                requires timeout_secs <= (u64::MAX - start_ms) / 1000, start_ms <= u64::MAX;
        }
        start_ms + timeout_secs * 1000
    }
}

pub open spec fn action_at_spec(now_ms: int, deadline_ms: int) -> PollAction {
    if now_ms < deadline_ms {
        PollAction::Query
    } else {
        PollAction::Finish(TransferStatus::Timeout)
    }
}

/// The action at time `now_ms` while pending: query before the deadline,
/// time out from the deadline on.
pub fn action_at(now_ms: u64, deadline_ms: u64) -> (r: PollAction)
    ensures
        r == action_at_spec(now_ms as int, deadline_ms as int),
{
    if now_ms < deadline_ms {
        PollAction::Query
    } else {
        PollAction::Finish(TransferStatus::Timeout)
    }
}

/// `r` is the action after `reply`: a resolution ends polling, anything else
/// waits before the next query.
pub open spec fn is_action_after(reply: StatusReply, r: PollAction) -> bool {
    match reply {
        StatusReply::Confirmed => r == PollAction::Finish(TransferStatus::Success),
        StatusReply::Rejected(e) => r matches PollAction::Finish(TransferStatus::Failed(m))
            && m@ == "Transaction error: "@ + e@,
        StatusReply::Unknown => r == PollAction::Wait(PENDING_WAIT_MS),
        StatusReply::QueryFailed => r == PollAction::Wait(ERROR_WAIT_MS),
    }
}

pub fn action_after(reply: StatusReply) -> (r: PollAction)
    ensures
        is_action_after(reply, r),
{
    match reply {
        StatusReply::Confirmed => PollAction::Finish(TransferStatus::Success),
        StatusReply::Rejected(e) => {
            let m = String::from_str("Transaction error: ").concat(e.as_str());
            PollAction::Finish(TransferStatus::Failed(m))
        },
        StatusReply::Unknown => PollAction::Wait(PENDING_WAIT_MS),
        StatusReply::QueryFailed => PollAction::Wait(ERROR_WAIT_MS),
    }
}

/// Where polling that starts at `now_ms` ends, when each query answers with
/// the next of `replies` and queries take no time: whether it timed out, and
/// when. `None` when the replies run out first.
pub open spec fn poll_end(now_ms: int, deadline_ms: int, replies: Seq<StatusReply>) -> Option<
    (bool, int),
>
    decreases replies.len(),
{
    if action_at_spec(now_ms, deadline_ms) is Finish {
        Some((true, now_ms))
    } else if replies.len() == 0 {
        None
    } else {
        match replies[0] {
            StatusReply::Unknown => poll_end(
                now_ms + PENDING_WAIT_MS,
                deadline_ms,
                replies.skip(1),
            ),
            StatusReply::QueryFailed => poll_end(now_ms + ERROR_WAIT_MS, deadline_ms, replies.skip(1)),
            _ => Some((false, now_ms)),
        }
    }
}

pub open spec fn never_resolves(replies: Seq<StatusReply>) -> bool {
    forall|i: int|
        0 <= i < replies.len() ==> (#[trigger] replies[i] is Unknown) || replies[i] is QueryFailed
}

/// Polling that never sees a resolution ends in a timeout, no later than one
/// (longest) wait past the deadline.
pub proof fn unresolved_polling_times_out(
    start_ms: int,
    deadline_ms: int,
    replies: Seq<StatusReply>,
)
    requires
        start_ms <= deadline_ms,
        never_resolves(replies),
        replies.len() * PENDING_WAIT_MS >= deadline_ms - start_ms,
    ensures
        poll_end(start_ms, deadline_ms, replies) matches Some((timed_out, end_ms)) && timed_out
            && deadline_ms <= end_ms <= deadline_ms + ERROR_WAIT_MS,
{
    lemma_poll_end_timeout(start_ms, deadline_ms, replies);
}

proof fn lemma_poll_end_timeout(now_ms: int, deadline_ms: int, replies: Seq<StatusReply>)
    requires
        now_ms < deadline_ms + ERROR_WAIT_MS,
        never_resolves(replies),
        now_ms >= deadline_ms || replies.len() * PENDING_WAIT_MS >= deadline_ms - now_ms,
    ensures
        poll_end(now_ms, deadline_ms, replies) matches Some((timed_out, end_ms)) && timed_out
            && deadline_ms <= end_ms < deadline_ms + ERROR_WAIT_MS,
    decreases replies.len(),
{
    if now_ms < deadline_ms {
        assert(replies.len() > 0);
        let rest = replies.skip(1);
        assert(never_resolves(rest)) by {
            assert forall|i: int| 0 <= i < rest.len() implies (#[trigger] rest[i] is Unknown)
                || rest[i] is QueryFailed by {
                assert(rest[i] == replies[i + 1]);
            }
        }
        assert(replies[0] is Unknown || replies[0] is QueryFailed);
        assert(rest.len() * PENDING_WAIT_MS == replies.len() * PENDING_WAIT_MS - PENDING_WAIT_MS)
            by (nonlinear_arith)
            requires rest.len() == replies.len() - 1;
        if replies[0] is Unknown {
            lemma_poll_end_timeout(now_ms + PENDING_WAIT_MS, deadline_ms, rest);
        } else {
            lemma_poll_end_timeout(now_ms + ERROR_WAIT_MS, deadline_ms, rest);
        }
    }
}

} // verus!
