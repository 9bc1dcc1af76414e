//! Admission control and in-order collection of per-transfer outcomes.
//!
//! The work list is handed out index by index. At most `limit` transfers hold
//! a permit at once; each finished transfer files its outcome under its own
//! index, so the collected outcomes follow the work list whatever the order in
//! which transfers finish.
use vstd::prelude::*;

verus! {

/// Terminal status of one transfer.
pub enum TransferStatus {
    Success,
    /// The reason, as reported to the operator.
    Failed(String),
    Timeout,
}

/// The outcome of one transfer.
pub struct TransferResult {
    /// The paying wallet: its address, or its key's location when the key
    /// could not be loaded.
    pub from: String,
    pub to: String,
    pub amount_lamports: u64,
    /// The ledger's signature, when the transaction was accepted.
    pub signature: Option<String>,
    pub duration_ms: u64,
    pub status: TransferStatus,
}

/// Why a dispatcher could not be set up.
#[derive(Debug, Clone, Copy, PartialEq, Eq, Structural)]
pub enum DispatchError {
    /// The concurrency limit must be at least one.
    InvalidConcurrency,
}

/// Number of slots among the first `n` that hold no outcome yet.
pub open spec fn open_slots(s: Seq<Option<TransferResult>>, n: int) -> nat
    decreases n,
{
    if n <= 0 {
        0
    } else {
        open_slots(s, n - 1) + if s[n - 1] is None {
            1nat
        } else {
            0nat
        }
    }
}

pub struct Dispatcher {
    limit: usize,
    admitted: usize,
    in_flight: usize,
    slots: Vec<Option<TransferResult>>,
}

impl Dispatcher {
    /// The most transfers that may hold a permit at once.
    pub closed spec fn limit(&self) -> nat {
        self.limit as nat
    }

    /// Length of the work list.
    pub closed spec fn total(&self) -> nat {
        self.slots@.len()
    }

    /// How many transfers have been handed out: those with index below this.
    pub closed spec fn admitted(&self) -> nat {
        self.admitted as nat
    }

    /// How many handed-out transfers have not filed their outcome yet.
    pub closed spec fn in_flight(&self) -> nat {
        self.in_flight as nat
    }

    /// The outcome filed under each index so far.
    pub closed spec fn slots(&self) -> Seq<Option<TransferResult>> {
        self.slots@
    }

    pub closed spec fn wf(&self) -> bool {
        &&& self.limit > 0
        &&& self.admitted <= self.slots@.len()
        &&& self.in_flight <= self.limit
        &&& self.in_flight == open_slots(self.slots@, self.admitted as int)
        &&& forall|k: int| self.admitted <= k < self.slots@.len() ==> (#[trigger] self.slots@[k]) is None
    }

    pub open spec fn finished(&self) -> bool {
        self.admitted() == self.total() && self.in_flight() == 0
    }

    /// A dispatcher for a work list of `total` transfers, at most
    /// `max_concurrent` of them at a time.
    pub fn new(total: usize, max_concurrent: usize) -> (r: Result<Dispatcher, DispatchError>)
        ensures
            max_concurrent == 0 <==> r is Err,
            r matches Err(e) ==> e == DispatchError::InvalidConcurrency,
            r matches Ok(d) ==> {
                &&& d.wf()
                &&& d.limit() == max_concurrent
                &&& d.total() == total
                &&& d.admitted() == 0
                &&& d.in_flight() == 0
                &&& forall|k: int| 0 <= k < total ==> (#[trigger] d.slots()[k]) is None
            },
    {
        if max_concurrent == 0 {
            return Err(DispatchError::InvalidConcurrency);
        }
        let mut slots: Vec<Option<TransferResult>> = Vec::new();
        let mut i: usize = 0;
        while i < total
            invariant
                i <= total,
                slots@.len() == i,
                forall|k: int| 0 <= k < i ==> (#[trigger] slots@[k]) is None,
            decreases total - i,
        {
            slots.push(None);
            i = i + 1;
        }
        Ok(Dispatcher { limit: max_concurrent, admitted: 0, in_flight: 0, slots })
    }

    /// Hands out the next transfer of the work list, if a permit is free and
    /// one is left; the caller then owns that permit until `complete`.
    pub fn try_admit(&mut self) -> (r: Option<usize>)
        requires
            old(self).wf(),
        ensures
            final(self).wf(),
            final(self).limit() == old(self).limit(),
            final(self).total() == old(self).total(),
            final(self).slots() == old(self).slots(),
            r is Some <==> old(self).in_flight() < old(self).limit() && old(self).admitted()
                < old(self).total(),
            r matches Some(idx) ==> {
                &&& idx == old(self).admitted()
                &&& final(self).admitted() == old(self).admitted() + 1
                &&& final(self).in_flight() == old(self).in_flight() + 1
            },
            r is None ==> final(self).admitted() == old(self).admitted() && final(self).in_flight()
                == old(self).in_flight(),
    {
        if self.in_flight < self.limit && self.admitted < self.slots.len() {
            let idx = self.admitted;
            proof {
                assert(self.slots@[idx as int] is None);
                assert(open_slots(self.slots@, idx + 1) == open_slots(self.slots@, idx as int) + 1);
            }
            self.admitted = self.admitted + 1;
            self.in_flight = self.in_flight + 1;
            Some(idx)
        } else {
            None
        }
    }

    /// Files the outcome of a handed-out transfer and returns its permit.
    pub fn complete(&mut self, index: usize, outcome: TransferResult)
        requires
            old(self).wf(),
            index < old(self).admitted(),
            old(self).slots()[index as int] is None,
        ensures
            final(self).wf(),
            final(self).limit() == old(self).limit(),
            final(self).total() == old(self).total(),
            final(self).admitted() == old(self).admitted(),
            final(self).in_flight() + 1 == old(self).in_flight(),
            final(self).slots() == old(self).slots().update(index as int, Some(outcome)),
    {
        proof {
            lemma_open_slots_fill(self.slots@, self.admitted as int, index as int, Some(outcome));
            lemma_open_slots_bound(self.slots@, self.admitted as int, index as int);
        }
        let ghost before = self.slots@;
        self.slots.set(index, Some(outcome));
        self.in_flight = self.in_flight - 1;
        proof {
            assert forall|k: int| self.admitted <= k < self.slots@.len() implies (
            #[trigger] self.slots@[k]) is None by {
                assert(self.slots@[k] == before[k]);
            }
        }
    }

    /// How many permits are held right now.
    pub fn permits_in_use(&self) -> (r: usize)
        requires
            self.wf(),
        ensures
            r == self.in_flight(),
            r <= self.limit(),
    {
        self.in_flight
    }

    /// Whether every transfer has been handed out and has filed its outcome.
    pub fn is_finished(&self) -> (r: bool)
        requires
            self.wf(),
        ensures
            r == self.finished(),
    {
        self.admitted == self.slots.len() && self.in_flight == 0
    }

    /// The outcomes, in work-list order.
    pub fn into_results(self) -> (r: Vec<TransferResult>)
        requires
            self.wf(),
            self.finished(),
        ensures
            r@.len() == self.total(),
            forall|k: int| 0 <= k < r@.len() ==> self.slots()[k] == Some(#[trigger] r@[k]),
    {
        let ghost orig = self.slots@;
        proof {
            lemma_no_open_slots(orig, orig.len() as int);
        }
        let mut slots = self.slots;
        let mut out: Vec<TransferResult> = Vec::new();
        let n = slots.len();
        let mut i: usize = 0;
        while i < n
            invariant
                n == orig.len(),
                i <= n,
                slots@ == orig.skip(i as int),
                out@.len() == i,
                forall|k: int| 0 <= k < orig.len() ==> (#[trigger] orig[k]) is Some,
                forall|k: int| 0 <= k < i ==> orig[k] == Some(#[trigger] out@[k]),
            decreases n - i,
        {
            assert(slots@[0] == orig[i as int]);
            let slot = slots.remove(0);
            assert(slots@ =~= orig.skip(i + 1));
            match slot {
                Some(x) => {
                    out.push(x);
                },
                None => {
                    assert(false);
                },
            }
            i = i + 1;
        }
        out
    }
}

/// At no point do more transfers hold a permit than the limit allows.
pub proof fn permits_within_limit(d: Dispatcher)
    requires
        d.wf(),
    ensures
        d.in_flight() <= d.limit(),
{
}

/// Once a dispatcher has finished, every transfer of the work list has filed
/// exactly one outcome: no index is left without one.
pub proof fn finished_has_every_outcome(d: Dispatcher)
    requires
        d.wf(),
        d.finished(),
    ensures
        d.slots().len() == d.total(),
        forall|k: int| 0 <= k < d.total() ==> (#[trigger] d.slots()[k]) is Some,
{
    lemma_no_open_slots(d.slots(), d.total() as int);
}

proof fn lemma_open_slots_fill(
    s: Seq<Option<TransferResult>>,
    n: int,
    idx: int,
    x: Option<TransferResult>,
)
    requires
        0 <= idx < n <= s.len(),
        s[idx] is None,
        x is Some,
    ensures
        open_slots(s.update(idx, x), n) + 1 == open_slots(s, n),
    decreases n,
{
    if n - 1 > idx {
        lemma_open_slots_fill(s, n - 1, idx, x);
    } else {
        lemma_open_slots_same(s, s.update(idx, x), n - 1);
    }
}

proof fn lemma_open_slots_same(s: Seq<Option<TransferResult>>, t: Seq<Option<TransferResult>>, n: int)
    requires
        0 <= n <= s.len(),
        n <= t.len(),
        forall|k: int| 0 <= k < n ==> s[k] == t[k],
    ensures
        open_slots(s, n) == open_slots(t, n),
    decreases n,
{
    if n > 0 {
        lemma_open_slots_same(s, t, n - 1);
    }
}

proof fn lemma_open_slots_bound(s: Seq<Option<TransferResult>>, n: int, idx: int)
    requires
        0 <= idx < n <= s.len(),
        s[idx] is None,
    ensures
        open_slots(s, n) >= 1,
    decreases n,
{
    if n - 1 > idx {
        lemma_open_slots_bound(s, n - 1, idx);
    }
}

proof fn lemma_no_open_slots(s: Seq<Option<TransferResult>>, n: int)
    requires
        0 <= n <= s.len(),
        open_slots(s, n) == 0,
    ensures
        forall|k: int| 0 <= k < n ==> (#[trigger] s[k]) is Some,
    decreases n,
{
    if n > 0 {
        lemma_no_open_slots(s, n - 1);
    }
}

} // verus!
