//! Expansion of a transfer plan into one transfer per (source, destination) pair.
use vstd::prelude::*;
use crate::amount::{AmountError, sol_to_lamports, sol_to_lamports_spec};
use vstd::arithmetic::div_mod::lemma_fundamental_div_mod_converse;

verus! {

/// A funding wallet of a plan: where its key is kept, and an optional amount
/// (decimal SOL) that replaces the plan's default for this wallet.
pub struct SourceWallet {
    pub from_keypair_path: String,
    pub amount: Option<String>,
}

/// A transfer plan: every source pays every destination.
pub struct Config {
    pub rpc_url: String,
    /// Default amount per transfer, in decimal SOL.
    pub amount: String,
    pub source_wallets: Vec<SourceWallet>,
    pub destination_wallets: Vec<String>,
}

/// One transfer of the expanded plan.
pub struct TransferSpec {
    pub from_keypair_path: String,
    pub to_address: String,
    pub amount_lamports: u64,
}

/// Why a plan could not be expanded.
#[derive(Debug, Clone, Copy, PartialEq, Eq, Structural)]
pub enum PlanError {
    NoSources,
    NoDestinations,
    /// The plan's default amount is not a usable decimal amount.
    BadDefaultAmount(AmountError),
    /// The override of the source at `source_index` is not a usable amount.
    BadSourceAmount { source_index: usize, error: AmountError },
}

/// The lamports that source `i` sends to each destination.
pub open spec fn source_lamports(c: Config, i: int) -> Result<u64, AmountError> {
    match c.source_wallets@[i].amount {
        Some(a) => sol_to_lamports_spec(a@),
        None => sol_to_lamports_spec(c.amount@),
    }
}

pub open spec fn all_amounts_ok(c: Config, n: int) -> bool {
    forall|i: int| 0 <= i < n ==> (#[trigger] source_lamports(c, i)) is Ok
}

/// `t` is the transfer from source `i` to destination `j` of plan `c`.
pub open spec fn is_pair(c: Config, t: TransferSpec, i: int, j: int) -> bool {
    &&& t.from_keypair_path@ == c.source_wallets@[i].from_keypair_path@
    &&& t.to_address@ == c.destination_wallets@[j]@
    &&& source_lamports(c, i) == Ok::<u64, AmountError>(t.amount_lamports)
}

/// `v` lists the pairs of `c` source-major: entry `k` pairs source `k / D`
/// with destination `k % D`, where `D` is the number of destinations.
pub open spec fn is_expansion(c: Config, v: Seq<TransferSpec>) -> bool {
    let d = c.destination_wallets@.len() as int;
    &&& v.len() == c.source_wallets@.len() * d
    &&& forall|k: int| 0 <= k < v.len() ==> is_pair(c, #[trigger] v[k], k / d, k % d)
}

pub open spec fn plan_succeeds(c: Config) -> bool {
    &&& c.source_wallets@.len() > 0
    &&& c.destination_wallets@.len() > 0
    &&& sol_to_lamports_spec(c.amount@) is Ok
    &&& all_amounts_ok(c, c.source_wallets@.len() as int)
}

/// Expands a plan into its transfers, sources outermost.
pub fn expand_plan(c: &Config) -> (r: Result<Vec<TransferSpec>, PlanError>)
    ensures
        r is Ok <==> plan_succeeds(*c),
        r matches Ok(v) ==> is_expansion(*c, v@),
        c.source_wallets@.len() == 0 ==> r == Err::<Vec<TransferSpec>, PlanError>(
            PlanError::NoSources,
        ),
        c.source_wallets@.len() > 0 && c.destination_wallets@.len() == 0 ==> r == Err::<
            Vec<TransferSpec>,
            PlanError,
        >(PlanError::NoDestinations),
        c.source_wallets@.len() > 0 && c.destination_wallets@.len() > 0 ==> (
        sol_to_lamports_spec(c.amount@) matches Err(e) ==> r == Err::<Vec<TransferSpec>, PlanError>(
            PlanError::BadDefaultAmount(e),
        )),
        r matches Err(PlanError::BadSourceAmount { source_index, error }) ==> {
            &&& source_index < c.source_wallets@.len()
            &&& all_amounts_ok(*c, source_index as int)
            &&& source_lamports(*c, source_index as int) == Err::<u64, AmountError>(error)
        },
{
    let ns = c.source_wallets.len();
    let nd = c.destination_wallets.len();
    if ns == 0 {
        return Err(PlanError::NoSources);
    }
    if nd == 0 {
        return Err(PlanError::NoDestinations);
    }
    let default = match sol_to_lamports(c.amount.as_str()) {
        Ok(a) => a,
        Err(e) => {
            return Err(PlanError::BadDefaultAmount(e));
        },
    };
    let ghost d = nd as int;
    let mut v: Vec<TransferSpec> = Vec::new();
    let mut i: usize = 0;
    while i < ns
        invariant
            ns == c.source_wallets@.len(),
            nd == c.destination_wallets@.len(),
            d == nd as int,
            nd > 0,
            i <= ns,
            sol_to_lamports_spec(c.amount@) == Ok::<u64, AmountError>(default),
            all_amounts_ok(*c, i as int),
            v@.len() == i * d,
            forall|k: int| 0 <= k < v@.len() ==> is_pair(*c, #[trigger] v@[k], k / d, k % d),
        decreases ns - i,
    {
        let src = &c.source_wallets[i];
        let lamports = match &src.amount {
            Some(a) => match sol_to_lamports(a.as_str()) {
                Ok(x) => x,
                Err(e) => {
                    return Err(PlanError::BadSourceAmount { source_index: i, error: e });
                },
            },
            None => default,
        };
        assert(source_lamports(*c, i as int) == Ok::<u64, AmountError>(lamports));
        let mut j: usize = 0;
        while j < nd
            invariant
                ns == c.source_wallets@.len(),
                nd == c.destination_wallets@.len(),
                d == nd as int,
                nd > 0,
                i < ns,
                j <= nd,
                src == c.source_wallets@[i as int],
                source_lamports(*c, i as int) == Ok::<u64, AmountError>(lamports),
                v@.len() == i * d + j,
                forall|k: int| 0 <= k < v@.len() ==> is_pair(*c, #[trigger] v@[k], k / d, k % d),
            decreases nd - j,
        {
            let t = TransferSpec {
                from_keypair_path: src.from_keypair_path.clone(),
                to_address: c.destination_wallets[j].clone(),
                amount_lamports: lamports,
            };
            proof {
                lemma_fundamental_div_mod_converse(i * d + j, d, i as int, j as int);
            }
            v.push(t);
            j = j + 1;
        }
        proof {
            assert((i + 1) * d == i * d + d) by (nonlinear_arith);
        }
        i = i + 1;
    }
    Ok(v)
}

/// Source-major order: for every source `i` and destination `j`, entry
/// `i * D + j` of an expansion is the transfer from `i` to `j`.
pub proof fn plan_order_source_major(c: Config, v: Seq<TransferSpec>, i: int, j: int)
    requires
        is_expansion(c, v),
        0 <= i < c.source_wallets@.len(),
        0 <= j < c.destination_wallets@.len(),
    ensures
        0 <= i * c.destination_wallets@.len() + j < v.len(),
        is_pair(c, v[i * c.destination_wallets@.len() + j], i, j),
{
    let d = c.destination_wallets@.len() as int;
    let s = c.source_wallets@.len() as int;
    assert(i * d + j < s * d) by (nonlinear_arith)
        requires 0 <= i < s, 0 <= j < d;
    assert(0 <= i * d) by (nonlinear_arith)
        requires 0 <= i, 0 <= d;
    lemma_fundamental_div_mod_converse(i * d + j, d, i, j);
}

} // verus!
