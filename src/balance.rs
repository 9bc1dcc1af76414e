//! The balance checker: validates a wallet list and splits it into batches
//! that are fetched one after another.
use vstd::prelude::*;
use vstd::string::*;
use crate::address::{
    AddressError, WalletListError, decoded_address, is_address, validate_wallets,
};
use vstd::arithmetic::div_mod::lemma_fundamental_div_mod_converse;

verus! {

/// Settings of the balance checker.
pub struct Config {
    pub wallets: Vec<String>,
    pub batch_size: usize,
    pub rpc_url: String,
}

/// Batch size used when the settings give none.
pub fn default_batch_size() -> (r: usize)
    ensures
        r == 25,
{
    25
}

/// Ledger endpoint used when the settings give none.
pub fn default_rpc_url() -> (r: String)
    ensures
        r@ == "https://api.mainnet-beta.solana.com"@,
{
    String::from_str("https://api.mainnet-beta.solana.com")
}

impl Config {
    /// Checks the settings before any query: the wallet list is non-empty and
    /// holds addresses only.
    pub fn validate(&self) -> (r: Result<(), WalletListError>)
        ensures
            self.wallets@.len() == 0 ==> r == Err::<(), WalletListError>(WalletListError::Empty),
            r is Ok <==> self.wallets@.len() > 0 && forall|i: int|
                0 <= i < self.wallets@.len() ==> is_address(#[trigger] self.wallets@[i]@),
            r matches Err(WalletListError::BadAddress { index, error }) ==> {
                &&& index < self.wallets@.len()
                &&& decoded_address(self.wallets@[index as int]@) == Err::<Seq<u8>, AddressError>(
                    error,
                )
                &&& forall|i: int| 0 <= i < index ==> is_address(#[trigger] self.wallets@[i]@)
            },
    {
        validate_wallets(&self.wallets)
    }
}

/// Number of batches of size `b` that cover `n` items.
pub open spec fn batch_count(n: int, b: int) -> int {
    (n + b - 1) / b
}

pub open spec fn batch_end(k: int, b: int, n: int) -> int {
    if k * b + b < n {
        k * b + b
    } else {
        n
    }
}

/// The half-open index ranges of the batches: each holds `batch_size` items
/// but the last, which holds the rest.
pub fn batch_bounds(n: usize, batch_size: usize) -> (r: Vec<(usize, usize)>)
    requires
        batch_size > 0,
    ensures
        r@.len() == batch_count(n as int, batch_size as int),
        forall|k: int|
            0 <= k < r@.len() ==> (#[trigger] r@[k]).0 == k * batch_size && r@[k].1 == batch_end(
                k,
                batch_size as int,
                n as int,
            ),
{
    let b = batch_size;
    let mut v: Vec<(usize, usize)> = Vec::new();
    let mut start: usize = 0;
    assert(v@.len() * b == 0);
    while start < n
        invariant
            b > 0,
            start <= n,
            start < n ==> start == v@.len() * b,
            v@.len() > 0 ==> (v@.len() - 1) * b < n,
            v@.len() == 0 ==> start == 0,
            v@.len() * b >= start,
            forall|k: int|
                0 <= k < v@.len() ==> (#[trigger] v@[k]).0 == k * b && v@[k].1 == batch_end(
                    k,
                    b as int,
                    n as int,
                ),
        decreases n - start,
    {
        let end: usize = if n - start > b {
            start + b
        } else {
            n
        };
        let ghost k = v@.len() as int;
        proof {
            assert((k + 1) * b == k * b + b) by (nonlinear_arith);
        }
        v.push((start, end));
        start = end;
    }
    proof {
        let len = v@.len() as int;
        if len == 0 {
            assert(n == 0);
            lemma_fundamental_div_mod_converse(n + b - 1, b as int, 0, b - 1);
        } else {
            assert((len - 1) * b == len * b - b) by (nonlinear_arith);
            lemma_fundamental_div_mod_converse(
                n + b - 1,
                b as int,
                len,
                n + b - 1 - len * b,
            );
        }
    }
    v
}

} // verus!
