//! The block watcher: on each new block it sends one fixed transfer.
use vstd::prelude::*;
use crate::address::{AddressError, decode_address, decoded_address};

verus! {

/// Settings of the block watcher.
pub struct Config {
    pub geyser_endpoint: String,
    pub geyser_token: String,
    pub keypair_path: String,
    pub destination_wallet: String,
    /// Amount sent per block, in decimal SOL.
    pub sol_amount: String,
    pub solana_rpc_url: String,
}

impl Config {
    /// The destination wallet's key bytes.
    pub fn destination_pubkey(&self) -> (r: Result<Vec<u8>, AddressError>)
        ensures
            r is Ok <==> decoded_address(self.destination_wallet@) is Ok,
            r matches Ok(b) ==> decoded_address(self.destination_wallet@) == Ok::<
                Seq<u8>,
                AddressError,
            >(b@),
            r matches Err(e) ==> decoded_address(self.destination_wallet@) == Err::<
                Seq<u8>,
                AddressError,
            >(e),
    {
        decode_address(self.destination_wallet.as_str())
    }
}

/// Where the block stream comes from.
pub struct GeyserSubscriber {
    pub endpoint: String,
    pub token: String,
}

impl GeyserSubscriber {
    pub fn new(endpoint: String, token: String) -> (r: GeyserSubscriber)
        ensures
            r.endpoint == endpoint,
            r.token == token,
    {
        GeyserSubscriber { endpoint, token }
    }
}

/// One message of the block stream, as far as the watcher reads it.
pub enum StreamUpdate {
    /// A new block at this slot.
    Block(u64),
    /// Any other kind of update.
    Other,
    /// The stream reported an error.
    Error,
}

/// The slot to pass on to the sender: block updates only.
pub fn forwarded_slot(u: &StreamUpdate) -> (r: Option<u64>)
    ensures
        r == (match *u {
            StreamUpdate::Block(slot) => Some(slot),
            _ => None::<u64>,
        }),
{
    match u {
        StreamUpdate::Block(slot) => Some(*slot),
        _ => None,
    }
}

/// A payer that cannot cover a transfer.
#[derive(Debug, Clone, Copy, PartialEq, Eq, Structural)]
pub struct InsufficientBalance {
    pub balance_lamports: u64,
    pub needed_lamports: u64,
}

/// Whether a payer holding `balance_lamports` may send `lamports`.
pub fn check_balance(balance_lamports: u64, lamports: u64) -> (r: Result<(), InsufficientBalance>)
    ensures
        r is Ok <==> balance_lamports >= lamports,
        r matches Err(e) ==> e.balance_lamports == balance_lamports && e.needed_lamports
            == lamports,
{
    if balance_lamports < lamports {
        Err(InsufficientBalance { balance_lamports, needed_lamports: lamports })
    } else {
        Ok(())
    }
}

} // verus!
