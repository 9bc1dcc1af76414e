//! Ledger addresses: base58 text naming a 32-byte public key.
use vstd::prelude::*;
use vstd::string::*;

verus! {

/// Why a text is not a ledger address.
#[derive(Debug, Clone, Copy, PartialEq, Eq, Structural)]
pub enum AddressError {
    /// The text does not decode to exactly 32 bytes.
    WrongSize,
    /// The text holds a character outside the base58 alphabet.
    Invalid,
}

/// What decoding the address text `s` gives: the key's 32 bytes, or why not.
pub uninterp spec fn decoded_address(s: Seq<char>) -> Result<Seq<u8>, AddressError>;

/// Relies on `solana_sdk::pubkey::Pubkey::from_str` (base58 decoding into 32
/// bytes, with its two error kinds) and `Pubkey::to_bytes`.
#[verifier::external_body]
pub(crate) fn decode_address(s: &str) -> (r: Result<Vec<u8>, AddressError>)
    ensures
        r is Ok ==> r->Ok_0@.len() == 32,
        r is Ok ==> decoded_address(s@) == Ok::<Seq<u8>, AddressError>(r->Ok_0@),
        r is Err ==> decoded_address(s@) == Err::<Seq<u8>, AddressError>(r->Err_0),
{
    match <solana_sdk::pubkey::Pubkey as core::str::FromStr>::from_str(s) {
        Ok(k) => Ok(k.to_bytes().to_vec()),
        Err(solana_sdk::pubkey::ParsePubkeyError::WrongSize) => Err(AddressError::WrongSize),
        Err(solana_sdk::pubkey::ParsePubkeyError::Invalid) => Err(AddressError::Invalid),
    }
}

pub open spec fn address_error_text(e: AddressError) -> Seq<char> {
    match e {
        AddressError::WrongSize => "String is the wrong size"@,
        AddressError::Invalid => "Invalid Base58 string"@,
    }
}

impl AddressError {
    /// The operator-facing description of the error.
    pub fn message(&self) -> (r: String)
        ensures
            r@ == address_error_text(*self),
    {
        match self {
            AddressError::WrongSize => String::from_str("String is the wrong size"),
            AddressError::Invalid => String::from_str("Invalid Base58 string"),
        }
    }
}

pub open spec fn is_address(s: Seq<char>) -> bool {
    decoded_address(s) is Ok
}

/// Why a wallet list was refused.
#[derive(Debug, Clone, Copy, PartialEq, Eq, Structural)]
pub enum WalletListError {
    /// The list is empty.
    Empty,
    /// The wallet at `index` is not an address.
    BadAddress { index: usize, error: AddressError },
}

/// Checks a list of wallet addresses up front: it must be non-empty and every
/// entry must be an address. The first bad entry is reported.
pub fn validate_wallets(wallets: &Vec<String>) -> (r: Result<(), WalletListError>)
    ensures
        wallets@.len() == 0 ==> r == Err::<(), WalletListError>(WalletListError::Empty),
        r is Ok <==> wallets@.len() > 0 && forall|i: int|
            0 <= i < wallets@.len() ==> is_address(#[trigger] wallets@[i]@),
        r matches Err(WalletListError::BadAddress { index, error }) ==> {
            &&& index < wallets@.len()
            &&& decoded_address(wallets@[index as int]@) == Err::<Seq<u8>, AddressError>(error)
            &&& forall|i: int| 0 <= i < index ==> is_address(#[trigger] wallets@[i]@)
        },
{
    if wallets.len() == 0 {
        return Err(WalletListError::Empty);
    }
    let mut i: usize = 0;
    while i < wallets.len()
        invariant
            i <= wallets@.len(),
            forall|k: int| 0 <= k < i ==> is_address(#[trigger] wallets@[k]@),
        decreases wallets@.len() - i,
    {
        match decode_address(wallets[i].as_str()) {
            Ok(_) => {},
            Err(e) => {
                return Err(WalletListError::BadAddress { index: i, error: e });
            },
        }
        i = i + 1;
    }
    Ok(())
}

} // verus!
