//! The per-transfer pipeline's decisions: which outcome a transfer ends with
//! when one of its steps fails before confirmation.
use vstd::prelude::*;
use vstd::string::*;
use crate::address::{AddressError, address_error_text, decode_address, decoded_address};
use crate::dispatch::{TransferResult, TransferStatus};
use crate::plan::TransferSpec;

verus! {

/// `o` is the outcome of a transfer that stopped before it was submitted:
/// no signature, no time spent, and a failure with reason `reason`.
pub open spec fn is_early_failure(
    o: TransferResult,
    from: Seq<char>,
    t: TransferSpec,
    reason: Seq<char>,
) -> bool {
    &&& o.from@ == from
    &&& o.to@ == t.to_address@
    &&& o.amount_lamports == t.amount_lamports
    &&& o.signature is None
    &&& o.duration_ms == 0
    &&& o.status matches TransferStatus::Failed(m) && m@ == reason
}

/// The outcome of a transfer whose signing key could not be loaded; `detail`
/// is the loader's error.
pub fn key_load_failure(t: &TransferSpec, detail: &str) -> (r: TransferResult)
    ensures
        is_early_failure(r, t.from_keypair_path@, *t, "Keypair loading error: "@ + detail@),
{
    TransferResult {
        from: t.from_keypair_path.clone(),
        to: t.to_address.clone(),
        amount_lamports: t.amount_lamports,
        signature: None,
        duration_ms: 0,
        status: TransferStatus::Failed(String::from_str("Keypair loading error: ").concat(detail)),
    }
}

/// Decodes the destination of a transfer paid from `from_address`: its key
/// bytes, or the outcome of a transfer with a bad destination.
pub fn resolve_destination(t: &TransferSpec, from_address: &str) -> (r: Result<
    Vec<u8>,
    TransferResult,
>)
    ensures
        decoded_address(t.to_address@) is Ok <==> r is Ok,
        r matches Ok(b) ==> decoded_address(t.to_address@) == Ok::<Seq<u8>, AddressError>(b@),
        decoded_address(t.to_address@) matches Err(e) ==> r matches Err(o) && is_early_failure(
            o,
            from_address@,
            *t,
            "Invalid destination address: "@ + address_error_text(e),
        ),
{
    match decode_address(t.to_address.as_str()) {
        Ok(b) => Ok(b),
        Err(e) => {
            let m = e.message();
            Err(
                TransferResult {
                    from: String::from_str(from_address),
                    to: t.to_address.clone(),
                    amount_lamports: t.amount_lamports,
                    signature: None,
                    duration_ms: 0,
                    status: TransferStatus::Failed(
                        String::from_str("Invalid destination address: ").concat(m.as_str()),
                    ),
                },
            )
        },
    }
}

/// The outcome of a transfer whose submission failed after `duration_ms`;
/// `detail` is the submitter's error.
pub fn send_failure(from_address: &str, t: &TransferSpec, duration_ms: u64, detail: &str) -> (r:
    TransferResult)
    ensures
        r.from@ == from_address@,
        r.to@ == t.to_address@,
        r.amount_lamports == t.amount_lamports,
        r.signature is None,
        r.duration_ms == duration_ms,
        r.status matches TransferStatus::Failed(m) && m@ == "Send error: "@ + detail@,
{
    TransferResult {
        from: String::from_str(from_address),
        to: t.to_address.clone(),
        amount_lamports: t.amount_lamports,
        signature: None,
        duration_ms,
        status: TransferStatus::Failed(String::from_str("Send error: ").concat(detail)),
    }
}

} // verus!
