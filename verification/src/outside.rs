//! What the library takes from the `mctp` crate.
use vstd::prelude::*;

verus! {

/// `mctp::Eid`, an MCTP endpoint identifier. The library only passes it on.
#[verifier::external_type_specification]
#[verifier::external_body]
pub struct ExEid(mctp::Eid);

/// `mctp::Tag`, an MCTP message tag and who owns it. The library only passes it on.
#[verifier::external_type_specification]
#[verifier::external_body]
pub struct ExTag(mctp::Tag);

/// `mctp::Error`, a failure of the MCTP stack. The library only passes it on.
#[verifier::external_type_specification]
#[verifier::external_body]
pub struct ExError(mctp::Error);

/// The number inside the constant `mctp::MCTP_TYPE_SPDM`. The crate defines that
/// constant as message type 5, and the contract says no more than that.
#[verifier::external_body]
pub(crate) fn spdm_message_type() -> (typ: u8)
    ensures
        typ == 5,
{
    mctp::MCTP_TYPE_SPDM.0
}

} // verus!
