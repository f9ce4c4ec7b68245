//! The responder's certificate chain.
use vstd::prelude::*;

verus! {

/// The total length of a certificate chain: the root, an intermediate that the root
/// signed, and the certificate of the responder that the intermediate signed.
pub fn cert_chain_len(ca_cert: &[u8], inter_cert: &[u8], end_responder_cert: &[u8]) -> (len: usize)
    requires
        ca_cert@.len() + inter_cert@.len() + end_responder_cert@.len() <= usize::MAX,
    ensures
        len == ca_cert@.len() + inter_cert@.len() + end_responder_cert@.len(),
{
    ca_cert.len() + inter_cert.len() + end_responder_cert.len()
}

} // verus!
