//! What the requester and the responder say they can do.
use vstd::prelude::*;

verus! {

/// The SPDM capability flags that are set; all others are zero.
#[derive(Clone, Copy, Debug, PartialEq, Eq, Structural)]
pub struct CapabilityFlags {
    /// Certificates.
    pub cert_cap: u8,
    /// Challenges.
    pub chal_cap: u8,
    /// Measurements; 2 stands for measurements with a signature.
    pub meas_cap: u8,
    /// Fresh measurements.
    pub meas_fresh_cap: u8,
    /// Messages in chunks.
    pub chunk_cap: u8,
}

/// The SPDM capabilities of a device.
#[derive(Clone, Copy, Debug, PartialEq, Eq, Structural)]
pub struct DeviceCapabilities {
    pub ct_exponent: u8,
    pub flags: CapabilityFlags,
    pub data_transfer_size: u32,
    pub max_spdm_msg_size: u32,
    pub include_supported_algorithms: bool,
}

/// The capabilities of both roles.
pub fn create_spdm_caps() -> (caps: DeviceCapabilities)
    ensures
        caps == (DeviceCapabilities {
            ct_exponent: 0,
            flags: CapabilityFlags {
                cert_cap: 1,
                chal_cap: 1,
                meas_cap: 2,
                meas_fresh_cap: 1,
                chunk_cap: 1,
            },
            data_transfer_size: 1024,
            max_spdm_msg_size: 4096,
            include_supported_algorithms: true,
        }),
{
    DeviceCapabilities {
        ct_exponent: 0,
        flags: CapabilityFlags {
            cert_cap: 1,
            chal_cap: 1,
            meas_cap: 2,
            meas_fresh_cap: 1,
            chunk_cap: 1,
        },
        data_transfer_size: 1024,
        max_spdm_msg_size: 4096,
        include_supported_algorithms: true,
    }
}

} // verus!
