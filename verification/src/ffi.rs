//! What other languages ask of the library.

use crate::bitmap::{bit_set, bitmap_fits, has_bitmap_size, is_set};
use crate::device_protocol::{DEVICE_PROTOCOL_VERSION, LAN_SERVICE_TYPE};
use crate::protocol::NATIVE_QUIC_PROTOCOL_VERSION;
use vstd::prelude::*;

verus! {

pub const CORE_API_VERSION: u16 = 1;

#[derive(Debug, Clone, PartialEq, Eq)]
pub struct CoreContract {
    pub core_api_version: u16,
    pub native_quic_protocol_version: u16,
    pub device_protocol_version: u16,
    pub lan_service_type: String,
}

/// The versions that this library speaks.
pub fn flowshare_core_contract() -> (contract: CoreContract)
    ensures
        contract.core_api_version == CORE_API_VERSION,
        contract.native_quic_protocol_version == NATIVE_QUIC_PROTOCOL_VERSION,
        contract.device_protocol_version == DEVICE_PROTOCOL_VERSION,
        contract.lan_service_type@ == LAN_SERVICE_TYPE@,
{
    CoreContract {
        core_api_version: CORE_API_VERSION,
        native_quic_protocol_version: NATIVE_QUIC_PROTOCOL_VERSION,
        device_protocol_version: DEVICE_PROTOCOL_VERSION,
        lan_service_type: LAN_SERVICE_TYPE.to_owned(),
    }
}

/// Whether a bitmap is one of `total_blocks` blocks in which `block` is complete.
pub fn validate_completed_bitmap(bitmap: Vec<u8>, total_blocks: u64, block: u64) -> (complete: bool)
    ensures
        complete == (bitmap_fits(bitmap@, total_blocks as int) && block < total_blocks && bit_set(
            bitmap@,
            block as int,
        )),
{
    if !has_bitmap_size(bitmap.as_slice(), total_blocks) || block >= total_blocks {
        return false;
    }
    is_set(bitmap.as_slice(), block)
}

} // verus!
