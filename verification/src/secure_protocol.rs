//! Authentication of checkpoints.

use crate::crypto::{constant_time_equal, hmac_sha256, hmac_sha256_tag};
use vstd::prelude::*;

verus! {

/// The tag of a checkpoint payload under the key of its transfer. That the tag is the HMAC-SHA-256
/// of the payload alone is this library's own choice.
pub fn checkpoint_mac(checkpoint_key: &[u8; 32], payload: &[u8]) -> (tag: [u8; 32])
    ensures
        tag == hmac_sha256_tag(checkpoint_key@, payload@),
{
    hmac_sha256(checkpoint_key, payload)
}

/// Checks the tag of a checkpoint payload.
pub fn verify_checkpoint_mac(checkpoint_key: &[u8; 32], payload: &[u8], tag: &[u8; 32]) -> (result:
    Result<(), String>)
    ensures
        match result {
            Ok(()) => *tag == hmac_sha256_tag(checkpoint_key@, payload@),
            Err(error) => error@ == "checkpoint-authentication-failed"@ && *tag != hmac_sha256_tag(
                checkpoint_key@,
                payload@,
            ),
        },
{
    let expected: [u8; 32] = hmac_sha256(checkpoint_key, payload);
    if constant_time_equal(tag, &expected) {
        assert(*tag =~= expected);
        Ok(())
    } else {
        Err("checkpoint-authentication-failed".to_owned())
    }
}

} // verus!
