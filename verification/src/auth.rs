//! The authentication gate: one sensitive operation, one provisioned secret,
//! one comparison. On a mismatch the caller must abort the operation with a
//! single error line and no side effects.

use vstd::prelude::*;
use crate::error::ErrorKind;
use crate::host_msg::bytes_eq;

verus! {

/// Compares a presented credential byte for byte against the provisioned
/// one. Succeeds exactly on equality. The comparison is plain, not
/// constant-time: a known, deliberate weakness, kept visible here rather
/// than silently hardened.
pub fn check_credential(presented: &Vec<u8>, expected: &Vec<u8>) -> (r: Result<(), ErrorKind>)
    ensures
        match r {
            Ok(()) => presented@ == expected@,
            Err(e) => e == ErrorKind::AuthMismatch && presented@ != expected@,
        },
{
    if bytes_eq(presented, expected) {
        Ok(())
    } else {
        Err(ErrorKind::AuthMismatch)
    }
}

} // verus!
