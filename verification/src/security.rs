//! The seam where an authenticated request/response exchange with a
//! component would plug in. The exchange itself is deliberately not
//! implemented: every operation fails clearly with a communication failure,
//! so that "not yet wired up" can never be mistaken for "succeeded with
//! empty data".

use vstd::prelude::*;
use crate::error::ErrorKind;

verus! {

/// A capability for the authenticated channel to one component.
pub struct SecureChannel {
    /// The bus address of the peer component.
    pub address: u8,
}

impl SecureChannel {
    /// A channel capability for the component at the given bus address.
    pub fn new(address: u8) -> (r: SecureChannel)
        ensures
            r.address == address,
    {
        SecureChannel { address }
    }

    /// Securely send data to the peer. Not implemented: always a
    /// communication failure, never a silent no-op success.
    pub fn secure_send(&mut self, data: &Vec<u8>) -> (r: Result<(), ErrorKind>)
        ensures
            *final(self) == *old(self),
            r == Err::<(), ErrorKind>(ErrorKind::CommunicationFailure),
    {
        let _ = data;
        Err(ErrorKind::CommunicationFailure)
    }

    /// Securely receive data from the peer. Not implemented: always a
    /// communication failure, never empty data passed off as a success.
    pub fn secure_receive(&mut self) -> (r: Result<Vec<u8>, ErrorKind>)
        ensures
            *final(self) == *old(self),
            match r {
                Ok(_) => false,
                Err(e) => e == ErrorKind::CommunicationFailure,
            },
    {
        Err(ErrorKind::CommunicationFailure)
    }
}

} // verus!
