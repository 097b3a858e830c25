//! The two ends of a transfer, and why no direct path between them was found.

use vstd::prelude::*;

verus! {

#[derive(Debug, Clone, Copy, PartialEq, Eq, Structural)]
pub enum NativeDeviceRole {
    Sender,
    Receiver,
}

impl NativeDeviceRole {
    /// The number of the role on the wire.
    pub open spec fn number(self) -> u8 {
        match self {
            NativeDeviceRole::Sender => 1,
            NativeDeviceRole::Receiver => 2,
        }
    }

    /// The role of the other end.
    pub open spec fn other(self) -> Self {
        match self {
            NativeDeviceRole::Sender => NativeDeviceRole::Receiver,
            NativeDeviceRole::Receiver => NativeDeviceRole::Sender,
        }
    }

    pub fn code(self) -> (code: u8)
        ensures
            code == self.number(),
    {
        match self {
            NativeDeviceRole::Sender => 1,
            NativeDeviceRole::Receiver => 2,
        }
    }

    pub fn decode_code(value: u8) -> (role: Option<Self>)
        ensures
            match role {
                Some(known) => known.number() == value,
                None => value != 1 && value != 2,
            },
    {
        match value {
            1 => Some(NativeDeviceRole::Sender),
            2 => Some(NativeDeviceRole::Receiver),
            _ => None,
        }
    }

    pub fn opposite(self) -> (role: Self)
        ensures
            role == self.other(),
    {
        match self {
            NativeDeviceRole::Sender => NativeDeviceRole::Receiver,
            NativeDeviceRole::Receiver => NativeDeviceRole::Sender,
        }
    }
}

#[derive(Debug, Clone, Copy, PartialEq, Eq, Structural)]
pub enum NativeConnectivityFailure {
    UdpBlocked,
    SymmetricNatLikely,
    NoViablePair,
    CandidateAuthenticationFailed,
    DirectConnectTimeout,
    Cancelled,
}

} // verus!
