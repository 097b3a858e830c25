//! Network addresses as plain values.

use crate::bytes::bytes_equal;
use vstd::prelude::*;

verus! {

/// An internet address by its bytes.
#[derive(Debug, Clone, Copy, PartialEq, Eq)]
pub enum IpAddress {
    V4([u8; 4]),
    V6([u8; 16]),
}

/// An address and a port. The last two fields belong to version 6 alone and are zero elsewhere.
#[derive(Debug, Clone, Copy, PartialEq, Eq)]
pub struct SocketAddress {
    pub ip: IpAddress,
    pub port: u16,
    pub flow_info: u32,
    pub scope_id: u32,
}

impl IpAddress {
    /// The bytes of the address.
    pub open spec fn octets(self) -> Seq<u8> {
        match self {
            IpAddress::V4(octets) => octets@,
            IpAddress::V6(octets) => octets@,
        }
    }

    /// All bytes are zero.
    pub open spec fn unspecified(self) -> bool {
        forall|i: int| 0 <= i < self.octets().len() ==> self.octets()[i] == 0
    }

    /// `127.0.0.0/8` or `::1`.
    pub open spec fn loopback(self) -> bool {
        match self {
            IpAddress::V4(octets) => octets@[0] == 127,
            IpAddress::V6(octets) => octets@[15] == 1 && forall|i: int|
                0 <= i < 15 ==> octets@[i] == 0,
        }
    }

    /// `224.0.0.0/4` or `ff00::/8`.
    pub open spec fn multicast(self) -> bool {
        match self {
            IpAddress::V4(octets) => 224 <= octets@[0] <= 239,
            IpAddress::V6(octets) => octets@[0] == 255,
        }
    }

    /// `255.255.255.255`.
    pub open spec fn broadcast(self) -> bool {
        self matches IpAddress::V4(octets) && octets@ == seq![255u8, 255u8, 255u8, 255u8]
    }

    /// `fe80::/10`.
    pub open spec fn link_local_v6(self) -> bool {
        self matches IpAddress::V6(octets) && octets@[0] == 254 && 128 <= octets@[1] <= 191
    }

    /// Addresses that are not reachable from the public internet: the private, link-local,
    /// loopback and carrier-shared blocks of version 4, and the loopback, link-local and
    /// unique-local blocks of version 6.
    pub open spec fn private_or_local(self) -> bool {
        match self {
            IpAddress::V4(octets) => {
                ||| octets@[0] == 10
                ||| octets@[0] == 172 && 16 <= octets@[1] <= 31
                ||| octets@[0] == 192 && octets@[1] == 168
                ||| octets@[0] == 169 && octets@[1] == 254
                ||| octets@[0] == 127
                ||| octets@[0] == 100 && 64 <= octets@[1] <= 127
            },
            IpAddress::V6(octets) => {
                ||| self.loopback()
                ||| self.link_local_v6()
                ||| 252 <= octets@[0] <= 253
            },
        }
    }

    pub fn is_v4(&self) -> (v4: bool)
        ensures
            v4 == (*self is V4),
    {
        match self {
            IpAddress::V4(_) => true,
            IpAddress::V6(_) => false,
        }
    }

    pub fn is_unspecified(&self) -> (result: bool)
        ensures
            result == self.unspecified(),
    {
        match self {
            IpAddress::V4(octets) => {
                let zeros: [u8; 4] = [0u8; 4];
                let equal: bool = bytes_equal(octets, &zeros);
                proof {
                    if self.unspecified() {
                        assert forall|i: int| 0 <= i < 4 implies octets@[i] == zeros@[i] by {
                            assert(self.octets()[i] == 0);
                        }
                        assert(octets@ =~= zeros@);
                    }
                }
                equal
            },
            IpAddress::V6(octets) => {
                let zeros: [u8; 16] = [0u8; 16];
                let equal: bool = bytes_equal(octets, &zeros);
                proof {
                    if self.unspecified() {
                        assert forall|i: int| 0 <= i < 16 implies octets@[i] == zeros@[i] by {
                            assert(self.octets()[i] == 0);
                        }
                        assert(octets@ =~= zeros@);
                    }
                }
                equal
            },
        }
    }

    pub fn is_loopback(&self) -> (result: bool)
        ensures
            result == self.loopback(),
    {
        match self {
            IpAddress::V4(octets) => octets[0] == 127,
            IpAddress::V6(octets) => {
                let one: [u8; 16] = [0, 0, 0, 0, 0, 0, 0, 0, 0, 0, 0, 0, 0, 0, 0, 1];
                let equal: bool = bytes_equal(octets, &one);
                proof {
                    if self.loopback() {
                        assert(octets@ =~= one@);
                    }
                }
                equal
            },
        }
    }

    pub fn is_multicast(&self) -> (result: bool)
        ensures
            result == self.multicast(),
    {
        match self {
            IpAddress::V4(octets) => 224 <= octets[0] && octets[0] <= 239,
            IpAddress::V6(octets) => octets[0] == 255,
        }
    }

    pub fn is_broadcast(&self) -> (result: bool)
        ensures
            result == self.broadcast(),
    {
        match self {
            IpAddress::V4(octets) => {
                let equal: bool = octets[0] == 255 && octets[1] == 255 && octets[2] == 255
                    && octets[3] == 255;
                proof {
                    if equal {
                        assert(octets@ =~= seq![255u8, 255u8, 255u8, 255u8]);
                    }
                }
                equal
            },
            IpAddress::V6(_) => false,
        }
    }

    pub fn is_link_local_v6(&self) -> (result: bool)
        ensures
            result == self.link_local_v6(),
    {
        match self {
            IpAddress::V4(_) => false,
            IpAddress::V6(octets) => octets[0] == 254 && 128 <= octets[1] && octets[1] <= 191,
        }
    }
}

/// Whether an address is not reachable from the public internet.
pub fn is_private_or_local(address: IpAddress) -> (result: bool)
    ensures
        result == address.private_or_local(),
{
    match address {
        IpAddress::V4(octets) => octets[0] == 10 || (octets[0] == 172 && 16 <= octets[1]
            && octets[1] <= 31) || (octets[0] == 192 && octets[1] == 168) || (octets[0] == 169
            && octets[1] == 254) || octets[0] == 127 || (octets[0] == 100 && 64 <= octets[1]
            && octets[1] <= 127),
        IpAddress::V6(octets) => address.is_loopback() || address.is_link_local_v6() || (252
            <= octets[0] && octets[0] <= 253),
    }
}

/// Whether two addresses are the same.
pub fn same_ip(left: &IpAddress, right: &IpAddress) -> (same: bool)
    ensures
        same == (*left == *right),
{
    match (left, right) {
        (IpAddress::V4(a), IpAddress::V4(b)) => {
            let same: bool = bytes_equal(a, b);
            assert(same ==> *a =~= *b);
            same
        },
        (IpAddress::V6(a), IpAddress::V6(b)) => {
            let same: bool = bytes_equal(a, b);
            assert(same ==> *a =~= *b);
            same
        },
        _ => false,
    }
}

/// Whether two addresses with their ports are the same.
pub fn same_socket(left: &SocketAddress, right: &SocketAddress) -> (same: bool)
    ensures
        same == (*left == *right),
{
    same_ip(&left.ip, &right.ip) && left.port == right.port && left.flow_info == right.flow_info
        && left.scope_id == right.scope_id
}

impl SocketAddress {
    /// An address and a port, without flow or scope.
    pub fn new(ip: IpAddress, port: u16) -> (socket: Self)
        ensures
            socket == (SocketAddress { ip, port, flow_info: 0, scope_id: 0 }),
    {
        SocketAddress { ip, port, flow_info: 0, scope_id: 0 }
    }
}

} // verus!
