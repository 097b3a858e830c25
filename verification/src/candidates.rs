//! Candidate addresses at which a device may be reached: what makes one valid, which of them
//! may be told to the peer, and how the addresses of a device become candidates.

use crate::address::{is_private_or_local, same_ip, IpAddress, SocketAddress};
use crate::authorization::saturating_sum;
use crate::bytes::{append, append_u16, append_u32, append_u64, be_bytes};
use crate::crypto::{sha256, sha256_digest};
use crate::encoding::{hex_text, lemma_hex_text_size};
use crate::ordering::{
    in_order, is_text_before, lemma_text_order, sort, text_before, views, Ranked,
};
use crate::text::{
    contains, contains_text, decimal, decimal_text, joined, lower_text, same_text, to_lower,
};
use vstd::prelude::*;
use vstd::utf8::encode_utf8;

verus! {

pub const NATIVE_CANDIDATE_VERSION: u16 = 1;

pub const MAX_NATIVE_CANDIDATES: usize = 32;

pub const DEFAULT_CANDIDATE_LIFETIME_MS: u64 = 120_000;

pub const CANDIDATE_CLOCK_SKEW_MS: u64 = 30_000;

#[derive(Debug, Clone, Copy, PartialEq, Eq, Structural)]
pub enum NativeCandidateType {
    Host,
    ServerReflexive,
    Mapped,
    Ipv6,
    Manual,
}

#[derive(Debug, Clone, Copy, PartialEq, Eq, Structural)]
pub enum NativeCandidateTransport {
    Udp,
}

#[derive(Debug, Clone, Copy, PartialEq, Eq, Structural)]
pub enum NativeAddressFamily {
    Ipv4,
    Ipv6,
}

impl NativeAddressFamily {
    /// The family of an address.
    pub open spec fn of(address: IpAddress) -> Self {
        match address {
            IpAddress::V4(_) => NativeAddressFamily::Ipv4,
            IpAddress::V6(_) => NativeAddressFamily::Ipv6,
        }
    }

    pub fn for_ip(address: IpAddress) -> (family: Self)
        ensures
            family == Self::of(address),
    {
        match address {
            IpAddress::V4(_) => NativeAddressFamily::Ipv4,
            IpAddress::V6(_) => NativeAddressFamily::Ipv6,
        }
    }

    /// The number of the family.
    pub open spec fn number(self) -> u8 {
        match self {
            NativeAddressFamily::Ipv4 => 4,
            NativeAddressFamily::Ipv6 => 6,
        }
    }

    fn code(self) -> (code: u8)
        ensures
            code == self.number(),
    {
        match self {
            NativeAddressFamily::Ipv4 => 4,
            NativeAddressFamily::Ipv6 => 6,
        }
    }
}

/// Which candidates the peer may learn of.
#[derive(Debug, Clone, Copy, PartialEq, Eq, Structural)]
pub enum CandidatePrivacyPolicy {
    LanFirst,
    PublicOnly,
    AllDirect,
    Manual,
}

impl Default for CandidatePrivacyPolicy {
    fn default() -> (policy: Self)
        ensures
            policy == CandidatePrivacyPolicy::LanFirst,
    {
        CandidatePrivacyPolicy::LanFirst
    }
}

#[derive(Debug, PartialEq, Eq)]
pub struct NativeCandidate {
    pub version: u16,
    pub candidate_id: String,
    pub candidate_type: NativeCandidateType,
    pub transport: NativeCandidateTransport,
    pub address: IpAddress,
    pub port: u16,
    pub address_family: NativeAddressFamily,
    pub network_identifier: String,
    pub priority: u32,
    pub foundation: String,
    pub related_address: Option<SocketAddress>,
    pub generation: u32,
    pub expires_unix_ms: u64,
}

/// What a candidate says.
pub struct CandidateFacts {
    pub version: u16,
    pub candidate_id: Seq<char>,
    pub candidate_type: NativeCandidateType,
    pub transport: NativeCandidateTransport,
    pub address: IpAddress,
    pub port: u16,
    pub address_family: NativeAddressFamily,
    pub network_identifier: Seq<char>,
    pub priority: u32,
    pub foundation: Seq<char>,
    pub related_address: Option<SocketAddress>,
    pub generation: u32,
    pub expires_unix_ms: u64,
}

impl View for NativeCandidate {
    type V = CandidateFacts;

    open spec fn view(&self) -> CandidateFacts {
        CandidateFacts {
            version: self.version,
            candidate_id: self.candidate_id@,
            candidate_type: self.candidate_type,
            transport: self.transport,
            address: self.address,
            port: self.port,
            address_family: self.address_family,
            network_identifier: self.network_identifier@,
            priority: self.priority,
            foundation: self.foundation@,
            related_address: self.related_address,
            generation: self.generation,
            expires_unix_ms: self.expires_unix_ms,
        }
    }
}

impl Clone for NativeCandidate {
    fn clone(&self) -> (copy: Self)
        ensures
            copy@ == self@,
    {
        NativeCandidate {
            version: self.version,
            candidate_id: self.candidate_id.clone(),
            candidate_type: self.candidate_type,
            transport: self.transport,
            address: self.address,
            port: self.port,
            address_family: self.address_family,
            network_identifier: self.network_identifier.clone(),
            priority: self.priority,
            foundation: self.foundation.clone(),
            related_address: self.related_address,
            generation: self.generation,
            expires_unix_ms: self.expires_unix_ms,
        }
    }
}

/// The number of a candidate type.
pub open spec fn type_number(value: NativeCandidateType) -> u8 {
    match value {
        NativeCandidateType::Host => 1,
        NativeCandidateType::ServerReflexive => 2,
        NativeCandidateType::Mapped => 3,
        NativeCandidateType::Ipv6 => 4,
        NativeCandidateType::Manual => 5,
    }
}

pub fn candidate_type_code(value: NativeCandidateType) -> (code: u8)
    ensures
        code == type_number(value),
{
    match value {
        NativeCandidateType::Host => 1,
        NativeCandidateType::ServerReflexive => 2,
        NativeCandidateType::Mapped => 3,
        NativeCandidateType::Ipv6 => 4,
        NativeCandidateType::Manual => 5,
    }
}

/// An address in canonical form: the number of its family and its bytes.
pub open spec fn ip_bytes(address: IpAddress) -> Seq<u8> {
    seq![NativeAddressFamily::of(address).number()] + address.octets()
}

fn write_ip(output: &mut Vec<u8>, address: IpAddress)
    ensures
        final(output)@ == old(output)@ + ip_bytes(address),
{
    match address {
        IpAddress::V4(octets) => {
            output.push(4);
            append(output, &octets);
            assert(output@ =~= old(output)@ + ip_bytes(address));
        },
        IpAddress::V6(octets) => {
            output.push(6);
            append(output, &octets);
            assert(output@ =~= old(output)@ + ip_bytes(address));
        },
    }
}

/// A text in canonical form: its length in bytes, of which two bytes are kept, and its bytes.
pub open spec fn text_bytes(text: Seq<char>) -> Seq<u8> {
    be_bytes(encode_utf8(text).len() % 0x1_0000, 2) + encode_utf8(text)
}

pub fn write_bounded_string(output: &mut Vec<u8>, value: &str)
    ensures
        final(output)@ == old(output)@ + text_bytes(value@),
{
    let bytes: &[u8] = value.as_bytes();
    append_u16(output, (bytes.len() % 0x1_0000) as u16);
    append(output, bytes);
    assert(output@ =~= old(output)@ + text_bytes(value@));
}

/// A related address in canonical form.
pub open spec fn related_bytes(related: Option<SocketAddress>) -> Seq<u8> {
    match related {
        Some(socket) => seq![1u8] + ip_bytes(socket.ip) + be_bytes(socket.port as nat, 2),
        None => seq![0u8],
    }
}

impl CandidateFacts {
    /// The candidate in canonical form, without its identifier.
    pub open spec fn canonical(self) -> Seq<u8> {
        be_bytes(self.version as nat, 2) + seq![type_number(self.candidate_type), 1u8] + ip_bytes(
            self.address,
        ) + be_bytes(self.port as nat, 2) + seq![self.address_family.number()] + text_bytes(
            self.network_identifier,
        ) + be_bytes(self.priority as nat, 4) + text_bytes(self.foundation) + related_bytes(
            self.related_address,
        ) + be_bytes(self.generation as nat, 4) + be_bytes(self.expires_unix_ms as nat, 8)
    }

    /// The identifier that the candidate has to carry.
    pub open spec fn proper_id(self) -> Seq<char> {
        hex_text(sha256_digest(self.canonical())@.take(16))
    }

    /// The address and port of the candidate.
    pub open spec fn socket(self) -> SocketAddress {
        SocketAddress { ip: self.address, port: self.port, flow_info: 0, scope_id: 0 }
    }

    /// Why the candidate is refused, if it is.
    pub open spec fn defect(self, allow_loopback: bool, now: u64) -> Option<Seq<char>> {
        let network = encode_utf8(self.network_identifier).len();
        let foundation = encode_utf8(self.foundation).len();
        if self.version != NATIVE_CANDIDATE_VERSION {
            Some("native-candidate-version-unsupported"@)
        } else if self.port == 0 {
            Some("native-candidate-transport-invalid"@)
        } else if NativeAddressFamily::of(self.address) != self.address_family {
            Some("native-candidate-address-family-mismatch"@)
        } else if self.address.unspecified() || self.address.multicast() {
            Some("native-candidate-address-invalid"@)
        } else if self.address.loopback() && !allow_loopback {
            Some("native-candidate-loopback-not-permitted"@)
        } else if self.address.broadcast() {
            Some("native-candidate-address-invalid"@)
        } else if self.address.link_local_v6() {
            Some("native-candidate-ipv6-scope-required"@)
        } else if network == 0 || network > 64 {
            Some("native-candidate-network-identifier-invalid"@)
        } else if foundation == 0 || foundation > 64 {
            Some("native-candidate-foundation-invalid"@)
        } else if saturating_sum(self.expires_unix_ms, CANDIDATE_CLOCK_SKEW_MS) < now {
            Some("native-candidate-expired"@)
        } else if self.related_address matches Some(related) && (related.port == 0
            || related.ip.unspecified() || related.ip.multicast() || NativeAddressFamily::of(
            related.ip,
        ) != self.address_family) {
            Some("native-candidate-related-address-invalid"@)
        } else if self.candidate_id != self.proper_id() {
            Some("native-candidate-id-mismatch"@)
        } else {
            None
        }
    }
}

/// The first 16 bytes of a digest in hexadecimal.
pub(crate) fn short_digest_text(digest: &[u8; 32]) -> (text: String)
    ensures
        text@ == hex_text(digest@.take(16)),
{
    let head: &[u8] = &digest.as_slice()[0..16];
    assert(head@ =~= digest@.take(16));
    crate::encoding::hex(head)
}

/// A candidate with the identifier that belongs to it.
pub open spec fn identified(facts: CandidateFacts) -> CandidateFacts {
    CandidateFacts { candidate_id: facts.proper_id(), ..facts }
}

/// The candidate that is made of the given values.
pub open spec fn candidate_of(
    candidate_type: NativeCandidateType,
    address: IpAddress,
    port: u16,
    network_identifier: Seq<char>,
    priority: u32,
    foundation: Seq<char>,
    related_address: Option<SocketAddress>,
    generation: u32,
    expires_unix_ms: u64,
) -> CandidateFacts {
    identified(
        CandidateFacts {
            version: NATIVE_CANDIDATE_VERSION,
            candidate_id: Seq::empty(),
            candidate_type,
            transport: NativeCandidateTransport::Udp,
            address,
            port,
            address_family: NativeAddressFamily::of(address),
            network_identifier,
            priority,
            foundation,
            related_address,
            generation,
            expires_unix_ms,
        },
    )
}

/// Why a candidate made of valid-looking values is refused at birth, if it is. Its time cannot
/// be over yet, and loopback addresses are let through.
pub open spec fn birth_defect(facts: CandidateFacts) -> Option<Seq<char>> {
    facts.defect(true, 0)
}

impl NativeCandidate {
    #[allow(clippy::too_many_arguments)]
    pub fn new(
        candidate_type: NativeCandidateType,
        address: IpAddress,
        port: u16,
        network_identifier: String,
        priority: u32,
        foundation: String,
        related_address: Option<SocketAddress>,
        generation: u32,
        expires_unix_ms: u64,
    ) -> (result: Result<Self, String>)
        ensures
            ({
                let facts = candidate_of(
                    candidate_type,
                    address,
                    port,
                    network_identifier@,
                    priority,
                    foundation@,
                    related_address,
                    generation,
                    expires_unix_ms,
                );
                match result {
                    Ok(candidate) => candidate@ == facts && birth_defect(facts) is None,
                    Err(error) => birth_defect(facts) == Some(error@),
                }
            }),
    {
        let mut candidate = NativeCandidate {
            version: NATIVE_CANDIDATE_VERSION,
            candidate_id: String::new(),
            candidate_type,
            transport: NativeCandidateTransport::Udp,
            address,
            port,
            address_family: NativeAddressFamily::for_ip(address),
            network_identifier,
            priority,
            foundation,
            related_address,
            generation,
            expires_unix_ms,
        };
        let ghost blank = candidate@;
        candidate.candidate_id = candidate.computed_id();
        proof {
            assert(blank.candidate_id =~= Seq::empty());
            assert(candidate@.canonical() == blank.canonical());
        }
        let now: u64 = if expires_unix_ms > 0 {
            expires_unix_ms - 1
        } else {
            0
        };
        match candidate.validate(true, now) {
            Ok(()) => Ok(candidate),
            Err(error) => Err(error),
        }
    }

    pub fn socket_addr(&self) -> (socket: SocketAddress)
        ensures
            socket == self@.socket(),
    {
        SocketAddress::new(self.address, self.port)
    }

    /// Checks the candidate: its fields, its time, and that its identifier is the one that
    /// belongs to them.
    pub fn validate(&self, allow_loopback: bool, now_unix_ms: u64) -> (result: Result<(), String>)
        ensures
            match result {
                Ok(()) => self@.defect(allow_loopback, now_unix_ms) is None,
                Err(error) => self@.defect(allow_loopback, now_unix_ms) == Some(error@),
            },
    {
        if self.version != NATIVE_CANDIDATE_VERSION {
            return Err("native-candidate-version-unsupported".to_owned());
        }
        if self.port == 0 {
            return Err("native-candidate-transport-invalid".to_owned());
        }
        if NativeAddressFamily::for_ip(self.address) != self.address_family {
            return Err("native-candidate-address-family-mismatch".to_owned());
        }
        if self.address.is_unspecified() || self.address.is_multicast() {
            return Err("native-candidate-address-invalid".to_owned());
        }
        if self.address.is_loopback() && !allow_loopback {
            return Err("native-candidate-loopback-not-permitted".to_owned());
        }
        if self.address.is_broadcast() {
            return Err("native-candidate-address-invalid".to_owned());
        }
        if self.address.is_link_local_v6() {
            return Err("native-candidate-ipv6-scope-required".to_owned());
        }
        let network: usize = self.network_identifier.as_str().as_bytes().len();
        if network == 0 || network > 64 {
            return Err("native-candidate-network-identifier-invalid".to_owned());
        }
        let foundation: usize = self.foundation.as_str().as_bytes().len();
        if foundation == 0 || foundation > 64 {
            return Err("native-candidate-foundation-invalid".to_owned());
        }
        if self.expires_unix_ms.saturating_add(CANDIDATE_CLOCK_SKEW_MS) < now_unix_ms {
            return Err("native-candidate-expired".to_owned());
        }
        match self.related_address {
            Some(related) => {
                if related.port == 0 || related.ip.is_unspecified() || related.ip.is_multicast()
                    || NativeAddressFamily::for_ip(related.ip) != self.address_family {
                    return Err("native-candidate-related-address-invalid".to_owned());
                }
            },
            None => {},
        }
        if !same_text(self.candidate_id.as_str(), self.computed_id().as_str()) {
            return Err("native-candidate-id-mismatch".to_owned());
        }
        Ok(())
    }

    pub fn canonical_bytes_without_id(&self) -> (bytes: Vec<u8>)
        ensures
            bytes@ == self@.canonical(),
    {
        let mut value: Vec<u8> = Vec::new();
        append_u16(&mut value, self.version);
        append(&mut value, &[candidate_type_code(self.candidate_type), 1]);
        write_ip(&mut value, self.address);
        append_u16(&mut value, self.port);
        append(&mut value, &[self.address_family.code()]);
        write_bounded_string(&mut value, self.network_identifier.as_str());
        append_u32(&mut value, self.priority);
        write_bounded_string(&mut value, self.foundation.as_str());
        let ghost before_related = value@;
        match self.related_address {
            Some(related) => {
                value.push(1);
                write_ip(&mut value, related.ip);
                append_u16(&mut value, related.port);
            },
            None => {
                value.push(0);
            },
        }
        assert(value@ =~= before_related + related_bytes(self.related_address));
        append_u32(&mut value, self.generation);
        append_u64(&mut value, self.expires_unix_ms);
        proof {
            let codes = [type_number(self.candidate_type), 1u8];
            assert(codes@ =~= seq![type_number(self.candidate_type), 1u8]);
            let family = [self.address_family.number()];
            assert(family@ =~= seq![self.address_family.number()]);
            assert(value@ =~= self@.canonical());
        }
        value
    }

    fn computed_id(&self) -> (id: String)
        ensures
            id@ == self@.proper_id(),
    {
        let bytes = self.canonical_bytes_without_id();
        let digest: [u8; 32] = sha256(bytes.as_slice());
        short_digest_text(&digest)
    }
}

/// The text that groups candidates of one kind, network and family.
pub open spec fn foundation_text(
    candidate_type: NativeCandidateType,
    network_identifier: Seq<char>,
    family: NativeAddressFamily,
) -> Seq<char> {
    hex_text(
        sha256_digest(
            seq![type_number(candidate_type)] + encode_utf8(network_identifier)
                + seq![family.number()],
        )@.take(8),
    )
}

pub fn foundation(
    candidate_type: NativeCandidateType,
    network_identifier: &str,
    family: NativeAddressFamily,
) -> (text: String)
    ensures
        text@ == foundation_text(candidate_type, network_identifier@, family),
{
    let mut value: Vec<u8> = Vec::new();
    value.push(candidate_type_code(candidate_type));
    append(&mut value, network_identifier.as_bytes());
    value.push(family.code());
    assert(value@ =~= seq![type_number(candidate_type)] + encode_utf8(network_identifier@)
        + seq![family.number()]);
    let digest: [u8; 32] = sha256(value.as_slice());
    let head: &[u8] = &digest.as_slice()[0..8];
    assert(head@ =~= digest@.take(8));
    crate::encoding::hex(head)
}

#[derive(Debug, Clone, Copy)]
pub struct ManualCandidateInput {
    pub address: IpAddress,
    pub port: u16,
    pub priority: Option<u32>,
}

/// The candidate that an entered address stands for.
pub open spec fn manual_candidate(
    input: ManualCandidateInput,
    generation: u32,
    expires_unix_ms: u64,
) -> CandidateFacts {
    candidate_of(
        NativeCandidateType::Manual,
        input.address,
        input.port,
        "manual"@,
        match input.priority {
            Some(priority) => priority,
            None => 10_000,
        },
        foundation_text(
            NativeCandidateType::Manual,
            "manual"@,
            NativeAddressFamily::of(input.address),
        ),
        None,
        generation,
        expires_unix_ms,
    )
}

proof fn lemma_manual_candidate(
    input: ManualCandidateInput,
    generation: u32,
    expires_unix_ms: u64,
)
    ensures
        ({
            let facts = manual_candidate(input, generation, expires_unix_ms);
            &&& facts.address.loopback() ==> facts.defect(true, 0) is None || facts.defect(
                false,
                0,
            ) == facts.defect(true, 0)
        }),
{
    reveal_strlit("manual");
    vstd::utf8::is_ascii_chars_encode_utf8("manual"@);
    let family = NativeAddressFamily::of(input.address);
    let digest = sha256_digest(
        seq![type_number(NativeCandidateType::Manual)] + encode_utf8("manual"@)
            + seq![family.number()],
    );
    lemma_hex_text_size(digest@.take(8));
    let facts = manual_candidate(input, generation, expires_unix_ms);
    let blank = CandidateFacts { candidate_id: Seq::empty(), ..facts };
    assert(facts.canonical() == blank.canonical());
}

impl ManualCandidateInput {
    pub fn into_candidate(
        self,
        generation: u32,
        expires_unix_ms: u64,
        allow_loopback: bool,
    ) -> (result: Result<NativeCandidate, String>)
        ensures
            ({
                let facts = manual_candidate(self, generation, expires_unix_ms);
                match result {
                    Ok(candidate) => candidate@ == facts && facts.defect(
                        allow_loopback,
                        0,
                    ) is None,
                    Err(error) => facts.defect(allow_loopback, 0) == Some(error@),
                }
            }),
    {
        proof {
            lemma_manual_candidate(self, generation, expires_unix_ms);
        }
        let family = NativeAddressFamily::for_ip(self.address);
        let candidate = match NativeCandidate::new(
            NativeCandidateType::Manual,
            self.address,
            self.port,
            "manual".to_owned(),
            match self.priority {
                Some(priority) => priority,
                None => 10_000,
            },
            foundation(NativeCandidateType::Manual, "manual", family),
            None,
            generation,
            expires_unix_ms,
        ) {
            Ok(candidate) => candidate,
            Err(error) => return Err(error),
        };
        let now: u64 = if expires_unix_ms > 0 {
            expires_unix_ms - 1
        } else {
            0
        };
        match candidate.validate(allow_loopback, now) {
            Ok(()) => Ok(candidate),
            Err(error) => Err(error),
        }
    }
}

/// Whether two candidates of a set stand in each other's way: they carry the same identifier,
/// or name the same endpoint in the same way.
pub open spec fn collide(left: CandidateFacts, right: CandidateFacts) -> bool {
    ||| left.candidate_id == right.candidate_id
    ||| left.candidate_type == right.candidate_type && left.address == right.address && left.port
        == right.port
}

/// What is wrong with a set of candidates from position `at` on, if anything is: the first
/// candidate that is itself refused, or that collides with an earlier one.
pub open spec fn set_defect(
    candidates: Seq<CandidateFacts>,
    allow_loopback: bool,
    now: u64,
    at: nat,
) -> Option<Seq<char>>
    decreases candidates.len() - at,
{
    if at >= candidates.len() {
        None
    } else if candidates[at as int].defect(allow_loopback, now) is Some {
        candidates[at as int].defect(allow_loopback, now)
    } else if exists|i: int|
        0 <= i < at && collide(#[trigger] candidates[i], candidates[at as int]) {
        Some("native-candidate-duplicate"@)
    } else {
        set_defect(candidates, allow_loopback, now, at + 1)
    }
}

/// Why a set of candidates is refused, if it is.
pub open spec fn batch_defect(
    candidates: Seq<CandidateFacts>,
    allow_loopback: bool,
    now: u64,
) -> Option<Seq<char>> {
    if candidates.len() > MAX_NATIVE_CANDIDATES {
        Some("native-candidate-set-oversized"@)
    } else {
        set_defect(candidates, allow_loopback, now, 0)
    }
}

fn collides(candidates: &[NativeCandidate], at: usize) -> (found: bool)
    requires
        at < candidates.len(),
    ensures
        found == exists|i: int|
            0 <= i < at && collide(#[trigger] views(candidates@)[i], views(candidates@)[at as int]),
{
    let mut index: usize = 0;
    while index < at
        invariant
            index <= at < candidates.len(),
            forall|i: int|
                0 <= i < index ==> !collide(
                    #[trigger] views(candidates@)[i],
                    views(candidates@)[at as int],
                ),
        decreases at - index,
    {
        let left: &NativeCandidate = &candidates[index];
        let right: &NativeCandidate = &candidates[at];
        if same_text(left.candidate_id.as_str(), right.candidate_id.as_str()) || (
        left.candidate_type == right.candidate_type && same_ip(&left.address, &right.address)
            && left.port == right.port) {
            assert(collide(views(candidates@)[index as int], views(candidates@)[at as int]));
            return true;
        }
        assert(!collide(views(candidates@)[index as int], views(candidates@)[at as int]));
        index += 1;
    }
    false
}

/// Checks a set of candidates: each by itself, and that no two collide.
pub fn validate_candidate_batch(
    candidates: &[NativeCandidate],
    allow_loopback: bool,
    now_unix_ms: u64,
) -> (result: Result<(), String>)
    ensures
        match result {
            Ok(()) => batch_defect(views(candidates@), allow_loopback, now_unix_ms) is None,
            Err(error) => batch_defect(views(candidates@), allow_loopback, now_unix_ms) == Some(
                error@,
            ),
        },
{
    if candidates.len() > MAX_NATIVE_CANDIDATES {
        return Err("native-candidate-set-oversized".to_owned());
    }
    let mut index: usize = 0;
    while index < candidates.len()
        invariant
            index <= candidates.len(),
            set_defect(views(candidates@), allow_loopback, now_unix_ms, 0) == set_defect(
                views(candidates@),
                allow_loopback,
                now_unix_ms,
                index as nat,
            ),
            candidates@.len() <= MAX_NATIVE_CANDIDATES,
        decreases candidates.len() - index,
    {
        match candidates[index].validate(allow_loopback, now_unix_ms) {
            Ok(()) => {},
            Err(error) => return Err(error),
        }
        if collides(candidates, index) {
            return Err("native-candidate-duplicate".to_owned());
        }
        index += 1;
    }
    Ok(())
}

/// Whether a candidate is one that the whole internet may see.
pub open spec fn public(candidate: CandidateFacts) -> bool {
    match candidate.candidate_type {
        NativeCandidateType::ServerReflexive
        | NativeCandidateType::Mapped
        | NativeCandidateType::Manual => true,
        NativeCandidateType::Ipv6 => !candidate.address.private_or_local(),
        NativeCandidateType::Host => false,
    }
}

/// Whether a candidate may be told to the peer under a policy.
pub open spec fn admitted(
    candidate: CandidateFacts,
    policy: CandidatePrivacyPolicy,
    expected_same_lan: bool,
) -> bool {
    match policy {
        CandidatePrivacyPolicy::Manual => candidate.candidate_type is Manual,
        CandidatePrivacyPolicy::PublicOnly => public(candidate),
        CandidatePrivacyPolicy::AllDirect => true,
        CandidatePrivacyPolicy::LanFirst => public(candidate) || expected_same_lan && (
        candidate.candidate_type is Host || candidate.candidate_type is Ipv6),
    }
}

fn is_public_candidate(candidate: &NativeCandidate) -> (result: bool)
    ensures
        result == public(candidate@),
{
    match candidate.candidate_type {
        NativeCandidateType::ServerReflexive
        | NativeCandidateType::Mapped
        | NativeCandidateType::Manual => true,
        NativeCandidateType::Ipv6 => !is_private_or_local(candidate.address),
        NativeCandidateType::Host => false,
    }
}

fn is_admitted(
    candidate: &NativeCandidate,
    policy: CandidatePrivacyPolicy,
    expected_same_lan: bool,
) -> (result: bool)
    ensures
        result == admitted(candidate@, policy, expected_same_lan),
{
    match policy {
        CandidatePrivacyPolicy::Manual => candidate.candidate_type == NativeCandidateType::Manual,
        CandidatePrivacyPolicy::PublicOnly => is_public_candidate(candidate),
        CandidatePrivacyPolicy::AllDirect => true,
        CandidatePrivacyPolicy::LanFirst => is_public_candidate(candidate) || (expected_same_lan
            && (candidate.candidate_type == NativeCandidateType::Host || candidate.candidate_type
            == NativeCandidateType::Ipv6)),
    }
}

/// Keeps the candidates that may be told to the peer, in their order.
pub fn apply_privacy_policy(
    candidates: Vec<NativeCandidate>,
    policy: CandidatePrivacyPolicy,
    expected_same_lan: bool,
    all_direct_approved: bool,
) -> (result: Result<Vec<NativeCandidate>, String>)
    ensures
        match result {
            Ok(kept) => {
                &&& policy is AllDirect ==> all_direct_approved
                &&& views(kept@) == views(candidates@).filter(
                    |candidate: CandidateFacts| admitted(candidate, policy, expected_same_lan),
                )
            },
            Err(error) => policy is AllDirect && !all_direct_approved && error@
                == "native-private-candidate-approval-required"@,
        },
{
    if policy == CandidatePrivacyPolicy::AllDirect && !all_direct_approved {
        return Err("native-private-candidate-approval-required".to_owned());
    }
    let ghost allowed = |candidate: CandidateFacts| admitted(candidate, policy, expected_same_lan);
    let ghost all = views(candidates@);
    let mut kept: Vec<NativeCandidate> = Vec::new();
    let mut index: usize = 0;
    proof {
        reveal(Seq::filter);
        assert(all.take(0).filter(allowed) =~= views(kept@));
    }
    while index < candidates.len()
        invariant
            index <= candidates.len(),
            all == views(candidates@),
            allowed == (|candidate: CandidateFacts|
                admitted(candidate, policy, expected_same_lan)),
            views(kept@) == all.take(index as int).filter(allowed),
        decreases candidates.len() - index,
    {
        let ghost before = kept@;
        let candidate: &NativeCandidate = &candidates[index];
        if is_admitted(candidate, policy, expected_same_lan) {
            kept.push(candidate.clone());
        }
        proof {
            reveal(Seq::filter);
            let next = all.take(index + 1);
            assert(next.drop_last() =~= all.take(index as int));
            assert(next.last() == candidate@);
            if admitted(candidate@, policy, expected_same_lan) {
                assert(views(kept@) =~= views(before).push(candidate@));
            }
        }
        index += 1;
    }
    assert(all.take(all.len() as int) =~= all);
    Ok(kept)
}

/// The order of the identifiers.
pub struct ById {
    candidate: NativeCandidate,
}

impl View for ById {
    type V = CandidateFacts;

    closed spec fn view(&self) -> CandidateFacts {
        self.candidate@
    }
}

impl Ranked for ById {
    open spec fn precedes(left: CandidateFacts, right: CandidateFacts) -> bool {
        text_before(left.candidate_id, right.candidate_id)
    }

    proof fn lemma_order(a: CandidateFacts, b: CandidateFacts, c: CandidateFacts) {
        lemma_text_order(a.candidate_id, b.candidate_id, c.candidate_id);
    }

    fn stands_before(&self, other: &Self) -> (result: bool) {
        is_text_before(
            self.candidate.candidate_id.as_str(),
            other.candidate.candidate_id.as_str(),
        )
    }
}

/// The order in which candidates are preferred: by priority, highest first, and then by
/// identifier.
impl Ranked for NativeCandidate {
    open spec fn precedes(left: CandidateFacts, right: CandidateFacts) -> bool {
        left.priority > right.priority || left.priority == right.priority && text_before(
            left.candidate_id,
            right.candidate_id,
        )
    }

    proof fn lemma_order(a: CandidateFacts, b: CandidateFacts, c: CandidateFacts) {
        lemma_text_order(a.candidate_id, b.candidate_id, c.candidate_id);
    }

    fn stands_before(&self, other: &Self) -> (result: bool) {
        self.priority > other.priority || (self.priority == other.priority && is_text_before(
            self.candidate_id.as_str(),
            other.candidate_id.as_str(),
        ))
    }
}

/// The first `n` candidates of a list, each with its identifier and both with their lengths.
pub open spec fn payload_bytes(candidates: Seq<CandidateFacts>, n: nat) -> Seq<u8>
    decreases n,
{
    if n == 0 {
        Seq::empty()
    } else {
        let candidate = candidates[n - 1];
        payload_bytes(candidates, (n - 1) as nat) + text_bytes(candidate.candidate_id) + be_bytes(
            candidate.canonical().len() % 0x1_0000_0000,
            4,
        ) + candidate.canonical()
    }
}

/// The bytes that stand for a set of candidates, whatever their order.
pub open spec fn set_payload(candidates: Seq<CandidateFacts>) -> Seq<u8> {
    be_bytes(candidates.len() % 0x1_0000, 2) + payload_bytes(
        in_order::<ById>(candidates),
        candidates.len(),
    )
}

/// The digest that stands for a set of candidates, whatever their order.
pub fn candidate_payload_digest(candidates: &[NativeCandidate]) -> (digest: [u8; 32])
    ensures
        digest == sha256_digest(set_payload(views(candidates@))),
{
    let mut canonical: Vec<ById> = Vec::new();
    let mut index: usize = 0;
    while index < candidates.len()
        invariant
            index <= candidates.len(),
            views(canonical@) == views(candidates@).take(index as int),
        decreases candidates.len() - index,
    {
        let ghost before = views(canonical@);
        canonical.push(ById { candidate: candidates[index].clone() });
        proof {
            assert(views(canonical@) =~= before.push(candidates@[index as int]@));
            assert(views(candidates@).take(index + 1) =~= before.push(candidates@[index as int]@));
        }
        index += 1;
    }
    assert(views(candidates@).take(candidates@.len() as int) =~= views(candidates@));
    sort(&mut canonical);
    let ghost sorted = views(canonical@);
    proof {
        crate::ordering::lemma_in_order::<ById>(views(candidates@));
    }
    let mut bytes: Vec<u8> = Vec::new();
    append_u16(&mut bytes, (candidates.len() % 0x1_0000) as u16);
    let ghost head = bytes@;
    let mut at: usize = 0;
    assert(bytes@ =~= head + payload_bytes(sorted, 0));
    while at < canonical.len()
        invariant
            at <= canonical.len(),
            sorted == views(canonical@),
            bytes@ == head + payload_bytes(sorted, at as nat),
        decreases canonical.len() - at,
    {
        let candidate: &NativeCandidate = &canonical[at].candidate;
        assert(sorted[at as int] == candidate@);
        let content: Vec<u8> = candidate.canonical_bytes_without_id();
        let ghost before = bytes@;
        write_bounded_string(&mut bytes, candidate.candidate_id.as_str());
        append_u32(&mut bytes, (content.len() as u64 % 0x1_0000_0000) as u32);
        append(&mut bytes, content.as_slice());
        at += 1;
        assert(bytes@ =~= head + payload_bytes(sorted, at as nat));
    }
    assert(head =~= be_bytes(candidates@.len() % 0x1_0000, 2));
    sha256(bytes.as_slice())
}

/// How much a candidate is preferred: by its kind, then physical interfaces, then those that
/// do not look like a virtual private network.
pub open spec fn priority_of(
    candidate_type: NativeCandidateType,
    physical: bool,
    vpn_like: bool,
) -> u32 {
    let weight: int = match candidate_type {
        NativeCandidateType::Host => 500,
        NativeCandidateType::Ipv6 => 450,
        NativeCandidateType::Mapped => 350,
        NativeCandidateType::ServerReflexive => 300,
        NativeCandidateType::Manual => 100,
    };
    (weight * 1000 + (if physical {
        100int
    } else {
        0
    }) + (if vpn_like {
        0int
    } else {
        10
    })) as u32
}

pub fn candidate_priority(candidate_type: NativeCandidateType, physical: bool, vpn_like: bool) -> (
priority: u32)
    ensures
        priority == priority_of(candidate_type, physical, vpn_like),
{
    let weight: u32 = match candidate_type {
        NativeCandidateType::Host => 500,
        NativeCandidateType::Ipv6 => 450,
        NativeCandidateType::Mapped => 350,
        NativeCandidateType::ServerReflexive => 300,
        NativeCandidateType::Manual => 100,
    };
    let physical_bonus: u32 = if physical {
        100
    } else {
        0
    };
    let plain_bonus: u32 = if vpn_like {
        0
    } else {
        10
    };
    weight * 1000 + physical_bonus + plain_bonus
}

/// Whether a name, in small letters, holds a word that virtual private networks go by.
pub open spec fn hints_at_vpn(name: Seq<char>) -> bool {
    let value = lower_text(name);
    ||| contains_text(value, "vpn"@)
    ||| contains_text(value, "wireguard"@)
    ||| contains_text(value, "openvpn"@)
    ||| contains_text(value, "tailscale"@)
    ||| contains_text(value, "zerotier"@)
    ||| contains_text(value, "hamachi"@)
    ||| contains_text(value, "tunnel"@)
    ||| contains_text(value, "wintun"@)
    ||| contains_text(value, "tap-"@)
}

pub fn contains_vpn_hint(value: &str) -> (found: bool)
    ensures
        found == hints_at_vpn(value@),
{
    let lower: String = to_lower(value);
    let name: &str = lower.as_str();
    contains(name, "vpn") || contains(name, "wireguard") || contains(name, "openvpn") || contains(
        name,
        "tailscale",
    ) || contains(name, "zerotier") || contains(name, "hamachi") || contains(name, "tunnel")
        || contains(name, "wintun") || contains(name, "tap-")
}

/// The kinds of network interface that are treated in a way of their own.
#[derive(Debug, Clone, Copy, PartialEq, Eq, Structural)]
pub enum InterfaceKind {
    Tunnel,
    Ppp,
    ProprietaryVirtual,
    Bridge,
    PeerToPeerWireless,
    Other,
}

/// A network interface as the operating system reports it.
#[derive(Debug)]
pub struct HostInterface {
    pub index: u32,
    pub name: String,
    pub friendly_name: Option<String>,
    pub kind_name: String,
    pub kind: InterfaceKind,
    pub is_tun: bool,
    pub is_up: bool,
    pub is_running: bool,
    pub is_physical: bool,
    pub is_loopback: bool,
    pub addresses: Vec<IpAddress>,
}

impl HostInterface {
    /// Whether the interface looks like that of a virtual private network.
    pub open spec fn vpn_like(self) -> bool {
        ||| self.is_tun
        ||| self.kind is Tunnel
        ||| self.kind is Ppp
        ||| self.kind is ProprietaryVirtual
        ||| hints_at_vpn(self.name@)
        ||| self.friendly_name matches Some(name) && hints_at_vpn(name@)
    }

    /// Whether the interface does not stand for a cable or an antenna of its own.
    pub open spec fn virtual_like(self) -> bool {
        ||| !self.is_physical
        ||| self.kind is Bridge
        ||| self.kind is PeerToPeerWireless
        ||| self.kind is ProprietaryVirtual
    }

    /// The name for reports.
    pub open spec fn shown_name(self) -> Seq<char> {
        match self.friendly_name {
            Some(name) => name@,
            None => self.name@,
        }
    }

    /// The identifier of the interface in candidates.
    pub open spec fn identifier(self) -> Seq<char> {
        "if-"@ + decimal_text(self.index as nat)
    }

    fn looks_like_vpn(&self) -> (result: bool)
        ensures
            result == self.vpn_like(),
    {
        if self.is_tun || self.kind == InterfaceKind::Tunnel || self.kind == InterfaceKind::Ppp
            || self.kind == InterfaceKind::ProprietaryVirtual || contains_vpn_hint(
            self.name.as_str(),
        ) {
            return true;
        }
        match &self.friendly_name {
            Some(name) => contains_vpn_hint(name.as_str()),
            None => false,
        }
    }

    fn looks_virtual(&self) -> (result: bool)
        ensures
            result == self.virtual_like(),
    {
        !self.is_physical || self.kind == InterfaceKind::Bridge || self.kind
            == InterfaceKind::PeerToPeerWireless || self.kind == InterfaceKind::ProprietaryVirtual
    }
}

#[derive(Debug)]
pub struct InterfaceCandidateDiagnostic {
    pub interface_name: String,
    pub interface_identifier: String,
    pub interface_type: String,
    pub local_ip: Option<IpAddress>,
    pub address_family: Option<NativeAddressFamily>,
    pub accepted: bool,
    pub rejection_reason: Option<String>,
    pub is_up: bool,
    pub is_running: bool,
    pub is_physical: bool,
    pub is_vpn_like: bool,
}

/// What a diagnostic says.
pub struct DiagnosticFacts {
    pub interface_name: Seq<char>,
    pub interface_identifier: Seq<char>,
    pub interface_type: Seq<char>,
    pub local_ip: Option<IpAddress>,
    pub address_family: Option<NativeAddressFamily>,
    pub accepted: bool,
    pub rejection_reason: Option<Seq<char>>,
    pub is_up: bool,
    pub is_running: bool,
    pub is_physical: bool,
    pub is_vpn_like: bool,
}

impl View for InterfaceCandidateDiagnostic {
    type V = DiagnosticFacts;

    open spec fn view(&self) -> DiagnosticFacts {
        DiagnosticFacts {
            interface_name: self.interface_name@,
            interface_identifier: self.interface_identifier@,
            interface_type: self.interface_type@,
            local_ip: self.local_ip,
            address_family: self.address_family,
            accepted: self.accepted,
            rejection_reason: match self.rejection_reason {
                Some(reason) => Some(reason@),
                None => None,
            },
            is_up: self.is_up,
            is_running: self.is_running,
            is_physical: self.is_physical,
            is_vpn_like: self.is_vpn_like,
        }
    }
}

impl Clone for InterfaceCandidateDiagnostic {
    fn clone(&self) -> (copy: Self)
        ensures
            copy@ == self@,
    {
        InterfaceCandidateDiagnostic {
            interface_name: self.interface_name.clone(),
            interface_identifier: self.interface_identifier.clone(),
            interface_type: self.interface_type.clone(),
            local_ip: self.local_ip,
            address_family: self.address_family,
            accepted: self.accepted,
            rejection_reason: match &self.rejection_reason {
                Some(reason) => Some(reason.clone()),
                None => None,
            },
            is_up: self.is_up,
            is_running: self.is_running,
            is_physical: self.is_physical,
            is_vpn_like: self.is_vpn_like,
        }
    }
}

#[derive(Debug, Clone, Copy)]
pub struct HostGatherOptions {
    pub allow_vpn: bool,
    pub allow_virtual: bool,
    pub allow_loopback_test: bool,
    pub generation: u32,
    pub expires_unix_ms: u64,
    pub ipv4_port: Option<u16>,
    pub ipv6_port: Option<u16>,
}

impl HostGatherOptions {
    /// The port of the socket for an address family, if there is one.
    pub open spec fn port_for(self, family: NativeAddressFamily) -> Option<u16> {
        match family {
            NativeAddressFamily::Ipv4 => self.ipv4_port,
            NativeAddressFamily::Ipv6 => self.ipv6_port,
        }
    }
}

#[derive(Debug)]
pub struct HostGatherResult {
    pub candidates: Vec<NativeCandidate>,
    pub diagnostics: Vec<InterfaceCandidateDiagnostic>,
}

/// Why an address of an interface is no candidate, if it is none. `seen` holds the addresses
/// that already were accepted.
pub open spec fn address_rejection(
    interface: HostInterface,
    address: IpAddress,
    options: HostGatherOptions,
    seen: Seq<IpAddress>,
) -> Option<Seq<char>> {
    if !interface.is_up || !interface.is_running {
        Some("interface-disconnected"@)
    } else if (interface.is_loopback || address.loopback()) && !options.allow_loopback_test {
        Some("loopback-filtered"@)
    } else if address.unspecified() || address.multicast() {
        Some("address-invalid"@)
    } else if address.link_local_v6() {
        Some("ipv6-link-local-scope-not-supported"@)
    } else if interface.vpn_like() && !options.allow_vpn {
        Some("vpn-interface-disabled"@)
    } else if interface.virtual_like() && !interface.vpn_like() && !options.allow_virtual {
        Some("virtual-interface-disabled"@)
    } else if options.port_for(NativeAddressFamily::of(address)) is None {
        Some("address-family-socket-unavailable"@)
    } else if seen.contains(address) {
        Some("duplicate-address"@)
    } else {
        None
    }
}

/// The report on an address of an interface, or on an interface without addresses.
pub open spec fn report(
    interface: HostInterface,
    address: Option<IpAddress>,
    rejection: Option<Seq<char>>,
) -> DiagnosticFacts {
    DiagnosticFacts {
        interface_name: interface.shown_name(),
        interface_identifier: interface.identifier(),
        interface_type: interface.kind_name@,
        local_ip: address,
        address_family: match address {
            Some(ip) => Some(NativeAddressFamily::of(ip)),
            None => None,
        },
        accepted: rejection is None,
        rejection_reason: rejection,
        is_up: interface.is_up,
        is_running: interface.is_running,
        is_physical: interface.is_physical,
        is_vpn_like: interface.vpn_like(),
    }
}

/// The candidate that an accepted address becomes.
pub open spec fn host_candidate(
    interface: HostInterface,
    address: IpAddress,
    options: HostGatherOptions,
) -> CandidateFacts {
    let family = NativeAddressFamily::of(address);
    let candidate_type = match family {
        NativeAddressFamily::Ipv4 => NativeCandidateType::Host,
        NativeAddressFamily::Ipv6 => NativeCandidateType::Ipv6,
    };
    candidate_of(
        candidate_type,
        address,
        options.port_for(family)->Some_0,
        interface.identifier(),
        priority_of(candidate_type, interface.is_physical, interface.vpn_like()),
        foundation_text(candidate_type, interface.identifier(), family),
        None,
        options.generation,
        options.expires_unix_ms,
    )
}

/// What was gathered so far.
pub struct Gathering {
    pub seen: Seq<IpAddress>,
    pub diagnostics: Seq<DiagnosticFacts>,
    pub candidates: Seq<CandidateFacts>,
}

/// What is gathered once the first `n` addresses of an interface were looked at.
pub open spec fn after_addresses(
    start: Gathering,
    interface: HostInterface,
    options: HostGatherOptions,
    n: nat,
) -> Gathering
    decreases n,
{
    if n == 0 {
        start
    } else {
        let before = after_addresses(start, interface, options, (n - 1) as nat);
        let address = interface.addresses@[n - 1];
        let rejection = address_rejection(interface, address, options, before.seen);
        let candidate = host_candidate(interface, address, options);
        Gathering {
            seen: if rejection is None {
                before.seen.push(address)
            } else {
                before.seen
            },
            diagnostics: before.diagnostics.push(report(interface, Some(address), rejection)),
            candidates: if rejection is None && birth_defect(candidate) is None {
                before.candidates.push(candidate)
            } else {
                before.candidates
            },
        }
    }
}

/// What is gathered once an interface was looked at.
pub open spec fn after_interface(
    start: Gathering,
    interface: HostInterface,
    options: HostGatherOptions,
) -> Gathering {
    if interface.addresses@.len() == 0 {
        Gathering {
            diagnostics: start.diagnostics.push(
                report(interface, None, Some("interface-has-no-address"@)),
            ),
            ..start
        }
    } else {
        after_addresses(start, interface, options, interface.addresses@.len())
    }
}

/// What is gathered once the first `n` interfaces were looked at.
pub open spec fn gathered(
    interfaces: Seq<HostInterface>,
    options: HostGatherOptions,
    n: nat,
) -> Gathering
    decreases n,
{
    if n == 0 {
        Gathering { seen: Seq::empty(), diagnostics: Seq::empty(), candidates: Seq::empty() }
    } else {
        after_interface(gathered(interfaces, options, (n - 1) as nat), interfaces[n - 1], options)
    }
}

/// The best candidates of a list, as many as a set may hold.
pub open spec fn best_candidates(candidates: Seq<CandidateFacts>) -> Seq<CandidateFacts> {
    let sorted = in_order::<NativeCandidate>(candidates);
    if sorted.len() > MAX_NATIVE_CANDIDATES {
        sorted.take(MAX_NATIVE_CANDIDATES as int)
    } else {
        sorted
    }
}

fn holds_ip(seen: &Vec<IpAddress>, address: &IpAddress) -> (found: bool)
    ensures
        found == seen@.contains(*address),
{
    let mut index: usize = 0;
    while index < seen.len()
        invariant
            index <= seen.len(),
            forall|i: int| 0 <= i < index ==> seen@[i] != *address,
        decreases seen.len() - index,
    {
        if same_ip(&seen[index], address) {
            return true;
        }
        index += 1;
    }
    false
}

fn reject_address(
    interface: &HostInterface,
    address: &IpAddress,
    options: &HostGatherOptions,
    seen: &Vec<IpAddress>,
    vpn_like: bool,
) -> (reason: Option<&'static str>)
    requires
        vpn_like == interface.vpn_like(),
    ensures
        match reason {
            Some(text) => address_rejection(*interface, *address, *options, seen@) == Some(text@),
            None => address_rejection(*interface, *address, *options, seen@) is None,
        },
{
    let port: Option<u16> = match NativeAddressFamily::for_ip(*address) {
        NativeAddressFamily::Ipv4 => options.ipv4_port,
        NativeAddressFamily::Ipv6 => options.ipv6_port,
    };
    if !interface.is_up || !interface.is_running {
        Some("interface-disconnected")
    } else if (interface.is_loopback || address.is_loopback()) && !options.allow_loopback_test {
        Some("loopback-filtered")
    } else if address.is_unspecified() || address.is_multicast() {
        Some("address-invalid")
    } else if address.is_link_local_v6() {
        Some("ipv6-link-local-scope-not-supported")
    } else if vpn_like && !options.allow_vpn {
        Some("vpn-interface-disabled")
    } else if interface.looks_virtual() && !vpn_like && !options.allow_virtual {
        Some("virtual-interface-disabled")
    } else if port.is_none() {
        Some("address-family-socket-unavailable")
    } else if holds_ip(seen, address) {
        Some("duplicate-address")
    } else {
        None
    }
}

fn diagnose(
    interface: &HostInterface,
    identifier: &str,
    vpn_like: bool,
    address: Option<IpAddress>,
    rejection: Option<&'static str>,
) -> (diagnostic: InterfaceCandidateDiagnostic)
    requires
        identifier@ == interface.identifier(),
        vpn_like == interface.vpn_like(),
    ensures
        diagnostic@ == report(
            *interface,
            address,
            match rejection {
                Some(text) => Some(text@),
                None => None,
            },
        ),
{
    InterfaceCandidateDiagnostic {
        interface_name: match &interface.friendly_name {
            Some(name) => name.clone(),
            None => interface.name.clone(),
        },
        interface_identifier: identifier.to_owned(),
        interface_type: interface.kind_name.clone(),
        local_ip: address,
        address_family: match address {
            Some(ip) => Some(NativeAddressFamily::for_ip(ip)),
            None => None,
        },
        accepted: rejection.is_none(),
        rejection_reason: match rejection {
            Some(text) => Some(text.to_owned()),
            None => None,
        },
        is_up: interface.is_up,
        is_running: interface.is_running,
        is_physical: interface.is_physical,
        is_vpn_like: vpn_like,
    }
}

/// Whether the vectors hold what was gathered.
spec fn holds_gathering(
    result: HostGatherResult,
    seen: Vec<IpAddress>,
    gathering: Gathering,
) -> bool {
    &&& seen@ == gathering.seen
    &&& views(result.diagnostics@) == gathering.diagnostics
    &&& views(result.candidates@) == gathering.candidates
}

fn gather_address(
    interface: &HostInterface,
    identifier: &str,
    vpn_like: bool,
    at: usize,
    options: &HostGatherOptions,
    result: &mut HostGatherResult,
    seen: &mut Vec<IpAddress>,
    Ghost(start): Ghost<Gathering>,
)
    requires
        at < interface.addresses@.len(),
        identifier@ == interface.identifier(),
        vpn_like == interface.vpn_like(),
        holds_gathering(
            *old(result),
            *old(seen),
            after_addresses(start, *interface, *options, at as nat),
        ),
    ensures
        holds_gathering(
            *final(result),
            *final(seen),
            after_addresses(start, *interface, *options, (at + 1) as nat),
        ),
{
    let address: IpAddress = interface.addresses[at];
    let family = NativeAddressFamily::for_ip(address);
    let rejection: Option<&'static str> = reject_address(
        interface,
        &address,
        options,
        seen,
        vpn_like,
    );
    let ghost old_diagnostics = views(result.diagnostics@);
    let ghost old_candidates = views(result.candidates@);
    result.diagnostics.push(diagnose(interface, identifier, vpn_like, Some(address), rejection));
    let ghost last = report(
        *interface,
        Some(address),
        address_rejection(*interface, address, *options, seen@),
    );
    assert(views(result.diagnostics@) =~= old_diagnostics.push(last));
    if rejection.is_some() {
        return;
    }
    seen.push(address);
    let port: u16 = match family {
        NativeAddressFamily::Ipv4 => match options.ipv4_port {
            Some(port) => port,
            None => 0,
        },
        NativeAddressFamily::Ipv6 => match options.ipv6_port {
            Some(port) => port,
            None => 0,
        },
    };
    let candidate_type = if family == NativeAddressFamily::Ipv6 {
        NativeCandidateType::Ipv6
    } else {
        NativeCandidateType::Host
    };
    match NativeCandidate::new(
        candidate_type,
        address,
        port,
        identifier.to_owned(),
        candidate_priority(candidate_type, interface.is_physical, vpn_like),
        foundation(candidate_type, identifier, family),
        None,
        options.generation,
        options.expires_unix_ms,
    ) {
        Ok(candidate) => {
            result.candidates.push(candidate);
            assert(views(result.candidates@) =~= old_candidates.push(candidate@));
        },
        Err(_) => {},
    }
}

fn gather_interface(
    interface: &HostInterface,
    options: &HostGatherOptions,
    result: &mut HostGatherResult,
    seen: &mut Vec<IpAddress>,
    Ghost(start): Ghost<Gathering>,
)
    requires
        holds_gathering(*old(result), *old(seen), start),
    ensures
        holds_gathering(*final(result), *final(seen), after_interface(start, *interface, *options)),
{
    let identifier: String = joined("if-", decimal(interface.index as u64).as_str());
    let vpn_like: bool = interface.looks_like_vpn();
    if interface.addresses.len() == 0 {
        let ghost before = views(result.diagnostics@);
        result.diagnostics.push(
            diagnose(
                interface,
                identifier.as_str(),
                vpn_like,
                None,
                Some("interface-has-no-address"),
            ),
        );
        assert(views(result.diagnostics@) =~= before.push(
            report(*interface, None, Some("interface-has-no-address"@)),
        ));
        return;
    }
    let mut at: usize = 0;
    while at < interface.addresses.len()
        invariant
            at <= interface.addresses@.len(),
            identifier@ == interface.identifier(),
            vpn_like == interface.vpn_like(),
            holds_gathering(
                *result,
                *seen,
                after_addresses(start, *interface, *options, at as nat),
            ),
        decreases interface.addresses@.len() - at,
    {
        gather_address(
            interface,
            identifier.as_str(),
            vpn_like,
            at,
            options,
            result,
            seen,
            Ghost(start),
        );
        at += 1;
    }
}

/// Turns the addresses of the network interfaces into candidates, and reports on each address
/// why it became one or not.
pub fn gather_host_candidates(interfaces: &[HostInterface], options: HostGatherOptions) -> (result:
    HostGatherResult)
    ensures
        ({
            let all = gathered(interfaces@, options, interfaces@.len());
            &&& views(result.diagnostics@) == all.diagnostics
            &&& views(result.candidates@) == best_candidates(all.candidates)
        }),
{
    let mut result = HostGatherResult { candidates: Vec::new(), diagnostics: Vec::new() };
    let mut seen: Vec<IpAddress> = Vec::new();
    let mut index: usize = 0;
    proof {
        let none = gathered(interfaces@, options, 0);
        assert(views(result.diagnostics@) =~= none.diagnostics);
        assert(views(result.candidates@) =~= none.candidates);
        assert(seen@ =~= none.seen);
    }
    while index < interfaces.len()
        invariant
            index <= interfaces.len(),
            holds_gathering(result, seen, gathered(interfaces@, options, index as nat)),
        decreases interfaces.len() - index,
    {
        let ghost start = gathered(interfaces@, options, index as nat);
        gather_interface(&interfaces[index], &options, &mut result, &mut seen, Ghost(start));
        index += 1;
    }
    let HostGatherResult { candidates: mut candidates, diagnostics } = result;
    let ghost found = views(candidates@);
    sort(&mut candidates);
    let ghost sorted = views(candidates@);
    candidates.truncate(MAX_NATIVE_CANDIDATES);
    proof {
        if sorted.len() > MAX_NATIVE_CANDIDATES {
            assert(views(candidates@) =~= sorted.take(MAX_NATIVE_CANDIDATES as int));
        } else {
            assert(views(candidates@) =~= sorted);
        }
    }
    HostGatherResult { candidates, diagnostics }
}

/// An accepted set holds no more candidates than it may, each of them is valid, and no two
/// share an identifier or an endpoint.
pub proof fn law_accepted_set_has_no_collisions(
    candidates: Seq<CandidateFacts>,
    allow_loopback: bool,
    now: u64,
)
    requires
        batch_defect(candidates, allow_loopback, now) is None,
    ensures
        candidates.len() <= MAX_NATIVE_CANDIDATES,
        forall|i: int|
            0 <= i < candidates.len() ==> (#[trigger] candidates[i]).defect(
                allow_loopback,
                now,
            ) is None,
        forall|i: int, j: int|
            0 <= i < j < candidates.len() ==> !collide(
                #[trigger] candidates[i],
                #[trigger] candidates[j],
            ),
{
    lemma_set_defect(candidates, allow_loopback, now, 0);
}

proof fn lemma_set_defect(
    candidates: Seq<CandidateFacts>,
    allow_loopback: bool,
    now: u64,
    at: nat,
)
    requires
        set_defect(candidates, allow_loopback, now, at) is None,
    ensures
        forall|i: int|
            at <= i < candidates.len() ==> (#[trigger] candidates[i]).defect(
                allow_loopback,
                now,
            ) is None,
        forall|i: int, j: int|
            0 <= i < j < candidates.len() && at <= j ==> !collide(
                #[trigger] candidates[i],
                #[trigger] candidates[j],
            ),
    decreases candidates.len() - at,
{
    if at < candidates.len() {
        lemma_set_defect(candidates, allow_loopback, now, at + 1);
    }
}

/// A policy that shows only public candidates hides every host candidate, and every IPv6 candidate
/// whose address is private or local to a network.
pub proof fn law_public_only_hides_private_hosts(
    candidates: Seq<CandidateFacts>,
    expected_same_lan: bool,
)
    ensures
        ({
            let kept = candidates.filter(
                |candidate: CandidateFacts|
                    admitted(candidate, CandidatePrivacyPolicy::PublicOnly, expected_same_lan),
            );
            forall|i: int|
                0 <= i < kept.len() ==> !((#[trigger] kept[i]).candidate_type is Host) && (
                kept[i].candidate_type is Ipv6 ==> !kept[i].address.private_or_local())
        }),
{
    let allowed = |candidate: CandidateFacts|
        admitted(candidate, CandidatePrivacyPolicy::PublicOnly, expected_same_lan);
    candidates.filter_lemma(allowed);
}

/// What is digested of a set of candidates with different identifiers does not depend on their
/// order.
pub proof fn law_set_payload_forgets_order(
    left: Seq<CandidateFacts>,
    right: Seq<CandidateFacts>,
)
    requires
        left.to_multiset() == right.to_multiset(),
        forall|i: int, j: int|
            0 <= i < j < left.len() ==> (#[trigger] left[i]).candidate_id != (
            #[trigger] left[j]).candidate_id,
    ensures
        set_payload(left) == set_payload(right),
{
    broadcast use vstd::seq_lib::group_to_multiset_ensures;

    assert(left.len() == left.to_multiset().len());
    assert(right.len() == right.to_multiset().len());
    assert(crate::ordering::ranks_differ::<ById>(left)) by {
        assert forall|i: int, j: int| 0 <= i < j < left.len() implies ById::precedes(
            #[trigger] left[i],
            #[trigger] left[j],
        ) || ById::precedes(left[j], left[i]) by {
            lemma_text_order(left[i].candidate_id, left[j].candidate_id, left[j].candidate_id);
        }
    }
    crate::ordering::lemma_order_is_forgotten::<ById>(left, right);
}

proof fn lemma_peel<A>(a: Seq<A>, x: Seq<A>, b: Seq<A>, y: Seq<A>)
    requires
        a + x == b + y,
        a.len() == b.len(),
    ensures
        a == b,
        x == y,
{
    assert((a + x).take(a.len() as int) =~= a);
    assert((b + y).take(b.len() as int) =~= b);
    assert((a + x).skip(a.len() as int) =~= x);
    assert((b + y).skip(b.len() as int) =~= y);
}

proof fn lemma_peel_number(left: nat, x: Seq<u8>, right: nat, y: Seq<u8>, n: nat)
    requires
        be_bytes(left, n) + x == be_bytes(right, n) + y,
        left < crate::bytes::byte_capacity(n),
        right < crate::bytes::byte_capacity(n),
    ensures
        left == right,
        x == y,
{
    crate::bytes::lemma_be_bytes_len(left, n);
    crate::bytes::lemma_be_bytes_len(right, n);
    lemma_peel(be_bytes(left, n), x, be_bytes(right, n), y);
    crate::bytes::lemma_be_value_of_be_bytes(left, n);
    crate::bytes::lemma_be_value_of_be_bytes(right, n);
}

proof fn lemma_peel_text(left: Seq<char>, x: Seq<u8>, right: Seq<char>, y: Seq<u8>)
    requires
        text_bytes(left) + x == text_bytes(right) + y,
        encode_utf8(left).len() < 0x1_0000,
        encode_utf8(right).len() < 0x1_0000,
    ensures
        left == right,
        x == y,
{
    crate::bytes::lemma_capacities();
    let a = encode_utf8(left);
    let b = encode_utf8(right);
    assert(text_bytes(left) + x =~= be_bytes(a.len(), 2) + (a + x));
    assert(text_bytes(right) + y =~= be_bytes(b.len(), 2) + (b + y));
    lemma_peel_number(a.len(), a + x, b.len(), b + y, 2);
    lemma_peel(a, x, b, y);
    vstd::utf8::encode_utf8_decode_utf8(left);
    vstd::utf8::encode_utf8_decode_utf8(right);
}

proof fn lemma_peel_ip(left: IpAddress, x: Seq<u8>, right: IpAddress, y: Seq<u8>)
    requires
        ip_bytes(left) + x == ip_bytes(right) + y,
    ensures
        left == right,
        x == y,
{
    assert((ip_bytes(left) + x)[0] == NativeAddressFamily::of(left).number());
    assert((ip_bytes(right) + y)[0] == NativeAddressFamily::of(right).number());
    lemma_peel(ip_bytes(left), x, ip_bytes(right), y);
    assert(ip_bytes(left).skip(1) =~= left.octets());
    assert(ip_bytes(right).skip(1) =~= right.octets());
    match (left, right) {
        (IpAddress::V4(a), IpAddress::V4(b)) => {
            assert(a =~= b);
        },
        (IpAddress::V6(a), IpAddress::V6(b)) => {
            assert(a =~= b);
        },
        _ => {},
    }
}

proof fn lemma_peel_related(
    left: Option<SocketAddress>,
    x: Seq<u8>,
    right: Option<SocketAddress>,
    y: Seq<u8>,
)
    requires
        related_bytes(left) + x == related_bytes(right) + y,
    ensures
        left is Some == right is Some,
        left is Some ==> left->Some_0.ip == right->Some_0.ip && left->Some_0.port
            == right->Some_0.port,
        x == y,
{
    assert((related_bytes(left) + x)[0] == if left is Some {
        1u8
    } else {
        0u8
    });
    assert((related_bytes(right) + y)[0] == if right is Some {
        1u8
    } else {
        0u8
    });
    match (left, right) {
        (Some(a), Some(b)) => {
            crate::bytes::lemma_capacities();
            let p = be_bytes(a.port as nat, 2) + x;
            let q = be_bytes(b.port as nat, 2) + y;
            assert(related_bytes(left) + x =~= seq![1u8] + (ip_bytes(a.ip) + p));
            assert(related_bytes(right) + y =~= seq![1u8] + (ip_bytes(b.ip) + q));
            lemma_peel(seq![1u8], ip_bytes(a.ip) + p, seq![1u8], ip_bytes(b.ip) + q);
            lemma_peel_ip(a.ip, p, b.ip, q);
            lemma_peel_number(a.port as nat, x, b.port as nat, y, 2);
        },
        (None, None) => {
            lemma_peel(seq![0u8], x, seq![0u8], y);
        },
        _ => {},
    }
}

/// The canonical form of valid candidates says everything that they say: candidates with the
/// same form have the same fields. Only the flow and scope of a related address, which a
/// candidate never uses, do not count.
pub proof fn law_canonical_form_determines_candidate(
    left: CandidateFacts,
    right: CandidateFacts,
    allow_loopback: bool,
    now: u64,
)
    requires
        left.defect(allow_loopback, now) is None,
        right.defect(allow_loopback, now) is None,
        left.canonical() == right.canonical(),
    ensures
        left.candidate_id == right.candidate_id,
        left.candidate_type == right.candidate_type,
        left.socket() == right.socket(),
        left.address_family == right.address_family,
        left.network_identifier == right.network_identifier,
        left.priority == right.priority,
        left.foundation == right.foundation,
        left.related_address is Some == right.related_address is Some,
        left.related_address is Some ==> left.related_address->Some_0.ip
            == right.related_address->Some_0.ip && left.related_address->Some_0.port
            == right.related_address->Some_0.port,
        left.generation == right.generation,
        left.expires_unix_ms == right.expires_unix_ms,
{
    crate::bytes::lemma_capacities();
    lemma_canonical_parts(left);
    lemma_canonical_parts(right);
    lemma_peel_number(
        left.version as nat,
        after_version(left),
        right.version as nat,
        after_version(right),
        2,
    );
    let codes = seq![type_number(left.candidate_type), 1u8];
    let other_codes = seq![type_number(right.candidate_type), 1u8];
    lemma_peel(codes, after_type(left), other_codes, after_type(right));
    assert(codes[0] == other_codes[0]);
    lemma_peel_ip(left.address, after_address(left), right.address, after_address(right));
    lemma_peel_number(
        left.port as nat,
        after_port(left),
        right.port as nat,
        after_port(right),
        2,
    );
    lemma_peel(
        seq![left.address_family.number()],
        after_family(left),
        seq![right.address_family.number()],
        after_family(right),
    );
    lemma_peel_text(
        left.network_identifier,
        after_network(left),
        right.network_identifier,
        after_network(right),
    );
    lemma_peel_number(
        left.priority as nat,
        after_priority(left),
        right.priority as nat,
        after_priority(right),
        4,
    );
    lemma_peel_text(
        left.foundation,
        after_foundation(left),
        right.foundation,
        after_foundation(right),
    );
    lemma_peel_related(
        left.related_address,
        after_related(left),
        right.related_address,
        after_related(right),
    );
    lemma_peel_number(
        left.generation as nat,
        be_bytes(left.expires_unix_ms as nat, 8),
        right.generation as nat,
        be_bytes(right.expires_unix_ms as nat, 8),
        4,
    );
    crate::bytes::lemma_be_value_of_be_bytes(left.expires_unix_ms as nat, 8);
    crate::bytes::lemma_be_value_of_be_bytes(right.expires_unix_ms as nat, 8);
}

spec fn after_related(facts: CandidateFacts) -> Seq<u8> {
    be_bytes(facts.generation as nat, 4) + be_bytes(facts.expires_unix_ms as nat, 8)
}

spec fn after_foundation(facts: CandidateFacts) -> Seq<u8> {
    related_bytes(facts.related_address) + after_related(facts)
}

spec fn after_priority(facts: CandidateFacts) -> Seq<u8> {
    text_bytes(facts.foundation) + after_foundation(facts)
}

spec fn after_network(facts: CandidateFacts) -> Seq<u8> {
    be_bytes(facts.priority as nat, 4) + after_priority(facts)
}

spec fn after_family(facts: CandidateFacts) -> Seq<u8> {
    text_bytes(facts.network_identifier) + after_network(facts)
}

spec fn after_port(facts: CandidateFacts) -> Seq<u8> {
    seq![facts.address_family.number()] + after_family(facts)
}

spec fn after_address(facts: CandidateFacts) -> Seq<u8> {
    be_bytes(facts.port as nat, 2) + after_port(facts)
}

spec fn after_type(facts: CandidateFacts) -> Seq<u8> {
    ip_bytes(facts.address) + after_address(facts)
}

spec fn after_version(facts: CandidateFacts) -> Seq<u8> {
    seq![type_number(facts.candidate_type), 1u8] + after_type(facts)
}

proof fn lemma_regroup(first: Seq<u8>, second: Seq<u8>, third: Seq<u8>)
    ensures
        first + second + third == first + (second + third),
{
    assert(first + second + third =~= first + (second + third));
}

proof fn lemma_canonical_parts(facts: CandidateFacts)
    ensures
        facts.canonical() == be_bytes(facts.version as nat, 2) + after_version(facts),
{
    let version = be_bytes(facts.version as nat, 2);
    let kind = version + seq![type_number(facts.candidate_type), 1u8];
    let address = kind + ip_bytes(facts.address);
    let port = address + be_bytes(facts.port as nat, 2);
    let family = port + seq![facts.address_family.number()];
    let network = family + text_bytes(facts.network_identifier);
    let priority = network + be_bytes(facts.priority as nat, 4);
    let foundation = priority + text_bytes(facts.foundation);
    let related = foundation + related_bytes(facts.related_address);
    lemma_regroup(
        related,
        be_bytes(facts.generation as nat, 4),
        be_bytes(facts.expires_unix_ms as nat, 8),
    );
    lemma_regroup(foundation, related_bytes(facts.related_address), after_related(facts));
    lemma_regroup(priority, text_bytes(facts.foundation), after_foundation(facts));
    lemma_regroup(network, be_bytes(facts.priority as nat, 4), after_priority(facts));
    lemma_regroup(family, text_bytes(facts.network_identifier), after_network(facts));
    lemma_regroup(port, seq![facts.address_family.number()], after_family(facts));
    lemma_regroup(address, be_bytes(facts.port as nat, 2), after_port(facts));
    lemma_regroup(kind, ip_bytes(facts.address), after_address(facts));
    lemma_regroup(version, seq![type_number(facts.candidate_type), 1u8], after_type(facts));
}

} // verus!
