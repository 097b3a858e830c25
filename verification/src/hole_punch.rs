//! Authenticated probing of candidate pairs: the packets, what each end learns from them, and
//! which pair is chosen. Instants and durations are counted in nanoseconds.

use crate::address::{same_socket, SocketAddress};
use crate::authorization::saturating_sum;
use crate::bytes::{
    append, append_u16, append_u64, be_bytes, be_value, bytes_equal, copy_of, read_16, read_32,
    read_u16, read_u64,
};
use crate::candidates::NativeAddressFamily;
use crate::crypto::{constant_time_equal, hmac_sha256, hmac_sha256_tag};
use crate::encoding::{hex_digit, hex_text};
use crate::ordering::{is_text_before, lemma_text_order, placed, text_before, views, Ranked};
use crate::path_selection::{NativeCandidatePair, PairFacts};
use crate::registry::{Registry, RegistryKey};
use crate::signaling::{NativeConnectivityFailure, NativeDeviceRole};
use crate::text::{chars_of, same_text};
use vstd::prelude::*;

verus! {

/// The letters `FQPRB001`.
pub const PROBE_MAGIC: [u8; 8] = [0x46, 0x51, 0x50, 0x52, 0x42, 0x30, 0x30, 0x31];

pub const PROBE_VERSION: u16 = 1;

pub const PROBE_PACKET_BYTES: usize = 132;

pub const MAX_ACTIVE_PAIRS: usize = 16;

pub const MAX_REPLAY_ENTRIES: usize = 4096;

pub const MAX_PROBES_PER_SECOND: u32 = 64;

#[derive(Debug, Clone, Copy, PartialEq, Eq, Structural)]
pub enum ProbeKind {
    Request,
    Response,
    Confirm,
    ConfirmAck,
}

impl ProbeKind {
    /// The number of the kind on the wire.
    pub open spec fn number(self) -> u8 {
        match self {
            ProbeKind::Request => 1,
            ProbeKind::Response => 2,
            ProbeKind::Confirm => 3,
            ProbeKind::ConfirmAck => 4,
        }
    }

    pub fn code(self) -> (code: u8)
        ensures
            code == self.number(),
    {
        match self {
            ProbeKind::Request => 1,
            ProbeKind::Response => 2,
            ProbeKind::Confirm => 3,
            ProbeKind::ConfirmAck => 4,
        }
    }

    pub fn decode(value: u8) -> (result: Result<Self, String>)
        ensures
            match result {
                Ok(kind) => kind.number() == value,
                Err(error) => !(1 <= value <= 4) && error@ == "native-probe-kind-invalid"@,
            },
    {
        match value {
            1 => Ok(ProbeKind::Request),
            2 => Ok(ProbeKind::Response),
            3 => Ok(ProbeKind::Confirm),
            4 => Ok(ProbeKind::ConfirmAck),
            _ => Err("native-probe-kind-invalid".to_owned()),
        }
    }
}

#[derive(Debug, Clone, Copy)]
pub struct ProbePacket {
    pub kind: ProbeKind,
    pub role: NativeDeviceRole,
    pub connectivity_session_id: [u8; 16],
    pub transfer_id: [u8; 16],
    pub pair_id: [u8; 16],
    pub sequence: u64,
    pub sender_nonce: [u8; 16],
    pub sent_unix_ms: u64,
    pub expires_unix_ms: u64,
    pub tag: [u8; 32],
}

impl ProbePacket {
    /// What the tag authenticates: everything before it.
    pub open spec fn content(self) -> Seq<u8> {
        PROBE_MAGIC@ + be_bytes(PROBE_VERSION as nat, 2) + seq![
            self.kind.number(),
            self.role.number(),
        ] + self.connectivity_session_id@ + self.transfer_id@ + self.pair_id@ + be_bytes(
            self.sequence as nat,
            8,
        ) + self.sender_nonce@ + be_bytes(self.sent_unix_ms as nat, 8) + be_bytes(
            self.expires_unix_ms as nat,
            8,
        )
    }

    /// The packet on the wire.
    pub open spec fn wire(self) -> Seq<u8> {
        self.content() + self.tag@
    }

    /// Whether the tag was made with the key.
    pub open spec fn authentic(self, key: Seq<u8>) -> bool {
        self.tag == hmac_sha256_tag(key, self.content())
    }

    fn content_bytes(&self) -> (bytes: Vec<u8>)
        ensures
            bytes@ == self.content(),
    {
        let mut bytes: Vec<u8> = copy_of(&PROBE_MAGIC);
        append_u16(&mut bytes, PROBE_VERSION);
        let codes: [u8; 2] = [self.kind.code(), self.role.code()];
        append(&mut bytes, &codes);
        append(&mut bytes, &self.connectivity_session_id);
        append(&mut bytes, &self.transfer_id);
        append(&mut bytes, &self.pair_id);
        append_u64(&mut bytes, self.sequence);
        append(&mut bytes, &self.sender_nonce);
        append_u64(&mut bytes, self.sent_unix_ms);
        append_u64(&mut bytes, self.expires_unix_ms);
        proof {
            assert(codes@ =~= seq![self.kind.number(), self.role.number()]);
            assert(bytes@ =~= self.content());
        }
        bytes
    }

    /// The tag that belongs to the packet under a key.
    pub fn compute_tag(&self, key: &[u8; 32]) -> (tag: [u8; 32])
        ensures
            tag == hmac_sha256_tag(key@, self.content()),
    {
        let bytes = self.content_bytes();
        hmac_sha256(key, bytes.as_slice())
    }

    /// A packet sent at `sent_unix_ms` with its tag.
    #[allow(clippy::too_many_arguments)]
    pub fn new(
        kind: ProbeKind,
        role: NativeDeviceRole,
        connectivity_session_id: [u8; 16],
        transfer_id: [u8; 16],
        pair_id: [u8; 16],
        sequence: u64,
        sender_nonce: [u8; 16],
        sent_unix_ms: u64,
        expires_unix_ms: u64,
        key: &[u8; 32],
    ) -> (packet: Self)
        ensures
            packet == packet_of(
                kind,
                role,
                connectivity_session_id,
                transfer_id,
                pair_id,
                sequence,
                sender_nonce,
                sent_unix_ms,
                expires_unix_ms,
                key@,
            ),
    {
        let mut packet = ProbePacket {
            kind,
            role,
            connectivity_session_id,
            transfer_id,
            pair_id,
            sequence,
            sender_nonce,
            sent_unix_ms,
            expires_unix_ms,
            tag: [0u8; 32],
        };
        packet.tag = packet.compute_tag(key);
        proof {
            let other = packet_of(
                kind,
                role,
                connectivity_session_id,
                transfer_id,
                pair_id,
                sequence,
                sender_nonce,
                sent_unix_ms,
                expires_unix_ms,
                key@,
            );
            assert(packet.content() == other.content());
        }
        packet
    }

    pub fn encode(&self) -> (bytes: [u8; PROBE_PACKET_BYTES])
        ensures
            bytes@ == self.wire(),
    {
        let mut wire = self.content_bytes();
        append(&mut wire, &self.tag);
        proof {
            lemma_wire_fields(*self);
        }
        let mut bytes: [u8; PROBE_PACKET_BYTES] = [0u8; PROBE_PACKET_BYTES];
        let mut index: usize = 0;
        while index < PROBE_PACKET_BYTES
            invariant
                index <= PROBE_PACKET_BYTES,
                wire@.len() == PROBE_PACKET_BYTES,
                forall|i: int| 0 <= i < index ==> bytes@[i] == wire@[i],
            decreases PROBE_PACKET_BYTES - index,
        {
            bytes[index] = wire[index];
            index += 1;
        }
        assert(bytes@ =~= wire@);
        bytes
    }

    /// Reads a packet and checks its tag.
    pub fn decode(bytes: &[u8], key: &[u8; 32]) -> (result: Result<Self, String>)
        ensures
            match result {
                Ok(packet) => packet.wire() == bytes@ && packet.authentic(key@),
                Err(error) => probe_defect(bytes@, key@) == Some(error@),
            },
            result is Ok == (probe_defect(bytes@, key@) is None),
    {
        if bytes.len() != PROBE_PACKET_BYTES {
            return Err("native-probe-packet-invalid".to_owned());
        }
        let magic: &[u8] = &bytes[0..8];
        if !bytes_equal(magic, &PROBE_MAGIC) {
            return Err("native-probe-packet-invalid".to_owned());
        }
        let version: u16 = read_u16(bytes, 8);
        if version != PROBE_VERSION {
            return Err("native-probe-version-invalid".to_owned());
        }
        let kind: ProbeKind = match ProbeKind::decode(bytes[10]) {
            Ok(kind) => kind,
            Err(error) => return Err(error),
        };
        let role: NativeDeviceRole = match NativeDeviceRole::decode_code(bytes[11]) {
            Some(role) => role,
            None => return Err("native-probe-role-invalid".to_owned()),
        };
        let packet = ProbePacket {
            kind,
            role,
            connectivity_session_id: read_16(bytes, 12),
            transfer_id: read_16(bytes, 28),
            pair_id: read_16(bytes, 44),
            sequence: read_u64(bytes, 60),
            sender_nonce: read_16(bytes, 68),
            sent_unix_ms: read_u64(bytes, 84),
            expires_unix_ms: read_u64(bytes, 92),
            tag: read_32(bytes, 100),
        };
        proof {
            crate::bytes::lemma_be_bytes_of_be_value(bytes@.subrange(8, 10));
            crate::bytes::lemma_be_bytes_of_be_value(bytes@.subrange(60, 68));
            crate::bytes::lemma_be_bytes_of_be_value(bytes@.subrange(84, 92));
            crate::bytes::lemma_be_bytes_of_be_value(bytes@.subrange(92, 100));
            assert(packet.content() =~= bytes@.take(100));
            assert(packet.wire() =~= bytes@);
        }
        let expected: [u8; 32] = packet.compute_tag(key);
        if !constant_time_equal(&packet.tag, &expected) {
            return Err("native-probe-authentication-failed".to_owned());
        }
        assert(packet.tag =~= expected);
        Ok(packet)
    }
}

/// Why bytes are no probe under a key, if they are none.
pub open spec fn probe_defect(bytes: Seq<u8>, key: Seq<u8>) -> Option<Seq<char>> {
    if bytes.len() != PROBE_PACKET_BYTES || bytes.subrange(0, 8) != PROBE_MAGIC@ {
        Some("native-probe-packet-invalid"@)
    } else if be_value(bytes.subrange(8, 10)) != PROBE_VERSION {
        Some("native-probe-version-invalid"@)
    } else if !(1 <= bytes[10] <= 4) {
        Some("native-probe-kind-invalid"@)
    } else if !(1 <= bytes[11] <= 2) {
        Some("native-probe-role-invalid"@)
    } else if hmac_sha256_tag(key, bytes.take(100))@ != bytes.skip(100) {
        Some("native-probe-authentication-failed"@)
    } else {
        None
    }
}

/// The packet with the given fields and its tag.
pub open spec fn packet_of(
    kind: ProbeKind,
    role: NativeDeviceRole,
    connectivity_session_id: [u8; 16],
    transfer_id: [u8; 16],
    pair_id: [u8; 16],
    sequence: u64,
    sender_nonce: [u8; 16],
    sent_unix_ms: u64,
    expires_unix_ms: u64,
    key: Seq<u8>,
) -> ProbePacket {
    let blank = ProbePacket {
        kind,
        role,
        connectivity_session_id,
        transfer_id,
        pair_id,
        sequence,
        sender_nonce,
        sent_unix_ms,
        expires_unix_ms,
        tag: arbitrary(),
    };
    ProbePacket { tag: hmac_sha256_tag(key, blank.content()), ..blank }
}

pub proof fn lemma_wire_fields(packet: ProbePacket)
    ensures
        packet.content().len() == 100,
        packet.wire().len() == PROBE_PACKET_BYTES,
        packet.wire().take(100) == packet.content(),
        packet.wire().skip(100) == packet.tag@,
        packet.wire().subrange(0, 8) == PROBE_MAGIC@,
        be_value(packet.wire().subrange(8, 10)) == PROBE_VERSION,
        packet.wire()[10] == packet.kind.number(),
        packet.wire()[11] == packet.role.number(),
        packet.wire().subrange(12, 28) == packet.connectivity_session_id@,
        packet.wire().subrange(28, 44) == packet.transfer_id@,
        packet.wire().subrange(44, 60) == packet.pair_id@,
        be_value(packet.wire().subrange(60, 68)) == packet.sequence,
        packet.wire().subrange(68, 84) == packet.sender_nonce@,
        be_value(packet.wire().subrange(84, 92)) == packet.sent_unix_ms,
        be_value(packet.wire().subrange(92, 100)) == packet.expires_unix_ms,
{
    let wire = packet.wire();
    crate::bytes::lemma_capacities();
    crate::bytes::lemma_be_bytes_len(PROBE_VERSION as nat, 2);
    crate::bytes::lemma_be_bytes_len(packet.sequence as nat, 8);
    crate::bytes::lemma_be_bytes_len(packet.sent_unix_ms as nat, 8);
    crate::bytes::lemma_be_bytes_len(packet.expires_unix_ms as nat, 8);
    crate::bytes::lemma_be_value_of_be_bytes(PROBE_VERSION as nat, 2);
    crate::bytes::lemma_be_value_of_be_bytes(packet.sequence as nat, 8);
    crate::bytes::lemma_be_value_of_be_bytes(packet.sent_unix_ms as nat, 8);
    crate::bytes::lemma_be_value_of_be_bytes(packet.expires_unix_ms as nat, 8);
    assert(packet.content().len() == 100);
    assert(wire.take(100) =~= packet.content());
    assert(wire.skip(100) =~= packet.tag@);
    assert(wire.subrange(0, 8) =~= PROBE_MAGIC@);
    assert(wire.subrange(8, 10) =~= be_bytes(PROBE_VERSION as nat, 2));
    assert(wire.subrange(12, 28) =~= packet.connectivity_session_id@);
    assert(wire.subrange(28, 44) =~= packet.transfer_id@);
    assert(wire.subrange(44, 60) =~= packet.pair_id@);
    assert(wire.subrange(60, 68) =~= be_bytes(packet.sequence as nat, 8));
    assert(wire.subrange(68, 84) =~= packet.sender_nonce@);
    assert(wire.subrange(84, 92) =~= be_bytes(packet.sent_unix_ms as nat, 8));
    assert(wire.subrange(92, 100) =~= be_bytes(packet.expires_unix_ms as nat, 8));
}

/// A packet is decoded from its bytes exactly when its tag was made with the same key.
pub proof fn law_probe_round_trip(packet: ProbePacket, key: Seq<u8>)
    ensures
        probe_defect(packet.wire(), key) is None == packet.authentic(key),
        !packet.authentic(key) ==> probe_defect(packet.wire(), key) == Some(
            "native-probe-authentication-failed"@,
        ),
{
    lemma_wire_fields(packet);
    if hmac_sha256_tag(key, packet.content())@ == packet.tag@ {
        assert(hmac_sha256_tag(key, packet.content()) =~= packet.tag);
    }
}

/// The bytes of a packet determine it.
pub proof fn law_probe_bytes_determine_packet(left: ProbePacket, right: ProbePacket)
    requires
        left.wire() == right.wire(),
    ensures
        left == right,
{
    lemma_wire_fields(left);
    lemma_wire_fields(right);
    assert(left.connectivity_session_id =~= right.connectivity_session_id);
    assert(left.transfer_id =~= right.transfer_id);
    assert(left.pair_id =~= right.pair_id);
    assert(left.sender_nonce =~= right.sender_nonce);
    assert(left.tag =~= right.tag);
}

/// Every packet, request or answer, takes the same number of bytes.
pub proof fn law_probes_have_one_size(left: ProbePacket, right: ProbePacket)
    ensures
        left.wire().len() == right.wire().len(),
{
    lemma_wire_fields(left);
    lemma_wire_fields(right);
}

/// What makes a probe a replay of another: its role, kind, sequence and nonce, the nonce as two
/// numbers.
#[derive(Debug, Clone, Copy, PartialEq, Eq, Structural)]
pub struct ReplayKey {
    pub role: u8,
    pub kind: u8,
    pub sequence: u64,
    pub nonce_high: u64,
    pub nonce_low: u64,
}

impl View for ReplayKey {
    type V = ReplayKey;

    open spec fn view(&self) -> ReplayKey {
        *self
    }
}

impl Ranked for ReplayKey {
    open spec fn precedes(left: ReplayKey, right: ReplayKey) -> bool {
        if left.role != right.role {
            left.role < right.role
        } else if left.kind != right.kind {
            left.kind < right.kind
        } else if left.sequence != right.sequence {
            left.sequence < right.sequence
        } else if left.nonce_high != right.nonce_high {
            left.nonce_high < right.nonce_high
        } else {
            left.nonce_low < right.nonce_low
        }
    }

    proof fn lemma_order(a: ReplayKey, b: ReplayKey, c: ReplayKey) {
    }

    fn stands_before(&self, other: &Self) -> (result: bool) {
        if self.role != other.role {
            self.role < other.role
        } else if self.kind != other.kind {
            self.kind < other.kind
        } else if self.sequence != other.sequence {
            self.sequence < other.sequence
        } else if self.nonce_high != other.nonce_high {
            self.nonce_high < other.nonce_high
        } else {
            self.nonce_low < other.nonce_low
        }
    }
}

/// What identifies a packet among the replayed ones.
pub open spec fn replay_key(packet: ProbePacket) -> ReplayKey {
    ReplayKey {
        role: packet.role.number(),
        kind: packet.kind.number(),
        sequence: packet.sequence,
        nonce_high: be_value(packet.sender_nonce@.subrange(0, 8)) as u64,
        nonce_low: be_value(packet.sender_nonce@.subrange(8, 16)) as u64,
    }
}

/// The probes that were accepted, smallest first.
pub struct ProbeReplaySet {
    entries: Vec<ReplayKey>,
}

impl View for ProbeReplaySet {
    type V = Seq<ReplayKey>;

    closed spec fn view(&self) -> Seq<ReplayKey> {
        self.entries@
    }
}

/// Whether the entries stand in strict order.
pub open spec fn strictly_ordered(entries: Seq<ReplayKey>) -> bool {
    forall|i: int, j: int|
        0 <= i < j < entries.len() ==> ReplayKey::precedes(
            #[trigger] entries[i],
            #[trigger] entries[j],
        )
}

impl ProbeReplaySet {
    /// The entries stand in order, none twice, and are no more than the set may hold.
    pub open spec fn wf(self) -> bool {
        &&& strictly_ordered(self@)
        &&& self@.len() <= MAX_REPLAY_ENTRIES
    }

    pub fn new() -> (set: Self)
        ensures
            set.wf(),
            set@ == Seq::<ReplayKey>::empty(),
    {
        ProbeReplaySet { entries: Vec::new() }
    }
}

/// The entries after a probe with the given key was seen: a new key joins them, and the
/// smallest leaves a set that is over its limit.
pub open spec fn remembered(entries: Seq<ReplayKey>, key: ReplayKey) -> Seq<ReplayKey> {
    if entries.contains(key) {
        entries
    } else {
        let more = placed::<ReplayKey>(entries, key);
        if more.len() > MAX_REPLAY_ENTRIES {
            more.drop_first()
        } else {
            more
        }
    }
}

/// Accepts a probe unless it was accepted before.
pub fn accept_probe_once(replay: &mut ProbeReplaySet, packet: &ProbePacket) -> (accepted: bool)
    requires
        old(replay).wf(),
    ensures
        final(replay).wf(),
        accepted == !old(replay)@.contains(replay_key(*packet)),
        final(replay)@ == remembered(old(replay)@, replay_key(*packet)),
{
    let key = ReplayKey {
        role: packet.role.code(),
        kind: packet.kind.code(),
        sequence: packet.sequence,
        nonce_high: read_u64(&packet.sender_nonce, 0),
        nonce_low: read_u64(&packet.sender_nonce, 8),
    };
    assert(key == replay_key(*packet));
    let ghost before = replay.entries@;
    let mut at: usize = replay.entries.len();
    while at > 0 && key.stands_before(&replay.entries[at - 1])
        invariant
            at <= replay.entries@.len(),
            replay.entries@ == before,
            forall|i: int| at <= i < before.len() ==> ReplayKey::precedes(key, #[trigger] before[i]),
        decreases at,
    {
        at -= 1;
    }
    if at > 0 && replay.entries[at - 1] == key {
        assert(before[at - 1] == key);
        assert(before.contains(key));
        return false;
    }
    proof {
        if before.contains(key) {
            let k = choose|k: int| 0 <= k < before.len() && before[k] == key;
            if k < at - 1 {
                assert(ReplayKey::precedes(before[k], before[at - 1]));
            }
            assert(false);
        }
        crate::ordering::lemma_placed_at::<ReplayKey>(before, key, at as int);
    }
    replay.entries.insert(at, key);
    let ghost more = replay.entries@;
    proof {
        assert(more == before.insert(at as int, key));
        assert forall|i: int, j: int| 0 <= i < j < more.len() implies ReplayKey::precedes(
            #[trigger] more[i],
            #[trigger] more[j],
        ) by {
            let p = if i < at {
                i
            } else {
                i - 1
            };
            let q = if j < at {
                j
            } else {
                j - 1
            };
            if i == at {
                assert(more[j] == before[j - 1]);
            } else if j == at {
                assert(more[i] == before[i]);
                if i < at - 1 {
                    assert(ReplayKey::precedes(before[i], before[at - 1]));
                }
                assert(!ReplayKey::precedes(key, before[at - 1]) && key != before[at - 1]);
            } else {
                assert(more[i] == before[p] && more[j] == before[q]);
            }
        }
    }
    if replay.entries.len() > MAX_REPLAY_ENTRIES {
        replay.entries.remove(0);
        assert(replay.entries@ =~= more.drop_first());
        assert(strictly_ordered(replay.entries@)) by {
            assert forall|i: int, j: int| 0 <= i < j < replay.entries@.len() implies
                ReplayKey::precedes(#[trigger] replay.entries@[i], #[trigger] replay.entries@[j]) by {
                assert(ReplayKey::precedes(more[i + 1], more[j + 1]));
            }
        }
    }
    true
}

/// A probe that was accepted is refused when it comes again, as long as the set is not full.
pub proof fn law_probe_is_accepted_once(entries: Seq<ReplayKey>, packet: ProbePacket)
    requires
        strictly_ordered(entries),
        entries.len() < MAX_REPLAY_ENTRIES,
    ensures
        remembered(entries, replay_key(packet)).contains(replay_key(packet)),
{
    assert(crate::ordering::is_ordered::<ReplayKey>(entries));
    crate::ordering::lemma_placed::<ReplayKey>(entries, replay_key(packet));
}

/// The 16 bytes that a pair identifier stands for: 32 hexadecimal digits in small letters.
pub fn decode_pair_id(value: &str) -> (result: Result<[u8; 16], String>)
    ensures
        match result {
            Ok(bytes) => hex_text(bytes@) == value@,
            Err(error) => {
                &&& error@ == "native-candidate-pair-id-invalid"@
                &&& forall|bytes: Seq<u8>| bytes.len() == 16 ==> #[trigger] hex_text(bytes) != value@
            },
        },
{
    let chars = chars_of(value);
    if chars.len() != 32 {
        return Err("native-candidate-pair-id-invalid".to_owned());
    }
    let mut output: [u8; 16] = [0u8; 16];
    let mut index: usize = 0;
    while index < 16
        invariant
            index <= 16,
            chars@ == value@,
            chars@.len() == 32,
            forall|i: int|
                0 <= i < index ==> chars@[2 * i] == hex_digit(output@[i] as int / 16)
                    && chars@[2 * i + 1] == hex_digit(#[trigger] output@[i] as int % 16),
        decreases 16 - index,
    {
        match (small_nibble(chars[2 * index]), small_nibble(chars[2 * index + 1])) {
            (Some(high), Some(low)) => {
                output[index] = high * 16 + low;
            },
            _ => {
                proof {
                    assert forall|bytes: Seq<u8>| bytes.len() == 16 implies #[trigger] hex_text(
                        bytes,
                    ) != value@ by {
                        assert(hex_text(bytes)[2 * index] == hex_digit(
                            bytes[index as int] as int / 16,
                        ));
                        assert(hex_text(bytes)[2 * index + 1] == hex_digit(
                            bytes[index as int] as int % 16,
                        ));
                    }
                }
                return Err("native-candidate-pair-id-invalid".to_owned());
            },
        }
        index += 1;
    }
    proof {
        assert forall|i: int| 0 <= i < 32 implies hex_text(output@)[i] == value@[i] by {
            assert(output@[i / 2] == output@[i / 2]);
        }
        assert(hex_text(output@) =~= value@);
    }
    Ok(output)
}

fn small_nibble(digit: char) -> (value: Option<u8>)
    ensures
        match value {
            Some(nibble) => nibble < 16 && digit == hex_digit(nibble as int),
            None => forall|nibble: int| 0 <= nibble < 16 ==> #[trigger] hex_digit(nibble) != digit,
        },
{
    if '0' <= digit && digit <= '9' {
        Some(digit as u8 - 48)
    } else if 'a' <= digit && digit <= 'f' {
        Some(digit as u8 - 87)
    } else {
        None
    }
}

/// How long the parts of a check take, in nanoseconds.
#[derive(Debug, Clone, Copy)]
pub struct HolePunchConfig {
    pub total_timeout: u64,
    pub initial_interval: u64,
    pub max_interval: u64,
    pub resynchronize_interval: u64,
    pub confirmation_grace: u64,
}

pub const MILLISECOND: u64 = 1_000_000;

pub const SECOND: u64 = 1_000_000_000;

impl Default for HolePunchConfig {
    fn default() -> (config: Self)
        ensures
            config.total_timeout == 15 * SECOND,
            config.initial_interval == 250 * MILLISECOND,
            config.max_interval == 1500 * MILLISECOND,
            config.resynchronize_interval == 3 * SECOND,
            config.confirmation_grace == 2 * SECOND,
    {
        HolePunchConfig {
            total_timeout: 15 * SECOND,
            initial_interval: 250 * MILLISECOND,
            max_interval: 1500 * MILLISECOND,
            resynchronize_interval: 3 * SECOND,
            confirmation_grace: 2 * SECOND,
        }
    }
}

/// What is known of one pair.
#[derive(Debug)]
pub struct PairState {
    pub pair: NativeCandidatePair,
    pub wire_id: [u8; 16],
    pub probes_sent: u32,
    pub inbound_requests: u32,
    pub outbound_responses: u32,
    pub replayed: u32,
    pub invalid: u32,
    pub observed_source: Option<SocketAddress>,
    pub observed_source_count: u8,
    pub source_stable: bool,
    pub best_rtt: Option<u64>,
    pub remote_confirm: bool,
    pub confirm_ack: bool,
    pub last_confirm_sent: Option<u64>,
}

/// What is known of one pair, in ghost code.
pub struct StateFacts {
    pub pair: PairFacts,
    pub wire_id: [u8; 16],
    pub probes_sent: u32,
    pub inbound_requests: u32,
    pub outbound_responses: u32,
    pub replayed: u32,
    pub invalid: u32,
    pub observed_source: Option<SocketAddress>,
    pub observed_source_count: u8,
    pub source_stable: bool,
    pub best_rtt: Option<u64>,
    pub remote_confirm: bool,
    pub confirm_ack: bool,
    pub last_confirm_sent: Option<u64>,
}

impl View for PairState {
    type V = StateFacts;

    open spec fn view(&self) -> StateFacts {
        StateFacts {
            pair: self.pair@,
            wire_id: self.wire_id,
            probes_sent: self.probes_sent,
            inbound_requests: self.inbound_requests,
            outbound_responses: self.outbound_responses,
            replayed: self.replayed,
            invalid: self.invalid,
            observed_source: self.observed_source,
            observed_source_count: self.observed_source_count,
            source_stable: self.source_stable,
            best_rtt: self.best_rtt,
            remote_confirm: self.remote_confirm,
            confirm_ack: self.confirm_ack,
            last_confirm_sent: self.last_confirm_sent,
        }
    }
}

impl StateFacts {
    /// Packets went both ways, and came from one stable source.
    pub open spec fn bidirectional(self) -> bool {
        self.outbound_responses >= 2 && self.inbound_requests >= 1 && self.source_stable
    }

    /// Both ends have finished the confirmation as well. Less than that would let one end stop
    /// answering probes before the other end knows enough.
    pub open spec fn is_viable(self) -> bool {
        self.bidirectional() && self.remote_confirm && self.confirm_ack
    }

    /// How many of the four signs of life were seen.
    pub open spec fn confirmations(self) -> int {
        (if self.outbound_responses >= 2 {
            1int
        } else {
            0
        }) + (if self.inbound_requests >= 1 {
            1int
        } else {
            0
        }) + (if self.remote_confirm {
            1int
        } else {
            0
        }) + (if self.confirm_ack {
            1int
        } else {
            0
        })
    }

    /// Where packets of this pair go.
    pub open spec fn destination(self) -> SocketAddress {
        match self.observed_source {
            Some(source) => source,
            None => self.pair.remote_candidate.socket(),
        }
    }
}

/// What is known of a pair before the first packet.
pub open spec fn fresh_state(pair: PairFacts, wire_id: [u8; 16]) -> StateFacts {
    StateFacts {
        pair,
        wire_id,
        probes_sent: 0,
        inbound_requests: 0,
        outbound_responses: 0,
        replayed: 0,
        invalid: 0,
        observed_source: None,
        observed_source_count: 0,
        source_stable: false,
        best_rtt: None,
        remote_confirm: false,
        confirm_ack: false,
        last_confirm_sent: None,
    }
}

impl PairState {
    /// What is known of a pair before the first packet.
    pub fn new(pair: NativeCandidatePair, wire_id: [u8; 16]) -> (state: Self)
        ensures
            state@ == fresh_state(pair@, wire_id),
    {
        PairState {
            pair,
            wire_id,
            probes_sent: 0,
            inbound_requests: 0,
            outbound_responses: 0,
            replayed: 0,
            invalid: 0,
            observed_source: None,
            observed_source_count: 0,
            source_stable: false,
            best_rtt: None,
            remote_confirm: false,
            confirm_ack: false,
            last_confirm_sent: None,
        }
    }

    pub fn base_bidirectional(&self) -> (result: bool)
        ensures
            result == self@.bidirectional(),
    {
        self.outbound_responses >= 2 && self.inbound_requests >= 1 && self.source_stable
    }

    pub fn viable(&self) -> (result: bool)
        ensures
            result == self@.is_viable(),
    {
        self.base_bidirectional() && self.remote_confirm && self.confirm_ack
    }

    pub fn confirmation_count(&self) -> (count: u8)
        ensures
            count == self@.confirmations(),
            count <= 4,
    {
        let mut count: u8 = 0;
        if self.outbound_responses >= 2 {
            count += 1;
        }
        if self.inbound_requests >= 1 {
            count += 1;
        }
        if self.remote_confirm {
            count += 1;
        }
        if self.confirm_ack {
            count += 1;
        }
        count
    }

    fn destination_of(&self) -> (destination: SocketAddress)
        ensures
            destination == self@.destination(),
    {
        match self.observed_source {
            Some(source) => source,
            None => self.pair.remote_candidate.socket_addr(),
        }
    }
}

/// Whether packets of a pair can have come from a source.
pub open spec fn usable_source(source: SocketAddress, family: NativeAddressFamily) -> bool {
    &&& source.port != 0
    &&& !source.ip.unspecified()
    &&& !source.ip.multicast()
    &&& NativeAddressFamily::of(source.ip) == family
}

/// What is known of a pair once an authenticated packet came from a source. A source that comes
/// again counts until it is stable; another source starts the proof of the path anew.
pub open spec fn after_source(state: StateFacts, source: SocketAddress) -> StateFacts {
    match state.observed_source {
        Some(previous) => if previous == source {
            let count = if state.observed_source_count == u8::MAX {
                u8::MAX
            } else {
                (state.observed_source_count + 1) as u8
            };
            StateFacts {
                observed_source_count: count,
                source_stable: state.source_stable || count >= 2,
                ..state
            }
        } else {
            StateFacts {
                inbound_requests: 0,
                outbound_responses: 0,
                best_rtt: None,
                remote_confirm: false,
                confirm_ack: false,
                last_confirm_sent: None,
                observed_source: Some(source),
                observed_source_count: 1,
                source_stable: false,
                ..state
            }
        },
        None => StateFacts {
            observed_source: Some(source),
            observed_source_count: 1,
            source_stable: false,
            ..state
        },
    }
}

/// Takes note of where an authenticated packet came from, and says whether it can have come
/// from there. A source has to be seen repeatedly before the pair can become viable, so one that
/// keeps changing never leads to a choice.
pub fn observe_authenticated_source(state: &mut PairState, source: SocketAddress) -> (usable: bool)
    ensures
        usable == usable_source(source, old(state)@.pair.address_family),
        final(state)@ == if usable {
            after_source(old(state)@, source)
        } else {
            old(state)@
        },
{
    if source.port == 0 || source.ip.is_unspecified() || source.ip.is_multicast()
        || NativeAddressFamily::for_ip(source.ip) != state.pair.address_family {
        return false;
    }
    match state.observed_source {
        Some(previous) => {
            if same_socket(&previous, &source) {
                state.observed_source_count = state.observed_source_count.saturating_add(1);
            } else {
                state.inbound_requests = 0;
                state.outbound_responses = 0;
                state.best_rtt = None;
                state.remote_confirm = false;
                state.confirm_ack = false;
                state.last_confirm_sent = None;
                state.observed_source = Some(source);
                state.observed_source_count = 1;
                state.source_stable = false;
            }
        },
        None => {
            state.observed_source = Some(source);
            state.observed_source_count = 1;
            state.source_stable = false;
        },
    }
    if state.observed_source_count >= 2 {
        state.source_stable = true;
    }
    true
}

/// A source that changes takes back everything that was proved over the old one, so the pair
/// is not viable until the new path is proved from scratch.
pub proof fn law_changed_source_starts_over(state: StateFacts, source: SocketAddress)
    requires
        state.observed_source is Some,
        state.observed_source != Some(source),
    ensures
        !after_source(state, source).bidirectional(),
        !after_source(state, source).is_viable(),
        after_source(state, source).confirmations() == 0,
{
}

/// One packet from a source never makes it stable; a second one in a row does.
pub proof fn law_source_needs_repeating(state: StateFacts, source: SocketAddress)
    requires
        state.observed_source != Some(source),
    ensures
        !after_source(state, source).source_stable,
        after_source(after_source(state, source), source).source_stable,
{
}

/// A viable pair has shown all four signs of life over a stable source.
pub proof fn law_viable_pairs_are_confirmed_both_ways(state: StateFacts)
    requires
        state.is_viable(),
    ensures
        state.confirmations() == 4,
        state.source_stable,
{
}

#[derive(Debug)]
pub struct ProbePairResult {
    pub pair_id: String,
    pub remote_endpoint: Option<SocketAddress>,
    pub probes_sent: u32,
    pub authenticated_requests_received: u32,
    pub authenticated_responses_received: u32,
    pub replayed_packets_rejected: u32,
    pub malformed_or_unauthenticated_packets: u32,
    pub source_endpoint_stable: bool,
    pub observed_source_endpoint: Option<SocketAddress>,
    pub best_rtt: Option<u64>,
    pub confirmation_count: u8,
    pub viable: bool,
}

/// What the result of one pair says.
pub struct ResultFacts {
    pub pair_id: Seq<char>,
    pub remote_endpoint: Option<SocketAddress>,
    pub probes_sent: u32,
    pub authenticated_requests_received: u32,
    pub authenticated_responses_received: u32,
    pub replayed_packets_rejected: u32,
    pub malformed_or_unauthenticated_packets: u32,
    pub source_endpoint_stable: bool,
    pub observed_source_endpoint: Option<SocketAddress>,
    pub best_rtt: Option<u64>,
    pub confirmation_count: int,
    pub viable: bool,
}

impl View for ProbePairResult {
    type V = ResultFacts;

    open spec fn view(&self) -> ResultFacts {
        ResultFacts {
            pair_id: self.pair_id@,
            remote_endpoint: self.remote_endpoint,
            probes_sent: self.probes_sent,
            authenticated_requests_received: self.authenticated_requests_received,
            authenticated_responses_received: self.authenticated_responses_received,
            replayed_packets_rejected: self.replayed_packets_rejected,
            malformed_or_unauthenticated_packets: self.malformed_or_unauthenticated_packets,
            source_endpoint_stable: self.source_endpoint_stable,
            observed_source_endpoint: self.observed_source_endpoint,
            best_rtt: self.best_rtt,
            confirmation_count: self.confirmation_count as int,
            viable: self.viable,
        }
    }
}

impl Default for ProbePairResult {
    fn default() -> (result: Self)
        ensures
            result@ == (ResultFacts {
                pair_id: ""@,
                remote_endpoint: None,
                probes_sent: 0,
                authenticated_requests_received: 0,
                authenticated_responses_received: 0,
                replayed_packets_rejected: 0,
                malformed_or_unauthenticated_packets: 0,
                source_endpoint_stable: false,
                observed_source_endpoint: None,
                best_rtt: None,
                confirmation_count: 0,
                viable: false,
            }),
    {
        ProbePairResult {
            pair_id: "".to_owned(),
            remote_endpoint: None,
            probes_sent: 0,
            authenticated_requests_received: 0,
            authenticated_responses_received: 0,
            replayed_packets_rejected: 0,
            malformed_or_unauthenticated_packets: 0,
            source_endpoint_stable: false,
            observed_source_endpoint: None,
            best_rtt: None,
            confirmation_count: 0,
            viable: false,
        }
    }
}

impl Clone for ProbePairResult {
    fn clone(&self) -> (copy: Self)
        ensures
            copy@ == self@,
    {
        ProbePairResult {
            pair_id: self.pair_id.clone(),
            remote_endpoint: self.remote_endpoint,
            probes_sent: self.probes_sent,
            authenticated_requests_received: self.authenticated_requests_received,
            authenticated_responses_received: self.authenticated_responses_received,
            replayed_packets_rejected: self.replayed_packets_rejected,
            malformed_or_unauthenticated_packets: self.malformed_or_unauthenticated_packets,
            source_endpoint_stable: self.source_endpoint_stable,
            observed_source_endpoint: self.observed_source_endpoint,
            best_rtt: self.best_rtt,
            confirmation_count: self.confirmation_count,
            viable: self.viable,
        }
    }
}

#[derive(Debug)]
pub struct HolePunchReport {
    pub started_unix_ms: u64,
    /// In nanoseconds.
    pub elapsed: u64,
    pub total_packets_sent: u32,
    pub total_packets_received: u32,
    pub authenticated_packets_received: u32,
    pub unauthenticated_packets_dropped: u32,
    pub replayed_packets_dropped: u32,
    pub rate_limit_packets_per_second: u32,
    pub pair_results: Vec<ProbePairResult>,
    pub selected_pair_id: Option<String>,
    pub failure: Option<NativeConnectivityFailure>,
}

/// What the report says of one pair.
pub open spec fn result_of(state: StateFacts) -> ResultFacts {
    ResultFacts {
        pair_id: state.pair.pair_id,
        remote_endpoint: Some(state.destination()),
        probes_sent: state.probes_sent,
        authenticated_requests_received: state.inbound_requests,
        authenticated_responses_received: state.outbound_responses,
        replayed_packets_rejected: state.replayed,
        malformed_or_unauthenticated_packets: state.invalid,
        source_endpoint_stable: state.source_stable,
        observed_source_endpoint: state.observed_source,
        best_rtt: state.best_rtt,
        confirmation_count: state.confirmations(),
        viable: state.is_viable(),
    }
}

fn report_pair(state: &PairState) -> (result: ProbePairResult)
    ensures
        result@ == result_of(state@),
{
    ProbePairResult {
        pair_id: state.pair.pair_id.clone(),
        remote_endpoint: Some(state.destination_of()),
        probes_sent: state.probes_sent,
        authenticated_requests_received: state.inbound_requests,
        authenticated_responses_received: state.outbound_responses,
        replayed_packets_rejected: state.replayed,
        malformed_or_unauthenticated_packets: state.invalid,
        source_endpoint_stable: state.source_stable,
        observed_source_endpoint: state.observed_source,
        best_rtt: state.best_rtt,
        confirmation_count: state.confirmation_count(),
        viable: state.viable(),
    }
}

/// Whether a round trip is shorter than another, none being the shortest.
pub open spec fn shorter(left: Option<u64>, right: Option<u64>) -> bool {
    match (left, right) {
        (None, Some(_)) => true,
        (Some(a), Some(b)) => a < b,
        (_, None) => false,
    }
}

/// Whether a pair is better than another: by priority, then by the shorter round trip.
pub open spec fn better(left: StateFacts, right: StateFacts) -> bool {
    left.pair.priority > right.pair.priority || left.pair.priority == right.pair.priority
        && shorter(left.best_rtt, right.best_rtt)
}

/// The best viable pair among the first `n`, the last one where several are equally good.
pub open spec fn best_viable(states: Seq<StateFacts>, n: nat) -> Option<int>
    decreases n,
{
    if n == 0 {
        None
    } else {
        let before = best_viable(states, (n - 1) as nat);
        if !states[n - 1].is_viable() {
            before
        } else {
            match before {
                Some(i) => if better(states[i], states[n - 1]) {
                    before
                } else {
                    Some(n - 1)
                },
                None => Some(n - 1),
            }
        }
    }
}

/// The chosen pair is viable, and no viable pair is better. There is one whenever a pair is
/// viable.
pub proof fn law_choice_is_best_viable_pair(states: Seq<StateFacts>, n: nat)
    requires
        n <= states.len(),
    ensures
        match best_viable(states, n) {
            Some(i) => {
                &&& 0 <= i < n
                &&& states[i].is_viable()
                &&& forall|j: int|
                    0 <= j < n && (#[trigger] states[j]).is_viable() ==> !better(
                        states[j],
                        states[i],
                    )
            },
            None => forall|j: int| 0 <= j < n ==> !(#[trigger] states[j]).is_viable(),
        },
    decreases n,
{
    if n > 0 {
        law_choice_is_best_viable_pair(states, (n - 1) as nat);
    }
}

/// The chosen pair has shown all its signs of life, no such pair has a higher priority, and of
/// those with its priority none has a shorter time; of equals the last one is chosen.
pub proof fn law_choice_has_the_highest_priority(states: Seq<StateFacts>, n: nat)
    requires
        n <= states.len(),
    ensures
        match best_viable(states, n) {
            Some(i) => {
                &&& 0 <= i < n
                &&& states[i].outbound_responses >= 2
                &&& states[i].inbound_requests >= 1
                &&& states[i].source_stable
                &&& states[i].remote_confirm
                &&& states[i].confirm_ack
                &&& forall|j: int|
                    0 <= j < n && (#[trigger] states[j]).is_viable() ==> {
                        &&& states[j].pair.priority <= states[i].pair.priority
                        &&& states[j].pair.priority == states[i].pair.priority ==> match (
                            states[i].best_rtt,
                            states[j].best_rtt,
                        ) {
                            (Some(chosen), Some(other)) => chosen <= other,
                            (Some(_), None) => false,
                            (None, _) => true,
                        }
                        &&& states[j].pair.priority == states[i].pair.priority
                            && states[j].best_rtt == states[i].best_rtt ==> j <= i
                    }
            },
            None => forall|j: int|
                0 <= j < n ==> {
                    ||| (#[trigger] states[j]).outbound_responses < 2
                    ||| states[j].inbound_requests < 1
                    ||| !states[j].source_stable
                    ||| !states[j].remote_confirm
                    ||| !states[j].confirm_ack
                },
        },
    decreases n,
{
    if n > 0 {
        law_choice_has_the_highest_priority(states, (n - 1) as nat);
    }
}

fn is_better(left: &PairState, right: &PairState) -> (result: bool)
    ensures
        result == better(left@, right@),
{
    let rtt_shorter: bool = match (left.best_rtt, right.best_rtt) {
        (None, Some(_)) => true,
        (Some(a), Some(b)) => a < b,
        (_, None) => false,
    };
    left.pair.priority > right.pair.priority || (left.pair.priority == right.pair.priority
        && rtt_shorter)
}

fn find_best(states: &Vec<PairState>) -> (best: Option<usize>)
    ensures
        match best {
            Some(i) => i < states@.len() && best_viable(views(states@), states@.len()) == Some(
                i as int,
            ),
            None => best_viable(views(states@), states@.len()) is None,
        },
{
    let mut best: Option<usize> = None;
    let mut index: usize = 0;
    while index < states.len()
        invariant
            index <= states@.len(),
            match best {
                Some(i) => i < index && best_viable(views(states@), index as nat) == Some(i as int),
                None => best_viable(views(states@), index as nat) is None,
            },
        decreases states@.len() - index,
    {
        assert(views(states@)[index as int] == states@[index as int]@);
        if states[index].viable() {
            match best {
                Some(i) => {
                    assert(views(states@)[i as int] == states@[i as int]@);
                    if !is_better(&states[i], &states[index]) {
                        best = Some(index);
                    }
                },
                None => {
                    best = Some(index);
                },
            }
        }
        index += 1;
    }
    best
}

/// What identifies a probe that waits for its answer.
#[derive(Debug, Clone, Copy)]
pub struct ProbeKey {
    pub pair: [u8; 16],
    pub sequence: u64,
    pub kind: ProbeKind,
}

impl View for ProbeKey {
    type V = (Seq<u8>, u64, ProbeKind);

    open spec fn view(&self) -> (Seq<u8>, u64, ProbeKind) {
        (self.pair@, self.sequence, self.kind)
    }
}

impl RegistryKey for ProbeKey {
    fn same_key(&self, other: &Self) -> (same: bool) {
        bytes_equal(&self.pair, &other.pair) && self.sequence == other.sequence && self.kind
            == other.kind
    }
}

/// A check of the pairs of one address family while it runs.
pub struct HolePunch {
    role: NativeDeviceRole,
    connectivity_session_id: [u8; 16],
    transfer_id: [u8; 16],
    key: [u8; 32],
    nonce: [u8; 16],
    timeout: u64,
    initial_interval: u64,
    max_interval: u64,
    resynchronize_interval: u64,
    confirmation_grace: u64,
    started_unix_ms: u64,
    started: u64,
    search_deadline: u64,
    confirmation_deadline: Option<u64>,
    sequence: u64,
    states: Vec<PairState>,
    sent: Registry<ProbeKey, u64>,
    replay: ProbeReplaySet,
    next_round: u64,
    next_resynchronization: u64,
    interval: u64,
    packets_this_window: u32,
    rate_window: u64,
    total_sent: u32,
    total_received: u32,
    authenticated_received: u32,
    invalid_received: u32,
    replayed_received: u32,
}

/// A running check, in ghost code.
#[verifier::ext_equal]
pub struct PunchFacts {
    pub role: NativeDeviceRole,
    pub connectivity_session_id: [u8; 16],
    pub transfer_id: [u8; 16],
    pub key: [u8; 32],
    pub nonce: [u8; 16],
    pub timeout: u64,
    pub initial_interval: u64,
    pub max_interval: u64,
    pub resynchronize_interval: u64,
    pub confirmation_grace: u64,
    pub started_unix_ms: u64,
    pub started: u64,
    pub search_deadline: u64,
    pub confirmation_deadline: Option<u64>,
    pub sequence: u64,
    pub states: Seq<StateFacts>,
    pub sent: Map<(Seq<u8>, u64, ProbeKind), u64>,
    pub replay: Seq<ReplayKey>,
    pub next_round: u64,
    pub next_resynchronization: u64,
    pub interval: u64,
    pub packets_this_window: u32,
    pub rate_window: u64,
    pub total_sent: u32,
    pub total_received: u32,
    pub authenticated_received: u32,
    pub invalid_received: u32,
    pub replayed_received: u32,
}

impl View for HolePunch {
    type V = PunchFacts;

    closed spec fn view(&self) -> PunchFacts {
        PunchFacts {
            role: self.role,
            connectivity_session_id: self.connectivity_session_id,
            transfer_id: self.transfer_id,
            key: self.key,
            nonce: self.nonce,
            timeout: self.timeout,
            initial_interval: self.initial_interval,
            max_interval: self.max_interval,
            resynchronize_interval: self.resynchronize_interval,
            confirmation_grace: self.confirmation_grace,
            started_unix_ms: self.started_unix_ms,
            started: self.started,
            search_deadline: self.search_deadline,
            confirmation_deadline: self.confirmation_deadline,
            sequence: self.sequence,
            states: views(self.states@),
            sent: self.sent@,
            replay: self.replay@,
            next_round: self.next_round,
            next_resynchronization: self.next_resynchronization,
            interval: self.interval,
            packets_this_window: self.packets_this_window,
            rate_window: self.rate_window,
            total_sent: self.total_sent,
            total_received: self.total_received,
            authenticated_received: self.authenticated_received,
            invalid_received: self.invalid_received,
            replayed_received: self.replayed_received,
        }
    }
}

/// What every running check keeps: the counters of a pair are no greater than those of the
/// whole check, the rate limit holds, and the pairs stand in the order of their identifiers,
/// which are those on the wire.
pub open spec fn punch_wf(facts: PunchFacts) -> bool {
    &&& facts.states.len() <= MAX_ACTIVE_PAIRS
    &&& facts.packets_this_window <= MAX_PROBES_PER_SECOND
    &&& facts.interval <= 3 * SECOND
    &&& facts.initial_interval <= facts.max_interval <= 3 * SECOND
    &&& facts.authenticated_received <= facts.total_received
    &&& facts.invalid_received <= facts.total_received
    &&& facts.replayed_received <= facts.total_received
    &&& strictly_ordered(facts.replay)
    &&& facts.replay.len() <= MAX_REPLAY_ENTRIES
    &&& ids_ordered(facts.states)
    &&& forall|i: int|
        0 <= i < facts.states.len() ==> state_within(
            #[trigger] facts.states[i],
            facts.total_sent,
            facts.total_received,
        )
}

/// Whether the counters of a pair fit into those of the whole check, and its identifier is the
/// one on the wire.
pub open spec fn state_within(state: StateFacts, sent: u32, received: u32) -> bool {
    &&& state.probes_sent <= sent
    &&& state.inbound_requests <= received
    &&& state.outbound_responses <= received
    &&& state.replayed <= received
    &&& state.invalid <= received
    &&& state.pair.pair_id == hex_text(state.wire_id@)
}

/// Whether pairs stand in the strict order of their identifiers.
pub open spec fn ids_ordered(states: Seq<StateFacts>) -> bool {
    forall|i: int, j: int|
        0 <= i < j < states.len() ==> text_before(
            (#[trigger] states[i]).pair.pair_id,
            (#[trigger] states[j]).pair.pair_id,
        )
}

/// The pairs with one more: it takes the place of the pair with its identifier, or stands where
/// the order of the identifiers puts it.
pub open spec fn with_state(states: Seq<StateFacts>, state: StateFacts) -> Seq<StateFacts>
    decreases states.len(),
{
    if states.len() == 0 {
        seq![state]
    } else if states.last().pair.pair_id == state.pair.pair_id {
        states.drop_last().push(state)
    } else if text_before(states.last().pair.pair_id, state.pair.pair_id) {
        states.push(state)
    } else {
        with_state(states.drop_last(), state).push(states.last())
    }
}

/// The 16 bytes whose hexadecimal text an identifier is.
pub open spec fn wire_id_of(id: Seq<char>) -> [u8; 16] {
    choose|bytes: [u8; 16]| hex_text(#[trigger] bytes@) == id
}

/// Whether an identifier is the hexadecimal text of 16 bytes.
pub open spec fn is_pair_id(id: Seq<char>) -> bool {
    exists|bytes: [u8; 16]| hex_text(#[trigger] bytes@) == id
}

/// What is known at the start of the first `n` pairs.
pub open spec fn start_states(pairs: Seq<PairFacts>, n: nat) -> Seq<StateFacts>
    decreases n,
{
    if n == 0 {
        Seq::empty()
    } else {
        with_state(
            start_states(pairs, (n - 1) as nat),
            fresh_state(pairs[n - 1], wire_id_of(pairs[n - 1].pair_id)),
        )
    }
}

/// How many of the given pairs take part in a check.
pub open spec fn active_pairs(pairs: Seq<PairFacts>) -> nat {
    if pairs.len() < MAX_ACTIVE_PAIRS {
        pairs.len()
    } else {
        MAX_ACTIVE_PAIRS as nat
    }
}

/// Why a check cannot begin, if it cannot.
pub open spec fn start_defect(pairs: Seq<PairFacts>) -> Option<Seq<char>> {
    if pairs.len() == 0 {
        Some("native-connectivity-no-candidate-pairs"@)
    } else if exists|i: int|
        0 <= i < pairs.len() && (#[trigger] pairs[i]).address_family != pairs[0].address_family {
        Some("native-connectivity-mixed-family-check-invalid"@)
    } else if exists|i: int|
        0 <= i < active_pairs(pairs) && !is_pair_id((#[trigger] pairs[i]).pair_id) {
        Some("native-candidate-pair-id-invalid"@)
    } else {
        None
    }
}

/// `value` moved into an interval of durations.
pub open spec fn clamp_duration(value: u64, low: u64, high: u64) -> u64 {
    crate::arith::clamped(value, low, high)
}

/// A check at its start.
pub open spec fn started_punch(
    pairs: Seq<PairFacts>,
    role: NativeDeviceRole,
    connectivity_session_id: [u8; 16],
    transfer_id: [u8; 16],
    key: [u8; 32],
    nonce: [u8; 16],
    config: HolePunchConfig,
    now: u64,
    now_unix_ms: u64,
) -> PunchFacts {
    let timeout = clamp_duration(config.total_timeout, SECOND, (30 * SECOND) as u64);
    let initial = clamp_duration(config.initial_interval, (100 * MILLISECOND) as u64, SECOND);
    let resynchronize = clamp_duration(
        config.resynchronize_interval,
        (500 * MILLISECOND) as u64,
        (5 * SECOND) as u64,
    );
    PunchFacts {
        role,
        connectivity_session_id,
        transfer_id,
        key,
        nonce,
        timeout,
        initial_interval: initial,
        max_interval: clamp_duration(config.max_interval, initial, (3 * SECOND) as u64),
        resynchronize_interval: resynchronize,
        confirmation_grace: clamp_duration(
            config.confirmation_grace,
            (500 * MILLISECOND) as u64,
            (5 * SECOND) as u64,
        ),
        started_unix_ms: now_unix_ms,
        started: now,
        search_deadline: saturating_sum(now, timeout),
        confirmation_deadline: None,
        sequence: 0,
        states: start_states(pairs, active_pairs(pairs)),
        sent: Map::empty(),
        replay: Seq::empty(),
        next_round: now,
        next_resynchronization: saturating_sum(now, resynchronize),
        interval: initial,
        packets_this_window: 0,
        rate_window: now,
        total_sent: 0,
        total_received: 0,
        authenticated_received: 0,
        invalid_received: 0,
        replayed_received: 0,
    }
}

proof fn lemma_wire_id(id: Seq<char>, bytes: [u8; 16])
    requires
        hex_text(bytes@) == id,
    ensures
        is_pair_id(id),
        wire_id_of(id) == bytes,
{
    let chosen = wire_id_of(id);
    assert(hex_text(chosen@) == id);
    crate::encoding::lemma_hex_text_injective(chosen@, bytes@);
    assert(chosen =~= bytes);
}

proof fn lemma_with_state_at(states: Seq<StateFacts>, state: StateFacts, at: int)
    requires
        0 <= at <= states.len(),
        at > 0 ==> text_before(states[at - 1].pair.pair_id, state.pair.pair_id),
        forall|i: int|
            at <= i < states.len() ==> text_before(
                state.pair.pair_id,
                (#[trigger] states[i]).pair.pair_id,
            ),
    ensures
        with_state(states, state) == states.insert(at, state),
    decreases states.len(),
{
    if states.len() == 0 {
        assert(states.insert(at, state) =~= seq![state]);
    } else if at == states.len() {
        lemma_text_order(
            states.last().pair.pair_id,
            state.pair.pair_id,
            state.pair.pair_id,
        );
        assert(states.insert(at, state) =~= states.push(state));
    } else {
        let last = states.last();
        assert(text_before(state.pair.pair_id, states[states.len() - 1].pair.pair_id));
        lemma_text_order(state.pair.pair_id, last.pair.pair_id, last.pair.pair_id);
        lemma_with_state_at(states.drop_last(), state, at);
        assert(states.drop_last().insert(at, state).push(last) =~= states.insert(at, state));
    }
}

proof fn lemma_with_state_over(states: Seq<StateFacts>, state: StateFacts, at: int)
    requires
        0 <= at < states.len(),
        states[at].pair.pair_id == state.pair.pair_id,
        forall|i: int|
            at < i < states.len() ==> text_before(
                state.pair.pair_id,
                (#[trigger] states[i]).pair.pair_id,
            ),
    ensures
        with_state(states, state) == states.update(at, state),
    decreases states.len(),
{
    if at == states.len() - 1 {
        assert(states.drop_last().push(state) =~= states.update(at, state));
    } else {
        let last = states.last();
        assert(text_before(state.pair.pair_id, states[states.len() - 1].pair.pair_id));
        lemma_text_order(state.pair.pair_id, last.pair.pair_id, last.pair.pair_id);
        lemma_with_state_over(states.drop_last(), state, at);
        assert(states.drop_last().update(at, state).push(last) =~= states.update(at, state));
    }
}

fn put_state(states: &mut Vec<PairState>, state: PairState)
    requires
        ids_ordered(views(old(states)@)),
    ensures
        views(final(states)@) == with_state(views(old(states)@), state@),
        ids_ordered(views(final(states)@)),
        final(states)@.len() <= old(states)@.len() + 1,
{
    let ghost before = states@;
    let ghost facts = views(before);
    let mut at: usize = states.len();
    while at > 0 && is_text_before(
        state.pair.pair_id.as_str(),
        states[at - 1].pair.pair_id.as_str(),
    )
        invariant
            at <= states@.len(),
            states@ == before,
            facts == views(before),
            forall|i: int|
                at <= i < facts.len() ==> text_before(
                    state@.pair.pair_id,
                    (#[trigger] facts[i]).pair.pair_id,
                ),
        decreases at,
    {
        assert(facts[at - 1] == before[at - 1]@);
        at -= 1;
    }
    if at > 0 {
        assert(facts[at - 1] == before[at - 1]@);
    }
    if at > 0 && same_text(state.pair.pair_id.as_str(), states[at - 1].pair.pair_id.as_str()) {
        states.set(at - 1, state);
        proof {
            lemma_with_state_over(facts, state@, at - 1);
            assert(views(states@) =~= facts.update(at - 1, state@));
            assert(ids_ordered(views(states@))) by {
                let now = views(states@);
                assert forall|i: int, j: int| 0 <= i < j < now.len() implies text_before(
                    (#[trigger] now[i]).pair.pair_id,
                    (#[trigger] now[j]).pair.pair_id,
                ) by {
                    assert(text_before(facts[i].pair.pair_id, facts[j].pair.pair_id));
                }
            }
        }
    } else {
        proof {
            if at > 0 {
                lemma_text_order(
                    facts[at - 1].pair.pair_id,
                    state@.pair.pair_id,
                    state@.pair.pair_id,
                );
            }
            lemma_with_state_at(facts, state@, at as int);
        }
        states.insert(at, state);
        proof {
            let now = views(states@);
            assert(now =~= facts.insert(at as int, state@));
            assert forall|i: int, j: int| 0 <= i < j < now.len() implies text_before(
                (#[trigger] now[i]).pair.pair_id,
                (#[trigger] now[j]).pair.pair_id,
            ) by {
                if j == at {
                    if i < at - 1 {
                        lemma_text_order(
                            facts[i].pair.pair_id,
                            facts[at - 1].pair.pair_id,
                            state@.pair.pair_id,
                        );
                        assert(text_before(facts[i].pair.pair_id, facts[at - 1].pair.pair_id));
                        lemma_text_strict(
                            facts[i].pair.pair_id,
                            facts[at - 1].pair.pair_id,
                            state@.pair.pair_id,
                        );
                    }
                } else if i == at {
                    assert(now[j] == facts[j - 1]);
                } else {
                    let p = if i < at {
                        i
                    } else {
                        i - 1
                    };
                    let q = if j < at {
                        j
                    } else {
                        j - 1
                    };
                    assert(now[i] == facts[p] && now[j] == facts[q]);
                }
            }
        }
    }
}

proof fn lemma_text_strict(a: Seq<char>, b: Seq<char>, c: Seq<char>)
    requires
        text_before(a, b),
        text_before(b, c),
    ensures
        text_before(a, c),
{
    lemma_text_order(a, b, c);
    lemma_text_order(a, b, a);
    lemma_text_order(b, c, b);
    lemma_text_order(a, c, b);
    lemma_text_order(c, a, b);
    lemma_text_order(c, b, a);
}

proof fn lemma_with_state_members(states: Seq<StateFacts>, state: StateFacts)
    ensures
        forall|i: int|
            0 <= i < with_state(states, state).len() ==> #[trigger] with_state(states, state)[i]
                == state || states.contains(with_state(states, state)[i]),
    decreases states.len(),
{
    if states.len() > 0 {
        let head = states.drop_last();
        lemma_with_state_members(head, state);
        let result = with_state(states, state);
        assert forall|i: int| 0 <= i < result.len() implies #[trigger] result[i] == state
            || states.contains(result[i]) by {
            if states.last().pair.pair_id == state.pair.pair_id {
                if i < head.len() {
                    assert(states[i] == result[i]);
                }
            } else if text_before(states.last().pair.pair_id, state.pair.pair_id) {
                if i < states.len() {
                    assert(states[i] == result[i]);
                }
            } else if i == result.len() - 1 {
                assert(states[states.len() - 1] == result[i]);
            } else {
                let inner = with_state(head, state);
                assert(result[i] == inner[i]);
                if inner[i] != state {
                    assert(head.contains(inner[i]));
                    let k = choose|k: int| 0 <= k < head.len() && head[k] == inner[i];
                    assert(states[k] == inner[i]);
                }
            }
        }
    }
}

/// Whether any pair is viable.
pub open spec fn any_viable(states: Seq<StateFacts>) -> bool {
    exists|i: int| 0 <= i < states.len() && (#[trigger] states[i]).is_viable()
}

/// Whether packets went both ways on any pair.
pub open spec fn any_bidirectional(states: Seq<StateFacts>) -> bool {
    exists|i: int| 0 <= i < states.len() && (#[trigger] states[i]).bidirectional()
}

/// What a check does next.
#[derive(Debug, Clone, Copy, PartialEq, Eq, Structural)]
pub enum PunchPhase {
    /// Wait for a packet, for the next round, or for the end of this phase.
    Waiting { next_round: u64, deadline: u64 },
    Finished,
}

/// The check at the head of its loop. The first time that a pair is viable starts a period of
/// grace, in which the peer's probes are still answered.
pub open spec fn at_loop_head(facts: PunchFacts, now: u64) -> PunchFacts {
    if any_viable(facts.states) && facts.confirmation_deadline is None {
        PunchFacts {
            confirmation_deadline: Some(saturating_sum(now, facts.confirmation_grace)),
            ..facts
        }
    } else {
        facts
    }
}

/// What a check does next after it passed the head of its loop.
pub open spec fn phase_of(facts: PunchFacts, now: u64) -> PunchPhase {
    let over = if any_viable(facts.states) {
        now >= facts.confirmation_deadline->Some_0
    } else {
        now >= facts.search_deadline
    };
    if over {
        PunchPhase::Finished
    } else {
        PunchPhase::Waiting {
            next_round: facts.next_round,
            deadline: match facts.confirmation_deadline {
                Some(deadline) => deadline,
                None => facts.search_deadline,
            },
        }
    }
}

/// The time from `earlier` to `later`, none if it is not later.
pub open spec fn elapsed(earlier: u64, later: u64) -> u64 {
    if later >= earlier {
        (later - earlier) as u64
    } else {
        0
    }
}

/// The check at the start of a round. As long as nothing went both ways, the fast cadence comes
/// back from time to time: two ends rarely start at the same instant, and slowing down for good
/// would make it ever less likely that their packets meet.
pub open spec fn round_started(facts: PunchFacts, now: u64) -> PunchFacts {
    let resynchronize = now >= facts.next_resynchronization && !any_bidirectional(facts.states);
    let new_window = elapsed(facts.rate_window, now) >= SECOND;
    PunchFacts {
        interval: if resynchronize {
            facts.initial_interval
        } else {
            facts.interval
        },
        next_resynchronization: if resynchronize {
            saturating_sum(now, facts.resynchronize_interval)
        } else {
            facts.next_resynchronization
        },
        rate_window: if new_window {
            now
        } else {
            facts.rate_window
        },
        packets_this_window: if new_window {
            0
        } else {
            facts.packets_this_window
        },
        ..facts
    }
}

/// The check at the end of a round: the next one comes after the interval and up to a tenth of
/// a second of jitter, and the interval doubles up to its limit.
pub open spec fn round_ended(facts: PunchFacts, jitter: u16, now: u64) -> PunchFacts {
    PunchFacts {
        next_round: saturating_sum(
            saturating_sum(now, facts.interval),
            (jitter as int % 101 * MILLISECOND) as u64,
        ),
        interval: if facts.interval * 2 < facts.max_interval {
            (facts.interval * 2) as u64
        } else {
            facts.max_interval
        },
        ..facts
    }
}

/// What the turn of one pair in a round asks for.
pub enum RoundStep {
    /// The rate limit is reached: the round is over.
    Stop,
    /// This pair has nothing to send now.
    Skip,
    /// Send the packet.
    Send { encoded: [u8; PROBE_PACKET_BYTES], destination: SocketAddress, key: ProbeKey },
}

/// Whether a pair has just sent a confirmation.
pub open spec fn confirmed_lately(facts: PunchFacts, state: StateFacts, now: u64) -> bool {
    state.last_confirm_sent matches Some(last) && elapsed(last, now) < facts.interval
}

/// What a pair sends in a round: a confirmation once packets went both ways, else a request.
pub open spec fn probe_kind(state: StateFacts) -> ProbeKind {
    if state.bidirectional() {
        ProbeKind::Confirm
    } else {
        ProbeKind::Request
    }
}

/// The check after the turn of a pair that sends a probe.
pub open spec fn after_turn(facts: PunchFacts, at: int, now: u64) -> PunchFacts {
    let state = facts.states[at];
    PunchFacts {
        sequence: (facts.sequence + 1) as u64,
        states: if state.bidirectional() {
            facts.states.update(at, StateFacts { last_confirm_sent: Some(now), ..state })
        } else {
            facts.states
        },
        ..facts
    }
}

/// The probe that a pair sends on its turn.
pub open spec fn turn_packet(facts: PunchFacts, at: int, now_unix_ms: u64) -> ProbePacket {
    let state = facts.states[at];
    packet_of(
        probe_kind(state),
        facts.role,
        facts.connectivity_session_id,
        facts.transfer_id,
        state.wire_id,
        (facts.sequence + 1) as u64,
        facts.nonce,
        now_unix_ms,
        saturating_sum(
            saturating_sum(now_unix_ms, facts.timeout / MILLISECOND),
            5_000,
        ),
        facts.key@,
    )
}

/// The check after a probe left.
pub open spec fn after_probe_sent(facts: PunchFacts, at: int, key: ProbeKey, now: u64) -> PunchFacts {
    let state = facts.states[at];
    PunchFacts {
        states: facts.states.update(
            at,
            StateFacts { probes_sent: (state.probes_sent + 1) as u32, ..state },
        ),
        total_sent: (facts.total_sent + 1) as u32,
        packets_this_window: (facts.packets_this_window + 1) as u32,
        sent: facts.sent.insert(key@, now),
        ..facts
    }
}

impl HolePunch {
    /// What every running check keeps.
    pub closed spec fn wf(self) -> bool {
        &&& self.sent.wf()
        &&& self.replay.wf()
        &&& punch_wf(self@)
    }

    /// Begins a check of pairs of one address family.
    #[allow(clippy::too_many_arguments)]
    pub fn begin(
        pairs: &Vec<NativeCandidatePair>,
        role: NativeDeviceRole,
        connectivity_session_id: [u8; 16],
        transfer_id: [u8; 16],
        key: [u8; 32],
        nonce: [u8; 16],
        config: HolePunchConfig,
        now: u64,
        now_unix_ms: u64,
    ) -> (result: Result<Self, String>)
        ensures
            match result {
                Ok(punch) => {
                    &&& punch.wf()
                    &&& start_defect(views(pairs@)) is None
                    &&& punch@ == started_punch(
                        views(pairs@),
                        role,
                        connectivity_session_id,
                        transfer_id,
                        key,
                        nonce,
                        config,
                        now,
                        now_unix_ms,
                    )
                },
                Err(error) => start_defect(views(pairs@)) == Some(error@),
            },
    {
        if pairs.len() == 0 {
            return Err("native-connectivity-no-candidate-pairs".to_owned());
        }
        let ghost facts = views(pairs@);
        let family = pairs[0].address_family;
        let mut index: usize = 0;
        while index < pairs.len()
            invariant
                index <= pairs@.len(),
                pairs@.len() > 0,
                facts == views(pairs@),
                family == facts[0].address_family,
                forall|i: int| 0 <= i < index ==> (#[trigger] facts[i]).address_family == family,
            decreases pairs@.len() - index,
        {
            assert(facts[index as int] == pairs@[index as int]@);
            if pairs[index].address_family != family {
                return Err("native-connectivity-mixed-family-check-invalid".to_owned());
            }
            index += 1;
        }
        let count: usize = if pairs.len() < MAX_ACTIVE_PAIRS {
            pairs.len()
        } else {
            MAX_ACTIVE_PAIRS
        };
        let mut states: Vec<PairState> = Vec::new();
        let mut at: usize = 0;
        assert(views(states@) =~= start_states(facts, 0));
        while at < count
            invariant
                at <= count <= pairs@.len(),
                count == active_pairs(facts),
                facts == views(pairs@),
                states@.len() <= at,
                views(states@) == start_states(facts, at as nat),
                ids_ordered(views(states@)),
                forall|i: int|
                    0 <= i < views(states@).len() ==> state_within(
                        #[trigger] views(states@)[i],
                        0,
                        0,
                    ),
                forall|i: int| 0 <= i < facts.len() ==> (#[trigger] facts[i]).address_family
                    == facts[0].address_family,
                forall|i: int| 0 <= i < at ==> is_pair_id((#[trigger] facts[i]).pair_id),
                pairs@.len() > 0,
            decreases count - at,
        {
            let pair: &NativeCandidatePair = &pairs[at];
            assert(facts[at as int] == pair@);
            let wire_id: [u8; 16] = match decode_pair_id(pair.pair_id.as_str()) {
                Ok(bytes) => bytes,
                Err(error) => {
                    proof {
                        if is_pair_id(pair@.pair_id) {
                            let bytes = wire_id_of(pair@.pair_id);
                            assert(hex_text(bytes@) == pair@.pair_id);
                        }
                        assert(!is_pair_id(facts[at as int].pair_id));
                    }
                    return Err(error);
                },
            };
            proof {
                lemma_wire_id(pair@.pair_id, wire_id);
                lemma_with_state_members(
                    views(states@),
                    fresh_state(pair@, wire_id),
                );
            }
            put_state(&mut states, PairState::new(pair.clone(), wire_id));
            at += 1;
        }
        let timeout: u64 = crate::arith::clamp_u64(config.total_timeout, SECOND, 30 * SECOND);
        let initial_interval: u64 = crate::arith::clamp_u64(
            config.initial_interval,
            100 * MILLISECOND,
            SECOND,
        );
        let max_interval: u64 = crate::arith::clamp_u64(
            config.max_interval,
            initial_interval,
            3 * SECOND,
        );
        let resynchronize_interval: u64 = crate::arith::clamp_u64(
            config.resynchronize_interval,
            500 * MILLISECOND,
            5 * SECOND,
        );
        let confirmation_grace: u64 = crate::arith::clamp_u64(
            config.confirmation_grace,
            500 * MILLISECOND,
            5 * SECOND,
        );
        Ok(
            HolePunch {
                role,
                connectivity_session_id,
                transfer_id,
                key,
                nonce,
                timeout,
                initial_interval,
                max_interval,
                resynchronize_interval,
                confirmation_grace,
                started_unix_ms: now_unix_ms,
                started: now,
                search_deadline: now.saturating_add(timeout),
                confirmation_deadline: None,
                sequence: 0,
                states,
                sent: Registry::new(),
                replay: ProbeReplaySet::new(),
                next_round: now,
                next_resynchronization: now.saturating_add(resynchronize_interval),
                interval: initial_interval,
                packets_this_window: 0,
                rate_window: now,
                total_sent: 0,
                total_received: 0,
                authenticated_received: 0,
                invalid_received: 0,
                replayed_received: 0,
            },
        )
    }
}

fn holds_viable(states: &Vec<PairState>) -> (found: bool)
    ensures
        found == any_viable(views(states@)),
{
    let mut index: usize = 0;
    while index < states.len()
        invariant
            index <= states@.len(),
            forall|i: int| 0 <= i < index ==> !(#[trigger] views(states@)[i]).is_viable(),
        decreases states@.len() - index,
    {
        assert(views(states@)[index as int] == states@[index as int]@);
        if states[index].viable() {
            return true;
        }
        index += 1;
    }
    false
}

fn holds_bidirectional(states: &Vec<PairState>) -> (found: bool)
    ensures
        found == any_bidirectional(views(states@)),
{
    let mut index: usize = 0;
    while index < states.len()
        invariant
            index <= states@.len(),
            forall|i: int| 0 <= i < index ==> !(#[trigger] views(states@)[i]).bidirectional(),
        decreases states@.len() - index,
    {
        assert(views(states@)[index as int] == states@[index as int]@);
        if states[index].base_bidirectional() {
            return true;
        }
        index += 1;
    }
    false
}

fn time_between(earlier: u64, later: u64) -> (time: u64)
    ensures
        time == elapsed(earlier, later),
{
    if later >= earlier {
        later - earlier
    } else {
        0
    }
}

/// A packet to send.
pub struct OutgoingProbe {
    pub encoded: [u8; PROBE_PACKET_BYTES],
    pub destination: SocketAddress,
}

/// Whether a packet belongs to this check, and is in its time give or take 30 seconds.
pub open spec fn belongs(facts: PunchFacts, packet: ProbePacket, now_unix_ms: u64) -> bool {
    &&& packet.connectivity_session_id == facts.connectivity_session_id
    &&& packet.transfer_id == facts.transfer_id
    &&& packet.role == facts.role.other()
    &&& now_unix_ms <= saturating_sum(packet.expires_unix_ms, 30_000)
    &&& packet.sent_unix_ms <= saturating_sum(now_unix_ms, 30_000)
}

/// Whether the pair at `at` is the one with the identifier.
pub open spec fn is_pair_at(states: Seq<StateFacts>, wire_id: [u8; 16], at: int) -> bool {
    0 <= at < states.len() && states[at].wire_id == wire_id
}

/// The packet that the bytes are, if they are one under the key.
pub open spec fn packet_in(bytes: Seq<u8>, key: Seq<u8>) -> Option<ProbePacket> {
    if probe_defect(bytes, key) is None {
        Some(choose|packet: ProbePacket| #[trigger] packet.wire() == bytes)
    } else {
        None
    }
}

/// The check after a packet that is dropped as invalid.
pub open spec fn dropped(facts: PunchFacts) -> PunchFacts {
    PunchFacts {
        total_received: (facts.total_received + 1) as u32,
        invalid_received: (facts.invalid_received + 1) as u32,
        ..facts
    }
}

/// The check after a packet of the pair at `at` that was seen before.
pub open spec fn dropped_replay(facts: PunchFacts, at: int) -> PunchFacts {
    let state = facts.states[at];
    PunchFacts {
        total_received: (facts.total_received + 1) as u32,
        replayed_received: (facts.replayed_received + 1) as u32,
        states: facts.states.update(
            at,
            StateFacts { replayed: (state.replayed + 1) as u32, ..state },
        ),
        ..facts
    }
}

/// The check after a new packet of the pair at `at` from a source that cannot be its own.
pub open spec fn dropped_source(facts: PunchFacts, at: int, packet: ProbePacket) -> PunchFacts {
    let state = facts.states[at];
    PunchFacts {
        total_received: (facts.total_received + 1) as u32,
        invalid_received: (facts.invalid_received + 1) as u32,
        replay: remembered(facts.replay, replay_key(packet)),
        states: facts.states.update(
            at,
            StateFacts { invalid: (state.invalid + 1) as u32, ..state },
        ),
        ..facts
    }
}

/// What identifies the probe that a packet answers.
pub open spec fn answered_key(packet: ProbePacket) -> (Seq<u8>, u64, ProbeKind) {
    (
        packet.pair_id@,
        packet.sequence,
        if packet.kind is Response {
            ProbeKind::Request
        } else {
            ProbeKind::Confirm
        },
    )
}

/// The shorter of the best round trip so far and a new one.
pub open spec fn best_of(best: Option<u64>, time: u64) -> Option<u64> {
    match best {
        Some(known) => if known <= time {
            best
        } else {
            Some(time)
        },
        None => Some(time),
    }
}

/// What is known of a pair after an accepted packet from a usable source, where `answers` is
/// when the probe that it answers was sent, if it answers one.
pub open spec fn after_packet(
    state: StateFacts,
    packet: ProbePacket,
    source: SocketAddress,
    answers: Option<u64>,
    now: u64,
) -> StateFacts {
    let seen = after_source(state, source);
    match packet.kind {
        ProbeKind::Request => StateFacts {
            inbound_requests: (seen.inbound_requests + 1) as u32,
            ..seen
        },
        ProbeKind::Confirm => StateFacts { remote_confirm: true, ..seen },
        ProbeKind::Response => match answers {
            Some(start) => StateFacts {
                best_rtt: best_of(seen.best_rtt, elapsed(start, now)),
                outbound_responses: (seen.outbound_responses + 1) as u32,
                ..seen
            },
            None => StateFacts { invalid: (seen.invalid + 1) as u32, ..seen },
        },
        ProbeKind::ConfirmAck => match answers {
            Some(start) => StateFacts {
                best_rtt: best_of(seen.best_rtt, elapsed(start, now)),
                confirm_ack: true,
                ..seen
            },
            None => StateFacts { invalid: (seen.invalid + 1) as u32, ..seen },
        },
    }
}

/// When the probe that a packet answers was sent, if it answers one that waits.
pub open spec fn answered(facts: PunchFacts, packet: ProbePacket) -> Option<u64> {
    if facts.sent.contains_key(answered_key(packet)) {
        Some(facts.sent[answered_key(packet)])
    } else {
        None
    }
}

/// The check after an accepted packet of the pair at `at` from a usable source.
pub open spec fn accepted_packet(
    facts: PunchFacts,
    at: int,
    packet: ProbePacket,
    source: SocketAddress,
    now: u64,
) -> PunchFacts {
    let is_answer = packet.kind is Response || packet.kind is ConfirmAck;
    let answers = answered(facts, packet);
    PunchFacts {
        total_received: (facts.total_received + 1) as u32,
        authenticated_received: (facts.authenticated_received + 1) as u32,
        invalid_received: if is_answer && answers is None {
            (facts.invalid_received + 1) as u32
        } else {
            facts.invalid_received
        },
        replay: remembered(facts.replay, replay_key(packet)),
        sent: if is_answer {
            facts.sent.remove(answered_key(packet))
        } else {
            facts.sent
        },
        states: facts.states.update(
            at,
            after_packet(facts.states[at], packet, source, answers, now),
        ),
        ..facts
    }
}

/// The answer to an accepted packet.
pub open spec fn reply_packet(facts: PunchFacts, packet: ProbePacket, now_unix_ms: u64) -> ProbePacket {
    packet_of(
        if packet.kind is Request {
            ProbeKind::Response
        } else {
            ProbeKind::ConfirmAck
        },
        facts.role,
        facts.connectivity_session_id,
        facts.transfer_id,
        packet.pair_id,
        packet.sequence,
        facts.nonce,
        now_unix_ms,
        saturating_sum(now_unix_ms, 5_000),
        facts.key@,
    )
}

/// What happens to a packet that arrives.
pub enum Arrival {
    Invalid,
    Replayed { at: int },
    WrongSource { at: int, packet: ProbePacket },
    Accepted { at: int, packet: ProbePacket },
}

/// What happens to the bytes that arrive from a source: they are dropped unless they are an
/// authentic packet of this check for one of its pairs, which was not seen before and came from
/// a source that the pair can have.
pub open spec fn arrival_of(
    facts: PunchFacts,
    bytes: Seq<u8>,
    source: SocketAddress,
    now_unix_ms: u64,
) -> Arrival {
    match packet_in(bytes, facts.key@) {
        None => Arrival::Invalid,
        Some(packet) => if !belongs(facts, packet, now_unix_ms) || !exists|at: int|
            #[trigger] is_pair_at(facts.states, packet.pair_id, at) {
            Arrival::Invalid
        } else {
            let at = choose|at: int| #[trigger] is_pair_at(facts.states, packet.pair_id, at);
            if facts.replay.contains(replay_key(packet)) {
                Arrival::Replayed { at }
            } else if !usable_source(source, facts.states[at].pair.address_family) {
                Arrival::WrongSource { at, packet }
            } else {
                Arrival::Accepted { at, packet }
            }
        },
    }
}

/// The check after bytes arrived.
pub open spec fn after_arrival(
    facts: PunchFacts,
    bytes: Seq<u8>,
    source: SocketAddress,
    now: u64,
    now_unix_ms: u64,
) -> PunchFacts {
    match arrival_of(facts, bytes, source, now_unix_ms) {
        Arrival::Invalid => dropped(facts),
        Arrival::Replayed { at } => dropped_replay(facts, at),
        Arrival::WrongSource { at, packet } => dropped_source(facts, at, packet),
        Arrival::Accepted { at, packet } => accepted_packet(facts, at, packet, source, now),
    }
}

proof fn lemma_one_pair_at(states: Seq<StateFacts>, wire_id: [u8; 16], a: int, b: int, sent: u32, received: u32)
    requires
        ids_ordered(states),
        forall|i: int| 0 <= i < states.len() ==> state_within(#[trigger] states[i], sent, received),
        is_pair_at(states, wire_id, a),
        is_pair_at(states, wire_id, b),
    ensures
        a == b,
{
    assert(state_within(states[a], sent, received));
    assert(state_within(states[b], sent, received));
    let id = hex_text(wire_id@);
    assert(states[a].pair.pair_id == id);
    assert(states[b].pair.pair_id == id);
    lemma_text_order(id, id, id);
    if a < b {
        assert(text_before(states[a].pair.pair_id, states[b].pair.pair_id));
    } else if b < a {
        assert(text_before(states[b].pair.pair_id, states[a].pair.pair_id));
    }
}

proof fn lemma_packet_in(packet: ProbePacket, key: Seq<u8>)
    requires
        probe_defect(packet.wire(), key) is None,
    ensures
        packet_in(packet.wire(), key) == Some(packet),
{
    let chosen = choose|other: ProbePacket| #[trigger] other.wire() == packet.wire();
    assert(chosen.wire() == packet.wire());
    law_probe_bytes_determine_packet(chosen, packet);
}

impl HolePunch {
    /// Whether the counters still have room for another packet.
    pub fn has_room(&self) -> (room: bool)
        ensures
            room == (self@.total_sent < u32::MAX && self@.total_received < u32::MAX),
    {
        self.total_sent < u32::MAX && self.total_received < u32::MAX
    }

    /// How many pairs take part.
    pub fn pair_count(&self) -> (count: usize)
        ensures
            count == self@.states.len(),
    {
        self.states.len()
    }

    /// Passes the head of the loop and says what to wait for.
    pub fn phase(&mut self, now: u64) -> (phase: PunchPhase)
        requires
            old(self).wf(),
        ensures
            final(self).wf(),
            final(self)@ == at_loop_head(old(self)@, now),
            phase == phase_of(final(self)@, now),
    {
        if holds_viable(&self.states) {
            let linger_until: u64 = match self.confirmation_deadline {
                Some(deadline) => deadline,
                None => {
                    let deadline: u64 = now.saturating_add(self.confirmation_grace);
                    self.confirmation_deadline = Some(deadline);
                    deadline
                },
            };
            if now >= linger_until {
                return PunchPhase::Finished;
            }
        } else if now >= self.search_deadline {
            return PunchPhase::Finished;
        }
        PunchPhase::Waiting {
            next_round: self.next_round,
            deadline: match self.confirmation_deadline {
                Some(deadline) => deadline,
                None => self.search_deadline,
            },
        }
    }

    /// Starts a round of probes.
    pub fn start_round(&mut self, now: u64)
        requires
            old(self).wf(),
        ensures
            final(self).wf(),
            final(self)@ == round_started(old(self)@, now),
    {
        if now >= self.next_resynchronization && !holds_bidirectional(&self.states) {
            self.interval = self.initial_interval;
            self.next_resynchronization = now.saturating_add(self.resynchronize_interval);
        }
        if time_between(self.rate_window, now) >= SECOND {
            self.rate_window = now;
            self.packets_this_window = 0;
        }
    }

    /// Ends a round of probes with two random bytes for the jitter.
    pub fn end_round(&mut self, jitter: u16, now: u64)
        requires
            old(self).wf(),
        ensures
            final(self).wf(),
            final(self)@ == round_ended(old(self)@, jitter, now),
    {
        let pause: u64 = (jitter % 101) as u64 * MILLISECOND;
        self.next_round = now.saturating_add(self.interval).saturating_add(pause);
        let doubled: u64 = self.interval * 2;
        self.interval = if doubled < self.max_interval {
            doubled
        } else {
            self.max_interval
        };
    }

    /// The turn of the pair at `at` in a round.
    pub fn take_turn(&mut self, at: usize, now: u64, now_unix_ms: u64) -> (result: Result<
        RoundStep,
        String,
    >)
        requires
            old(self).wf(),
            at < old(self)@.states.len(),
        ensures
            final(self).wf(),
            ({
                let before = old(self)@;
                let state = before.states[at as int];
                if before.packets_this_window >= MAX_PROBES_PER_SECOND {
                    result matches Ok(RoundStep::Stop) && final(self)@ == before
                } else if state.bidirectional() && confirmed_lately(before, state, now) {
                    result matches Ok(RoundStep::Skip) && final(self)@ == before
                } else if before.sequence == u64::MAX {
                    result matches Err(error) && error@ == "native-probe-sequence-exhausted"@
                        && final(self)@ == before
                } else {
                    &&& final(self)@ == after_turn(before, at as int, now)
                    &&& result matches Ok(RoundStep::Send { encoded, destination, key })
                        && encoded@ == turn_packet(before, at as int, now_unix_ms).wire()
                        && destination == state.destination() && key.pair == state.wire_id
                        && key.sequence == before.sequence + 1 && key.kind == probe_kind(state)
                }
            }),
    {
        if self.packets_this_window >= MAX_PROBES_PER_SECOND {
            return Ok(RoundStep::Stop);
        }
        let ghost before = self@;
        assert(before.states[at as int] == self.states@[at as int]@);
        let confirming: bool = self.states[at].base_bidirectional();
        if confirming {
            match self.states[at].last_confirm_sent {
                Some(last) => {
                    if time_between(last, now) < self.interval {
                        return Ok(RoundStep::Skip);
                    }
                },
                None => {},
            }
        }
        if self.sequence == u64::MAX {
            return Err("native-probe-sequence-exhausted".to_owned());
        }
        let kind = if confirming {
            ProbeKind::Confirm
        } else {
            ProbeKind::Request
        };
        self.sequence = self.sequence + 1;
        let wire_id: [u8; 16] = self.states[at].wire_id;
        let destination: SocketAddress = self.states[at].destination_of();
        let packet = ProbePacket::new(
            kind,
            self.role,
            self.connectivity_session_id,
            self.transfer_id,
            wire_id,
            self.sequence,
            self.nonce,
            now_unix_ms,
            now_unix_ms.saturating_add(self.timeout / MILLISECOND).saturating_add(5_000),
            &self.key,
        );
        if confirming {
            let ghost states = self.states@;
            let state: &mut PairState = &mut self.states[at];
            state.last_confirm_sent = Some(now);
            assert(views(self.states@) =~= before.states.update(
                at as int,
                StateFacts { last_confirm_sent: Some(now), ..before.states[at as int] },
            ));
        }
        Ok(
            RoundStep::Send {
                encoded: packet.encode(),
                destination,
                key: ProbeKey { pair: wire_id, sequence: self.sequence, kind },
            },
        )
    }

    /// Takes note that the probe of the pair at `at` has left.
    pub fn probe_sent(&mut self, at: usize, key: ProbeKey, now: u64)
        requires
            old(self).wf(),
            at < old(self)@.states.len(),
            old(self)@.total_sent < u32::MAX,
            old(self)@.packets_this_window < MAX_PROBES_PER_SECOND,
        ensures
            final(self).wf(),
            final(self)@ == after_probe_sent(old(self)@, at as int, key, now),
    {
        let ghost before = self@;
        assert(before.states[at as int] == self.states@[at as int]@);
        assert(state_within(before.states[at as int], before.total_sent, before.total_received));
        let state: &mut PairState = &mut self.states[at];
        state.probes_sent = state.probes_sent + 1;
        self.total_sent = self.total_sent + 1;
        self.packets_this_window = self.packets_this_window + 1;
        let _ = self.sent.remove(&key);
        self.sent.insert(key, now);
        assert(self.sent@ =~= before.sent.insert(key@, now));
        assert(views(self.states@) =~= after_probe_sent(before, at as int, key, now).states);
    }

    /// Takes note that an answer has left.
    pub fn reply_sent(&mut self)
        requires
            old(self).wf(),
            old(self)@.total_sent < u32::MAX,
        ensures
            final(self).wf(),
            final(self)@ == (PunchFacts {
                total_sent: (old(self)@.total_sent + 1) as u32,
                ..old(self)@
            }),
    {
        self.total_sent = self.total_sent + 1;
    }
}

fn find_pair(states: &Vec<PairState>, wire_id: &[u8; 16]) -> (found: Option<usize>)
    ensures
        match found {
            Some(at) => is_pair_at(views(states@), *wire_id, at as int),
            None => forall|at: int| !#[trigger] is_pair_at(views(states@), *wire_id, at),
        },
{
    let mut index: usize = 0;
    while index < states.len()
        invariant
            index <= states@.len(),
            forall|at: int|
                0 <= at < index ==> !#[trigger] is_pair_at(views(states@), *wire_id, at),
        decreases states@.len() - index,
    {
        assert(views(states@)[index as int] == states@[index as int]@);
        if bytes_equal(&states[index].wire_id, wire_id) {
            assert(states@[index as int].wire_id =~= *wire_id);
            return Some(index);
        }
        index += 1;
    }
    None
}

impl HolePunch {
    fn belongs_here(&self, packet: &ProbePacket, now_unix_ms: u64) -> (result: bool)
        ensures
            result == belongs(self@, *packet, now_unix_ms),
    {
        let same_session: bool = bytes_equal(
            &packet.connectivity_session_id,
            &self.connectivity_session_id,
        );
        let same_transfer: bool = bytes_equal(&packet.transfer_id, &self.transfer_id);
        assert(same_session ==> packet.connectivity_session_id =~= self.connectivity_session_id);
        assert(same_transfer ==> packet.transfer_id =~= self.transfer_id);
        same_session && same_transfer && packet.role == self.role.opposite()
            && packet.expires_unix_ms.saturating_add(30_000) >= now_unix_ms && packet.sent_unix_ms
            <= now_unix_ms.saturating_add(30_000)
    }

    fn drop_packet(&mut self)
        requires
            old(self).wf(),
            old(self)@.total_received < u32::MAX,
        ensures
            final(self).wf(),
            final(self)@ == dropped(old(self)@),
    {
        let ghost before = self@;
        self.total_received = self.total_received + 1;
        self.invalid_received = self.invalid_received + 1;
        proof {
            assert(self@ =~= dropped(before));
            assert forall|i: int| 0 <= i < self@.states.len() implies state_within(
                #[trigger] self@.states[i],
                self@.total_sent,
                self@.total_received,
            ) by {
                assert(state_within(before.states[i], before.total_sent, before.total_received));
            }
        }
    }

    /// Takes a packet of the pair at `at`, and gives back the answer to it.
    fn take_packet(
        &mut self,
        at: usize,
        packet: &ProbePacket,
        source: SocketAddress,
        now: u64,
        now_unix_ms: u64,
    ) -> (reply: Option<OutgoingProbe>)
        requires
            old(self).wf(),
            old(self)@.total_received < u32::MAX,
            at < old(self)@.states.len(),
        ensures
            final(self).wf(),
            ({
                let before = old(self)@;
                let fresh = !before.replay.contains(replay_key(*packet));
                let usable = fresh && usable_source(
                    source,
                    before.states[at as int].pair.address_family,
                );
                &&& final(self)@ == if !fresh {
                    dropped_replay(before, at as int)
                } else if usable {
                    accepted_packet(before, at as int, *packet, source, now)
                } else {
                    dropped_source(before, at as int, *packet)
                }
                &&& match reply {
                    Some(probe) => usable && (packet.kind is Request || packet.kind is Confirm)
                        && probe.destination == source && probe.encoded@ == reply_packet(
                        before,
                        *packet,
                        now_unix_ms,
                    ).wire(),
                    None => !usable || packet.kind is Response || packet.kind is ConfirmAck,
                }
            }),
    {
        let ghost before = self@;
        assert(before.states[at as int] == self.states@[at as int]@);
        proof {
            assert forall|i: int| 0 <= i < before.states.len() implies state_within(
                #[trigger] before.states[i],
                before.total_sent,
                (before.total_received + 1) as u32,
            ) by {
                assert(state_within(before.states[i], before.total_sent, before.total_received));
            }
        }
        assert(state_within(before.states[at as int], before.total_sent, before.total_received));
        self.total_received = self.total_received + 1;
        let fresh: bool = accept_probe_once(&mut self.replay, packet);
        let state: &mut PairState = &mut self.states[at];
        if !fresh {
            state.replayed = state.replayed + 1;
            self.replayed_received = self.replayed_received + 1;
            assert(views(self.states@) =~= dropped_replay(before, at as int).states);
            return None;
        }
        if !observe_authenticated_source(state, source) {
            state.invalid = state.invalid + 1;
            self.invalid_received = self.invalid_received + 1;
            assert(views(self.states@) =~= dropped_source(before, at as int, *packet).states);
            return None;
        }
        self.authenticated_received = self.authenticated_received + 1;
        match packet.kind {
            ProbeKind::Request | ProbeKind::Confirm => {
                if packet.kind == ProbeKind::Request {
                    state.inbound_requests = state.inbound_requests + 1;
                } else {
                    state.remote_confirm = true;
                }
                let kind = if packet.kind == ProbeKind::Request {
                    ProbeKind::Response
                } else {
                    ProbeKind::ConfirmAck
                };
                let response = ProbePacket::new(
                    kind,
                    self.role,
                    self.connectivity_session_id,
                    self.transfer_id,
                    packet.pair_id,
                    packet.sequence,
                    self.nonce,
                    now_unix_ms,
                    now_unix_ms.saturating_add(5_000),
                    &self.key,
                );
                assert(views(self.states@) =~= accepted_packet(
                    before,
                    at as int,
                    *packet,
                    source,
                    now,
                ).states);
                Some(OutgoingProbe { encoded: response.encode(), destination: source })
            },
            ProbeKind::Response | ProbeKind::ConfirmAck => {
                let original = if packet.kind == ProbeKind::Response {
                    ProbeKind::Request
                } else {
                    ProbeKind::Confirm
                };
                let key = ProbeKey {
                    pair: packet.pair_id,
                    sequence: packet.sequence,
                    kind: original,
                };
                match self.sent.remove(&key) {
                    Some(start) => {
                        let time: u64 = time_between(start, now);
                        state.best_rtt = match state.best_rtt {
                            Some(best) => if best <= time {
                                Some(best)
                            } else {
                                Some(time)
                            },
                            None => Some(time),
                        };
                        if packet.kind == ProbeKind::Response {
                            state.outbound_responses = state.outbound_responses + 1;
                        } else {
                            state.confirm_ack = true;
                        }
                    },
                    None => {
                        state.invalid = state.invalid + 1;
                        self.invalid_received = self.invalid_received + 1;
                    },
                }
                assert(self.sent@ =~= before.sent.remove(answered_key(*packet)));
                assert(views(self.states@) =~= accepted_packet(
                    before,
                    at as int,
                    *packet,
                    source,
                    now,
                ).states);
                None
            },
        }
    }

    /// Takes the bytes that arrived from a source, and gives back the answer to send there.
    pub fn receive(
        &mut self,
        bytes: &[u8],
        source: SocketAddress,
        now: u64,
        now_unix_ms: u64,
    ) -> (reply: Option<OutgoingProbe>)
        requires
            old(self).wf(),
            old(self)@.total_received < u32::MAX,
        ensures
            final(self).wf(),
            final(self)@ == after_arrival(old(self)@, bytes@, source, now, now_unix_ms),
            match reply {
                Some(probe) => {
                    &&& arrival_of(old(self)@, bytes@, source, now_unix_ms) matches
                        Arrival::Accepted { at, packet }
                    &&& packet.kind is Request || packet.kind is Confirm
                    &&& probe.destination == source
                    &&& probe.encoded@ == reply_packet(old(self)@, packet, now_unix_ms).wire()
                },
                None => !(arrival_of(old(self)@, bytes@, source, now_unix_ms) matches
                    Arrival::Accepted { at, packet } && (packet.kind is Request
                    || packet.kind is Confirm)),
            },
    {
        let ghost before = self@;
        let packet: ProbePacket = match ProbePacket::decode(bytes, &self.key) {
            Ok(packet) => packet,
            Err(_) => {
                self.drop_packet();
                return None;
            },
        };
        proof {
            lemma_packet_in(packet, self.key@);
        }
        if !self.belongs_here(&packet, now_unix_ms) {
            self.drop_packet();
            return None;
        }
        let at: usize = match find_pair(&self.states, &packet.pair_id) {
            Some(at) => at,
            None => {
                self.drop_packet();
                return None;
            },
        };
        proof {
            let chosen = choose|other: int| #[trigger]
                is_pair_at(before.states, packet.pair_id, other);
            assert(is_pair_at(before.states, packet.pair_id, at as int));
            lemma_one_pair_at(
                before.states,
                packet.pair_id,
                chosen,
                at as int,
                before.total_sent,
                before.total_received,
            );
        }
        self.take_packet(at, &packet, source, now, now_unix_ms)
    }
}

/// What a check that ended without a chosen pair is classified as.
pub open spec fn punch_failure(facts: PunchFacts, cancelled: bool) -> Option<
    NativeConnectivityFailure,
> {
    if cancelled {
        Some(NativeConnectivityFailure::Cancelled)
    } else if best_viable(facts.states, facts.states.len()) is Some {
        None
    } else if facts.authenticated_received == 0 {
        Some(NativeConnectivityFailure::UdpBlocked)
    } else {
        Some(NativeConnectivityFailure::NoViablePair)
    }
}

/// The results of the pairs.
pub open spec fn pair_results_of(states: Seq<StateFacts>) -> Seq<ResultFacts> {
    Seq::new(states.len(), |i: int| result_of(states[i]))
}

/// Whether a report says how a check ended.
pub open spec fn reports(
    report: HolePunchReport,
    facts: PunchFacts,
    cancelled: bool,
    now: u64,
) -> bool {
    &&& report.started_unix_ms == facts.started_unix_ms
    &&& report.elapsed == elapsed(facts.started, now)
    &&& report.total_packets_sent == facts.total_sent
    &&& report.total_packets_received == facts.total_received
    &&& report.authenticated_packets_received == facts.authenticated_received
    &&& report.unauthenticated_packets_dropped == facts.invalid_received
    &&& report.replayed_packets_dropped == facts.replayed_received
    &&& report.rate_limit_packets_per_second == MAX_PROBES_PER_SECOND
    &&& views(report.pair_results@) == pair_results_of(facts.states)
    &&& match report.selected_pair_id {
        Some(id) => best_viable(facts.states, facts.states.len()) matches Some(i) && id@
            == facts.states[i].pair.pair_id,
        None => best_viable(facts.states, facts.states.len()) is None,
    }
    &&& report.failure == punch_failure(facts, cancelled)
}

impl HolePunch {
    /// Reports how the check ended.
    pub fn report(&self, cancelled: bool, now: u64) -> (report: HolePunchReport)
        requires
            self.wf(),
        ensures
            reports(report, self@, cancelled, now),
    {
        let best: Option<usize> = find_best(&self.states);
        let selected_pair_id: Option<String> = match best {
            Some(at) => {
                assert(self@.states[at as int] == self.states@[at as int]@);
                Some(self.states[at].pair.pair_id.clone())
            },
            None => None,
        };
        let failure = if cancelled {
            Some(NativeConnectivityFailure::Cancelled)
        } else if best.is_some() {
            None
        } else if self.authenticated_received == 0 {
            Some(NativeConnectivityFailure::UdpBlocked)
        } else {
            Some(NativeConnectivityFailure::NoViablePair)
        };
        let mut pair_results: Vec<ProbePairResult> = Vec::new();
        let mut index: usize = 0;
        while index < self.states.len()
            invariant
                index <= self.states@.len(),
                views(pair_results@) == pair_results_of(self@.states).take(index as int),
            decreases self.states@.len() - index,
        {
            let ghost before = views(pair_results@);
            pair_results.push(report_pair(&self.states[index]));
            proof {
                assert(self@.states[index as int] == self.states@[index as int]@);
                assert(views(pair_results@) =~= before.push(
                    result_of(self@.states[index as int]),
                ));
                assert(pair_results_of(self@.states).take(index + 1) =~= before.push(
                    result_of(self@.states[index as int]),
                ));
            }
            index += 1;
        }
        assert(pair_results_of(self@.states).take(self@.states.len() as int) =~= pair_results_of(
            self@.states,
        ));
        HolePunchReport {
            started_unix_ms: self.started_unix_ms,
            elapsed: time_between(self.started, now),
            total_packets_sent: self.total_sent,
            total_packets_received: self.total_received,
            authenticated_packets_received: self.authenticated_received,
            unauthenticated_packets_dropped: self.invalid_received,
            replayed_packets_dropped: self.replayed_received,
            rate_limit_packets_per_second: MAX_PROBES_PER_SECOND,
            pair_results,
            selected_pair_id,
            failure,
        }
    }
}

/// A report that selects a pair selects one that has shown all its signs of life. No such pair
/// has a higher priority, and of those with its priority none has a shorter time. Without such a
/// pair none is selected.
pub proof fn law_reports_select_the_best_pair(
    report: HolePunchReport,
    facts: PunchFacts,
    cancelled: bool,
    now: u64,
) -> (selected: int)
    requires
        reports(report, facts, cancelled, now),
    ensures
        match report.selected_pair_id {
            Some(id) => {
                let chosen = facts.states[selected];
                &&& 0 <= selected < facts.states.len()
                &&& chosen.pair.pair_id == id@
                &&& chosen.outbound_responses >= 2
                &&& chosen.inbound_requests >= 1
                &&& chosen.source_stable
                &&& chosen.remote_confirm
                &&& chosen.confirm_ack
                &&& forall|j: int|
                    0 <= j < facts.states.len() && (#[trigger] facts.states[j]).is_viable() ==> {
                        &&& facts.states[j].pair.priority <= chosen.pair.priority
                        &&& facts.states[j].pair.priority == chosen.pair.priority ==> match (
                            chosen.best_rtt,
                            facts.states[j].best_rtt,
                        ) {
                            (Some(time), Some(other)) => time <= other,
                            (Some(_), None) => false,
                            (None, _) => true,
                        }
                    }
            },
            None => forall|j: int|
                0 <= j < facts.states.len() ==> {
                    ||| (#[trigger] facts.states[j]).outbound_responses < 2
                    ||| facts.states[j].inbound_requests < 1
                    ||| !facts.states[j].source_stable
                    ||| !facts.states[j].remote_confirm
                    ||| !facts.states[j].confirm_ack
                },
        },
{
    law_choice_has_the_highest_priority(facts.states, facts.states.len());
    match best_viable(facts.states, facts.states.len()) {
        Some(i) => i,
        None => 0,
    }
}

/// Bytes that are not an authentic packet change nothing that is known of any pair, and are
/// never answered.
pub proof fn law_forged_packets_teach_nothing(
    facts: PunchFacts,
    bytes: Seq<u8>,
    source: SocketAddress,
    now: u64,
    now_unix_ms: u64,
)
    requires
        probe_defect(bytes, facts.key@) is Some,
    ensures
        after_arrival(facts, bytes, source, now, now_unix_ms).states == facts.states,
        arrival_of(facts, bytes, source, now_unix_ms) is Invalid,
{
}

/// A packet that was accepted before adds no evidence for any pair, and is never answered.
pub proof fn law_replayed_packets_teach_nothing(
    facts: PunchFacts,
    packet: ProbePacket,
    source: SocketAddress,
    now: u64,
    now_unix_ms: u64,
)
    requires
        packet.authentic(facts.key@),
        facts.replay.contains(replay_key(packet)),
    ensures
        ({
            let after = after_arrival(facts, packet.wire(), source, now, now_unix_ms);
            &&& after.states.len() == facts.states.len()
            &&& forall|i: int|
                0 <= i < facts.states.len() ==> (#[trigger] after.states[i]).is_viable()
                    == facts.states[i].is_viable() && after.states[i].confirmations()
                    == facts.states[i].confirmations()
            &&& !(arrival_of(facts, packet.wire(), source, now_unix_ms) is Accepted)
        }),
{
    law_probe_round_trip(packet, facts.key@);
    lemma_packet_in(packet, facts.key@);
}

} // verus!
