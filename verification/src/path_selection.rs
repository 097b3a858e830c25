//! Pairs of candidates: which local address may reach which remote one, and which pair is
//! preferred.

use crate::address::{is_private_or_local, IpAddress, SocketAddress};
use crate::bytes::copy_of;
use crate::candidates::{
    short_digest_text, text_bytes, write_bounded_string, CandidateFacts, NativeAddressFamily,
    NativeCandidate, NativeCandidateType,
};
use crate::crypto::{sha256, sha256_digest};
use crate::encoding::hex_text;
use crate::ordering::{in_order, is_text_before, lemma_text_order, sort, text_before, views, Ranked};
use crate::signaling::NativeDeviceRole;
use crate::text::same_text;
use vstd::prelude::*;
use vstd::utf8::encode_utf8;

verus! {

pub const MAX_CANDIDATE_PAIRS: usize = 256;

#[derive(Debug, Clone, Copy, PartialEq, Eq, Structural)]
pub enum EstimatedNativeRoute {
    SameLan,
    Ipv6Direct,
    MappedDirect,
    StunHolePunch,
    MixedDirect,
    ManualDirect,
}

/// The name of a route, as it is shown.
pub open spec fn route_label(route: EstimatedNativeRoute) -> Seq<char> {
    match route {
        EstimatedNativeRoute::SameLan => "same-lan"@,
        EstimatedNativeRoute::Ipv6Direct => "ipv6-direct"@,
        EstimatedNativeRoute::MappedDirect => "mapped-direct"@,
        EstimatedNativeRoute::StunHolePunch => "stun-hole-punch"@,
        EstimatedNativeRoute::MixedDirect => "mixed-direct"@,
        EstimatedNativeRoute::ManualDirect => "manual-direct"@,
    }
}

/// The name of a route, as it is shown.
pub fn selected_path_label(route: EstimatedNativeRoute) -> (label: &'static str)
    ensures
        label@ == route_label(route),
{
    match route {
        EstimatedNativeRoute::SameLan => "same-lan",
        EstimatedNativeRoute::Ipv6Direct => "ipv6-direct",
        EstimatedNativeRoute::MappedDirect => "mapped-direct",
        EstimatedNativeRoute::StunHolePunch => "stun-hole-punch",
        EstimatedNativeRoute::MixedDirect => "mixed-direct",
        EstimatedNativeRoute::ManualDirect => "manual-direct",
    }
}

#[derive(Debug, PartialEq, Eq)]
pub struct NativeCandidatePair {
    pub pair_id: String,
    pub local_candidate: NativeCandidate,
    pub remote_candidate: NativeCandidate,
    pub sender_candidate_id: String,
    pub receiver_candidate_id: String,
    pub address_family: NativeAddressFamily,
    pub estimated_route: EstimatedNativeRoute,
    pub priority: u64,
    /// The source endpoint observed from repeated authenticated probes when a NAT maps peer
    /// traffic differently from the advertised endpoint. The pair keeps the identity of its
    /// candidates; this is only the destination of what is sent.
    pub peer_reflexive_remote_endpoint: Option<SocketAddress>,
}

/// What a pair says.
pub struct PairFacts {
    pub pair_id: Seq<char>,
    pub local_candidate: CandidateFacts,
    pub remote_candidate: CandidateFacts,
    pub sender_candidate_id: Seq<char>,
    pub receiver_candidate_id: Seq<char>,
    pub address_family: NativeAddressFamily,
    pub estimated_route: EstimatedNativeRoute,
    pub priority: u64,
    pub peer_reflexive_remote_endpoint: Option<SocketAddress>,
}

impl PairFacts {
    /// Where packets to the remote end go.
    pub open spec fn remote_socket(self) -> SocketAddress {
        match self.peer_reflexive_remote_endpoint {
            Some(endpoint) => endpoint,
            None => self.remote_candidate.socket(),
        }
    }
}

impl View for NativeCandidatePair {
    type V = PairFacts;

    open spec fn view(&self) -> PairFacts {
        PairFacts {
            pair_id: self.pair_id@,
            local_candidate: self.local_candidate@,
            remote_candidate: self.remote_candidate@,
            sender_candidate_id: self.sender_candidate_id@,
            receiver_candidate_id: self.receiver_candidate_id@,
            address_family: self.address_family,
            estimated_route: self.estimated_route,
            priority: self.priority,
            peer_reflexive_remote_endpoint: self.peer_reflexive_remote_endpoint,
        }
    }
}

impl Clone for NativeCandidatePair {
    fn clone(&self) -> (copy: Self)
        ensures
            copy@ == self@,
    {
        NativeCandidatePair {
            pair_id: self.pair_id.clone(),
            local_candidate: self.local_candidate.clone(),
            remote_candidate: self.remote_candidate.clone(),
            sender_candidate_id: self.sender_candidate_id.clone(),
            receiver_candidate_id: self.receiver_candidate_id.clone(),
            address_family: self.address_family,
            estimated_route: self.estimated_route,
            priority: self.priority,
            peer_reflexive_remote_endpoint: self.peer_reflexive_remote_endpoint,
        }
    }
}

impl NativeCandidatePair {
    pub fn remote_socket_addr(&self) -> (socket: SocketAddress)
        ensures
            socket == self@.remote_socket(),
    {
        match self.peer_reflexive_remote_endpoint {
            Some(endpoint) => endpoint,
            None => self.remote_candidate.socket_addr(),
        }
    }
}

/// The identifier of the pair of a sender's and a receiver's candidate.
pub open spec fn pair_id_text(sender: Seq<char>, receiver: Seq<char>) -> Seq<char> {
    hex_text(
        sha256_digest(
            encode_utf8("flowshare/native/candidate-pair/v1"@) + text_bytes(sender) + text_bytes(
                receiver,
            ),
        )@.take(16),
    )
}

pub fn pair_id(sender_candidate_id: &str, receiver_candidate_id: &str) -> (id: String)
    ensures
        id@ == pair_id_text(sender_candidate_id@, receiver_candidate_id@),
{
    let mut bytes: Vec<u8> = copy_of("flowshare/native/candidate-pair/v1".as_bytes());
    write_bounded_string(&mut bytes, sender_candidate_id);
    write_bounded_string(&mut bytes, receiver_candidate_id);
    let digest: [u8; 32] = sha256(bytes.as_slice());
    short_digest_text(&digest)
}

/// Whether two addresses lie in one private network: both are private or local and agree in the
/// first three bytes of version 4, or the first eight of version 6.
pub open spec fn same_network(left: IpAddress, right: IpAddress) -> bool {
    match (left, right) {
        (IpAddress::V4(a), IpAddress::V4(b)) => left.private_or_local() && right.private_or_local()
            && a@.take(3) == b@.take(3),
        (IpAddress::V6(a), IpAddress::V6(b)) => left.private_or_local() && right.private_or_local()
            && a@.take(8) == b@.take(8),
        _ => false,
    }
}

/// The route that a pair most likely takes.
pub open spec fn route_of(local: CandidateFacts, remote: CandidateFacts) -> EstimatedNativeRoute {
    let a = local.candidate_type;
    let b = remote.candidate_type;
    if a is Manual || b is Manual {
        EstimatedNativeRoute::ManualDirect
    } else if same_network(local.address, remote.address) && (a is Host || a is Ipv6) && (b is Host
        || b is Ipv6) {
        EstimatedNativeRoute::SameLan
    } else if local.address_family is Ipv6 && !local.address.private_or_local()
        && !remote.address.private_or_local() {
        EstimatedNativeRoute::Ipv6Direct
    } else if a is Mapped && b is Mapped {
        EstimatedNativeRoute::MappedDirect
    } else if a is ServerReflexive && b is ServerReflexive {
        EstimatedNativeRoute::StunHolePunch
    } else {
        EstimatedNativeRoute::MixedDirect
    }
}

/// How much a route is preferred.
pub open spec fn route_weight(route: EstimatedNativeRoute) -> int {
    match route {
        EstimatedNativeRoute::SameLan => 600,
        EstimatedNativeRoute::Ipv6Direct => 550,
        EstimatedNativeRoute::MappedDirect => 450,
        EstimatedNativeRoute::StunHolePunch => 400,
        EstimatedNativeRoute::MixedDirect => 300,
        EstimatedNativeRoute::ManualDirect => 100,
    }
}

/// The pair of a local and a remote candidate, seen from the end with the given role.
pub open spec fn pair_of(
    local: CandidateFacts,
    remote: CandidateFacts,
    role: NativeDeviceRole,
) -> PairFacts {
    let (sender, receiver) = match role {
        NativeDeviceRole::Sender => (local, remote),
        NativeDeviceRole::Receiver => (remote, local),
    };
    PairFacts {
        pair_id: pair_id_text(sender.candidate_id, receiver.candidate_id),
        local_candidate: local,
        remote_candidate: remote,
        sender_candidate_id: sender.candidate_id,
        receiver_candidate_id: receiver.candidate_id,
        address_family: local.address_family,
        estimated_route: route_of(local, remote),
        priority: (route_weight(route_of(local, remote)) * 1_000_000 + sender.priority * 1000
            + receiver.priority) as u64,
        peer_reflexive_remote_endpoint: None,
    }
}

/// The pairs of one local candidate with the first `n` remote ones of its address family.
pub open spec fn pairs_of_one(
    local: CandidateFacts,
    remotes: Seq<CandidateFacts>,
    role: NativeDeviceRole,
    n: nat,
) -> Seq<PairFacts>
    decreases n,
{
    if n == 0 {
        Seq::empty()
    } else {
        let before = pairs_of_one(local, remotes, role, (n - 1) as nat);
        let remote = remotes[n - 1];
        if local.address_family == remote.address_family {
            before.push(pair_of(local, remote, role))
        } else {
            before
        }
    }
}

/// The pairs of the first `n` local candidates with all remote ones.
pub open spec fn pairs_of_all(
    locals: Seq<CandidateFacts>,
    remotes: Seq<CandidateFacts>,
    role: NativeDeviceRole,
    n: nat,
) -> Seq<PairFacts>
    decreases n,
{
    if n == 0 {
        Seq::empty()
    } else {
        pairs_of_all(locals, remotes, role, (n - 1) as nat) + pairs_of_one(
            locals[n - 1],
            remotes,
            role,
            remotes.len(),
        )
    }
}

/// Pairs are preferred by priority, highest first, and then by identifier.
impl Ranked for NativeCandidatePair {
    open spec fn precedes(left: PairFacts, right: PairFacts) -> bool {
        left.priority > right.priority || left.priority == right.priority && text_before(
            left.pair_id,
            right.pair_id,
        )
    }

    proof fn lemma_order(a: PairFacts, b: PairFacts, c: PairFacts) {
        lemma_text_order(a.pair_id, b.pair_id, c.pair_id);
    }

    fn stands_before(&self, other: &Self) -> (result: bool) {
        self.priority > other.priority || (self.priority == other.priority && is_text_before(
            self.pair_id.as_str(),
            other.pair_id.as_str(),
        ))
    }
}

/// The pairs without those that carry the identifier of the pair before them.
pub open spec fn without_repeats(pairs: Seq<PairFacts>) -> Seq<PairFacts>
    decreases pairs.len(),
{
    if pairs.len() == 0 {
        pairs
    } else {
        let head = without_repeats(pairs.drop_last());
        if head.len() > 0 && head.last().pair_id == pairs.last().pair_id {
            head
        } else {
            head.push(pairs.last())
        }
    }
}

/// The pairs that are tried, best first.
pub open spec fn candidate_pairs(
    locals: Seq<CandidateFacts>,
    remotes: Seq<CandidateFacts>,
    role: NativeDeviceRole,
) -> Seq<PairFacts> {
    let pairs = without_repeats(
        in_order::<NativeCandidatePair>(pairs_of_all(locals, remotes, role, locals.len())),
    );
    if pairs.len() > MAX_CANDIDATE_PAIRS {
        pairs.take(MAX_CANDIDATE_PAIRS as int)
    } else {
        pairs
    }
}

fn same_lan_address(left: &IpAddress, right: &IpAddress) -> (same: bool)
    ensures
        same == same_network(*left, *right),
{
    match (left, right) {
        (IpAddress::V4(a), IpAddress::V4(b)) => {
            let agree: bool = a[0] == b[0] && a[1] == b[1] && a[2] == b[2];
            proof {
                if agree {
                    assert(a@.take(3) =~= b@.take(3));
                } else if a@.take(3) == b@.take(3) {
                    assert(a@.take(3)[0] == a@[0] && b@.take(3)[0] == b@[0]);
                    assert(a@.take(3)[1] == a@[1] && b@.take(3)[1] == b@[1]);
                    assert(a@.take(3)[2] == a@[2] && b@.take(3)[2] == b@[2]);
                }
            }
            is_private_or_local(*left) && is_private_or_local(*right) && agree
        },
        (IpAddress::V6(a), IpAddress::V6(b)) => {
            let x: &[u8] = &a.as_slice()[0..8];
            let y: &[u8] = &b.as_slice()[0..8];
            assert(x@ =~= a@.take(8));
            assert(y@ =~= b@.take(8));
            is_private_or_local(*left) && is_private_or_local(*right)
                && crate::bytes::bytes_equal(x, y)
        },
        _ => false,
    }
}

fn classify_route(local: &NativeCandidate, remote: &NativeCandidate) -> (route:
    EstimatedNativeRoute)
    ensures
        route == route_of(local@, remote@),
{
    let a = local.candidate_type;
    let b = remote.candidate_type;
    if a == NativeCandidateType::Manual || b == NativeCandidateType::Manual {
        return EstimatedNativeRoute::ManualDirect;
    }
    if same_lan_address(&local.address, &remote.address) && (a == NativeCandidateType::Host || a
        == NativeCandidateType::Ipv6) && (b == NativeCandidateType::Host || b
        == NativeCandidateType::Ipv6) {
        return EstimatedNativeRoute::SameLan;
    }
    if local.address_family == NativeAddressFamily::Ipv6 && !is_private_or_local(local.address)
        && !is_private_or_local(remote.address) {
        return EstimatedNativeRoute::Ipv6Direct;
    }
    if a == NativeCandidateType::Mapped && b == NativeCandidateType::Mapped {
        return EstimatedNativeRoute::MappedDirect;
    }
    if a == NativeCandidateType::ServerReflexive && b == NativeCandidateType::ServerReflexive {
        return EstimatedNativeRoute::StunHolePunch;
    }
    EstimatedNativeRoute::MixedDirect
}

fn build_pair(local: &NativeCandidate, remote: &NativeCandidate, role: NativeDeviceRole) -> (pair:
    NativeCandidatePair)
    ensures
        pair@ == pair_of(local@, remote@, role),
{
    let estimated_route = classify_route(local, remote);
    let weight: u64 = match estimated_route {
        EstimatedNativeRoute::SameLan => 600,
        EstimatedNativeRoute::Ipv6Direct => 550,
        EstimatedNativeRoute::MappedDirect => 450,
        EstimatedNativeRoute::StunHolePunch => 400,
        EstimatedNativeRoute::MixedDirect => 300,
        EstimatedNativeRoute::ManualDirect => 100,
    };
    let (sender, receiver) = if role == NativeDeviceRole::Sender {
        (local, remote)
    } else {
        (remote, local)
    };
    NativeCandidatePair {
        pair_id: pair_id(sender.candidate_id.as_str(), receiver.candidate_id.as_str()),
        local_candidate: local.clone(),
        remote_candidate: remote.clone(),
        sender_candidate_id: sender.candidate_id.clone(),
        receiver_candidate_id: receiver.candidate_id.clone(),
        address_family: local.address_family,
        estimated_route,
        priority: weight * 1_000_000 + sender.priority as u64 * 1000 + receiver.priority as u64,
        peer_reflexive_remote_endpoint: None,
    }
}

fn push_pairs(
    pairs: &mut Vec<NativeCandidatePair>,
    local: &NativeCandidate,
    remotes: &[NativeCandidate],
    role: NativeDeviceRole,
)
    ensures
        views(final(pairs)@) == views(old(pairs)@) + pairs_of_one(
            local@,
            views(remotes@),
            role,
            remotes@.len(),
        ),
{
    let ghost start = views(pairs@);
    let mut index: usize = 0;
    assert(start + pairs_of_one(local@, views(remotes@), role, 0) =~= start);
    while index < remotes.len()
        invariant
            index <= remotes.len(),
            views(pairs@) == start + pairs_of_one(local@, views(remotes@), role, index as nat),
        decreases remotes.len() - index,
    {
        let remote: &NativeCandidate = &remotes[index];
        assert(views(remotes@)[index as int] == remote@);
        let ghost before = pairs@;
        if local.address_family == remote.address_family {
            pairs.push(build_pair(local, remote, role));
            assert(views(pairs@) =~= views(before).push(pair_of(local@, remote@, role)));
            assert(views(pairs@) =~= start + pairs_of_one(
                local@,
                views(remotes@),
                role,
                (index + 1) as nat,
            ));
        }
        index += 1;
    }
}

fn drop_repeats(pairs: &Vec<NativeCandidatePair>) -> (kept: Vec<NativeCandidatePair>)
    ensures
        views(kept@) == without_repeats(views(pairs@)),
{
    let mut kept: Vec<NativeCandidatePair> = Vec::new();
    let mut index: usize = 0;
    assert(views(kept@) =~= without_repeats(views(pairs@).take(0)));
    while index < pairs.len()
        invariant
            index <= pairs.len(),
            views(kept@) == without_repeats(views(pairs@).take(index as int)),
        decreases pairs.len() - index,
    {
        let pair: &NativeCandidatePair = &pairs[index];
        let ghost before = kept@;
        proof {
            let next = views(pairs@).take(index + 1);
            assert(next.drop_last() =~= views(pairs@).take(index as int));
            assert(next.last() == pair@);
        }
        if kept.len() == 0 || !same_text(
            kept[kept.len() - 1].pair_id.as_str(),
            pair.pair_id.as_str(),
        ) {
            kept.push(pair.clone());
            assert(views(kept@) =~= views(before).push(pair@));
        }
        index += 1;
    }
    assert(views(pairs@).take(pairs@.len() as int) =~= views(pairs@));
    kept
}

/// The pairs of candidates of one address family, best first.
pub fn build_candidate_pairs(
    local_candidates: &[NativeCandidate],
    remote_candidates: &[NativeCandidate],
    local_role: NativeDeviceRole,
) -> (pairs: Vec<NativeCandidatePair>)
    ensures
        views(pairs@) == candidate_pairs(
            views(local_candidates@),
            views(remote_candidates@),
            local_role,
        ),
{
    let mut pairs: Vec<NativeCandidatePair> = Vec::new();
    let mut index: usize = 0;
    assert(views(pairs@) =~= Seq::empty());
    while index < local_candidates.len()
        invariant
            index <= local_candidates.len(),
            views(pairs@) == pairs_of_all(
                views(local_candidates@),
                views(remote_candidates@),
                local_role,
                index as nat,
            ),
        decreases local_candidates.len() - index,
    {
        push_pairs(&mut pairs, &local_candidates[index], remote_candidates, local_role);
        index += 1;
    }
    sort(&mut pairs);
    let mut kept = drop_repeats(&pairs);
    let ghost all = views(kept@);
    kept.truncate(MAX_CANDIDATE_PAIRS);
    proof {
        if all.len() > MAX_CANDIDATE_PAIRS {
            assert(views(kept@) =~= all.take(MAX_CANDIDATE_PAIRS as int));
        } else {
            assert(views(kept@) =~= all);
        }
    }
    kept
}

/// Both ends see the same pair: its identifier, the candidate of each role, its route and its
/// priority do not depend on which end builds it.
pub proof fn law_pair_identity_is_role_stable(sender: CandidateFacts, receiver: CandidateFacts)
    requires
        sender.address_family == receiver.address_family,
    ensures
        ({
            let at_sender = pair_of(sender, receiver, NativeDeviceRole::Sender);
            let at_receiver = pair_of(receiver, sender, NativeDeviceRole::Receiver);
            &&& at_sender.pair_id == at_receiver.pair_id
            &&& at_sender.sender_candidate_id == at_receiver.sender_candidate_id
            &&& at_sender.receiver_candidate_id == at_receiver.receiver_candidate_id
            &&& at_sender.estimated_route == at_receiver.estimated_route
            &&& at_sender.priority == at_receiver.priority
            &&& at_sender.address_family == at_receiver.address_family
        }),
{
}

/// There are never more pairs than are tried, and each pair joins candidates of one address
/// family.
pub proof fn law_pairs_are_bounded_and_of_one_family(
    locals: Seq<CandidateFacts>,
    remotes: Seq<CandidateFacts>,
    role: NativeDeviceRole,
)
    ensures
        candidate_pairs(locals, remotes, role).len() <= MAX_CANDIDATE_PAIRS,
        forall|i: int|
            0 <= i < candidate_pairs(locals, remotes, role).len() ==> ({
                let pair = #[trigger] candidate_pairs(locals, remotes, role)[i];
                pair.local_candidate.address_family == pair.remote_candidate.address_family
            }),
{
    let all = pairs_of_all(locals, remotes, role, locals.len());
    let sorted = in_order::<NativeCandidatePair>(all);
    crate::ordering::lemma_in_order::<NativeCandidatePair>(all);
    lemma_all_pairs_match(locals, remotes, role, locals.len());
    lemma_repeats_are_members(sorted);
    let kept = without_repeats(sorted);
    assert forall|i: int| 0 <= i < candidate_pairs(locals, remotes, role).len() implies ({
        let pair = #[trigger] candidate_pairs(locals, remotes, role)[i];
        pair.local_candidate.address_family == pair.remote_candidate.address_family
    }) by {
        let pair = candidate_pairs(locals, remotes, role)[i];
        assert(pair == kept[i]);
        assert(sorted.contains(kept[i]));
        assert(all.contains(kept[i]));
    }
}

/// The pairs stand by priority, the highest first, and pairs of one priority by rising
/// identifier. Two candidates of one address family are among them, or a pair of the same
/// identifier with no lower priority is, or there are as many pairs as are tried and none of them
/// has a lower priority.
pub proof fn law_pairs_stand_by_priority(
    locals: Seq<CandidateFacts>,
    remotes: Seq<CandidateFacts>,
    role: NativeDeviceRole,
)
    ensures
        ({
            let pairs = candidate_pairs(locals, remotes, role);
            &&& forall|i: int, j: int|
                0 <= i < j < pairs.len() ==> {
                    &&& (#[trigger] pairs[i]).priority >= (#[trigger] pairs[j]).priority
                    &&& pairs[i].priority == pairs[j].priority ==> !text_before(
                        pairs[j].pair_id,
                        pairs[i].pair_id,
                    )
                    &&& pairs[i].priority == pairs[j].priority && j == i + 1 ==> text_before(
                        pairs[i].pair_id,
                        pairs[j].pair_id,
                    )
                }
            &&& forall|a: int, b: int|
                0 <= a < locals.len() && 0 <= b < remotes.len() && (
                #[trigger] locals[a]).address_family == (#[trigger] remotes[b]).address_family ==> {
                    let pair = pair_of(locals[a], remotes[b], role);
                    ||| exists|i: int|
                        0 <= i < pairs.len() && (#[trigger] pairs[i]).pair_id == pair.pair_id
                            && pairs[i].priority >= pair.priority
                    ||| pairs.len() == 256 && forall|i: int|
                        0 <= i < pairs.len() ==> (#[trigger] pairs[i]).priority >= pair.priority
                }
        }),
{
    let all = pairs_of_all(locals, remotes, role, locals.len());
    let sorted = in_order::<NativeCandidatePair>(all);
    crate::ordering::lemma_in_order::<NativeCandidatePair>(all);
    let kept = without_repeats(sorted);
    let pairs = candidate_pairs(locals, remotes, role);
    lemma_repeats_keep_order(sorted);
    assert forall|i: int, j: int| 0 <= i < j < pairs.len() implies {
        &&& (#[trigger] pairs[i]).priority >= (#[trigger] pairs[j]).priority
        &&& pairs[i].priority == pairs[j].priority ==> !text_before(
            pairs[j].pair_id,
            pairs[i].pair_id,
        )
        &&& pairs[i].priority == pairs[j].priority && j == i + 1 ==> text_before(
            pairs[i].pair_id,
            pairs[j].pair_id,
        )
    } by {
        assert(pairs[i] == kept[i] && pairs[j] == kept[j]);
        assert(!NativeCandidatePair::precedes(kept[j], kept[i]));
        lemma_text_order(pairs[i].pair_id, pairs[j].pair_id, pairs[i].pair_id);
    }
    assert forall|a: int, b: int|
        0 <= a < locals.len() && 0 <= b < remotes.len() && (
        #[trigger] locals[a]).address_family == (#[trigger] remotes[b]).address_family implies {
        let pair = pair_of(locals[a], remotes[b], role);
        ||| exists|i: int|
            0 <= i < pairs.len() && (#[trigger] pairs[i]).pair_id == pair.pair_id
                && pairs[i].priority >= pair.priority
        ||| pairs.len() == 256 && forall|i: int|
            0 <= i < pairs.len() ==> (#[trigger] pairs[i]).priority >= pair.priority
    } by {
        let pair = pair_of(locals[a], remotes[b], role);
        lemma_every_pair_is_built(locals, remotes, role, locals.len(), a, b);
        assert(sorted.contains(pair));
        let at = choose|k: int| 0 <= k < sorted.len() && sorted[k] == pair;
        assert(sorted[at].pair_id == pair.pair_id);
        let k = lemma_repeats_keep_identifiers(sorted, at);
        if k < pairs.len() {
            assert(pairs[k] == kept[k]);
        } else {
            assert forall|i: int| 0 <= i < pairs.len() implies (#[trigger] pairs[i]).priority
                >= pair.priority by {
                assert(pairs[i] == kept[i]);
                assert(!NativeCandidatePair::precedes(kept[k], kept[i]));
            }
        }
    }
}

/// Leaving out repeats keeps the order and parts neighbours by identifier.
proof fn lemma_repeats_keep_order(pairs: Seq<PairFacts>)
    requires
        crate::ordering::is_ordered::<NativeCandidatePair>(pairs),
    ensures
        crate::ordering::is_ordered::<NativeCandidatePair>(without_repeats(pairs)),
        parted(without_repeats(pairs)),
    decreases pairs.len(),
{
    if pairs.len() > 0 {
        let head = pairs.drop_last();
        assert forall|i: int, j: int| 0 <= i < j < head.len() implies
            !NativeCandidatePair::precedes(#[trigger] head[j], #[trigger] head[i]) by {
            assert(head[i] == pairs[i] && head[j] == pairs[j]);
        }
        lemma_repeats_keep_order(head);
        lemma_repeats_are_members(head);
        let before = without_repeats(head);
        let kept = without_repeats(pairs);
        let last = pairs.last();
        assert forall|i: int| 0 <= i < before.len() implies !NativeCandidatePair::precedes(
            last,
            #[trigger] before[i],
        ) by {
            assert(head.contains(before[i]));
            let k = choose|k: int| 0 <= k < head.len() && head[k] == before[i];
            assert(pairs[k] == before[i]);
            assert(pairs[pairs.len() - 1] == last);
        }
    }
}

/// Whether no two neighbours carry one identifier.
spec fn parted(pairs: Seq<PairFacts>) -> bool {
    forall|i: int, j: int|
        0 <= i && j == i + 1 && j < pairs.len() ==> (#[trigger] pairs[i]).pair_id != (
        #[trigger] pairs[j]).pair_id
}

/// Where a pair's identifier is kept when repeats are left out: with no lower priority.
proof fn lemma_repeats_keep_identifiers(pairs: Seq<PairFacts>, at: int) -> (k: int)
    requires
        crate::ordering::is_ordered::<NativeCandidatePair>(pairs),
        0 <= at < pairs.len(),
    ensures
        0 <= k < without_repeats(pairs).len(),
        without_repeats(pairs)[k].pair_id == pairs[at].pair_id,
        without_repeats(pairs)[k].priority >= pairs[at].priority,
    decreases pairs.len(),
{
    let head = pairs.drop_last();
    let before = without_repeats(head);
    let kept = without_repeats(pairs);
    if at < head.len() {
        assert forall|i: int, j: int| 0 <= i < j < head.len() implies
            !NativeCandidatePair::precedes(#[trigger] head[j], #[trigger] head[i]) by {
            assert(head[i] == pairs[i] && head[j] == pairs[j]);
        }
        let k = lemma_repeats_keep_identifiers(head, at);
        assert(kept[k] == before[k]);
        k
    } else {
        let k = kept.len() - 1;
        if before.len() > 0 && before.last().pair_id == pairs.last().pair_id {
            lemma_repeats_are_members(head);
            assert(head.contains(before[k]));
            let m = choose|m: int| 0 <= m < head.len() && head[m] == before[k];
            assert(pairs[m] == before[k]);
            assert(!NativeCandidatePair::precedes(pairs[at], pairs[m]));
        }
        k
    }
}

/// Every two candidates of one address family are paired.
proof fn lemma_every_pair_is_built(
    locals: Seq<CandidateFacts>,
    remotes: Seq<CandidateFacts>,
    role: NativeDeviceRole,
    n: nat,
    a: int,
    b: int,
)
    requires
        0 <= a < n <= locals.len(),
        0 <= b < remotes.len(),
        locals[a].address_family == remotes[b].address_family,
    ensures
        pairs_of_all(locals, remotes, role, n).contains(pair_of(locals[a], remotes[b], role)),
    decreases n,
{
    let pair = pair_of(locals[a], remotes[b], role);
    let before = pairs_of_all(locals, remotes, role, (n - 1) as nat);
    let more = pairs_of_one(locals[n - 1], remotes, role, remotes.len());
    if a < n - 1 {
        lemma_every_pair_is_built(locals, remotes, role, (n - 1) as nat, a, b);
        let k = choose|k: int| 0 <= k < before.len() && before[k] == pair;
        assert((before + more)[k] == pair);
    } else {
        lemma_remote_is_paired(locals[a], remotes, role, remotes.len(), b);
        let k = choose|k: int| 0 <= k < more.len() && more[k] == pair;
        assert((before + more)[before.len() + k] == pair);
    }
}

proof fn lemma_remote_is_paired(
    local: CandidateFacts,
    remotes: Seq<CandidateFacts>,
    role: NativeDeviceRole,
    n: nat,
    b: int,
)
    requires
        0 <= b < n <= remotes.len(),
        local.address_family == remotes[b].address_family,
    ensures
        pairs_of_one(local, remotes, role, n).contains(pair_of(local, remotes[b], role)),
    decreases n,
{
    let pair = pair_of(local, remotes[b], role);
    let before = pairs_of_one(local, remotes, role, (n - 1) as nat);
    let now = pairs_of_one(local, remotes, role, n);
    if b < n - 1 {
        lemma_remote_is_paired(local, remotes, role, (n - 1) as nat, b);
        let k = choose|k: int| 0 <= k < before.len() && before[k] == pair;
        assert(now[k] == pair);
    } else {
        assert(now[now.len() - 1] == pair);
    }
}

proof fn lemma_repeats_are_members(pairs: Seq<PairFacts>)
    ensures
        forall|i: int|
            0 <= i < without_repeats(pairs).len() ==> pairs.contains(
                #[trigger] without_repeats(pairs)[i],
            ),
    decreases pairs.len(),
{
    if pairs.len() > 0 {
        let head = pairs.drop_last();
        lemma_repeats_are_members(head);
        let kept = without_repeats(pairs);
        assert forall|i: int| 0 <= i < kept.len() implies pairs.contains(#[trigger] kept[i]) by {
            if i < without_repeats(head).len() {
                assert(kept[i] == without_repeats(head)[i]);
                assert(head.contains(without_repeats(head)[i]));
                let k = choose|k: int| 0 <= k < head.len() && head[k] == kept[i];
                assert(pairs[k] == kept[i]);
            } else {
                assert(pairs[pairs.len() - 1] == kept[i]);
            }
        }
    }
}

spec fn of_one_family(pairs: Seq<PairFacts>) -> bool {
    forall|i: int|
        0 <= i < pairs.len() ==> (#[trigger] pairs[i]).local_candidate.address_family
            == pairs[i].remote_candidate.address_family
}

proof fn lemma_all_pairs_match(
    locals: Seq<CandidateFacts>,
    remotes: Seq<CandidateFacts>,
    role: NativeDeviceRole,
    n: nat,
)
    ensures
        of_one_family(pairs_of_all(locals, remotes, role, n)),
    decreases n,
{
    if n > 0 {
        lemma_all_pairs_match(locals, remotes, role, (n - 1) as nat);
        lemma_one_pairs_match(locals[n - 1], remotes, role, remotes.len());
    }
}

proof fn lemma_one_pairs_match(
    local: CandidateFacts,
    remotes: Seq<CandidateFacts>,
    role: NativeDeviceRole,
    n: nat,
)
    ensures
        of_one_family(pairs_of_one(local, remotes, role, n)),
    decreases n,
{
    if n > 0 {
        lemma_one_pairs_match(local, remotes, role, (n - 1) as nat);
    }
}

} // verus!
