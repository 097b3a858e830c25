//! What is reported of the search for a direct path, and what its outcome means.

use crate::address::SocketAddress;
use crate::candidates::{
    CandidateFacts, DiagnosticFacts, InterfaceCandidateDiagnostic, NativeCandidate,
    NativeCandidateType,
};
use crate::hole_punch::{HolePunchReport, ProbePairResult, ResultFacts};
use crate::ordering::views;
use crate::path_selection::{EstimatedNativeRoute, NativeCandidatePair, PairFacts};
use crate::port_mapping::{AttemptFacts, PortMappingAttemptDiagnostic};
use crate::quinn_connectivity::{QuinnSocketHandoffDiagnostic, QUINN_UDP_SOCKET_BUFFER_BYTES};
use crate::signaling::NativeConnectivityFailure;
use crate::text::same_text;
use vstd::prelude::*;

verus! {

#[derive(Debug, Clone, Copy, PartialEq, Eq, Structural)]
pub enum ConnectivityStateName {
    Gathering,
    AwaitingRemoteCandidates,
    ReadyToCheck,
    Checking,
    Nominated,
    QuicEstablishing,
    QuicEstablished,
    Cancelled,
    Failed,
}

#[derive(Debug, Clone, Copy, PartialEq, Eq, Structural)]
pub enum ConnectivityOutcome {
    LanDirectSuccess,
    Ipv6DirectSuccess,
    MappedDirectSuccess,
    StunHolePunchSuccess,
    ManualDirectSuccess,
    UdpBlocked,
    FirewallBlockedLikely,
    SymmetricNatLikely,
    CandidateExchangeFailed,
    CandidateAuthenticationFailed,
    NoViablePair,
    QuicHandshakeFailed,
    SecureSessionFailed,
    DirectConnectTimeout,
    RelayRequired,
    Cancelled,
    Unknown,
}

#[derive(Debug, Clone, Copy, PartialEq, Eq, Structural)]
pub enum NativeFallbackDecision {
    NativeDirectSuccess,
    NativeDirectFailedWebRtcEligible,
    RelayRequired,
    UnsupportedNetwork,
}

/// How the router was seen to map ports.
#[derive(Debug, Clone, Copy, PartialEq, Eq, Structural)]
pub enum ObservedNatMappingBehavior {
    Unknown,
    LikelyEndpointIndependent,
    LikelyAddressAndPortDependent,
}

#[derive(Debug, PartialEq, Eq)]
pub struct SelectedPathDiagnostic {
    pub pair_id: String,
    pub estimated_route: EstimatedNativeRoute,
    pub local_candidate_type: NativeCandidateType,
    pub remote_candidate_type: NativeCandidateType,
    pub local_endpoint: SocketAddress,
    pub remote_endpoint: SocketAddress,
    pub peer_reflexive_remote_endpoint: Option<SocketAddress>,
    pub sender_candidate_id: String,
    pub receiver_candidate_id: String,
    /// In nanoseconds.
    pub rtt: Option<u64>,
    pub confirmation_count: u8,
    pub source_endpoint_stable: bool,
}

/// What the report of a chosen path says.
pub struct PathFacts {
    pub pair_id: Seq<char>,
    pub estimated_route: EstimatedNativeRoute,
    pub local_candidate_type: NativeCandidateType,
    pub remote_candidate_type: NativeCandidateType,
    pub local_endpoint: SocketAddress,
    pub remote_endpoint: SocketAddress,
    pub peer_reflexive_remote_endpoint: Option<SocketAddress>,
    pub sender_candidate_id: Seq<char>,
    pub receiver_candidate_id: Seq<char>,
    pub rtt: Option<u64>,
    pub confirmation_count: u8,
    pub source_endpoint_stable: bool,
}

impl View for SelectedPathDiagnostic {
    type V = PathFacts;

    open spec fn view(&self) -> PathFacts {
        PathFacts {
            pair_id: self.pair_id@,
            estimated_route: self.estimated_route,
            local_candidate_type: self.local_candidate_type,
            remote_candidate_type: self.remote_candidate_type,
            local_endpoint: self.local_endpoint,
            remote_endpoint: self.remote_endpoint,
            peer_reflexive_remote_endpoint: self.peer_reflexive_remote_endpoint,
            sender_candidate_id: self.sender_candidate_id@,
            receiver_candidate_id: self.receiver_candidate_id@,
            rtt: self.rtt,
            confirmation_count: self.confirmation_count,
            source_endpoint_stable: self.source_endpoint_stable,
        }
    }
}

impl Clone for SelectedPathDiagnostic {
    fn clone(&self) -> (copy: Self)
        ensures
            copy@ == self@,
    {
        SelectedPathDiagnostic {
            pair_id: self.pair_id.clone(),
            estimated_route: self.estimated_route,
            local_candidate_type: self.local_candidate_type,
            remote_candidate_type: self.remote_candidate_type,
            local_endpoint: self.local_endpoint,
            remote_endpoint: self.remote_endpoint,
            peer_reflexive_remote_endpoint: self.peer_reflexive_remote_endpoint,
            sender_candidate_id: self.sender_candidate_id.clone(),
            receiver_candidate_id: self.receiver_candidate_id.clone(),
            rtt: self.rtt,
            confirmation_count: self.confirmation_count,
            source_endpoint_stable: self.source_endpoint_stable,
        }
    }
}

#[derive(Debug, Clone, Copy, PartialEq, Eq)]
pub struct WindowsFirewallDiagnostic {
    pub udp_bind_succeeded: bool,
    pub outbound_stun_succeeded: bool,
    pub inbound_authenticated_probe_observed: bool,
    pub quic_handshake_reached: bool,
    pub firewall_blocked_likely: bool,
    pub note: &'static str,
}

impl Default for WindowsFirewallDiagnostic {
    fn default() -> (firewall: Self)
        ensures
            !firewall.udp_bind_succeeded,
            !firewall.outbound_stun_succeeded,
            !firewall.inbound_authenticated_probe_observed,
            !firewall.quic_handshake_reached,
            !firewall.firewall_blocked_likely,
            firewall.note@ == "FlowGet never changes Windows Firewall rules."@,
    {
        WindowsFirewallDiagnostic {
            udp_bind_succeeded: false,
            outbound_stun_succeeded: false,
            inbound_authenticated_probe_observed: false,
            quic_handshake_reached: false,
            firewall_blocked_likely: false,
            note: "FlowGet never changes Windows Firewall rules.",
        }
    }
}

#[derive(Debug)]
pub struct NativeConnectivityDiagnostics {
    pub connectivity_session_id: String,
    pub transfer_id: String,
    pub candidate_generation: u32,
    pub state: ConnectivityStateName,
    pub interfaces_examined: Vec<InterfaceCandidateDiagnostic>,
    pub host_candidates: Vec<NativeCandidate>,
    pub observed_nat_mapping: ObservedNatMappingBehavior,
    pub mapping_consistent_across_stun_servers: Option<bool>,
    pub mapped_candidates: Vec<NativeCandidate>,
    pub port_mapping_attempts: Vec<PortMappingAttemptDiagnostic>,
    pub candidate_pairs_attempted: Vec<NativeCandidatePair>,
    pub probe_results: Vec<ProbePairResult>,
    pub probe_packets_sent: u32,
    pub probe_packets_received: u32,
    pub authenticated_probe_packets_received: u32,
    pub unauthenticated_probe_packets_dropped: u32,
    pub replayed_probe_packets_dropped: u32,
    pub selected_pair: Option<SelectedPathDiagnostic>,
    pub failure_classification: Option<ConnectivityOutcome>,
    pub fallback_decision: Option<NativeFallbackDecision>,
    pub firewall: WindowsFirewallDiagnostic,
    pub same_udp_port_preserved_for_stun_probe_and_quic: bool,
    pub quinn_udp_buffer_target_bytes: usize,
    pub quinn_udp_send_buffer_bytes: Option<usize>,
    pub quinn_udp_receive_buffer_bytes: Option<usize>,
    pub file_payload_bytes_sent_through_signaling: u64,
    pub last_error: Option<String>,
}

/// What a report of the whole search says.
pub struct SearchFacts {
    pub connectivity_session_id: Seq<char>,
    pub transfer_id: Seq<char>,
    pub candidate_generation: u32,
    pub state: ConnectivityStateName,
    pub interfaces_examined: Seq<DiagnosticFacts>,
    pub host_candidates: Seq<CandidateFacts>,
    pub observed_nat_mapping: ObservedNatMappingBehavior,
    pub mapping_consistent_across_stun_servers: Option<bool>,
    pub mapped_candidates: Seq<CandidateFacts>,
    pub port_mapping_attempts: Seq<AttemptFacts>,
    pub candidate_pairs_attempted: Seq<PairFacts>,
    pub probe_results: Seq<ResultFacts>,
    pub probe_packets_sent: u32,
    pub probe_packets_received: u32,
    pub authenticated_probe_packets_received: u32,
    pub unauthenticated_probe_packets_dropped: u32,
    pub replayed_probe_packets_dropped: u32,
    pub selected_pair: Option<PathFacts>,
    pub failure_classification: Option<ConnectivityOutcome>,
    pub fallback_decision: Option<NativeFallbackDecision>,
    pub firewall: WindowsFirewallDiagnostic,
    pub same_udp_port_preserved_for_stun_probe_and_quic: bool,
    pub quinn_udp_buffer_target_bytes: usize,
    pub quinn_udp_send_buffer_bytes: Option<usize>,
    pub quinn_udp_receive_buffer_bytes: Option<usize>,
    pub file_payload_bytes_sent_through_signaling: u64,
    pub last_error: Option<Seq<char>>,
}

impl View for NativeConnectivityDiagnostics {
    type V = SearchFacts;

    open spec fn view(&self) -> SearchFacts {
        SearchFacts {
            connectivity_session_id: self.connectivity_session_id@,
            transfer_id: self.transfer_id@,
            candidate_generation: self.candidate_generation,
            state: self.state,
            interfaces_examined: views(self.interfaces_examined@),
            host_candidates: views(self.host_candidates@),
            observed_nat_mapping: self.observed_nat_mapping,
            mapping_consistent_across_stun_servers: self.mapping_consistent_across_stun_servers,
            mapped_candidates: views(self.mapped_candidates@),
            port_mapping_attempts: views(self.port_mapping_attempts@),
            candidate_pairs_attempted: views(self.candidate_pairs_attempted@),
            probe_results: views(self.probe_results@),
            probe_packets_sent: self.probe_packets_sent,
            probe_packets_received: self.probe_packets_received,
            authenticated_probe_packets_received: self.authenticated_probe_packets_received,
            unauthenticated_probe_packets_dropped: self.unauthenticated_probe_packets_dropped,
            replayed_probe_packets_dropped: self.replayed_probe_packets_dropped,
            selected_pair: match self.selected_pair {
                Some(path) => Some(path@),
                None => None,
            },
            failure_classification: self.failure_classification,
            fallback_decision: self.fallback_decision,
            firewall: self.firewall,
            same_udp_port_preserved_for_stun_probe_and_quic: self.same_udp_port_preserved_for_stun_probe_and_quic,
            quinn_udp_buffer_target_bytes: self.quinn_udp_buffer_target_bytes,
            quinn_udp_send_buffer_bytes: self.quinn_udp_send_buffer_bytes,
            quinn_udp_receive_buffer_bytes: self.quinn_udp_receive_buffer_bytes,
            file_payload_bytes_sent_through_signaling: self.file_payload_bytes_sent_through_signaling,
            last_error: match self.last_error {
                Some(error) => Some(error@),
                None => None,
            },
        }
    }
}

impl Clone for NativeConnectivityDiagnostics {
    fn clone(&self) -> (copy: Self)
        ensures
            copy@ == self@,
    {
        let copy = NativeConnectivityDiagnostics {
            connectivity_session_id: self.connectivity_session_id.clone(),
            transfer_id: self.transfer_id.clone(),
            candidate_generation: self.candidate_generation,
            state: self.state,
            interfaces_examined: self.interfaces_examined.clone(),
            host_candidates: self.host_candidates.clone(),
            observed_nat_mapping: self.observed_nat_mapping,
            mapping_consistent_across_stun_servers: self.mapping_consistent_across_stun_servers,
            mapped_candidates: self.mapped_candidates.clone(),
            port_mapping_attempts: self.port_mapping_attempts.clone(),
            candidate_pairs_attempted: self.candidate_pairs_attempted.clone(),
            probe_results: self.probe_results.clone(),
            probe_packets_sent: self.probe_packets_sent,
            probe_packets_received: self.probe_packets_received,
            authenticated_probe_packets_received: self.authenticated_probe_packets_received,
            unauthenticated_probe_packets_dropped: self.unauthenticated_probe_packets_dropped,
            replayed_probe_packets_dropped: self.replayed_probe_packets_dropped,
            selected_pair: match &self.selected_pair {
                Some(path) => Some(path.clone()),
                None => None,
            },
            failure_classification: self.failure_classification,
            fallback_decision: self.fallback_decision,
            firewall: self.firewall,
            same_udp_port_preserved_for_stun_probe_and_quic: self.same_udp_port_preserved_for_stun_probe_and_quic,
            quinn_udp_buffer_target_bytes: self.quinn_udp_buffer_target_bytes,
            quinn_udp_send_buffer_bytes: self.quinn_udp_send_buffer_bytes,
            quinn_udp_receive_buffer_bytes: self.quinn_udp_receive_buffer_bytes,
            file_payload_bytes_sent_through_signaling: self.file_payload_bytes_sent_through_signaling,
            last_error: match &self.last_error {
                Some(error) => Some(error.clone()),
                None => None,
            },
        };
        proof {
            assert(views(copy.interfaces_examined@) =~= views(self.interfaces_examined@));
            assert(views(copy.host_candidates@) =~= views(self.host_candidates@));
            assert(views(copy.mapped_candidates@) =~= views(self.mapped_candidates@));
            assert(views(copy.port_mapping_attempts@) =~= views(self.port_mapping_attempts@));
            assert(views(copy.candidate_pairs_attempted@) =~= views(self.candidate_pairs_attempted@));
            assert(views(copy.probe_results@) =~= views(self.probe_results@));
        }
        copy
    }
}

/// The first result of the pair with an identifier.
pub open spec fn result_at(results: Seq<ResultFacts>, id: Seq<char>, at: int) -> bool {
    &&& 0 <= at < results.len()
    &&& results[at].pair_id == id
    &&& forall|i: int| 0 <= i < at ==> (#[trigger] results[i]).pair_id != id
}

/// The first result of the pair with an identifier, if there is one.
pub open spec fn result_for(results: Seq<ResultFacts>, id: Seq<char>) -> Option<ResultFacts> {
    if exists|at: int| #[trigger] result_at(results, id, at) {
        Some(results[choose|at: int| #[trigger] result_at(results, id, at)])
    } else {
        None
    }
}

/// The first result of the pair with an identifier.
pub fn find_result<'a>(results: &'a Vec<ProbePairResult>, id: &str) -> (found: Option<
    &'a ProbePairResult,
>)
    ensures
        match found {
            Some(result) => result_for(views(results@), id@) == Some(result@),
            None => result_for(views(results@), id@) is None,
        },
{
    let ghost facts = views(results@);
    let mut index: usize = 0;
    while index < results.len()
        invariant
            index <= results@.len(),
            facts == views(results@),
            forall|i: int| 0 <= i < index ==> (#[trigger] facts[i]).pair_id != id@,
        decreases results@.len() - index,
    {
        assert(facts[index as int] == results@[index as int]@);
        if same_text(results[index].pair_id.as_str(), id) {
            proof {
                assert(result_at(facts, id@, index as int));
                let chosen = choose|at: int| #[trigger] result_at(facts, id@, at);
                if chosen < index {
                    assert(facts[chosen].pair_id == id@);
                } else if chosen > index {
                    assert(facts[index as int].pair_id != id@);
                }
            }
            return Some(&results[index]);
        }
        index += 1;
    }
    None
}

/// What a route that was chosen counts as.
pub open spec fn outcome_of_route(route: EstimatedNativeRoute) -> ConnectivityOutcome {
    match route {
        EstimatedNativeRoute::SameLan => ConnectivityOutcome::LanDirectSuccess,
        EstimatedNativeRoute::Ipv6Direct => ConnectivityOutcome::Ipv6DirectSuccess,
        EstimatedNativeRoute::MappedDirect => ConnectivityOutcome::MappedDirectSuccess,
        EstimatedNativeRoute::StunHolePunch
        | EstimatedNativeRoute::MixedDirect => ConnectivityOutcome::StunHolePunchSuccess,
        EstimatedNativeRoute::ManualDirect => ConnectivityOutcome::ManualDirectSuccess,
    }
}

pub fn success_outcome(route: EstimatedNativeRoute) -> (outcome: ConnectivityOutcome)
    ensures
        outcome == outcome_of_route(route),
{
    match route {
        EstimatedNativeRoute::SameLan => ConnectivityOutcome::LanDirectSuccess,
        EstimatedNativeRoute::Ipv6Direct => ConnectivityOutcome::Ipv6DirectSuccess,
        EstimatedNativeRoute::MappedDirect => ConnectivityOutcome::MappedDirectSuccess,
        EstimatedNativeRoute::StunHolePunch
        | EstimatedNativeRoute::MixedDirect => ConnectivityOutcome::StunHolePunchSuccess,
        EstimatedNativeRoute::ManualDirect => ConnectivityOutcome::ManualDirectSuccess,
    }
}

/// What a failed search counts as. Where the outside world could be reached before, silence of
/// the peer has too many possible causes to blame one of them.
pub open spec fn outcome_of_failure(
    failure: Option<NativeConnectivityFailure>,
    outbound_stun_succeeded: bool,
    mapping: ObservedNatMappingBehavior,
) -> ConnectivityOutcome {
    match failure {
        Some(NativeConnectivityFailure::UdpBlocked) => if outbound_stun_succeeded {
            ConnectivityOutcome::DirectConnectTimeout
        } else {
            ConnectivityOutcome::UdpBlocked
        },
        Some(NativeConnectivityFailure::NoViablePair) => if mapping
            is LikelyAddressAndPortDependent {
            ConnectivityOutcome::SymmetricNatLikely
        } else {
            ConnectivityOutcome::NoViablePair
        },
        Some(NativeConnectivityFailure::Cancelled) => ConnectivityOutcome::Cancelled,
        Some(_) => ConnectivityOutcome::DirectConnectTimeout,
        None => ConnectivityOutcome::Unknown,
    }
}

/// What is done after a search that failed.
pub open spec fn fallback_of(outcome: ConnectivityOutcome) -> NativeFallbackDecision {
    match outcome {
        ConnectivityOutcome::SymmetricNatLikely
        | ConnectivityOutcome::RelayRequired => NativeFallbackDecision::RelayRequired,
        ConnectivityOutcome::UdpBlocked => NativeFallbackDecision::UnsupportedNetwork,
        _ => NativeFallbackDecision::NativeDirectFailedWebRtcEligible,
    }
}

/// Whether a report describes the path of a pair.
pub open spec fn describes_path(
    path: SelectedPathDiagnostic,
    pair: PairFacts,
    result: Option<ResultFacts>,
) -> bool {
    &&& path.pair_id@ == pair.pair_id
    &&& path.estimated_route == pair.estimated_route
    &&& path.local_candidate_type == pair.local_candidate.candidate_type
    &&& path.remote_candidate_type == pair.remote_candidate.candidate_type
    &&& path.local_endpoint == pair.local_candidate.socket()
    &&& path.remote_endpoint == pair.remote_socket()
    &&& path.peer_reflexive_remote_endpoint == pair.peer_reflexive_remote_endpoint
    &&& path.sender_candidate_id@ == pair.sender_candidate_id
    &&& path.receiver_candidate_id@ == pair.receiver_candidate_id
    &&& match result {
        Some(found) => path.rtt == found.best_rtt && path.confirmation_count
            == found.confirmation_count && path.source_endpoint_stable
            == found.source_endpoint_stable,
        None => path.rtt is None && path.confirmation_count == 0 && path.source_endpoint_stable,
    }
}

fn selected_path(pair: &NativeCandidatePair, result: Option<&ProbePairResult>) -> (path:
    SelectedPathDiagnostic)
    ensures
        describes_path(
            path,
            pair@,
            match result {
                Some(found) => Some(found@),
                None => None,
            },
        ),
{
    let (rtt, confirmation_count, source_endpoint_stable) = match result {
        Some(found) => (found.best_rtt, found.confirmation_count, found.source_endpoint_stable),
        None => (None, 0, true),
    };
    SelectedPathDiagnostic {
        pair_id: pair.pair_id.clone(),
        estimated_route: pair.estimated_route,
        local_candidate_type: pair.local_candidate.candidate_type,
        remote_candidate_type: pair.remote_candidate.candidate_type,
        local_endpoint: pair.local_candidate.socket_addr(),
        remote_endpoint: pair.remote_socket_addr(),
        peer_reflexive_remote_endpoint: pair.peer_reflexive_remote_endpoint,
        sender_candidate_id: pair.sender_candidate_id.clone(),
        receiver_candidate_id: pair.receiver_candidate_id.clone(),
        rtt,
        confirmation_count,
        source_endpoint_stable,
    }
}

/// Whether any pair received an authenticated request.
pub open spec fn any_request(results: Seq<ResultFacts>) -> bool {
    exists|i: int|
        0 <= i < results.len() && (#[trigger] results[i]).authenticated_requests_received > 0
}

fn saw_request(results: &Vec<ProbePairResult>) -> (found: bool)
    ensures
        found == any_request(views(results@)),
{
    let mut index: usize = 0;
    while index < results.len()
        invariant
            index <= results@.len(),
            forall|i: int|
                0 <= i < index ==> (#[trigger] views(results@)[i]).authenticated_requests_received
                    == 0,
        decreases results@.len() - index,
    {
        assert(views(results@)[index as int] == results@[index as int]@);
        if results[index].authenticated_requests_received > 0 {
            return true;
        }
        index += 1;
    }
    false
}

/// A copy of a list of results.
pub fn copy_results(results: &Vec<ProbePairResult>) -> (copy: Vec<ProbePairResult>)
    ensures
        views(copy@) == views(results@),
{
    let copy: Vec<ProbePairResult> = results.clone();
    assert(views(copy@) =~= views(results@));
    copy
}

/// Whether nothing that a probe report leaves alone has changed.
pub open spec fn same_beyond_probes(
    before: NativeConnectivityDiagnostics,
    after: NativeConnectivityDiagnostics,
) -> bool {
    &&& after.connectivity_session_id == before.connectivity_session_id
    &&& after.transfer_id == before.transfer_id
    &&& after.candidate_generation == before.candidate_generation
    &&& after.interfaces_examined == before.interfaces_examined
    &&& after.host_candidates == before.host_candidates
    &&& after.observed_nat_mapping == before.observed_nat_mapping
    &&& after.mapping_consistent_across_stun_servers
        == before.mapping_consistent_across_stun_servers
    &&& after.mapped_candidates == before.mapped_candidates
    &&& after.port_mapping_attempts == before.port_mapping_attempts
    &&& after.candidate_pairs_attempted == before.candidate_pairs_attempted
    &&& after.firewall.udp_bind_succeeded == before.firewall.udp_bind_succeeded
    &&& after.firewall.outbound_stun_succeeded == before.firewall.outbound_stun_succeeded
    &&& after.firewall.quic_handshake_reached == before.firewall.quic_handshake_reached
    &&& after.firewall.note == before.firewall.note
    &&& after.same_udp_port_preserved_for_stun_probe_and_quic
        == before.same_udp_port_preserved_for_stun_probe_and_quic
    &&& after.quinn_udp_buffer_target_bytes == before.quinn_udp_buffer_target_bytes
    &&& after.quinn_udp_send_buffer_bytes == before.quinn_udp_send_buffer_bytes
    &&& after.quinn_udp_receive_buffer_bytes == before.quinn_udp_receive_buffer_bytes
    &&& after.file_payload_bytes_sent_through_signaling
        == before.file_payload_bytes_sent_through_signaling
    &&& after.last_error == before.last_error
}

/// Whether the totals of a probe report were taken over.
pub open spec fn took_totals(after: NativeConnectivityDiagnostics, report: HolePunchReport) -> bool {
    &&& views(after.probe_results@) == views(report.pair_results@)
    &&& after.probe_packets_sent == report.total_packets_sent
    &&& after.probe_packets_received == report.total_packets_received
    &&& after.authenticated_probe_packets_received == report.authenticated_packets_received
    &&& after.unauthenticated_probe_packets_dropped == report.unauthenticated_packets_dropped
    &&& after.replayed_probe_packets_dropped == report.replayed_packets_dropped
    &&& after.firewall.inbound_authenticated_probe_observed == any_request(
        views(report.pair_results@),
    )
}

/// Whether the diagnostics have taken over what the probes found: the totals, and either the
/// path of the chosen pair or what the failure means.
pub open spec fn applies_report(
    before: NativeConnectivityDiagnostics,
    after: NativeConnectivityDiagnostics,
    report: HolePunchReport,
    selected_pair: Option<PairFacts>,
) -> bool {
    &&& same_beyond_probes(before, after)
    &&& took_totals(after, report)
    &&& match selected_pair {
        Some(pair) => {
            &&& after.state == ConnectivityStateName::Nominated
            &&& after.selected_pair matches Some(path) && describes_path(
                path,
                pair,
                result_for(views(report.pair_results@), pair.pair_id),
            )
            &&& after.failure_classification == Some(outcome_of_route(pair.estimated_route))
            &&& after.fallback_decision == Some(NativeFallbackDecision::NativeDirectSuccess)
            &&& after.firewall.firewall_blocked_likely == before.firewall.firewall_blocked_likely
        },
        None => {
            let outcome = outcome_of_failure(
                report.failure,
                before.firewall.outbound_stun_succeeded,
                before.observed_nat_mapping,
            );
            &&& after.state == if outcome is Cancelled {
                ConnectivityStateName::Cancelled
            } else {
                ConnectivityStateName::Failed
            }
            &&& after.selected_pair == before.selected_pair
            &&& after.failure_classification == Some(outcome)
            &&& after.fallback_decision == Some(fallback_of(outcome))
            &&& !after.firewall.firewall_blocked_likely
        },
    }
}

impl NativeConnectivityDiagnostics {
    pub fn empty(connectivity_session_id: String, transfer_id: String, candidate_generation: u32) -> (
    diagnostics: Self)
        ensures
            diagnostics.connectivity_session_id == connectivity_session_id,
            diagnostics.transfer_id == transfer_id,
            diagnostics.candidate_generation == candidate_generation,
            diagnostics.state == ConnectivityStateName::Gathering,
            diagnostics.interfaces_examined@.len() == 0,
            diagnostics.host_candidates@.len() == 0,
            diagnostics.observed_nat_mapping == ObservedNatMappingBehavior::Unknown,
            diagnostics.mapping_consistent_across_stun_servers is None,
            diagnostics.mapped_candidates@.len() == 0,
            diagnostics.port_mapping_attempts@.len() == 0,
            diagnostics.candidate_pairs_attempted@.len() == 0,
            diagnostics.probe_results@.len() == 0,
            diagnostics.probe_packets_sent == 0,
            diagnostics.probe_packets_received == 0,
            diagnostics.authenticated_probe_packets_received == 0,
            diagnostics.unauthenticated_probe_packets_dropped == 0,
            diagnostics.replayed_probe_packets_dropped == 0,
            diagnostics.selected_pair is None,
            diagnostics.failure_classification is None,
            diagnostics.fallback_decision is None,
            !diagnostics.firewall.udp_bind_succeeded,
            !diagnostics.firewall.outbound_stun_succeeded,
            !diagnostics.firewall.inbound_authenticated_probe_observed,
            !diagnostics.firewall.quic_handshake_reached,
            !diagnostics.firewall.firewall_blocked_likely,
            diagnostics.firewall.note@ == "FlowGet never changes Windows Firewall rules."@,
            !diagnostics.same_udp_port_preserved_for_stun_probe_and_quic,
            diagnostics.quinn_udp_buffer_target_bytes == QUINN_UDP_SOCKET_BUFFER_BYTES,
            diagnostics.quinn_udp_send_buffer_bytes is None,
            diagnostics.quinn_udp_receive_buffer_bytes is None,
            diagnostics.file_payload_bytes_sent_through_signaling == 0,
            diagnostics.last_error is None,
    {
        NativeConnectivityDiagnostics {
            connectivity_session_id,
            transfer_id,
            candidate_generation,
            state: ConnectivityStateName::Gathering,
            interfaces_examined: Vec::new(),
            host_candidates: Vec::new(),
            observed_nat_mapping: ObservedNatMappingBehavior::Unknown,
            mapping_consistent_across_stun_servers: None,
            mapped_candidates: Vec::new(),
            port_mapping_attempts: Vec::new(),
            candidate_pairs_attempted: Vec::new(),
            probe_results: Vec::new(),
            probe_packets_sent: 0,
            probe_packets_received: 0,
            authenticated_probe_packets_received: 0,
            unauthenticated_probe_packets_dropped: 0,
            replayed_probe_packets_dropped: 0,
            selected_pair: None,
            failure_classification: None,
            fallback_decision: None,
            firewall: WindowsFirewallDiagnostic::default(),
            same_udp_port_preserved_for_stun_probe_and_quic: false,
            quinn_udp_buffer_target_bytes: QUINN_UDP_SOCKET_BUFFER_BYTES,
            quinn_udp_send_buffer_bytes: None,
            quinn_udp_receive_buffer_bytes: None,
            file_payload_bytes_sent_through_signaling: 0,
            last_error: None,
        }
    }

    /// Takes over what the probes found: the totals, and either the path of the chosen pair or
    /// what the failure means.
    pub fn apply_hole_punch_report(
        &mut self,
        report: &HolePunchReport,
        selected_pair: Option<&NativeCandidatePair>,
    )
        ensures
            applies_report(
                *old(self),
                *final(self),
                *report,
                match selected_pair {
                    Some(pair) => Some(pair@),
                    None => None,
                },
            ),
    {
        self.probe_results = copy_results(&report.pair_results);
        self.probe_packets_sent = report.total_packets_sent;
        self.probe_packets_received = report.total_packets_received;
        self.authenticated_probe_packets_received = report.authenticated_packets_received;
        self.unauthenticated_probe_packets_dropped = report.unauthenticated_packets_dropped;
        self.replayed_probe_packets_dropped = report.replayed_packets_dropped;
        self.firewall.inbound_authenticated_probe_observed = saw_request(&report.pair_results);
        match selected_pair {
            Some(pair) => {
                let observation = find_result(&report.pair_results, pair.pair_id.as_str());
                self.selected_pair = Some(selected_path(pair, observation));
                self.state = ConnectivityStateName::Nominated;
                self.failure_classification = Some(success_outcome(pair.estimated_route));
                self.fallback_decision = Some(NativeFallbackDecision::NativeDirectSuccess);
                return;
            },
            None => {},
        }
        let outcome = match report.failure {
            Some(NativeConnectivityFailure::UdpBlocked) => if self.firewall.outbound_stun_succeeded {
                ConnectivityOutcome::DirectConnectTimeout
            } else {
                ConnectivityOutcome::UdpBlocked
            },
            Some(NativeConnectivityFailure::NoViablePair) => if self.observed_nat_mapping
                == ObservedNatMappingBehavior::LikelyAddressAndPortDependent {
                ConnectivityOutcome::SymmetricNatLikely
            } else {
                ConnectivityOutcome::NoViablePair
            },
            Some(NativeConnectivityFailure::Cancelled) => ConnectivityOutcome::Cancelled,
            Some(_) => ConnectivityOutcome::DirectConnectTimeout,
            None => ConnectivityOutcome::Unknown,
        };
        self.firewall.firewall_blocked_likely = outcome
            == ConnectivityOutcome::FirewallBlockedLikely;
        self.state = if outcome == ConnectivityOutcome::Cancelled {
            ConnectivityStateName::Cancelled
        } else {
            ConnectivityStateName::Failed
        };
        self.failure_classification = Some(outcome);
        self.fallback_decision = Some(
            match outcome {
                ConnectivityOutcome::SymmetricNatLikely
                | ConnectivityOutcome::RelayRequired => NativeFallbackDecision::RelayRequired,
                ConnectivityOutcome::UdpBlocked => NativeFallbackDecision::UnsupportedNetwork,
                _ => NativeFallbackDecision::NativeDirectFailedWebRtcEligible,
            },
        );
    }

    /// Takes over how a prepared socket was handed to QUIC.
    pub fn record_socket_handoff(&mut self, handoff: &QuinnSocketHandoffDiagnostic)
        ensures
            *final(self) == (NativeConnectivityDiagnostics {
                same_udp_port_preserved_for_stun_probe_and_quic: handoff.same_local_port,
                quinn_udp_buffer_target_bytes: handoff.requested_udp_buffer_bytes,
                quinn_udp_send_buffer_bytes: Some(handoff.udp_send_buffer_bytes),
                quinn_udp_receive_buffer_bytes: Some(handoff.udp_receive_buffer_bytes),
                ..*old(self)
            }),
    {
        self.same_udp_port_preserved_for_stun_probe_and_quic = handoff.same_local_port;
        self.quinn_udp_buffer_target_bytes = handoff.requested_udp_buffer_bytes;
        self.quinn_udp_send_buffer_bytes = Some(handoff.udp_send_buffer_bytes);
        self.quinn_udp_receive_buffer_bytes = Some(handoff.udp_receive_buffer_bytes);
    }
}

/// A failed search is never classified as blocked by a firewall, nor as a success.
pub proof fn law_failures_are_not_blamed_on_a_firewall(
    failure: Option<NativeConnectivityFailure>,
    outbound_stun_succeeded: bool,
    mapping: ObservedNatMappingBehavior,
)
    ensures
        ({
            let outcome = outcome_of_failure(failure, outbound_stun_succeeded, mapping);
            &&& !(outcome is FirewallBlockedLikely)
            &&& fallback_of(outcome) != NativeFallbackDecision::NativeDirectSuccess
        }),
{
}

} // verus!
