//! How failures of a direct transfer are named: a class, and behind it what was reported.

use crate::connectivity::ConnectivityCheckResultPayload;
use crate::connectivity_diagnostics::ConnectivityOutcome;
use crate::signaling::NativeConnectivityFailure;
use crate::text::{
    append_text, contains, contains_text, ends_with, ends_with_text, joined, occurs_at, same_text,
};
use vstd::prelude::*;

verus! {

/// How often a direct connection is tried.
pub const MAX_DIRECT_CONNECT_ATTEMPTS: u32 = 2;

/// The text of a failure: its class and what was reported.
pub open spec fn failure_text(class: Seq<char>, detail: Seq<char>) -> Seq<char> {
    class + ": "@ + detail
}

/// The text of a failure: its class and what was reported.
pub fn classify_failure(classification: &str, detail: &str) -> (text: String)
    ensures
        text@ == failure_text(classification@, detail@),
{
    let mut text: String = classification.to_owned();
    append_text(&mut text, ": ");
    append_text(&mut text, detail);
    text
}

/// Whether an error is the given code, or ends with it behind a colon.
pub open spec fn names_code(error: Seq<char>, code: Seq<char>) -> bool {
    error == code || ends_with_text(error, ": "@ + code)
}

fn has_code(error: &str, code: &str) -> (found: bool)
    ensures
        found == names_code(error@, code@),
{
    same_text(error, code) || ends_with(error, joined(": ", code).as_str())
}

/// The code of the signaling server that an error names, if it names one.
pub open spec fn server_code(error: Seq<char>) -> Option<Seq<char>> {
    if names_code(error, "native-signaling-disabled"@) {
        Some("native-signaling-disabled"@)
    } else if names_code(error, "native-peer-offline"@) {
        Some("native-peer-offline"@)
    } else if names_code(error, "native-route-unauthorized"@) {
        Some("native-route-unauthorized"@)
    } else if names_code(error, "invalid-native-envelope"@) {
        Some("invalid-native-envelope"@)
    } else if names_code(error, "share-offline-or-expired"@) {
        Some("share-offline-or-expired"@)
    } else if names_code(error, "receiver-announcement-failed"@) {
        Some("receiver-announcement-failed"@)
    } else if names_code(error, "invalid-native-capability"@) {
        Some("invalid-native-capability"@)
    } else if names_code(error, "invalid-native-control"@) {
        Some("invalid-native-control"@)
    } else {
        None
    }
}

/// The failure that the signaling server reported, if the error names one of its codes.
pub fn classify_signaling_server_failure(error: &str) -> (failure: Option<String>)
    ensures
        match failure {
            Some(text) => server_code(error@) matches Some(code) && text@ == failure_text(
                code,
                error@,
            ),
            None => server_code(error@) is None,
        },
{
    let code: &str = if has_code(error, "native-signaling-disabled") {
        "native-signaling-disabled"
    } else if has_code(error, "native-peer-offline") {
        "native-peer-offline"
    } else if has_code(error, "native-route-unauthorized") {
        "native-route-unauthorized"
    } else if has_code(error, "invalid-native-envelope") {
        "invalid-native-envelope"
    } else if has_code(error, "share-offline-or-expired") {
        "share-offline-or-expired"
    } else if has_code(error, "receiver-announcement-failed") {
        "receiver-announcement-failed"
    } else if has_code(error, "invalid-native-capability") {
        "invalid-native-capability"
    } else if has_code(error, "invalid-native-control") {
        "invalid-native-control"
    } else {
        return None;
    };
    Some(classify_failure(code, error))
}

/// Whether another connection to the signaling server may help after this error.
pub open spec fn is_retryable(error: Seq<char>) -> bool {
    &&& error != "native-signaling-endpoint-invalid"@
    &&& error != "native-signaling-route-invalid"@
    &&& error != "native-signaling-file-summary-required"@
    &&& error != "native-signaling-file-summary-invalid"@
    &&& error != "native-signaling-state-unavailable"@
    &&& error != "native-signaling-disabled"@
    &&& error != "native-route-unauthorized"@
    &&& error != "invalid-native-envelope"@
    &&& error != "invalid-native-capability"@
    &&& error != "invalid-native-control"@
}

/// Whether another connection to the signaling server may help after this error.
pub fn signaling_connect_error_retryable(error: &str) -> (retryable: bool)
    ensures
        retryable == is_retryable(error@),
{
    !(same_text(error, "native-signaling-endpoint-invalid") || same_text(
        error,
        "native-signaling-route-invalid",
    ) || same_text(error, "native-signaling-file-summary-required") || same_text(
        error,
        "native-signaling-file-summary-invalid",
    ) || same_text(error, "native-signaling-state-unavailable") || same_text(
        error,
        "native-signaling-disabled",
    ) || same_text(error, "native-route-unauthorized") || same_text(
        error,
        "invalid-native-envelope",
    ) || same_text(error, "invalid-native-capability") || same_text(
        error,
        "invalid-native-control",
    ))
}

/// What a failed connection to the signaling server is called.
pub open spec fn connect_failure(error: Seq<char>) -> Seq<char> {
    match server_code(error) {
        Some(code) => failure_text(code, error),
        None => failure_text("signaling-unavailable"@, error),
    }
}

/// What a failed connection to the signaling server is called.
pub fn classify_connect_failure(error: &str) -> (text: String)
    ensures
        text@ == connect_failure(error@),
{
    match classify_signaling_server_failure(error) {
        Some(text) => text,
        None => classify_failure("signaling-unavailable", error),
    }
}

/// What an error while waiting for the receiver is called.
pub open spec fn receiver_wait_failure(error: Seq<char>) -> Seq<char> {
    if error == "native-signaling-cancelled"@ {
        "native-transfer-cancelled"@
    } else {
        match server_code(error) {
            Some(code) => failure_text(code, error),
            None => if error == "native-signaling-receiver-timeout"@ {
                failure_text("receiver-not-ready"@, error)
            } else {
                failure_text("signaling-unavailable"@, error)
            },
        }
    }
}

/// What an error while waiting for the receiver is called.
pub fn classify_receiver_wait_error(error: &str) -> (text: String)
    ensures
        text@ == receiver_wait_failure(error@),
{
    if same_text(error, "native-signaling-cancelled") {
        return "native-transfer-cancelled".to_owned();
    }
    match classify_signaling_server_failure(error) {
        Some(text) => text,
        None => if same_text(error, "native-signaling-receiver-timeout") {
            classify_failure("receiver-not-ready", error)
        } else {
            classify_failure("signaling-unavailable", error)
        },
    }
}

/// What an error in the exchange with the peer is called.
pub open spec fn exchange_failure(error: Seq<char>) -> Seq<char> {
    if error == "native-signaling-cancelled"@ {
        "native-transfer-cancelled"@
    } else {
        match server_code(error) {
            Some(code) => failure_text(code, error),
            None => if contains_text(error, "reconnect-exhausted"@) || contains_text(
                error,
                "state-unavailable"@,
            ) || contains_text(error, "transport-unavailable"@) || contains_text(
                error,
                "connect-failed"@,
            ) || contains_text(error, "connect-timeout"@) {
                failure_text("signaling-unavailable"@, error)
            } else {
                failure_text("candidate-exchange-failed"@, error)
            },
        }
    }
}

/// What an error in the exchange with the peer is called.
pub fn classify_signaling_exchange_error(error: &str) -> (text: String)
    ensures
        text@ == exchange_failure(error@),
{
    if same_text(error, "native-signaling-cancelled") {
        return "native-transfer-cancelled".to_owned();
    }
    match classify_signaling_server_failure(error) {
        Some(text) => text,
        None => if contains(error, "reconnect-exhausted") || contains(error, "state-unavailable")
            || contains(error, "transport-unavailable") || contains(error, "connect-failed")
            || contains(error, "connect-timeout") {
            classify_failure("signaling-unavailable", error)
        } else {
            classify_failure("candidate-exchange-failed", error)
        },
    }
}

/// The class of an error while the own candidates are set up.
pub open spec fn candidate_setup_class(error: Seq<char>) -> Seq<char> {
    if contains_text(error, "authorization"@) || contains_text(error, "invitation"@) {
        "authorization-delivery-failed"@
    } else if contains_text(error, "native-udp-bind"@) || contains_text(
        error,
        "native-udp-address-family-unavailable"@,
    ) {
        "udp-bind-failed"@
    } else if contains_text(error, "native-connectivity-no-local-candidates"@) {
        "no-local-candidates"@
    } else if contains_text(error, "native-stun"@) {
        "stun-discovery-failed"@
    } else if contains_text(error, "authentication"@) || contains_text(error, "signature"@) {
        "candidate-authentication-failed"@
    } else {
        "candidate-gathering-failed"@
    }
}

/// What an error while the own candidates are set up is called.
pub fn classify_candidate_setup_error(error: &str) -> (text: String)
    ensures
        text@ == failure_text(candidate_setup_class(error@), error@),
{
    let class: &str = if contains(error, "authorization") || contains(error, "invitation") {
        "authorization-delivery-failed"
    } else if contains(error, "native-udp-bind") || contains(
        error,
        "native-udp-address-family-unavailable",
    ) {
        "udp-bind-failed"
    } else if contains(error, "native-connectivity-no-local-candidates") {
        "no-local-candidates"
    } else if contains(error, "native-stun") {
        "stun-discovery-failed"
    } else if contains(error, "authentication") || contains(error, "signature") {
        "candidate-authentication-failed"
    } else {
        "candidate-gathering-failed"
    };
    classify_failure(class, error)
}

/// What an error while the pairs are checked is called.
pub open spec fn checks_failure(error: Seq<char>) -> Seq<char> {
    if error == "native-connectivity-cancelled"@ {
        "native-transfer-cancelled"@
    } else if contains_text(error, "remote-candidates-required"@) {
        failure_text("remote-candidates-missing"@, error)
    } else if contains_text(error, "no-candidate-pairs"@) {
        failure_text("no-compatible-candidate-pair"@, error)
    } else if contains_text(error, "socket"@) || contains_text(error, "udp-address-family"@) {
        failure_text("udp-runtime-failed"@, error)
    } else {
        failure_text("no-direct-path"@, error)
    }
}

/// What an error while the pairs are checked is called.
pub fn classify_connectivity_checks_error(error: &str) -> (text: String)
    ensures
        text@ == checks_failure(error@),
{
    if same_text(error, "native-connectivity-cancelled") {
        "native-transfer-cancelled".to_owned()
    } else if contains(error, "remote-candidates-required") {
        classify_failure("remote-candidates-missing", error)
    } else if contains(error, "no-candidate-pairs") {
        classify_failure("no-compatible-candidate-pair", error)
    } else if contains(error, "socket") || contains(error, "udp-address-family") {
        classify_failure("udp-runtime-failed", error)
    } else {
        classify_failure("no-direct-path", error)
    }
}

/// What checks that found no pair are called, by how they ended.
pub open spec fn unnominated_failure(
    outcome: Option<ConnectivityOutcome>,
    last_error: Option<Seq<char>>,
) -> Seq<char> {
    match outcome {
        Some(ConnectivityOutcome::UdpBlocked) => failure_text(
            "udp-unavailable"@,
            "local UDP/STUN did not establish a usable path; UDP filtering or local network failure remains possible"@,
        ),
        Some(ConnectivityOutcome::FirewallBlockedLikely) => failure_text(
            "authenticated-probe-timeout"@,
            "local STUN succeeded but no authenticated peer UDP probe arrived; peer availability, NAT mapping, and filtering remain unverified"@,
        ),
        Some(ConnectivityOutcome::SymmetricNatLikely) => failure_text(
            "endpoint-dependent-nat-likely"@,
            "STUN observed destination-dependent address or port mapping and authenticated nomination did not complete"@,
        ),
        Some(ConnectivityOutcome::NoViablePair) => failure_text(
            "authenticated-udp-no-viable-pair"@,
            "authenticated UDP was observed but the bidirectional confirmation exchange did not complete"@,
        ),
        Some(ConnectivityOutcome::Cancelled) => "native-transfer-cancelled"@,
        Some(ConnectivityOutcome::DirectConnectTimeout) => failure_text(
            "direct-connect-timeout"@,
            "native candidate checks expired before an authenticated pair was nominated"@,
        ),
        Some(ConnectivityOutcome::CandidateAuthenticationFailed) => failure_text(
            "candidate-authentication-failed"@,
            "the peer connectivity message or probe could not be authenticated"@,
        ),
        Some(ConnectivityOutcome::CandidateExchangeFailed) => failure_text(
            "candidate-exchange-failed"@,
            "the peers did not complete authenticated candidate exchange"@,
        ),
        _ => failure_text(
            "no-direct-path"@,
            match last_error {
                Some(error) => error,
                None => "nomination-unavailable"@,
            },
        ),
    }
}

/// What checks that found no pair are called.
pub fn connectivity_checks_failure(
    outcome: Option<ConnectivityOutcome>,
    last_error: &Option<String>,
) -> (text: String)
    ensures
        text@ == unnominated_failure(
            outcome,
            match *last_error {
                Some(error) => Some(error@),
                None => None,
            },
        ),
{
    match outcome {
        Some(ConnectivityOutcome::UdpBlocked) => classify_failure(
            "udp-unavailable",
            "local UDP/STUN did not establish a usable path; UDP filtering or local network failure remains possible",
        ),
        Some(ConnectivityOutcome::FirewallBlockedLikely) => classify_failure(
            "authenticated-probe-timeout",
            "local STUN succeeded but no authenticated peer UDP probe arrived; peer availability, NAT mapping, and filtering remain unverified",
        ),
        Some(ConnectivityOutcome::SymmetricNatLikely) => classify_failure(
            "endpoint-dependent-nat-likely",
            "STUN observed destination-dependent address or port mapping and authenticated nomination did not complete",
        ),
        Some(ConnectivityOutcome::NoViablePair) => classify_failure(
            "authenticated-udp-no-viable-pair",
            "authenticated UDP was observed but the bidirectional confirmation exchange did not complete",
        ),
        Some(ConnectivityOutcome::Cancelled) => "native-transfer-cancelled".to_owned(),
        Some(ConnectivityOutcome::DirectConnectTimeout) => classify_failure(
            "direct-connect-timeout",
            "native candidate checks expired before an authenticated pair was nominated",
        ),
        Some(ConnectivityOutcome::CandidateAuthenticationFailed) => classify_failure(
            "candidate-authentication-failed",
            "the peer connectivity message or probe could not be authenticated",
        ),
        Some(ConnectivityOutcome::CandidateExchangeFailed) => classify_failure(
            "candidate-exchange-failed",
            "the peers did not complete authenticated candidate exchange",
        ),
        _ => classify_failure(
            "no-direct-path",
            match last_error {
                Some(error) => error.as_str(),
                None => "nomination-unavailable",
            },
        ),
    }
}

/// The own nomination, which goes to the peer once both ends agree. Checks that made none have
/// failed.
pub fn require_nomination(
    nomination: &Option<String>,
    outcome: Option<ConnectivityOutcome>,
    last_error: &Option<String>,
) -> (result: Result<String, String>)
    ensures
        match *nomination {
            Some(envelope) => result matches Ok(text) && text@ == envelope@,
            None => result matches Err(text) && text@ == unnominated_failure(
                outcome,
                match *last_error {
                    Some(error) => Some(error@),
                    None => None,
                },
            ),
        },
{
    match nomination {
        Some(envelope) => Ok(envelope.clone()),
        None => Err(connectivity_checks_failure(outcome, last_error)),
    }
}

/// Whether both ends found the same pair: the own nominated pair is among those that the peer
/// found viable, and the peer reports no failure.
pub open spec fn results_agree(
    local_pair: Option<Seq<char>>,
    peer: ConnectivityCheckResultPayload,
) -> bool {
    &&& local_pair is Some
    &&& peer.failure is None
    &&& exists|i: int|
        0 <= i < peer.viable_pair_ids@.len() && (#[trigger] peer.viable_pair_ids@[i])@
            == local_pair->Some_0
}

/// Whether both ends found the same pair.
pub fn connectivity_results_agree(
    local_pair_id: Option<&str>,
    peer: &ConnectivityCheckResultPayload,
) -> (agree: bool)
    ensures
        agree == results_agree(
            match local_pair_id {
                Some(pair) => Some(pair@),
                None => None,
            },
            *peer,
        ),
{
    let pair: &str = match local_pair_id {
        Some(pair) => pair,
        None => {
            return false;
        },
    };
    if peer.failure.is_some() {
        return false;
    }
    let mut index: usize = 0;
    while index < peer.viable_pair_ids.len()
        invariant
            index <= peer.viable_pair_ids.len(),
            local_pair_id == Some(pair),
            peer.failure is None,
            forall|i: int| 0 <= i < index ==> (#[trigger] peer.viable_pair_ids@[i])@ != pair@,
        decreases peer.viable_pair_ids.len() - index,
    {
        if same_text(peer.viable_pair_ids[index].as_str(), pair) {
            assert(peer.viable_pair_ids@[index as int]@ == pair@);
            return true;
        }
        index += 1;
    }
    false
}

/// Whether trying again may help after what the peer reported.
pub open spec fn is_recoverable(failure: Option<NativeConnectivityFailure>) -> bool {
    match failure {
        None => true,
        Some(reason) => reason is UdpBlocked || reason is DirectConnectTimeout
            || reason is NoViablePair || reason is SymmetricNatLikely,
    }
}

/// Whether trying again may help after what the peer reported.
pub fn connectivity_attempt_recoverable(peer: &ConnectivityCheckResultPayload) -> (recoverable:
    bool)
    ensures
        recoverable == is_recoverable(peer.failure),
{
    match peer.failure {
        None => true,
        Some(NativeConnectivityFailure::UdpBlocked)
        | Some(NativeConnectivityFailure::DirectConnectTimeout)
        | Some(NativeConnectivityFailure::NoViablePair)
        | Some(NativeConnectivityFailure::SymmetricNatLikely) => true,
        _ => false,
    }
}

/// Whether to try again after the attempt with the given number, counted from one.
pub fn should_retry_connectivity_attempt(
    attempt: u32,
    peer: &ConnectivityCheckResultPayload,
) -> (retry: bool)
    ensures
        retry == (attempt < MAX_DIRECT_CONNECT_ATTEMPTS && is_recoverable(peer.failure)),
{
    attempt < MAX_DIRECT_CONNECT_ATTEMPTS && connectivity_attempt_recoverable(peer)
}

/// What an attempt is called on which the two ends did not agree.
pub open spec fn attempt_failure(
    nominated: bool,
    outcome: Option<ConnectivityOutcome>,
    last_error: Option<Seq<char>>,
    peer: Option<NativeConnectivityFailure>,
) -> Seq<char> {
    if !nominated {
        unnominated_failure(outcome, last_error)
    } else {
        match peer {
            Some(NativeConnectivityFailure::UdpBlocked)
            | Some(NativeConnectivityFailure::DirectConnectTimeout) => failure_text(
                "direct-connect-timeout"@,
                "the peer did not receive an authenticated UDP probe"@,
            ),
            Some(NativeConnectivityFailure::SymmetricNatLikely) => failure_text(
                "endpoint-dependent-nat-likely"@,
                "the peer reported endpoint-dependent mapping during direct checks"@,
            ),
            Some(NativeConnectivityFailure::NoViablePair) => failure_text(
                "authenticated-udp-no-viable-pair"@,
                "the peer received authenticated UDP but did not confirm a viable pair"@,
            ),
            Some(NativeConnectivityFailure::Cancelled) => "peer-cancelled"@,
            Some(_) => failure_text(
                "no-direct-path"@,
                "the peer rejected the authenticated direct-connect attempt"@,
            ),
            None => failure_text(
                "no-direct-path"@,
                "the peers did not agree on the same authenticated candidate pair"@,
            ),
        }
    }
}

/// What an attempt is called on which the two ends did not agree.
pub fn connectivity_attempt_failure(
    nominated: bool,
    outcome: Option<ConnectivityOutcome>,
    last_error: &Option<String>,
    peer: &ConnectivityCheckResultPayload,
) -> (text: String)
    ensures
        text@ == attempt_failure(
            nominated,
            outcome,
            match *last_error {
                Some(error) => Some(error@),
                None => None,
            },
            peer.failure,
        ),
{
    if !nominated {
        return connectivity_checks_failure(outcome, last_error);
    }
    match peer.failure {
        Some(NativeConnectivityFailure::UdpBlocked)
        | Some(NativeConnectivityFailure::DirectConnectTimeout) => classify_failure(
            "direct-connect-timeout",
            "the peer did not receive an authenticated UDP probe",
        ),
        Some(NativeConnectivityFailure::SymmetricNatLikely) => classify_failure(
            "endpoint-dependent-nat-likely",
            "the peer reported endpoint-dependent mapping during direct checks",
        ),
        Some(NativeConnectivityFailure::NoViablePair) => classify_failure(
            "authenticated-udp-no-viable-pair",
            "the peer received authenticated UDP but did not confirm a viable pair",
        ),
        Some(NativeConnectivityFailure::Cancelled) => "peer-cancelled".to_owned(),
        Some(_) => classify_failure(
            "no-direct-path",
            "the peer rejected the authenticated direct-connect attempt",
        ),
        None => classify_failure(
            "no-direct-path",
            "the peers did not agree on the same authenticated candidate pair",
        ),
    }
}

/// Whether an error is reported as it is: it has a class already, or it stands for itself.
pub open spec fn speaks_for_itself(error: Seq<char>) -> bool {
    ||| contains_text(error, ":"@)
    ||| error == "peer-cancelled"@
    ||| error == "native-transfer-cancelled"@
    ||| error == "native-transfer-paused"@
    ||| error == "peer-paused"@
    ||| error == "completed-ack-lost"@
    ||| error == "integrity-mismatch"@
    ||| error == "source-file-changed"@
    ||| error == "native-runtime-panic"@
}

/// The class of an error while a transfer ran.
pub open spec fn runtime_class(error: Seq<char>) -> Seq<char> {
    if contains_text(error, "authorization"@) || contains_text(error, "invitation"@) {
        "authorization-delivery-failed"@
    } else if contains_text(error, "signaling"@) {
        "signaling-unavailable"@
    } else if contains_text(error, "candidate"@) {
        "candidate-exchange-failed"@
    } else if contains_text(error, "direct"@) || contains_text(error, "nomination"@) {
        "no-direct-path"@
    } else if contains_text(error, "quic"@) || contains_text(error, "connect"@) {
        "quic-connect-failed"@
    } else if contains_text(error, "handshake"@) || contains_text(error, "authentication"@) {
        "secure-handshake-failed"@
    } else {
        "transfer-interrupted"@
    }
}

/// What an error while a transfer ran is called.
pub open spec fn runtime_failure(error: Seq<char>) -> Seq<char> {
    if speaks_for_itself(error) {
        error
    } else {
        failure_text(runtime_class(error), error)
    }
}

/// What an error while a transfer ran is called.
pub fn classify_runtime_error(error: &str) -> (text: String)
    ensures
        text@ == runtime_failure(error@),
{
    if contains(error, ":") || same_text(error, "peer-cancelled") || same_text(
        error,
        "native-transfer-cancelled",
    ) || same_text(error, "native-transfer-paused") || same_text(error, "peer-paused") || same_text(
        error,
        "completed-ack-lost",
    ) || same_text(error, "integrity-mismatch") || same_text(error, "source-file-changed")
        || same_text(error, "native-runtime-panic") {
        return error.to_owned();
    }
    let class: &str = if contains(error, "authorization") || contains(error, "invitation") {
        "authorization-delivery-failed"
    } else if contains(error, "signaling") {
        "signaling-unavailable"
    } else if contains(error, "candidate") {
        "candidate-exchange-failed"
    } else if contains(error, "direct") || contains(error, "nomination") {
        "no-direct-path"
    } else if contains(error, "quic") || contains(error, "connect") {
        "quic-connect-failed"
    } else if contains(error, "handshake") || contains(error, "authentication") {
        "secure-handshake-failed"
    } else {
        "transfer-interrupted"
    };
    classify_failure(class, error)
}

proof fn lemma_failure_text(class: Seq<char>, detail: Seq<char>)
    ensures
        ends_with_text(failure_text(class, detail), detail),
        contains_text(failure_text(class, detail), ":"@),
{
    reveal_strlit(": ");
    reveal_strlit(":");
    let text = failure_text(class, detail);
    assert(text.subrange(text.len() - detail.len(), text.len() as int) =~= detail);
    let at = class.len() as int;
    assert(text.subrange(at, at + 1) =~= ":"@);
    assert(occurs_at(text, ":"@, at));
}

/// Classifying an error never loses what was reported: unless the transfer was cancelled, the
/// text ends with the error itself.
pub proof fn law_classes_keep_what_was_reported(error: Seq<char>)
    ensures
        error != "native-signaling-cancelled"@ ==> ends_with_text(
            receiver_wait_failure(error),
            error,
        ) && ends_with_text(exchange_failure(error), error),
        ends_with_text(connect_failure(error), error),
        ends_with_text(failure_text(candidate_setup_class(error), error), error),
        error != "native-connectivity-cancelled"@ ==> ends_with_text(checks_failure(error), error),
        ends_with_text(runtime_failure(error), error),
{
    lemma_failure_text("receiver-not-ready"@, error);
    lemma_failure_text("signaling-unavailable"@, error);
    lemma_failure_text("candidate-exchange-failed"@, error);
    lemma_failure_text(candidate_setup_class(error), error);
    lemma_failure_text("remote-candidates-missing"@, error);
    lemma_failure_text("no-compatible-candidate-pair"@, error);
    lemma_failure_text("udp-runtime-failed"@, error);
    lemma_failure_text("no-direct-path"@, error);
    lemma_failure_text(runtime_class(error), error);
    if server_code(error) is Some {
        lemma_failure_text(server_code(error)->Some_0, error);
    }
    assert(error.subrange(0, error.len() as int) =~= error);
}

/// A text that has its class is not classified again.
pub proof fn law_classified_errors_stay_as_they_are(class: Seq<char>, detail: Seq<char>)
    ensures
        runtime_failure(failure_text(class, detail)) == failure_text(class, detail),
{
    lemma_failure_text(class, detail);
}

/// What follows once both ends have reported on an attempt.
#[derive(Debug, Clone, PartialEq, Eq)]
pub enum AttemptVerdict {
    /// Both ends found the same pair: it is nominated.
    Agreed,
    /// The session is closed and the next attempt begins.
    Retry,
    /// The connection has failed for this reason.
    Fail(String),
}

/// The attempts at a direct connection, counted from one.
#[derive(Debug, Clone, Copy, PartialEq, Eq)]
pub struct ConnectAttempts {
    attempt: u32,
}

impl ConnectAttempts {
    /// The number of the present attempt, counted from one.
    pub closed spec fn number(self) -> u32 {
        self.attempt
    }

    /// Whether the number is that of an attempt that may be made.
    pub open spec fn wf(self) -> bool {
        1 <= self.number() <= MAX_DIRECT_CONNECT_ATTEMPTS
    }

    /// The first attempt.
    pub fn first() -> (attempts: Self)
        ensures
            attempts.wf(),
            attempts.number() == 1,
    {
        ConnectAttempts { attempt: 1 }
    }

    /// The number of the present attempt, which is also the generation of its candidates.
    pub fn generation(&self) -> (generation: u32)
        ensures
            generation == self.number(),
    {
        self.attempt
    }

    /// Judges an attempt by the own nominated pair, by how the own checks ended and by what the
    /// peer reported.
    pub fn judge(
        &mut self,
        local_pair_id: Option<&str>,
        outcome: Option<ConnectivityOutcome>,
        last_error: &Option<String>,
        peer: &ConnectivityCheckResultPayload,
    ) -> (verdict: AttemptVerdict)
        requires
            old(self).wf(),
        ensures
            final(self).wf(),
            ({
                let pair = match local_pair_id {
                    Some(pair) => Some(pair@),
                    None => None,
                };
                let error = match *last_error {
                    Some(error) => Some(error@),
                    None => None,
                };
                if results_agree(pair, *peer) {
                    verdict is Agreed && final(self).number() == old(self).number()
                } else if old(self).number() < MAX_DIRECT_CONNECT_ATTEMPTS && is_recoverable(
                    peer.failure,
                ) {
                    verdict is Retry && final(self).number() == old(self).number() + 1
                } else {
                    &&& verdict matches AttemptVerdict::Fail(text) && text@ == attempt_failure(
                        pair is Some,
                        outcome,
                        error,
                        peer.failure,
                    )
                    &&& final(self).number() == old(self).number()
                }
            }),
    {
        if connectivity_results_agree(local_pair_id, peer) {
            return AttemptVerdict::Agreed;
        }
        if should_retry_connectivity_attempt(self.attempt, peer) {
            self.attempt = self.attempt + 1;
            return AttemptVerdict::Retry;
        }
        AttemptVerdict::Fail(
            connectivity_attempt_failure(local_pair_id.is_some(), outcome, last_error, peer),
        )
    }
}

/// What follows while the signaling server is being reached.
#[derive(Debug, Clone, PartialEq, Eq)]
pub enum ConnectStep {
    /// Try to connect, for at most this many milliseconds.
    Try(u64),
    /// Wait this many milliseconds, then look again.
    Wait(u64),
    /// The server was not reached for this reason.
    Fail(String),
}

/// Repeated attempts to reach the signaling server until a deadline.
#[derive(Debug)]
pub struct SignalingConnect {
    last_error: String,
}

/// How long to wait between two attempts to reach the signaling server, in milliseconds.
pub const SIGNALING_RETRY_DELAY_MS: u64 = 350;

impl SignalingConnect {
    /// What the last attempt reported.
    pub closed spec fn last(self) -> Seq<char> {
        self.last_error@
    }

    /// No attempt was made yet.
    pub fn begin() -> (connect: Self)
        ensures
            connect.last() == "native-signaling-connect-failed"@,
    {
        SignalingConnect { last_error: "native-signaling-connect-failed".to_owned() }
    }

    /// What is done next, with so many milliseconds left before the deadline.
    pub fn next(&self, remaining_ms: u64, cancelled: bool) -> (step: ConnectStep)
        ensures
            if cancelled {
                step matches ConnectStep::Fail(error) && error@ == "native-transfer-cancelled"@
            } else if remaining_ms == 0 {
                step matches ConnectStep::Fail(error) && error@ == connect_failure(self.last())
            } else {
                step == ConnectStep::Try(remaining_ms)
            },
    {
        if cancelled {
            return ConnectStep::Fail("native-transfer-cancelled".to_owned());
        }
        if remaining_ms == 0 {
            return ConnectStep::Fail(classify_connect_failure(self.last_error.as_str()));
        }
        ConnectStep::Try(remaining_ms)
    }

    /// What is done after an attempt that did not connect: `None` where it ran into the
    /// deadline, else what it reported.
    pub fn attempt_failed(&mut self, error: Option<String>, remaining_ms: u64) -> (step:
        ConnectStep)
        ensures
            match error {
                None => {
                    &&& step matches ConnectStep::Fail(text) && text@ == connect_failure(
                        old(self).last(),
                    )
                    &&& final(self).last() == old(self).last()
                },
                Some(reported) => if !is_retryable(reported@) {
                    &&& step matches ConnectStep::Fail(text) && text@ == connect_failure(reported@)
                    &&& final(self).last() == old(self).last()
                } else {
                    &&& final(self).last() == reported@
                    &&& if remaining_ms == 0 {
                        step matches ConnectStep::Fail(text) && text@ == connect_failure(reported@)
                    } else {
                        step == ConnectStep::Wait(
                            if remaining_ms < SIGNALING_RETRY_DELAY_MS {
                                remaining_ms
                            } else {
                                SIGNALING_RETRY_DELAY_MS
                            },
                        )
                    }
                },
            },
    {
        let error: String = match error {
            None => {
                return ConnectStep::Fail(classify_connect_failure(self.last_error.as_str()));
            },
            Some(error) => error,
        };
        if !signaling_connect_error_retryable(error.as_str()) {
            return ConnectStep::Fail(classify_connect_failure(error.as_str()));
        }
        self.last_error = error;
        if remaining_ms == 0 {
            return ConnectStep::Fail(classify_connect_failure(self.last_error.as_str()));
        }
        ConnectStep::Wait(
            if remaining_ms < SIGNALING_RETRY_DELAY_MS {
                remaining_ms
            } else {
                SIGNALING_RETRY_DELAY_MS
            },
        )
    }
}

} // verus!
