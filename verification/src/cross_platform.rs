//! The engine as applications on all platforms see it: its capabilities, its errors, the state
//! of its transfers and the events that it reports.

use crate::arith::min_u64;
use crate::candidates::CandidatePrivacyPolicy;
use crate::connectivity::{usual_options, ConnectivityGatherOptions};
use crate::cross_device::{
    flowshare_native_cancel_incoming_transfer, flowshare_native_cancel_outgoing_transfer,
    flowshare_native_get_incoming_transfer, flowshare_native_get_outgoing_transfer,
    flowshare_native_pause_incoming_transfer, flowshare_native_pause_outgoing_transfer,
    flowshare_native_reject_incoming_transfer, flowshare_native_start_incoming_transfer,
    flowshare_native_start_outgoing_transfer, incoming_missing, outgoing_missing, shown,
    usual_form, AcceptIncomingTransferRequest, CancelSplitTransferRequest, IncomingMutable, IncomingNativeState,
    IncomingNativeTransfer, IncomingNativeTransferSnapshot, LocalStopIntent,
    NativeAuthorizationDeliveryMode, OutgoingNativeState,
    OutgoingNativeTransfer, OutgoingNativeTransferSnapshot, SplitTransferIdRequest,
    SplitTransferResult, StartSplitTransferRequest, StopFollowUp,
};
use crate::device_protocol::DevicePlatform;
use crate::ordering::views;
use crate::paths::{is_absolute_path, PathStyle};
use crate::platform_handles::{check_state_root, configure_state_root};
use crate::protocol::NATIVE_QUIC_PROTOCOL_VERSION;
use crate::registry::Registry;
use crate::text::{contains, contains_text, lower_text, to_lower};
use crate::transfer_setup::{
    CreateOutgoingTransferRequest, CreateOutgoingTransferResponse,
    ImportIncomingInvitationRequest, ImportIncomingInvitationResponse,
    IncomingResumableDiscovery, OutgoingResumableDiscovery, PrepareIncomingReceiverResponse,
    ResumeIncomingTransferRequest, ResumeOutgoingTransferRequest,
};
use vstd::prelude::*;

verus! {

/// The version of the description of capabilities.
pub const CAPABILITY_SCHEMA_VERSION: u16 = 1;

#[derive(Debug, Clone, Copy, PartialEq, Eq, Structural)]
pub enum FlowShareErrorCode {
    SignalingUnavailable,
    PeerOffline,
    NativeConnectFailed,
    QuicConnectFailed,
    StunFailed,
    DirectConnectUnavailable,
    ProtocolMismatch,
    AuthorizationFailed,
    InvitationExpired,
    SourceUnavailable,
    DestinationUnavailable,
    DiskFull,
    SourceChanged,
    CheckpointInvalid,
    HashMismatch,
    Cancelled,
    InvalidRequest,
    UnsupportedPlatform,
    Internal,
}

#[derive(Debug, Clone, Copy, PartialEq, Eq, Structural)]
pub enum FlowShareErrorCategory {
    Connectivity,
    Security,
    Compatibility,
    Storage,
    User,
    Internal,
}

/// A failure, and what can be done about it.
#[derive(Debug, Clone, Copy, PartialEq, Eq, Structural)]
pub struct FlowShareFailure {
    pub code: FlowShareErrorCode,
    pub category: FlowShareErrorCategory,
    pub retryable: bool,
    pub fallback_eligible: bool,
}

/// The category of a failure.
pub open spec fn category_of(code: FlowShareErrorCode) -> FlowShareErrorCategory {
    match code {
        FlowShareErrorCode::SignalingUnavailable
        | FlowShareErrorCode::PeerOffline
        | FlowShareErrorCode::NativeConnectFailed
        | FlowShareErrorCode::QuicConnectFailed
        | FlowShareErrorCode::StunFailed
        | FlowShareErrorCode::DirectConnectUnavailable => FlowShareErrorCategory::Connectivity,
        FlowShareErrorCode::ProtocolMismatch
        | FlowShareErrorCode::UnsupportedPlatform
        | FlowShareErrorCode::InvalidRequest => FlowShareErrorCategory::Compatibility,
        FlowShareErrorCode::AuthorizationFailed
        | FlowShareErrorCode::InvitationExpired
        | FlowShareErrorCode::HashMismatch
        | FlowShareErrorCode::SourceChanged
        | FlowShareErrorCode::CheckpointInvalid => FlowShareErrorCategory::Security,
        FlowShareErrorCode::DiskFull
        | FlowShareErrorCode::SourceUnavailable
        | FlowShareErrorCode::DestinationUnavailable => FlowShareErrorCategory::Storage,
        FlowShareErrorCode::Cancelled => FlowShareErrorCategory::User,
        FlowShareErrorCode::Internal => FlowShareErrorCategory::Internal,
    }
}

/// Whether trying again may help.
pub open spec fn may_retry(code: FlowShareErrorCode) -> bool {
    !(code is ProtocolMismatch || code is UnsupportedPlatform || code is InvalidRequest
        || code is AuthorizationFailed || code is InvitationExpired || code is Cancelled)
}

/// Whether another transport may help.
pub open spec fn may_fall_back(code: FlowShareErrorCode) -> bool {
    code is NativeConnectFailed || code is QuicConnectFailed || code is StunFailed
        || code is DirectConnectUnavailable
}

/// The failure with a code.
pub open spec fn failure_of(code: FlowShareErrorCode) -> FlowShareFailure {
    FlowShareFailure {
        code,
        category: category_of(code),
        retryable: may_retry(code),
        fallback_eligible: may_fall_back(code),
    }
}

impl FlowShareFailure {
    /// The failure with a code, and what can be done about it.
    pub fn classify(code: FlowShareErrorCode) -> (failure: Self)
        ensures
            failure == failure_of(code),
    {
        let (category, retryable, fallback_eligible) = match code {
            FlowShareErrorCode::SignalingUnavailable | FlowShareErrorCode::PeerOffline => (
                FlowShareErrorCategory::Connectivity,
                true,
                false,
            ),
            FlowShareErrorCode::NativeConnectFailed
            | FlowShareErrorCode::QuicConnectFailed
            | FlowShareErrorCode::StunFailed
            | FlowShareErrorCode::DirectConnectUnavailable => (
                FlowShareErrorCategory::Connectivity,
                true,
                true,
            ),
            FlowShareErrorCode::ProtocolMismatch
            | FlowShareErrorCode::UnsupportedPlatform
            | FlowShareErrorCode::InvalidRequest => (
                FlowShareErrorCategory::Compatibility,
                false,
                false,
            ),
            FlowShareErrorCode::AuthorizationFailed | FlowShareErrorCode::InvitationExpired => (
                FlowShareErrorCategory::Security,
                false,
                false,
            ),
            FlowShareErrorCode::HashMismatch
            | FlowShareErrorCode::SourceChanged
            | FlowShareErrorCode::CheckpointInvalid => (
                FlowShareErrorCategory::Security,
                true,
                false,
            ),
            FlowShareErrorCode::DiskFull
            | FlowShareErrorCode::SourceUnavailable
            | FlowShareErrorCode::DestinationUnavailable => (
                FlowShareErrorCategory::Storage,
                true,
                false,
            ),
            FlowShareErrorCode::Cancelled => (FlowShareErrorCategory::User, false, false),
            FlowShareErrorCode::Internal => (FlowShareErrorCategory::Internal, true, false),
        };
        FlowShareFailure { code, category, retryable, fallback_eligible }
    }
}

/// The failure with a code, and what can be done about it.
pub fn classify_error(code: FlowShareErrorCode) -> (failure: FlowShareFailure)
    ensures
        failure == failure_of(code),
{
    FlowShareFailure::classify(code)
}

/// Another transport is offered only where connecting failed, and there trying again may help
/// too. A failed authorization is never tried again.
pub proof fn law_fallback_is_for_connections_only(code: FlowShareErrorCode)
    ensures
        may_fall_back(code) ==> category_of(code) is Connectivity && may_retry(code),
        code is AuthorizationFailed || code is InvitationExpired ==> !may_retry(code)
            && !may_fall_back(code),
{
}

#[derive(Debug, Clone, Copy, PartialEq, Eq, Structural)]
pub enum FlowShareApiError {
    SignalingUnavailable,
    PeerOffline,
    AuthorizationFailed,
    InvitationExpired,
    ProtocolMismatch,
    StunFailed,
    DirectConnectUnavailable,
    QuicConnectFailed,
    SourceUnavailable,
    DestinationUnavailable,
    DiskFull,
    SourceChanged,
    CheckpointInvalid,
    HashMismatch,
    Cancelled,
    InvalidRequest,
    EngineNotInitialized,
    EngineShutdown,
    Internal,
}

/// The error that a message stands for, by the first of the known words that occurs in it.
pub open spec fn error_in(message: Seq<char>) -> FlowShareApiError {
    let text = lower_text(message);
    if contains_text(text, "signaling"@) || contains_text(text, "websocket"@) {
        FlowShareApiError::SignalingUnavailable
    } else if contains_text(text, "peer-offline"@) || contains_text(text, "peer offline"@) {
        FlowShareApiError::PeerOffline
    } else if contains_text(text, "authorization"@) || contains_text(
        text,
        "invitation-signature"@,
    ) {
        FlowShareApiError::AuthorizationFailed
    } else if contains_text(text, "expired"@) {
        FlowShareApiError::InvitationExpired
    } else if contains_text(text, "protocol"@) || contains_text(text, "version"@) {
        FlowShareApiError::ProtocolMismatch
    } else if contains_text(text, "stun"@) {
        FlowShareApiError::StunFailed
    } else if contains_text(text, "direct-connect"@) || contains_text(text, "candidate"@) {
        FlowShareApiError::DirectConnectUnavailable
    } else if contains_text(text, "quic"@) || contains_text(text, "connect-failed"@) {
        FlowShareApiError::QuicConnectFailed
    } else if contains_text(text, "source-changed"@) || contains_text(text, "source-identity"@) {
        FlowShareApiError::SourceChanged
    } else if contains_text(text, "source"@) {
        FlowShareApiError::SourceUnavailable
    } else if contains_text(text, "disk"@) || contains_text(text, "space"@) {
        FlowShareApiError::DiskFull
    } else if contains_text(text, "destination"@) || contains_text(text, "output"@) {
        FlowShareApiError::DestinationUnavailable
    } else if contains_text(text, "checkpoint"@) || contains_text(text, "resume"@) {
        FlowShareApiError::CheckpointInvalid
    } else if contains_text(text, "hash"@) || contains_text(text, "integrity"@) {
        FlowShareApiError::HashMismatch
    } else if contains_text(text, "cancel"@) || contains_text(text, "declined"@) {
        FlowShareApiError::Cancelled
    } else if contains_text(text, "invalid"@) || contains_text(text, "not-found"@) {
        FlowShareApiError::InvalidRequest
    } else {
        FlowShareApiError::Internal
    }
}

/// The error that a message stands for.
pub fn api_error(message: &str) -> (error: FlowShareApiError)
    ensures
        error == error_in(message@),
{
    let lower = to_lower(message);
    let text: &str = lower.as_str();
    if contains(text, "signaling") || contains(text, "websocket") {
        FlowShareApiError::SignalingUnavailable
    } else if contains(text, "peer-offline") || contains(text, "peer offline") {
        FlowShareApiError::PeerOffline
    } else if contains(text, "authorization") || contains(text, "invitation-signature") {
        FlowShareApiError::AuthorizationFailed
    } else if contains(text, "expired") {
        FlowShareApiError::InvitationExpired
    } else if contains(text, "protocol") || contains(text, "version") {
        FlowShareApiError::ProtocolMismatch
    } else if contains(text, "stun") {
        FlowShareApiError::StunFailed
    } else if contains(text, "direct-connect") || contains(text, "candidate") {
        FlowShareApiError::DirectConnectUnavailable
    } else if contains(text, "quic") || contains(text, "connect-failed") {
        FlowShareApiError::QuicConnectFailed
    } else if contains(text, "source-changed") || contains(text, "source-identity") {
        FlowShareApiError::SourceChanged
    } else if contains(text, "source") {
        FlowShareApiError::SourceUnavailable
    } else if contains(text, "disk") || contains(text, "space") {
        FlowShareApiError::DiskFull
    } else if contains(text, "destination") || contains(text, "output") {
        FlowShareApiError::DestinationUnavailable
    } else if contains(text, "checkpoint") || contains(text, "resume") {
        FlowShareApiError::CheckpointInvalid
    } else if contains(text, "hash") || contains(text, "integrity") {
        FlowShareApiError::HashMismatch
    } else if contains(text, "cancel") || contains(text, "declined") {
        FlowShareApiError::Cancelled
    } else if contains(text, "invalid") || contains(text, "not-found") {
        FlowShareApiError::InvalidRequest
    } else {
        FlowShareApiError::Internal
    }
}

/// The code under which an error is reported.
pub open spec fn code_of(error: FlowShareApiError) -> FlowShareErrorCode {
    match error {
        FlowShareApiError::SignalingUnavailable => FlowShareErrorCode::SignalingUnavailable,
        FlowShareApiError::PeerOffline => FlowShareErrorCode::PeerOffline,
        FlowShareApiError::AuthorizationFailed => FlowShareErrorCode::AuthorizationFailed,
        FlowShareApiError::InvitationExpired => FlowShareErrorCode::InvitationExpired,
        FlowShareApiError::ProtocolMismatch => FlowShareErrorCode::ProtocolMismatch,
        FlowShareApiError::StunFailed => FlowShareErrorCode::StunFailed,
        FlowShareApiError::DirectConnectUnavailable => FlowShareErrorCode::DirectConnectUnavailable,
        FlowShareApiError::QuicConnectFailed => FlowShareErrorCode::QuicConnectFailed,
        FlowShareApiError::SourceUnavailable => FlowShareErrorCode::SourceUnavailable,
        FlowShareApiError::DestinationUnavailable => FlowShareErrorCode::DestinationUnavailable,
        FlowShareApiError::DiskFull => FlowShareErrorCode::DiskFull,
        FlowShareApiError::SourceChanged => FlowShareErrorCode::SourceChanged,
        FlowShareApiError::CheckpointInvalid => FlowShareErrorCode::CheckpointInvalid,
        FlowShareApiError::HashMismatch => FlowShareErrorCode::HashMismatch,
        FlowShareApiError::Cancelled => FlowShareErrorCode::Cancelled,
        FlowShareApiError::InvalidRequest => FlowShareErrorCode::InvalidRequest,
        FlowShareApiError::EngineNotInitialized
        | FlowShareApiError::EngineShutdown
        | FlowShareApiError::Internal => FlowShareErrorCode::Internal,
    }
}

/// The failure that an error is reported as.
pub fn failure_for_api_error(error: FlowShareApiError) -> (failure: FlowShareFailure)
    ensures
        failure == failure_of(code_of(error)),
{
    let code = match error {
        FlowShareApiError::SignalingUnavailable => FlowShareErrorCode::SignalingUnavailable,
        FlowShareApiError::PeerOffline => FlowShareErrorCode::PeerOffline,
        FlowShareApiError::AuthorizationFailed => FlowShareErrorCode::AuthorizationFailed,
        FlowShareApiError::InvitationExpired => FlowShareErrorCode::InvitationExpired,
        FlowShareApiError::ProtocolMismatch => FlowShareErrorCode::ProtocolMismatch,
        FlowShareApiError::StunFailed => FlowShareErrorCode::StunFailed,
        FlowShareApiError::DirectConnectUnavailable => FlowShareErrorCode::DirectConnectUnavailable,
        FlowShareApiError::QuicConnectFailed => FlowShareErrorCode::QuicConnectFailed,
        FlowShareApiError::SourceUnavailable => FlowShareErrorCode::SourceUnavailable,
        FlowShareApiError::DestinationUnavailable => FlowShareErrorCode::DestinationUnavailable,
        FlowShareApiError::DiskFull => FlowShareErrorCode::DiskFull,
        FlowShareApiError::SourceChanged => FlowShareErrorCode::SourceChanged,
        FlowShareApiError::CheckpointInvalid => FlowShareErrorCode::CheckpointInvalid,
        FlowShareApiError::HashMismatch => FlowShareErrorCode::HashMismatch,
        FlowShareApiError::Cancelled => FlowShareErrorCode::Cancelled,
        FlowShareApiError::InvalidRequest => FlowShareErrorCode::InvalidRequest,
        FlowShareApiError::EngineNotInitialized
        | FlowShareApiError::EngineShutdown
        | FlowShareApiError::Internal => FlowShareErrorCode::Internal,
    };
    FlowShareFailure::classify(code)
}

/// What a device can do.
#[derive(Debug, PartialEq, Eq)]
pub struct FlowShareCapabilities {
    pub schema_version: u16,
    pub protocol_version: u16,
    pub platform: DevicePlatform,
    pub native_quic: bool,
    pub webrtc_direct: bool,
    pub resume: bool,
    pub completion_ack: bool,
    pub sha256: bool,
    pub lan_discovery: bool,
    pub device_mode: bool,
    pub max_file_size: u64,
    pub app_version: String,
}

impl Clone for FlowShareCapabilities {
    fn clone(&self) -> (copy: Self)
        ensures
            copy.app_version@ == self.app_version@,
            copy == (FlowShareCapabilities { app_version: copy.app_version, ..*self }),
    {
        FlowShareCapabilities {
            schema_version: self.schema_version,
            protocol_version: self.protocol_version,
            platform: self.platform,
            native_quic: self.native_quic,
            webrtc_direct: self.webrtc_direct,
            resume: self.resume,
            completion_ack: self.completion_ack,
            sha256: self.sha256,
            lan_discovery: self.lan_discovery,
            device_mode: self.device_mode,
            max_file_size: self.max_file_size,
            app_version: self.app_version.clone(),
        }
    }
}

impl FlowShareCapabilities {
    /// Why a device cannot take part, if it cannot.
    pub open spec fn defect(self) -> Option<FlowShareFailure> {
        if self.schema_version != CAPABILITY_SCHEMA_VERSION || self.protocol_version
            != NATIVE_QUIC_PROTOCOL_VERSION {
            Some(failure_of(FlowShareErrorCode::ProtocolMismatch))
        } else if self.platform is Unknown {
            Some(failure_of(FlowShareErrorCode::UnsupportedPlatform))
        } else {
            None
        }
    }

    /// Checks versions and platform.
    pub fn validate(&self) -> (result: Result<(), FlowShareFailure>)
        ensures
            match result {
                Ok(()) => self.defect() is None,
                Err(failure) => self.defect() == Some(failure),
            },
    {
        if self.schema_version != CAPABILITY_SCHEMA_VERSION || self.protocol_version
            != NATIVE_QUIC_PROTOCOL_VERSION {
            return Err(FlowShareFailure::classify(FlowShareErrorCode::ProtocolMismatch));
        }
        if self.platform == DevicePlatform::Unknown {
            return Err(FlowShareFailure::classify(FlowShareErrorCode::UnsupportedPlatform));
        }
        Ok(())
    }
}

/// What two devices can do with each other.
#[derive(Debug, Clone, Copy, PartialEq, Eq, Structural)]
pub struct NegotiatedCapabilities {
    pub compatible: bool,
    pub native_quic: bool,
    pub webrtc_direct: bool,
    pub resume: bool,
    pub completion_ack: bool,
    pub sha256: bool,
    pub max_file_size: u64,
    pub failure: Option<FlowShareFailure>,
}

/// What two devices can do with each other: what both can, and nothing where one of them cannot
/// take part.
pub open spec fn negotiated(
    local: FlowShareCapabilities,
    peer: FlowShareCapabilities,
) -> NegotiatedCapabilities {
    let failure = if local.defect() is Some {
        local.defect()
    } else {
        peer.defect()
    };
    let compatible = failure is None;
    NegotiatedCapabilities {
        compatible,
        native_quic: compatible && local.native_quic && peer.native_quic,
        webrtc_direct: compatible && local.webrtc_direct && peer.webrtc_direct,
        resume: compatible && local.resume && peer.resume,
        completion_ack: compatible && local.completion_ack && peer.completion_ack,
        sha256: compatible && local.sha256 && peer.sha256,
        max_file_size: if local.max_file_size <= peer.max_file_size {
            local.max_file_size
        } else {
            peer.max_file_size
        },
        failure,
    }
}

/// What two devices can do with each other.
pub fn negotiate(local: &FlowShareCapabilities, peer: &FlowShareCapabilities) -> (result:
    NegotiatedCapabilities)
    ensures
        result == negotiated(*local, *peer),
{
    let failure: Option<FlowShareFailure> = match local.validate() {
        Err(failure) => Some(failure),
        Ok(()) => match peer.validate() {
            Err(failure) => Some(failure),
            Ok(()) => None,
        },
    };
    let compatible: bool = failure.is_none();
    NegotiatedCapabilities {
        compatible,
        native_quic: compatible && local.native_quic && peer.native_quic,
        webrtc_direct: compatible && local.webrtc_direct && peer.webrtc_direct,
        resume: compatible && local.resume && peer.resume,
        completion_ack: compatible && local.completion_ack && peer.completion_ack,
        sha256: compatible && local.sha256 && peer.sha256,
        max_file_size: min_u64(local.max_file_size, peer.max_file_size),
        failure,
    }
}

/// Both ends come to the same result: only which of two failures is reported may differ.
pub proof fn law_negotiation_is_symmetric(left: FlowShareCapabilities, right: FlowShareCapabilities)
    ensures
        negotiated(right, left) == (NegotiatedCapabilities {
            failure: negotiated(right, left).failure,
            ..negotiated(left, right)
        }),
        negotiated(left, right).failure is None <==> negotiated(right, left).failure is None,
        !(left.defect() is Some && right.defect() is Some) ==> negotiated(left, right)
            == negotiated(right, left),
{
}

#[derive(Debug, Clone, Copy, PartialEq, Eq, Structural)]
pub enum FlowShareDirection {
    Send,
    Receive,
}

#[derive(Debug, Clone, Copy, PartialEq, Eq, Structural)]
pub enum FlowShareTransferState {
    Prepared,
    Incoming,
    AwaitingAcceptance,
    WaitingForPeer,
    Connecting,
    Connected,
    Transferring,
    Paused,
    Resuming,
    Verifying,
    Completed,
    Cancelled,
    Rejected,
    Failed,
}

impl FlowShareTransferState {
    /// Whether nothing follows.
    pub open spec fn is_end(self) -> bool {
        self is Completed || self is Cancelled || self is Rejected || self is Failed
    }

    /// Whether nothing follows.
    pub fn terminal(self) -> (ended: bool)
        ensures
            ended == self.is_end(),
    {
        matches!(
            self,
            FlowShareTransferState::Completed
                | FlowShareTransferState::Cancelled
                | FlowShareTransferState::Rejected
                | FlowShareTransferState::Failed
        )
    }
}

/// Where a transfer stands.
#[derive(Debug, PartialEq, Eq)]
pub struct FlowShareTransferStatus {
    pub schema_version: u16,
    pub transfer_id: String,
    pub direction: FlowShareDirection,
    pub state: FlowShareTransferState,
    pub bytes_transferred: u64,
    pub total_bytes: u64,
    pub bytes_per_second: u64,
    pub transport: Option<String>,
    pub checkpoint_generation: u64,
    pub runtime_active: bool,
    pub failure: Option<FlowShareFailure>,
}

/// What a status says.
pub struct StatusFacts {
    pub schema_version: u16,
    pub transfer_id: Seq<char>,
    pub direction: FlowShareDirection,
    pub state: FlowShareTransferState,
    pub bytes_transferred: u64,
    pub total_bytes: u64,
    pub bytes_per_second: u64,
    pub transport: Option<Seq<char>>,
    pub checkpoint_generation: u64,
    pub runtime_active: bool,
    pub failure: Option<FlowShareFailure>,
}

impl View for FlowShareTransferStatus {
    type V = StatusFacts;

    open spec fn view(&self) -> StatusFacts {
        StatusFacts {
            schema_version: self.schema_version,
            transfer_id: self.transfer_id@,
            direction: self.direction,
            state: self.state,
            bytes_transferred: self.bytes_transferred,
            total_bytes: self.total_bytes,
            bytes_per_second: self.bytes_per_second,
            transport: shown(self.transport),
            checkpoint_generation: self.checkpoint_generation,
            runtime_active: self.runtime_active,
            failure: self.failure,
        }
    }
}

impl Clone for FlowShareTransferStatus {
    fn clone(&self) -> (copy: Self)
        ensures
            copy@ == self@,
    {
        FlowShareTransferStatus {
            schema_version: self.schema_version,
            transfer_id: self.transfer_id.clone(),
            direction: self.direction,
            state: self.state,
            bytes_transferred: self.bytes_transferred,
            total_bytes: self.total_bytes,
            bytes_per_second: self.bytes_per_second,
            transport: match &self.transport {
                Some(transport) => Some(transport.clone()),
                None => None,
            },
            checkpoint_generation: self.checkpoint_generation,
            runtime_active: self.runtime_active,
            failure: self.failure,
        }
    }
}

/// The state of an outgoing transfer as applications see it.
pub open spec fn sending_state(state: OutgoingNativeState) -> FlowShareTransferState {
    match state {
        OutgoingNativeState::Created => FlowShareTransferState::Prepared,
        OutgoingNativeState::AwaitingReceiver
        | OutgoingNativeState::AuthorizationDelivering => FlowShareTransferState::WaitingForPeer,
        OutgoingNativeState::GatheringCandidates
        | OutgoingNativeState::Connecting => FlowShareTransferState::Connecting,
        OutgoingNativeState::Transferring => FlowShareTransferState::Transferring,
        OutgoingNativeState::Finalizing => FlowShareTransferState::Verifying,
        OutgoingNativeState::Paused => FlowShareTransferState::Paused,
        OutgoingNativeState::Completed => FlowShareTransferState::Completed,
        OutgoingNativeState::Cancelled => FlowShareTransferState::Cancelled,
        OutgoingNativeState::Failed => FlowShareTransferState::Failed,
    }
}

/// The state of an incoming transfer as applications see it.
pub open spec fn receiving_state(state: IncomingNativeState) -> FlowShareTransferState {
    match state {
        IncomingNativeState::InvitationImported => FlowShareTransferState::Incoming,
        IncomingNativeState::AwaitingAcceptance => FlowShareTransferState::AwaitingAcceptance,
        IncomingNativeState::Accepted => FlowShareTransferState::Prepared,
        IncomingNativeState::GatheringCandidates
        | IncomingNativeState::Connecting => FlowShareTransferState::Connecting,
        IncomingNativeState::Receiving => FlowShareTransferState::Transferring,
        IncomingNativeState::Finalizing => FlowShareTransferState::Verifying,
        IncomingNativeState::Paused => FlowShareTransferState::Paused,
        IncomingNativeState::Completed => FlowShareTransferState::Completed,
        IncomingNativeState::Cancelled => FlowShareTransferState::Cancelled,
        IncomingNativeState::Declined => FlowShareTransferState::Rejected,
        IncomingNativeState::Failed => FlowShareTransferState::Failed,
    }
}

/// The failure that the error of a transfer is reported as.
pub open spec fn reported(error: Option<Seq<char>>) -> Option<FlowShareFailure> {
    match error {
        Some(text) => Some(failure_of(code_of(error_in(text)))),
        None => None,
    }
}

fn report(error: &Option<String>) -> (failure: Option<FlowShareFailure>)
    ensures
        failure == reported(shown(*error)),
{
    match error {
        Some(text) => Some(failure_for_api_error(api_error(text.as_str()))),
        None => None,
    }
}

/// What is said of the transport: the selected path, or else that there is a direct connection.
pub open spec fn transport_of(
    selected_path: Option<Seq<char>>,
    quic_session: Option<Seq<char>>,
) -> Option<Seq<char>> {
    if selected_path is Some {
        selected_path
    } else if quic_session is Some {
        Some("quic-direct"@)
    } else {
        None
    }
}

fn name_transport(selected_path: &Option<String>, quic_session: &Option<String>) -> (transport:
    Option<String>)
    ensures
        shown(transport) == transport_of(shown(*selected_path), shown(*quic_session)),
{
    match selected_path {
        Some(path) => Some(path.clone()),
        None => if quic_session.is_some() {
            Some("quic-direct".to_owned())
        } else {
            None
        },
    }
}

/// The rate of a run that has ended, and zero before.
pub open spec fn rate_of(performance: Option<SplitTransferResult>) -> u64 {
    match performance {
        Some(done) => done.bytes_per_second,
        None => 0,
    }
}

/// The status of an outgoing transfer.
pub open spec fn sending(record: OutgoingNativeTransfer) -> StatusFacts {
    StatusFacts {
        schema_version: 1,
        transfer_id: record.transfer_id@,
        direction: FlowShareDirection::Send,
        state: sending_state(record.mutable.state),
        bytes_transferred: record.mutable.bytes_sent,
        total_bytes: record.file_size,
        bytes_per_second: rate_of(record.mutable.performance),
        transport: transport_of(
            shown(record.mutable.selected_path),
            shown(record.mutable.quic_session_id),
        ),
        checkpoint_generation: match record.mutable.peer_checkpoint_generation {
            Some(generation) => generation,
            None => 0,
        },
        runtime_active: record.mutable.runtime_active,
        failure: reported(shown(record.mutable.terminal_error)),
    }
}

/// The status of an incoming transfer.
pub open spec fn receiving(record: IncomingNativeTransfer) -> StatusFacts {
    StatusFacts {
        schema_version: 1,
        transfer_id: record.transfer_id@,
        direction: FlowShareDirection::Receive,
        state: receiving_state(record.mutable.state),
        bytes_transferred: record.mutable.bytes_written,
        total_bytes: match record.mutable.expected_file_size {
            Some(size) => size,
            None => 0,
        },
        bytes_per_second: rate_of(record.mutable.performance),
        transport: transport_of(
            shown(record.mutable.selected_path),
            shown(record.mutable.quic_session_id),
        ),
        checkpoint_generation: record.mutable.checkpoint_generation,
        runtime_active: record.mutable.runtime_active,
        failure: reported(shown(record.mutable.terminal_error)),
    }
}

/// The status that a snapshot of an outgoing transfer gives.
pub open spec fn snapshot_sending(snapshot: OutgoingNativeTransferSnapshot) -> StatusFacts {
    StatusFacts {
        schema_version: 1,
        transfer_id: snapshot.transfer_id@,
        direction: FlowShareDirection::Send,
        state: sending_state(snapshot.state),
        bytes_transferred: snapshot.bytes_sent,
        total_bytes: snapshot.file_size,
        bytes_per_second: rate_of(snapshot.performance),
        transport: transport_of(shown(snapshot.selected_path), shown(snapshot.quic_session_id)),
        checkpoint_generation: match snapshot.peer_checkpoint_generation {
            Some(generation) => generation,
            None => 0,
        },
        runtime_active: snapshot.runtime_active,
        failure: reported(shown(snapshot.terminal_error)),
    }
}

/// The status that a snapshot of an incoming transfer gives.
pub open spec fn snapshot_receiving(snapshot: IncomingNativeTransferSnapshot) -> StatusFacts {
    StatusFacts {
        schema_version: 1,
        transfer_id: snapshot.transfer_id@,
        direction: FlowShareDirection::Receive,
        state: receiving_state(snapshot.state),
        bytes_transferred: snapshot.bytes_written,
        total_bytes: match snapshot.expected_file_size {
            Some(size) => size,
            None => 0,
        },
        bytes_per_second: rate_of(snapshot.performance),
        transport: transport_of(shown(snapshot.selected_path), shown(snapshot.quic_session_id)),
        checkpoint_generation: snapshot.checkpoint_generation,
        runtime_active: snapshot.runtime_active,
        failure: reported(shown(snapshot.terminal_error)),
    }
}

/// The status that a snapshot of an outgoing transfer gives.
pub fn outgoing_status(snapshot: &OutgoingNativeTransferSnapshot) -> (status:
    FlowShareTransferStatus)
    ensures
        status@ == snapshot_sending(*snapshot),
        forall|record: OutgoingNativeTransfer| #[trigger]
            snapshot.shows(record) ==> status@ == sending(record),
        status.state is Paused <==> snapshot.state is Paused,
        status.state is Completed <==> snapshot.state is Completed,
        status.state is Cancelled <==> snapshot.state is Cancelled,
        status.state is Failed <==> snapshot.state is Failed,
        status.state.is_end() <==> snapshot.state is Completed || snapshot.state is Cancelled
            || snapshot.state is Failed,
{
    let state = match snapshot.state {
        OutgoingNativeState::Created => FlowShareTransferState::Prepared,
        OutgoingNativeState::AwaitingReceiver
        | OutgoingNativeState::AuthorizationDelivering => FlowShareTransferState::WaitingForPeer,
        OutgoingNativeState::GatheringCandidates
        | OutgoingNativeState::Connecting => FlowShareTransferState::Connecting,
        OutgoingNativeState::Transferring => FlowShareTransferState::Transferring,
        OutgoingNativeState::Finalizing => FlowShareTransferState::Verifying,
        OutgoingNativeState::Paused => FlowShareTransferState::Paused,
        OutgoingNativeState::Completed => FlowShareTransferState::Completed,
        OutgoingNativeState::Cancelled => FlowShareTransferState::Cancelled,
        OutgoingNativeState::Failed => FlowShareTransferState::Failed,
    };
    let failure = report(&snapshot.terminal_error);
    let bytes_per_second: u64 = match &snapshot.performance {
        Some(done) => done.bytes_per_second,
        None => 0,
    };
    FlowShareTransferStatus {
        schema_version: 1,
        transfer_id: snapshot.transfer_id.clone(),
        direction: FlowShareDirection::Send,
        state,
        bytes_transferred: snapshot.bytes_sent,
        total_bytes: snapshot.file_size,
        bytes_per_second,
        transport: name_transport(&snapshot.selected_path, &snapshot.quic_session_id),
        checkpoint_generation: match snapshot.peer_checkpoint_generation {
            Some(generation) => generation,
            None => 0,
        },
        runtime_active: snapshot.runtime_active,
        failure,
    }
}

/// The status that a snapshot of an incoming transfer gives.
pub fn incoming_status(snapshot: &IncomingNativeTransferSnapshot) -> (status:
    FlowShareTransferStatus)
    ensures
        status@ == snapshot_receiving(*snapshot),
        forall|record: IncomingNativeTransfer| #[trigger]
            snapshot.shows(record) ==> status@ == receiving(record),
        status.state is Paused <==> snapshot.state is Paused,
        status.state is Completed <==> snapshot.state is Completed,
        status.state is Cancelled <==> snapshot.state is Cancelled,
        status.state is Rejected <==> snapshot.state is Declined,
        status.state is Failed <==> snapshot.state is Failed,
        status.state.is_end() <==> snapshot.state is Completed || snapshot.state is Cancelled
            || snapshot.state is Declined || snapshot.state is Failed,
{
    let state = match snapshot.state {
        IncomingNativeState::InvitationImported => FlowShareTransferState::Incoming,
        IncomingNativeState::AwaitingAcceptance => FlowShareTransferState::AwaitingAcceptance,
        IncomingNativeState::Accepted => FlowShareTransferState::Prepared,
        IncomingNativeState::GatheringCandidates
        | IncomingNativeState::Connecting => FlowShareTransferState::Connecting,
        IncomingNativeState::Receiving => FlowShareTransferState::Transferring,
        IncomingNativeState::Finalizing => FlowShareTransferState::Verifying,
        IncomingNativeState::Paused => FlowShareTransferState::Paused,
        IncomingNativeState::Completed => FlowShareTransferState::Completed,
        IncomingNativeState::Cancelled => FlowShareTransferState::Cancelled,
        IncomingNativeState::Declined => FlowShareTransferState::Rejected,
        IncomingNativeState::Failed => FlowShareTransferState::Failed,
    };
    let failure = report(&snapshot.terminal_error);
    let bytes_per_second: u64 = match &snapshot.performance {
        Some(done) => done.bytes_per_second,
        None => 0,
    };
    FlowShareTransferStatus {
        schema_version: 1,
        transfer_id: snapshot.transfer_id.clone(),
        direction: FlowShareDirection::Receive,
        state,
        bytes_transferred: snapshot.bytes_written,
        total_bytes: match snapshot.expected_file_size {
            Some(size) => size,
            None => 0,
        },
        bytes_per_second,
        transport: name_transport(&snapshot.selected_path, &snapshot.quic_session_id),
        checkpoint_generation: snapshot.checkpoint_generation,
        runtime_active: snapshot.runtime_active,
        failure,
    }
}

#[derive(Debug, Clone, Copy, PartialEq, Eq, Structural)]
pub enum FlowShareEventKind {
    TransferPrepared,
    IncomingTransfer,
    WaitingForPeer,
    Connecting,
    Connected,
    TransferStarted,
    Progress,
    Paused,
    Resuming,
    Verifying,
    Completed,
    Cancelled,
    Rejected,
    Failed,
}

/// A change that an application is told of.
#[derive(Debug, Clone, PartialEq, Eq)]
pub struct FlowShareEvent {
    pub sequence: u64,
    pub kind: FlowShareEventKind,
    pub status: FlowShareTransferStatus,
}

/// Takes the events of an engine.
pub trait FlowShareEventListener: Send + Sync {
    fn on_event(&self, event: FlowShareEvent);
}

/// Protects the small secrets of transfers with what the operating system offers.
pub trait FlowShareSecretProtector: Send + Sync {
    fn protect(&self, plaintext: Vec<u8>) -> Result<Vec<u8>, FlowShareApiError>;

    fn unprotect(&self, protected: Vec<u8>) -> Result<Vec<u8>, FlowShareApiError>;
}

/// The kind of the event that reports a state.
pub open spec fn kind_of(state: FlowShareTransferState, bytes: u64) -> FlowShareEventKind {
    match state {
        FlowShareTransferState::Prepared => FlowShareEventKind::TransferPrepared,
        FlowShareTransferState::Incoming
        | FlowShareTransferState::AwaitingAcceptance => FlowShareEventKind::IncomingTransfer,
        FlowShareTransferState::WaitingForPeer => FlowShareEventKind::WaitingForPeer,
        FlowShareTransferState::Connecting => FlowShareEventKind::Connecting,
        FlowShareTransferState::Connected => FlowShareEventKind::Connected,
        FlowShareTransferState::Transferring => if bytes == 0 {
            FlowShareEventKind::TransferStarted
        } else {
            FlowShareEventKind::Progress
        },
        FlowShareTransferState::Paused => FlowShareEventKind::Paused,
        FlowShareTransferState::Resuming => FlowShareEventKind::Resuming,
        FlowShareTransferState::Verifying => FlowShareEventKind::Verifying,
        FlowShareTransferState::Completed => FlowShareEventKind::Completed,
        FlowShareTransferState::Cancelled => FlowShareEventKind::Cancelled,
        FlowShareTransferState::Rejected => FlowShareEventKind::Rejected,
        FlowShareTransferState::Failed => FlowShareEventKind::Failed,
    }
}

/// The kind of the event that reports a state.
pub fn event_kind(state: FlowShareTransferState, bytes: u64) -> (kind: FlowShareEventKind)
    ensures
        kind == kind_of(state, bytes),
{
    match state {
        FlowShareTransferState::Prepared => FlowShareEventKind::TransferPrepared,
        FlowShareTransferState::Incoming
        | FlowShareTransferState::AwaitingAcceptance => FlowShareEventKind::IncomingTransfer,
        FlowShareTransferState::WaitingForPeer => FlowShareEventKind::WaitingForPeer,
        FlowShareTransferState::Connecting => FlowShareEventKind::Connecting,
        FlowShareTransferState::Connected => FlowShareEventKind::Connected,
        FlowShareTransferState::Transferring => if bytes == 0 {
            FlowShareEventKind::TransferStarted
        } else {
            FlowShareEventKind::Progress
        },
        FlowShareTransferState::Paused => FlowShareEventKind::Paused,
        FlowShareTransferState::Resuming => FlowShareEventKind::Resuming,
        FlowShareTransferState::Verifying => FlowShareEventKind::Verifying,
        FlowShareTransferState::Completed => FlowShareEventKind::Completed,
        FlowShareTransferState::Cancelled => FlowShareEventKind::Cancelled,
        FlowShareTransferState::Rejected => FlowShareEventKind::Rejected,
        FlowShareTransferState::Failed => FlowShareEventKind::Failed,
    }
}

/// What a watcher of a transfer saw last.
pub type Seen = Option<(FlowShareTransferState, u64)>;

/// The states that a watcher reports when it sees a transfer anew: nothing if nothing changed;
/// that the ends are connected, when data moves after connecting; and that the file is verified,
/// before it is complete.
pub open spec fn reports(last: Seen, state: FlowShareTransferState, bytes: u64) -> Seq<
    FlowShareTransferState,
> {
    if last == Some((state, bytes)) {
        Seq::empty()
    } else if state is Transferring && last is Some && last->Some_0.0 is Connecting {
        seq![FlowShareTransferState::Connected, state]
    } else if state is Completed && !(last is Some && last->Some_0.0 is Verifying) {
        seq![FlowShareTransferState::Verifying, state]
    } else {
        seq![state]
    }
}

/// Watches one transfer for its application.
#[derive(Debug)]
pub struct TransferWatch {
    last: Option<(FlowShareTransferState, u64)>,
}

impl TransferWatch {
    /// What was seen last.
    pub closed spec fn seen(self) -> Seen {
        self.last
    }

    /// Nothing was seen yet.
    pub fn begin() -> (watch: Self)
        ensures
            watch.seen() is None,
    {
        TransferWatch { last: None }
    }

    /// Looks at a transfer. Gives the statuses to report, in order, and whether the watch is
    /// over.
    pub fn observe(&mut self, status: &FlowShareTransferStatus) -> (observed: (
        Vec<FlowShareTransferStatus>,
        bool,
    ))
        ensures
            ({
                let states = reports(old(self).seen(), status.state, status.bytes_transferred);
                &&& observed.0@.len() == states.len()
                &&& forall|i: int|
                    0 <= i < states.len() ==> (#[trigger] observed.0@[i])@ == (StatusFacts {
                        state: states[i],
                        ..status@
                    })
                &&& observed.1 == (states.len() > 0 && status.state.is_end())
                &&& final(self).seen() == Some((status.state, status.bytes_transferred))
            }),
    {
        let mut statuses: Vec<FlowShareTransferStatus> = Vec::new();
        let unchanged: bool = match self.last {
            Some((state, bytes)) => state == status.state && bytes == status.bytes_transferred,
            None => false,
        };
        if unchanged {
            return (statuses, false);
        }
        let (was_connecting, was_verifying): (bool, bool) = match self.last {
            Some((state, _)) => (
                state == FlowShareTransferState::Connecting,
                state == FlowShareTransferState::Verifying,
            ),
            None => (false, false),
        };
        if status.state == FlowShareTransferState::Transferring && was_connecting {
            let mut connected = status.clone();
            connected.state = FlowShareTransferState::Connected;
            statuses.push(connected);
        }
        if status.state == FlowShareTransferState::Completed && !was_verifying {
            let mut verifying = status.clone();
            verifying.state = FlowShareTransferState::Verifying;
            statuses.push(verifying);
        }
        statuses.push(status.clone());
        self.last = Some((status.state, status.bytes_transferred));
        (statuses, status.state.terminal())
    }
}

/// A transfer is never reported complete before it is reported verified: when completion is
/// reported, what was reported right before it is the verification.
pub proof fn law_completion_follows_verification(
    last: Seen,
    state: FlowShareTransferState,
    bytes: u64,
    i: int,
)
    requires
        0 <= i < reports(last, state, bytes).len(),
        reports(last, state, bytes)[i] is Completed,
    ensures
        i > 0 ==> reports(last, state, bytes)[i - 1] is Verifying,
        i == 0 ==> last is Some && last->Some_0.0 is Verifying,
{
}

#[derive(Debug)]
pub struct PrepareReceiveRequest {
    pub lifetime_ms: Option<u64>,
}

#[derive(Debug)]
pub struct PrepareReceiveResult {
    pub receiver_bootstrap_id: String,
    pub receiver_bootstrap_package: String,
    pub certificate_fingerprint_sha256: String,
    pub expires_unix_ms: u64,
}

#[derive(Debug)]
pub struct PrepareSendRequest {
    pub source_handle: String,
    pub receiver_bootstrap_package: String,
    pub invitation_lifetime_ms: Option<u64>,
}

#[derive(Debug)]
pub struct PrepareSendResult {
    pub transfer: FlowShareTransferStatus,
    pub invitation_package: String,
    pub display_filename: String,
    pub file_size: u64,
    pub expected_sha256: String,
}

#[derive(Debug)]
pub struct ImportInvitationRequest {
    pub receiver_bootstrap_id: String,
    pub invitation_package: String,
    pub destination_handle: String,
    pub retention_expires_unix_ms: Option<u64>,
}

#[derive(Debug)]
pub struct AcceptTransferRequest {
    pub transfer_id: String,
    pub display_filename: String,
    pub file_size: u64,
    pub expected_sha256: String,
    pub overwrite: bool,
}

#[derive(Debug)]
pub struct StartTransferRequest {
    pub transfer_id: String,
    pub signaling_endpoint: String,
    /// Enables loopback candidates, for tests on one machine only.
    pub allow_loopback_test: bool,
    pub signaling_timeout_ms: Option<u64>,
    pub connectivity_timeout_ms: Option<u64>,
}

#[derive(Debug)]
pub struct TransferControlRequest {
    pub transfer_id: String,
    pub direction: FlowShareDirection,
    pub retain_partial: bool,
}

#[derive(Debug)]
pub struct ResumeSenderRequest {
    pub transfer_id: String,
    pub receiver_bootstrap_package: String,
    pub source_handle: Option<String>,
    pub expected_checkpoint_generation: Option<u64>,
    pub signaling_endpoint: String,
    pub allow_loopback_test: bool,
    pub signaling_timeout_ms: Option<u64>,
    pub connectivity_timeout_ms: Option<u64>,
}

#[derive(Debug)]
pub struct ResumeReceiverRequest {
    pub transfer_id: String,
    pub receiver_bootstrap_id: String,
    pub destination_handle: String,
    pub expected_checkpoint_generation: Option<u64>,
    pub signaling_endpoint: String,
    pub allow_loopback_test: bool,
    pub signaling_timeout_ms: Option<u64>,
    pub connectivity_timeout_ms: Option<u64>,
}

#[derive(Debug)]
pub struct TransferLookupRequest {
    pub transfer_id: String,
    pub direction: FlowShareDirection,
}

#[derive(Debug)]
pub struct RecoverTransfersRequest {
    pub destination_handles: Vec<String>,
}

/// A transfer that can be taken up again.
#[derive(Debug)]
pub struct RecoverableTransfer {
    pub transfer_id: String,
    pub direction: FlowShareDirection,
    pub total_bytes: u64,
    pub completed_bytes: u64,
    pub checkpoint_generation: u64,
    pub source_or_destination_handle: String,
    pub source_available: bool,
    pub checkpoint_authenticated: bool,
}

#[derive(Debug)]
pub struct RecoveryResult {
    pub resumable: Vec<RecoverableTransfer>,
}

/// How candidates are gathered between two ends on one machine.
pub open spec fn loopback_options(signaling_lifetime_ms: u64) -> ConnectivityGatherOptions {
    ConnectivityGatherOptions {
        allow_loopback_test: Some(true),
        enable_stun: Some(false),
        expected_same_lan: Some(true),
        ..usual_options(signaling_lifetime_ms)
    }
}

/// How candidates are gathered for a transfer, where that is not left open.
pub open spec fn chosen_options(allow_loopback_test: bool, signaling_lifetime_ms: u64) -> Option<
    ConnectivityGatherOptions,
> {
    if allow_loopback_test {
        Some(loopback_options(signaling_lifetime_ms))
    } else {
        None
    }
}

/// How candidates are gathered for a transfer: as usual, or between two ends on one machine.
pub fn gathering_options(allow_loopback_test: bool, signaling_lifetime_ms: u64) -> (options: Option<
    ConnectivityGatherOptions,
>)
    ensures
        options == chosen_options(allow_loopback_test, signaling_lifetime_ms),
{
    if !allow_loopback_test {
        return None;
    }
    let usual = ConnectivityGatherOptions::usual(signaling_lifetime_ms);
    Some(
        ConnectivityGatherOptions {
            allow_loopback_test: Some(true),
            enable_stun: Some(false),
            expected_same_lan: Some(true),
            ..usual
        },
    )
}

/// The request to start a transfer, as the transfer itself takes it.
pub fn start_request(request: StartTransferRequest, signaling_lifetime_ms: u64) -> (start:
    StartSplitTransferRequest)
    ensures
        start.transfer_id == request.transfer_id,
        start.signaling_endpoint == request.signaling_endpoint,
        start.gathering == chosen_options(request.allow_loopback_test, signaling_lifetime_ms),
        start.signaling_timeout_ms == request.signaling_timeout_ms,
        start.connectivity_timeout_ms == request.connectivity_timeout_ms,
{
    StartSplitTransferRequest {
        transfer_id: request.transfer_id,
        signaling_endpoint: request.signaling_endpoint,
        gathering: gathering_options(request.allow_loopback_test, signaling_lifetime_ms),
        signaling_timeout_ms: request.signaling_timeout_ms,
        connectivity_timeout_ms: request.connectivity_timeout_ms,
    }
}

/// Whether an outgoing transfer is shown as one that can be taken up again.
pub open spec fn recovers_sending(
    transfer: RecoverableTransfer,
    item: OutgoingResumableDiscovery,
) -> bool {
    &&& transfer.transfer_id@ == item.transfer_id@
    &&& transfer.direction is Send
    &&& transfer.total_bytes == item.file_size
    &&& transfer.completed_bytes == item.peer_completed_bytes
    &&& transfer.checkpoint_generation == item.checkpoint_generation
    &&& transfer.source_or_destination_handle@ == item.source_path@
    &&& transfer.source_available == item.source_identity_matches
    &&& transfer.checkpoint_authenticated == item.protected_state_authenticated
}

/// Whether an incoming transfer is shown as one that can be taken up again.
pub open spec fn recovers_receiving(
    transfer: RecoverableTransfer,
    item: IncomingResumableDiscovery,
) -> bool {
    &&& transfer.transfer_id@ == item.transfer_id@
    &&& transfer.direction is Receive
    &&& transfer.total_bytes == item.file_size
    &&& transfer.completed_bytes == item.completed_bytes
    &&& transfer.checkpoint_generation == item.checkpoint_generation
    &&& transfer.source_or_destination_handle@ == item.destination_directory@
    &&& transfer.source_available == item.part_file_present
    &&& transfer.checkpoint_authenticated == (item.checkpoint_authenticated
        && item.block_hashes_authenticated)
}

/// All transfers that can be taken up again: those that were sent, then those that were
/// received.
pub fn recoverable_transfers(
    outgoing: &Vec<OutgoingResumableDiscovery>,
    incoming: &Vec<IncomingResumableDiscovery>,
) -> (result: RecoveryResult)
    ensures
        result.resumable@.len() == outgoing@.len() + incoming@.len(),
        forall|i: int|
            0 <= i < outgoing@.len() ==> recovers_sending(
                #[trigger] result.resumable@[i],
                outgoing@[i],
            ),
        forall|i: int|
            0 <= i < incoming@.len() ==> recovers_receiving(
                result.resumable@[outgoing@.len() + i],
                #[trigger] incoming@[i],
            ),
{
    let mut resumable: Vec<RecoverableTransfer> = Vec::new();
    let mut index: usize = 0;
    while index < outgoing.len()
        invariant
            index <= outgoing.len(),
            resumable@.len() == index,
            forall|i: int|
                0 <= i < index ==> recovers_sending(#[trigger] resumable@[i], outgoing@[i]),
        decreases outgoing.len() - index,
    {
        let item = &outgoing[index];
        resumable.push(
            RecoverableTransfer {
                transfer_id: item.transfer_id.clone(),
                direction: FlowShareDirection::Send,
                total_bytes: item.file_size,
                completed_bytes: item.peer_completed_bytes,
                checkpoint_generation: item.checkpoint_generation,
                source_or_destination_handle: item.source_path.clone(),
                source_available: item.source_identity_matches,
                checkpoint_authenticated: item.protected_state_authenticated,
            },
        );
        index += 1;
    }
    let mut index: usize = 0;
    while index < incoming.len()
        invariant
            index <= incoming.len(),
            resumable@.len() == outgoing@.len() + index,
            forall|i: int|
                0 <= i < outgoing@.len() ==> recovers_sending(
                    #[trigger] resumable@[i],
                    outgoing@[i],
                ),
            forall|i: int|
                0 <= i < index ==> recovers_receiving(
                    resumable@[outgoing@.len() + i],
                    #[trigger] incoming@[i],
                ),
        decreases incoming.len() - index,
    {
        let item = &incoming[index];
        resumable.push(
            RecoverableTransfer {
                transfer_id: item.transfer_id.clone(),
                direction: FlowShareDirection::Receive,
                total_bytes: item.file_size,
                completed_bytes: item.completed_bytes,
                checkpoint_generation: item.checkpoint_generation,
                source_or_destination_handle: item.destination_directory.clone(),
                source_available: item.part_file_present,
                checkpoint_authenticated: item.checkpoint_authenticated
                    && item.block_hashes_authenticated,
            },
        );
        index += 1;
    }
    RecoveryResult { resumable }
}

/// The state of the engine of one application.
#[derive(Debug)]
pub struct FlowShareEngine {
    local: FlowShareCapabilities,
    initialized: bool,
    stopped: bool,
    owned_sends: Registry<String, ()>,
    owned_receives: Registry<String, ()>,
    source_handles: Registry<String, ()>,
    listening: bool,
    sequence: u64,
}

/// A status, with the event that reports it where somebody listens.
#[derive(Debug)]
pub struct Published {
    pub status: FlowShareTransferStatus,
    pub event: Option<FlowShareEvent>,
}

/// What an engine looks like from outside.
pub struct EngineFacts {
    pub initialized: bool,
    pub stopped: bool,
    pub owned_sends: Map<Seq<char>, ()>,
    pub owned_receives: Map<Seq<char>, ()>,
    pub source_handles: Map<Seq<char>, ()>,
    pub listening: bool,
    pub sequence: u64,
}

impl View for FlowShareEngine {
    type V = EngineFacts;

    closed spec fn view(&self) -> EngineFacts {
        EngineFacts {
            initialized: self.initialized,
            stopped: self.stopped,
            owned_sends: self.owned_sends@,
            owned_receives: self.owned_receives@,
            source_handles: self.source_handles@,
            listening: self.listening,
            sequence: self.sequence,
        }
    }
}

impl EngineFacts {
    /// Why the engine takes no work, if it takes none.
    pub open spec fn idle(self) -> Option<FlowShareApiError> {
        if self.stopped {
            Some(FlowShareApiError::EngineShutdown)
        } else if !self.initialized {
            Some(FlowShareApiError::EngineNotInitialized)
        } else {
            None
        }
    }

    /// The engine after it has reported something.
    pub open spec fn reported(self) -> Self {
        EngineFacts {
            sequence: if self.listening {
                (self.sequence + 1) as u64
            } else {
                self.sequence
            },
            ..self
        }
    }

    /// Whether an event is the one that reports a status.
    pub open spec fn reports(self, event: Option<FlowShareEvent>, status: StatusFacts) -> bool {
        match event {
            Some(told) => {
                &&& self.listening
                &&& told.sequence == self.sequence + 1
                &&& told.kind == kind_of(status.state, status.bytes_transferred)
                &&& told.status@ == status
            },
            None => !self.listening,
        }
    }
}

/// The engine once a transfer belongs to it.
pub open spec fn owning(
    engine: EngineFacts,
    transfer_id: Seq<char>,
    direction: FlowShareDirection,
) -> EngineFacts {
    match direction {
        FlowShareDirection::Send => EngineFacts {
            owned_sends: engine.owned_sends.insert(transfer_id, ()),
            ..engine
        },
        FlowShareDirection::Receive => EngineFacts {
            owned_receives: engine.owned_receives.insert(transfer_id, ()),
            ..engine
        },
    }
}

fn keep(set: &mut Registry<String, ()>, name: &String)
    requires
        old(set).wf(),
    ensures
        final(set).wf(),
        final(set)@ == old(set)@.insert(name@, ()),
{
    if set.contains(name) {
        assert(set@ =~= set@.insert(name@, ()));
    } else {
        set.insert(name.clone(), ());
    }
}

fn names_of(set: &Registry<String, ()>) -> (names: Vec<String>)
    requires
        set.wf(),
    ensures
        names@.len() == set@.dom().len(),
        forall|i: int| 0 <= i < names@.len() ==> set@.contains_key((#[trigger] names@[i])@),
        forall|name: Seq<char>| #[trigger]
            set@.contains_key(name) ==> exists|i: int|
                0 <= i < names@.len() && (#[trigger] names@[i])@ == name,
{
    proof {
        set.lemma_listing();
    }
    let mut names: Vec<String> = Vec::new();
    let count: usize = set.len();
    while names.len() < count
        invariant
            set.wf(),
            count == set.listing().len(),
            names@.len() <= count,
            forall|i: int|
                0 <= i < names@.len() ==> (#[trigger] names@[i])@ == set.listing()[i].0@,
        decreases count - names.len(),
    {
        let entry = set.at(names.len());
        names.push(entry.0.clone());
    }
    proof {
        set.lemma_listing();
        assert forall|i: int| 0 <= i < names@.len() implies set@.contains_key(
            (#[trigger] names@[i])@,
        ) by {
            assert(set@.contains_key(set.listing()[i].0@));
        }
        assert forall|name: Seq<char>| #[trigger] set@.contains_key(name) implies exists|i: int|
            0 <= i < names@.len() && (#[trigger] names@[i])@ == name by {
            let i = choose|i: int|
                0 <= i < set.listing().len() && (#[trigger] set.listing()[i]).0@ == name;
            assert(names@[i]@ == name);
        }
    }
    names
}

/// The transfers and files that are given up when the engine stops.
#[derive(Debug)]
pub struct Shutdown {
    pub outgoing: Vec<String>,
    pub incoming: Vec<String>,
    pub source_handles: Vec<String>,
}

/// Whether names are exactly those of a set.
pub open spec fn lists(names: Seq<String>, set: Map<Seq<char>, ()>) -> bool {
    &&& names.len() == set.dom().len()
    &&& forall|i: int| 0 <= i < names.len() ==> set.contains_key((#[trigger] names[i])@)
    &&& forall|name: Seq<char>| #[trigger]
        set.contains_key(name) ==> exists|i: int|
            0 <= i < names.len() && (#[trigger] names[i])@ == name
}

impl FlowShareEngine {
    /// No set holds a name twice, and only engines that were not stopped are initialized.
    pub closed spec fn wf(self) -> bool {
        &&& self.owned_sends.wf()
        &&& self.owned_receives.wf()
        &&& self.source_handles.wf()
        &&& self.stopped ==> !self.initialized
    }

    /// What this device can do.
    pub closed spec fn capabilities(self) -> FlowShareCapabilities {
        self.local
    }

    /// An engine that was not initialized yet.
    pub fn new(local: FlowShareCapabilities) -> (engine: Self)
        ensures
            engine.wf(),
            engine.capabilities() == local,
            engine@ == (EngineFacts {
                initialized: false,
                stopped: false,
                owned_sends: Map::empty(),
                owned_receives: Map::empty(),
                source_handles: Map::empty(),
                listening: false,
                sequence: 0,
            }),
    {
        FlowShareEngine {
            local,
            initialized: false,
            stopped: false,
            owned_sends: Registry::new(),
            owned_receives: Registry::new(),
            source_handles: Registry::new(),
            listening: false,
            sequence: 0,
        }
    }

    /// Initializes the engine. Says whether that is new.
    pub fn initialize(&mut self) -> (result: Result<bool, FlowShareApiError>)
        requires
            old(self).wf(),
        ensures
            final(self).wf(),
            final(self).capabilities() == old(self).capabilities(),
            if old(self)@.stopped {
                &&& result == Err::<bool, FlowShareApiError>(FlowShareApiError::EngineShutdown)
                &&& final(self)@ == old(self)@
            } else {
                &&& result == Ok::<bool, FlowShareApiError>(!old(self)@.initialized)
                &&& final(self)@ == (EngineFacts { initialized: true, ..old(self)@ })
            },
    {
        if self.stopped {
            return Err(FlowShareApiError::EngineShutdown);
        }
        let fresh: bool = !self.initialized;
        self.initialized = true;
        Ok(fresh)
    }

    /// Refuses work while the engine takes none.
    pub fn require_running(&self) -> (result: Result<(), FlowShareApiError>)
        ensures
            match result {
                Ok(()) => self@.idle() is None,
                Err(error) => self@.idle() == Some(error),
            },
    {
        if self.stopped {
            return Err(FlowShareApiError::EngineShutdown);
        }
        if !self.initialized {
            return Err(FlowShareApiError::EngineNotInitialized);
        }
        Ok(())
    }

    /// Why the engine lets no directory for the state of the application be chosen, if it does
    /// not: the choice comes before the engine is initialized.
    pub open spec fn root_refusal(self, style: PathStyle, path: Seq<char>) -> Option<
        FlowShareApiError,
    > {
        if self@.stopped {
            Some(FlowShareApiError::EngineShutdown)
        } else if self@.initialized {
            Some(FlowShareApiError::InvalidRequest)
        } else if !is_absolute_path(style, path) {
            Some(error_in("platform-state-root-invalid"@))
        } else {
            None
        }
    }

    /// Chooses the directory for the state of the application, once for the process: `canonical`
    /// is the directory that was asked for, where it could be made. The answer is whether the
    /// choice is new.
    pub fn configure_state_root(
        &self,
        style: PathStyle,
        path: &str,
        current: &mut Option<String>,
        canonical: Option<String>,
    ) -> (result: Result<bool, FlowShareApiError>)
        ensures
            match self.root_refusal(style, path@) {
                Some(error) => {
                    &&& result == Err::<bool, FlowShareApiError>(error)
                    &&& *final(current) == *old(current)
                },
                None => match (canonical, *old(current)) {
                    (None, _) => {
                        &&& result == Err::<bool, FlowShareApiError>(
                            error_in("platform-state-root-unavailable"@),
                        )
                        &&& *final(current) == *old(current)
                    },
                    (Some(root), None) => {
                        &&& result == Ok::<bool, FlowShareApiError>(true)
                        &&& *final(current) == Some(root)
                    },
                    (Some(root), Some(chosen)) => {
                        &&& result == if chosen@ == root@ {
                            Ok::<bool, FlowShareApiError>(false)
                        } else {
                            Err(error_in("platform-state-root-already-configured"@))
                        }
                        &&& *final(current) == *old(current)
                    },
                },
            },
    {
        match self.check_root_choice(style, path) {
            Ok(()) => {},
            Err(error) => {
                return Err(error);
            },
        }
        match configure_state_root(current, canonical) {
            Ok(fresh) => Ok(fresh),
            Err(error) => Err(api_error(error.as_str())),
        }
    }

    /// Checks that a directory for the state of the application can be chosen, before it is made.
    pub fn check_root_choice(&self, style: PathStyle, path: &str) -> (result: Result<
        (),
        FlowShareApiError,
    >)
        ensures
            match result {
                Ok(()) => self.root_refusal(style, path@) is None,
                Err(error) => self.root_refusal(style, path@) == Some(error),
            },
    {
        if self.stopped {
            return Err(FlowShareApiError::EngineShutdown);
        }
        if self.initialized {
            return Err(FlowShareApiError::InvalidRequest);
        }
        match check_state_root(style, path) {
            Ok(()) => Ok(()),
            Err(error) => Err(api_error(error.as_str())),
        }
    }

    /// Installs the protector of secrets, once for the process: `installed` says whether the
    /// process has one, through any engine. The answer is whether this call installs it.
    pub fn set_secret_protector(&self, installed: &mut bool) -> (result: Result<
        bool,
        FlowShareApiError,
    >)
        ensures
            if self@.stopped {
                &&& result == Err::<bool, FlowShareApiError>(FlowShareApiError::EngineShutdown)
                &&& *final(installed) == *old(installed)
            } else {
                &&& result == Ok::<bool, FlowShareApiError>(!*old(installed))
                &&& *final(installed)
            },
    {
        if self.stopped {
            return Err(FlowShareApiError::EngineShutdown);
        }
        let fresh: bool = !*installed;
        *installed = true;
        Ok(fresh)
    }

    /// Notes a file that the platform handed over, known by its token.
    pub fn register_source_descriptor(&mut self, token: &String) -> (result: Result<
        (),
        FlowShareApiError,
    >)
        requires
            old(self).wf(),
        ensures
            final(self).wf(),
            final(self).capabilities() == old(self).capabilities(),
            match old(self)@.idle() {
                Some(error) => result == Err::<(), FlowShareApiError>(error) && final(self)@ == old(self)@,
                None => result is Ok && final(self)@ == (EngineFacts {
                    source_handles: old(self)@.source_handles.insert(token@, ()),
                    ..old(self)@
                }),
            },
    {
        match self.require_running() {
            Ok(()) => {},
            Err(error) => {
                return Err(error);
            },
        }
        keep(&mut self.source_handles, token);
        Ok(())
    }

    /// Forgets a file that the platform handed over. Says whether it was known here, and is to
    /// be closed.
    pub fn release_source_descriptor(&mut self, token: &String) -> (known: bool)
        requires
            old(self).wf(),
        ensures
            final(self).wf(),
            final(self).capabilities() == old(self).capabilities(),
            known == old(self)@.source_handles.contains_key(token@),
            final(self)@ == (EngineFacts {
                source_handles: old(self)@.source_handles.remove(token@),
                ..old(self)@
            }),
    {
        self.source_handles.remove(token).is_some()
    }

    /// Stops the engine for good. The first time, the transfers that belong to it are named, to
    /// be cancelled with their partial files kept, and the files that are to be closed.
    pub fn shutdown(&mut self) -> (work: Option<Shutdown>)
        requires
            old(self).wf(),
        ensures
            final(self).wf(),
            final(self).capabilities() == old(self).capabilities(),
            if old(self)@.stopped {
                work is None && final(self)@ == old(self)@
            } else {
                &&& work matches Some(given_up) && lists(
                    given_up.outgoing@,
                    old(self)@.owned_sends,
                ) && lists(given_up.incoming@, old(self)@.owned_receives) && lists(
                    given_up.source_handles@,
                    old(self)@.source_handles,
                )
                &&& final(self)@ == (EngineFacts {
                    initialized: false,
                    stopped: true,
                    listening: false,
                    source_handles: Map::empty(),
                    ..old(self)@
                })
            },
    {
        if self.stopped {
            return None;
        }
        self.stopped = true;
        self.initialized = false;
        self.listening = false;
        let outgoing = names_of(&self.owned_sends);
        let incoming = names_of(&self.owned_receives);
        let source_handles = names_of(&self.source_handles);
        self.source_handles.clear();
        Some(Shutdown { outgoing, incoming, source_handles })
    }

    /// What this device can do.
    pub fn local_capabilities(&self) -> (local: FlowShareCapabilities)
        ensures
            local.app_version@ == self.capabilities().app_version@,
            local == (FlowShareCapabilities {
                app_version: local.app_version,
                ..self.capabilities()
            }),
    {
        self.local.clone()
    }

    /// What this device can do with another.
    pub fn negotiate(&self, peer: &FlowShareCapabilities) -> (result: NegotiatedCapabilities)
        ensures
            result == negotiated(self.capabilities(), *peer),
    {
        negotiate(&self.local, peer)
    }

    /// Somebody listens to the events from now on.
    pub fn set_event_listener(&mut self)
        requires
            old(self).wf(),
        ensures
            final(self).wf(),
            final(self).capabilities() == old(self).capabilities(),
            final(self)@ == (EngineFacts { listening: true, ..old(self)@ }),
    {
        self.listening = true;
    }

    /// Nobody listens to the events any more.
    pub fn clear_event_listener(&mut self)
        requires
            old(self).wf(),
        ensures
            final(self).wf(),
            final(self).capabilities() == old(self).capabilities(),
            final(self)@ == (EngineFacts { listening: false, ..old(self)@ }),
    {
        self.listening = false;
    }

    /// Makes a transfer belong to the engine.
    pub fn remember(&mut self, transfer_id: &String, direction: FlowShareDirection)
        requires
            old(self).wf(),
        ensures
            final(self).wf(),
            final(self).capabilities() == old(self).capabilities(),
            final(self)@ == owning(old(self)@, transfer_id@, direction),
    {
        match direction {
            FlowShareDirection::Send => keep(&mut self.owned_sends, transfer_id),
            FlowShareDirection::Receive => keep(&mut self.owned_receives, transfer_id),
        }
    }

    /// The event that reports a status, where somebody listens. Events are numbered in the order
    /// in which they are made.
    pub fn emit(&mut self, status: &FlowShareTransferStatus) -> (event: Option<FlowShareEvent>)
        requires
            old(self).wf(),
            old(self)@.sequence < u64::MAX,
        ensures
            final(self).wf(),
            final(self).capabilities() == old(self).capabilities(),
            old(self)@.reports(event, status@),
            final(self)@ == old(self)@.reported(),
    {
        if !self.listening {
            return None;
        }
        self.sequence = self.sequence + 1;
        Some(
            FlowShareEvent {
                sequence: self.sequence,
                kind: event_kind(status.state, status.bytes_transferred),
                status: status.clone(),
            },
        )
    }

    /// Whether there is a number left for another event.
    pub fn can_report(&self) -> (can: bool)
        ensures
            can == (self@.sequence < u64::MAX),
    {
        self.sequence < u64::MAX
    }

    /// Takes up what a transfer reported: where it is new it belongs to the engine from now on,
    /// and its status is told to whoever listens.
    pub fn publish(&mut self, status: FlowShareTransferStatus, remember: bool) -> (published:
        Published)
        requires
            old(self).wf(),
            old(self)@.sequence < u64::MAX,
        ensures
            final(self).wf(),
            final(self).capabilities() == old(self).capabilities(),
            published.status == status,
            ({
                let kept = if remember {
                    owning(old(self)@, status.transfer_id@, status.direction)
                } else {
                    old(self)@
                };
                &&& kept.reports(published.event, status@)
                &&& final(self)@ == kept.reported()
            }),
    {
        if remember {
            self.remember(&status.transfer_id, status.direction);
        }
        let event = self.emit(&status);
        Published { status, event }
    }

    /// Starts an outgoing transfer.
    pub fn start_sender(
        &mut self,
        outgoing: &mut Registry<String, OutgoingNativeTransfer>,
        request: &StartSplitTransferRequest,
    ) -> (result: Result<Published, FlowShareApiError>)
        requires
            old(self).wf(),
            old(self)@.sequence < u64::MAX,
            old(outgoing).wf(),
        ensures
            final(self).wf(),
            final(outgoing).wf(),
            final(self).capabilities() == old(self).capabilities(),
            ({
                let key = usual_form(request.transfer_id@)->Some_0;
                let before = old(outgoing)@[key];
                let refusal = if old(self)@.idle() is Some {
                    old(self)@.idle()
                } else if outgoing_missing(old(outgoing)@, request.transfer_id@) is Some {
                    Some(
                        error_in(
                            outgoing_missing(old(outgoing)@, request.transfer_id@)->Some_0,
                        ),
                    )
                } else if before.mutable.start_refusal() is Some {
                    Some(error_in(before.mutable.start_refusal()->Some_0))
                } else {
                    None
                };
                let after = OutgoingNativeTransfer {
                    mutable: before.mutable.started(),
                    ..before
                };
                match refusal {
                    Some(error) => {
                        &&& result == Err::<Published, FlowShareApiError>(error)
                        &&& final(self)@ == old(self)@
                        &&& final(outgoing)@ == old(outgoing)@
                    },
                    None => {
                        &&& result matches Ok(published) && published.status@ == sending(after)
                            && old(self)@.reports(published.event, sending(after))
                        &&& final(self)@ == old(self)@.reported()
                        &&& final(outgoing)@ == old(outgoing)@.insert(key, after)
                    },
                }
            }),
    {
        match self.require_running() {
            Ok(()) => {},
            Err(error) => {
                return Err(error);
            },
        }
        match flowshare_native_start_outgoing_transfer(outgoing, request) {
            Ok(snapshot) => Ok(self.publish(outgoing_status(&snapshot), false)),
            Err(error) => Err(api_error(error.as_str())),
        }
    }

    /// Starts an incoming transfer.
    pub fn start_receiver(
        &mut self,
        incoming: &mut Registry<String, IncomingNativeTransfer>,
        request: &StartSplitTransferRequest,
    ) -> (result: Result<Published, FlowShareApiError>)
        requires
            old(self).wf(),
            old(self)@.sequence < u64::MAX,
            old(incoming).wf(),
        ensures
            final(self).wf(),
            final(incoming).wf(),
            final(self).capabilities() == old(self).capabilities(),
            ({
                let key = usual_form(request.transfer_id@)->Some_0;
                let before = old(incoming)@[key];
                let refusal = if old(self)@.idle() is Some {
                    old(self)@.idle()
                } else if incoming_missing(old(incoming)@, request.transfer_id@) is Some {
                    Some(
                        error_in(
                            incoming_missing(old(incoming)@, request.transfer_id@)->Some_0,
                        ),
                    )
                } else if before.mutable.start_refusal() is Some {
                    Some(error_in(before.mutable.start_refusal()->Some_0))
                } else {
                    None
                };
                let after = IncomingNativeTransfer {
                    mutable: before.mutable.started(),
                    ..before
                };
                match refusal {
                    Some(error) => {
                        &&& result == Err::<Published, FlowShareApiError>(error)
                        &&& final(self)@ == old(self)@
                        &&& final(incoming)@ == old(incoming)@
                    },
                    None => {
                        &&& result matches Ok(published) && published.status@ == receiving(after)
                            && old(self)@.reports(published.event, receiving(after))
                        &&& final(self)@ == old(self)@.reported()
                        &&& final(incoming)@ == old(incoming)@.insert(key, after)
                    },
                }
            }),
    {
        match self.require_running() {
            Ok(()) => {},
            Err(error) => {
                return Err(error);
            },
        }
        match flowshare_native_start_incoming_transfer(incoming, request) {
            Ok(snapshot) => Ok(self.publish(incoming_status(&snapshot), false)),
            Err(error) => Err(api_error(error.as_str())),
        }
    }
}

/// Once an engine is stopped it takes no work and cannot be initialized again: nothing that it
/// does afterwards changes that.
pub proof fn law_a_stopped_engine_stays_stopped(engine: EngineFacts)
    requires
        engine.stopped,
    ensures
        engine.idle() == Some(FlowShareApiError::EngineShutdown),
        engine.reported().idle() == Some(FlowShareApiError::EngineShutdown),
        (EngineFacts { initialized: true, ..engine }).idle() == Some(
            FlowShareApiError::EngineShutdown,
        ),
{
}

impl FlowShareApiError {
    /// The name of the error, as it is printed.
    pub open spec fn label(self) -> Seq<char> {
        match self {
            FlowShareApiError::SignalingUnavailable => "SignalingUnavailable"@,
            FlowShareApiError::PeerOffline => "PeerOffline"@,
            FlowShareApiError::AuthorizationFailed => "AuthorizationFailed"@,
            FlowShareApiError::InvitationExpired => "InvitationExpired"@,
            FlowShareApiError::ProtocolMismatch => "ProtocolMismatch"@,
            FlowShareApiError::StunFailed => "StunFailed"@,
            FlowShareApiError::DirectConnectUnavailable => "DirectConnectUnavailable"@,
            FlowShareApiError::QuicConnectFailed => "QuicConnectFailed"@,
            FlowShareApiError::SourceUnavailable => "SourceUnavailable"@,
            FlowShareApiError::DestinationUnavailable => "DestinationUnavailable"@,
            FlowShareApiError::DiskFull => "DiskFull"@,
            FlowShareApiError::SourceChanged => "SourceChanged"@,
            FlowShareApiError::CheckpointInvalid => "CheckpointInvalid"@,
            FlowShareApiError::HashMismatch => "HashMismatch"@,
            FlowShareApiError::Cancelled => "Cancelled"@,
            FlowShareApiError::InvalidRequest => "InvalidRequest"@,
            FlowShareApiError::EngineNotInitialized => "EngineNotInitialized"@,
            FlowShareApiError::EngineShutdown => "EngineShutdown"@,
            FlowShareApiError::Internal => "Internal"@,
        }
    }

    /// The name of the error, as it is printed.
    pub fn name(self) -> (name: &'static str)
        ensures
            name@ == self.label(),
    {
        match self {
            FlowShareApiError::SignalingUnavailable => "SignalingUnavailable",
            FlowShareApiError::PeerOffline => "PeerOffline",
            FlowShareApiError::AuthorizationFailed => "AuthorizationFailed",
            FlowShareApiError::InvitationExpired => "InvitationExpired",
            FlowShareApiError::ProtocolMismatch => "ProtocolMismatch",
            FlowShareApiError::StunFailed => "StunFailed",
            FlowShareApiError::DirectConnectUnavailable => "DirectConnectUnavailable",
            FlowShareApiError::QuicConnectFailed => "QuicConnectFailed",
            FlowShareApiError::SourceUnavailable => "SourceUnavailable",
            FlowShareApiError::DestinationUnavailable => "DestinationUnavailable",
            FlowShareApiError::DiskFull => "DiskFull",
            FlowShareApiError::SourceChanged => "SourceChanged",
            FlowShareApiError::CheckpointInvalid => "CheckpointInvalid",
            FlowShareApiError::HashMismatch => "HashMismatch",
            FlowShareApiError::Cancelled => "Cancelled",
            FlowShareApiError::InvalidRequest => "InvalidRequest",
            FlowShareApiError::EngineNotInitialized => "EngineNotInitialized",
            FlowShareApiError::EngineShutdown => "EngineShutdown",
            FlowShareApiError::Internal => "Internal",
        }
    }
}

impl FlowShareEngine {
    /// Pauses a transfer. The peer knows the request by its identifier.
    pub fn pause(
        &mut self,
        outgoing: &mut Registry<String, OutgoingNativeTransfer>,
        incoming: &mut Registry<String, IncomingNativeTransfer>,
        request: TransferControlRequest,
        request_id: [u8; 16],
    ) -> (result: Result<Published, FlowShareApiError>)
        requires
            old(self).wf(),
            old(self)@.sequence < u64::MAX,
            old(outgoing).wf(),
            old(incoming).wf(),
        ensures
            final(self).wf(),
            final(outgoing).wf(),
            final(incoming).wf(),
            final(self).capabilities() == old(self).capabilities(),
            ({
                let key = usual_form(request.transfer_id@)->Some_0;
                let sent = old(outgoing)@[key];
                let received = old(incoming)@[key];
                let sent_after = OutgoingNativeTransfer {
                    mutable: if sent.mutable.state is Paused {
                        sent.mutable
                    } else {
                        sent.mutable.paused(request_id)
                    },
                    ..sent
                };
                let received_after = IncomingNativeTransfer {
                    mutable: if received.mutable.state is Paused {
                        received.mutable
                    } else {
                        received.mutable.paused(request_id)
                    },
                    ..received
                };
                let problem = match request.direction {
                    FlowShareDirection::Send => match outgoing_missing(
                        old(outgoing)@,
                        request.transfer_id@,
                    ) {
                        Some(reason) => Some(reason),
                        None => sent.mutable.pause_refusal(),
                    },
                    FlowShareDirection::Receive => match incoming_missing(
                        old(incoming)@,
                        request.transfer_id@,
                    ) {
                        Some(reason) => Some(reason),
                        None => received.mutable.pause_refusal(),
                    },
                };
                let status = match request.direction {
                    FlowShareDirection::Send => sending(sent_after),
                    FlowShareDirection::Receive => receiving(received_after),
                };
                let works = old(self)@.idle() is None && problem is None;
                &&& match result {
                    Ok(published) => works && published.status@ == status && old(self)@.reports(
                        published.event,
                        status,
                    ) && final(self)@ == old(self)@.reported(),
                    Err(error) => !works && final(self)@ == old(self)@ && error == (match old(self)@.idle() {
                        Some(idle) => idle,
                        None => error_in(problem->Some_0),
                    }),
                }
                &&& final(outgoing)@ == if works && request.direction is Send {
                    old(outgoing)@.insert(key, sent_after)
                } else {
                    old(outgoing)@
                }
                &&& final(incoming)@ == if works && request.direction is Receive {
                    old(incoming)@.insert(key, received_after)
                } else {
                    old(incoming)@
                }
            }),
    {
        match self.require_running() {
            Ok(()) => {},
            Err(error) => {
                return Err(error);
            },
        }
        let id = SplitTransferIdRequest { transfer_id: request.transfer_id };
        let status = match request.direction {
            FlowShareDirection::Send => match flowshare_native_pause_outgoing_transfer(
                outgoing,
                &id,
                request_id,
            ) {
                Ok(snapshot) => outgoing_status(&snapshot),
                Err(error) => {
                    return Err(api_error(error.as_str()));
                },
            },
            FlowShareDirection::Receive => match flowshare_native_pause_incoming_transfer(
                incoming,
                &id,
                request_id,
            ) {
                Ok(snapshot) => incoming_status(&snapshot),
                Err(error) => {
                    return Err(api_error(error.as_str()));
                },
            },
        };
        Ok(self.publish(status, false))
    }

    /// Cancels a transfer. Where no run cleans up by itself, it is said what is to be removed.
    pub fn cancel(
        &mut self,
        outgoing: &mut Registry<String, OutgoingNativeTransfer>,
        incoming: &mut Registry<String, IncomingNativeTransfer>,
        request: TransferControlRequest,
    ) -> (result: Result<(Published, StopFollowUp), FlowShareApiError>)
        requires
            old(self).wf(),
            old(self)@.sequence < u64::MAX,
            old(outgoing).wf(),
            old(incoming).wf(),
        ensures
            final(self).wf(),
            final(outgoing).wf(),
            final(incoming).wf(),
            final(self).capabilities() == old(self).capabilities(),
            ({
                let key = usual_form(request.transfer_id@)->Some_0;
                let sent = old(outgoing)@[key];
                let received = old(incoming)@[key];
                let sent_after = OutgoingNativeTransfer {
                    mutable: if sent.mutable.is_settled() {
                        sent.mutable
                    } else {
                        sent.mutable.stopped(request.retain_partial)
                    },
                    ..sent
                };
                let received_after = IncomingNativeTransfer {
                    mutable: if received.mutable.is_settled() {
                        received.mutable
                    } else {
                        received.mutable.stopped(request.retain_partial)
                    },
                    ..received
                };
                let sent_idle = !sent.mutable.is_settled() && !sent.mutable.runtime_active;
                let received_idle = !received.mutable.is_settled()
                    && !received.mutable.runtime_active;
                let problem = match request.direction {
                    FlowShareDirection::Send => outgoing_missing(
                        old(outgoing)@,
                        request.transfer_id@,
                    ),
                    FlowShareDirection::Receive => incoming_missing(
                        old(incoming)@,
                        request.transfer_id@,
                    ),
                };
                let status = match request.direction {
                    FlowShareDirection::Send => sending(sent_after),
                    FlowShareDirection::Receive => receiving(received_after),
                };
                let follow_up = match request.direction {
                    FlowShareDirection::Send => StopFollowUp {
                        revoke_authorization: sent_idle,
                        delete_secret: sent_idle,
                        remove_state: sent_idle,
                        remove_workspace: false,
                    },
                    FlowShareDirection::Receive => StopFollowUp {
                        revoke_authorization: received_idle,
                        delete_secret: false,
                        remove_state: false,
                        remove_workspace: received_idle && !request.retain_partial,
                    },
                };
                let works = old(self)@.idle() is None && problem is None;
                &&& match result {
                    Ok(done) => works && done.0.status@ == status && old(self)@.reports(
                        done.0.event,
                        status,
                    ) && done.1 == follow_up && final(self)@ == old(self)@.reported(),
                    Err(error) => !works && final(self)@ == old(self)@ && error == (match old(self)@.idle() {
                        Some(idle) => idle,
                        None => error_in(problem->Some_0),
                    }),
                }
                &&& final(outgoing)@ == if works && request.direction is Send {
                    old(outgoing)@.insert(key, sent_after)
                } else {
                    old(outgoing)@
                }
                &&& final(incoming)@ == if works && request.direction is Receive {
                    old(incoming)@.insert(key, received_after)
                } else {
                    old(incoming)@
                }
            }),
    {
        match self.require_running() {
            Ok(()) => {},
            Err(error) => {
                return Err(error);
            },
        }
        let stop = CancelSplitTransferRequest {
            transfer_id: request.transfer_id,
            retain_partial: Some(request.retain_partial),
        };
        let (status, follow_up) = match request.direction {
            FlowShareDirection::Send => match flowshare_native_cancel_outgoing_transfer(
                outgoing,
                &stop,
            ) {
                Ok(done) => (outgoing_status(&done.0), done.1),
                Err(error) => {
                    return Err(api_error(error.as_str()));
                },
            },
            FlowShareDirection::Receive => match flowshare_native_cancel_incoming_transfer(
                incoming,
                &stop,
            ) {
                Ok(done) => (incoming_status(&done.0), done.1),
                Err(error) => {
                    return Err(api_error(error.as_str()));
                },
            },
        };
        Ok((self.publish(status, false), follow_up))
    }

    /// Rejects an incoming transfer before anything of it was received. A transfer that is sent
    /// cannot be rejected.
    pub fn reject_transfer(
        &mut self,
        incoming: &mut Registry<String, IncomingNativeTransfer>,
        request: TransferLookupRequest,
    ) -> (result: Result<(Published, StopFollowUp), FlowShareApiError>)
        requires
            old(self).wf(),
            old(self)@.sequence < u64::MAX,
            old(incoming).wf(),
        ensures
            final(self).wf(),
            final(incoming).wf(),
            final(self).capabilities() == old(self).capabilities(),
            ({
                let key = usual_form(request.transfer_id@)->Some_0;
                let before = old(incoming)@[key];
                let missing = incoming_missing(old(incoming)@, request.transfer_id@);
                let declined = before.mutable.state is Declined;
                let pending = before.mutable.state is InvitationImported
                    || before.mutable.state is AwaitingAcceptance;
                let after = if declined {
                    before
                } else {
                    IncomingNativeTransfer {
                        mutable: IncomingMutable {
                            local_stop: Some(LocalStopIntent::Cancel { retain_partial: false }),
                            cancelled: true,
                            state: IncomingNativeState::Declined,
                            ..before.mutable
                        },
                        ..before
                    }
                };
                let refusal = if old(self)@.idle() is Some {
                    old(self)@.idle()
                } else if !(request.direction is Receive) {
                    Some(FlowShareApiError::InvalidRequest)
                } else if missing is Some {
                    Some(error_in(missing->Some_0))
                } else if !declined && !pending {
                    Some(error_in("native-incoming-reject-state-invalid"@))
                } else {
                    None
                };
                match refusal {
                    Some(error) => {
                        &&& result == Err::<(Published, StopFollowUp), FlowShareApiError>(error)
                        &&& final(self)@ == old(self)@
                        &&& final(incoming)@ == old(incoming)@
                    },
                    None => {
                        &&& result matches Ok(done) && done.0.status@ == receiving(after) && old(self)@.reports(done.0.event, receiving(after)) && done.1 == (StopFollowUp {
                            revoke_authorization: !declined,
                            delete_secret: false,
                            remove_state: false,
                            remove_workspace: !declined,
                        })
                        &&& final(self)@ == old(self)@.reported()
                        &&& final(incoming)@ == old(incoming)@.insert(key, after)
                    },
                }
            }),
    {
        match self.require_running() {
            Ok(()) => {},
            Err(error) => {
                return Err(error);
            },
        }
        if request.direction != FlowShareDirection::Receive {
            return Err(FlowShareApiError::InvalidRequest);
        }
        let id = SplitTransferIdRequest { transfer_id: request.transfer_id };
        let ghost before = incoming@;
        match flowshare_native_reject_incoming_transfer(incoming, &id) {
            Ok(done) => {
                proof {
                    let key = usual_form(id.transfer_id@)->Some_0;
                    assert(before.insert(key, before[key]) =~= before);
                }
                Ok((self.publish(incoming_status(&done.0), false), done.1))
            },
            Err(error) => Err(api_error(error.as_str())),
        }
    }

    /// Where a transfer stands.
    pub fn get_transfer_status(
        &self,
        outgoing: &Registry<String, OutgoingNativeTransfer>,
        incoming: &Registry<String, IncomingNativeTransfer>,
        request: TransferLookupRequest,
    ) -> (result: Result<FlowShareTransferStatus, FlowShareApiError>)
        requires
            outgoing.wf(),
            incoming.wf(),
        ensures
            ({
                let key = usual_form(request.transfer_id@)->Some_0;
                let missing = match request.direction {
                    FlowShareDirection::Send => outgoing_missing(outgoing@, request.transfer_id@),
                    FlowShareDirection::Receive => incoming_missing(
                        incoming@,
                        request.transfer_id@,
                    ),
                };
                match result {
                    Ok(status) => self@.idle() is None && missing is None && status@ == (
                    match request.direction {
                        FlowShareDirection::Send => sending(outgoing@[key]),
                        FlowShareDirection::Receive => receiving(incoming@[key]),
                    }),
                    Err(error) => match self@.idle() {
                        Some(idle) => error == idle,
                        None => missing matches Some(reason) && error == error_in(
                            error_in(reason).label(),
                        ),
                    },
                }
            }),
    {
        match self.require_running() {
            Ok(()) => {},
            Err(error) => {
                return Err(error);
            },
        }
        match status_for_direction(outgoing, incoming, request.transfer_id, request.direction) {
            Ok(status) => Ok(status),
            Err(error) => Err(api_error(error.name())),
        }
    }

    /// The statuses of the transfers that belong to the engine: those that are sent, then those
    /// that are received, each in the order of the given snapshots.
    pub fn list_transfers(
        &self,
        outgoing: &Vec<OutgoingNativeTransferSnapshot>,
        incoming: &Vec<IncomingNativeTransferSnapshot>,
    ) -> (result: Result<Vec<FlowShareTransferStatus>, FlowShareApiError>)
        requires
            self.wf(),
        ensures
            match result {
                Ok(statuses) => self@.idle() is None && views(statuses@) == owned_sending(
                    self@,
                    outgoing@,
                    outgoing@.len() as int,
                ) + owned_receiving(self@, incoming@, incoming@.len() as int),
                Err(error) => self@.idle() == Some(error),
            },
    {
        match self.require_running() {
            Ok(()) => {},
            Err(error) => {
                return Err(error);
            },
        }
        let mut statuses: Vec<FlowShareTransferStatus> = Vec::new();
        assert(views(statuses@) =~= owned_sending(self@, outgoing@, 0));
        let mut index: usize = 0;
        while index < outgoing.len()
            invariant
                self.wf(),
                index <= outgoing.len(),
                views(statuses@) == owned_sending(self@, outgoing@, index as int),
            decreases outgoing.len() - index,
        {
            if self.owned_sends.contains(&outgoing[index].transfer_id) {
                let ghost before = statuses@;
                let status = outgoing_status(&outgoing[index]);
                statuses.push(status);
                assert(views(statuses@) =~= views(before).push(status@));
            }
            index += 1;
        }
        let ghost sent = views(statuses@);
        assert(views(statuses@) =~= sent + owned_receiving(self@, incoming@, 0));
        let mut index: usize = 0;
        while index < incoming.len()
            invariant
                self.wf(),
                index <= incoming.len(),
                views(statuses@) == sent + owned_receiving(self@, incoming@, index as int),
            decreases incoming.len() - index,
        {
            if self.owned_receives.contains(&incoming[index].transfer_id) {
                let ghost before = statuses@;
                let status = incoming_status(&incoming[index]);
                statuses.push(status);
                proof {
                    let rest = owned_receiving(self@, incoming@, index as int);
                    assert(views(statuses@) =~= views(before).push(status@));
                    assert((sent + rest).push(status@) =~= sent + rest.push(status@));
                }
            }
            index += 1;
        }
        Ok(statuses)
    }
}

/// The statuses of the outgoing transfers among the first `n` that belong to the engine.
pub open spec fn owned_sending(
    engine: EngineFacts,
    snapshots: Seq<OutgoingNativeTransferSnapshot>,
    n: int,
) -> Seq<StatusFacts>
    decreases n,
{
    if n <= 0 {
        Seq::empty()
    } else if engine.owned_sends.contains_key(snapshots[n - 1].transfer_id@) {
        owned_sending(engine, snapshots, n - 1).push(snapshot_sending(snapshots[n - 1]))
    } else {
        owned_sending(engine, snapshots, n - 1)
    }
}

/// The statuses of the incoming transfers among the first `n` that belong to the engine.
pub open spec fn owned_receiving(
    engine: EngineFacts,
    snapshots: Seq<IncomingNativeTransferSnapshot>,
    n: int,
) -> Seq<StatusFacts>
    decreases n,
{
    if n <= 0 {
        Seq::empty()
    } else if engine.owned_receives.contains_key(snapshots[n - 1].transfer_id@) {
        owned_receiving(engine, snapshots, n - 1).push(snapshot_receiving(snapshots[n - 1]))
    } else {
        owned_receiving(engine, snapshots, n - 1)
    }
}

fn status_for_direction(
    outgoing: &Registry<String, OutgoingNativeTransfer>,
    incoming: &Registry<String, IncomingNativeTransfer>,
    transfer_id: String,
    direction: FlowShareDirection,
) -> (result: Result<FlowShareTransferStatus, FlowShareApiError>)
    requires
        outgoing.wf(),
        incoming.wf(),
    ensures
        ({
            let key = usual_form(transfer_id@)->Some_0;
            match direction {
                FlowShareDirection::Send => match outgoing_missing(outgoing@, transfer_id@) {
                    Some(reason) => result == Err::<FlowShareTransferStatus, FlowShareApiError>(
                        error_in(reason),
                    ),
                    None => result matches Ok(status) && status@ == sending(outgoing@[key]),
                },
                FlowShareDirection::Receive => match incoming_missing(incoming@, transfer_id@) {
                    Some(reason) => result == Err::<FlowShareTransferStatus, FlowShareApiError>(
                        error_in(reason),
                    ),
                    None => result matches Ok(status) && status@ == receiving(incoming@[key]),
                },
            }
        }),
{
    let request = SplitTransferIdRequest { transfer_id };
    match direction {
        FlowShareDirection::Send => match flowshare_native_get_outgoing_transfer(
            outgoing,
            &request,
        ) {
            Ok(snapshot) => Ok(outgoing_status(&snapshot)),
            Err(error) => Err(api_error(error.as_str())),
        },
        FlowShareDirection::Receive => match flowshare_native_get_incoming_transfer(
            incoming,
            &request,
        ) {
            Ok(snapshot) => Ok(incoming_status(&snapshot)),
            Err(error) => Err(api_error(error.as_str())),
        },
    }
}

/// The request to create an outgoing transfer, as the transfer itself takes it: devices on the
/// same network are preferred.
pub fn send_request(request: PrepareSendRequest) -> (create: CreateOutgoingTransferRequest)
    ensures
        create == (CreateOutgoingTransferRequest {
            source_path: request.source_handle,
            receiver_bootstrap_package: request.receiver_bootstrap_package,
            authorization_delivery_mode: NativeAuthorizationDeliveryMode::ManualPackage,
            candidate_privacy_policy: Some(CandidatePrivacyPolicy::LanFirst),
            invitation_lifetime_ms: request.invitation_lifetime_ms,
        }),
{
    CreateOutgoingTransferRequest {
        source_path: request.source_handle,
        receiver_bootstrap_package: request.receiver_bootstrap_package,
        authorization_delivery_mode: NativeAuthorizationDeliveryMode::ManualPackage,
        candidate_privacy_policy: Some(CandidatePrivacyPolicy::LanFirst),
        invitation_lifetime_ms: request.invitation_lifetime_ms,
    }
}

/// The request to import an invitation, as the import itself takes it.
pub fn import_request(request: ImportInvitationRequest) -> (import: ImportIncomingInvitationRequest)
    ensures
        import == (ImportIncomingInvitationRequest {
            receiver_bootstrap_id: request.receiver_bootstrap_id,
            invitation_package: request.invitation_package,
            destination_directory: request.destination_handle,
            retention_expires_unix_ms: request.retention_expires_unix_ms,
        }),
{
    ImportIncomingInvitationRequest {
        receiver_bootstrap_id: request.receiver_bootstrap_id,
        invitation_package: request.invitation_package,
        destination_directory: request.destination_handle,
        retention_expires_unix_ms: request.retention_expires_unix_ms,
    }
}

/// The request to accept a transfer, as the transfer itself takes it.
pub fn accept_request(request: AcceptTransferRequest) -> (accept: AcceptIncomingTransferRequest)
    ensures
        accept == (AcceptIncomingTransferRequest {
            transfer_id: request.transfer_id,
            display_filename: request.display_filename,
            file_size: request.file_size,
            expected_sha256: request.expected_sha256,
            overwrite: Some(request.overwrite),
        }),
{
    AcceptIncomingTransferRequest {
        transfer_id: request.transfer_id,
        display_filename: request.display_filename,
        file_size: request.file_size,
        expected_sha256: request.expected_sha256,
        overwrite: Some(request.overwrite),
    }
}

/// The request to resume an outgoing transfer, as the transfer itself takes it.
pub fn resume_sender_request(request: ResumeSenderRequest, signaling_lifetime_ms: u64) -> (resume:
    ResumeOutgoingTransferRequest)
    ensures
        resume.transfer_id == request.transfer_id,
        resume.receiver_bootstrap_package == request.receiver_bootstrap_package,
        resume.source_handle == request.source_handle,
        resume.expected_checkpoint_generation == request.expected_checkpoint_generation,
        resume.signaling_endpoint == request.signaling_endpoint,
        resume.gathering == chosen_options(request.allow_loopback_test, signaling_lifetime_ms),
        resume.signaling_timeout_ms == request.signaling_timeout_ms,
        resume.connectivity_timeout_ms == request.connectivity_timeout_ms,
{
    ResumeOutgoingTransferRequest {
        transfer_id: request.transfer_id,
        receiver_bootstrap_package: request.receiver_bootstrap_package,
        source_handle: request.source_handle,
        expected_checkpoint_generation: request.expected_checkpoint_generation,
        signaling_endpoint: request.signaling_endpoint,
        gathering: gathering_options(request.allow_loopback_test, signaling_lifetime_ms),
        signaling_timeout_ms: request.signaling_timeout_ms,
        connectivity_timeout_ms: request.connectivity_timeout_ms,
    }
}

/// The request to resume an incoming transfer, as the transfer itself takes it.
pub fn resume_receiver_request(request: ResumeReceiverRequest, signaling_lifetime_ms: u64) -> (resume:
    ResumeIncomingTransferRequest)
    ensures
        resume.transfer_id == request.transfer_id,
        resume.receiver_bootstrap_id == request.receiver_bootstrap_id,
        resume.destination_directory == request.destination_handle,
        resume.expected_checkpoint_generation == request.expected_checkpoint_generation,
        resume.signaling_endpoint == request.signaling_endpoint,
        resume.gathering == chosen_options(request.allow_loopback_test, signaling_lifetime_ms),
        resume.signaling_timeout_ms == request.signaling_timeout_ms,
        resume.connectivity_timeout_ms == request.connectivity_timeout_ms,
{
    ResumeIncomingTransferRequest {
        transfer_id: request.transfer_id,
        receiver_bootstrap_id: request.receiver_bootstrap_id,
        destination_directory: request.destination_handle,
        expected_checkpoint_generation: request.expected_checkpoint_generation,
        signaling_endpoint: request.signaling_endpoint,
        gathering: gathering_options(request.allow_loopback_test, signaling_lifetime_ms),
        signaling_timeout_ms: request.signaling_timeout_ms,
        connectivity_timeout_ms: request.connectivity_timeout_ms,
    }
}

impl FlowShareEngine {
    /// Hands out what was prepared for a receiver.
    pub fn prepare_receive(&self, outcome: Result<PrepareIncomingReceiverResponse, String>) -> (
        result: Result<PrepareReceiveResult, FlowShareApiError>)
        ensures
            match (self@.idle(), outcome) {
                (Some(error), _) => result == Err::<PrepareReceiveResult, FlowShareApiError>(error),
                (None, Err(error)) => result == Err::<PrepareReceiveResult, FlowShareApiError>(
                    error_in(error@),
                ),
                (None, Ok(done)) => result == Ok::<PrepareReceiveResult, FlowShareApiError>(
                    PrepareReceiveResult {
                        receiver_bootstrap_id: done.receiver_bootstrap_id,
                        receiver_bootstrap_package: done.receiver_bootstrap_package,
                        certificate_fingerprint_sha256: done.certificate_fingerprint_sha256,
                        expires_unix_ms: done.expires_unix_ms,
                    },
                ),
            },
    {
        match self.require_running() {
            Ok(()) => {},
            Err(error) => {
                return Err(error);
            },
        }
        match outcome {
            Ok(done) => Ok(
                PrepareReceiveResult {
                    receiver_bootstrap_id: done.receiver_bootstrap_id,
                    receiver_bootstrap_package: done.receiver_bootstrap_package,
                    certificate_fingerprint_sha256: done.certificate_fingerprint_sha256,
                    expires_unix_ms: done.expires_unix_ms,
                },
            ),
            Err(error) => Err(api_error(error.as_str())),
        }
    }

    /// Takes up a new outgoing transfer: it belongs to the engine from now on. Its package is
    /// handed out with what is known of its file.
    pub fn prepare_send(&mut self, outcome: Result<CreateOutgoingTransferResponse, String>) -> (
        result: Result<(PrepareSendResult, Option<FlowShareEvent>), FlowShareApiError>)
        requires
            old(self).wf(),
            old(self)@.sequence < u64::MAX,
        ensures
            final(self).wf(),
            final(self).capabilities() == old(self).capabilities(),
            match (old(self)@.idle(), outcome) {
                (Some(error), _) => {
                    &&& result matches Err(told) && told == error
                    &&& final(self)@ == old(self)@
                },
                (None, Err(error)) => {
                    &&& result matches Err(told) && told == error_in(error@)
                    &&& final(self)@ == old(self)@
                },
                (None, Ok(done)) => {
                    let status = snapshot_sending(done.transfer);
                    let kept = owning(old(self)@, status.transfer_id, status.direction);
                    &&& final(self)@ == kept.reported()
                    &&& match result {
                        Ok(sent) => {
                            &&& sent.0.transfer@ == status
                            &&& sent.0.invitation_package == done.invitation_package
                            &&& sent.0.display_filename == done.transfer.display_filename
                            &&& sent.0.file_size == done.transfer.file_size
                            &&& sent.0.expected_sha256 == done.transfer.expected_sha256
                            &&& kept.reports(sent.1, status)
                        },
                        Err(_) => false,
                    }
                },
            },
    {
        match self.require_running() {
            Ok(()) => {},
            Err(error) => {
                return Err(error);
            },
        }
        match outcome {
            Ok(done) => {
                let published = self.publish(outgoing_status(&done.transfer), true);
                Ok(
                    (
                        PrepareSendResult {
                            transfer: published.status,
                            invitation_package: done.invitation_package,
                            display_filename: done.transfer.display_filename,
                            file_size: done.transfer.file_size,
                            expected_sha256: done.transfer.expected_sha256,
                        },
                        published.event,
                    ),
                )
            },
            Err(error) => Err(api_error(error.as_str())),
        }
    }

    /// Takes up an imported transfer: it belongs to the engine from now on.
    pub fn import_invitation(&mut self, outcome: Result<ImportIncomingInvitationResponse, String>) -> (result: Result<
        Published,
        FlowShareApiError,
    >)
        requires
            old(self).wf(),
            old(self)@.sequence < u64::MAX,
        ensures
            final(self).wf(),
            final(self).capabilities() == old(self).capabilities(),
            match (old(self)@.idle(), outcome) {
                (Some(error), _) => {
                    &&& result == Err::<Published, FlowShareApiError>(error)
                    &&& final(self)@ == old(self)@
                },
                (None, Err(error)) => {
                    &&& result == Err::<Published, FlowShareApiError>(error_in(error@))
                    &&& final(self)@ == old(self)@
                },
                (None, Ok(done)) => {
                    let status = snapshot_receiving(done.transfer);
                    let kept = owning(old(self)@, status.transfer_id, status.direction);
                    &&& result matches Ok(published) && published.status@ == status && kept.reports(
                        published.event,
                        status,
                    )
                    &&& final(self)@ == kept.reported()
                },
            },
    {
        match self.require_running() {
            Ok(()) => {},
            Err(error) => {
                return Err(error);
            },
        }
        match outcome {
            Ok(done) => Ok(self.publish(incoming_status(&done.transfer), true)),
            Err(error) => Err(api_error(error.as_str())),
        }
    }

    /// Reports a transfer that was accepted.
    pub fn accept_transfer(&mut self, outcome: Result<IncomingNativeTransferSnapshot, String>) -> (result: Result<
        Published,
        FlowShareApiError,
    >)
        requires
            old(self).wf(),
            old(self)@.sequence < u64::MAX,
        ensures
            final(self).wf(),
            final(self).capabilities() == old(self).capabilities(),
            match (old(self)@.idle(), outcome) {
                (Some(error), _) => {
                    &&& result == Err::<Published, FlowShareApiError>(error)
                    &&& final(self)@ == old(self)@
                },
                (None, Err(error)) => {
                    &&& result == Err::<Published, FlowShareApiError>(error_in(error@))
                    &&& final(self)@ == old(self)@
                },
                (None, Ok(done)) => {
                    let status = snapshot_receiving(done);
                    let kept = old(self)@;
                    &&& result matches Ok(published) && published.status@ == status && kept.reports(
                        published.event,
                        status,
                    )
                    &&& final(self)@ == kept.reported()
                },
            },
    {
        match self.require_running() {
            Ok(()) => {},
            Err(error) => {
                return Err(error);
            },
        }
        match outcome {
            Ok(done) => Ok(self.publish(incoming_status(&done), false)),
            Err(error) => Err(api_error(error.as_str())),
        }
    }

    /// Takes up a resumed outgoing transfer: it belongs to the engine from now on.
    pub fn resume_sender(&mut self, outcome: Result<OutgoingNativeTransferSnapshot, String>) -> (result: Result<
        Published,
        FlowShareApiError,
    >)
        requires
            old(self).wf(),
            old(self)@.sequence < u64::MAX,
        ensures
            final(self).wf(),
            final(self).capabilities() == old(self).capabilities(),
            match (old(self)@.idle(), outcome) {
                (Some(error), _) => {
                    &&& result == Err::<Published, FlowShareApiError>(error)
                    &&& final(self)@ == old(self)@
                },
                (None, Err(error)) => {
                    &&& result == Err::<Published, FlowShareApiError>(error_in(error@))
                    &&& final(self)@ == old(self)@
                },
                (None, Ok(done)) => {
                    let status = snapshot_sending(done);
                    let kept = owning(old(self)@, status.transfer_id, status.direction);
                    &&& result matches Ok(published) && published.status@ == status && kept.reports(
                        published.event,
                        status,
                    )
                    &&& final(self)@ == kept.reported()
                },
            },
    {
        match self.require_running() {
            Ok(()) => {},
            Err(error) => {
                return Err(error);
            },
        }
        match outcome {
            Ok(done) => Ok(self.publish(outgoing_status(&done), true)),
            Err(error) => Err(api_error(error.as_str())),
        }
    }

    /// Takes up a resumed incoming transfer: it belongs to the engine from now on.
    pub fn resume_receiver(&mut self, outcome: Result<IncomingNativeTransferSnapshot, String>) -> (result: Result<
        Published,
        FlowShareApiError,
    >)
        requires
            old(self).wf(),
            old(self)@.sequence < u64::MAX,
        ensures
            final(self).wf(),
            final(self).capabilities() == old(self).capabilities(),
            match (old(self)@.idle(), outcome) {
                (Some(error), _) => {
                    &&& result == Err::<Published, FlowShareApiError>(error)
                    &&& final(self)@ == old(self)@
                },
                (None, Err(error)) => {
                    &&& result == Err::<Published, FlowShareApiError>(error_in(error@))
                    &&& final(self)@ == old(self)@
                },
                (None, Ok(done)) => {
                    let status = snapshot_receiving(done);
                    let kept = owning(old(self)@, status.transfer_id, status.direction);
                    &&& result matches Ok(published) && published.status@ == status && kept.reports(
                        published.event,
                        status,
                    )
                    &&& final(self)@ == kept.reported()
                },
            },
    {
        match self.require_running() {
            Ok(()) => {},
            Err(error) => {
                return Err(error);
            },
        }
        match outcome {
            Ok(done) => Ok(self.publish(incoming_status(&done), true)),
            Err(error) => Err(api_error(error.as_str())),
        }
    }
}

} // verus!
