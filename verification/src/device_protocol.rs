//! The messages that paired devices exchange.

use vstd::prelude::*;

verus! {

pub const DEVICE_PROTOCOL_VERSION: u16 = 1;

/// 30 days.
pub const DEVICE_SESSION_MAX_LIFETIME_SECONDS: u64 = 2_592_000;

pub const DEVICE_PRESENCE_HEARTBEAT_SECONDS: u64 = 25;

/// One day.
pub const DEVICE_OFFLINE_COMMAND_TTL_SECONDS: u64 = 86_400;

pub const MAX_DEVICE_COMMAND_BYTES: usize = 16_384;

/// 64 GiB.
pub const MAX_DEVICE_FILE_BYTES: u64 = 68_719_476_736;

pub const LAN_SERVICE_TYPE: &'static str = "_flowget._udp.local.";

pub const LAN_TXT_VERSION_KEY: &'static str = "v";

pub const LAN_TXT_DEVICE_KEY: &'static str = "device";

pub const LAN_TXT_PLATFORM_KEY: &'static str = "platform";

pub const LAN_TXT_CAPABILITY_KEY: &'static str = "caps";

#[derive(Debug, Clone, Copy, PartialEq, Eq, Structural)]
pub enum DevicePlatform {
    Windows,
    Macos,
    Android,
    Ios,
    Unknown,
}

impl DevicePlatform {
    /// The audience that an entitlement for this platform is made out to, where there is one.
    pub fn entitlement_audience(self) -> (audience: Option<&'static str>)
        ensures
            match self {
                DevicePlatform::Windows | DevicePlatform::Macos => audience matches Some(name)
                    && name@ == "flowget-desktop"@,
                DevicePlatform::Android => audience matches Some(name) && name@
                    == "flowget-android"@,
                DevicePlatform::Ios | DevicePlatform::Unknown => audience is None,
            },
    {
        match self {
            DevicePlatform::Windows | DevicePlatform::Macos => Some("flowget-desktop"),
            DevicePlatform::Android => Some("flowget-android"),
            DevicePlatform::Ios | DevicePlatform::Unknown => None,
        }
    }
}

#[derive(Debug, Clone, Copy, PartialEq, Eq)]
pub struct DeviceCapabilities {
    pub send_file: bool,
    pub receive_file: bool,
    pub receive_url: bool,
    pub lan_direct: bool,
    pub global_direct: bool,
}

#[derive(Debug, Clone, PartialEq, Eq)]
pub struct DevicePresence {
    pub device_id: String,
    pub display_name: String,
    pub platform: DevicePlatform,
    pub capabilities: DeviceCapabilities,
    pub online: bool,
    pub last_seen_unix_ms: u64,
    pub receiver_bootstrap: Option<DeviceReceiverBootstrap>,
}

#[derive(Debug, Clone, PartialEq, Eq)]
pub struct DeviceReceiverBootstrap {
    pub receiver_bootstrap_id: String,
    pub receiver_bootstrap_package: String,
    pub expires_unix_ms: u64,
}

#[derive(Debug, Clone, PartialEq, Eq)]
pub enum DeviceCommandPayload {
    SendUrl { url: String },
    SendFile {
        native_transfer_id: String,
        invitation_package: String,
        file_name: String,
        file_size: u64,
        file_sha256: String,
    },
}

#[derive(Debug, Clone, PartialEq, Eq)]
pub struct DeviceCommand {
    pub protocol_version: u16,
    pub command_id: String,
    pub source_device_id: String,
    pub target_device_id: String,
    pub created_unix_ms: u64,
    pub expires_unix_ms: u64,
    pub payload: DeviceCommandPayload,
}

#[derive(Debug, Clone, PartialEq, Eq)]
pub struct DeviceCommandAck {
    pub command_id: String,
    pub target_device_id: String,
    pub status: DeviceCommandStatus,
    pub detail_code: Option<String>,
}

#[derive(Debug, Clone, Copy, PartialEq, Eq, Structural)]
pub enum DeviceCommandStatus {
    Accepted,
    Rejected,
    Completed,
    Failed,
    Duplicate,
    Expired,
}

} // verus!
