//! Verified core of the FlowShare native transfer engine: what is decided, checked and computed
//! when two devices send a file to each other directly.

pub mod adapters;
pub mod address;
pub mod arith;
pub mod authorization;
pub mod authorization_delivery;
pub mod bitmap;
pub mod block_hash;
pub mod bytes;
pub mod candidates;
pub mod config;
pub mod connectivity;
pub mod connectivity_diagnostics;
pub mod cross_device;
pub mod cross_platform;
pub mod crypto;
pub mod device_protocol;
pub mod direct_run;
pub mod encoding;
pub mod engine;
pub mod failures;
pub mod ffi;
pub mod file_transfer;
pub mod framing;
pub mod hole_punch;
pub mod laws;
pub mod lifecycle;
pub mod ordering;
pub mod path_selection;
pub mod paths;
pub mod platform_handles;
pub mod port_mapping;
pub mod protocol;
pub mod quinn_connectivity;
pub mod received_files;
pub mod registry;
pub mod secure_protocol;
pub mod signaling;
pub mod text;
pub mod transfer_setup;
