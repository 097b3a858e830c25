//! What is reported when a prepared socket is handed to QUIC.

use crate::address::{same_socket, SocketAddress};
use vstd::prelude::*;

verus! {

/// 8 MiB for each of the two queues of a socket. The queues that a system gives by default can be
/// too small for a fast path: a short burst that is not drained at once then looks like loss.
pub const QUINN_UDP_SOCKET_BUFFER_BYTES: usize = 8_388_608;

#[derive(Debug, Clone, PartialEq, Eq)]
pub struct QuinnSocketHandoffDiagnostic {
    pub prepared_local_endpoint: SocketAddress,
    pub quinn_local_endpoint: SocketAddress,
    pub same_local_port: bool,
    pub socket_rebound: bool,
    pub requested_udp_buffer_bytes: usize,
    pub udp_send_buffer_bytes: usize,
    pub udp_receive_buffer_bytes: usize,
    pub udp_send_buffer_tuned: bool,
    pub udp_receive_buffer_tuned: bool,
}

/// What the system said of the buffers of a socket.
#[derive(Debug, Clone, Copy)]
pub struct SocketBuffers {
    pub send_tuned: bool,
    pub receive_tuned: bool,
    pub send_bytes: Option<usize>,
    pub receive_bytes: Option<usize>,
}

/// Judges a handoff: the endpoint has to keep the port of the prepared socket.
pub fn socket_handoff(
    prepared: SocketAddress,
    adopted: SocketAddress,
    buffers: SocketBuffers,
) -> (result: Result<QuinnSocketHandoffDiagnostic, String>)
    ensures
        match result {
            Ok(report) => {
                &&& prepared.port == adopted.port
                &&& report.prepared_local_endpoint == prepared
                &&& report.quinn_local_endpoint == adopted
                &&& report.same_local_port
                &&& report.socket_rebound == (prepared != adopted)
                &&& report.requested_udp_buffer_bytes == QUINN_UDP_SOCKET_BUFFER_BYTES
                &&& report.udp_send_buffer_bytes == match buffers.send_bytes {
                    Some(bytes) => bytes,
                    None => 0,
                }
                &&& report.udp_receive_buffer_bytes == match buffers.receive_bytes {
                    Some(bytes) => bytes,
                    None => 0,
                }
                &&& report.udp_send_buffer_tuned == buffers.send_tuned
                &&& report.udp_receive_buffer_tuned == buffers.receive_tuned
            },
            Err(error) => prepared.port != adopted.port && error@
                == "native-quic-prepared-port-changed"@,
        },
{
    if prepared.port != adopted.port {
        return Err("native-quic-prepared-port-changed".to_owned());
    }
    Ok(
        QuinnSocketHandoffDiagnostic {
            prepared_local_endpoint: prepared,
            quinn_local_endpoint: adopted,
            same_local_port: true,
            socket_rebound: !same_socket(&prepared, &adopted),
            requested_udp_buffer_bytes: QUINN_UDP_SOCKET_BUFFER_BYTES,
            udp_send_buffer_bytes: match buffers.send_bytes {
                Some(bytes) => bytes,
                None => 0,
            },
            udp_receive_buffer_bytes: match buffers.receive_bytes {
                Some(bytes) => bytes,
                None => 0,
            },
            udp_send_buffer_tuned: buffers.send_tuned,
            udp_receive_buffer_tuned: buffers.receive_tuned,
        },
    )
}

} // verus!
