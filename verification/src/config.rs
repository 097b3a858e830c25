//! The settings of a QUIC connection.

use vstd::prelude::*;

verus! {

#[derive(Debug, Clone, PartialEq, Eq)]
pub struct NativeQuicConfig {
    pub stream_count: u8,
    pub block_bytes: usize,
    pub connection_window_bytes: u64,
    pub stream_window_bytes: u64,
    pub send_window_bytes: u64,
    pub keep_alive_seconds: u64,
    pub buffer_pool_blocks: usize,
}

/// Whether a number of streams is one that can be used.
pub open spec fn valid_stream_count(stream_count: u8) -> bool {
    stream_count == 1 || stream_count == 2 || stream_count == 4 || stream_count == 8
}

impl NativeQuicConfig {
    /// The settings for a computer, with the given number of streams.
    pub fn desktop(stream_count: u8) -> (result: Result<Self, String>)
        ensures
            match result {
                Ok(config) => {
                    &&& valid_stream_count(stream_count)
                    &&& config.stream_count == stream_count
                    &&& config.block_bytes == 2_097_152
                    &&& config.connection_window_bytes == 268_435_456
                    &&& config.stream_window_bytes == 67_108_864
                    &&& config.send_window_bytes == 268_435_456
                    &&& config.keep_alive_seconds == 10
                    &&& config.buffer_pool_blocks == if stream_count == 8 {
                        16int
                    } else {
                        8
                    }
                },
                Err(error) => !valid_stream_count(stream_count) && error@
                    == "Native QUIC stream count must be 1, 2, 4, or 8."@,
            },
    {
        if stream_count != 1 && stream_count != 2 && stream_count != 4 && stream_count != 8 {
            return Err("Native QUIC stream count must be 1, 2, 4, or 8.".to_owned());
        }
        let doubled: usize = stream_count as usize * 2;
        Ok(
            NativeQuicConfig {
                stream_count,
                block_bytes: 2_097_152,
                connection_window_bytes: 268_435_456,
                stream_window_bytes: 67_108_864,
                send_window_bytes: 268_435_456,
                keep_alive_seconds: 10,
                buffer_pool_blocks: if doubled > 8 {
                    doubled
                } else {
                    8
                },
            },
        )
    }
}

} // verus!
