//! The transfer of a file block by block between two platform handles.

use crate::crypto::{collected_bytes, sha256_digest, StreamDigest};
use crate::protocol::NATIVE_QUIC_PROTOCOL_VERSION;
use vstd::prelude::*;

verus! {

#[derive(Debug, Clone, PartialEq, Eq)]
pub struct TransferRequest {
    pub transfer_id: String,
    pub source_handle: String,
    pub destination_handle: String,
    pub start_offset: u64,
    pub total_bytes: u64,
    pub block_bytes: usize,
}

#[derive(Debug, Clone, PartialEq, Eq)]
pub struct TransferReceipt {
    pub transfer_id: String,
    pub bytes_written: u64,
    pub sha256: [u8; 32],
    pub protocol_version: u16,
}

/// The part of the file that comes next.
#[derive(Debug, Clone, Copy, PartialEq, Eq)]
pub struct NextBlock {
    pub offset: u64,
    pub length: usize,
}

/// Whether a request can be carried out.
pub open spec fn valid_request(request: TransferRequest) -> bool {
    request.block_bytes > 0 && request.start_offset <= request.total_bytes
}

/// A transfer that is under way.
pub struct TransferRun {
    request: TransferRequest,
    offset: u64,
    digest: StreamDigest,
}

impl TransferRun {
    /// What was asked for.
    pub closed spec fn request(self) -> TransferRequest {
        self.request
    }

    /// How far the transfer is.
    pub closed spec fn offset(self) -> u64 {
        self.offset
    }

    /// The bytes that were transferred.
    pub closed spec fn transferred(self) -> Seq<u8> {
        collected_bytes(self.digest)
    }

    /// The transfer is between its start and its end, and has as many bytes as that says.
    pub open spec fn wf(self) -> bool {
        &&& valid_request(self.request())
        &&& self.request().start_offset <= self.offset() <= self.request().total_bytes
        &&& self.transferred().len() == self.offset() - self.request().start_offset
    }

    /// How many bytes come next: a whole block, or what is left.
    pub open spec fn next_length(self) -> int {
        if self.request().total_bytes - self.offset() < self.request().block_bytes {
            self.request().total_bytes - self.offset()
        } else {
            self.request().block_bytes as int
        }
    }

    /// Starts a transfer.
    pub fn begin(request: TransferRequest) -> (result: Result<Self, String>)
        ensures
            match result {
                Ok(run) => {
                    &&& valid_request(request)
                    &&& run.wf()
                    &&& run.request() == request
                    &&& run.offset() == request.start_offset
                    &&& run.transferred() == Seq::<u8>::empty()
                },
                Err(error) => !valid_request(request) && error@
                    == "flowshare-transfer-request-invalid"@,
            },
    {
        if request.block_bytes == 0 || request.total_bytes < request.start_offset {
            return Err("flowshare-transfer-request-invalid".to_owned());
        }
        let offset: u64 = request.start_offset;
        Ok(TransferRun { request, offset, digest: StreamDigest::new() })
    }

    /// The block to read next, if the transfer is not at its end.
    pub fn next_block(&self) -> (next: Option<NextBlock>)
        requires
            self.wf(),
        ensures
            match next {
                Some(block) => {
                    &&& self.offset() < self.request().total_bytes
                    &&& block.offset == self.offset()
                    &&& block.length == self.next_length()
                    &&& block.length > 0
                },
                None => self.offset() == self.request().total_bytes,
            },
    {
        if self.offset >= self.request.total_bytes {
            return None;
        }
        let remaining: u64 = self.request.total_bytes - self.offset;
        let length: usize = if remaining < self.request.block_bytes as u64 {
            remaining as usize
        } else {
            self.request.block_bytes
        };
        Some(NextBlock { offset: self.offset, length })
    }

    /// Checks what was read for the next block.
    pub fn check_read(&self, bytes: &[u8]) -> (result: Result<(), String>)
        requires
            self.wf(),
        ensures
            match result {
                Ok(()) => bytes@.len() == self.next_length(),
                Err(error) => bytes@.len() != self.next_length() && error@
                    == "flowshare-source-short-read"@,
            },
    {
        let remaining: u64 = self.request.total_bytes - self.offset;
        let expected: u64 = if remaining < self.request.block_bytes as u64 {
            remaining
        } else {
            self.request.block_bytes as u64
        };
        if bytes.len() as u64 != expected {
            return Err("flowshare-source-short-read".to_owned());
        }
        Ok(())
    }

    /// Takes note of a block that was written, and says how far the transfer is.
    pub fn record_written(&mut self, bytes: &[u8]) -> (progress: u64)
        requires
            old(self).wf(),
            bytes@.len() == old(self).next_length(),
        ensures
            final(self).wf(),
            final(self).request() == old(self).request(),
            final(self).offset() == old(self).offset() + bytes@.len(),
            final(self).transferred() == old(self).transferred() + bytes@,
            progress == final(self).offset(),
    {
        self.digest.update(bytes);
        self.offset = self.offset + bytes.len() as u64;
        self.offset
    }

    /// The receipt of a transfer that is at its end.
    pub fn finish(self) -> (receipt: TransferReceipt)
        requires
            self.wf(),
            self.offset() == self.request().total_bytes,
        ensures
            receipt.transfer_id == self.request().transfer_id,
            receipt.bytes_written == self.request().total_bytes - self.request().start_offset,
            receipt.sha256 == sha256_digest(self.transferred()),
            receipt.protocol_version == NATIVE_QUIC_PROTOCOL_VERSION,
    {
        let bytes_written: u64 = self.offset - self.request.start_offset;
        TransferReceipt {
            transfer_id: self.request.transfer_id,
            bytes_written,
            sha256: self.digest.finish(),
            protocol_version: NATIVE_QUIC_PROTOCOL_VERSION,
        }
    }
}

/// A transfer comes to its end: as long as something is left, the next block is not empty and
/// stays within what was asked for.
pub proof fn law_each_block_brings_the_end_closer(run: TransferRun)
    requires
        run.wf(),
        run.offset() < run.request().total_bytes,
    ensures
        0 < run.next_length() <= run.request().block_bytes,
        run.offset() + run.next_length() <= run.request().total_bytes,
{
}

} // verus!
