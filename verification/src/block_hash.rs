//! The sidecar with the digests of the completed blocks of a checkpoint.

use crate::arith::{ceil_div, div_ceil, min_u64};
use crate::bytes::{
    append, append_u16, append_u32, append_u64, be_bytes, be_value, bytes_equal, read_16, read_32,
    read_u16, read_u32, read_u64,
};
use crate::crypto::{hmac_sha256_tag, sha256, sha256_digest};
use crate::framing::{decode_framed, encode_framed, fits_frame, frame_of};
use crate::paths::{
    file_name, file_name_of, generation_base, generation_paths, renamed_path, with_file_name,
    GenerationPaths, PathStyle,
};
use crate::protocol::NATIVE_QUIC_PROTOCOL_VERSION;
use crate::secure_protocol::{checkpoint_mac, verify_checkpoint_mac};
use crate::text::{ends_with_text, joined, strip_suffix};
use vstd::prelude::*;
use vstd::utf8::encode_utf8;

verus! {

/// The letters `FQBLOCKS`.
pub const BLOCK_HASH_MAGIC: [u8; 8] = [0x46, 0x51, 0x42, 0x4c, 0x4f, 0x43, 0x4b, 0x53];

pub const BLOCK_HASH_FORMAT_VERSION: u16 = 2;

/// The digest of one completed block.
#[derive(Debug, Clone, Copy, PartialEq, Eq)]
pub struct BlockHashEntry {
    pub block_index: u64,
    pub absolute_offset: u64,
    pub valid_length: u64,
    pub digest: [u8; 32],
    pub checkpoint_generation: u64,
}

/// The digests of the completed blocks of one checkpoint generation.
#[derive(Debug, Clone, PartialEq, Eq)]
pub struct BlockHashManifest {
    pub format_version: u16,
    pub protocol_version: u16,
    pub transfer_id: [u8; 16],
    pub invitation_id: [u8; 16],
    pub checkpoint_generation: u64,
    pub file_size: u64,
    pub block_size: u64,
    pub total_blocks: u64,
    pub part_identity_digest: [u8; 32],
    pub entries: Vec<BlockHashEntry>,
    pub authentication_tag: [u8; 32],
}

/// Whether an entry describes its block as the file layout demands.
pub open spec fn entry_fits(
    entry: BlockHashEntry,
    generation: u64,
    file_size: u64,
    block_size: u64,
    total_blocks: u64,
) -> bool {
    let offset = entry.block_index * block_size;
    let rest = file_size - offset;
    &&& entry.checkpoint_generation == generation
    &&& entry.block_index < total_blocks
    &&& entry.absolute_offset == offset
    &&& entry.valid_length == if rest <= block_size {
        rest
    } else {
        block_size as int
    }
}

/// The bytes of one entry in the payload that is authenticated.
pub open spec fn entry_bytes(entry: BlockHashEntry) -> Seq<u8> {
    be_bytes(entry.block_index as nat, 8) + be_bytes(entry.absolute_offset as nat, 8) + be_bytes(
        entry.valid_length as nat,
        8,
    ) + entry.digest@ + be_bytes(entry.checkpoint_generation as nat, 8)
}

/// The bytes of all entries, in order.
pub open spec fn entries_bytes(entries: Seq<BlockHashEntry>) -> Seq<u8>
    decreases entries.len(),
{
    if entries.len() == 0 {
        Seq::empty()
    } else {
        entries_bytes(entries.drop_last()) + entry_bytes(entries.last())
    }
}

/// The domain that separates sidecar tags from all others.
pub open spec fn sidecar_domain() -> Seq<u8> {
    encode_utf8("flowshare/native/v3/block-hash-sidecar"@)
}

impl BlockHashManifest {
    /// Whether block size, block count and entries agree with the file size.
    pub open spec fn has_layout(self) -> bool {
        &&& self.block_size != 0
        &&& self.total_blocks == ceil_div(self.file_size as int, self.block_size as int)
        &&& self.entries@.len() <= self.total_blocks
        &&& forall|i: int|
            0 <= i < self.entries@.len() ==> entry_fits(
                #[trigger] self.entries@[i],
                self.checkpoint_generation,
                self.file_size,
                self.block_size,
                self.total_blocks,
            )
        &&& forall|i: int, j: int|
            0 <= i < j < self.entries@.len() ==> (#[trigger] self.entries@[i]).block_index < (
            #[trigger] self.entries@[j]).block_index
    }

    /// What is wrong with the manifest, if anything is.
    pub open spec fn defect(self) -> Option<Seq<char>> {
        if self.format_version != BLOCK_HASH_FORMAT_VERSION {
            Some("block-hash-version-unsupported"@)
        } else if self.protocol_version != NATIVE_QUIC_PROTOCOL_VERSION {
            Some("block-hash-protocol-version-unsupported"@)
        } else if !self.has_layout() {
            Some("block-hash-layout-invalid"@)
        } else {
            None
        }
    }

    /// The fixed part of the payload that is authenticated.
    pub open spec fn head_bytes(self) -> Seq<u8> {
        sidecar_domain() + be_bytes(self.format_version as nat, 2) + be_bytes(
            self.protocol_version as nat,
            2,
        ) + self.transfer_id@ + self.invitation_id@ + be_bytes(self.checkpoint_generation as nat, 8)
            + be_bytes(self.file_size as nat, 8) + be_bytes(self.block_size as nat, 8) + be_bytes(
            self.total_blocks as nat,
            8,
        ) + self.part_identity_digest@ + be_bytes(self.entries@.len(), 4)
    }

    /// The payload that is authenticated.
    pub open spec fn payload(self) -> Seq<u8> {
        self.head_bytes() + entries_bytes(self.entries@)
    }

    /// Why the payload cannot be built, if it cannot.
    pub open spec fn payload_defect(self) -> Option<Seq<char>> {
        if self.defect() is Some {
            self.defect()
        } else if self.entries@.len() > u32::MAX {
            Some("block-hash-layout-invalid"@)
        } else {
            None
        }
    }

    /// Checks versions and layout.
    pub fn validate(&self) -> (result: Result<(), String>)
        ensures
            match result {
                Ok(()) => self.defect() is None,
                Err(error) => self.defect() == Some(error@),
            },
    {
        if self.format_version != BLOCK_HASH_FORMAT_VERSION {
            return Err("block-hash-version-unsupported".to_owned());
        }
        if self.protocol_version != NATIVE_QUIC_PROTOCOL_VERSION {
            return Err("block-hash-protocol-version-unsupported".to_owned());
        }
        if self.check_layout() {
            Ok(())
        } else {
            Err("block-hash-layout-invalid".to_owned())
        }
    }

    fn check_layout(&self) -> (valid: bool)
        ensures
            valid == self.has_layout(),
    {
        if self.block_size == 0 {
            return false;
        }
        let blocks: u64 = div_ceil(self.file_size, self.block_size);
        if self.total_blocks != blocks || self.entries.len() as u64 > self.total_blocks {
            return false;
        }
        let mut index: usize = 0;
        while index < self.entries.len()
            invariant
                index <= self.entries.len(),
                self.block_size > 0,
                self.total_blocks == ceil_div(self.file_size as int, self.block_size as int),
                self.file_size > 0 ==> (self.total_blocks - 1) * self.block_size < self.file_size,
                self.total_blocks <= self.file_size,
                forall|i: int|
                    0 <= i < index ==> entry_fits(
                        #[trigger] self.entries@[i],
                        self.checkpoint_generation,
                        self.file_size,
                        self.block_size,
                        self.total_blocks,
                    ),
                forall|i: int, j: int|
                    0 <= i < j < index ==> (#[trigger] self.entries@[i]).block_index < (
                    #[trigger] self.entries@[j]).block_index,
            decreases self.entries.len() - index,
        {
            let entry = self.entries[index];
            if entry.checkpoint_generation != self.checkpoint_generation || entry.block_index
                >= self.total_blocks {
                assert(!entry_fits(
                    self.entries@[index as int],
                    self.checkpoint_generation,
                    self.file_size,
                    self.block_size,
                    self.total_blocks,
                ));
                return false;
            }
            if index > 0 && entry.block_index <= self.entries[index - 1].block_index {
                assert(self.entries@[index - 1].block_index
                    >= self.entries@[index as int].block_index);
                return false;
            }
            proof {
                lemma_offset_below_size(
                    entry.block_index as int,
                    self.total_blocks as int,
                    self.block_size as int,
                    self.file_size as int,
                );
            }
            let offset: u64 = entry.block_index * self.block_size;
            let length: u64 = min_u64(self.file_size - offset, self.block_size);
            if entry.absolute_offset != offset || entry.valid_length != length {
                assert(!entry_fits(
                    self.entries@[index as int],
                    self.checkpoint_generation,
                    self.file_size,
                    self.block_size,
                    self.total_blocks,
                ));
                return false;
            }
            proof {
                assert forall|i: int, j: int| 0 <= i < j < index + 1 implies (
                #[trigger] self.entries@[i]).block_index < (
                #[trigger] self.entries@[j]).block_index by {
                    if j == index && i < index - 1 {
                        assert(self.entries@[i].block_index < self.entries@[index - 1].block_index);
                    }
                }
            }
            index += 1;
        }
        true
    }

    /// The bytes that the authentication tag covers.
    pub fn canonical_security_payload(&self) -> (result: Result<Vec<u8>, String>)
        ensures
            match result {
                Ok(bytes) => self.payload_defect() is None && bytes@ == self.payload(),
                Err(error) => self.payload_defect() == Some(error@),
            },
    {
        match self.validate() {
            Ok(()) => {},
            Err(error) => return Err(error),
        }
        if self.entries.len() as u64 > u32::MAX as u64 {
            return Err("block-hash-layout-invalid".to_owned());
        }
        let mut output: Vec<u8> = Vec::new();
        append(&mut output, "flowshare/native/v3/block-hash-sidecar".as_bytes());
        append_u16(&mut output, self.format_version);
        append_u16(&mut output, self.protocol_version);
        append(&mut output, &self.transfer_id);
        append(&mut output, &self.invitation_id);
        append_u64(&mut output, self.checkpoint_generation);
        append_u64(&mut output, self.file_size);
        append_u64(&mut output, self.block_size);
        append_u64(&mut output, self.total_blocks);
        append(&mut output, &self.part_identity_digest);
        append_u32(&mut output, self.entries.len() as u32);
        assert(output@ =~= self.head_bytes());
        append_entries(&mut output, &self.entries);
        Ok(output)
    }

    /// Binds the manifest to an invitation and a partial file, and tags it.
    ///
    /// Where the manifest is invalid the two bindings are still taken over.
    pub fn authenticate(
        &mut self,
        invitation_id: [u8; 16],
        part_identity_digest: [u8; 32],
        checkpoint_key: &[u8; 32],
    ) -> (result: Result<(), String>)
        ensures
            final(self).invitation_id == invitation_id,
            final(self).part_identity_digest == part_identity_digest,
            final(self).same_body(*old(self)),
            match result {
                Ok(()) => {
                    &&& final(self).payload_defect() is None
                    &&& final(self).authentication_tag == hmac_sha256_tag(
                        checkpoint_key@,
                        final(self).payload(),
                    )
                },
                Err(error) => {
                    &&& final(self).payload_defect() == Some(error@)
                    &&& final(self).authentication_tag == old(self).authentication_tag
                },
            },
    {
        self.invitation_id = invitation_id;
        self.part_identity_digest = part_identity_digest;
        let ghost bound = *self;
        match self.canonical_security_payload() {
            Ok(payload) => {
                self.authentication_tag = checkpoint_mac(checkpoint_key, payload.as_slice());
                assert(self.payload() == bound.payload());
                assert(self.has_layout() == bound.has_layout());
                Ok(())
            },
            Err(error) => Err(error),
        }
    }

    /// Whether two manifests agree in all but the bindings and the tag.
    pub open spec fn same_body(self, other: Self) -> bool {
        &&& self.format_version == other.format_version
        &&& self.protocol_version == other.protocol_version
        &&& self.transfer_id == other.transfer_id
        &&& self.checkpoint_generation == other.checkpoint_generation
        &&& self.file_size == other.file_size
        &&& self.block_size == other.block_size
        &&& self.total_blocks == other.total_blocks
        &&& self.entries == other.entries
    }

    /// Why the manifest cannot be trusted, if it cannot.
    pub open spec fn distrust(
        self,
        checkpoint_key: Seq<u8>,
        invitation_id: Seq<u8>,
        part_identity_digest: Seq<u8>,
    ) -> Option<Seq<char>> {
        if self.invitation_id@ != invitation_id || self.part_identity_digest@
            != part_identity_digest {
            Some("checkpoint-authentication-failed"@)
        } else if self.payload_defect() is Some {
            self.payload_defect()
        } else if self.authentication_tag != hmac_sha256_tag(checkpoint_key, self.payload()) {
            Some("checkpoint-authentication-failed"@)
        } else {
            None
        }
    }

    /// Checks the bindings and the tag.
    pub fn verify_security(
        &self,
        checkpoint_key: &[u8; 32],
        expected_invitation_id: &[u8; 16],
        expected_part_identity_digest: &[u8; 32],
    ) -> (result: Result<(), String>)
        ensures
            match result {
                Ok(()) => self.distrust(
                    checkpoint_key@,
                    expected_invitation_id@,
                    expected_part_identity_digest@,
                ) is None,
                Err(error) => self.distrust(
                    checkpoint_key@,
                    expected_invitation_id@,
                    expected_part_identity_digest@,
                ) == Some(error@),
            },
    {
        if !bytes_equal(&self.invitation_id, expected_invitation_id) || !bytes_equal(
            &self.part_identity_digest,
            expected_part_identity_digest,
        ) {
            return Err("checkpoint-authentication-failed".to_owned());
        }
        match self.canonical_security_payload() {
            Ok(payload) => verify_checkpoint_mac(
                checkpoint_key,
                payload.as_slice(),
                &self.authentication_tag,
            ),
            Err(error) => Err(error),
        }
    }

    /// The digest of the payload together with its tag.
    pub fn authenticated_digest(&self) -> (result: Result<[u8; 32], String>)
        ensures
            match result {
                Ok(digest) => self.payload_defect() is None && digest == sha256_digest(
                    self.payload() + self.authentication_tag@,
                ),
                Err(error) => self.payload_defect() == Some(error@),
            },
    {
        match self.canonical_security_payload() {
            Ok(bytes) => {
                let mut payload: Vec<u8> = bytes;
                append(&mut payload, &self.authentication_tag);
                Ok(sha256(payload.as_slice()))
            },
            Err(error) => Err(error),
        }
    }

    /// The entry of a block, if there is one.
    pub open spec fn entry_of(self, block: u64, index: int) -> bool {
        &&& 0 <= index < self.entries@.len()
        &&& self.entries@[index].block_index == block
        &&& forall|i: int| 0 <= i < index ==> (#[trigger] self.entries@[i]).block_index != block
    }

    /// The digest of a block, if the manifest holds one.
    pub fn hash_for(&self, block: u64) -> (digest: Option<[u8; 32]>)
        ensures
            match digest {
                Some(bytes) => exists|index: int| #[trigger]
                    self.entry_of(block, index) && self.entries@[index].digest == bytes,
                None => forall|i: int|
                    0 <= i < self.entries@.len() ==> (#[trigger] self.entries@[i]).block_index
                        != block,
            },
    {
        let mut index: usize = 0;
        while index < self.entries.len()
            invariant
                index <= self.entries.len(),
                forall|i: int|
                    0 <= i < index ==> (#[trigger] self.entries@[i]).block_index != block,
            decreases self.entries.len() - index,
        {
            if self.entries[index].block_index == block {
                assert(self.entry_of(block, index as int));
                return Some(self.entries[index].digest);
            }
            index += 1;
        }
        None
    }

    /// The payload followed by the tag: what a sidecar file holds.
    pub open spec fn stored_bytes(self) -> Seq<u8> {
        self.payload() + self.authentication_tag@
    }

    /// The bytes of the sidecar file.
    pub open spec fn file_bytes(self) -> Seq<u8> {
        frame_of(BLOCK_HASH_MAGIC@, self.stored_bytes())
    }

    /// Why the manifest cannot be stored, if it cannot.
    pub open spec fn storage_defect(self) -> Option<Seq<char>> {
        if self.payload_defect() is Some {
            self.payload_defect()
        } else if !fits_frame(self.stored_bytes()) {
            Some("block-hash-sidecar-too-large"@)
        } else {
            None
        }
    }

    /// The size of the sidecar file.
    pub fn encoded_size(&self) -> (result: Result<usize, String>)
        ensures
            match result {
                Ok(size) => self.storage_defect() is None && size == self.file_bytes().len(),
                Err(error) => self.storage_defect() == Some(error@),
            },
    {
        match encode(self) {
            Ok(bytes) => Ok(bytes.len()),
            Err(error) => Err(error),
        }
    }
}

proof fn lemma_offset_below_size(index: int, blocks: int, block_size: int, file_size: int)
    requires
        0 <= index < blocks,
        block_size > 0,
        blocks <= file_size,
        (blocks - 1) * block_size < file_size,
    ensures
        0 <= index * block_size < file_size,
{
    assert(index * block_size <= (blocks - 1) * block_size) by (nonlinear_arith)
        requires
            0 <= index <= blocks - 1,
            block_size > 0,
    ;
    assert(0 <= index * block_size) by (nonlinear_arith)
        requires
            0 <= index,
            block_size > 0,
    ;
}

fn append_entries(output: &mut Vec<u8>, entries: &Vec<BlockHashEntry>)
    ensures
        final(output)@ == old(output)@ + entries_bytes(entries@),
{
    let mut index: usize = 0;
    assert(output@ =~= old(output)@ + entries_bytes(entries@.take(0)));
    while index < entries.len()
        invariant
            index <= entries.len(),
            output@ == old(output)@ + entries_bytes(entries@.take(index as int)),
        decreases entries.len() - index,
    {
        let entry = entries[index];
        append_u64(output, entry.block_index);
        append_u64(output, entry.absolute_offset);
        append_u64(output, entry.valid_length);
        append(output, &entry.digest);
        append_u64(output, entry.checkpoint_generation);
        index += 1;
        proof {
            let seen = entries@.take(index as int);
            assert(seen.drop_last() =~= entries@.take(index - 1));
            assert(output@ =~= old(output)@ + entries_bytes(seen));
        }
    }
    assert(entries@.take(entries@.len() as int) =~= entries@);
}

/// The sidecar file of a manifest.
pub fn encode(value: &BlockHashManifest) -> (result: Result<Vec<u8>, String>)
    ensures
        match result {
            Ok(bytes) => value.storage_defect() is None && bytes@ == value.file_bytes(),
            Err(error) => value.storage_defect() == Some(error@),
        },
{
    match value.canonical_security_payload() {
        Ok(payload) => {
            let mut stored: Vec<u8> = payload;
            append(&mut stored, &value.authentication_tag);
            match encode_framed(&BLOCK_HASH_MAGIC, stored.as_slice()) {
                Some(bytes) => Ok(bytes),
                None => Err("block-hash-sidecar-too-large".to_owned()),
            }
        },
        Err(error) => Err(error),
    }
}

/// The length of the domain in bytes.
const DOMAIN_BYTES: usize = 38;

/// The length of the fixed part of the payload.
const HEAD_BYTES: usize = 142;

/// The length of one entry.
const ENTRY_BYTES: usize = 64;

proof fn lemma_domain_len()
    ensures
        sidecar_domain().len() == DOMAIN_BYTES,
{
    reveal_strlit("flowshare/native/v3/block-hash-sidecar");
    vstd::utf8::is_ascii_chars_encode_utf8("flowshare/native/v3/block-hash-sidecar"@);
}

proof fn lemma_entry_parts(entry: BlockHashEntry)
    ensures
        entry_bytes(entry).len() == ENTRY_BYTES,
        be_value(entry_bytes(entry).subrange(0, 8)) == entry.block_index,
        be_value(entry_bytes(entry).subrange(8, 16)) == entry.absolute_offset,
        be_value(entry_bytes(entry).subrange(16, 24)) == entry.valid_length,
        entry_bytes(entry).subrange(24, 56) == entry.digest@,
        be_value(entry_bytes(entry).subrange(56, 64)) == entry.checkpoint_generation,
{
    crate::bytes::lemma_capacities();
    crate::bytes::lemma_be_bytes_len(entry.block_index as nat, 8);
    crate::bytes::lemma_be_bytes_len(entry.absolute_offset as nat, 8);
    crate::bytes::lemma_be_bytes_len(entry.valid_length as nat, 8);
    crate::bytes::lemma_be_bytes_len(entry.checkpoint_generation as nat, 8);
    crate::bytes::lemma_be_value_of_be_bytes(entry.block_index as nat, 8);
    crate::bytes::lemma_be_value_of_be_bytes(entry.absolute_offset as nat, 8);
    crate::bytes::lemma_be_value_of_be_bytes(entry.valid_length as nat, 8);
    crate::bytes::lemma_be_value_of_be_bytes(entry.checkpoint_generation as nat, 8);
    let bytes = entry_bytes(entry);
    assert(bytes.subrange(0, 8) =~= be_bytes(entry.block_index as nat, 8));
    assert(bytes.subrange(8, 16) =~= be_bytes(entry.absolute_offset as nat, 8));
    assert(bytes.subrange(16, 24) =~= be_bytes(entry.valid_length as nat, 8));
    assert(bytes.subrange(24, 56) =~= entry.digest@);
    assert(bytes.subrange(56, 64) =~= be_bytes(entry.checkpoint_generation as nat, 8));
}

proof fn lemma_entries_len(entries: Seq<BlockHashEntry>)
    ensures
        entries_bytes(entries).len() == entries.len() * ENTRY_BYTES,
    decreases entries.len(),
{
    if entries.len() > 0 {
        lemma_entries_len(entries.drop_last());
        lemma_entry_parts(entries.last());
    }
}

proof fn lemma_entries_injective(left: Seq<BlockHashEntry>, right: Seq<BlockHashEntry>)
    requires
        entries_bytes(left) == entries_bytes(right),
    ensures
        left == right,
    decreases left.len(),
{
    lemma_entries_len(left);
    lemma_entries_len(right);
    if left.len() > 0 {
        let a = entries_bytes(left.drop_last());
        let b = entries_bytes(right.drop_last());
        let x = entry_bytes(left.last());
        let y = entry_bytes(right.last());
        lemma_entries_len(left.drop_last());
        lemma_entries_len(right.drop_last());
        lemma_entry_parts(left.last());
        lemma_entry_parts(right.last());
        assert(a =~= (a + x).take(a.len() as int));
        assert(b =~= (b + y).take(a.len() as int));
        assert(x =~= (a + x).skip(a.len() as int));
        assert(y =~= (b + y).skip(a.len() as int));
        lemma_entries_injective(left.drop_last(), right.drop_last());
        assert(left.last().digest =~= right.last().digest);
        assert(left =~= left.drop_last().push(left.last()));
        assert(right =~= right.drop_last().push(right.last()));
    } else {
        assert(left =~= right);
    }
}

#[verifier::rlimit(40)]
proof fn lemma_head_parts(manifest: BlockHashManifest)
    requires
        manifest.entries@.len() <= u32::MAX,
    ensures
        manifest.head_bytes().len() == HEAD_BYTES,
        manifest.head_bytes().subrange(0, 38) == sidecar_domain(),
        be_value(manifest.head_bytes().subrange(38, 40)) == manifest.format_version,
        be_value(manifest.head_bytes().subrange(40, 42)) == manifest.protocol_version,
        manifest.head_bytes().subrange(42, 58) == manifest.transfer_id@,
        manifest.head_bytes().subrange(58, 74) == manifest.invitation_id@,
        be_value(manifest.head_bytes().subrange(74, 82)) == manifest.checkpoint_generation,
        be_value(manifest.head_bytes().subrange(82, 90)) == manifest.file_size,
        be_value(manifest.head_bytes().subrange(90, 98)) == manifest.block_size,
        be_value(manifest.head_bytes().subrange(98, 106)) == manifest.total_blocks,
        manifest.head_bytes().subrange(106, 138) == manifest.part_identity_digest@,
        be_value(manifest.head_bytes().subrange(138, 142)) == manifest.entries@.len(),
{
    lemma_domain_len();
    crate::bytes::lemma_capacities();
    crate::bytes::lemma_be_bytes_len(manifest.format_version as nat, 2);
    crate::bytes::lemma_be_bytes_len(manifest.protocol_version as nat, 2);
    crate::bytes::lemma_be_bytes_len(manifest.checkpoint_generation as nat, 8);
    crate::bytes::lemma_be_bytes_len(manifest.file_size as nat, 8);
    crate::bytes::lemma_be_bytes_len(manifest.block_size as nat, 8);
    crate::bytes::lemma_be_bytes_len(manifest.total_blocks as nat, 8);
    crate::bytes::lemma_be_bytes_len(manifest.entries@.len(), 4);
    crate::bytes::lemma_be_value_of_be_bytes(manifest.format_version as nat, 2);
    crate::bytes::lemma_be_value_of_be_bytes(manifest.protocol_version as nat, 2);
    crate::bytes::lemma_be_value_of_be_bytes(manifest.checkpoint_generation as nat, 8);
    crate::bytes::lemma_be_value_of_be_bytes(manifest.file_size as nat, 8);
    crate::bytes::lemma_be_value_of_be_bytes(manifest.block_size as nat, 8);
    crate::bytes::lemma_be_value_of_be_bytes(manifest.total_blocks as nat, 8);
    crate::bytes::lemma_be_value_of_be_bytes(manifest.entries@.len(), 4);
    let head = manifest.head_bytes();
    assert(head.subrange(0, 38) =~= sidecar_domain());
    assert(head.subrange(38, 40) =~= be_bytes(manifest.format_version as nat, 2));
    assert(head.subrange(40, 42) =~= be_bytes(manifest.protocol_version as nat, 2));
    assert(head.subrange(42, 58) =~= manifest.transfer_id@);
    assert(head.subrange(58, 74) =~= manifest.invitation_id@);
    assert(head.subrange(74, 82) =~= be_bytes(manifest.checkpoint_generation as nat, 8));
    assert(head.subrange(82, 90) =~= be_bytes(manifest.file_size as nat, 8));
    assert(head.subrange(90, 98) =~= be_bytes(manifest.block_size as nat, 8));
    assert(head.subrange(98, 106) =~= be_bytes(manifest.total_blocks as nat, 8));
    assert(head.subrange(106, 138) =~= manifest.part_identity_digest@);
    assert(head.subrange(138, 142) =~= be_bytes(manifest.entries@.len(), 4));
}

/// Where the parts stand in the stored bytes of a manifest.
proof fn lemma_stored_parts(manifest: BlockHashManifest)
    requires
        manifest.entries@.len() <= u32::MAX,
    ensures
        manifest.stored_bytes().len() == HEAD_BYTES + manifest.entries@.len() * ENTRY_BYTES + 32,
        manifest.stored_bytes().subrange(0, 142) == manifest.head_bytes(),
        manifest.stored_bytes().subrange(0, 38) == sidecar_domain(),
        be_value(manifest.stored_bytes().subrange(138, 142)) == manifest.entries@.len(),
        manifest.stored_bytes().subrange(142, manifest.stored_bytes().len() - 32) == entries_bytes(
            manifest.entries@,
        ),
        manifest.stored_bytes().subrange(
            manifest.stored_bytes().len() - 32,
            manifest.stored_bytes().len() as int,
        ) == manifest.authentication_tag@,
{
    lemma_head_parts(manifest);
    lemma_entries_len(manifest.entries@);
    let stored = manifest.stored_bytes();
    let head = manifest.head_bytes();
    assert(stored.subrange(0, 142) =~= head);
    assert(stored.subrange(0, 38) =~= head.subrange(0, 38));
    assert(stored.subrange(138, 142) =~= head.subrange(138, 142));
    assert(stored.subrange(142, stored.len() - 32) =~= entries_bytes(manifest.entries@));
    assert(stored.subrange(stored.len() - 32, stored.len() as int)
        =~= manifest.authentication_tag@);
}

/// Whether two manifests hold the same values.
pub open spec fn same_manifest(left: BlockHashManifest, right: BlockHashManifest) -> bool {
    &&& left.format_version == right.format_version
    &&& left.protocol_version == right.protocol_version
    &&& left.transfer_id == right.transfer_id
    &&& left.invitation_id == right.invitation_id
    &&& left.checkpoint_generation == right.checkpoint_generation
    &&& left.file_size == right.file_size
    &&& left.block_size == right.block_size
    &&& left.total_blocks == right.total_blocks
    &&& left.part_identity_digest == right.part_identity_digest
    &&& left.entries@ == right.entries@
    &&& left.authentication_tag == right.authentication_tag
}

/// The stored bytes determine the manifest.
pub proof fn law_stored_bytes_determine_manifest(left: BlockHashManifest, right: BlockHashManifest)
    requires
        left.entries@.len() <= u32::MAX,
        right.entries@.len() <= u32::MAX,
        left.stored_bytes() == right.stored_bytes(),
    ensures
        same_manifest(left, right),
{
    lemma_stored_parts(left);
    lemma_stored_parts(right);
    lemma_head_parts(left);
    lemma_head_parts(right);
    lemma_entries_injective(left.entries@, right.entries@);
    assert(left.transfer_id =~= right.transfer_id);
    assert(left.invitation_id =~= right.invitation_id);
    assert(left.part_identity_digest =~= right.part_identity_digest);
    assert(left.authentication_tag =~= right.authentication_tag);
}

/// The sidecar file determines the manifest: what was stored is read back.
pub proof fn law_sidecar_file_determines_manifest(
    left: BlockHashManifest,
    right: BlockHashManifest,
)
    requires
        left.storage_defect() is None,
        right.storage_defect() is None,
        left.file_bytes() == right.file_bytes(),
    ensures
        same_manifest(left, right),
{
    crate::framing::law_frame_determines_payload(
        BLOCK_HASH_MAGIC@,
        left.stored_bytes(),
        right.stored_bytes(),
    );
    law_stored_bytes_determine_manifest(left, right);
}

/// A sidecar file that was cut short is not the sidecar file of any manifest.
pub proof fn law_truncated_sidecar_is_refused(
    manifest: BlockHashManifest,
    other: BlockHashManifest,
    length: int,
)
    requires
        manifest.storage_defect() is None,
        other.storage_defect() is None,
        0 <= length < manifest.file_bytes().len(),
    ensures
        manifest.file_bytes().take(length) != other.file_bytes(),
{
    crate::framing::law_truncated_frame_is_no_frame(
        BLOCK_HASH_MAGIC@,
        manifest.stored_bytes(),
        other.stored_bytes(),
        length,
    );
}

fn parse_entries(stored: &[u8], count: usize) -> (entries: Vec<BlockHashEntry>)
    requires
        HEAD_BYTES + count * ENTRY_BYTES <= stored.len(),
    ensures
        entries@.len() == count,
        entries_bytes(entries@) == stored@.subrange(142, 142 + count * ENTRY_BYTES),
{
    let mut entries: Vec<BlockHashEntry> = Vec::new();
    let mut at: usize = HEAD_BYTES;
    assert(entries_bytes(entries@) =~= stored@.subrange(142, at as int));
    while entries.len() < count
        invariant
            entries@.len() <= count,
            HEAD_BYTES + count * ENTRY_BYTES <= stored.len(),
            at == HEAD_BYTES + entries@.len() * ENTRY_BYTES,
            entries_bytes(entries@) == stored@.subrange(142, at as int),
        decreases count - entries@.len(),
    {
        let entry = BlockHashEntry {
            block_index: read_u64(stored, at),
            absolute_offset: read_u64(stored, at + 8),
            valid_length: read_u64(stored, at + 16),
            digest: read_32(stored, at + 24),
            checkpoint_generation: read_u64(stored, at + 56),
        };
        let ghost before = entries@;
        entries.push(entry);
        proof {
            crate::bytes::lemma_be_bytes_of_be_value(stored@.subrange(at as int, at + 8));
            crate::bytes::lemma_be_bytes_of_be_value(stored@.subrange(at + 8, at + 16));
            crate::bytes::lemma_be_bytes_of_be_value(stored@.subrange(at + 16, at + 24));
            crate::bytes::lemma_be_bytes_of_be_value(stored@.subrange(at + 56, at + 64));
            assert(entries@.drop_last() =~= before);
            assert(entry_bytes(entry) =~= stored@.subrange(at as int, at + 64));
            assert(stored@.subrange(142, at as int) + stored@.subrange(at as int, at + 64)
                =~= stored@.subrange(142, at + 64));
        }
        at += ENTRY_BYTES;
    }
    entries
}

fn parse_manifest(stored: &[u8]) -> (manifest: Option<BlockHashManifest>)
    ensures
        match manifest {
            Some(value) => value.entries@.len() <= u32::MAX && value.stored_bytes() == stored@,
            None => forall|other: BlockHashManifest|
                other.entries@.len() <= u32::MAX ==> #[trigger] other.stored_bytes() != stored@,
        },
{
    proof {
        assert forall|other: BlockHashManifest|
            other.entries@.len() <= u32::MAX && #[trigger] other.stored_bytes() == stored@ implies
            stored@.len() == HEAD_BYTES + be_value(stored@.subrange(138, 142)) * ENTRY_BYTES + 32
            && stored@.subrange(0, 38) == sidecar_domain() by {
            lemma_stored_parts(other);
        }
        lemma_domain_len();
    }
    if stored.len() < HEAD_BYTES + 32 {
        return None;
    }
    let domain: &[u8] = "flowshare/native/v3/block-hash-sidecar".as_bytes();
    if !bytes_equal(&stored[0..DOMAIN_BYTES], domain) {
        return None;
    }
    let count: u32 = read_u32(stored, 138);
    let room: usize = stored.len() - (HEAD_BYTES + 32);
    if room % ENTRY_BYTES != 0 || (room / ENTRY_BYTES) as u64 != count as u64 {
        return None;
    }
    let end: usize = stored.len() - 32;
    let manifest = BlockHashManifest {
        format_version: read_u16(stored, 38),
        protocol_version: read_u16(stored, 40),
        transfer_id: read_16(stored, 42),
        invitation_id: read_16(stored, 58),
        checkpoint_generation: read_u64(stored, 74),
        file_size: read_u64(stored, 82),
        block_size: read_u64(stored, 90),
        total_blocks: read_u64(stored, 98),
        part_identity_digest: read_32(stored, 106),
        entries: parse_entries(stored, room / ENTRY_BYTES),
        authentication_tag: read_32(stored, end),
    };
    proof {
        lemma_parsed_head(stored@, manifest);
        assert(142 + (room / ENTRY_BYTES) * ENTRY_BYTES == end);
        assert(stored@ =~= stored@.subrange(0, 142) + stored@.subrange(142, end as int)
            + stored@.subrange(end as int, stored@.len() as int));
        assert(manifest.stored_bytes() =~= stored@);
    }
    Some(manifest)
}

#[verifier::rlimit(40)]
proof fn lemma_parsed_head(stored: Seq<u8>, manifest: BlockHashManifest)
    requires
        stored.len() >= 142,
        stored.subrange(0, 38) == sidecar_domain(),
        manifest.format_version == be_value(stored.subrange(38, 40)),
        manifest.protocol_version == be_value(stored.subrange(40, 42)),
        manifest.transfer_id@ == stored.subrange(42, 58),
        manifest.invitation_id@ == stored.subrange(58, 74),
        manifest.checkpoint_generation == be_value(stored.subrange(74, 82)),
        manifest.file_size == be_value(stored.subrange(82, 90)),
        manifest.block_size == be_value(stored.subrange(90, 98)),
        manifest.total_blocks == be_value(stored.subrange(98, 106)),
        manifest.part_identity_digest@ == stored.subrange(106, 138),
        manifest.entries@.len() == be_value(stored.subrange(138, 142)),
    ensures
        manifest.head_bytes() == stored.subrange(0, 142),
{
    crate::bytes::lemma_be_bytes_of_be_value(stored.subrange(38, 40));
    crate::bytes::lemma_be_bytes_of_be_value(stored.subrange(40, 42));
    crate::bytes::lemma_be_bytes_of_be_value(stored.subrange(74, 82));
    crate::bytes::lemma_be_bytes_of_be_value(stored.subrange(82, 90));
    crate::bytes::lemma_be_bytes_of_be_value(stored.subrange(90, 98));
    crate::bytes::lemma_be_bytes_of_be_value(stored.subrange(98, 106));
    crate::bytes::lemma_be_bytes_of_be_value(stored.subrange(138, 142));
    lemma_domain_len();
    assert(manifest.head_bytes() =~= stored.subrange(0, 142));
}

/// Whether `input` is the file of `manifest`, valid or not.
pub open spec fn is_file_of(input: Seq<u8>, manifest: BlockHashManifest) -> bool {
    &&& manifest.entries@.len() <= u32::MAX
    &&& fits_frame(manifest.stored_bytes())
    &&& input == manifest.file_bytes()
}

/// What was tagged and stored is read back and trusted under the same key, for the invitation
/// and the part file that it was tagged for and for no others.
pub proof fn law_stored_sidecar_is_trusted(
    written: BlockHashManifest,
    read: BlockHashManifest,
    checkpoint_key: Seq<u8>,
    invitation_id: Seq<u8>,
    part_identity_digest: Seq<u8>,
)
    requires
        written.storage_defect() is None,
        written.authentication_tag == hmac_sha256_tag(checkpoint_key, written.payload()),
        is_file_of(written.file_bytes(), read),
    ensures
        same_manifest(written, read),
        read.defect() is None,
        read.distrust(checkpoint_key, invitation_id, part_identity_digest) == if invitation_id
            == written.invitation_id@ && part_identity_digest == written.part_identity_digest@ {
            None
        } else {
            Some("checkpoint-authentication-failed"@)
        },
{
    crate::framing::law_frame_determines_payload(
        BLOCK_HASH_MAGIC@,
        written.stored_bytes(),
        read.stored_bytes(),
    );
    law_stored_bytes_determine_manifest(written, read);
}

/// Reads a sidecar file. Bytes that are not the file of any manifest are corrupt; the file of
/// an invalid manifest is refused for what is wrong with the manifest.
pub fn decode(input: &[u8]) -> (result: Result<BlockHashManifest, String>)
    ensures
        match result {
            Ok(manifest) => is_file_of(input@, manifest) && manifest.defect() is None,
            Err(error) => {
                ||| error@ == "block-hash-sidecar-corrupt"@ && forall|manifest: BlockHashManifest|
                    !#[trigger] is_file_of(input@, manifest)
                ||| exists|manifest: BlockHashManifest| #[trigger]
                    is_file_of(input@, manifest) && manifest.defect() == Some(error@)
            },
        },
{
    match decode_framed(&BLOCK_HASH_MAGIC, input) {
        Some(stored) => match parse_manifest(stored.as_slice()) {
            Some(manifest) => {
                assert(is_file_of(input@, manifest));
                match manifest.validate() {
                    Ok(()) => Ok(manifest),
                    Err(error) => Err(error),
                }
            },
            None => {
                proof {
                    assert forall|manifest: BlockHashManifest|
                        !#[trigger] is_file_of(input@, manifest) by {
                        if is_file_of(input@, manifest) {
                            crate::framing::law_frame_determines_payload(
                                BLOCK_HASH_MAGIC@,
                                stored@,
                                manifest.stored_bytes(),
                            );
                        }
                    }
                }
                Err("block-hash-sidecar-corrupt".to_owned())
            },
        },
        None => {
            proof {
                assert forall|manifest: BlockHashManifest|
                    !#[trigger] is_file_of(input@, manifest) by {
                    assert(frame_of(BLOCK_HASH_MAGIC@, manifest.stored_bytes())
                        == manifest.file_bytes());
                }
            }
            Err("block-hash-sidecar-corrupt".to_owned())
        },
    }
}

/// The entry of a block with the given digest.
pub open spec fn entry_at(
    block: u64,
    digest: [u8; 32],
    generation: u64,
    file_size: u64,
    block_size: u64,
) -> BlockHashEntry {
    let offset = block * block_size;
    BlockHashEntry {
        block_index: block,
        absolute_offset: offset as u64,
        valid_length: if file_size - offset <= block_size {
            (file_size - offset) as u64
        } else {
            block_size
        },
        digest,
        checkpoint_generation: generation,
    }
}

/// The entries of the hashed blocks among the first `n`.
pub open spec fn entries_for(
    hashes: Seq<Option<[u8; 32]>>,
    generation: u64,
    file_size: u64,
    block_size: u64,
    n: nat,
) -> Seq<BlockHashEntry>
    decreases n,
{
    if n == 0 {
        Seq::empty()
    } else {
        let before = entries_for(hashes, generation, file_size, block_size, (n - 1) as nat);
        match hashes[n - 1] {
            Some(digest) => before.push(
                entry_at((n - 1) as u64, digest, generation, file_size, block_size),
            ),
            None => before,
        }
    }
}

/// The manifest of a checkpoint from the digests of its blocks, one for each block that is
/// complete. It is not yet bound to an invitation nor tagged.
pub fn from_hashes(
    transfer_id: [u8; 16],
    checkpoint_generation: u64,
    file_size: u64,
    block_size: u64,
    hashes: &[Option<[u8; 32]>],
) -> (result: Result<BlockHashManifest, String>)
    requires
        block_size > 0,
    ensures
        match result {
            Ok(manifest) => {
                &&& hashes@.len() == ceil_div(file_size as int, block_size as int)
                &&& manifest.defect() is None
                &&& manifest.format_version == BLOCK_HASH_FORMAT_VERSION
                &&& manifest.protocol_version == NATIVE_QUIC_PROTOCOL_VERSION
                &&& manifest.transfer_id == transfer_id
                &&& manifest.invitation_id@ == Seq::new(16, |i: int| 0u8)
                &&& manifest.checkpoint_generation == checkpoint_generation
                &&& manifest.file_size == file_size
                &&& manifest.block_size == block_size
                &&& manifest.total_blocks == hashes@.len()
                &&& manifest.part_identity_digest@ == Seq::new(32, |i: int| 0u8)
                &&& manifest.authentication_tag@ == Seq::new(32, |i: int| 0u8)
                &&& manifest.entries@ == entries_for(
                    hashes@,
                    checkpoint_generation,
                    file_size,
                    block_size,
                    hashes@.len(),
                )
            },
            Err(error) => {
                &&& error@ == "block-hash-layout-invalid"@
                &&& hashes@.len() != ceil_div(file_size as int, block_size as int)
            },
        },
{
    let total_blocks: u64 = div_ceil(file_size, block_size);
    if hashes.len() as u64 != total_blocks {
        return Err("block-hash-layout-invalid".to_owned());
    }
    let mut entries: Vec<BlockHashEntry> = Vec::new();
    let mut index: usize = 0;
    while index < hashes.len()
        invariant
            index <= hashes.len(),
            hashes@.len() == total_blocks,
            block_size > 0,
            total_blocks <= file_size,
            file_size > 0 ==> (total_blocks - 1) * block_size < file_size,
            entries@ == entries_for(
                hashes@,
                checkpoint_generation,
                file_size,
                block_size,
                index as nat,
            ),
        decreases hashes.len() - index,
    {
        match hashes[index] {
            Some(digest) => {
                let block_index: u64 = index as u64;
                proof {
                    lemma_offset_below_size(
                        index as int,
                        total_blocks as int,
                        block_size as int,
                        file_size as int,
                    );
                }
                let absolute_offset: u64 = block_index * block_size;
                entries.push(
                    BlockHashEntry {
                        block_index,
                        absolute_offset,
                        valid_length: min_u64(file_size - absolute_offset, block_size),
                        digest,
                        checkpoint_generation,
                    },
                );
            },
            None => {},
        }
        index += 1;
    }
    let manifest = BlockHashManifest {
        format_version: BLOCK_HASH_FORMAT_VERSION,
        protocol_version: NATIVE_QUIC_PROTOCOL_VERSION,
        transfer_id,
        invitation_id: [0u8; 16],
        checkpoint_generation,
        file_size,
        block_size,
        total_blocks,
        part_identity_digest: [0u8; 32],
        entries,
        authentication_tag: [0u8; 32],
    };
    proof {
        lemma_entries_for(
            hashes@,
            checkpoint_generation,
            file_size,
            block_size,
            total_blocks,
            hashes@.len(),
        );
        assert(manifest.invitation_id@ =~= Seq::new(16, |i: int| 0u8));
        assert(manifest.part_identity_digest@ =~= Seq::new(32, |i: int| 0u8));
        assert(manifest.authentication_tag@ =~= Seq::new(32, |i: int| 0u8));
    }
    Ok(manifest)
}

proof fn lemma_entries_for(
    hashes: Seq<Option<[u8; 32]>>,
    generation: u64,
    file_size: u64,
    block_size: u64,
    total_blocks: u64,
    n: nat,
)
    requires
        n <= hashes.len() == total_blocks,
        block_size > 0,
        total_blocks <= file_size,
        file_size > 0 ==> (total_blocks - 1) * block_size < file_size,
    ensures
        entries_for(hashes, generation, file_size, block_size, n).len() <= n,
        forall|i: int|
            0 <= i < entries_for(hashes, generation, file_size, block_size, n).len() ==> {
                let entry = #[trigger] entries_for(hashes, generation, file_size, block_size, n)[i];
                &&& entry_fits(entry, generation, file_size, block_size, total_blocks)
                &&& entry.block_index < n
                &&& hashes[entry.block_index as int] == Some(entry.digest)
            },
        forall|i: int, j: int|
            0 <= i < j < entries_for(hashes, generation, file_size, block_size, n).len() ==> (
            #[trigger] entries_for(hashes, generation, file_size, block_size, n)[i]).block_index < (
            #[trigger] entries_for(hashes, generation, file_size, block_size, n)[j]).block_index,
        forall|block: int|
            0 <= block < n && #[trigger] hashes[block] is Some ==> exists|i: int|
                0 <= i < entries_for(hashes, generation, file_size, block_size, n).len()
                    && #[trigger] entries_for(
                    hashes,
                    generation,
                    file_size,
                    block_size,
                    n,
                )[i].block_index == block,
    decreases n,
{
    if n > 0 {
        let less = (n - 1) as nat;
        let before = entries_for(hashes, generation, file_size, block_size, less);
        let after = entries_for(hashes, generation, file_size, block_size, n);
        lemma_entries_for(hashes, generation, file_size, block_size, total_blocks, less);
        lemma_offset_below_size(
            n - 1,
            total_blocks as int,
            block_size as int,
            file_size as int,
        );
        assert forall|block: int|
            0 <= block < n && #[trigger] hashes[block] is Some implies exists|i: int|
            0 <= i < after.len() && #[trigger] after[i].block_index == block by {
            if block < less {
                let i = choose|i: int|
                    0 <= i < before.len() && #[trigger] before[i].block_index == block;
                assert(after[i].block_index == block);
            } else {
                assert(after[after.len() - 1].block_index == block);
            }
        }
    }
}

/// A manifest made from digests gives each of them back for its block, and holds nothing for
/// the other blocks.
pub proof fn law_manifest_holds_exactly_the_hashes(
    manifest: BlockHashManifest,
    hashes: Seq<Option<[u8; 32]>>,
    block: u64,
)
    requires
        manifest.defect() is None,
        manifest.total_blocks == hashes.len(),
        manifest.entries@ == entries_for(
            hashes,
            manifest.checkpoint_generation,
            manifest.file_size,
            manifest.block_size,
            hashes.len(),
        ),
    ensures
        forall|i: int|
            0 <= i < manifest.entries@.len() && (#[trigger] manifest.entries@[i]).block_index
                == block ==> block < hashes.len() && hashes[block as int] == Some(
                manifest.entries@[i].digest,
            ),
        block < hashes.len() && hashes[block as int] is Some ==> exists|i: int|
            0 <= i < manifest.entries@.len() && (#[trigger] manifest.entries@[i]).block_index
                == block,
{
    lemma_layout_bounds(manifest.file_size as int, manifest.block_size as int);
    lemma_entries_for(
        hashes,
        manifest.checkpoint_generation,
        manifest.file_size,
        manifest.block_size,
        manifest.total_blocks,
        hashes.len(),
    );
    if block < hashes.len() && hashes[block as int] is Some {
        let i = choose|i: int|
            0 <= i < manifest.entries@.len() && #[trigger] entries_for(
                hashes,
                manifest.checkpoint_generation,
                manifest.file_size,
                manifest.block_size,
                hashes.len(),
            )[i].block_index == block;
        assert(manifest.entries@[i].block_index == block);
    }
}

proof fn lemma_layout_bounds(file_size: int, block_size: int)
    requires
        file_size >= 0,
        block_size > 0,
    ensures
        ceil_div(file_size, block_size) <= file_size,
        file_size > 0 ==> (ceil_div(file_size, block_size) - 1) * block_size < file_size,
{
    let sum = file_size + block_size - 1;
    let blocks = ceil_div(file_size, block_size);
    assert(blocks * block_size <= sum < (blocks + 1) * block_size) by (nonlinear_arith)
        requires
            block_size > 0,
            blocks == sum / block_size,
    ;
    assert((blocks - 1) * block_size == blocks * block_size - block_size) by (nonlinear_arith);
    if blocks > file_size {
        assert(blocks * block_size >= (file_size + 1) * block_size) by (nonlinear_arith)
            requires
                blocks >= file_size + 1,
                block_size > 0,
        ;
        assert((file_size + 1) * block_size >= file_size + block_size) by (nonlinear_arith)
            requires
                file_size >= 0,
                block_size > 0,
        ;
    }
}

/// The name of the sidecar that belongs to a checkpoint file.
pub open spec fn block_file_name(checkpoint_name: Seq<char>) -> Seq<char> {
    let head = if ends_with_text(checkpoint_name, ".resume.current"@) {
        checkpoint_name.take(checkpoint_name.len() - ".resume.current"@.len())
    } else if ends_with_text(checkpoint_name, ".resume"@) {
        checkpoint_name.take(checkpoint_name.len() - ".resume"@.len())
    } else if ends_with_text(checkpoint_name, ".current"@) {
        checkpoint_name.take(checkpoint_name.len() - ".current"@.len())
    } else {
        checkpoint_name
    };
    head + ".blocks.current"@
}

/// The path of the sidecar beside the checkpoint at `resume_path`.
pub open spec fn block_path(style: PathStyle, resume_path: Seq<char>) -> Seq<char> {
    let name = match file_name_of(style, resume_path) {
        Some(name) => name,
        None => "transfer.resume.current"@,
    };
    renamed_path(style, resume_path, block_file_name(name))
}

/// The files that the sidecar of the checkpoint at `resume_path` rotates through.
pub fn block_generation_paths(style: PathStyle, resume_path: &str) -> (paths: GenerationPaths)
    ensures
        paths.current@ == block_path(style, resume_path@),
        paths.previous@ == generation_base(block_path(style, resume_path@)) + ".previous"@,
        paths.pending@ == generation_base(block_path(style, resume_path@)) + ".pending"@,
{
    let current_name: String = match file_name(style, resume_path) {
        Some(name) => name,
        None => "transfer.resume.current".to_owned(),
    };
    let block_name: String = match strip_suffix(current_name.as_str(), ".resume.current") {
        Some(head) => joined(head.as_str(), ".blocks.current"),
        None => match strip_suffix(current_name.as_str(), ".resume") {
            Some(head) => joined(head.as_str(), ".blocks.current"),
            None => match strip_suffix(current_name.as_str(), ".current") {
                Some(head) => joined(head.as_str(), ".blocks.current"),
                None => joined(current_name.as_str(), ".blocks.current"),
            },
        },
    };
    generation_paths(with_file_name(style, resume_path, block_name.as_str()).as_str())
}

/// A stored file that could not be used, and why.
#[derive(Debug, Clone, PartialEq, Eq)]
pub struct InvalidCheckpointCandidate {
    pub path: String,
    pub error: String,
}

/// What came of reading one of the files that a sidecar rotates through.
#[derive(Debug, Clone, PartialEq, Eq)]
pub enum SidecarRead {
    /// There is no such file.
    Missing,
    /// The file could not be read.
    Failed(String),
    /// The bytes of the file.
    Bytes(Vec<u8>),
}

/// The sidecar that was chosen among the stored files.
#[derive(Debug, Clone)]
pub struct BlockHashSelection {
    pub manifest: Option<BlockHashManifest>,
    pub selected_path: Option<String>,
    pub encoded_size: usize,
    pub invalid_candidates: Vec<InvalidCheckpointCandidate>,
}

/// What a sidecar must be to be chosen.
#[derive(Debug, Clone, Copy)]
pub struct SidecarExpectation {
    pub transfer_id: [u8; 16],
    pub generation: u64,
    /// The bindings, digest and key of a sidecar that has to be authentic.
    pub authentication: Option<SidecarAuthentication>,
}

/// What an authentic sidecar must be bound to.
#[derive(Debug, Clone, Copy)]
pub struct SidecarAuthentication {
    pub invitation_id: [u8; 16],
    pub part_identity_digest: [u8; 32],
    pub sidecar_digest: [u8; 32],
    pub checkpoint_key: [u8; 32],
}

impl SidecarExpectation {
    /// Why a manifest is not the expected one, if it is not.
    pub open spec fn objection(self, manifest: BlockHashManifest) -> Option<Seq<char>> {
        if manifest.transfer_id@ != self.transfer_id@ || manifest.checkpoint_generation
            != self.generation {
            Some("block-hash-generation-mismatch"@)
        } else {
            match self.authentication {
                None => None,
                Some(required) => {
                    let distrust = manifest.distrust(
                        required.checkpoint_key@,
                        required.invitation_id@,
                        required.part_identity_digest@,
                    );
                    if distrust is Some {
                        distrust
                    } else if sha256_digest(manifest.stored_bytes())@ != required.sidecar_digest@ {
                        Some("checkpoint-authentication-failed"@)
                    } else {
                        None
                    }
                },
            }
        }
    }

    /// Checks that a manifest is the expected one.
    fn check(&self, manifest: &BlockHashManifest) -> (result: Result<(), String>)
        ensures
            match result {
                Ok(()) => self.objection(*manifest) is None,
                Err(error) => self.objection(*manifest) == Some(error@),
            },
    {
        if !bytes_equal(&manifest.transfer_id, &self.transfer_id)
            || manifest.checkpoint_generation != self.generation {
            return Err("block-hash-generation-mismatch".to_owned());
        }
        match &self.authentication {
            None => Ok(()),
            Some(required) => {
                match manifest.verify_security(
                    &required.checkpoint_key,
                    &required.invitation_id,
                    &required.part_identity_digest,
                ) {
                    Ok(()) => {},
                    Err(error) => return Err(error),
                }
                match manifest.authenticated_digest() {
                    Ok(digest) => if bytes_equal(&digest, &required.sidecar_digest) {
                        Ok(())
                    } else {
                        Err("checkpoint-authentication-failed".to_owned())
                    },
                    Err(error) => Err(error),
                }
            },
        }
    }

    /// Whether a stored file is the file of an expected manifest.
    pub open spec fn accepts(self, read: SidecarRead) -> bool {
        read matches SidecarRead::Bytes(bytes) && exists|manifest: BlockHashManifest| #[trigger]
            is_file_of(bytes@, manifest) && manifest.defect() is None && self.objection(manifest)
                is None
    }

    /// Whether `error` is why a stored file is not used.
    pub open spec fn refuses(self, read: SidecarRead, error: Seq<char>) -> bool {
        match read {
            SidecarRead::Missing => false,
            SidecarRead::Failed(reason) => error == if self.authentication is Some {
                "block-hash-sidecar-read-failed"@
            } else {
                "block-hash-sidecar-read-failed: "@ + reason@
            },
            SidecarRead::Bytes(bytes) => {
                ||| error == "block-hash-sidecar-corrupt"@ && forall|manifest: BlockHashManifest|
                    !#[trigger] is_file_of(bytes@, manifest)
                ||| exists|manifest: BlockHashManifest| #[trigger]
                    is_file_of(bytes@, manifest) && (manifest.defect() == Some(error) || (
                    manifest.defect() is None && self.objection(manifest) == Some(error)))
            },
        }
    }
}

/// How a stored file was judged.
enum Judgement {
    Absent,
    Valid(BlockHashManifest, usize),
    Invalid(String),
}

fn judge(read: &SidecarRead, expected: &SidecarExpectation) -> (judgement: Judgement)
    ensures
        match judgement {
            Judgement::Absent => read is Missing,
            Judgement::Valid(manifest, size) => {
                &&& read matches SidecarRead::Bytes(bytes)
                &&& is_file_of(bytes@, manifest)
                &&& manifest.defect() is None
                &&& expected.objection(manifest) is None
                &&& size == bytes@.len()
            },
            Judgement::Invalid(error) => expected.refuses(*read, error@),
        },
{
    match read {
        SidecarRead::Missing => Judgement::Absent,
        SidecarRead::Failed(reason) => if expected.authentication.is_some() {
            Judgement::Invalid("block-hash-sidecar-read-failed".to_owned())
        } else {
            Judgement::Invalid(joined("block-hash-sidecar-read-failed: ", reason.as_str()))
        },
        SidecarRead::Bytes(bytes) => match decode(bytes.as_slice()) {
            Ok(manifest) => match expected.check(&manifest) {
                Ok(()) => Judgement::Valid(manifest, bytes.len()),
                Err(error) => Judgement::Invalid(error),
            },
            Err(error) => Judgement::Invalid(error),
        },
    }
}

/// Whether `selection` is what the stored files give. The files stand in the order in which
/// they are preferred: the first one that holds an expected manifest is chosen, and every other
/// one that exists and cannot be used is reported with the reason.
pub open spec fn is_selection(
    selection: BlockHashSelection,
    reads: Seq<(String, SidecarRead)>,
    expected: SidecarExpectation,
) -> bool {
    &&& selection.manifest is Some == selection.selected_path is Some
    &&& selection.manifest matches Some(manifest) ==> exists|i: int|
        0 <= i < reads.len() && selection.selected_path->0@ == (#[trigger] reads[i]).0@ && (
        reads[i].1 matches SidecarRead::Bytes(bytes) && is_file_of(bytes@, manifest)
            && selection.encoded_size == bytes@.len()) && manifest.defect() is None
            && expected.objection(manifest) is None && forall|j: int|
            0 <= j < i ==> !expected.accepts((#[trigger] reads[j]).1)
    &&& selection.manifest is None ==> selection.encoded_size == 0 && forall|i: int|
        0 <= i < reads.len() ==> !expected.accepts((#[trigger] reads[i]).1)
    &&& lists_refused(selection.invalid_candidates@, reads, expected, reads.len())
}

/// Whether a file exists and cannot be used.
pub open spec fn is_refused(read: SidecarRead, expected: SidecarExpectation) -> bool {
    !(read is Missing) && !expected.accepts(read)
}

/// Whether the list holds, in their order, exactly those of the first `n` files that exist and
/// cannot be used, each with the reason.
pub open spec fn lists_refused(
    listed: Seq<InvalidCheckpointCandidate>,
    reads: Seq<(String, SidecarRead)>,
    expected: SidecarExpectation,
    n: nat,
) -> bool {
    &&& listed.len() == invalid_count(reads, expected, n)
    &&& forall|i: int|
        0 <= i < n && is_refused((#[trigger] reads[i]).1, expected) ==> {
            let candidate = listed[invalid_count(reads, expected, i as nat) as int];
            &&& invalid_count(reads, expected, i as nat) < listed.len()
            &&& candidate.path@ == reads[i].0@
            &&& expected.refuses(reads[i].1, candidate.error@)
        }
}

/// Chooses a sidecar of the given generation. The files are given in the order in which they
/// are preferred: current, pending, previous.
pub fn load_for_generation(
    reads: &Vec<(String, SidecarRead)>,
    transfer_id: &[u8; 16],
    generation: u64,
) -> (selection: BlockHashSelection)
    ensures
        is_selection(
            selection,
            reads@,
            (SidecarExpectation { transfer_id: *transfer_id, generation, authentication: None }),
        ),
{
    select_sidecar(
        reads,
        &SidecarExpectation { transfer_id: *transfer_id, generation, authentication: None },
    )
}

/// Chooses a sidecar of the given generation that is bound to the invitation and the partial
/// file, carries a valid tag and has the digest that the checkpoint names.
pub fn load_for_generation_authenticated(
    reads: &Vec<(String, SidecarRead)>,
    transfer_id: &[u8; 16],
    invitation_id: &[u8; 16],
    generation: u64,
    part_identity_digest: &[u8; 32],
    expected_sidecar_digest: &[u8; 32],
    checkpoint_key: &[u8; 32],
) -> (selection: BlockHashSelection)
    ensures
        is_selection(
            selection,
            reads@,
            (SidecarExpectation {
                transfer_id: *transfer_id,
                generation,
                authentication: Some(
                    SidecarAuthentication {
                        invitation_id: *invitation_id,
                        part_identity_digest: *part_identity_digest,
                        sidecar_digest: *expected_sidecar_digest,
                        checkpoint_key: *checkpoint_key,
                    },
                ),
            }),
        ),
{
    select_sidecar(
        reads,
        &SidecarExpectation {
            transfer_id: *transfer_id,
            generation,
            authentication: Some(
                SidecarAuthentication {
                    invitation_id: *invitation_id,
                    part_identity_digest: *part_identity_digest,
                    sidecar_digest: *expected_sidecar_digest,
                    checkpoint_key: *checkpoint_key,
                },
            ),
        },
    )
}

fn select_sidecar(
    reads: &Vec<(String, SidecarRead)>,
    expected: &SidecarExpectation,
) -> (selection: BlockHashSelection)
    ensures
        is_selection(selection, reads@, *expected),
{
    let mut manifest: Option<BlockHashManifest> = None;
    let mut selected_path: Option<String> = None;
    let mut encoded_size: usize = 0;
    let mut invalid_candidates: Vec<InvalidCheckpointCandidate> = Vec::new();
    let mut index: usize = 0;
    while index < reads.len()
        invariant
            index <= reads.len(),
            manifest is Some == selected_path is Some,
            manifest matches Some(chosen) ==> exists|i: int|
                0 <= i < index && selected_path->0@ == (#[trigger] reads@[i]).0@ && (
                reads@[i].1 matches SidecarRead::Bytes(bytes) && is_file_of(bytes@, chosen)
                    && encoded_size == bytes@.len()) && chosen.defect() is None
                    && expected.objection(chosen) is None && forall|j: int|
                    0 <= j < i ==> !expected.accepts((#[trigger] reads@[j]).1),
            manifest is None ==> encoded_size == 0 && forall|i: int|
                0 <= i < index ==> !expected.accepts((#[trigger] reads@[i]).1),
            lists_refused(invalid_candidates@, reads@, *expected, index as nat),
        decreases reads.len() - index,
    {
        let ghost listed = invalid_candidates@;
        match judge(&reads[index].1, expected) {
            Judgement::Absent => {},
            Judgement::Valid(found, size) => {
                assert(expected.accepts(reads@[index as int].1));
                if manifest.is_none() {
                    manifest = Some(found);
                    selected_path = Some(reads[index].0.clone());
                    encoded_size = size;
                }
            },
            Judgement::Invalid(error) => {
                proof {
                    lemma_refused_is_not_accepted(*expected, reads@[index as int].1, error@);
                }
                invalid_candidates.push(
                    InvalidCheckpointCandidate { path: reads[index].0.clone(), error },
                );
                proof {
                    assert forall|i: int|
                        0 <= i < index && is_refused((#[trigger] reads@[i]).1, *expected) implies
                        invalid_candidates@[invalid_count(reads@, *expected, i as nat) as int]
                        == listed[invalid_count(reads@, *expected, i as nat) as int] by {}
                }
            },
        }
        index += 1;
    }
    BlockHashSelection { manifest, selected_path, encoded_size, invalid_candidates }
}

/// How many of the first `n` files exist and cannot be used.
pub open spec fn invalid_count(
    reads: Seq<(String, SidecarRead)>,
    expected: SidecarExpectation,
    n: nat,
) -> nat
    decreases n,
{
    if n == 0 {
        0
    } else {
        invalid_count(reads, expected, (n - 1) as nat) + if is_refused(reads[n - 1].1, expected) {
            1nat
        } else {
            0nat
        }
    }
}

/// A file is never both used and refused.
pub proof fn lemma_refused_is_not_accepted(
    expected: SidecarExpectation,
    read: SidecarRead,
    error: Seq<char>,
)
    requires
        expected.refuses(read, error),
    ensures
        !expected.accepts(read),
{
    if expected.accepts(read) {
        let bytes = read->Bytes_0;
        let good = choose|manifest: BlockHashManifest| #[trigger]
            is_file_of(bytes@, manifest) && manifest.defect() is None && expected.objection(
                manifest,
            ) is None;
        let bad = choose|manifest: BlockHashManifest| #[trigger]
            is_file_of(bytes@, manifest) && (manifest.defect() == Some(error) || (manifest.defect()
                is None && expected.objection(manifest) == Some(error)));
        crate::framing::law_frame_determines_payload(
            BLOCK_HASH_MAGIC@,
            good.stored_bytes(),
            bad.stored_bytes(),
        );
        law_stored_bytes_determine_manifest(good, bad);
        assert(good.has_layout() == bad.has_layout());
        assert(good.payload() == bad.payload());
    }
}

} // verus!
