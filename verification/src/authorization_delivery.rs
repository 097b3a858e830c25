//! Packages that carry a receiver's certificate to the sender, and an invitation with its
//! secret to the receiver.

use crate::authorization::{
    saturating_sum, AuthorizationMaterial, SecureInvitation, SecurityPolicy, TransferMasterSecret,
};
use crate::bytes::{
    append, append_u16, append_u32, append_u64, be_bytes, be_value, bytes_equal, copy_of, read_16,
    read_32, read_u16, read_u32, read_u64,
};
use crate::crypto::{random_16, sha256, sha256_digest, wipe};
use crate::encoding::{
    base64url_bytes, base64url_decode, base64url_encode, base64url_text, hex, hex_text,
    lemma_base64url_bytes, lemma_base64url_size, uuid_from_random, uuid_string, uuid_text,
};
use crate::text::{append_text, joined};
use vstd::prelude::*;

verus! {

/// The letters `FQNATIVEBOOT0004`.
pub const BOOTSTRAP_MAGIC: [u8; 16] = [
    0x46, 0x51, 0x4e, 0x41, 0x54, 0x49, 0x56, 0x45, 0x42, 0x4f, 0x4f, 0x54, 0x30, 0x30, 0x30, 0x34,
];

/// The letters `FQNATIVEINVITE04`.
pub const INVITATION_PACKAGE_MAGIC: [u8; 16] = [
    0x46, 0x51, 0x4e, 0x41, 0x54, 0x49, 0x56, 0x45, 0x49, 0x4e, 0x56, 0x49, 0x54, 0x45, 0x30, 0x34,
];

pub const BOOTSTRAP_FORMAT_VERSION: u16 = 1;

pub const AUTHORIZATION_DELIVERY_VERSION: u16 = 4;

pub const MANUAL_PACKAGE_FLAG: u16 = 1;

pub const SENDER_ROLE: u8 = 1;

pub const RECEIVER_ROLE: u8 = 2;

pub const MAX_BOOTSTRAP_BYTES: usize = 8192;

pub const MAX_INVITATION_PACKAGE_BYTES: usize = 8192;

pub const MAX_CERTIFICATE_BYTES: usize = 4096;

pub const MAX_MANUAL_PACKAGE_LIFETIME_MS: u64 = 900_000;

pub const MANUAL_PACKAGE_POSSESSION_WARNING: &'static str =
    "Possession of this high-entropy one-time package authorizes one FlowShare native transfer. Share it only with the intended receiver.";

/// A certificate made for one transfer, with its key and its SHA-256 fingerprint.
pub struct EphemeralIdentity {
    pub certificate: Vec<u8>,
    pub private_key: Vec<u8>,
    pub fingerprint_sha256_bytes: [u8; 32],
}

pub struct PreparedReceiverBootstrap {
    pub bootstrap_id: [u8; 16],
    pub encoded_package: String,
    pub certificate_fingerprint_sha256: [u8; 32],
    pub expires_unix_ms: u64,
    pub identity: EphemeralIdentity,
}

#[derive(Debug)]
pub struct DecodedReceiverBootstrap {
    pub bootstrap_id: [u8; 16],
    pub certificate: Vec<u8>,
    pub certificate_fingerprint_sha256: [u8; 32],
    pub created_unix_ms: u64,
    pub expires_unix_ms: u64,
}

pub struct DecodedManualInvitationPackage {
    pub material: AuthorizationMaterial,
    pub package_digest_sha256: [u8; 32],
    pub created_unix_ms: u64,
    pub expires_unix_ms: u64,
    pub receiver_certificate_fingerprint_sha256: [u8; 32],
}

#[derive(Debug)]
pub struct ManualInvitationPackageInspection {
    pub format: &'static str,
    pub authorization_delivery_version: u16,
    pub secure_protocol_version: u16,
    pub transfer_id: String,
    pub invitation_id: String,
    pub expires_unix_ms: u64,
    pub receiver_certificate_fingerprint_sha256: String,
    pub possession_warning: &'static str,
    pub contains_high_entropy_one_time_secret: bool,
    pub contains_path_or_filename: bool,
}

/// Reads a package from its start to its end.
pub struct Reader<'a> {
    bytes: &'a [u8],
    cursor: usize,
}

impl<'a> Reader<'a> {
    /// The whole package.
    pub closed spec fn bytes(self) -> Seq<u8> {
        self.bytes@
    }

    /// How much of it was read.
    pub closed spec fn position(self) -> int {
        self.cursor as int
    }

    /// The position lies within the package.
    pub closed spec fn wf(self) -> bool {
        self.cursor <= self.bytes.len()
    }

    /// Whether a read of `length` bytes took the reader from `self` to `after`, or failed for
    /// want of bytes.
    pub open spec fn advances(self, after: Self, length: int, succeeded: bool) -> bool {
        &&& after.wf()
        &&& after.bytes() == self.bytes()
        &&& succeeded == (self.position() + length <= self.bytes().len())
        &&& after.position() == if succeeded {
            self.position() + length
        } else {
            self.position()
        }
    }

    /// The next `length` bytes.
    pub open spec fn next_bytes(self, length: int) -> Seq<u8> {
        self.bytes().subrange(self.position(), self.position() + length)
    }

    pub fn new(bytes: &'a [u8]) -> (reader: Self)
        ensures
            reader.wf(),
            reader.bytes() == bytes@,
            reader.position() == 0,
    {
        Reader { bytes, cursor: 0 }
    }

    pub fn take(&mut self, length: usize) -> (result: Result<&'a [u8], String>)
        requires
            old(self).wf(),
        ensures
            old(self).advances(*final(self), length as int, result is Ok),
            result matches Ok(taken) ==> taken@ == old(self).next_bytes(length as int),
            result matches Err(error) ==> error@ == "native-authorization-package-invalid"@,
    {
        if length > self.bytes.len() - self.cursor {
            return Err("native-authorization-package-invalid".to_owned());
        }
        let end: usize = self.cursor + length;
        let taken: &'a [u8] = &self.bytes[self.cursor..end];
        self.cursor = end;
        Ok(taken)
    }

    pub fn take_16(&mut self) -> (result: Result<[u8; 16], String>)
        requires
            old(self).wf(),
        ensures
            old(self).advances(*final(self), 16, result is Ok),
            result matches Ok(taken) ==> taken@ == old(self).next_bytes(16),
            result matches Err(error) ==> error@ == "native-authorization-package-invalid"@,
    {
        match self.take(16) {
            Ok(taken) => {
                let value = read_16(taken, 0);
                assert(taken@.subrange(0, 16) =~= taken@);
                Ok(value)
            },
            Err(error) => Err(error),
        }
    }

    pub fn take_32(&mut self) -> (result: Result<[u8; 32], String>)
        requires
            old(self).wf(),
        ensures
            old(self).advances(*final(self), 32, result is Ok),
            result matches Ok(taken) ==> taken@ == old(self).next_bytes(32),
            result matches Err(error) ==> error@ == "native-authorization-package-invalid"@,
    {
        match self.take(32) {
            Ok(taken) => {
                let value = read_32(taken, 0);
                assert(taken@.subrange(0, 32) =~= taken@);
                Ok(value)
            },
            Err(error) => Err(error),
        }
    }

    pub fn u8(&mut self) -> (result: Result<u8, String>)
        requires
            old(self).wf(),
        ensures
            old(self).advances(*final(self), 1, result is Ok),
            result matches Ok(value) ==> value == old(self).bytes()[old(self).position()],
            result matches Err(error) ==> error@ == "native-authorization-package-invalid"@,
    {
        match self.take(1) {
            Ok(taken) => Ok(taken[0]),
            Err(error) => Err(error),
        }
    }

    pub fn u16(&mut self) -> (result: Result<u16, String>)
        requires
            old(self).wf(),
        ensures
            old(self).advances(*final(self), 2, result is Ok),
            result matches Ok(value) ==> value == be_value(old(self).next_bytes(2)),
            result matches Err(error) ==> error@ == "native-authorization-package-invalid"@,
    {
        match self.take(2) {
            Ok(taken) => {
                let value: u16 = read_u16(taken, 0);
                assert(taken@.subrange(0, 2) =~= taken@);
                Ok(value)
            },
            Err(error) => Err(error),
        }
    }

    pub fn u32(&mut self) -> (result: Result<u32, String>)
        requires
            old(self).wf(),
        ensures
            old(self).advances(*final(self), 4, result is Ok),
            result matches Ok(value) ==> value == be_value(old(self).next_bytes(4)),
            result matches Err(error) ==> error@ == "native-authorization-package-invalid"@,
    {
        match self.take(4) {
            Ok(taken) => {
                let value: u32 = read_u32(taken, 0);
                assert(taken@.subrange(0, 4) =~= taken@);
                Ok(value)
            },
            Err(error) => Err(error),
        }
    }

    pub fn u64(&mut self) -> (result: Result<u64, String>)
        requires
            old(self).wf(),
        ensures
            old(self).advances(*final(self), 8, result is Ok),
            result matches Ok(value) ==> value == be_value(old(self).next_bytes(8)),
            result matches Err(error) ==> error@ == "native-authorization-package-invalid"@,
    {
        match self.take(8) {
            Ok(taken) => {
                let value: u64 = read_u64(taken, 0);
                assert(taken@.subrange(0, 8) =~= taken@);
                Ok(value)
            },
            Err(error) => Err(error),
        }
    }

    pub fn finish(self) -> (result: Result<(), String>)
        ensures
            result is Ok == (self.position() == self.bytes().len()),
            result matches Err(error) ==> error@ == "native-authorization-package-trailing-bytes"@,
    {
        if self.cursor != self.bytes.len() {
            return Err("native-authorization-package-trailing-bytes".to_owned());
        }
        Ok(())
    }
}

/// Whether a package made at `created` that ends at `expires` is in its time at `now`, give or
/// take `skew` milliseconds.
pub open spec fn in_time_window(created: u64, expires: u64, now: u64, skew: u64) -> bool {
    &&& created < expires
    &&& expires - created <= MAX_MANUAL_PACKAGE_LIFETIME_MS
    &&& created <= saturating_sum(now, skew)
    &&& now <= saturating_sum(expires, skew)
}

/// Checks that a package is in its time.
pub fn validate_time_window(created: u64, expires: u64, now: u64, skew: u64) -> (result: Result<
    (),
    String,
>)
    ensures
        match result {
            Ok(()) => in_time_window(created, expires, now, skew),
            Err(error) => !in_time_window(created, expires, now, skew) && error@
                == "native-authorization-package-expired"@,
        },
{
    if expires <= created || expires - created > MAX_MANUAL_PACKAGE_LIFETIME_MS || created
        > now.saturating_add(skew) || expires.saturating_add(skew) < now {
        return Err("native-authorization-package-expired".to_owned());
    }
    Ok(())
}

/// What stands in a package that was sent as text of at most twice `maximum` bytes, or why
/// nothing does.
pub open spec fn bounded_bytes(encoded: Seq<char>, maximum: nat, prefix: Seq<char>) -> Result<
    Seq<u8>,
    Seq<char>,
> {
    let length = vstd::utf8::encode_utf8(encoded).len();
    if length == 0 || length > 2 * maximum {
        Err(prefix + "-oversized"@)
    } else {
        match base64url_bytes(encoded) {
            None => Err(prefix + "-malformed"@),
            Some(bytes) => if bytes.len() == 0 || bytes.len() > maximum {
                Err(prefix + "-oversized"@)
            } else {
                Ok(bytes)
            },
        }
    }
}

fn decode_bounded(encoded: &str, maximum: usize, prefix: &str) -> (result: Result<Vec<u8>, String>)
    requires
        maximum <= 8192,
    ensures
        match result {
            Ok(bytes) => bounded_bytes(encoded@, maximum as nat, prefix@) == Ok::<
                Seq<u8>,
                Seq<char>,
            >(bytes@),
            Err(error) => bounded_bytes(encoded@, maximum as nat, prefix@) == Err::<
                Seq<u8>,
                Seq<char>,
            >(error@),
        },
{
    let length: usize = encoded.as_bytes().len();
    if length == 0 || length > maximum * 2 {
        return Err(joined(prefix, "-oversized"));
    }
    match base64url_decode(encoded) {
        None => Err(joined(prefix, "-malformed")),
        Some(bytes) => {
            proof {
                lemma_base64url_bytes(bytes@);
            }
            if bytes.len() == 0 || bytes.len() > maximum {
                return Err(joined(prefix, "-oversized"));
            }
            Ok(bytes)
        },
    }
}

/// `body` followed by its SHA-256 digest.
pub open spec fn checksummed(body: Seq<u8>) -> Seq<u8> {
    body + sha256_digest(body)@
}

fn append_checksum(bytes: &mut Vec<u8>)
    ensures
        final(bytes)@ == checksummed(old(bytes)@),
{
    let checksum: [u8; 32] = sha256(bytes.as_slice());
    append(bytes, &checksum);
}

/// The body of a package whose last 32 bytes are the digest of the rest.
pub open spec fn checked_body(bytes: Seq<u8>) -> Option<Seq<u8>> {
    if bytes.len() >= 32 && bytes == checksummed(bytes.take(bytes.len() - 32)) {
        Some(bytes.take(bytes.len() - 32))
    } else {
        None
    }
}

fn verify_checksum<'a>(bytes: &'a [u8]) -> (body: Option<&'a [u8]>)
    ensures
        match body {
            Some(checked) => checked_body(bytes@) == Some(checked@),
            None => checked_body(bytes@) is None,
        },
{
    if bytes.len() < 32 {
        return None;
    }
    let cut: usize = bytes.len() - 32;
    let body: &'a [u8] = &bytes[0..cut];
    let checksum: &[u8] = &bytes[cut..bytes.len()];
    let digest: [u8; 32] = sha256(body);
    assert(body@ =~= bytes@.take(cut as int));
    if !bytes_equal(&digest, checksum) {
        assert(checksummed(body@).skip(cut as int) =~= digest@);
        assert(bytes@.skip(cut as int) =~= checksum@);
        return None;
    }
    assert(bytes@ =~= checksummed(body@));
    Some(body)
}

/// The bytes from `at` on, `length` of them.
pub open spec fn field(body: Seq<u8>, at: int, length: int) -> Seq<u8> {
    body.subrange(at, at + length)
}

/// The number in big-endian form that stands at `at`.
pub open spec fn number(body: Seq<u8>, at: int, length: int) -> nat {
    be_value(field(body, at, length))
}

/// The bytes of a receiver's bootstrap, without the checksum.
pub open spec fn bootstrap_body(
    secure_version: u16,
    id: Seq<u8>,
    created: u64,
    expires: u64,
    fingerprint: Seq<u8>,
    certificate: Seq<u8>,
    nonce: Seq<u8>,
) -> Seq<u8> {
    BOOTSTRAP_MAGIC@ + be_bytes(BOOTSTRAP_FORMAT_VERSION as nat, 2) + be_bytes(
        secure_version as nat,
        2,
    ) + id + be_bytes(created as nat, 8) + be_bytes(expires as nat, 8) + fingerprint + be_bytes(
        certificate.len(),
        2,
    ) + certificate + nonce
}

/// Why the body of a receiver's bootstrap is refused, if it is.
pub open spec fn bootstrap_defect(body: Seq<u8>, policy: SecurityPolicy, now: u64) -> Option<
    Seq<char>,
> {
    let short = Some("native-authorization-package-invalid"@);
    let version = Some("native-receiver-bootstrap-version-unsupported"@);
    let length = number(body, 84, 2) as int;
    if body.len() < 16 {
        short
    } else if field(body, 0, 16) != BOOTSTRAP_MAGIC@ {
        version
    } else if body.len() < 18 {
        short
    } else if number(body, 16, 2) != BOOTSTRAP_FORMAT_VERSION {
        version
    } else if body.len() < 20 {
        short
    } else if number(body, 18, 2) != policy.protocol_version {
        version
    } else if body.len() < 86 {
        short
    } else if length == 0 || length > MAX_CERTIFICATE_BYTES {
        Some("native-receiver-bootstrap-certificate-invalid"@)
    } else if body.len() < 118 + length {
        short
    } else if body.len() > 118 + length {
        Some("native-authorization-package-trailing-bytes"@)
    } else if !in_time_window(
        number(body, 36, 8) as u64,
        number(body, 44, 8) as u64,
        now,
        policy.allowed_clock_skew_ms,
    ) {
        Some("native-authorization-package-expired"@)
    } else if sha256_digest(field(body, 86, length))@ != field(body, 52, 32) {
        Some("native-receiver-bootstrap-certificate-invalid"@)
    } else {
        None
    }
}

/// Whether a decoded bootstrap says what the body says.
pub open spec fn bootstrap_reads(bootstrap: DecodedReceiverBootstrap, body: Seq<u8>) -> bool {
    &&& bootstrap.bootstrap_id@ == field(body, 20, 16)
    &&& bootstrap.created_unix_ms == number(body, 36, 8)
    &&& bootstrap.expires_unix_ms == number(body, 44, 8)
    &&& bootstrap.certificate_fingerprint_sha256@ == field(body, 52, 32)
    &&& bootstrap.certificate@ == field(body, 86, number(body, 84, 2) as int)
}

fn read_bootstrap_body(body: &[u8], policy: &SecurityPolicy, now: u64) -> (result: Result<
    DecodedReceiverBootstrap,
    String,
>)
    ensures
        match result {
            Ok(bootstrap) => bootstrap_defect(body@, *policy, now) is None && bootstrap_reads(
                bootstrap,
                body@,
            ),
            Err(error) => bootstrap_defect(body@, *policy, now) == Some(error@),
        },
{
    let mut reader: Reader = Reader::new(body);
    let magic: [u8; 16] = match reader.take_16() {
        Ok(value) => value,
        Err(error) => return Err(error),
    };
    if !bytes_equal(&magic, &BOOTSTRAP_MAGIC) {
        return Err("native-receiver-bootstrap-version-unsupported".to_owned());
    }
    let format: u16 = match reader.u16() {
        Ok(value) => value,
        Err(error) => return Err(error),
    };
    if format != BOOTSTRAP_FORMAT_VERSION {
        return Err("native-receiver-bootstrap-version-unsupported".to_owned());
    }
    let secure_version: u16 = match reader.u16() {
        Ok(value) => value,
        Err(error) => return Err(error),
    };
    if secure_version != policy.protocol_version {
        return Err("native-receiver-bootstrap-version-unsupported".to_owned());
    }
    let bootstrap_id: [u8; 16] = match reader.take_16() {
        Ok(value) => value,
        Err(error) => return Err(error),
    };
    let created_unix_ms: u64 = match reader.u64() {
        Ok(value) => value,
        Err(error) => return Err(error),
    };
    let expires_unix_ms: u64 = match reader.u64() {
        Ok(value) => value,
        Err(error) => return Err(error),
    };
    let certificate_fingerprint_sha256: [u8; 32] = match reader.take_32() {
        Ok(value) => value,
        Err(error) => return Err(error),
    };
    let certificate_length: usize = match reader.u16() {
        Ok(value) => value as usize,
        Err(error) => return Err(error),
    };
    if certificate_length == 0 || certificate_length > MAX_CERTIFICATE_BYTES {
        return Err("native-receiver-bootstrap-certificate-invalid".to_owned());
    }
    let certificate: &[u8] = match reader.take(certificate_length) {
        Ok(value) => value,
        Err(error) => return Err(error),
    };
    match reader.take_32() {
        Ok(_) => {},
        Err(error) => return Err(error),
    }
    match reader.finish() {
        Ok(()) => {},
        Err(error) => return Err(error),
    }
    match validate_time_window(
        created_unix_ms,
        expires_unix_ms,
        now,
        policy.allowed_clock_skew_ms,
    ) {
        Ok(()) => {},
        Err(error) => return Err(error),
    }
    let digest: [u8; 32] = sha256(certificate);
    if !bytes_equal(&digest, &certificate_fingerprint_sha256) {
        return Err("native-receiver-bootstrap-certificate-invalid".to_owned());
    }
    Ok(
        DecodedReceiverBootstrap {
            bootstrap_id,
            certificate: copy_of(certificate),
            certificate_fingerprint_sha256,
            created_unix_ms,
            expires_unix_ms,
        },
    )
}

/// Why the text of a receiver's bootstrap is refused, if it is.
pub open spec fn bootstrap_text_defect(encoded: Seq<char>, policy: SecurityPolicy, now: u64) -> Option<
    Seq<char>,
> {
    match bounded_bytes(encoded, MAX_BOOTSTRAP_BYTES as nat, "native-receiver-bootstrap"@) {
        Err(error) => Some(error),
        Ok(bytes) => match checked_body(bytes) {
            None => Some("native-receiver-bootstrap-invalid"@),
            Some(body) => bootstrap_defect(body, policy, now),
        },
    }
}

/// Reads the bootstrap that a receiver sent, and checks that it is complete, in its time, and
/// that its certificate has the fingerprint that it names.
pub fn decode_receiver_bootstrap(encoded: &str, policy: &SecurityPolicy, now: u64) -> (result:
    Result<DecodedReceiverBootstrap, String>)
    ensures
        match result {
            Ok(bootstrap) => bootstrap_text_defect(encoded@, *policy, now) is None
                && bootstrap_reads(
                bootstrap,
                checked_body(base64url_bytes(encoded@)->Some_0)->Some_0,
            ),
            Err(error) => bootstrap_text_defect(encoded@, *policy, now) == Some(error@),
        },
{
    match decode_bounded(encoded, MAX_BOOTSTRAP_BYTES, "native-receiver-bootstrap") {
        Err(error) => Err(error),
        Ok(bytes) => match verify_checksum(bytes.as_slice()) {
            None => Err("native-receiver-bootstrap-invalid".to_owned()),
            Some(body) => read_bootstrap_body(body, policy, now),
        },
    }
}

/// When a package that is made at `created` for `lifetime_ms` milliseconds ends, if it may be
/// made at all.
pub open spec fn package_end(created: u64, lifetime_ms: u128) -> Option<u64> {
    if lifetime_ms == 0 || lifetime_ms > MAX_MANUAL_PACKAGE_LIFETIME_MS || created + lifetime_ms
        > u64::MAX {
        None
    } else {
        Some((created + lifetime_ms) as u64)
    }
}

fn end_of_package(created: u64, lifetime_ms: u128) -> (end: Option<u64>)
    ensures
        end == package_end(created, lifetime_ms),
{
    if lifetime_ms == 0 || lifetime_ms > MAX_MANUAL_PACKAGE_LIFETIME_MS as u128 {
        return None;
    }
    created.checked_add(lifetime_ms as u64)
}

/// Why no bootstrap can be packed, if none can.
pub open spec fn bootstrap_packing_defect(
    certificate: Seq<u8>,
    created: u64,
    lifetime_ms: u128,
) -> Option<Seq<char>> {
    if package_end(created, lifetime_ms) is None {
        Some("native-receiver-bootstrap-lifetime-invalid"@)
    } else if certificate.len() == 0 || certificate.len() > MAX_CERTIFICATE_BYTES {
        Some("native-receiver-bootstrap-certificate-invalid"@)
    } else {
        None
    }
}

/// Checks that a bootstrap can be packed, and says when it ends.
fn check_bootstrap_packing(certificate: &Vec<u8>, created: u64, lifetime_ms: u128) -> (result:
    Result<u64, String>)
    ensures
        match result {
            Ok(end) => bootstrap_packing_defect(certificate@, created, lifetime_ms) is None && Some(
                end,
            ) == package_end(created, lifetime_ms),
            Err(error) => bootstrap_packing_defect(certificate@, created, lifetime_ms) == Some(
                error@,
            ),
        },
{
    let end: u64 = match end_of_package(created, lifetime_ms) {
        Some(end) => end,
        None => return Err("native-receiver-bootstrap-lifetime-invalid".to_owned()),
    };
    if certificate.len() == 0 || certificate.len() > MAX_CERTIFICATE_BYTES {
        return Err("native-receiver-bootstrap-certificate-invalid".to_owned());
    }
    Ok(end)
}

/// Packs the certificate of an identity for the sender, under the given identifier and nonce.
pub fn build_receiver_bootstrap(
    identity: EphemeralIdentity,
    bootstrap_id: [u8; 16],
    nonce: &[u8; 32],
    created_unix_ms: u64,
    lifetime_ms: u128,
    policy: &SecurityPolicy,
) -> (result: Result<PreparedReceiverBootstrap, String>)
    ensures
        match result {
            Ok(bootstrap) => {
                &&& bootstrap_packing_defect(
                    identity.certificate@,
                    created_unix_ms,
                    lifetime_ms,
                ) is None
                &&& Some(bootstrap.expires_unix_ms) == package_end(created_unix_ms, lifetime_ms)
                &&& bootstrap.bootstrap_id == bootstrap_id
                &&& bootstrap.identity == identity
                &&& bootstrap.certificate_fingerprint_sha256 == identity.fingerprint_sha256_bytes
                &&& bootstrap.encoded_package@ == base64url_text(
                    checksummed(
                        bootstrap_body(
                            policy.protocol_version,
                            bootstrap_id@,
                            created_unix_ms,
                            bootstrap.expires_unix_ms,
                            identity.fingerprint_sha256_bytes@,
                            identity.certificate@,
                            nonce@,
                        ),
                    ),
                )
            },
            Err(error) => bootstrap_packing_defect(
                identity.certificate@,
                created_unix_ms,
                lifetime_ms,
            ) == Some(error@),
        },
{
    let expires_unix_ms: u64 = match check_bootstrap_packing(
        &identity.certificate,
        created_unix_ms,
        lifetime_ms,
    ) {
        Ok(end) => end,
        Err(error) => return Err(error),
    };
    let length: usize = identity.certificate.len();
    let mut package: Vec<u8> = copy_of(&BOOTSTRAP_MAGIC);
    append_u16(&mut package, BOOTSTRAP_FORMAT_VERSION);
    append_u16(&mut package, policy.protocol_version);
    append(&mut package, &bootstrap_id);
    append_u64(&mut package, created_unix_ms);
    append_u64(&mut package, expires_unix_ms);
    append(&mut package, &identity.fingerprint_sha256_bytes);
    append_u16(&mut package, length as u16);
    append(&mut package, identity.certificate.as_slice());
    append(&mut package, nonce);
    append_checksum(&mut package);
    Ok(
        PreparedReceiverBootstrap {
            bootstrap_id,
            encoded_package: base64url_encode(package.as_slice()),
            certificate_fingerprint_sha256: identity.fingerprint_sha256_bytes,
            expires_unix_ms,
            identity,
        },
    )
}

/// The 32 bytes of two halves that were drawn one after the other, if both could be drawn.
pub fn join_halves(first: Option<[u8; 16]>, second: Option<[u8; 16]>) -> (bytes: Option<[u8; 32]>)
    ensures
        match (first, second) {
            (Some(left), Some(right)) => bytes matches Some(value) && value@ == left@ + right@,
            _ => bytes is None,
        },
{
    match (first, second) {
        (Some(left), Some(right)) => {
            let mut joined_bytes: Vec<u8> = copy_of(&left);
            append(&mut joined_bytes, &right);
            let value: [u8; 32] = read_32(joined_bytes.as_slice(), 0);
            assert(joined_bytes@.subrange(0, 32) =~= joined_bytes@);
            Some(value)
        },
        _ => None,
    }
}

/// 32 random bytes, where the generator works: two draws of 16 bytes, joined by `join_halves`.
/// Nothing is known of the bytes, nor of when the generator fails.
fn random_32() -> (bytes: Option<[u8; 32]>)
{
    let first: Option<[u8; 16]> = random_16();
    let second: Option<[u8; 16]> = random_16();
    join_halves(first, second)
}

/// A random identifier, where the generator works. It carries the marks of a random
/// identifier.
pub fn random_id() -> (id: Option<[u8; 16]>)
    ensures
        id matches Some(value) ==> value@[6] / 16 == 4 && value@[8] / 64 == 2,
{
    match random_16() {
        Some(random) => Some(uuid_from_random(random)),
        None => None,
    }
}

/// Packs the certificate of an identity for the sender, under a fresh identifier. A package
/// that comes out is one of `build_receiver_bootstrap` for some identifier and nonce. What can be
/// refused is refused before anything is drawn, so an error about randomness comes only where
/// nothing else is wrong and the generator fails.
pub fn prepare_receiver_bootstrap(
    identity: EphemeralIdentity,
    created_unix_ms: u64,
    lifetime_ms: u128,
    policy: &SecurityPolicy,
) -> (result: Result<PreparedReceiverBootstrap, String>)
    ensures
        match result {
            Ok(bootstrap) => {
                &&& bootstrap_packing_defect(
                    identity.certificate@,
                    created_unix_ms,
                    lifetime_ms,
                ) is None
                &&& bootstrap.bootstrap_id@[6] / 16 == 4 && bootstrap.bootstrap_id@[8] / 64 == 2
                &&& Some(bootstrap.expires_unix_ms) == package_end(created_unix_ms, lifetime_ms)
                &&& bootstrap.identity == identity
                &&& bootstrap.certificate_fingerprint_sha256 == identity.fingerprint_sha256_bytes
                &&& exists|nonce: [u8; 32]|
                    bootstrap.encoded_package@ == base64url_text(
                        checksummed(
                            #[trigger] bootstrap_body(
                                policy.protocol_version,
                                bootstrap.bootstrap_id@,
                                created_unix_ms,
                                bootstrap.expires_unix_ms,
                                identity.fingerprint_sha256_bytes@,
                                identity.certificate@,
                                nonce@,
                            ),
                        ),
                    )
            },
            Err(error) => match bootstrap_packing_defect(
                identity.certificate@,
                created_unix_ms,
                lifetime_ms,
            ) {
                Some(defect) => error@ == defect,
                None => error@ == "native-randomness-unavailable"@,
            },
        },
{
    match check_bootstrap_packing(&identity.certificate, created_unix_ms, lifetime_ms) {
        Ok(_) => {},
        Err(error) => return Err(error),
    }
    match (random_id(), random_32()) {
        (Some(bootstrap_id), Some(nonce)) => build_receiver_bootstrap(
            identity,
            bootstrap_id,
            &nonce,
            created_unix_ms,
            lifetime_ms,
            policy,
        ),
        _ => Err("native-randomness-unavailable".to_owned()),
    }
}

/// The bytes of an invitation package, without the checksum.
pub open spec fn package_body(
    secure_version: u16,
    created: u64,
    expires: u64,
    material: AuthorizationMaterial,
    nonce: Seq<u8>,
) -> Seq<u8> {
    let body = material.invitation.body;
    INVITATION_PACKAGE_MAGIC@ + be_bytes(AUTHORIZATION_DELIVERY_VERSION as nat, 2) + be_bytes(
        MANUAL_PACKAGE_FLAG as nat,
        2,
    ) + be_bytes(secure_version as nat, 2) + be_bytes(created as nat, 8) + be_bytes(
        expires as nat,
        8,
    ) + seq![SENDER_ROLE, RECEIVER_ROLE] + body.invitation_id@ + body.transfer_id@
        + body.server_certificate_fingerprint@ + body.capability_digest@ + nonce + be_bytes(
        material.invitation.encoded@.len(),
        4,
    ) + material.invitation.encoded@ + material.master.bytes@
}

/// Why the part of an invitation package up to the invitation is refused, if it is.
pub open spec fn package_head_defect(body: Seq<u8>, policy: SecurityPolicy) -> Option<Seq<char>> {
    let short = Some("native-authorization-package-invalid"@);
    let length = number(body, 168, 4) as int;
    if body.len() < 16 {
        short
    } else if field(body, 0, 16) != INVITATION_PACKAGE_MAGIC@ {
        Some("native-manual-package-version-unsupported"@)
    } else if body.len() < 18 {
        short
    } else if number(body, 16, 2) != AUTHORIZATION_DELIVERY_VERSION {
        Some("native-manual-package-version-unsupported"@)
    } else if body.len() < 20 {
        short
    } else if number(body, 18, 2) != MANUAL_PACKAGE_FLAG {
        Some("native-manual-package-flags-invalid"@)
    } else if body.len() < 22 {
        short
    } else if number(body, 20, 2) != policy.protocol_version {
        Some("native-manual-package-flags-invalid"@)
    } else if body.len() < 39 {
        short
    } else if body[38] != SENDER_ROLE {
        Some("native-manual-package-role-invalid"@)
    } else if body.len() < 40 {
        short
    } else if body[39] != RECEIVER_ROLE {
        Some("native-manual-package-role-invalid"@)
    } else if body.len() < 172 {
        short
    } else if length == 0 || length > policy.max_invitation_bytes {
        Some("native-manual-package-invitation-invalid"@)
    } else if body.len() < 172 + length {
        short
    } else {
        None
    }
}

/// The fields of an invitation package up to the invitation.
struct PackageHead<'a> {
    created_unix_ms: u64,
    expires_unix_ms: u64,
    invitation_id: [u8; 16],
    transfer_id: [u8; 16],
    fingerprint: [u8; 32],
    capability_digest: [u8; 32],
    invitation: &'a [u8],
}

spec fn head_reads(head: PackageHead, body: Seq<u8>) -> bool {
    &&& head.created_unix_ms == number(body, 22, 8)
    &&& head.expires_unix_ms == number(body, 30, 8)
    &&& head.invitation_id@ == field(body, 40, 16)
    &&& head.transfer_id@ == field(body, 56, 16)
    &&& head.fingerprint@ == field(body, 72, 32)
    &&& head.capability_digest@ == field(body, 104, 32)
    &&& head.invitation@ == field(body, 172, number(body, 168, 4) as int)
}

fn read_package_head<'a>(reader: &mut Reader<'a>, policy: &SecurityPolicy) -> (result: Result<
    PackageHead<'a>,
    String,
>)
    requires
        old(reader).wf(),
        old(reader).position() == 0,
    ensures
        final(reader).wf(),
        final(reader).bytes() == old(reader).bytes(),
        match result {
            Ok(head) => {
                &&& package_head_defect(old(reader).bytes(), *policy) is None
                &&& head_reads(head, old(reader).bytes())
                &&& final(reader).position() == 172 + number(old(reader).bytes(), 168, 4)
            },
            Err(error) => package_head_defect(old(reader).bytes(), *policy) == Some(error@),
        },
{
    let magic: [u8; 16] = match reader.take_16() {
        Ok(value) => value,
        Err(error) => return Err(error),
    };
    if !bytes_equal(&magic, &INVITATION_PACKAGE_MAGIC) {
        return Err("native-manual-package-version-unsupported".to_owned());
    }
    let version: u16 = match reader.u16() {
        Ok(value) => value,
        Err(error) => return Err(error),
    };
    if version != AUTHORIZATION_DELIVERY_VERSION {
        return Err("native-manual-package-version-unsupported".to_owned());
    }
    let flag: u16 = match reader.u16() {
        Ok(value) => value,
        Err(error) => return Err(error),
    };
    if flag != MANUAL_PACKAGE_FLAG {
        return Err("native-manual-package-flags-invalid".to_owned());
    }
    let secure_version: u16 = match reader.u16() {
        Ok(value) => value,
        Err(error) => return Err(error),
    };
    if secure_version != policy.protocol_version {
        return Err("native-manual-package-flags-invalid".to_owned());
    }
    let created_unix_ms: u64 = match reader.u64() {
        Ok(value) => value,
        Err(error) => return Err(error),
    };
    let expires_unix_ms: u64 = match reader.u64() {
        Ok(value) => value,
        Err(error) => return Err(error),
    };
    let sender: u8 = match reader.u8() {
        Ok(value) => value,
        Err(error) => return Err(error),
    };
    if sender != SENDER_ROLE {
        return Err("native-manual-package-role-invalid".to_owned());
    }
    let receiver: u8 = match reader.u8() {
        Ok(value) => value,
        Err(error) => return Err(error),
    };
    if receiver != RECEIVER_ROLE {
        return Err("native-manual-package-role-invalid".to_owned());
    }
    let invitation_id: [u8; 16] = match reader.take_16() {
        Ok(value) => value,
        Err(error) => return Err(error),
    };
    let transfer_id: [u8; 16] = match reader.take_16() {
        Ok(value) => value,
        Err(error) => return Err(error),
    };
    let fingerprint: [u8; 32] = match reader.take_32() {
        Ok(value) => value,
        Err(error) => return Err(error),
    };
    let capability_digest: [u8; 32] = match reader.take_32() {
        Ok(value) => value,
        Err(error) => return Err(error),
    };
    match reader.take_32() {
        Ok(_) => {},
        Err(error) => return Err(error),
    }
    let length: usize = match reader.u32() {
        Ok(value) => value as usize,
        Err(error) => return Err(error),
    };
    if length == 0 || length > policy.max_invitation_bytes {
        return Err("native-manual-package-invitation-invalid".to_owned());
    }
    let invitation: &'a [u8] = match reader.take(length) {
        Ok(value) => value,
        Err(error) => return Err(error),
    };
    Ok(
        PackageHead {
            created_unix_ms,
            expires_unix_ms,
            invitation_id,
            transfer_id,
            fingerprint,
            capability_digest,
            invitation,
        },
    )
}

/// The body of the invitation package in a text, or why there is none.
pub open spec fn package_in(encoded: Seq<char>) -> Result<Seq<u8>, Seq<char>> {
    match bounded_bytes(encoded, MAX_INVITATION_PACKAGE_BYTES as nat, "native-manual-package"@) {
        Err(error) => Err(error),
        Ok(bytes) => match checked_body(bytes) {
            None => Err("native-manual-package-invalid"@),
            Some(body) => Ok(body),
        },
    }
}

/// Where in an invitation package the invitation ends.
pub open spec fn invitation_end(body: Seq<u8>) -> int {
    172 + number(body, 168, 4) as int
}

/// The encoded invitation that an invitation package holds. What it says is decided by the
/// secure protocol; `decode_manual_invitation_package` takes the answer.
pub fn invitation_in_package(encoded: &str, policy: &SecurityPolicy) -> (result: Result<
    Vec<u8>,
    String,
>)
    ensures
        match package_in(encoded@) {
            Err(reason) => result matches Err(error) && error@ == reason,
            Ok(body) => match result {
                Ok(invitation) => package_head_defect(body, *policy) is None && invitation@
                    == field(body, 172, number(body, 168, 4) as int),
                Err(error) => package_head_defect(body, *policy) == Some(error@),
            },
        },
{
    let mut bytes: Vec<u8> = match decode_bounded(
        encoded,
        MAX_INVITATION_PACKAGE_BYTES,
        "native-manual-package",
    ) {
        Ok(bytes) => bytes,
        Err(error) => return Err(error),
    };
    let result = match verify_checksum(bytes.as_slice()) {
        None => Err("native-manual-package-invalid".to_owned()),
        Some(body) => {
            let mut reader: Reader = Reader::new(body);
            match read_package_head(&mut reader, policy) {
                Ok(head) => Ok(copy_of(head.invitation)),
                Err(error) => Err(error),
            }
        },
    };
    wipe(&mut bytes);
    result
}

/// Whether an invitation is the one that the fields of a package name.
pub open spec fn package_binds(body: Seq<u8>, invitation: SecureInvitation) -> bool {
    &&& invitation.body.invitation_id@ == field(body, 40, 16)
    &&& invitation.body.transfer_id@ == field(body, 56, 16)
    &&& invitation.body.server_certificate_fingerprint@ == field(body, 72, 32)
    &&& invitation.body.capability_digest@ == field(body, 104, 32)
    &&& number(body, 30, 8) <= invitation.body.expires_unix_ms
}

/// Why an invitation package is refused, if it is: `invitation` is what the secure protocol
/// reads from the invitation in it, and `verified` what it says of the invitation and the secret
/// at this time.
pub open spec fn package_defect(
    body: Seq<u8>,
    expected_receiver_certificate: Option<[u8; 32]>,
    invitation: Result<SecureInvitation, String>,
    verified: Result<(), String>,
    policy: SecurityPolicy,
    now: u64,
) -> Option<Seq<char>> {
    if package_head_defect(body, policy) is Some {
        package_head_defect(body, policy)
    } else {
        match invitation {
            Err(error) => Some(error@),
            Ok(decoded) => if body.len() < invitation_end(body) + 32 {
                Some("native-authorization-package-invalid"@)
            } else if body.len() > invitation_end(body) + 32 {
                Some("native-authorization-package-trailing-bytes"@)
            } else if !in_time_window(
                number(body, 22, 8) as u64,
                number(body, 30, 8) as u64,
                now,
                policy.allowed_clock_skew_ms,
            ) {
                Some("native-authorization-package-expired"@)
            } else if !package_binds(body, decoded) {
                Some("native-manual-package-binding-invalid"@)
            } else if expected_receiver_certificate matches Some(expected) && expected@ != field(
                body,
                72,
                32,
            ) {
                Some("native-manual-package-receiver-mismatch"@)
            } else {
                match verified {
                    Err(error) => Some(error@),
                    Ok(()) => None,
                }
            },
        }
    }
}

/// Whether a decoded package says what the body says.
pub open spec fn package_reads(
    package: DecodedManualInvitationPackage,
    body: Seq<u8>,
    invitation: SecureInvitation,
) -> bool {
    &&& package.material.invitation == invitation
    &&& package.material.master.bytes@ == field(body, invitation_end(body), 32)
    &&& package.package_digest_sha256 == sha256_digest(checksummed(body))
    &&& package.created_unix_ms == number(body, 22, 8)
    &&& package.expires_unix_ms == number(body, 30, 8)
    &&& package.receiver_certificate_fingerprint_sha256@ == field(body, 72, 32)
}

fn read_package_body(
    body: &[u8],
    package_digest_sha256: [u8; 32],
    expected_receiver_certificate: &Option<[u8; 32]>,
    invitation: Result<SecureInvitation, String>,
    verified: Result<(), String>,
    policy: &SecurityPolicy,
    now: u64,
) -> (result: Result<DecodedManualInvitationPackage, String>)
    requires
        package_digest_sha256 == sha256_digest(checksummed(body@)),
    ensures
        match result {
            Ok(package) => package_defect(
                body@,
                *expected_receiver_certificate,
                invitation,
                verified,
                *policy,
                now,
            ) is None && package_reads(package, body@, invitation->Ok_0),
            Err(error) => package_defect(
                body@,
                *expected_receiver_certificate,
                invitation,
                verified,
                *policy,
                now,
            ) == Some(error@),
        },
{
    let mut reader: Reader = Reader::new(body);
    let head: PackageHead = match read_package_head(&mut reader, policy) {
        Ok(head) => head,
        Err(error) => return Err(error),
    };
    let decoded: SecureInvitation = match invitation {
        Ok(decoded) => decoded,
        Err(error) => return Err(error),
    };
    let master: [u8; 32] = match reader.take_32() {
        Ok(value) => value,
        Err(error) => return Err(error),
    };
    match reader.finish() {
        Ok(()) => {},
        Err(error) => return Err(error),
    }
    match validate_time_window(
        head.created_unix_ms,
        head.expires_unix_ms,
        now,
        policy.allowed_clock_skew_ms,
    ) {
        Ok(()) => {},
        Err(error) => return Err(error),
    }
    if !bytes_equal(&decoded.body.invitation_id, &head.invitation_id) || !bytes_equal(
        &decoded.body.transfer_id,
        &head.transfer_id,
    ) || !bytes_equal(&decoded.body.server_certificate_fingerprint, &head.fingerprint)
        || !bytes_equal(&decoded.body.capability_digest, &head.capability_digest)
        || decoded.body.expires_unix_ms < head.expires_unix_ms {
        return Err("native-manual-package-binding-invalid".to_owned());
    }
    match expected_receiver_certificate {
        Some(expected) => {
            if !bytes_equal(expected, &head.fingerprint) {
                return Err("native-manual-package-receiver-mismatch".to_owned());
            }
        },
        None => {},
    }
    match verified {
        Ok(()) => {},
        Err(error) => return Err(error),
    }
    Ok(
        DecodedManualInvitationPackage {
            material: AuthorizationMaterial {
                invitation: decoded,
                master: TransferMasterSecret { bytes: master },
            },
            package_digest_sha256,
            created_unix_ms: head.created_unix_ms,
            expires_unix_ms: head.expires_unix_ms,
            receiver_certificate_fingerprint_sha256: head.fingerprint,
        },
    )
}

/// Reads an invitation package that the sender handed over. `invitation` is what the secure
/// protocol reads from the bytes that `invitation_in_package` gives, and `verified` whether it
/// accepts that invitation with the secret of the package at this time.
pub fn decode_manual_invitation_package(
    encoded: &str,
    expected_receiver_certificate: &Option<[u8; 32]>,
    invitation: Result<SecureInvitation, String>,
    verified: Result<(), String>,
    policy: &SecurityPolicy,
    now: u64,
) -> (result: Result<DecodedManualInvitationPackage, String>)
    ensures
        match package_in(encoded@) {
            Err(reason) => result matches Err(error) && error@ == reason,
            Ok(body) => match result {
                Ok(package) => package_defect(
                    body,
                    *expected_receiver_certificate,
                    invitation,
                    verified,
                    *policy,
                    now,
                ) is None && package_reads(package, body, invitation->Ok_0),
                Err(error) => package_defect(
                    body,
                    *expected_receiver_certificate,
                    invitation,
                    verified,
                    *policy,
                    now,
                ) == Some(error@),
            },
        },
{
    let mut bytes: Vec<u8> = match decode_bounded(
        encoded,
        MAX_INVITATION_PACKAGE_BYTES,
        "native-manual-package",
    ) {
        Ok(bytes) => bytes,
        Err(error) => return Err(error),
    };
    let digest: [u8; 32] = sha256(bytes.as_slice());
    let result = match verify_checksum(bytes.as_slice()) {
        None => Err("native-manual-package-invalid".to_owned()),
        Some(body) => read_package_body(
            body,
            digest,
            expected_receiver_certificate,
            invitation,
            verified,
            policy,
            now,
        ),
    };
    wipe(&mut bytes);
    result
}

/// Whether an inspection shows a package without its secret.
pub open spec fn package_shown(
    inspection: ManualInvitationPackageInspection,
    material: AuthorizationMaterial,
    expires_unix_ms: u64,
    policy: SecurityPolicy,
) -> bool {
    &&& inspection.format@ == "FQNATIVEINVITE04"@
    &&& inspection.authorization_delivery_version == AUTHORIZATION_DELIVERY_VERSION
    &&& inspection.secure_protocol_version == policy.protocol_version
    &&& inspection.transfer_id@ == uuid_text(material.invitation.body.transfer_id@)
    &&& inspection.invitation_id@ == uuid_text(material.invitation.body.invitation_id@)
    &&& inspection.expires_unix_ms == expires_unix_ms
    &&& inspection.receiver_certificate_fingerprint_sha256@ == hex_text(
        material.invitation.body.server_certificate_fingerprint@,
    )
    &&& inspection.possession_warning@ == MANUAL_PACKAGE_POSSESSION_WARNING@
    &&& inspection.contains_high_entropy_one_time_secret
    &&& !inspection.contains_path_or_filename
}

/// Shows a package without its secret.
pub fn inspect_manual_package(
    material: &AuthorizationMaterial,
    expires_unix_ms: u64,
    policy: &SecurityPolicy,
) -> (inspection: ManualInvitationPackageInspection)
    ensures
        package_shown(inspection, *material, expires_unix_ms, *policy),
{
    ManualInvitationPackageInspection {
        format: "FQNATIVEINVITE04",
        authorization_delivery_version: AUTHORIZATION_DELIVERY_VERSION,
        secure_protocol_version: policy.protocol_version,
        transfer_id: uuid_string(&material.invitation.body.transfer_id),
        invitation_id: uuid_string(&material.invitation.body.invitation_id),
        expires_unix_ms,
        receiver_certificate_fingerprint_sha256: hex(
            &material.invitation.body.server_certificate_fingerprint,
        ),
        possession_warning: MANUAL_PACKAGE_POSSESSION_WARNING,
        contains_high_entropy_one_time_secret: true,
        contains_path_or_filename: false,
    }
}

/// When an invitation package ends: with its lifetime, or with the invitation if that is
/// earlier.
pub open spec fn invitation_package_end(
    material: AuthorizationMaterial,
    created: u64,
    lifetime_ms: u128,
) -> u64 {
    let end = package_end(created, lifetime_ms)->Some_0;
    if end <= material.invitation.body.expires_unix_ms {
        end
    } else {
        material.invitation.body.expires_unix_ms
    }
}

/// Why an invitation cannot be packed, if it cannot. `verified` is what the secure protocol says
/// of the invitation with its secret.
pub open spec fn invitation_packing_defect(
    material: AuthorizationMaterial,
    verified: Result<(), String>,
    created: u64,
    lifetime_ms: u128,
) -> Option<Seq<char>> {
    if package_end(created, lifetime_ms) is None {
        Some("native-manual-package-lifetime-invalid"@)
    } else if verified is Err {
        Some(verified->Err_0@)
    } else if material.invitation.encoded@.len() + 236 > MAX_INVITATION_PACKAGE_BYTES {
        Some("native-manual-package-oversized"@)
    } else {
        None
    }
}

/// Checks that an invitation can be packed, and says when the package ends.
fn check_invitation_packing(
    material: &AuthorizationMaterial,
    verified: &Result<(), String>,
    created: u64,
    lifetime_ms: u128,
) -> (result: Result<u64, String>)
    ensures
        match result {
            Ok(end) => invitation_packing_defect(*material, *verified, created, lifetime_ms) is None
                && end == invitation_package_end(*material, created, lifetime_ms),
            Err(error) => invitation_packing_defect(*material, *verified, created, lifetime_ms)
                == Some(error@),
        },
{
    let end: u64 = match end_of_package(created, lifetime_ms) {
        Some(end) => end,
        None => return Err("native-manual-package-lifetime-invalid".to_owned()),
    };
    match verified {
        Ok(()) => {},
        Err(error) => return Err(error.clone()),
    }
    if material.invitation.encoded.len() > MAX_INVITATION_PACKAGE_BYTES - 236 {
        return Err("native-manual-package-oversized".to_owned());
    }
    if end <= material.invitation.body.expires_unix_ms {
        Ok(end)
    } else {
        Ok(material.invitation.body.expires_unix_ms)
    }
}

/// Packs an invitation and its secret under the given nonce. `verified` is whether the secure
/// protocol accepts the invitation with its secret at this time.
pub fn build_manual_invitation_package(
    material: &AuthorizationMaterial,
    verified: Result<(), String>,
    nonce: &[u8; 32],
    created_unix_ms: u64,
    lifetime_ms: u128,
    policy: &SecurityPolicy,
) -> (result: Result<(String, ManualInvitationPackageInspection), String>)
    ensures
        ({
            let end = invitation_package_end(*material, created_unix_ms, lifetime_ms);
            let defect = invitation_packing_defect(
                *material,
                verified,
                created_unix_ms,
                lifetime_ms,
            );
            if defect is Some {
                result matches Err(error) && Some(error@) == defect
            } else {
                result matches Ok((encoded, inspection)) && encoded@ == base64url_text(
                    checksummed(
                        package_body(
                            policy.protocol_version,
                            created_unix_ms,
                            end,
                            *material,
                            nonce@,
                        ),
                    ),
                ) && package_shown(inspection, *material, end, *policy)
            }
        }),
{
    let expires_unix_ms: u64 = match check_invitation_packing(
        material,
        &verified,
        created_unix_ms,
        lifetime_ms,
    ) {
        Ok(end) => end,
        Err(error) => return Err(error),
    };
    let length: usize = material.invitation.encoded.len();
    let mut package: Vec<u8> = copy_of(&INVITATION_PACKAGE_MAGIC);
    append_u16(&mut package, AUTHORIZATION_DELIVERY_VERSION);
    append_u16(&mut package, MANUAL_PACKAGE_FLAG);
    append_u16(&mut package, policy.protocol_version);
    append_u64(&mut package, created_unix_ms);
    append_u64(&mut package, expires_unix_ms);
    append(&mut package, &[SENDER_ROLE, RECEIVER_ROLE]);
    append(&mut package, &material.invitation.body.invitation_id);
    append(&mut package, &material.invitation.body.transfer_id);
    append(&mut package, &material.invitation.body.server_certificate_fingerprint);
    append(&mut package, &material.invitation.body.capability_digest);
    append(&mut package, nonce);
    append_u32(&mut package, length as u32);
    append(&mut package, material.invitation.encoded.as_slice());
    append(&mut package, &material.master.bytes);
    proof {
        assert([SENDER_ROLE, RECEIVER_ROLE]@ =~= seq![SENDER_ROLE, RECEIVER_ROLE]);
        assert(package@ =~= package_body(
            policy.protocol_version,
            created_unix_ms,
            expires_unix_ms,
            *material,
            nonce@,
        ));
    }
    append_checksum(&mut package);
    let encoded: String = base64url_encode(package.as_slice());
    wipe(&mut package);
    let inspection = inspect_manual_package(material, expires_unix_ms, policy);
    Ok((encoded, inspection))
}

/// Packs an invitation and its secret under a fresh nonce. A package that comes out is one of
/// `build_manual_invitation_package` for some nonce. What can be refused is refused before
/// anything is drawn, so an error about randomness comes only where nothing else is wrong and the
/// generator fails.
pub fn export_manual_invitation_package(
    material: &AuthorizationMaterial,
    verified: Result<(), String>,
    created_unix_ms: u64,
    lifetime_ms: u128,
    policy: &SecurityPolicy,
) -> (result: Result<(String, ManualInvitationPackageInspection), String>)
    ensures
        ({
            let end = invitation_package_end(*material, created_unix_ms, lifetime_ms);
            let defect = invitation_packing_defect(
                *material,
                verified,
                created_unix_ms,
                lifetime_ms,
            );
            match result {
                Ok((encoded, inspection)) => {
                    &&& defect is None
                    &&& package_shown(inspection, *material, end, *policy)
                    &&& exists|nonce: [u8; 32]|
                        encoded@ == base64url_text(
                            checksummed(
                                #[trigger] package_body(
                                    policy.protocol_version,
                                    created_unix_ms,
                                    end,
                                    *material,
                                    nonce@,
                                ),
                            ),
                        )
                },
                Err(error) => match defect {
                    Some(reason) => error@ == reason,
                    None => error@ == "native-randomness-unavailable"@,
                },
            }
        }),
{
    match check_invitation_packing(material, &verified, created_unix_ms, lifetime_ms) {
        Ok(_) => {},
        Err(error) => return Err(error),
    }
    match random_32() {
        Some(nonce) => build_manual_invitation_package(
            material,
            verified,
            &nonce,
            created_unix_ms,
            lifetime_ms,
            policy,
        ),
        None => Err("native-randomness-unavailable".to_owned()),
    }
}

impl DecodedManualInvitationPackage {
    /// The text that stands for the package in reports. It does not hold the secret.
    pub fn describe(&self) -> (text: String)
        ensures
            text@ == "DecodedManualInvitationPackage { transfer_id: "@ + uuid_text(
                self.material.invitation.body.transfer_id@,
            ) + ", invitation_id: "@ + uuid_text(self.material.invitation.body.invitation_id@)
                + ", secret: \"[REDACTED]\" }"@,
    {
        let mut text: String = "DecodedManualInvitationPackage { transfer_id: ".to_owned();
        append_text(&mut text, uuid_string(&self.material.invitation.body.transfer_id).as_str());
        append_text(&mut text, ", invitation_id: ");
        append_text(
            &mut text,
            uuid_string(&self.material.invitation.body.invitation_id).as_str(),
        );
        append_text(&mut text, ", secret: \"[REDACTED]\" }");
        text
    }
}

proof fn lemma_checked_body(body: Seq<u8>)
    ensures
        checked_body(checksummed(body)) == Some(body),
{
    assert(checksummed(body).take(body.len() as int) =~= body);
}

proof fn lemma_bounded_package(body: Seq<u8>, maximum: nat, prefix: Seq<char>)
    requires
        body.len() + 32 <= maximum,
    ensures
        bounded_bytes(base64url_text(checksummed(body)), maximum, prefix) == Ok::<
            Seq<u8>,
            Seq<char>,
        >(checksummed(body)),
{
    lemma_base64url_bytes(checksummed(body));
    lemma_base64url_size(checksummed(body));
}

proof fn lemma_number(value: nat, length: nat)
    requires
        value < crate::bytes::byte_capacity(length),
    ensures
        be_bytes(value, length).len() == length,
        be_value(be_bytes(value, length)) == value,
{
    crate::bytes::lemma_be_bytes_len(value, length);
    crate::bytes::lemma_be_value_of_be_bytes(value, length);
}

/// The bootstrap that a receiver packs is read back as it was packed, at any moment of its
/// time, if its certificate has the fingerprint that it was packed with.
pub proof fn law_bootstrap_round_trip(
    policy: SecurityPolicy,
    id: [u8; 16],
    created: u64,
    lifetime_ms: u128,
    certificate: Seq<u8>,
    nonce: [u8; 32],
    now: u64,
)
    requires
        package_end(created, lifetime_ms) is Some,
        0 < certificate.len() <= MAX_CERTIFICATE_BYTES,
        created <= saturating_sum(now, policy.allowed_clock_skew_ms),
        now <= saturating_sum(
            package_end(created, lifetime_ms)->Some_0,
            policy.allowed_clock_skew_ms,
        ),
    ensures
        ({
            let expires = package_end(created, lifetime_ms)->Some_0;
            let body = bootstrap_body(
                policy.protocol_version,
                id@,
                created,
                expires,
                sha256_digest(certificate)@,
                certificate,
                nonce@,
            );
            let encoded = base64url_text(checksummed(body));
            &&& bootstrap_text_defect(encoded, policy, now) is None
            &&& checked_body(base64url_bytes(encoded)->Some_0) == Some(body)
            &&& field(body, 20, 16) == id@
            &&& number(body, 36, 8) == created
            &&& number(body, 44, 8) == expires
            &&& field(body, 52, 32) == sha256_digest(certificate)@
            &&& field(body, 86, number(body, 84, 2) as int) == certificate
        }),
{
    let expires = package_end(created, lifetime_ms)->Some_0;
    let fingerprint = sha256_digest(certificate)@;
    let body = bootstrap_body(
        policy.protocol_version,
        id@,
        created,
        expires,
        fingerprint,
        certificate,
        nonce@,
    );
    crate::bytes::lemma_capacities();
    lemma_number(BOOTSTRAP_FORMAT_VERSION as nat, 2);
    lemma_number(policy.protocol_version as nat, 2);
    lemma_number(created as nat, 8);
    lemma_number(expires as nat, 8);
    lemma_number(certificate.len(), 2);
    assert(body.len() == 118 + certificate.len());
    assert(field(body, 0, 16) =~= BOOTSTRAP_MAGIC@);
    assert(field(body, 16, 2) =~= be_bytes(BOOTSTRAP_FORMAT_VERSION as nat, 2));
    assert(field(body, 18, 2) =~= be_bytes(policy.protocol_version as nat, 2));
    assert(field(body, 20, 16) =~= id@);
    assert(field(body, 36, 8) =~= be_bytes(created as nat, 8));
    assert(field(body, 44, 8) =~= be_bytes(expires as nat, 8));
    assert(field(body, 52, 32) =~= fingerprint);
    assert(field(body, 84, 2) =~= be_bytes(certificate.len(), 2));
    assert(field(body, 86, certificate.len() as int) =~= certificate);
    lemma_checked_body(body);
    lemma_bounded_package(body, MAX_BOOTSTRAP_BYTES as nat, "native-receiver-bootstrap"@);
    lemma_base64url_bytes(checksummed(body));
}

/// The package that the sender makes of an invitation is read back with the same invitation
/// and secret, at any moment of its time, by the receiver that it was made for.
pub proof fn law_package_round_trip(
    policy: SecurityPolicy,
    material: AuthorizationMaterial,
    created: u64,
    lifetime_ms: u128,
    nonce: [u8; 32],
    now: u64,
)
    requires
        package_end(created, lifetime_ms) is Some,
        0 < material.invitation.encoded@.len() <= policy.max_invitation_bytes,
        material.invitation.encoded@.len() + 236 <= MAX_INVITATION_PACKAGE_BYTES,
        created < material.invitation.body.expires_unix_ms,
        created <= saturating_sum(now, policy.allowed_clock_skew_ms),
        now <= saturating_sum(
            invitation_package_end(material, created, lifetime_ms),
            policy.allowed_clock_skew_ms,
        ),
    ensures
        ({
            let expires = invitation_package_end(material, created, lifetime_ms);
            let body = package_body(policy.protocol_version, created, expires, material, nonce@);
            let receiver = Some(material.invitation.body.server_certificate_fingerprint);
            &&& package_in(base64url_text(checksummed(body))) == Ok::<Seq<u8>, Seq<char>>(body)
            &&& package_defect(
                body,
                receiver,
                Ok(material.invitation),
                Ok(()),
                policy,
                now,
            ) is None
            &&& field(body, 172, number(body, 168, 4) as int) == material.invitation.encoded@
            &&& field(body, invitation_end(body), 32) == material.master.bytes@
            &&& number(body, 22, 8) == created
            &&& number(body, 30, 8) == expires
        }),
{
    let expires = invitation_package_end(material, created, lifetime_ms);
    let body = package_body(policy.protocol_version, created, expires, material, nonce@);
    lemma_package_fields(policy.protocol_version, created, expires, material, nonce@);
    lemma_checked_body(body);
    lemma_bounded_package(body, MAX_INVITATION_PACKAGE_BYTES as nat, "native-manual-package"@);
}

/// Where the parts of a package stand.
pub proof fn lemma_package_fields(
    version: u16,
    created: u64,
    expires: u64,
    material: AuthorizationMaterial,
    nonce: Seq<u8>,
)
    requires
        nonce.len() == 32,
        material.invitation.encoded@.len() < 0x1_0000_0000,
    ensures
        ({
            let body = package_body(version, created, expires, material, nonce);
            let length = material.invitation.encoded@.len();
            &&& body.len() == 204 + length
            &&& field(body, 0, 16) == INVITATION_PACKAGE_MAGIC@
            &&& number(body, 16, 2) == AUTHORIZATION_DELIVERY_VERSION
            &&& number(body, 18, 2) == MANUAL_PACKAGE_FLAG
            &&& number(body, 20, 2) == version
            &&& number(body, 22, 8) == created
            &&& number(body, 30, 8) == expires
            &&& body[38] == SENDER_ROLE
            &&& body[39] == RECEIVER_ROLE
            &&& field(body, 40, 16) == material.invitation.body.invitation_id@
            &&& field(body, 56, 16) == material.invitation.body.transfer_id@
            &&& field(body, 72, 32) == material.invitation.body.server_certificate_fingerprint@
            &&& field(body, 104, 32) == material.invitation.body.capability_digest@
            &&& number(body, 168, 4) == length
            &&& field(body, 172, length as int) == material.invitation.encoded@
            &&& field(body, 172 + length as int, 32) == material.master.bytes@
        }),
{
    let body = package_body(version, created, expires, material, nonce);
    let length = material.invitation.encoded@.len();
    crate::bytes::lemma_capacities();
    lemma_number(AUTHORIZATION_DELIVERY_VERSION as nat, 2);
    lemma_number(MANUAL_PACKAGE_FLAG as nat, 2);
    lemma_number(version as nat, 2);
    lemma_number(created as nat, 8);
    lemma_number(expires as nat, 8);
    lemma_number(length, 4);
    assert(body.len() == 204 + length);
    assert(field(body, 0, 16) =~= INVITATION_PACKAGE_MAGIC@);
    assert(field(body, 16, 2) =~= be_bytes(AUTHORIZATION_DELIVERY_VERSION as nat, 2));
    assert(field(body, 18, 2) =~= be_bytes(MANUAL_PACKAGE_FLAG as nat, 2));
    assert(field(body, 20, 2) =~= be_bytes(version as nat, 2));
    assert(field(body, 22, 8) =~= be_bytes(created as nat, 8));
    assert(field(body, 30, 8) =~= be_bytes(expires as nat, 8));
    assert(field(body, 40, 16) =~= material.invitation.body.invitation_id@);
    assert(field(body, 56, 16) =~= material.invitation.body.transfer_id@);
    assert(field(body, 72, 32) =~= material.invitation.body.server_certificate_fingerprint@);
    assert(field(body, 104, 32) =~= material.invitation.body.capability_digest@);
    assert(field(body, 168, 4) =~= be_bytes(length, 4));
    assert(field(body, 172, length as int) =~= material.invitation.encoded@);
    assert(field(body, 172 + length as int, 32) =~= material.master.bytes@);
}

/// A package of which the body does not have the digest at its end is refused, whatever else
/// it holds.
pub proof fn law_altered_package_is_refused(bytes: Seq<u8>)
    requires
        32 <= bytes.len() <= MAX_INVITATION_PACKAGE_BYTES,
        sha256_digest(bytes.take(bytes.len() - 32))@ != bytes.skip(bytes.len() - 32),
    ensures
        package_in(base64url_text(bytes)) == Err::<Seq<u8>, Seq<char>>(
            "native-manual-package-invalid"@,
        ),
{
    lemma_base64url_bytes(bytes);
    lemma_base64url_size(bytes);
    let body = bytes.take(bytes.len() - 32);
    assert(checksummed(body).skip(bytes.len() - 32) =~= sha256_digest(body)@);
}

/// Once its time and the allowed clock difference are over, a package is refused, whatever the
/// secure protocol says of the invitation in it.
pub proof fn law_expired_package_is_refused(
    body: Seq<u8>,
    expected_receiver_certificate: Option<[u8; 32]>,
    invitation: Result<SecureInvitation, String>,
    verified: Result<(), String>,
    policy: SecurityPolicy,
    now: u64,
)
    requires
        body.len() >= 38,
        number(body, 30, 8) + policy.allowed_clock_skew_ms < now,
    ensures
        package_defect(
            body,
            expected_receiver_certificate,
            invitation,
            verified,
            policy,
            now,
        ) is Some,
{
    crate::bytes::lemma_capacities();
    crate::bytes::lemma_be_bytes_of_be_value(field(body, 30, 8));
}

/// A package whose certificate is not the receiver's own is refused.
pub proof fn law_package_for_another_receiver_is_refused(
    body: Seq<u8>,
    expected: [u8; 32],
    invitation: Result<SecureInvitation, String>,
    verified: Result<(), String>,
    policy: SecurityPolicy,
    now: u64,
)
    requires
        expected@ != field(body, 72, 32),
    ensures
        package_defect(body, Some(expected), invitation, verified, policy, now) is Some,
{
}

} // verus!
