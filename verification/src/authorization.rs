//! One-time invitations: who may claim a transfer, when, and how often.

use crate::bytes::{bytes_equal, copy_of};
use crate::crypto::constant_time_equal;
use crate::encoding::{
    base64url_encode, base64url_text, decode_hex_32, hex, hex_text, hex_value_32, parsed_uuid,
    uuid_parse, uuid_string, uuid_text,
};
use crate::lifecycle::TransferState;
use crate::registry::Registry;
use crate::text::same_text;
use vstd::prelude::*;

verus! {

pub const MAX_SECURITY_EVENTS: usize = 1024;

/// The values of the secure protocol that authorization depends on.
#[derive(Debug, Clone, Copy, PartialEq, Eq)]
pub struct SecurityPolicy {
    pub protocol_version: u16,
    pub allowed_clock_skew_ms: u64,
    pub default_invitation_lifetime_ms: u64,
    pub max_invitation_bytes: usize,
}

#[derive(Debug, Clone, Copy, PartialEq, Eq, Structural)]
pub enum InvitationState {
    Available,
    Claiming,
    Claimed,
    Active,
    Consumed,
    Expired,
    Revoked,
}

/// Whether a session starts a transfer or continues one.
#[derive(Debug, Clone, Copy, PartialEq, Eq, Structural)]
pub enum SecureSessionMode {
    NewTransfer,
    Resume,
}

/// What an invitation says.
#[derive(Debug, Clone, Copy, PartialEq, Eq)]
pub struct SecureInvitationBody {
    pub invitation_id: [u8; 16],
    pub transfer_id: [u8; 16],
    pub created_unix_ms: u64,
    pub expires_unix_ms: u64,
    pub server_certificate_fingerprint: [u8; 32],
    pub capability_digest: [u8; 32],
    pub allowed_file_count: u32,
    pub maximum_claim_count: u32,
}

/// An invitation together with its encoded and signed form.
#[derive(Debug, PartialEq, Eq)]
pub struct SecureInvitation {
    pub body: SecureInvitationBody,
    pub encoded: Vec<u8>,
}

impl SecureInvitation {
    /// Whether two invitations are the same.
    pub open spec fn same(self, other: Self) -> bool {
        self.body == other.body && self.encoded@ == other.encoded@
    }

    fn is_same(&self, other: &Self) -> (same: bool)
        ensures
            same == self.same(*other),
    {
        let same: bool = same_body(&self.body, &other.body) && bytes_equal(
            self.encoded.as_slice(),
            other.encoded.as_slice(),
        );
        same
    }
}

fn same_body(left: &SecureInvitationBody, right: &SecureInvitationBody) -> (same: bool)
    ensures
        same == (*left == *right),
{
    let same: bool = bytes_equal(&left.invitation_id, &right.invitation_id) && bytes_equal(
        &left.transfer_id,
        &right.transfer_id,
    ) && left.created_unix_ms == right.created_unix_ms && left.expires_unix_ms
        == right.expires_unix_ms && bytes_equal(
        &left.server_certificate_fingerprint,
        &right.server_certificate_fingerprint,
    ) && bytes_equal(&left.capability_digest, &right.capability_digest) && left.allowed_file_count
        == right.allowed_file_count && left.maximum_claim_count == right.maximum_claim_count;
    proof {
        if same {
            assert(left.invitation_id =~= right.invitation_id);
            assert(left.transfer_id =~= right.transfer_id);
            assert(left.server_certificate_fingerprint =~= right.server_certificate_fingerprint);
            assert(left.capability_digest =~= right.capability_digest);
        }
    }
    same
}

impl Clone for SecureInvitation {
    fn clone(&self) -> (copy: Self)
        ensures
            copy.same(*self),
    {
        SecureInvitation { body: self.body, encoded: copy_of(self.encoded.as_slice()) }
    }
}

/// The secret that all keys of a transfer are derived from.
#[derive(Clone, Copy, PartialEq, Eq)]
pub struct TransferMasterSecret {
    pub bytes: [u8; 32],
}

/// An invitation and the secret that goes with it.
pub struct AuthorizationMaterial {
    pub invitation: SecureInvitation,
    pub master: TransferMasterSecret,
}

impl AuthorizationMaterial {
    /// Whether two materials are the same.
    pub open spec fn same(self, other: Self) -> bool {
        self.invitation.same(other.invitation) && self.master == other.master
    }
}

impl Clone for AuthorizationMaterial {
    fn clone(&self) -> (copy: Self)
        ensures
            copy.same(*self),
    {
        AuthorizationMaterial { invitation: self.invitation.clone(), master: self.master }
    }
}

/// The authorization of one transfer.
pub struct AuthorizationRecord {
    pub invitation: SecureInvitation,
    pub master: TransferMasterSecret,
    pub state: InvitationState,
    pub active_session_id: Option<[u8; 16]>,
    pub last_session_id: Option<[u8; 16]>,
    pub used_authorization_ids: Vec<[u8; 16]>,
    pub used_session_ids: Vec<[u8; 16]>,
    pub normal_claim_completed: bool,
}

/// Whether an identifier stands in a list.
pub open spec fn listed(ids: Seq<[u8; 16]>, id: Seq<u8>) -> bool {
    exists|i: int| 0 <= i < ids.len() && (#[trigger] ids[i])@ == id
}

fn is_listed(ids: &Vec<[u8; 16]>, id: &[u8; 16]) -> (found: bool)
    ensures
        found == listed(ids@, id@),
{
    let mut index: usize = 0;
    while index < ids.len()
        invariant
            index <= ids.len(),
            forall|i: int| 0 <= i < index ==> (#[trigger] ids@[i])@ != id@,
        decreases ids.len() - index,
    {
        if bytes_equal(&ids[index], id) {
            assert(ids@[index as int]@ == id@);
            return true;
        }
        index += 1;
    }
    false
}

/// What came of installing an authorization.
#[derive(Debug, Clone, Copy, PartialEq, Eq, Structural)]
pub enum AuthorizationInstallOutcome {
    Inserted,
    Existing(InvitationState),
}

/// Remembers whether a restored authorization was new, so that the restore can be undone.
#[derive(Debug, Clone, Copy)]
pub struct PersistedAuthorizationRestoreLease {
    pub invitation_id: [u8; 16],
    pub inserted: bool,
}

/// What one session asks to be authorized for.
#[derive(Debug, Clone, Copy)]
pub struct SessionAuthorizationBody {
    pub authorization_id: [u8; 16],
    pub invitation_id: [u8; 16],
    pub session_id: [u8; 16],
    pub mode: SecureSessionMode,
    pub checkpoint_generation: u64,
    pub verified_state_digest: [u8; 32],
    pub transfer_commitment: [u8; 32],
    pub previous_session_digest: [u8; 32],
    pub certificate_fingerprint: [u8; 32],
    pub negotiated_capabilities: u64,
}

/// What the client needs to sign in order to open a session.
pub struct PreparedClientHandshake {
    pub material: AuthorizationMaterial,
    pub authorization: SessionAuthorizationBody,
}

/// What the server expects of the session that is about to be opened.
#[derive(Debug, Clone, Copy)]
pub struct ExpectedSession {
    pub session_id: [u8; 16],
    pub mode: SecureSessionMode,
    pub checkpoint_generation: u64,
    pub state_digest: [u8; 32],
    pub transfer_commitment: [u8; 32],
    pub previous_session_digest: [u8; 32],
    pub capabilities: u64,
    /// The digest that an invitation for these capabilities carries.
    pub capability_digest: [u8; 32],
}

/// A claim that was accepted, with what the handshake produced for it.
pub struct ServerClaim<T> {
    pub accepted: T,
    pub handle: ClaimHandle,
}

/// Names a claim that was accepted.
#[derive(Debug, Clone, Copy)]
pub struct ClaimHandle {
    pub invitation_id: [u8; 16],
    pub authorization_id: [u8; 16],
    pub session_id: [u8; 16],
    pub mode: SecureSessionMode,
}

/// An entry of the security log.
#[derive(Debug, Clone, PartialEq, Eq)]
pub struct SecurityEvent {
    pub event: &'static str,
    pub transfer_id: String,
    pub invitation_id: String,
    pub session_id: Option<String>,
    pub protocol_version: u16,
    pub reason_code: Option<String>,
    pub timestamp_unix_ms: u64,
    pub checkpoint_generation: Option<u64>,
    pub transcript_identifier: Option<String>,
}

/// What a log entry says.
pub struct EventFacts {
    pub name: Seq<char>,
    pub transfer_id: Seq<u8>,
    pub invitation_id: Seq<u8>,
    pub session_id: Option<[u8; 16]>,
    pub reason: Option<Seq<char>>,
    pub generation: Option<u64>,
    pub transcript: Option<Seq<char>>,
    pub protocol_version: u16,
    pub now: u64,
}

/// The text in an optional string.
pub open spec fn text_in(text: Option<String>) -> Option<Seq<char>> {
    match text {
        Some(value) => Some(value@),
        None => None,
    }
}

/// The hyphenated text of an optional identifier.
pub open spec fn id_text(id: Option<[u8; 16]>) -> Option<Seq<char>> {
    match id {
        Some(value) => Some(uuid_text(value@)),
        None => None,
    }
}

/// Whether a log entry says what `facts` say.
pub open spec fn describes(event: SecurityEvent, facts: EventFacts) -> bool {
    &&& event.event@ == facts.name
    &&& event.transfer_id@ == uuid_text(facts.transfer_id)
    &&& event.invitation_id@ == uuid_text(facts.invitation_id)
    &&& text_in(event.session_id) == id_text(facts.session_id)
    &&& event.protocol_version == facts.protocol_version
    &&& text_in(event.reason_code) == facts.reason
    &&& event.timestamp_unix_ms == facts.now
    &&& event.checkpoint_generation == facts.generation
    &&& text_in(event.transcript_identifier) == facts.transcript
}

/// The log after one more entry: the oldest one leaves a full log.
pub open spec fn logged(log: Seq<SecurityEvent>, event: SecurityEvent) -> Seq<SecurityEvent> {
    if log.len() == MAX_SECURITY_EVENTS {
        log.drop_first().push(event)
    } else {
        log.push(event)
    }
}

/// Whether `after` is the log `before` with an entry that says what `facts` say.
pub open spec fn log_grew(
    before: Seq<SecurityEvent>,
    after: Seq<SecurityEvent>,
    facts: EventFacts,
) -> bool {
    &&& after == logged(before, after.last())
    &&& describes(after.last(), facts)
}

/// The authorizations of this process and the log of what happened to them.
pub struct AuthorizationRegistry {
    records: Registry<[u8; 16], AuthorizationRecord>,
    events: Vec<SecurityEvent>,
    policy: SecurityPolicy,
}

/// Whether `id` is the invitation of the given transfer.
pub open spec fn invites_to(
    records: Map<Seq<u8>, AuthorizationRecord>,
    id: Seq<u8>,
    transfer_id: Seq<u8>,
) -> bool {
    records.contains_key(id) && records[id].invitation.body.transfer_id@ == transfer_id
}

/// The invitation of a transfer, if one is registered.
pub open spec fn invitation_for(
    records: Map<Seq<u8>, AuthorizationRecord>,
    transfer_id: Seq<u8>,
) -> Option<Seq<u8>> {
    if exists|id: Seq<u8>| invites_to(records, id, transfer_id) {
        Some(choose|id: Seq<u8>| invites_to(records, id, transfer_id))
    } else {
        None
    }
}

/// `value + increment`, or the largest value where that does not fit.
pub open spec fn saturating_sum(value: u64, increment: u64) -> u64 {
    if value + increment > u64::MAX {
        u64::MAX
    } else {
        (value + increment) as u64
    }
}

/// The record once the time is known: an available invitation past its time has expired.
pub open spec fn refreshed(
    record: AuthorizationRecord,
    policy: SecurityPolicy,
    now: u64,
) -> AuthorizationRecord {
    if record.state is Available && now > saturating_sum(
        record.invitation.body.expires_unix_ms,
        policy.allowed_clock_skew_ms,
    ) {
        AuthorizationRecord {
            state: InvitationState::Expired,
            active_session_id: None,
            ..record
        }
    } else {
        record
    }
}

impl AuthorizationRegistry {
    /// The registered authorizations by invitation.
    pub closed spec fn records(self) -> Map<Seq<u8>, AuthorizationRecord> {
        self.records@
    }

    /// The security log, oldest entry first.
    pub closed spec fn log(self) -> Seq<SecurityEvent> {
        self.events@
    }

    /// The values of the secure protocol that hold here.
    pub closed spec fn policy(self) -> SecurityPolicy {
        self.policy
    }

    /// The records are consistent, and the log is not longer than its limit.
    pub closed spec fn wf(self) -> bool {
        &&& self.records.wf()
        &&& consistent(self.records@)
        &&& self.events@.len() <= MAX_SECURITY_EVENTS
    }

    /// A registry without authorizations.
    pub fn new(policy: SecurityPolicy) -> (registry: Self)
        ensures
            registry.wf(),
            registry.records() == Map::<Seq<u8>, AuthorizationRecord>::empty(),
            registry.log() == Seq::<SecurityEvent>::empty(),
            registry.policy() == policy,
    {
        AuthorizationRegistry { records: Registry::new(), events: Vec::new(), policy }
    }

    fn find_transfer(&self, transfer_id: &[u8; 16]) -> (id: Option<[u8; 16]>)
        requires
            self.wf(),
        ensures
            match id {
                Some(invitation_id) => invitation_for(self.records(), transfer_id@) == Some(
                    invitation_id@,
                ) && self.records().contains_key(invitation_id@) && self.records()[invitation_id@]
                    .invitation.body.transfer_id@ == transfer_id@,
                None => invitation_for(self.records(), transfer_id@) is None,
            },
    {
        let mut index: usize = 0;
        let count: usize = self.records.len();
        proof {
            self.records.lemma_listing();
        }
        while index < count
            invariant
                self.wf(),
                index <= count,
                count == self.records.listing().len(),
                forall|i: int|
                    0 <= i < self.records.listing().len() ==> self.records@.contains_key(
                        (#[trigger] self.records.listing()[i]).0@,
                    ) && self.records@[self.records.listing()[i].0@]
                        == self.records.listing()[i].1,
                forall|i: int|
                    0 <= i < index ==> (
                    #[trigger] self.records.listing()[i]).1.invitation.body.transfer_id@
                        != transfer_id@,
            decreases count - index,
        {
            let entry = self.records.at(index);
            if bytes_equal(&entry.1.invitation.body.transfer_id, transfer_id) {
                let id: [u8; 16] = entry.0;
                proof {
                    assert(self.records.listing()[index as int] == *entry);
                    assert(invites_to(self.records@, id@, transfer_id@));
                    lemma_invitation_for(self.records@, id@, transfer_id@);
                }
                return Some(id);
            }
            index += 1;
        }
        proof {
            if invitation_for(self.records@, transfer_id@) is Some {
                let id = choose|id: Seq<u8>| invites_to(self.records@, id, transfer_id@);
                assert(self.records@.contains_key(id));
                let i = choose|i: int|
                    0 <= i < self.records.listing().len() && (
                    #[trigger] self.records.listing()[i]).0@ == id;
                assert(self.records@[self.records.listing()[i].0@] == self.records.listing()[i].1);
            }
        }
        None
    }

    fn take(&mut self, id: &[u8; 16]) -> (record: Option<AuthorizationRecord>)
        requires
            old(self).wf(),
        ensures
            final(self).wf(),
            final(self).records() == old(self).records().remove(id@),
            final(self).log() == old(self).log(),
            final(self).policy() == old(self).policy(),
            match record {
                Some(found) => old(self).records().contains_key(id@) && found
                    == old(self).records()[id@] && found.invitation.body.invitation_id@ == id@
                    && (found.state is Available ==> !found.normal_claim_completed)
                    && (forall|other: Seq<u8>| #[trigger]
                    final(self).records().contains_key(other) ==> final(self).records()[other]
                        .invitation.body.transfer_id@ != found.invitation.body.transfer_id@),
                None => !old(self).records().contains_key(id@) && *final(self) == *old(self),
            },
    {
        self.records.remove(id)
    }

    fn put(&mut self, id: [u8; 16], record: AuthorizationRecord)
        requires
            old(self).wf(),
            !old(self).records().contains_key(id@),
            record.invitation.body.invitation_id@ == id@,
            record.state is Available ==> !record.normal_claim_completed,
            forall|other: Seq<u8>| #[trigger]
                old(self).records().contains_key(other) ==> old(self).records()[other]
                    .invitation.body.transfer_id@ != record.invitation.body.transfer_id@,
        ensures
            final(self).wf(),
            final(self).records() == old(self).records().insert(id@, record),
            final(self).log() == old(self).log(),
            final(self).policy() == old(self).policy(),
    {
        self.records.insert(id, record);
    }

    /// Adds an entry to the log; the oldest one leaves a full log.
    fn push_event(&mut self, event: SecurityEvent)
        requires
            old(self).wf(),
        ensures
            final(self).wf(),
            final(self).records() == old(self).records(),
            final(self).policy() == old(self).policy(),
            final(self).log() == logged(old(self).log(), event),
    {
        if self.events.len() == MAX_SECURITY_EVENTS {
            let _oldest = self.events.remove(0);
            assert(self.events@ =~= old(self).events@.drop_first());
        }
        self.events.push(event);
    }

    fn event(
        &mut self,
        name: &'static str,
        transfer_id: &[u8; 16],
        invitation_id: &[u8; 16],
        session_id: Option<[u8; 16]>,
        reason: Option<String>,
        generation: Option<u64>,
        transcript_identifier: Option<String>,
        now: u64,
    )
        requires
            old(self).wf(),
        ensures
            final(self).wf(),
            final(self).records() == old(self).records(),
            final(self).policy() == old(self).policy(),
            log_grew(
                old(self).log(),
                final(self).log(),
                (EventFacts {
                    name: name@,
                    transfer_id: transfer_id@,
                    invitation_id: invitation_id@,
                    session_id,
                    reason: text_in(reason),
                    generation,
                    transcript: text_in(transcript_identifier),
                    protocol_version: old(self).policy().protocol_version,
                    now,
                }),
            ),
    {
        let session_text: Option<String> = match session_id {
            Some(id) => Some(uuid_string(&id)),
            None => None,
        };
        let entry = SecurityEvent {
            event: name,
            transfer_id: uuid_string(transfer_id),
            invitation_id: uuid_string(invitation_id),
            session_id: session_text,
            protocol_version: self.policy.protocol_version,
            reason_code: reason,
            timestamp_unix_ms: now,
            checkpoint_generation: generation,
            transcript_identifier,
        };
        self.push_event(entry);
    }
}

/// Every record stands under its own invitation, an available one was not claimed for good
/// before, and no transfer has two invitations.
pub open spec fn consistent(records: Map<Seq<u8>, AuthorizationRecord>) -> bool {
    &&& forall|id: Seq<u8>| #[trigger]
        records.contains_key(id) ==> records[id].invitation.body.invitation_id@ == id
    &&& forall|id: Seq<u8>| #[trigger]
        records.contains_key(id) ==> (records[id].state is Available
            ==> !records[id].normal_claim_completed)
    &&& forall|a: Seq<u8>, b: Seq<u8>| #[trigger]
        records.contains_key(a) && #[trigger] records.contains_key(b)
            && records[a].invitation.body.transfer_id@ == records[b].invitation.body.transfer_id@
            ==> a == b
}

proof fn lemma_invitation_for(
    records: Map<Seq<u8>, AuthorizationRecord>,
    id: Seq<u8>,
    transfer_id: Seq<u8>,
)
    requires
        consistent(records),
        invites_to(records, id, transfer_id),
    ensures
        invitation_for(records, transfer_id) == Some(id),
{
    let chosen = choose|other: Seq<u8>| invites_to(records, other, transfer_id);
    assert(invites_to(records, chosen, transfer_id));
    assert(records.contains_key(chosen) && records.contains_key(id));
}

fn refresh_expiration(record: &mut AuthorizationRecord, policy: &SecurityPolicy, now: u64)
    ensures
        *final(record) == refreshed(*old(record), *policy, now),
{
    let limit: u64 = record.invitation.body.expires_unix_ms.saturating_add(
        policy.allowed_clock_skew_ms,
    );
    if record.state == InvitationState::Available && now > limit {
        record.state = InvitationState::Expired;
        record.active_session_id = None;
    }
}

/// Whether a record is a new one for the given invitation.
pub open spec fn is_new_record(
    record: AuthorizationRecord,
    invitation: SecureInvitation,
    master: TransferMasterSecret,
    state: InvitationState,
) -> bool {
    &&& record.invitation == invitation
    &&& record.master == master
    &&& record.state == state
    &&& record.active_session_id is None
    &&& record.last_session_id is None
    &&& record.used_authorization_ids@ == Seq::<[u8; 16]>::empty()
    &&& record.used_session_ids@ == Seq::<[u8; 16]>::empty()
    &&& record.normal_claim_completed == (state != InvitationState::Available)
}

/// What installing an authorization comes to.
pub open spec fn install_outcome(
    records: Map<Seq<u8>, AuthorizationRecord>,
    invitation: SecureInvitation,
    master: TransferMasterSecret,
) -> Result<AuthorizationInstallOutcome, Seq<char>> {
    let id = invitation.body.invitation_id@;
    if records.contains_key(id) {
        if records[id].invitation.same(invitation) && records[id].master == master {
            Ok(AuthorizationInstallOutcome::Existing(records[id].state))
        } else {
            Err("authentication-failed"@)
        }
    } else if invitation_for(records, invitation.body.transfer_id@) is Some {
        Err("native-auth-transfer-already-registered"@)
    } else {
        Ok(AuthorizationInstallOutcome::Inserted)
    }
}

/// Registers an authorization whose invitation was checked against its secret with the result
/// `verified`. The same authorization may be installed again; another one under the same
/// invitation, or a second invitation for the same transfer, is refused.
pub fn install(
    registry: &mut AuthorizationRegistry,
    invitation: SecureInvitation,
    master: TransferMasterSecret,
    state: InvitationState,
    verified: Result<(), String>,
) -> (result: Result<AuthorizationInstallOutcome, String>)
    requires
        old(registry).wf(),
    ensures
        final(registry).wf(),
        final(registry).log() == old(registry).log(),
        final(registry).policy() == old(registry).policy(),
        match verified {
            Err(reason) => result == Err::<AuthorizationInstallOutcome, String>(reason) && *final(registry) == *old(registry),
            Ok(()) => match result {
                Ok(outcome) => {
                    &&& install_outcome(old(registry).records(), invitation, master) == Ok::<
                        AuthorizationInstallOutcome,
                        Seq<char>,
                    >(outcome)
                    &&& if outcome is Inserted {
                        &&& final(registry).records() == old(registry).records().insert(
                            invitation.body.invitation_id@,
                            final(registry).records()[invitation.body.invitation_id@],
                        )
                        &&& is_new_record(
                            final(registry).records()[invitation.body.invitation_id@],
                            invitation,
                            master,
                            state,
                        )
                    } else {
                        final(registry).records() == old(registry).records()
                    }
                },
                Err(error) => install_outcome(old(registry).records(), invitation, master) == Err::<
                    AuthorizationInstallOutcome,
                    Seq<char>,
                >(error@) && *final(registry) == *old(registry),
            },
        },
{
    match verified {
        Ok(()) => {},
        Err(reason) => return Err(reason),
    }
    match registry.records.get(&invitation.body.invitation_id) {
        Some(existing) => {
            if existing.invitation.is_same(&invitation) && constant_time_equal(
                &existing.master.bytes,
                &master.bytes,
            ) {
                assert(existing.master.bytes =~= master.bytes);
                return Ok(AuthorizationInstallOutcome::Existing(existing.state));
            }
            return Err("authentication-failed".to_owned());
        },
        None => {},
    }
    if registry.find_transfer(&invitation.body.transfer_id).is_some() {
        return Err("native-auth-transfer-already-registered".to_owned());
    }
    proof {
        assert forall|other: Seq<u8>| #[trigger]
            registry.records().contains_key(other) implies registry.records()[other]
            .invitation.body.transfer_id@ != invitation.body.transfer_id@ by {
            assert(!invites_to(registry.records(), other, invitation.body.transfer_id@));
        }
    }
    let id: [u8; 16] = invitation.body.invitation_id;
    let record = AuthorizationRecord {
        invitation,
        master,
        state,
        active_session_id: None,
        last_session_id: None,
        used_authorization_ids: Vec::new(),
        used_session_ids: Vec::new(),
        normal_claim_completed: state != InvitationState::Available,
    };
    registry.put(id, record);
    Ok(AuthorizationInstallOutcome::Inserted)
}

/// The facts of a log entry about an invitation.
pub open spec fn facts_of(
    name: Seq<char>,
    body: SecureInvitationBody,
    session_id: Option<[u8; 16]>,
    reason: Option<Seq<char>>,
    generation: Option<u64>,
    transcript: Option<Seq<char>>,
    policy: SecurityPolicy,
    now: u64,
) -> EventFacts {
    EventFacts {
        name,
        transfer_id: body.transfer_id@,
        invitation_id: body.invitation_id@,
        session_id,
        reason,
        generation,
        transcript,
        protocol_version: policy.protocol_version,
        now,
    }
}

/// Writes a rejected connection or message into the log.
pub fn record_security_rejection(
    registry: &mut AuthorizationRegistry,
    name: &'static str,
    transfer_id: [u8; 16],
    invitation_id: [u8; 16],
    session_id: Option<[u8; 16]>,
    reason: &str,
    generation: Option<u64>,
    now: u64,
)
    requires
        old(registry).wf(),
    ensures
        final(registry).wf(),
        final(registry).records() == old(registry).records(),
        final(registry).policy() == old(registry).policy(),
        log_grew(
            old(registry).log(),
            final(registry).log(),
            (EventFacts {
                name: name@,
                transfer_id: transfer_id@,
                invitation_id: invitation_id@,
                session_id,
                reason: Some(reason@),
                generation,
                transcript: None,
                protocol_version: old(registry).policy().protocol_version,
                now,
            }),
        ),
{
    registry.event(
        name,
        &transfer_id,
        &invitation_id,
        session_id,
        Some(reason.to_owned()),
        generation,
        None,
        now,
    );
}

/// Registers a new invitation as available and writes its creation into the log.
pub fn create_registered_invitation(
    registry: &mut AuthorizationRegistry,
    material: &AuthorizationMaterial,
    verified: Result<(), String>,
    now: u64,
) -> (result: Result<(), String>)
    requires
        old(registry).wf(),
    ensures
        final(registry).wf(),
        final(registry).policy() == old(registry).policy(),
        match verified {
            Err(reason) => result == Err::<(), String>(reason) && *final(registry) == *old(registry),
            Ok(()) => match install_outcome(
                old(registry).records(),
                material.invitation,
                material.master,
            ) {
                Err(error) => {
                    &&& result matches Err(message) && message@ == error
                    &&& *final(registry) == *old(registry)
                },
                Ok(outcome) => {
                    &&& result is Ok
                    &&& log_grew(
                        old(registry).log(),
                        final(registry).log(),
                        facts_of(
                            "native-auth-invitation-created"@,
                            material.invitation.body,
                            None,
                            None,
                            None,
                            None,
                            old(registry).policy(),
                            now,
                        ),
                    )
                    &&& installed(
                        old(registry).records(),
                        final(registry).records(),
                        *material,
                        InvitationState::Available,
                        outcome,
                    )
                },
            },
        },
{
    let copy = material.clone();
    proof {
        lemma_same_material_installs_alike(old(registry).records(), *material, copy);
    }
    match install(
        registry,
        copy.invitation,
        copy.master,
        InvitationState::Available,
        verified,
    ) {
        Ok(_) => {},
        Err(error) => return Err(error),
    }
    registry.event(
        "native-auth-invitation-created",
        &material.invitation.body.transfer_id,
        &material.invitation.body.invitation_id,
        None,
        None,
        None,
        None,
        now,
    );
    Ok(())
}

/// Whether the records changed as installing `material` with the given outcome demands.
pub open spec fn installed(
    before: Map<Seq<u8>, AuthorizationRecord>,
    after: Map<Seq<u8>, AuthorizationRecord>,
    material: AuthorizationMaterial,
    state: InvitationState,
    outcome: AuthorizationInstallOutcome,
) -> bool {
    let id = material.invitation.body.invitation_id@;
    if outcome is Inserted {
        &&& after == before.insert(id, after[id])
        &&& after[id].invitation.same(material.invitation)
        &&& is_new_record(after[id], after[id].invitation, material.master, state)
    } else {
        after == before
    }
}

proof fn lemma_same_material_installs_alike(
    records: Map<Seq<u8>, AuthorizationRecord>,
    left: AuthorizationMaterial,
    right: AuthorizationMaterial,
)
    requires
        left.same(right),
    ensures
        install_outcome(records, left.invitation, left.master) == install_outcome(
            records,
            right.invitation,
            right.master,
        ),
{
}

/// What restoring a stored authorization comes to: a lease, or why it cannot be used.
pub open spec fn restore_outcome(
    records: Map<Seq<u8>, AuthorizationRecord>,
    material: AuthorizationMaterial,
) -> Result<bool, Seq<char>> {
    match install_outcome(records, material.invitation, material.master) {
        Err(error) => Err(error),
        Ok(AuthorizationInstallOutcome::Inserted) => Ok(true),
        Ok(AuthorizationInstallOutcome::Existing(state)) => if state is Consumed {
            Err("resume-authorization-failed"@)
        } else if state is Revoked {
            Err("invitation-revoked"@)
        } else if state is Expired {
            Err("invitation-expired"@)
        } else {
            Ok(false)
        },
    }
}

/// Registers a stored authorization as already claimed. An authorization that is registered
/// already stays as it is, whatever its state.
pub fn restore_persisted(
    registry: &mut AuthorizationRegistry,
    material: AuthorizationMaterial,
    verified: Result<(), String>,
) -> (result: Result<(), String>)
    requires
        old(registry).wf(),
    ensures
        final(registry).wf(),
        final(registry).log() == old(registry).log(),
        final(registry).policy() == old(registry).policy(),
        match verified {
            Err(reason) => result == Err::<(), String>(reason) && *final(registry) == *old(registry),
            Ok(()) => match install_outcome(
                old(registry).records(),
                material.invitation,
                material.master,
            ) {
                Err(error) => {
                    &&& result matches Err(message) && message@ == error
                    &&& *final(registry) == *old(registry)
                },
                Ok(outcome) => result is Ok && installed(
                    old(registry).records(),
                    final(registry).records(),
                    material,
                    InvitationState::Claimed,
                    outcome,
                ),
            },
        },
{
    match install(
        registry,
        material.invitation,
        material.master,
        InvitationState::Claimed,
        verified,
    ) {
        Ok(_) => Ok(()),
        Err(error) => Err(error),
    }
}

/// Registers a stored authorization as already claimed, and says whether it was new. An
/// authorization that was consumed, revoked or has expired cannot be restored.
pub fn restore_persisted_leased(
    registry: &mut AuthorizationRegistry,
    material: AuthorizationMaterial,
    verified: Result<(), String>,
) -> (result: Result<PersistedAuthorizationRestoreLease, String>)
    requires
        old(registry).wf(),
    ensures
        final(registry).wf(),
        final(registry).log() == old(registry).log(),
        final(registry).policy() == old(registry).policy(),
        match verified {
            Err(reason) => result == Err::<PersistedAuthorizationRestoreLease, String>(reason)
                && *final(registry) == *old(registry),
            Ok(()) => match restore_outcome(old(registry).records(), material) {
                Err(error) => {
                    &&& result matches Err(message) && message@ == error
                    &&& final(registry).records() == old(registry).records()
                },
                Ok(inserted) => {
                    &&& result matches Ok(lease) && lease.invitation_id
                        == material.invitation.body.invitation_id && lease.inserted == inserted
                    &&& inserted ==> installed(
                        old(registry).records(),
                        final(registry).records(),
                        material,
                        InvitationState::Claimed,
                        AuthorizationInstallOutcome::Inserted,
                    )
                    &&& !inserted ==> final(registry).records() == old(registry).records()
                },
            },
        },
{
    let invitation_id: [u8; 16] = material.invitation.body.invitation_id;
    match install(
        registry,
        material.invitation,
        material.master,
        InvitationState::Claimed,
        verified,
    ) {
        Ok(AuthorizationInstallOutcome::Inserted) => Ok(
            PersistedAuthorizationRestoreLease { invitation_id, inserted: true },
        ),
        Ok(AuthorizationInstallOutcome::Existing(InvitationState::Consumed)) => Err(
            "resume-authorization-failed".to_owned(),
        ),
        Ok(AuthorizationInstallOutcome::Existing(InvitationState::Revoked)) => Err(
            "invitation-revoked".to_owned(),
        ),
        Ok(AuthorizationInstallOutcome::Existing(InvitationState::Expired)) => Err(
            "invitation-expired".to_owned(),
        ),
        Ok(AuthorizationInstallOutcome::Existing(_)) => Ok(
            PersistedAuthorizationRestoreLease { invitation_id, inserted: false },
        ),
        Err(error) => Err(error),
    }
}

/// Whether a restored record has not been used since.
pub open spec fn untouched(record: AuthorizationRecord) -> bool {
    &&& record.state is Claimed
    &&& record.active_session_id is None
    &&& record.last_session_id is None
    &&& record.used_authorization_ids@.len() == 0
    &&& record.used_session_ids@.len() == 0
}

/// The records once a restore is undone.
pub open spec fn rolled_back(
    records: Map<Seq<u8>, AuthorizationRecord>,
    lease: PersistedAuthorizationRestoreLease,
) -> Map<Seq<u8>, AuthorizationRecord> {
    if lease.inserted && records.contains_key(lease.invitation_id@) && untouched(
        records[lease.invitation_id@],
    ) {
        records.remove(lease.invitation_id@)
    } else {
        records
    }
}

/// Undoes a restore: an authorization that the restore added and that nothing has used since
/// is removed again. Everything else stays.
pub fn rollback_persisted_restore(
    registry: &mut AuthorizationRegistry,
    lease: PersistedAuthorizationRestoreLease,
)
    requires
        old(registry).wf(),
    ensures
        final(registry).wf(),
        final(registry).log() == old(registry).log(),
        final(registry).policy() == old(registry).policy(),
        final(registry).records() == rolled_back(old(registry).records(), lease),
{
    if !lease.inserted {
        return;
    }
    let removable: bool = match registry.records.get(&lease.invitation_id) {
        Some(record) => record.state == InvitationState::Claimed
            && record.active_session_id.is_none() && record.last_session_id.is_none()
            && record.used_authorization_ids.len() == 0 && record.used_session_ids.len() == 0,
        None => false,
    };
    if removable {
        let _removed = registry.take(&lease.invitation_id);
    }
}

/// Registers an imported invitation as available.
pub fn install_imported_available(
    registry: &mut AuthorizationRegistry,
    material: AuthorizationMaterial,
    verified: Result<(), String>,
) -> (result: Result<(), String>)
    requires
        old(registry).wf(),
    ensures
        final(registry).wf(),
        final(registry).log() == old(registry).log(),
        final(registry).policy() == old(registry).policy(),
        match verified {
            Err(reason) => result == Err::<(), String>(reason) && *final(registry) == *old(registry),
            Ok(()) => match install_outcome(
                old(registry).records(),
                material.invitation,
                material.master,
            ) {
                Err(error) => {
                    &&& result matches Err(message) && message@ == error
                    &&& *final(registry) == *old(registry)
                },
                Ok(outcome) => result is Ok && installed(
                    old(registry).records(),
                    final(registry).records(),
                    material,
                    InvitationState::Available,
                    outcome,
                ),
            },
        },
{
    match install(
        registry,
        material.invitation,
        material.master,
        InvitationState::Available,
        verified,
    ) {
        Ok(_) => Ok(()),
        Err(error) => Err(error),
    }
}

/// Why the material of a record is withheld, if it is.
pub open spec fn withheld(state: InvitationState) -> Option<Seq<char>> {
    match state {
        InvitationState::Revoked => Some("invitation-revoked"@),
        InvitationState::Expired => Some("invitation-expired"@),
        InvitationState::Consumed => Some("resume-authorization-failed"@),
        _ => None,
    }
}

/// The invitation and secret of a transfer, as long as the authorization can be used.
pub fn material_for_transfer(
    registry: &mut AuthorizationRegistry,
    transfer_id: &[u8; 16],
    now: u64,
) -> (result: Result<AuthorizationMaterial, String>)
    requires
        old(registry).wf(),
    ensures
        final(registry).wf(),
        final(registry).log() == old(registry).log(),
        final(registry).policy() == old(registry).policy(),
        match invitation_for(old(registry).records(), transfer_id@) {
            None => {
                &&& result matches Err(error) && error@ == "resume-authorization-failed"@
                &&& final(registry).records() == old(registry).records()
            },
            Some(id) => {
                let record = refreshed(
                    old(registry).records()[id],
                    old(registry).policy(),
                    now,
                );
                &&& final(registry).records() == old(registry).records().insert(id, record)
                &&& match withheld(record.state) {
                    Some(reason) => result matches Err(error) && error@ == reason,
                    None => result matches Ok(material) && material.invitation.same(
                        record.invitation,
                    ) && material.master == record.master,
                }
            },
        },
{
    let id: [u8; 16] = match registry.find_transfer(transfer_id) {
        Some(id) => id,
        None => return Err("resume-authorization-failed".to_owned()),
    };
    let policy: SecurityPolicy = registry.policy;
    let ghost before = registry.records();
    let mut record: AuthorizationRecord = match registry.take(&id) {
        Some(record) => record,
        None => return Err("resume-authorization-failed".to_owned()),
    };
    refresh_expiration(&mut record, &policy, now);
    let state: InvitationState = record.state;
    let material = AuthorizationMaterial {
        invitation: record.invitation.clone(),
        master: record.master,
    };
    registry.put(id, record);
    assert(registry.records() =~= before.insert(id@, record));
    match state {
        InvitationState::Revoked => Err("invitation-revoked".to_owned()),
        InvitationState::Expired => Err("invitation-expired".to_owned()),
        InvitationState::Consumed => Err("resume-authorization-failed".to_owned()),
        _ => Ok(material),
    }
}

/// Gathers what a client signs to open a session of a transfer.
pub fn prepare_client_handshake(
    registry: &mut AuthorizationRegistry,
    transfer_id: [u8; 16],
    authorization_id: [u8; 16],
    session_id: [u8; 16],
    mode: SecureSessionMode,
    checkpoint_generation: u64,
    verified_state_digest: [u8; 32],
    transfer_commitment: [u8; 32],
    previous_session_digest: [u8; 32],
    certificate_fingerprint: [u8; 32],
    capabilities: u64,
    now: u64,
) -> (result: Result<PreparedClientHandshake, String>)
    requires
        old(registry).wf(),
    ensures
        final(registry).wf(),
        final(registry).log() == old(registry).log(),
        final(registry).policy() == old(registry).policy(),
        match invitation_for(old(registry).records(), transfer_id@) {
            None => {
                &&& result matches Err(error) && error@ == "resume-authorization-failed"@
                &&& final(registry).records() == old(registry).records()
            },
            Some(id) => {
                let record = refreshed(
                    old(registry).records()[id],
                    old(registry).policy(),
                    now,
                );
                &&& final(registry).records() == old(registry).records().insert(id, record)
                &&& match withheld(record.state) {
                    Some(reason) => result matches Err(error) && error@ == reason,
                    None => result matches Ok(prepared) && prepared.material.invitation.same(
                        record.invitation,
                    ) && prepared.material.master == record.master && prepared.authorization
                        == (SessionAuthorizationBody {
                        authorization_id,
                        invitation_id: record.invitation.body.invitation_id,
                        session_id,
                        mode,
                        checkpoint_generation,
                        verified_state_digest,
                        transfer_commitment,
                        previous_session_digest,
                        certificate_fingerprint,
                        negotiated_capabilities: capabilities,
                    }),
                }
            },
        },
{
    match material_for_transfer(registry, &transfer_id, now) {
        Ok(material) => {
            let invitation_id: [u8; 16] = material.invitation.body.invitation_id;
            Ok(
                PreparedClientHandshake {
                    material,
                    authorization: SessionAuthorizationBody {
                        authorization_id,
                        invitation_id,
                        session_id,
                        mode,
                        checkpoint_generation,
                        verified_state_digest,
                        transfer_commitment,
                        previous_session_digest,
                        certificate_fingerprint,
                        negotiated_capabilities: capabilities,
                    },
                },
            )
        },
        Err(error) => Err(error),
    }
}

/// Whether an offered session is the one that is expected under the given invitation.
pub open spec fn offer_matches(
    offer: SessionAuthorizationBody,
    expected: ExpectedSession,
    invitation: SecureInvitationBody,
) -> bool {
    &&& offer.session_id@ == expected.session_id@
    &&& offer.mode == expected.mode
    &&& offer.checkpoint_generation == expected.checkpoint_generation
    &&& offer.verified_state_digest@ == expected.state_digest@
    &&& offer.transfer_commitment@ == expected.transfer_commitment@
    &&& offer.previous_session_digest@ == expected.previous_session_digest@
    &&& offer.negotiated_capabilities == expected.capabilities
    &&& invitation.capability_digest@ == expected.capability_digest@
}

fn check_offer(
    offer: &SessionAuthorizationBody,
    expected: &ExpectedSession,
    invitation: &SecureInvitationBody,
) -> (matches: bool)
    ensures
        matches == offer_matches(*offer, *expected, *invitation),
{
    bytes_equal(&offer.session_id, &expected.session_id) && offer.mode == expected.mode
        && offer.checkpoint_generation == expected.checkpoint_generation && bytes_equal(
        &offer.verified_state_digest,
        &expected.state_digest,
    ) && bytes_equal(&offer.transfer_commitment, &expected.transfer_commitment) && bytes_equal(
        &offer.previous_session_digest,
        &expected.previous_session_digest,
    ) && offer.negotiated_capabilities == expected.capabilities && bytes_equal(
        &invitation.capability_digest,
        &expected.capability_digest,
    )
}

/// Whether an authorization or session identifier was used before.
pub open spec fn is_replay(record: AuthorizationRecord, offer: SessionAuthorizationBody) -> bool {
    listed(record.used_authorization_ids@, offer.authorization_id@) || listed(
        record.used_session_ids@,
        offer.session_id@,
    )
}

/// Whether an authorization can be claimed for a session of the given mode.
pub open spec fn claimable(record: AuthorizationRecord, mode: SecureSessionMode) -> bool {
    match mode {
        SecureSessionMode::NewTransfer => record.state is Available
            && !record.normal_claim_completed,
        SecureSessionMode::Resume => record.state is Claimed,
    }
}

/// Why an authorization that cannot be claimed is refused.
pub open spec fn claim_refusal(state: InvitationState) -> Seq<char> {
    match state {
        InvitationState::Expired => "invitation-expired"@,
        InvitationState::Revoked => "invitation-revoked"@,
        InvitationState::Consumed => "resume-authorization-failed"@,
        _ => "invitation-already-claimed"@,
    }
}

fn refusal_text(state: InvitationState) -> (reason: &'static str)
    ensures
        reason@ == claim_refusal(state),
{
    match state {
        InvitationState::Expired => "invitation-expired",
        InvitationState::Revoked => "invitation-revoked",
        InvitationState::Consumed => "resume-authorization-failed",
        _ => "invitation-already-claimed",
    }
}

/// The decision on a claim and the name under which it is logged. `verified` is the error of
/// the cryptographic check of the offer, if it failed.
pub open spec fn claim_decision(
    record: AuthorizationRecord,
    offer: SessionAuthorizationBody,
    expected: ExpectedSession,
    verified: Option<Seq<char>>,
) -> (Seq<char>, Option<Seq<char>>) {
    if verified is Some {
        if verified == Some("certificate-binding-failed"@) {
            ("native-auth-certificate-rejected"@, verified)
        } else {
            ("native-auth-session-rejected"@, verified)
        }
    } else if !offer_matches(offer, expected, record.invitation.body) {
        ("native-auth-session-rejected"@, Some("transcript-mismatch"@))
    } else if is_replay(record, offer) {
        ("native-auth-replay-rejected"@, Some("control-replay-detected"@))
    } else if !claimable(record, expected.mode) {
        ("native-auth-claim-rejected"@, Some(claim_refusal(record.state)))
    } else {
        ("native-auth-claim-accepted"@, None)
    }
}

/// Whether `after` is `before` with a claim for the offered session in progress. The two
/// identifiers stay reserved for good, whatever becomes of the claim.
pub open spec fn claimed(
    before: AuthorizationRecord,
    after: AuthorizationRecord,
    offer: SessionAuthorizationBody,
) -> bool {
    &&& after.invitation == before.invitation
    &&& after.master == before.master
    &&& after.state is Claiming
    &&& after.active_session_id == Some(offer.session_id)
    &&& after.last_session_id == before.last_session_id
    &&& after.used_authorization_ids@ == before.used_authorization_ids@.push(
        offer.authorization_id,
    )
    &&& after.used_session_ids@ == before.used_session_ids@.push(offer.session_id)
    &&& after.normal_claim_completed == before.normal_claim_completed
}

/// The error in a result, if it is one.
pub open spec fn error_in<T>(result: Result<T, String>) -> Option<Seq<char>> {
    match result {
        Ok(_) => None,
        Err(error) => Some(error@),
    }
}

/// Whether a claim takes a registry from `before` to `after`. `verified` is the error of the
/// cryptographic check of the offer, `refusal` the error of the claim.
pub open spec fn claim_made(
    before: AuthorizationRegistry,
    after: AuthorizationRegistry,
    offer: SessionAuthorizationBody,
    expected: ExpectedSession,
    verified: Option<Seq<char>>,
    refusal: Option<Seq<char>>,
    now: u64,
) -> bool {
    let id = offer.invitation_id@;
    let record = refreshed(before.records()[id], before.policy(), now);
    &&& before.records().contains_key(id)
    &&& refusal == claim_decision(record, offer, expected, verified).1
    &&& after.policy() == before.policy()
    &&& after.records() == before.records().insert(id, after.records()[id])
    &&& if refusal is None {
        claimed(record, after.records()[id], offer)
    } else {
        after.records()[id] == record
    }
}

/// Claims an authorization for an offered session. `verified` is what the cryptographic check
/// of the offer against the registered invitation gave.
pub fn begin_server_claim<T>(
    registry: &mut AuthorizationRegistry,
    offer: &SessionAuthorizationBody,
    expected: &ExpectedSession,
    verified: Result<T, String>,
    now: u64,
) -> (result: Result<ServerClaim<T>, String>)
    requires
        old(registry).wf(),
    ensures
        final(registry).wf(),
        final(registry).policy() == old(registry).policy(),
        !old(registry).records().contains_key(offer.invitation_id@) ==> {
            &&& result matches Err(error) && error@ == "authentication-failed"@
            &&& *final(registry) == *old(registry)
        },
        old(registry).records().contains_key(offer.invitation_id@) ==> {
            let record = refreshed(
                old(registry).records()[offer.invitation_id@],
                old(registry).policy(),
                now,
            );
            let decision = claim_decision(record, *offer, *expected, error_in(verified));
            &&& claim_made(
                *old(registry),
                *final(registry),
                *offer,
                *expected,
                error_in(verified),
                error_in(result),
                now,
            )
            &&& exists|middle: Seq<SecurityEvent>| #[trigger]
                log_grew(
                    old(registry).log(),
                    middle,
                    facts_of(
                        "native-auth-claim-attempted"@,
                        record.invitation.body,
                        Some(offer.session_id),
                        None,
                        Some(expected.checkpoint_generation),
                        None,
                        old(registry).policy(),
                        now,
                    ),
                ) && log_grew(
                    middle,
                    final(registry).log(),
                    facts_of(
                        decision.0,
                        record.invitation.body,
                        Some(offer.session_id),
                        decision.1,
                        Some(expected.checkpoint_generation),
                        None,
                        old(registry).policy(),
                        now,
                    ),
                )
            &&& result matches Ok(claim) ==> verified == Ok::<T, String>(claim.accepted)
                && claim.handle == (ClaimHandle {
                invitation_id: offer.invitation_id,
                authorization_id: offer.authorization_id,
                session_id: offer.session_id,
                mode: expected.mode,
            })
        },
{
    let id: [u8; 16] = offer.invitation_id;
    let policy: SecurityPolicy = registry.policy;
    let ghost before = registry.records();
    let mut record: AuthorizationRecord = match registry.take(&id) {
        Some(record) => record,
        None => return Err("authentication-failed".to_owned()),
    };
    refresh_expiration(&mut record, &policy, now);
    let ghost fresh = record;
    let ghost error = error_in(verified);
    let session_id: [u8; 16] = offer.session_id;
    let generation: u64 = expected.checkpoint_generation;
    let transfer_id: [u8; 16] = record.invitation.body.transfer_id;
    let invitation_id: [u8; 16] = record.invitation.body.invitation_id;
    registry.event(
        "native-auth-claim-attempted",
        &transfer_id,
        &invitation_id,
        Some(session_id),
        None,
        Some(generation),
        None,
        now,
    );
    let ghost middle = registry.log();
    let outcome: Result<T, (&'static str, String)> = match verified {
        Err(reason) => if same_text(reason.as_str(), "certificate-binding-failed") {
            Err(("native-auth-certificate-rejected", reason))
        } else {
            Err(("native-auth-session-rejected", reason))
        },
        Ok(value) => if !check_offer(offer, expected, &record.invitation.body) {
            Err(("native-auth-session-rejected", "transcript-mismatch".to_owned()))
        } else if is_listed(&record.used_authorization_ids, &offer.authorization_id) || is_listed(
            &record.used_session_ids,
            &offer.session_id,
        ) {
            Err(("native-auth-replay-rejected", "control-replay-detected".to_owned()))
        } else {
            let allowed: bool = match expected.mode {
                SecureSessionMode::NewTransfer => record.state == InvitationState::Available
                    && !record.normal_claim_completed,
                SecureSessionMode::Resume => record.state == InvitationState::Claimed,
            };
            if !allowed {
                Err(("native-auth-claim-rejected", refusal_text(record.state).to_owned()))
            } else {
                Ok(value)
            }
        },
    };
    match outcome {
        Err((name, reason)) => {
            let copy: String = reason.clone();
            registry.event(
                name,
                &transfer_id,
                &invitation_id,
                Some(session_id),
                Some(copy),
                Some(generation),
                None,
                now,
            );
            registry.put(id, record);
            assert(registry.records() =~= before.insert(id@, fresh));
            Err(reason)
        },
        Ok(value) => {
            record.state = InvitationState::Claiming;
            record.active_session_id = Some(session_id);
            record.used_authorization_ids.push(offer.authorization_id);
            record.used_session_ids.push(session_id);
            registry.event(
                "native-auth-claim-accepted",
                &transfer_id,
                &invitation_id,
                Some(session_id),
                None,
                Some(generation),
                None,
                now,
            );
            registry.put(id, record);
            assert(registry.records() =~= before.insert(id@, record));
            Ok(
                ServerClaim {
                    accepted: value,
                    handle: ClaimHandle {
                        invitation_id: id,
                        authorization_id: offer.authorization_id,
                        session_id,
                        mode: expected.mode,
                    },
                },
            )
        },
    }
}

fn same_optional_id(left: &Option<[u8; 16]>, right: &[u8; 16]) -> (same: bool)
    ensures
        same == (*left == Some(*right)),
{
    match left {
        Some(id) => {
            let same: bool = bytes_equal(id, right);
            assert(same ==> *id =~= *right);
            same
        },
        None => false,
    }
}

/// Whether a claim can be completed: it is the one in progress, and its authorization was
/// reserved.
pub open spec fn completable(record: AuthorizationRecord, handle: ClaimHandle) -> bool {
    &&& record.state is Claiming
    &&& record.active_session_id == Some(handle.session_id)
    &&& listed(record.used_authorization_ids@, handle.authorization_id@)
}

/// The record once a claim is completed.
pub open spec fn established(
    record: AuthorizationRecord,
    handle: ClaimHandle,
) -> AuthorizationRecord {
    AuthorizationRecord {
        state: InvitationState::Active,
        last_session_id: Some(handle.session_id),
        normal_claim_completed: record.normal_claim_completed || handle.mode is NewTransfer,
        ..record
    }
}

/// Turns a claim in progress into an active session.
pub fn complete_claim(
    registry: &mut AuthorizationRegistry,
    handle: &ClaimHandle,
    transcript_identifier: String,
    now: u64,
) -> (result: Result<(), String>)
    requires
        old(registry).wf(),
    ensures
        final(registry).wf(),
        final(registry).policy() == old(registry).policy(),
        ({
            let id = handle.invitation_id@;
            let record = old(registry).records()[id];
            if old(registry).records().contains_key(id) && completable(record, *handle) {
                &&& result is Ok
                &&& final(registry).records() == old(registry).records().insert(
                    id,
                    established(record, *handle),
                )
                &&& log_grew(
                    old(registry).log(),
                    final(registry).log(),
                    facts_of(
                        if handle.mode is Resume {
                            "native-auth-resume-established"@
                        } else {
                            "native-auth-session-established"@
                        },
                        record.invitation.body,
                        Some(handle.session_id),
                        None,
                        None,
                        Some(transcript_identifier@),
                        old(registry).policy(),
                        now,
                    ),
                )
            } else {
                &&& result matches Err(error) && error@ == "authentication-failed"@
                &&& final(registry).records() == old(registry).records()
                &&& final(registry).log() == old(registry).log()
            }
        }),
{
    let id: [u8; 16] = handle.invitation_id;
    let ghost before = registry.records();
    let mut record: AuthorizationRecord = match registry.take(&id) {
        Some(record) => record,
        None => return Err("authentication-failed".to_owned()),
    };
    if record.state != InvitationState::Claiming || !same_optional_id(
        &record.active_session_id,
        &handle.session_id,
    ) || !is_listed(&record.used_authorization_ids, &handle.authorization_id) {
        registry.put(id, record);
        assert(registry.records() =~= before);
        return Err("authentication-failed".to_owned());
    }
    record.state = InvitationState::Active;
    record.last_session_id = Some(handle.session_id);
    if handle.mode == SecureSessionMode::NewTransfer {
        record.normal_claim_completed = true;
    }
    let name: &'static str = if handle.mode == SecureSessionMode::Resume {
        "native-auth-resume-established"
    } else {
        "native-auth-session-established"
    };
    let transfer_id: [u8; 16] = record.invitation.body.transfer_id;
    let invitation_id: [u8; 16] = record.invitation.body.invitation_id;
    registry.event(
        name,
        &transfer_id,
        &invitation_id,
        Some(handle.session_id),
        None,
        None,
        Some(transcript_identifier),
        now,
    );
    registry.put(id, record);
    assert(registry.records() =~= before.insert(id@, record));
    Ok(())
}

/// The record once a claim or session is given up. A new transfer that has not exchanged
/// anything sensitive becomes available again; everything else can only be resumed.
pub open spec fn given_up(
    record: AuthorizationRecord,
    handle: ClaimHandle,
    sensitive_activity: bool,
) -> AuthorizationRecord {
    AuthorizationRecord {
        state: if handle.mode is NewTransfer && !record.normal_claim_completed
            && !sensitive_activity {
            InvitationState::Available
        } else {
            InvitationState::Claimed
        },
        active_session_id: None,
        ..record
    }
}

/// Gives up the claim or session that a handle names, if it is the one in progress.
pub fn abort_claim(
    registry: &mut AuthorizationRegistry,
    handle: &ClaimHandle,
    sensitive_activity: bool,
    reason: &str,
    now: u64,
)
    requires
        old(registry).wf(),
    ensures
        final(registry).wf(),
        final(registry).policy() == old(registry).policy(),
        ({
            let id = handle.invitation_id@;
            let record = old(registry).records()[id];
            if old(registry).records().contains_key(id) && record.active_session_id == Some(
                handle.session_id,
            ) {
                &&& final(registry).records() == old(registry).records().insert(
                    id,
                    given_up(record, *handle, sensitive_activity),
                )
                &&& log_grew(
                    old(registry).log(),
                    final(registry).log(),
                    facts_of(
                        if handle.mode is Resume {
                            "native-auth-resume-rejected"@
                        } else {
                            "native-auth-session-rejected"@
                        },
                        record.invitation.body,
                        Some(handle.session_id),
                        Some(reason@),
                        None,
                        None,
                        old(registry).policy(),
                        now,
                    ),
                )
            } else {
                &&& final(registry).records() == old(registry).records()
                &&& final(registry).log() == old(registry).log()
            }
        }),
        ({
            let id = handle.invitation_id@;
            let before = old(registry).records()[id];
            let after = final(registry).records()[id];
            old(registry).records().contains_key(id) && before.active_session_id == Some(
                handle.session_id,
            ) ==> {
                &&& after.active_session_id is None
                &&& handle.mode is NewTransfer && !before.normal_claim_completed
                    && !sensitive_activity ==> after.state is Available
                &&& handle.mode is Resume || before.normal_claim_completed || sensitive_activity
                    ==> after.state is Claimed
            }
        }),
{
    let id: [u8; 16] = handle.invitation_id;
    let ghost before = registry.records();
    let mut record: AuthorizationRecord = match registry.take(&id) {
        Some(record) => record,
        None => return,
    };
    if !same_optional_id(&record.active_session_id, &handle.session_id) {
        registry.put(id, record);
        assert(registry.records() =~= before);
        return;
    }
    record.active_session_id = None;
    if handle.mode == SecureSessionMode::NewTransfer && !record.normal_claim_completed
        && !sensitive_activity {
        record.state = InvitationState::Available;
    } else {
        record.state = InvitationState::Claimed;
    }
    let name: &'static str = if handle.mode == SecureSessionMode::Resume {
        "native-auth-resume-rejected"
    } else {
        "native-auth-session-rejected"
    };
    let transfer_id: [u8; 16] = record.invitation.body.transfer_id;
    let invitation_id: [u8; 16] = record.invitation.body.invitation_id;
    registry.event(
        name,
        &transfer_id,
        &invitation_id,
        Some(handle.session_id),
        Some(reason.to_owned()),
        None,
        None,
        now,
    );
    registry.put(id, record);
    assert(registry.records() =~= before.insert(id@, record));
}

/// The record once its transfer has a checkpoint: an active or available authorization can
/// from then on only be resumed.
pub open spec fn resumable(record: AuthorizationRecord) -> AuthorizationRecord {
    if record.state is Active || record.state is Available {
        AuthorizationRecord {
            state: InvitationState::Claimed,
            active_session_id: None,
            normal_claim_completed: true,
            ..record
        }
    } else {
        record
    }
}

/// Marks the authorization of a transfer as one that can be resumed.
pub fn mark_resumable(registry: &mut AuthorizationRegistry, transfer_id: &[u8; 16]) -> (result:
    Result<(), String>)
    requires
        old(registry).wf(),
    ensures
        final(registry).wf(),
        final(registry).policy() == old(registry).policy(),
        final(registry).log() == old(registry).log(),
        match invitation_for(old(registry).records(), transfer_id@) {
            None => {
                &&& result matches Err(error) && error@ == "resume-authorization-failed"@
                &&& final(registry).records() == old(registry).records()
            },
            Some(id) => {
                &&& result is Ok
                &&& final(registry).records() == old(registry).records().insert(
                    id,
                    resumable(old(registry).records()[id]),
                )
            },
        },
{
    let id: [u8; 16] = match registry.find_transfer(transfer_id) {
        Some(id) => id,
        None => return Err("resume-authorization-failed".to_owned()),
    };
    let ghost before = registry.records();
    let mut record: AuthorizationRecord = match registry.take(&id) {
        Some(record) => record,
        None => return Err("resume-authorization-failed".to_owned()),
    };
    if record.state == InvitationState::Active || record.state == InvitationState::Available {
        record.state = InvitationState::Claimed;
        record.active_session_id = None;
        record.normal_claim_completed = true;
    }
    registry.put(id, record);
    assert(registry.records() =~= before.insert(id@, record));
    Ok(())
}

/// The record once its transfer is over.
pub open spec fn consumed(record: AuthorizationRecord) -> AuthorizationRecord {
    AuthorizationRecord { state: InvitationState::Consumed, active_session_id: None, ..record }
}

/// Ends the authorization of a transfer that is complete.
pub fn consume(registry: &mut AuthorizationRegistry, transfer_id: &[u8; 16]) -> (result: Result<
    (),
    String,
>)
    requires
        old(registry).wf(),
    ensures
        final(registry).wf(),
        final(registry).policy() == old(registry).policy(),
        final(registry).log() == old(registry).log(),
        match invitation_for(old(registry).records(), transfer_id@) {
            None => {
                &&& result matches Err(error) && error@ == "resume-authorization-failed"@
                &&& final(registry).records() == old(registry).records()
            },
            Some(id) => {
                &&& result is Ok
                &&& final(registry).records() == old(registry).records().insert(
                    id,
                    consumed(old(registry).records()[id]),
                )
            },
        },
{
    let id: [u8; 16] = match registry.find_transfer(transfer_id) {
        Some(id) => id,
        None => return Err("resume-authorization-failed".to_owned()),
    };
    let ghost before = registry.records();
    let mut record: AuthorizationRecord = match registry.take(&id) {
        Some(record) => record,
        None => return Err("resume-authorization-failed".to_owned()),
    };
    record.state = InvitationState::Consumed;
    record.active_session_id = None;
    registry.put(id, record);
    assert(registry.records() =~= before.insert(id@, record));
    Ok(())
}

/// The record once its authorization is withdrawn.
pub open spec fn withdrawn(record: AuthorizationRecord) -> AuthorizationRecord {
    AuthorizationRecord { state: InvitationState::Revoked, active_session_id: None, ..record }
}

/// Withdraws the authorization of a transfer.
pub fn revoke(registry: &mut AuthorizationRegistry, transfer_id: &[u8; 16], now: u64) -> (result:
    Result<[u8; 16], String>)
    requires
        old(registry).wf(),
    ensures
        final(registry).wf(),
        final(registry).policy() == old(registry).policy(),
        match invitation_for(old(registry).records(), transfer_id@) {
            None => {
                &&& result matches Err(error) && error@ == "native-auth-invitation-not-found"@
                &&& final(registry).records() == old(registry).records()
                &&& final(registry).log() == old(registry).log()
            },
            Some(id) => {
                &&& result matches Ok(invitation_id) && invitation_id@ == id
                &&& final(registry).records() == old(registry).records().insert(
                    id,
                    withdrawn(old(registry).records()[id]),
                )
                &&& log_grew(
                    old(registry).log(),
                    final(registry).log(),
                    facts_of(
                        "native-auth-authorization-revoked"@,
                        old(registry).records()[id].invitation.body,
                        None,
                        Some("invitation-revoked"@),
                        None,
                        None,
                        old(registry).policy(),
                        now,
                    ),
                )
            },
        },
{
    let id: [u8; 16] = match registry.find_transfer(transfer_id) {
        Some(id) => id,
        None => return Err("native-auth-invitation-not-found".to_owned()),
    };
    let ghost before = registry.records();
    let mut record: AuthorizationRecord = match registry.take(&id) {
        Some(record) => record,
        None => return Err("native-auth-invitation-not-found".to_owned()),
    };
    record.state = InvitationState::Revoked;
    record.active_session_id = None;
    let record_transfer: [u8; 16] = record.invitation.body.transfer_id;
    let invitation_id: [u8; 16] = record.invitation.body.invitation_id;
    registry.event(
        "native-auth-authorization-revoked",
        &record_transfer,
        &invitation_id,
        None,
        Some("invitation-revoked".to_owned()),
        None,
        None,
        now,
    );
    registry.put(id, record);
    assert(registry.records() =~= before.insert(id@, record));
    Ok(invitation_id)
}

/// What may be shown of an authorization.
#[derive(Debug, Clone, PartialEq, Eq)]
pub struct SecureInvitationInspection {
    pub invitation_id: String,
    pub transfer_id: String,
    pub state: InvitationState,
    pub created_unix_ms: u64,
    pub expires_unix_ms: u64,
    pub protocol_version: u16,
    pub certificate_fingerprint_sha256: String,
    pub capability_digest_sha256: String,
    pub allowed_file_count: u32,
    pub maximum_claim_count: u32,
    pub delivery_model: &'static str,
    pub active_session_id: Option<String>,
    pub last_session_id: Option<String>,
    pub authorization_secret: &'static str,
    pub authentication_tags: &'static str,
}

/// Whether an inspection shows a record, its secrets left out.
pub open spec fn shows(
    inspection: SecureInvitationInspection,
    record: AuthorizationRecord,
    policy: SecurityPolicy,
) -> bool {
    &&& inspection.invitation_id@ == uuid_text(record.invitation.body.invitation_id@)
    &&& inspection.transfer_id@ == uuid_text(record.invitation.body.transfer_id@)
    &&& inspection.state == record.state
    &&& inspection.created_unix_ms == record.invitation.body.created_unix_ms
    &&& inspection.expires_unix_ms == record.invitation.body.expires_unix_ms
    &&& inspection.protocol_version == policy.protocol_version
    &&& inspection.certificate_fingerprint_sha256@ == hex_text(
        record.invitation.body.server_certificate_fingerprint@,
    )
    &&& inspection.capability_digest_sha256@ == hex_text(
        record.invitation.body.capability_digest@,
    )
    &&& inspection.allowed_file_count == record.invitation.body.allowed_file_count
    &&& inspection.maximum_claim_count == record.invitation.body.maximum_claim_count
    &&& inspection.delivery_model@ == "pre-shared-one-time-secret"@
    &&& text_in(inspection.active_session_id) == id_text(record.active_session_id)
    &&& text_in(inspection.last_session_id) == id_text(record.last_session_id)
    &&& inspection.authorization_secret@ == "[REDACTED]"@
    &&& inspection.authentication_tags@ == "[REDACTED]"@
}

fn optional_id_text(id: &Option<[u8; 16]>) -> (text: Option<String>)
    ensures
        text_in(text) == id_text(*id),
{
    match id {
        Some(value) => Some(uuid_string(value)),
        None => None,
    }
}

fn inspect_record(record: &AuthorizationRecord, policy: &SecurityPolicy) -> (inspection:
    SecureInvitationInspection)
    ensures
        shows(inspection, *record, *policy),
{
    SecureInvitationInspection {
        invitation_id: uuid_string(&record.invitation.body.invitation_id),
        transfer_id: uuid_string(&record.invitation.body.transfer_id),
        state: record.state,
        created_unix_ms: record.invitation.body.created_unix_ms,
        expires_unix_ms: record.invitation.body.expires_unix_ms,
        protocol_version: policy.protocol_version,
        certificate_fingerprint_sha256: hex(&record.invitation.body.server_certificate_fingerprint),
        capability_digest_sha256: hex(&record.invitation.body.capability_digest),
        allowed_file_count: record.invitation.body.allowed_file_count,
        maximum_claim_count: record.invitation.body.maximum_claim_count,
        delivery_model: "pre-shared-one-time-secret",
        active_session_id: optional_id_text(&record.active_session_id),
        last_session_id: optional_id_text(&record.last_session_id),
        authorization_secret: "[REDACTED]",
        authentication_tags: "[REDACTED]",
    }
}

#[derive(Debug, Clone, PartialEq, Eq)]
pub struct CreateSecureInvitationRequest {
    pub transfer_id: String,
    pub certificate_fingerprint_sha256: String,
    pub capabilities: Option<u64>,
    pub lifetime_ms: Option<u64>,
}

#[derive(Debug, Clone, PartialEq, Eq)]
pub struct CreateSecureInvitationResponse {
    pub inspection: SecureInvitationInspection,
    pub encoded_invitation: String,
    pub secret_delivery_model: &'static str,
}

#[derive(Debug, Clone, PartialEq, Eq)]
pub struct InspectSecureInvitationRequest {
    pub invitation_id: Option<String>,
    pub transfer_id: Option<String>,
}

#[derive(Debug, Clone, PartialEq, Eq)]
pub struct RevokeAuthorizationRequest {
    pub transfer_id: String,
    pub retain_partial: Option<bool>,
    pub stop_active_session: Option<bool>,
}

#[derive(Debug, Clone, PartialEq, Eq)]
pub struct RevokeAuthorizationResponse {
    pub transfer_id: String,
    pub invitation_id: String,
    pub state: InvitationState,
    pub active_session_stop_requested: bool,
    pub protected_secret_removed: bool,
}

#[derive(Debug, Clone, PartialEq, Eq)]
pub struct ListSecurityEventsRequest {
    pub transfer_id: Option<String>,
    pub limit: Option<usize>,
}

/// What a new invitation is made of.
#[derive(Debug, Clone, Copy, PartialEq, Eq)]
pub struct InvitationPlan {
    pub transfer_id: [u8; 16],
    pub certificate_fingerprint: [u8; 32],
    pub capabilities: u64,
    pub lifetime_ms: u64,
}

/// Reads a request for a new invitation. Outside of development builds it is refused.
pub fn plan_secure_invitation(
    request: &CreateSecureInvitationRequest,
    policy: &SecurityPolicy,
    development: bool,
) -> (result: Result<InvitationPlan, String>)
    ensures
        match result {
            Ok(plan) => {
                &&& development
                &&& parsed_uuid(request.transfer_id@) == Some(plan.transfer_id)
                &&& hex_value_32(
                    request.certificate_fingerprint_sha256@,
                    plan.certificate_fingerprint@,
                )
                &&& plan.capabilities == match request.capabilities {
                    Some(value) => value,
                    None => 0,
                }
                &&& plan.lifetime_ms == match request.lifetime_ms {
                    Some(value) => value,
                    None => policy.default_invitation_lifetime_ms,
                }
            },
            Err(error) => if !development {
                error@ == "Native secure invitations are development-only."@
            } else if parsed_uuid(request.transfer_id@) is None {
                error@ == "native-auth-transfer-id-invalid"@
            } else {
                error@ == "native-sha256-invalid"@ && forall|bytes: Seq<u8>|
                    !#[trigger] hex_value_32(request.certificate_fingerprint_sha256@, bytes)
            },
        },
{
    if !development {
        return Err("Native secure invitations are development-only.".to_owned());
    }
    let transfer_id: [u8; 16] = match uuid_parse(request.transfer_id.as_str()) {
        Some(id) => id,
        None => return Err("native-auth-transfer-id-invalid".to_owned()),
    };
    let certificate_fingerprint: [u8; 32] = match decode_hex_32(
        request.certificate_fingerprint_sha256.as_str(),
    ) {
        Some(bytes) => bytes,
        None => return Err("native-sha256-invalid".to_owned()),
    };
    Ok(
        InvitationPlan {
            transfer_id,
            certificate_fingerprint,
            capabilities: match request.capabilities {
                Some(value) => value,
                None => 0,
            },
            lifetime_ms: match request.lifetime_ms {
                Some(value) => value,
                None => policy.default_invitation_lifetime_ms,
            },
        },
    )
}

/// Registers a new invitation and shows it, with its encoded form but without its secret.
pub fn flowshare_native_create_secure_invitation(
    registry: &mut AuthorizationRegistry,
    material: &AuthorizationMaterial,
    verified: Result<(), String>,
    now: u64,
) -> (result: Result<CreateSecureInvitationResponse, String>)
    requires
        old(registry).wf(),
    ensures
        final(registry).wf(),
        final(registry).policy() == old(registry).policy(),
        match verified {
            Err(reason) => result == Err::<CreateSecureInvitationResponse, String>(reason)
                && *final(registry) == *old(registry),
            Ok(()) => match install_outcome(
                old(registry).records(),
                material.invitation,
                material.master,
            ) {
                Err(error) => {
                    &&& result matches Err(message) && message@ == error
                    &&& *final(registry) == *old(registry)
                },
                Ok(outcome) => {
                    let id = material.invitation.body.invitation_id@;
                    &&& result matches Ok(response) && response.encoded_invitation@
                        == base64url_text(material.invitation.encoded@)
                        && response.secret_delivery_model@
                        == "internal-development-authorized-operation"@ && shows(
                        response.inspection,
                        final(registry).records()[id],
                        old(registry).policy(),
                    )
                    &&& exists|middle: Map<Seq<u8>, AuthorizationRecord>| #[trigger]
                        installed(
                            old(registry).records(),
                            middle,
                            *material,
                            InvitationState::Available,
                            outcome,
                        ) && final(registry).records() == middle.insert(
                            id,
                            refreshed(middle[id], old(registry).policy(), now),
                        )
                    &&& log_grew(
                        old(registry).log(),
                        final(registry).log(),
                        facts_of(
                            "native-auth-invitation-created"@,
                            material.invitation.body,
                            None,
                            None,
                            None,
                            None,
                            old(registry).policy(),
                            now,
                        ),
                    )
                },
            },
        },
{
    match create_registered_invitation(registry, material, verified, now) {
        Ok(()) => {},
        Err(error) => return Err(error),
    }
    let ghost middle = registry.records();
    let policy: SecurityPolicy = registry.policy;
    let id: [u8; 16] = material.invitation.body.invitation_id;
    let mut record: AuthorizationRecord = match registry.take(&id) {
        Some(record) => record,
        None => {
            assert(false);
            return Err("native-auth-invitation-not-found".to_owned());
        },
    };
    refresh_expiration(&mut record, &policy, now);
    let inspection = inspect_record(&record, &policy);
    registry.put(id, record);
    assert(registry.records() =~= middle.insert(id@, record));
    Ok(
        CreateSecureInvitationResponse {
            inspection,
            encoded_invitation: base64url_encode(material.invitation.encoded.as_slice()),
            secret_delivery_model: "internal-development-authorized-operation",
        },
    )
}

/// The identifier in an optional text: none, one, or a text that is not an identifier.
pub open spec fn optional_uuid(text: Option<String>) -> Result<Option<[u8; 16]>, ()> {
    match text {
        None => Ok(None),
        Some(value) => match parsed_uuid(value@) {
            Some(id) => Ok(Some(id)),
            None => Err(()),
        },
    }
}

fn parse_optional_uuid(text: &Option<String>) -> (id: Result<Option<[u8; 16]>, ()>)
    ensures
        id == optional_uuid(*text),
{
    match text {
        None => Ok(None),
        Some(value) => match uuid_parse(value.as_str()) {
            Some(id) => Ok(Some(id)),
            None => Err(()),
        },
    }
}

/// The invitation that a request names by exactly one of its two identifiers.
pub open spec fn requested_invitation(
    records: Map<Seq<u8>, AuthorizationRecord>,
    invitation: Option<[u8; 16]>,
    transfer: Option<[u8; 16]>,
) -> Option<Seq<u8>> {
    match invitation {
        Some(id) => if records.contains_key(id@) {
            Some(id@)
        } else {
            None
        },
        None => match transfer {
            Some(id) => invitation_for(records, id@),
            None => None,
        },
    }
}

/// Why a request for an inspection is refused before anything is looked up, if it is.
pub open spec fn inspection_refusal(
    request: InspectSecureInvitationRequest,
    development: bool,
) -> Option<Seq<char>> {
    if !development {
        Some("Native secure invitation inspection is development-only."@)
    } else if optional_uuid(request.invitation_id) is Err {
        Some("native-auth-invitation-id-invalid"@)
    } else if optional_uuid(request.transfer_id) is Err {
        Some("native-auth-transfer-id-invalid"@)
    } else if (optional_uuid(request.invitation_id)->Ok_0 is None) == (optional_uuid(
        request.transfer_id,
    )->Ok_0 is None) {
        Some("provide-exactly-one-invitation-or-transfer-id"@)
    } else {
        None
    }
}

/// Shows an authorization that is named by its invitation or by its transfer.
pub fn flowshare_native_inspect_secure_invitation(
    registry: &mut AuthorizationRegistry,
    request: &InspectSecureInvitationRequest,
    development: bool,
    now: u64,
) -> (result: Result<SecureInvitationInspection, String>)
    requires
        old(registry).wf(),
    ensures
        final(registry).wf(),
        final(registry).policy() == old(registry).policy(),
        final(registry).log() == old(registry).log(),
        match inspection_refusal(*request, development) {
            Some(reason) => {
                &&& result matches Err(error) && error@ == reason
                &&& final(registry).records() == old(registry).records()
            },
            None => match requested_invitation(
                old(registry).records(),
                optional_uuid(request.invitation_id)->Ok_0,
                optional_uuid(request.transfer_id)->Ok_0,
            ) {
                None => {
                    &&& result matches Err(error) && error@ == "native-auth-invitation-not-found"@
                    &&& final(registry).records() == old(registry).records()
                },
                Some(id) => {
                    let record = refreshed(
                        old(registry).records()[id],
                        old(registry).policy(),
                        now,
                    );
                    &&& final(registry).records() == old(registry).records().insert(id, record)
                    &&& result matches Ok(inspection) && shows(
                        inspection,
                        record,
                        old(registry).policy(),
                    )
                },
            },
        },
{
    if !development {
        return Err("Native secure invitation inspection is development-only.".to_owned());
    }
    let invitation: Option<[u8; 16]> = match parse_optional_uuid(&request.invitation_id) {
        Ok(id) => id,
        Err(()) => return Err("native-auth-invitation-id-invalid".to_owned()),
    };
    let transfer: Option<[u8; 16]> = match parse_optional_uuid(&request.transfer_id) {
        Ok(id) => id,
        Err(()) => return Err("native-auth-transfer-id-invalid".to_owned()),
    };
    if invitation.is_none() == transfer.is_none() {
        return Err("provide-exactly-one-invitation-or-transfer-id".to_owned());
    }
    let found: Option<[u8; 16]> = match invitation {
        Some(id) => if registry.records.contains(&id) {
            Some(id)
        } else {
            None
        },
        None => match transfer {
            Some(id) => registry.find_transfer(&id),
            None => None,
        },
    };
    let id: [u8; 16] = match found {
        Some(id) => id,
        None => return Err("native-auth-invitation-not-found".to_owned()),
    };
    let policy: SecurityPolicy = registry.policy;
    let ghost before = registry.records();
    let mut record: AuthorizationRecord = match registry.take(&id) {
        Some(record) => record,
        None => return Err("native-auth-invitation-not-found".to_owned()),
    };
    refresh_expiration(&mut record, &policy, now);
    let inspection = inspect_record(&record, &policy);
    registry.put(id, record);
    assert(registry.records() =~= before.insert(id@, record));
    Ok(inspection)
}

/// Whether a log entry is about the requested transfer.
pub open spec fn is_wanted(event: SecurityEvent, transfer_id: Option<String>) -> bool {
    transfer_id matches Some(id) ==> id@ == event.transfer_id@
}

/// The newest `limit` wanted entries among the first `n` of a log, newest first.
pub open spec fn newest_first(
    log: Seq<SecurityEvent>,
    transfer_id: Option<String>,
    limit: nat,
    n: nat,
) -> Seq<SecurityEvent>
    decreases n,
{
    if n == 0 || limit == 0 {
        Seq::empty()
    } else if is_wanted(log[n - 1], transfer_id) {
        seq![log[n - 1]] + newest_first(log, transfer_id, (limit - 1) as nat, (n - 1) as nat)
    } else {
        newest_first(log, transfer_id, limit, (n - 1) as nat)
    }
}

/// How many entries a request may get.
pub open spec fn event_limit(limit: Option<usize>) -> nat {
    let wanted = match limit {
        Some(value) => value as nat,
        None => 200,
    };
    if wanted <= MAX_SECURITY_EVENTS {
        wanted
    } else {
        MAX_SECURITY_EVENTS as nat
    }
}

/// The newest entries of the log, newest first, on request only those of one transfer.
pub fn flowshare_native_list_security_events<'a>(
    registry: &'a AuthorizationRegistry,
    request: &ListSecurityEventsRequest,
    development: bool,
) -> (result: Result<Vec<&'a SecurityEvent>, String>)
    requires
        registry.wf(),
    ensures
        match result {
            Ok(events) => development && events@.map_values(|event: &SecurityEvent| *event)
                == newest_first(
                registry.log(),
                request.transfer_id,
                event_limit(request.limit),
                registry.log().len(),
            ),
            Err(error) => !development && error@
                == "Native security events are development-only."@,
        },
{
    if !development {
        return Err("Native security events are development-only.".to_owned());
    }
    let mut limit: usize = match request.limit {
        Some(value) => value,
        None => 200,
    };
    if limit > MAX_SECURITY_EVENTS {
        limit = MAX_SECURITY_EVENTS;
    }
    let mut events: Vec<&SecurityEvent> = Vec::new();
    let mut at: usize = registry.events.len();
    let ghost view = |event: &SecurityEvent| *event;
    let ghost whole = newest_first(
        registry.events@,
        request.transfer_id,
        event_limit(request.limit),
        registry.events@.len(),
    );
    assert(events@.map_values(view) + newest_first(
        registry.events@,
        request.transfer_id,
        limit as nat,
        at as nat,
    ) =~= whole);
    while at > 0 && limit > 0
        invariant
            at <= registry.events@.len(),
            view == (|event: &SecurityEvent| *event),
            events@.map_values(view) + newest_first(
                registry.events@,
                request.transfer_id,
                limit as nat,
                at as nat,
            ) == whole,
        decreases at,
    {
        at -= 1;
        let event: &SecurityEvent = &registry.events[at];
        let wanted: bool = match &request.transfer_id {
            Some(id) => same_text(id.as_str(), event.transfer_id.as_str()),
            None => true,
        };
        if wanted {
            let ghost before = events@.map_values(view);
            events.push(event);
            limit -= 1;
            proof {
                assert(events@.map_values(view) =~= before.push(*event));
                assert(before.push(*event) + newest_first(
                    registry.events@,
                    request.transfer_id,
                    limit as nat,
                    at as nat,
                ) =~= before + (seq![*event] + newest_first(
                    registry.events@,
                    request.transfer_id,
                    limit as nat,
                    at as nat,
                )));
            }
        }
    }
    assert(events@.map_values(view) =~= whole);
    Ok(events)
}

/// Forgets all authorizations and empties the log.
pub fn clear_for_test(registry: &mut AuthorizationRegistry)
    ensures
        final(registry).wf(),
        final(registry).records() == Map::<Seq<u8>, AuthorizationRecord>::empty(),
        final(registry).log() == Seq::<SecurityEvent>::empty(),
        final(registry).policy() == old(registry).policy(),
{
    registry.records.clear();
    registry.events.clear();
}

/// What is known of a transfer whose authorization is to be withdrawn.
#[derive(Debug, Clone, Copy)]
pub struct RevocationTarget {
    pub runtime_active: bool,
    pub state: TransferState,
}

/// What is left to do once an authorization was withdrawn.
#[derive(Debug, Clone, Copy, PartialEq, Eq, Structural)]
pub enum RevocationFollowUp {
    Nothing,
    /// Cancel the running session.
    StopActiveSession,
    /// Delete what a transfer at rest has received.
    DiscardPartial,
    /// Cancel a transfer that is not running but not at rest either, and delete its data.
    CancelTransfer,
}

/// What is left to do after a revocation.
pub open spec fn revocation_follow_up(
    target: Option<RevocationTarget>,
    retain_partial: bool,
    stop_active_session: bool,
) -> RevocationFollowUp {
    match target {
        None => RevocationFollowUp::Nothing,
        Some(known) => if known.runtime_active {
            if stop_active_session {
                RevocationFollowUp::StopActiveSession
            } else {
                RevocationFollowUp::Nothing
            }
        } else if retain_partial {
            RevocationFollowUp::Nothing
        } else {
            match known.state {
                TransferState::Paused
                | TransferState::PausedByDisconnect
                | TransferState::Cancelled
                | TransferState::RecoverableFailure
                | TransferState::Failed => RevocationFollowUp::DiscardPartial,
                TransferState::Completed => RevocationFollowUp::Nothing,
                _ => RevocationFollowUp::CancelTransfer,
            }
        },
    }
}

/// A revocation that took place.
#[derive(Debug, Clone, Copy)]
pub struct Revocation {
    pub transfer_id: [u8; 16],
    pub invitation_id: [u8; 16],
    pub retain_partial: bool,
    pub follow_up: RevocationFollowUp,
}

/// The flag of a request, which is on unless the request says otherwise.
pub open spec fn flag_or_true(flag: Option<bool>) -> bool {
    match flag {
        Some(value) => value,
        None => true,
    }
}

fn default_true(flag: Option<bool>) -> (value: bool)
    ensures
        value == flag_or_true(flag),
{
    match flag {
        Some(value) => value,
        None => true,
    }
}

/// Why a request to withdraw an authorization is refused before it is looked up, if it is.
pub open spec fn revocation_refusal(
    request: RevokeAuthorizationRequest,
    target: Option<RevocationTarget>,
    development: bool,
) -> Option<Seq<char>> {
    if !development {
        Some("Native authorization revocation is development-only."@)
    } else if parsed_uuid(request.transfer_id@) is None {
        Some("native-auth-transfer-id-invalid"@)
    } else if (target matches Some(known) && known.runtime_active) && !flag_or_true(
        request.stop_active_session,
    ) && !flag_or_true(request.retain_partial) {
        Some("revocation-delete-requires-stop-active-session"@)
    } else {
        None
    }
}

/// Withdraws the authorization of a transfer on request and says what is left to do. A running
/// session that is not to be stopped keeps its data.
pub fn flowshare_native_revoke_authorization(
    registry: &mut AuthorizationRegistry,
    request: &RevokeAuthorizationRequest,
    target: Option<RevocationTarget>,
    development: bool,
    now: u64,
) -> (result: Result<Revocation, String>)
    requires
        old(registry).wf(),
    ensures
        final(registry).wf(),
        final(registry).policy() == old(registry).policy(),
        match revocation_refusal(*request, target, development) {
            Some(reason) => {
                &&& result matches Err(error) && error@ == reason
                &&& *final(registry) == *old(registry)
            },
            None => {
                let transfer_id = parsed_uuid(request.transfer_id@)->Some_0;
                match invitation_for(old(registry).records(), transfer_id@) {
                    None => {
                        &&& result matches Err(error) && error@
                            == "native-auth-invitation-not-found"@
                        &&& final(registry).records() == old(registry).records()
                        &&& final(registry).log() == old(registry).log()
                    },
                    Some(id) => {
                        &&& result matches Ok(done) && done.transfer_id == transfer_id
                            && done.invitation_id@ == id && done.retain_partial == flag_or_true(
                            request.retain_partial,
                        ) && done.follow_up == revocation_follow_up(
                            target,
                            flag_or_true(request.retain_partial),
                            flag_or_true(request.stop_active_session),
                        )
                        &&& final(registry).records() == old(registry).records().insert(
                            id,
                            (AuthorizationRecord {
                                state: InvitationState::Revoked,
                                active_session_id: None,
                                ..old(registry).records()[id]
                            }),
                        )
                        &&& log_grew(
                            old(registry).log(),
                            final(registry).log(),
                            facts_of(
                                "native-auth-authorization-revoked"@,
                                old(registry).records()[id].invitation.body,
                                None,
                                Some("invitation-revoked"@),
                                None,
                                None,
                                old(registry).policy(),
                                now,
                            ),
                        )
                    },
                }
            },
        },
{
    if !development {
        return Err("Native authorization revocation is development-only.".to_owned());
    }
    let transfer_id: [u8; 16] = match uuid_parse(request.transfer_id.as_str()) {
        Some(id) => id,
        None => return Err("native-auth-transfer-id-invalid".to_owned()),
    };
    let retain_partial: bool = default_true(request.retain_partial);
    let stop_active_session: bool = default_true(request.stop_active_session);
    let mut follow_up = RevocationFollowUp::Nothing;
    match target {
        Some(known) => {
            if known.runtime_active {
                if !stop_active_session && !retain_partial {
                    return Err("revocation-delete-requires-stop-active-session".to_owned());
                }
                if stop_active_session {
                    follow_up = RevocationFollowUp::StopActiveSession;
                }
            } else if !retain_partial {
                follow_up =
                match known.state {
                    TransferState::Paused
                    | TransferState::PausedByDisconnect
                    | TransferState::Cancelled
                    | TransferState::RecoverableFailure
                    | TransferState::Failed => RevocationFollowUp::DiscardPartial,
                    TransferState::Completed => RevocationFollowUp::Nothing,
                    _ => RevocationFollowUp::CancelTransfer,
                };
            }
        },
        None => {},
    }
    match revoke(registry, &transfer_id, now) {
        Ok(invitation_id) => Ok(
            Revocation { transfer_id, invitation_id, retain_partial, follow_up },
        ),
        Err(error) => Err(error),
    }
}

impl Revocation {
    /// The answer to the request, once it is known whether a protected secret was removed.
    pub fn response(&self, protected_secret_removed: bool) -> (response:
        RevokeAuthorizationResponse)
        ensures
            response.transfer_id@ == uuid_text(self.transfer_id@),
            response.invitation_id@ == uuid_text(self.invitation_id@),
            response.state == InvitationState::Revoked,
            response.active_session_stop_requested == (self.follow_up
                == RevocationFollowUp::StopActiveSession),
            response.protected_secret_removed == protected_secret_removed,
    {
        RevokeAuthorizationResponse {
            transfer_id: uuid_string(&self.transfer_id),
            invitation_id: uuid_string(&self.invitation_id),
            state: InvitationState::Revoked,
            active_session_stop_requested: self.follow_up == RevocationFollowUp::StopActiveSession,
            protected_secret_removed,
        }
    }
}

/// While a claim is in progress no other claim is accepted.
pub proof fn law_a_claim_excludes_all_others(
    before: AuthorizationRecord,
    after: AuthorizationRecord,
    first: SessionAuthorizationBody,
    second: SessionAuthorizationBody,
    expected: ExpectedSession,
    policy: SecurityPolicy,
    now: u64,
)
    requires
        claimed(before, after, first),
    ensures
        refreshed(after, policy, now) == after,
        claim_decision(after, second, expected, None).1 is Some,
{
}

/// The identifiers of an accepted claim are never accepted again, not even after the claim was
/// given up or the authorization was made resumable.
pub proof fn law_claim_identifiers_are_used_once(
    before: AuthorizationRecord,
    after: AuthorizationRecord,
    offer: SessionAuthorizationBody,
    handle: ClaimHandle,
    sensitive_activity: bool,
)
    requires
        claimed(before, after, offer),
    ensures
        is_replay(after, offer),
        is_replay(established(after, handle), offer),
        is_replay(given_up(after, handle, sensitive_activity), offer),
        is_replay(resumable(after), offer),
{
    let ids = after.used_authorization_ids@;
    assert(ids[ids.len() - 1]@ == offer.authorization_id@);
    assert(listed(ids, offer.authorization_id@));
}

/// A replay is refused in every mode and state, once the offer passes the cryptographic check
/// and matches what is expected.
pub proof fn law_replays_are_refused(
    record: AuthorizationRecord,
    offer: SessionAuthorizationBody,
    expected: ExpectedSession,
)
    requires
        is_replay(record, offer),
        offer_matches(offer, expected, record.invitation.body),
    ensures
        claim_decision(record, offer, expected, None).1 == Some("control-replay-detected"@),
{
}

/// A new transfer can be claimed only once: after its claim was completed, or after something
/// sensitive was exchanged, only a resume can be claimed.
pub proof fn law_new_transfer_is_claimed_once(
    record: AuthorizationRecord,
    handle: ClaimHandle,
    sensitive_activity: bool,
)
    requires
        record.normal_claim_completed || sensitive_activity,
    ensures
        !claimable(
            given_up(record, handle, sensitive_activity),
            SecureSessionMode::NewTransfer,
        ),
        claimable(given_up(record, handle, sensitive_activity), SecureSessionMode::Resume),
{
}

/// A revoked, consumed or expired authorization can be claimed in no mode, and its material is
/// withheld.
pub proof fn law_ended_authorizations_cannot_be_claimed(
    record: AuthorizationRecord,
    mode: SecureSessionMode,
)
    requires
        record.state is Revoked || record.state is Consumed || record.state is Expired,
    ensures
        !claimable(record, mode),
        withheld(record.state) is Some,
{
}

/// Undoing a restore that added an authorization gives back the records from before the
/// restore, as long as nothing has used the authorization.
pub proof fn law_rollback_undoes_an_untouched_restore(
    before: Map<Seq<u8>, AuthorizationRecord>,
    after: Map<Seq<u8>, AuthorizationRecord>,
    material: AuthorizationMaterial,
)
    requires
        install_outcome(before, material.invitation, material.master) == Ok::<
            AuthorizationInstallOutcome,
            Seq<char>,
        >(AuthorizationInstallOutcome::Inserted),
        installed(
            before,
            after,
            material,
            InvitationState::Claimed,
            AuthorizationInstallOutcome::Inserted,
        ),
    ensures
        untouched(after[material.invitation.body.invitation_id@]),
        after.remove(material.invitation.body.invitation_id@) == before,
{
    let id = material.invitation.body.invitation_id@;
    assert(!before.contains_key(id));
    assert(after.remove(id) =~= before);
}

/// The records of every registry are consistent: one transfer has one invitation, and an
/// available invitation has no completed claim for a new transfer.
pub proof fn law_registered_records_are_consistent(
    registry: AuthorizationRegistry,
    id: Seq<u8>,
    transfer_id: Seq<u8>,
)
    requires
        registry.wf(),
    ensures
        consistent(registry.records()),
        invites_to(registry.records(), id, transfer_id) ==> invitation_for(
            registry.records(),
            transfer_id,
        ) == Some(id),
{
    if invites_to(registry.records(), id, transfer_id) {
        lemma_invitation_for(registry.records(), id, transfer_id);
    }
}

proof fn lemma_claim_goes_on(
    registries: Seq<AuthorizationRegistry>,
    offers: Seq<SessionAuthorizationBody>,
    expected: Seq<ExpectedSession>,
    refusals: Seq<Option<Seq<char>>>,
    times: Seq<u64>,
    id: Seq<u8>,
    n: int,
)
    requires
        registries.len() == offers.len() + 1,
        1 <= n <= offers.len(),
        forall|i: int| 0 <= i < offers.len() ==> (#[trigger] offers[i]).invitation_id@ == id,
        forall|i: int|
            0 <= i < offers.len() ==> claim_made(
                registries[i],
                registries[i + 1],
                #[trigger] offers[i],
                expected[i],
                None,
                refusals[i],
                times[i],
            ),
        refusals[0] is None,
    ensures
        registries[n].records().contains_key(id),
        registries[n].records()[id].state is Claiming,
        registries[n].records()[id].invitation == registries[0].records()[id].invitation,
    decreases n,
{
    assert(claim_made(
        registries[n - 1],
        registries[n],
        offers[n - 1],
        expected[n - 1],
        None,
        refusals[n - 1],
        times[n - 1],
    ));
    assert(offers[n - 1].invitation_id@ == id);
    if n > 1 {
        lemma_claim_goes_on(registries, offers, expected, refusals, times, id, n - 1);
    }
}

/// Of several claims for an available invitation exactly one goes through: the first one, whose
/// identifiers are new, is accepted, and every claim after it is refused, as a replay or because
/// the invitation is claimed.
pub proof fn law_exactly_one_claim_goes_through(
    registries: Seq<AuthorizationRegistry>,
    offers: Seq<SessionAuthorizationBody>,
    expected: Seq<ExpectedSession>,
    refusals: Seq<Option<Seq<char>>>,
    times: Seq<u64>,
    id: Seq<u8>,
)
    requires
        offers.len() > 0,
        registries.len() == offers.len() + 1,
        registries[0].wf(),
        registries[0].records().contains_key(id),
        registries[0].records()[id].state is Available,
        refreshed(registries[0].records()[id], registries[0].policy(), times[0])
            == registries[0].records()[id],
        !is_replay(registries[0].records()[id], offers[0]),
        forall|i: int|
            0 <= i < offers.len() ==> {
                &&& (#[trigger] offers[i]).invitation_id@ == id
                &&& expected[i].mode is NewTransfer
                &&& offer_matches(
                    offers[i],
                    expected[i],
                    registries[0].records()[id].invitation.body,
                )
            },
        forall|i: int|
            0 <= i < offers.len() ==> claim_made(
                registries[i],
                registries[i + 1],
                #[trigger] offers[i],
                expected[i],
                None,
                refusals[i],
                times[i],
            ),
    ensures
        refusals[0] is None,
        forall|i: int|
            1 <= i < offers.len() ==> {
                ||| #[trigger] refusals[i] == Some("control-replay-detected"@)
                ||| refusals[i] == Some("invitation-already-claimed"@)
            },
{
    assert(offers[0].invitation_id@ == id);
    assert(claim_made(
        registries[0],
        registries[1],
        offers[0],
        expected[0],
        None,
        refusals[0],
        times[0],
    ));
    assert forall|i: int| 1 <= i < offers.len() implies {
        ||| #[trigger] refusals[i] == Some("control-replay-detected"@)
        ||| refusals[i] == Some("invitation-already-claimed"@)
    } by {
        lemma_claim_goes_on(registries, offers, expected, refusals, times, id, i);
        assert(offers[i].invitation_id@ == id);
        assert(claim_made(
            registries[i],
            registries[i + 1],
            offers[i],
            expected[i],
            None,
            refusals[i],
            times[i],
        ));
    }
}

/// Whether the authorization of a transfer is withdrawn and has no session.
pub open spec fn is_revoked(
    records: Map<Seq<u8>, AuthorizationRecord>,
    transfer_id: Seq<u8>,
) -> bool {
    invitation_for(records, transfer_id) matches Some(id) && records[id].state is Revoked
        && records[id].active_session_id is None
}

/// Whether `after` is what an operation other than the end of a transfer makes of a record: it is
/// made resumable, its claim is given up or completed, it is claimed, or only the time is noted.
pub open spec fn record_moves(before: AuthorizationRecord, after: AuthorizationRecord) -> bool {
    ||| after == resumable(before)
    ||| exists|handle: ClaimHandle, sensitive_activity: bool|
        before.active_session_id == Some(handle.session_id) && after == #[trigger] given_up(
            before,
            handle,
            sensitive_activity,
        )
    ||| exists|handle: ClaimHandle|
        completable(before, handle) && after == #[trigger] established(before, handle)
    ||| exists|policy: SecurityPolicy, now: u64| after == #[trigger] refreshed(before, policy, now)
    ||| exists|offer: SessionAuthorizationBody, mode: SecureSessionMode, policy: SecurityPolicy, now: u64|
        #[trigger] claimable(refreshed(before, policy, now), mode) && #[trigger] claimed(
            refreshed(before, policy, now),
            after,
            offer,
        )
}

/// A transfer whose authorization is withdrawn has it withheld: its material is refused as
/// revoked at any time.
pub proof fn law_revoking_withholds_the_material(
    before: AuthorizationRegistry,
    after: AuthorizationRegistry,
    transfer_id: Seq<u8>,
    policy: SecurityPolicy,
    now: u64,
)
    requires
        before.wf(),
        after.wf(),
        invitation_for(before.records(), transfer_id) matches Some(id) && after.records()
            == before.records().insert(id, withdrawn(before.records()[id])),
    ensures
        is_revoked(after.records(), transfer_id),
        invitation_for(after.records(), transfer_id) == invitation_for(
            before.records(),
            transfer_id,
        ),
        ({
            let id = invitation_for(after.records(), transfer_id)->Some_0;
            withheld(refreshed(after.records()[id], policy, now).state) == Some(
                "invitation-revoked"@,
            )
        }),
{
    let id = invitation_for(before.records(), transfer_id)->Some_0;
    assert(invites_to(before.records(), id, transfer_id));
    assert(invites_to(after.records(), id, transfer_id));
    lemma_invitation_for(after.records(), id, transfer_id);
}

/// A withdrawn authorization stays withdrawn, whatever is made resumable, given up, completed or
/// claimed afterwards, for this transfer or another.
pub proof fn law_revoked_transfers_stay_revoked(
    before: AuthorizationRegistry,
    after: AuthorizationRegistry,
    transfer_id: Seq<u8>,
    other: Seq<u8>,
)
    requires
        before.wf(),
        after.wf(),
        is_revoked(before.records(), transfer_id),
        before.records().contains_key(other),
        after.records() == before.records().insert(other, after.records()[other]),
        record_moves(before.records()[other], after.records()[other]),
    ensures
        is_revoked(after.records(), transfer_id),
        invitation_for(after.records(), transfer_id) == invitation_for(
            before.records(),
            transfer_id,
        ),
        invitation_for(before.records(), transfer_id) == Some(other) ==> after.records()
            == before.records(),
{
    let id = invitation_for(before.records(), transfer_id)->Some_0;
    assert(invites_to(before.records(), id, transfer_id));
    if id == other {
        assert(after.records()[other] == before.records()[other]);
        assert(after.records() =~= before.records());
    }
    assert(invites_to(after.records(), id, transfer_id));
    lemma_invitation_for(after.records(), id, transfer_id);
}

} // verus!
