//! Who may claim an invitation, when, and what becomes of it.

use crate::authorization::{
    claim_decision, claim_made, claimed, completable, consumed, established, event_limit, given_up,
    inspection_refusal, install_outcome, invitation_for, is_new_record, is_replay, listed, logged,
    newest_first, offer_matches, refreshed, requested_invitation, restore_outcome, resumable,
    revocation_follow_up, revocation_refusal, rolled_back, shows, withdrawn, withheld,
    AuthorizationInstallOutcome, AuthorizationMaterial, AuthorizationRecord, AuthorizationRegistry,
    ClaimHandle, ExpectedSession, InspectSecureInvitationRequest, InvitationState,
    PersistedAuthorizationRestoreLease, RevocationTarget, RevokeAuthorizationRequest,
    SecureInvitation, SecureInvitationInspection, SecurityEvent, SecurityPolicy,
    SessionAuthorizationBody, TransferMasterSecret, MAX_SECURITY_EVENTS,
};
use crate::encoding::{hex_text, parsed_uuid, uuid_text};
use vstd::prelude::*;

verus! {

/// A handshake that drops before anything sensitive was exchanged gives the invitation back: it
/// is available again with nobody on it, and an offer with new identifiers that is what is
/// expected goes through.
pub proof fn law_dropped_handshake_gives_the_invitation_back(
    before: AuthorizationRecord,
    during: AuthorizationRecord,
    first: SessionAuthorizationBody,
    handle: ClaimHandle,
    second: SessionAuthorizationBody,
    expected: ExpectedSession,
    policy: SecurityPolicy,
    now: u64,
)
    requires
        now <= before.invitation.body.expires_unix_ms + policy.allowed_clock_skew_ms,
        before.state is Available,
        !before.normal_claim_completed,
        claimed(before, during, first),
        handle.mode is NewTransfer,
    ensures
        ({
            let after = given_up(during, handle, false);
            &&& after.state is Available
            &&& after.active_session_id is None
            &&& !after.normal_claim_completed
            &&& after.invitation == before.invitation
            &&& after.master == before.master
            &&& (expected.mode is NewTransfer && offer_matches(
                second,
                expected,
                before.invitation.body,
            ) && second.authorization_id@ != first.authorization_id@ && second.session_id@
                != first.session_id@ && !is_replay(before, second)) ==> claim_decision(
                refreshed(after, policy, now),
                second,
                expected,
                None,
            ).1 is None
        }),
{
    let after = given_up(during, handle, false);
    if !is_replay(before, second) && second.authorization_id@ != first.authorization_id@
        && second.session_id@ != first.session_id@ {
        assert forall|i: int| 0 <= i < after.used_authorization_ids@.len() implies (
        #[trigger] after.used_authorization_ids@[i])@ != second.authorization_id@ by {
            if i < before.used_authorization_ids@.len() {
                assert(after.used_authorization_ids@[i] == before.used_authorization_ids@[i]);
            }
        }
        assert forall|i: int| 0 <= i < after.used_session_ids@.len() implies (
        #[trigger] after.used_session_ids@[i])@ != second.session_id@ by {
            if i < before.used_session_ids@.len() {
                assert(after.used_session_ids@[i] == before.used_session_ids@[i]);
            }
        }
    }
}

/// A claim that is given up after something sensitive was exchanged, after the transfer had once
/// begun, or that resumed a transfer leaves an authorization that can only be resumed. Nothing
/// else of the record changes.
pub proof fn law_given_up_claims_keep_the_record(
    record: AuthorizationRecord,
    handle: ClaimHandle,
    sensitive_activity: bool,
)
    ensures
        ({
            let after = given_up(record, handle, sensitive_activity);
            &&& (sensitive_activity || record.normal_claim_completed || handle.mode is Resume)
                ==> after.state is Claimed
            &&& after.active_session_id is None
            &&& after.last_session_id == record.last_session_id
            &&& after.normal_claim_completed == record.normal_claim_completed
            &&& after.used_authorization_ids == record.used_authorization_ids
            &&& after.used_session_ids == record.used_session_ids
            &&& after.invitation == record.invitation
            &&& after.master == record.master
        }),
{
}

/// A claim goes through exactly when the offer is genuine, is the one that is expected in every
/// field, brings two identifiers that were never used, and the invitation is free for a new
/// transfer, or was claimed before and is to be resumed.
pub proof fn law_claims_go_through_exactly_for_the_expected_offer(
    record: AuthorizationRecord,
    offer: SessionAuthorizationBody,
    expected: ExpectedSession,
    verified: Option<Seq<char>>,
)
    ensures
        claim_decision(record, offer, expected, verified).1 is None <==> {
            &&& verified is None
            &&& offer.session_id@ == expected.session_id@
            &&& offer.mode == expected.mode
            &&& offer.checkpoint_generation == expected.checkpoint_generation
            &&& offer.verified_state_digest@ == expected.state_digest@
            &&& offer.transfer_commitment@ == expected.transfer_commitment@
            &&& offer.previous_session_digest@ == expected.previous_session_digest@
            &&& offer.negotiated_capabilities == expected.capabilities
            &&& record.invitation.body.capability_digest@ == expected.capability_digest@
            &&& forall|i: int|
                0 <= i < record.used_authorization_ids@.len()
                    ==> (#[trigger] record.used_authorization_ids@[i])@ != offer.authorization_id@
            &&& forall|i: int|
                0 <= i < record.used_session_ids@.len()
                    ==> (#[trigger] record.used_session_ids@[i])@ != offer.session_id@
            &&& expected.mode is NewTransfer ==> record.state is Available
                && !record.normal_claim_completed
            &&& expected.mode is Resume ==> record.state is Claimed
        },
        verified is Some ==> claim_decision(record, offer, expected, verified).1 == verified,
{
    let new_authorization = forall|i: int|
        0 <= i < record.used_authorization_ids@.len()
            ==> (#[trigger] record.used_authorization_ids@[i])@ != offer.authorization_id@;
    let new_session = forall|i: int|
        0 <= i < record.used_session_ids@.len() ==> (#[trigger] record.used_session_ids@[i])@
            != offer.session_id@;
    assert(new_authorization == !listed(record.used_authorization_ids@, offer.authorization_id@));
    assert(new_session == !listed(record.used_session_ids@, offer.session_id@));
}

/// What a refused claim is told: a replay is a replay whatever the state, an ended authorization
/// is named by its end, and one that is taken is already claimed.
pub proof fn law_refused_claims_are_told_why(
    record: AuthorizationRecord,
    offer: SessionAuthorizationBody,
    expected: ExpectedSession,
)
    requires
        offer_matches(offer, expected, record.invitation.body),
    ensures
        ({
            let refusal = claim_decision(record, offer, expected, None).1;
            let used = listed(record.used_authorization_ids@, offer.authorization_id@) || listed(
                record.used_session_ids@,
                offer.session_id@,
            );
            &&& used ==> refusal == Some("control-replay-detected"@)
            &&& !used && record.state is Expired ==> refusal == Some("invitation-expired"@)
            &&& !used && record.state is Revoked ==> refusal == Some("invitation-revoked"@)
            &&& !used && record.state is Consumed ==> refusal == Some(
                "resume-authorization-failed"@,
            )
            &&& !used && (record.state is Claiming || record.state is Active) ==> refusal == Some(
                "invitation-already-claimed"@,
            )
            &&& !used && record.state is Claimed && expected.mode is NewTransfer ==> refusal
                == Some("invitation-already-claimed"@)
            &&& !used && record.state is Available && expected.mode is Resume ==> refusal == Some(
                "invitation-already-claimed"@,
            )
        }),
{
}

/// An accepted claim takes the invitation for its session, and uses up its two identifiers and
/// no others.
pub proof fn law_accepted_claims_take_the_invitation(
    before: AuthorizationRegistry,
    after: AuthorizationRegistry,
    offer: SessionAuthorizationBody,
    expected: ExpectedSession,
    now: u64,
)
    requires
        claim_made(before, after, offer, expected, None, None, now),
    ensures
        ({
            let id = offer.invitation_id@;
            let record = after.records()[id];
            let old = before.records()[id];
            &&& before.records().contains_key(id)
            &&& record.state is Claiming
            &&& record.active_session_id == Some(offer.session_id)
            &&& record.used_authorization_ids@ == old.used_authorization_ids@.push(
                offer.authorization_id,
            )
            &&& record.used_session_ids@ == old.used_session_ids@.push(offer.session_id)
            &&& record.last_session_id == old.last_session_id
            &&& record.normal_claim_completed == old.normal_claim_completed
            &&& record.invitation == old.invitation
            &&& record.master == old.master
            &&& forall|other: Seq<u8>|
                other != id ==> {
                    &&& #[trigger] after.records().contains_key(other)
                        == before.records().contains_key(other)
                    &&& after.records()[other] == before.records()[other]
                }
        }),
{
}

/// An available invitation expires once its time and the allowed skew are over, not before; one
/// that was taken or ended does not change with time.
pub proof fn law_only_available_invitations_expire(
    record: AuthorizationRecord,
    policy: SecurityPolicy,
    now: u64,
)
    ensures
        ({
            let after = refreshed(record, policy, now);
            let end = record.invitation.body.expires_unix_ms + policy.allowed_clock_skew_ms;
            &&& record.state is Available && now > end ==> after.state is Expired
                && after.active_session_id is None
            &&& now <= end ==> after == record
            &&& !(record.state is Available) ==> after == record
            &&& after.invitation == record.invitation
            &&& after.master == record.master
            &&& after.used_authorization_ids == record.used_authorization_ids
            &&& after.used_session_ids == record.used_session_ids
            &&& after.normal_claim_completed == record.normal_claim_completed
            &&& after.last_session_id == record.last_session_id
        }),
{
}

/// The material of a transfer is withheld exactly when its authorization has ended, and the end
/// is named.
pub proof fn law_material_is_withheld_after_the_end(state: InvitationState)
    ensures
        withheld(state) is None <==> state is Available || state is Claiming || state is Claimed
            || state is Active,
        state is Revoked ==> withheld(state) == Some("invitation-revoked"@),
        state is Expired ==> withheld(state) == Some("invitation-expired"@),
        state is Consumed ==> withheld(state) == Some("resume-authorization-failed"@),
{
}

/// A claim is completed only by the session that made it, while it is being made.
pub proof fn law_only_the_claiming_session_completes(
    record: AuthorizationRecord,
    handle: ClaimHandle,
)
    ensures
        completable(record, handle) <==> {
            &&& record.state is Claiming
            &&& record.active_session_id == Some(handle.session_id)
            &&& exists|i: int|
                0 <= i < record.used_authorization_ids@.len()
                    && (#[trigger] record.used_authorization_ids@[i])@ == handle.authorization_id@
        },
        ({
            let after = established(record, handle);
            &&& after.state is Active
            &&& after.active_session_id == record.active_session_id
            &&& after.last_session_id == Some(handle.session_id)
            &&& handle.mode is NewTransfer ==> after.normal_claim_completed
            &&& handle.mode is Resume ==> after.normal_claim_completed
                == record.normal_claim_completed
            &&& after.used_authorization_ids == record.used_authorization_ids
            &&& after.used_session_ids == record.used_session_ids
            &&& after.invitation == record.invitation
            &&& after.master == record.master
        }),
{
}

/// A transfer that is made resumable can be claimed to be resumed and never as a new one; one
/// that has ended stays ended.
pub proof fn law_resumable_transfers_can_be_resumed(record: AuthorizationRecord)
    ensures
        ({
            let after = resumable(record);
            &&& record.state is Active || record.state is Available ==> {
                &&& after.state is Claimed
                &&& after.active_session_id is None
                &&& after.normal_claim_completed
            }
            &&& !(record.state is Active || record.state is Available) ==> after == record
            &&& after.invitation == record.invitation
            &&& after.master == record.master
            &&& after.used_authorization_ids == record.used_authorization_ids
            &&& after.used_session_ids == record.used_session_ids
            &&& after.last_session_id == record.last_session_id
        }),
{
}

/// A finished transfer and a withdrawn one end for good: nobody is on them, nothing can be
/// claimed, and what was used stays used.
pub proof fn law_ended_records_keep_what_was_used(record: AuthorizationRecord)
    ensures
        consumed(record).state is Consumed,
        withdrawn(record).state is Revoked,
        consumed(record).active_session_id is None,
        withdrawn(record).active_session_id is None,
        consumed(record).used_session_ids == record.used_session_ids,
        withdrawn(record).used_session_ids == record.used_session_ids,
        consumed(record).used_authorization_ids == record.used_authorization_ids,
        withdrawn(record).used_authorization_ids == record.used_authorization_ids,
        consumed(record).invitation == record.invitation,
        withdrawn(record).invitation == record.invitation,
        consumed(record).master == record.master,
        withdrawn(record).master == record.master,
        consumed(record).last_session_id == record.last_session_id,
        withdrawn(record).last_session_id == record.last_session_id,
        consumed(record).normal_claim_completed == record.normal_claim_completed,
        withdrawn(record).normal_claim_completed == record.normal_claim_completed,
{
}

/// A new invitation can be claimed for a new transfer; an authorization that was restored from
/// disk only for a resume.
pub proof fn law_new_records_wait_for_their_kind_of_claim(
    record: AuthorizationRecord,
    invitation: SecureInvitation,
    master: TransferMasterSecret,
    state: InvitationState,
    offer: SessionAuthorizationBody,
    expected: ExpectedSession,
)
    requires
        is_new_record(record, invitation, master, state),
        offer_matches(offer, expected, invitation.body),
    ensures
        state is Available ==> (claim_decision(record, offer, expected, None).1 is None
            <==> expected.mode is NewTransfer),
        state is Claimed ==> (claim_decision(record, offer, expected, None).1 is None
            <==> expected.mode is Resume),
        record.state == state,
        record.active_session_id is None,
        record.last_session_id is None,
        record.invitation == invitation,
        record.master == master,
        record.used_authorization_ids@.len() == 0,
        record.used_session_ids@.len() == 0,
{
    assert(!listed(record.used_authorization_ids@, offer.authorization_id@));
    assert(!listed(record.used_session_ids@, offer.session_id@));
}

/// An invitation is added only where it is new: the same one with the same secret is found again
/// with its state, another one or another secret under its identifier is refused, and so is a
/// second invitation for its transfer.
pub proof fn law_invitations_are_added_once(
    records: Map<Seq<u8>, AuthorizationRecord>,
    invitation: SecureInvitation,
    master: TransferMasterSecret,
)
    ensures
        ({
            let id = invitation.body.invitation_id@;
            let outcome = install_outcome(records, invitation, master);
            let same = records[id].invitation.body == invitation.body
                && records[id].invitation.encoded@ == invitation.encoded@ && records[id].master
                == master;
            &&& records.contains_key(id) && same ==> outcome
                == Ok::<AuthorizationInstallOutcome, Seq<char>>(
                AuthorizationInstallOutcome::Existing(records[id].state),
            )
            &&& records.contains_key(id) && !same ==> outcome == Err::<
                AuthorizationInstallOutcome,
                Seq<char>,
            >("authentication-failed"@)
            &&& !records.contains_key(id) ==> (outcome == Ok::<
                AuthorizationInstallOutcome,
                Seq<char>,
            >(AuthorizationInstallOutcome::Inserted) <==> forall|other: Seq<u8>|
                #[trigger] records.contains_key(other)
                    ==> records[other].invitation.body.transfer_id@
                    != invitation.body.transfer_id@)
            &&& !records.contains_key(id) && outcome is Err ==> outcome->Err_0
                == "native-auth-transfer-already-registered"@
        }),
{
    let id = invitation.body.invitation_id@;
    let transfer = invitation.body.transfer_id@;
    if !records.contains_key(id) {
        if invitation_for(records, transfer) is None {
            assert forall|other: Seq<u8>| #[trigger] records.contains_key(other) implies
                records[other].invitation.body.transfer_id@ != transfer by {
                assert(!crate::authorization::invites_to(records, other, transfer));
            }
        } else {
            let other = choose|other: Seq<u8>|
                crate::authorization::invites_to(records, other, transfer);
            assert(records.contains_key(other));
        }
    }
}

/// A restored authorization that has ended is refused by the name of its end; any other is taken
/// as it is, and only one that is new is inserted.
pub proof fn law_ended_authorizations_are_not_restored(
    records: Map<Seq<u8>, AuthorizationRecord>,
    material: AuthorizationMaterial,
)
    ensures
        ({
            let outcome = restore_outcome(records, material);
            match install_outcome(records, material.invitation, material.master) {
                Err(error) => outcome == Err::<bool, Seq<char>>(error),
                Ok(AuthorizationInstallOutcome::Inserted) => outcome == Ok::<bool, Seq<char>>(true),
                Ok(AuthorizationInstallOutcome::Existing(state)) => {
                    &&& outcome is Ok <==> state is Available || state is Claiming
                        || state is Claimed || state is Active
                    &&& outcome is Ok ==> outcome == Ok::<bool, Seq<char>>(false)
                    &&& state is Revoked ==> outcome == Err::<bool, Seq<char>>(
                        "invitation-revoked"@,
                    )
                    &&& state is Expired ==> outcome == Err::<bool, Seq<char>>(
                        "invitation-expired"@,
                    )
                    &&& state is Consumed ==> outcome == Err::<bool, Seq<char>>(
                        "resume-authorization-failed"@,
                    )
                },
            }
        }),
{
}

/// A restore is undone only where it added the record and nobody used the record since.
pub proof fn law_used_restores_are_kept(
    records: Map<Seq<u8>, AuthorizationRecord>,
    lease: PersistedAuthorizationRestoreLease,
    other: Seq<u8>,
)
    ensures
        ({
            let id = lease.invitation_id@;
            let record = records[id];
            let after = rolled_back(records, lease);
            &&& records.contains_key(id) ==> (!after.contains_key(id) <==> {
                &&& lease.inserted
                &&& record.state is Claimed
                &&& record.active_session_id is None
                &&& record.last_session_id is None
                &&& record.used_authorization_ids@.len() == 0
                &&& record.used_session_ids@.len() == 0
            })
            &&& other != id ==> after.contains_key(other) == records.contains_key(other)
            &&& after.contains_key(other) ==> after[other] == records[other]
        }),
{
}

/// The log keeps the latest events in the order in which they came, and loses only the oldest one
/// when it is full.
pub proof fn law_the_log_loses_only_the_oldest(log: Seq<SecurityEvent>, event: SecurityEvent)
    requires
        log.len() <= MAX_SECURITY_EVENTS,
    ensures
        logged(log, event).len() > 0,
        logged(log, event).last() == event,
        logged(log, event).len() <= MAX_SECURITY_EVENTS,
        log.len() < MAX_SECURITY_EVENTS ==> logged(log, event).drop_last() == log,
        log.len() == MAX_SECURITY_EVENTS ==> logged(log, event).drop_last() == log.skip(1),
{
    assert(logged(log, event).drop_last() =~= if log.len() == MAX_SECURITY_EVENTS {
        log.skip(1)
    } else {
        log
    });
}

/// Where each event of a listing stands in the log: later events are listed first, each is of the
/// transfer that was asked for, and none is left out but for the limit.
pub proof fn law_events_are_listed_from_the_newest(
    log: Seq<SecurityEvent>,
    transfer_id: Option<String>,
    limit: nat,
    n: nat,
) -> (places: Seq<int>)
    requires
        n <= log.len(),
    ensures
        places.len() == newest_first(log, transfer_id, limit, n).len(),
        places.len() <= limit,
        forall|i: int|
            0 <= i < places.len() ==> 0 <= #[trigger] places[i] < n && log[places[i]]
                == newest_first(log, transfer_id, limit, n)[i],
        forall|i: int, j: int| 0 <= i < j < places.len() ==> places[i] > places[j],
        forall|i: int|
            0 <= i < places.len() && transfer_id is Some ==> (
            #[trigger] log[places[i]]).transfer_id@ == transfer_id->Some_0@,
        places.len() < limit ==> forall|k: int|
            0 <= k < n && (transfer_id is None || (#[trigger] log[k]).transfer_id@
                == transfer_id->Some_0@) ==> places.contains(k),
    decreases n,
{
    if n == 0 || limit == 0 {
        Seq::empty()
    } else {
        let wanted = transfer_id is None || log[n - 1].transfer_id@ == transfer_id->Some_0@;
        if wanted {
            let rest = law_events_are_listed_from_the_newest(
                log,
                transfer_id,
                (limit - 1) as nat,
                (n - 1) as nat,
            );
            let places = seq![n - 1] + rest;
            let listed = newest_first(log, transfer_id, limit, n);
            assert(listed == seq![log[n - 1]] + newest_first(
                log,
                transfer_id,
                (limit - 1) as nat,
                (n - 1) as nat,
            ));
            assert forall|i: int| 0 <= i < places.len() implies 0 <= #[trigger] places[i] < n
                && log[places[i]] == listed[i] by {
                if i > 0 {
                    assert(places[i] == rest[i - 1]);
                }
            }
            assert forall|i: int, j: int| 0 <= i < j < places.len() implies places[i]
                > places[j] by {
                assert(places[j] == rest[j - 1]);
                if i > 0 {
                    assert(places[i] == rest[i - 1]);
                }
            }
            assert forall|i: int| 0 <= i < places.len() && transfer_id is Some implies (
            #[trigger] log[places[i]]).transfer_id@ == transfer_id->Some_0@ by {
                if i > 0 {
                    assert(places[i] == rest[i - 1]);
                }
            }
            if places.len() < limit {
                assert forall|k: int|
                    0 <= k < n && (transfer_id is None || (#[trigger] log[k]).transfer_id@
                        == transfer_id->Some_0@) implies places.contains(k) by {
                    if k == n - 1 {
                        assert(places[0] == k);
                    } else {
                        assert(rest.contains(k));
                        let i = choose|i: int| 0 <= i < rest.len() && rest[i] == k;
                        assert(places[i + 1] == k);
                    }
                }
            }
            places
        } else {
            law_events_are_listed_from_the_newest(log, transfer_id, limit, (n - 1) as nat)
        }
    }
}

/// No listing asks for more events than the log holds; without a wish it is two hundred.
pub proof fn law_listings_are_bounded(limit: Option<usize>)
    ensures
        event_limit(limit) <= MAX_SECURITY_EVENTS,
        limit matches Some(wanted) ==> (wanted <= MAX_SECURITY_EVENTS ==> event_limit(limit)
            == wanted),
        limit matches Some(wanted) ==> (wanted > MAX_SECURITY_EVENTS ==> event_limit(limit)
            == MAX_SECURITY_EVENTS),
        limit is None ==> event_limit(limit) == 200,
{
}

/// What a revocation does to the transfer itself: it stops a run only when it may, deletes data
/// only when it was not to be kept and no run is left, and leaves a completed file alone.
pub proof fn law_revocations_touch_only_what_they_may(
    target: Option<RevocationTarget>,
    retain_partial: bool,
    stop_active_session: bool,
)
    ensures
        ({
            let follow_up = revocation_follow_up(target, retain_partial, stop_active_session);
            let active = target matches Some(known) && known.runtime_active;
            let idle = target matches Some(known) && !known.runtime_active;
            &&& follow_up is StopActiveSession <==> active && stop_active_session
            &&& follow_up is DiscardPartial <==> idle && !retain_partial && (
            target->Some_0.state is Paused || target->Some_0.state is PausedByDisconnect
                || target->Some_0.state is Cancelled || target->Some_0.state is RecoverableFailure
                || target->Some_0.state is Failed)
            &&& follow_up is CancelTransfer ==> idle && !retain_partial && !(
            target->Some_0.state is Completed)
            &&& retain_partial && !active ==> follow_up is Nothing
            &&& target is None ==> follow_up is Nothing
            &&& idle && target->Some_0.state is Completed ==> follow_up is Nothing
            &&& active && !stop_active_session ==> follow_up is Nothing
        }),
{
}

/// A revocation is refused only outside development builds, for an identifier that is none, and
/// where data is to be deleted under a run that may not be stopped.
pub proof fn law_revocations_are_refused_only_for_cause(
    request: RevokeAuthorizationRequest,
    target: Option<RevocationTarget>,
    development: bool,
)
    ensures
        revocation_refusal(request, target, development) is None <==> {
            &&& development
            &&& parsed_uuid(request.transfer_id@) is Some
            &&& !((target matches Some(known) && known.runtime_active)
                && request.stop_active_session == Some(false) && request.retain_partial == Some(
                false,
            ))
        },
{
}

/// Every claim is logged by its outcome: accepted ones as that, a wrong certificate, a replay and a
/// taken invitation by their names, anything else as a rejected session. An offer that is not the
/// expected one is a mismatch.
pub proof fn law_claims_are_logged_by_their_outcome(
    record: AuthorizationRecord,
    offer: SessionAuthorizationBody,
    expected: ExpectedSession,
    verified: Option<Seq<char>>,
)
    ensures
        ({
            let (name, refusal) = claim_decision(record, offer, expected, verified);
            let genuine = verified is None && offer_matches(
                offer,
                expected,
                record.invitation.body,
            );
            let used = is_replay(record, offer);
            &&& refusal is None ==> name == "native-auth-claim-accepted"@
            &&& verified == Some("certificate-binding-failed"@) ==> name
                == "native-auth-certificate-rejected"@
            &&& verified is Some && verified != Some("certificate-binding-failed"@) ==> name
                == "native-auth-session-rejected"@
            &&& verified is None && !genuine ==> name == "native-auth-session-rejected"@ && refusal
                == Some("transcript-mismatch"@)
            &&& genuine && used ==> name == "native-auth-replay-rejected"@
            &&& genuine && !used && refusal is Some ==> name == "native-auth-claim-rejected"@
        }),
{
}

/// A record is looked at exactly in development builds and by one identifier that is one.
pub proof fn law_inspections_name_one_record(
    request: InspectSecureInvitationRequest,
    development: bool,
)
    ensures
        inspection_refusal(request, development) is None <==> {
            &&& development
            &&& request.invitation_id is Some || request.transfer_id is Some
            &&& request.invitation_id is None || request.transfer_id is None
            &&& request.invitation_id matches Some(text) ==> parsed_uuid(text@) is Some
            &&& request.transfer_id matches Some(text) ==> parsed_uuid(text@) is Some
        },
{
}

/// What is found for an identifier: the record of the invitation, or that of the transfer.
pub proof fn law_records_are_found_by_their_identifier(
    records: Map<Seq<u8>, AuthorizationRecord>,
    invitation: Option<[u8; 16]>,
    transfer: Option<[u8; 16]>,
)
    ensures
        requested_invitation(records, invitation, transfer) matches Some(id) ==> {
            &&& records.contains_key(id)
            &&& invitation matches Some(wanted) ==> id == wanted@
            &&& invitation is None ==> transfer is Some
                && records[id].invitation.body.transfer_id@ == transfer->Some_0@
        },
        invitation matches Some(wanted) ==> (records.contains_key(wanted@)
            ==> requested_invitation(records, invitation, transfer) == Some(wanted@)),
        invitation is None && transfer is None ==> requested_invitation(
            records,
            invitation,
            transfer,
        ) is None,
{
    if invitation is None && transfer is Some {
        let wanted = transfer->Some_0@;
        if invitation_for(records, wanted) is Some {
            let id = invitation_for(records, wanted)->Some_0;
            assert(crate::authorization::invites_to(records, id, wanted));
        }
    }
}

/// What is shown of a record names it and says how it stands, and never its secrets.
pub proof fn law_inspections_hide_secrets(
    inspection: SecureInvitationInspection,
    record: AuthorizationRecord,
    policy: SecurityPolicy,
)
    requires
        shows(inspection, record, policy),
    ensures
        inspection.authorization_secret@ == "[REDACTED]"@,
        inspection.authentication_tags@ == "[REDACTED]"@,
        inspection.delivery_model@ == "pre-shared-one-time-secret"@,
        inspection.state == record.state,
        inspection.invitation_id@ == uuid_text(record.invitation.body.invitation_id@),
        inspection.transfer_id@ == uuid_text(record.invitation.body.transfer_id@),
        inspection.created_unix_ms == record.invitation.body.created_unix_ms,
        inspection.expires_unix_ms == record.invitation.body.expires_unix_ms,
        inspection.protocol_version == policy.protocol_version,
        inspection.allowed_file_count == record.invitation.body.allowed_file_count,
        inspection.maximum_claim_count == record.invitation.body.maximum_claim_count,
        inspection.certificate_fingerprint_sha256@ == hex_text(
            record.invitation.body.server_certificate_fingerprint@,
        ),
        inspection.capability_digest_sha256@ == hex_text(
            record.invitation.body.capability_digest@,
        ),
        inspection.active_session_id is Some <==> record.active_session_id is Some,
        inspection.last_session_id is Some <==> record.last_session_id is Some,
        record.active_session_id matches Some(id) ==> inspection.active_session_id->Some_0@
            == uuid_text(id@),
        record.last_session_id matches Some(id) ==> inspection.last_session_id->Some_0@
            == uuid_text(id@),
{
}

} // verus!
