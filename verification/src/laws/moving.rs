//! What happens while a file is on its way.

use crate::address::SocketAddress;
use crate::authorization::{facts_of, log_grew, SecureInvitationBody, SecurityEvent, SecurityPolicy};
use crate::block_hash::{
    is_file_of, is_selection, BlockHashManifest, BlockHashSelection, SidecarExpectation,
    SidecarRead,
};
use crate::candidates::{CandidatePrivacyPolicy, NativeAddressFamily};
use crate::connectivity::{
    answered_candidates, canonical_id, joint_results, of_family, usual_options, ServerAnswers,
};
use crate::cross_platform::{chosen_options, loopback_options, FlowShareApiError, FlowShareEngine};
use crate::encoding::{parsed_uuid, uuid_text};
use crate::file_transfer::{
    gathered, name_defect, outcome_of_stop, part_name, recording_refusal, resume_name,
    CompletedBlocks, FailureOutcome, FileCompletionAck, FileControl, NativeFileLoopbackRequest,
    RangeReceiver, StopReason, TransferProgress,
};
use crate::hole_punch::{fresh_state, start_states, with_state, HolePunchReport, StateFacts};
use crate::lifecycle::TransferState;
use crate::ordering::views;
use crate::path_selection::PairFacts;
use crate::paths::{file_name_of, is_absolute_path, PathStyle};
use crate::port_mapping::{
    reports_failure, reports_success, NativePortMappingProtocol, PortMappingAttemptDiagnostic,
};
use crate::protocol::{covers, CompletionManifest, ProtocolError, RangeHeader, RangeLedger};
use crate::text::ends_with_text;
use vstd::prelude::*;

verus! {

/// A range has come in exactly when nobody stopped it, nothing followed it, and as much was
/// written as it says.
pub proof fn law_ranges_come_in_whole(receiver: RangeReceiver, trailing: bool, written: u64)
    ensures
        receiver.shortfall(trailing, written) is None <==> !receiver.is_stopped() && !trailing
            && written == receiver.of().length,
        receiver.is_stopped() ==> receiver.shortfall(trailing, written) == Some(
            "native-file-transfer-cancelled"@,
        ),
        !receiver.is_stopped() && trailing ==> receiver.shortfall(trailing, written) == Some(
            "range-declared-length-mismatch"@,
        ),
{
}

/// The next block of a range starts where the last one ended, is as long as the others or as what
/// is left, and stays within the range.
pub proof fn law_blocks_of_a_range_follow_one_another(receiver: RangeReceiver)
    requires
        receiver.wf(),
    ensures
        receiver.target() <= receiver.block_size(),
        receiver.target() <= receiver.left(),
        receiver.target() == receiver.block_size() || receiver.target() == receiver.left(),
        receiver.block_offset() >= receiver.of().offset,
        receiver.block_offset() + receiver.target() <= receiver.of().offset
            + receiver.of().length,
        receiver.left() == receiver.of().length ==> receiver.block_offset()
            == receiver.of().offset,
{
}

/// A range that came in is kept beside the others exactly where no byte of it was kept before.
pub proof fn law_ranges_are_kept_once(ranges: Map<u64, (u64, u32)>, header: RangeHeader)
    requires
        header.length > 0,
        forall|offset: u64| #[trigger] ranges.contains_key(offset) ==> ranges[offset].0 > 0,
    ensures
        recording_refusal(ranges, header) is None <==> forall|position: int|
            header.offset <= position < header.offset + header.length ==> !#[trigger] covers(
                ranges,
                position,
            ),
        recording_refusal(ranges, header) == Some(ProtocolError::DuplicateRange)
            <==> ranges.contains_key(header.offset) && ranges[header.offset] == (
            header.length,
            header.range_id,
        ),
{
    if recording_refusal(ranges, header) is None {
        assert forall|position: int|
            header.offset <= position < header.offset + header.length implies !#[trigger] covers(
            ranges,
            position,
        ) by {
            if covers(ranges, position) {
                let offset = choose|offset: u64| #[trigger]
                    ranges.contains_key(offset) && offset <= position < offset + ranges[offset].0;
                if offset <= header.offset {
                    assert(covers(ranges, header.offset as int));
                } else {
                    assert(crate::protocol::starts_within(
                        ranges,
                        header.offset as int,
                        header.offset + header.length,
                    ));
                }
            }
        }
    }
    if crate::protocol::starts_within(
        ranges,
        header.offset as int,
        header.offset + header.length,
    ) {
        let offset = choose|offset: u64| #[trigger]
            ranges.contains_key(offset) && header.offset <= offset < header.offset
                + header.length;
        assert(covers(ranges, offset as int));
    }
    if ranges.contains_key(header.offset) {
        assert(covers(ranges, header.offset as int));
    }
}

/// The streams of a file together: without an error exactly when each of them brought its range,
/// and then with the bytes of all of them.
pub proof fn law_all_streams_must_succeed(results: Seq<Result<RangeHeader, String>>, n: int, k: int)
    requires
        0 <= k < n <= results.len(),
    ensures
        gathered(results, n).error is None ==> results[k] is Ok,
        gathered(results, n).error is None ==> gathered(results, n).bytes
            >= results[k]->Ok_0.length,
        gathered(results, n).error is None ==> gathered(results, k + 1).error is None,
        gathered(results, n).error is None ==> gathered(results, n).ranges.contains_key(
            results[k]->Ok_0.offset,
        ),
        results[0] is Err ==> gathered(results, n).error == Some(results[0]->Err_0@),
    decreases n,
{
    if k < n - 1 {
        law_all_streams_must_succeed(results, n - 1, k);
    }
    if n > 1 {
        law_all_streams_must_succeed(results, n - 1, 0);
    } else {
        assert(gathered(results, 0).error is None);
    }
}

/// A piece of a file is a block exactly when it starts at one, within the file, and is as long as
/// it; only blocks are noted.
pub proof fn law_only_whole_blocks_are_noted(blocks: CompletedBlocks, offset: u64, length: int)
    requires
        blocks.wf(),
    ensures
        blocks.is_block(offset, length) ==> {
            let block = offset as int / blocks.block_size as int;
            &&& offset == block * blocks.block_size
            &&& block < blocks.total_blocks
            &&& length <= blocks.block_size
            &&& length == blocks.block_size || offset + length == blocks.file_size
        },
        offset as int % blocks.block_size as int != 0 ==> !blocks.is_block(offset, length),
{
    vstd::arithmetic::div_mod::lemma_fundamental_div_mod(offset as int, blocks.block_size as int);
    let block = offset as int / blocks.block_size as int;
    assert(block * blocks.block_size == blocks.block_size * block) by (nonlinear_arith);
}

/// A transfer may be finalized exactly when what the sender says of it is of this transfer and
/// this content, every byte is there, and nobody stopped it.
pub proof fn law_finalizing_needs_everything(
    progress: TransferProgress,
    ledger: RangeLedger,
    manifest: CompletionManifest,
    expected_sha256: [u8; 32],
    cancelled: bool,
)
    ensures
        progress.manifest_refusal(ledger, manifest, expected_sha256, cancelled) is None <==> {
            &&& manifest.transfer_id == progress.transfer_id
            &&& manifest.sha256 == Some(expected_sha256)
            &&& ledger.incomplete(manifest, progress.blocks.file_size) is None
            &&& !cancelled
        },
        manifest.transfer_id != progress.transfer_id || manifest.sha256 != Some(expected_sha256)
            ==> progress.manifest_refusal(ledger, manifest, expected_sha256, cancelled) == Some(
            "completion-manifest-mismatch"@,
        ),
{
}

/// What becomes of a transfer that broke off: what may go on is kept in the state that says why it
/// stopped, what is not wanted any more is discarded, and anything else has failed.
pub proof fn law_stopped_transfers_are_kept_or_discarded(
    stop: Option<StopReason>,
    retain_partial: bool,
)
    ensures
        ({
            let outcome = outcome_of_stop(stop, retain_partial);
            &&& outcome is Discard <==> stop == Some(StopReason::CancelDelete)
            &&& outcome is Fail <==> stop is None && !retain_partial
            &&& outcome matches FailureOutcome::Checkpoint(state) ==> {
                &&& state is Paused <==> stop == Some(StopReason::Pause)
                &&& state is Cancelled <==> stop == Some(StopReason::CancelRetain)
                &&& state is PausedByDisconnect <==> stop == Some(StopReason::Disconnect)
                &&& state is RecoverableFailure <==> stop is None
                &&& state.leads_to(TransferState::Resuming)
            }
        }),
{
}

/// A transfer that broke off comes to rest in its state, and keeps what it has.
pub proof fn law_broken_transfers_come_to_rest(
    progress: TransferProgress,
    outcome: FailureOutcome,
    checkpoint_error: Option<String>,
    error: String,
    now: u64,
)
    requires
        progress.lifecycle.generation < u64::MAX,
    ensures
        ({
            let after = progress.settled(outcome, checkpoint_error, error, now);
            &&& outcome is Fail && progress.lifecycle.state.leads_to(TransferState::Failed)
                ==> after.lifecycle.state is Failed && after.terminal_error == Some(error)
            &&& outcome is Discard && progress.lifecycle.state.leads_to(TransferState::Cancelled)
                ==> after.lifecycle.state is Cancelled
            &&& outcome matches FailureOutcome::Checkpoint(state) ==> (
            progress.lifecycle.state.leads_to(state) ==> after.lifecycle.state == state)
            &&& outcome is Checkpoint && checkpoint_error is Some ==> after.terminal_error
                == checkpoint_error
            &&& outcome is Checkpoint && checkpoint_error is None ==> after.terminal_error
                == progress.terminal_error
            &&& after.blocks == progress.blocks
            &&& after.counters == progress.counters
            &&& after.checkpoint_generation == progress.checkpoint_generation
        }),
{
}

/// A file that is confirmed with what was asked for, in full and with its digest, is confirmed.
pub proof fn law_received_files_are_confirmed(control: FileControl, actual_sha256: [u8; 32])
    ensures
        ({
            let ack = FileCompletionAck {
                transfer_id: control.transfer_id,
                received_bytes: control.file_size,
                sha256: actual_sha256,
                integrity_ok: true,
            };
            crate::file_transfer::confirms(ack, control, control.file_size) <==> actual_sha256
                == control.expected_sha256
        }),
{
}

/// A source is sent under its own name, which is neither empty nor a directory's and holds no
/// separator.
pub proof fn law_sources_are_sent_under_their_name(style: PathStyle, source: Seq<char>)
    ensures
        name_defect(style, source) is None <==> {
            &&& file_name_of(style, source) is Some
            &&& file_name_of(style, source)->Some_0.len() > 0
            &&& file_name_of(style, source)->Some_0 != "."@
            &&& file_name_of(style, source)->Some_0 != ".."@
            &&& forall|i: int|
                0 <= i < file_name_of(style, source)->Some_0.len() ==> #[trigger] file_name_of(
                    style,
                    source,
                )->Some_0[i] != '/' && file_name_of(style, source)->Some_0[i] != '\\'
        },
        file_name_of(style, source) is None ==> name_defect(style, source) == Some(
            "invalid-source-file-name"@,
        ),
{
}

/// What is not finished is hidden and named after its transfer: the part with one ending, its
/// record with another.
pub proof fn law_unfinished_files_are_hidden(name: Seq<char>, transfer_id: Seq<u8>)
    ensures
        part_name(name, transfer_id).len() > 0 && part_name(name, transfer_id)[0] == '.',
        resume_name(name, transfer_id).len() > 0 && resume_name(name, transfer_id)[0] == '.',
        ends_with_text(part_name(name, transfer_id), ".part"@),
        ends_with_text(resume_name(name, transfer_id), ".resume.current"@),
        part_name(name, transfer_id) != resume_name(name, transfer_id),
{
    reveal_strlit(".");
    reveal_strlit(".part");
    reveal_strlit(".resume.current");
    let part = part_name(name, transfer_id);
    let resume = resume_name(name, transfer_id);
    assert(part.subrange(part.len() - ".part"@.len(), part.len() as int) =~= ".part"@);
    assert(resume.subrange(resume.len() - ".resume.current"@.len(), resume.len() as int)
        =~= ".resume.current"@);
    assert(part.len() + 10 == resume.len());
}

/// A measured transfer runs with one of four numbers of streams and one of four sizes of blocks.
pub proof fn law_measured_transfers_are_configured(request: NativeFileLoopbackRequest)
    ensures
        request.config_defect() is None <==> {
            let streams = request.streams();
            &&& streams == 1 || streams == 2 || streams == 4 || streams == 8
            &&& request.block_bytes matches Some(bytes) ==> bytes == 1024 * 1024 || bytes == 2
                * 1024 * 1024 || bytes == 4 * 1024 * 1024 || bytes == 8 * 1024 * 1024
        },
        request.stream_count is None ==> request.streams() == 4,
        request.stream_count matches Some(count) ==> request.streams() == count,
{
}

/// Of the stored lists of hashes the first that is acceptable is chosen, and none where none is;
/// what was chosen is acceptable itself.
pub proof fn law_the_first_acceptable_list_is_chosen(
    selection: BlockHashSelection,
    reads: Seq<(String, SidecarRead)>,
    expected: SidecarExpectation,
)
    requires
        is_selection(selection, reads, expected),
    ensures
        selection.manifest is Some <==> exists|i: int|
            0 <= i < reads.len() && expected.accepts((#[trigger] reads[i]).1),
        selection.manifest is Some <==> selection.selected_path is Some,
        selection.manifest matches Some(manifest) ==> manifest.transfer_id@
            == expected.transfer_id@ && manifest.checkpoint_generation == expected.generation
            && manifest.defect() is None,
        selection.manifest is None ==> selection.encoded_size == 0,
{
    if selection.manifest is Some {
        let manifest = selection.manifest->Some_0;
        let i = choose|i: int|
            0 <= i < reads.len() && selection.selected_path->0@ == (#[trigger] reads[i]).0@ && (
            reads[i].1 matches SidecarRead::Bytes(bytes) && is_file_of(bytes@, manifest)
                && selection.encoded_size == bytes@.len()) && manifest.defect() is None
                && expected.objection(manifest) is None && forall|j: int|
                0 <= j < i ==> !expected.accepts((#[trigger] reads[j]).1);
        assert(expected.accepts(reads[i].1));
    }
}

/// An event of the log says what happened to which transfer and invitation, when, and why; it
/// stands last.
pub proof fn law_events_say_what_happened(
    before: Seq<SecurityEvent>,
    after: Seq<SecurityEvent>,
    name: Seq<char>,
    body: SecureInvitationBody,
    reason: Option<Seq<char>>,
    generation: Option<u64>,
    policy: SecurityPolicy,
    now: u64,
)
    requires
        log_grew(before, after, facts_of(name, body, None, reason, generation, None, policy, now)),
        before.len() <= 1024,
    ensures
        after.len() > 0,
        after.last().event@ == name,
        after.last().transfer_id@ == uuid_text(body.transfer_id@),
        after.last().invitation_id@ == uuid_text(body.invitation_id@),
        after.last().session_id is None,
        after.last().transcript_identifier is None,
        after.last().timestamp_unix_ms == now,
        after.last().checkpoint_generation == generation,
        after.last().protocol_version == policy.protocol_version,
        reason is None <==> after.last().reason_code is None,
        reason is Some ==> after.last().reason_code->Some_0@ == reason->Some_0,
{
}

/// Where nothing was chosen a device looks for public addresses and those of the network that is
/// shared, asks servers, and leaves out tunnels, virtual interfaces and itself; a test on one
/// device asks no server.
pub proof fn law_usual_options_are_careful(lifetime_ms: u64)
    ensures
        ({
            let usual = usual_options(lifetime_ms);
            &&& usual.privacy_policy == Some(CandidatePrivacyPolicy::LanFirst)
            &&& usual.allow_vpn == Some(false)
            &&& usual.allow_virtual_adapters == Some(false)
            &&& usual.allow_loopback_test == Some(false)
            &&& usual.all_direct_approved == Some(false)
            &&& usual.expected_same_lan == Some(false)
            &&& usual.enable_stun == Some(true)
            &&& usual.manual_candidates is None
            &&& usual.port_mapping is None
            &&& usual.candidate_lifetime_ms == Some(lifetime_ms)
        }),
        ({
            let test = loopback_options(lifetime_ms);
            &&& test.allow_loopback_test == Some(true)
            &&& test.enable_stun == Some(false)
            &&& test.expected_same_lan == Some(true)
            &&& test.allow_vpn == Some(false)
            &&& test.privacy_policy == Some(CandidatePrivacyPolicy::LanFirst)
        }),
        chosen_options(true, lifetime_ms) == Some(loopback_options(lifetime_ms)),
        chosen_options(false, lifetime_ms) is None,
{
}

/// Where an engine keeps its state is chosen before it is initialized, not after it was stopped,
/// and is a place of its own.
pub proof fn law_state_roots_are_chosen_early(
    engine: FlowShareEngine,
    style: PathStyle,
    path: Seq<char>,
)
    ensures
        engine.root_refusal(style, path) is None <==> !engine@.stopped && !engine@.initialized
            && is_absolute_path(style, path),
        engine@.stopped ==> engine.root_refusal(style, path) == Some(
            FlowShareApiError::EngineShutdown,
        ),
        !engine@.stopped && engine@.initialized ==> engine.root_refusal(style, path) == Some(
            FlowShareApiError::InvalidRequest,
        ),
{
}

/// A session is named by an identifier alone; written in its usual form it names itself.
pub proof fn law_plain_session_names_are_identifiers(text: Seq<char>)
    requires
        forall|i: int| 0 <= i < text.len() ==> #[trigger] text[i] != '@',
    ensures
        canonical_id(text) is Some <==> parsed_uuid(text) is Some,
        parsed_uuid(text) matches Some(id) ==> canonical_id(text) == Some(uuid_text(id@)),
{
    assert forall|at: int| !#[trigger] crate::connectivity::first_at_sign(text, at) by {
        if 0 <= at < text.len() {
            assert(text[at] != '@');
        }
    }
}

/// A pair that is tried starts with nothing sent, seen or proved.
pub proof fn law_pairs_start_unproved(pair: PairFacts, wire_id: [u8; 16])
    ensures
        ({
            let state = fresh_state(pair, wire_id);
            &&& state.pair == pair
            &&& state.wire_id == wire_id
            &&& state.confirmations() == 0
            &&& !state.is_viable()
            &&& !state.source_stable
            &&& state.probes_sent == 0
            &&& state.best_rtt is None
            &&& state.observed_source is None
            &&& state.last_confirm_sent is None
        }),
{
}

/// Every pair that is tried is one of those that were handed in, and each of them is tried.
pub proof fn law_the_given_pairs_are_tried(pairs: Seq<PairFacts>, n: nat, k: int)
    requires
        n <= pairs.len(),
        0 <= k < n,
    ensures
        start_states(pairs, n).len() <= n,
        exists|i: int|
            0 <= i < start_states(pairs, n).len() && (
            #[trigger] start_states(pairs, n)[i]).pair.pair_id == pairs[k].pair_id,
        forall|i: int|
            0 <= i < start_states(pairs, n).len() ==> (
            #[trigger] start_states(pairs, n)[i]).probes_sent == 0,
    decreases n,
{
    let before = start_states(pairs, (n - 1) as nat);
    let state = fresh_state(
        pairs[n - 1],
        crate::hole_punch::wire_id_of(pairs[n - 1].pair_id),
    );
    lemma_started_len(pairs, (n - 1) as nat);
    lemma_with_state_holds(before, state);
    lemma_started_len(pairs, n);
    if k < n - 1 {
        law_the_given_pairs_are_tried(pairs, (n - 1) as nat, k);
        let i = choose|i: int|
            0 <= i < before.len() && (#[trigger] before[i]).pair.pair_id == pairs[k].pair_id;
        lemma_with_state_keeps(before, state, i);
    }
}

proof fn lemma_started_len(pairs: Seq<PairFacts>, n: nat)
    requires
        n <= pairs.len(),
    ensures
        start_states(pairs, n).len() <= n,
        forall|i: int|
            0 <= i < start_states(pairs, n).len() ==> (
            #[trigger] start_states(pairs, n)[i]).probes_sent == 0,
    decreases n,
{
    if n > 0 {
        lemma_started_len(pairs, (n - 1) as nat);
        let before = start_states(pairs, (n - 1) as nat);
        lemma_with_state_holds(
            before,
            fresh_state(pairs[n - 1], crate::hole_punch::wire_id_of(pairs[n - 1].pair_id)),
        );
    }
}

proof fn lemma_with_state_holds(states: Seq<StateFacts>, state: StateFacts)
    requires
        state.probes_sent == 0,
        forall|i: int| 0 <= i < states.len() ==> (#[trigger] states[i]).probes_sent == 0,
    ensures
        with_state(states, state).len() <= states.len() + 1,
        exists|i: int|
            0 <= i < with_state(states, state).len() && (
            #[trigger] with_state(states, state)[i]).pair.pair_id == state.pair.pair_id,
        forall|i: int|
            0 <= i < with_state(states, state).len() ==> (
            #[trigger] with_state(states, state)[i]).probes_sent == 0,
    decreases states.len(),
{
    let after = with_state(states, state);
    if states.len() == 0 {
        assert(after[0] == state);
    } else if states.last().pair.pair_id == state.pair.pair_id {
        assert(after[after.len() - 1] == state);
    } else if crate::ordering::text_before(states.last().pair.pair_id, state.pair.pair_id) {
        assert(after[after.len() - 1] == state);
    } else {
        let head = states.drop_last();
        lemma_with_state_holds(head, state);
        let inner = with_state(head, state);
        let i = choose|i: int|
            0 <= i < inner.len() && (#[trigger] inner[i]).pair.pair_id == state.pair.pair_id;
        assert(after[i] == inner[i]);
    }
}

proof fn lemma_with_state_keeps(states: Seq<StateFacts>, state: StateFacts, k: int)
    requires
        0 <= k < states.len(),
    ensures
        exists|i: int|
            0 <= i < with_state(states, state).len() && (
            #[trigger] with_state(states, state)[i]).pair.pair_id == states[k].pair.pair_id,
    decreases states.len(),
{
    let after = with_state(states, state);
    let head = states.drop_last();
    if states.last().pair.pair_id == state.pair.pair_id {
        if k < head.len() {
            assert(after[k] == states[k]);
        } else {
            assert(after[k] == state);
        }
    } else if crate::ordering::text_before(states.last().pair.pair_id, state.pair.pair_id) {
        assert(after[k] == states[k]);
    } else {
        let inner = with_state(head, state);
        if k < head.len() {
            lemma_with_state_keeps(head, state, k);
            let i = choose|i: int|
                0 <= i < inner.len() && (#[trigger] inner[i]).pair.pair_id
                    == head[k].pair.pair_id;
            assert(after[i] == inner[i]);
        } else {
            assert(after[after.len() - 1] == states.last());
        }
    }
}

/// A mapping that was made is reported with its endpoint, one that was not with its error.
pub proof fn law_mappings_are_reported(
    report: PortMappingAttemptDiagnostic,
    protocol: NativePortMappingProtocol,
    internal: SocketAddress,
    external: SocketAddress,
    lease: u32,
    error: Seq<char>,
)
    ensures
        reports_success(report, protocol, internal, external, lease) ==> report.created
            && report.error is None && report.external_endpoint == Some(external)
            && report.internal_endpoint == internal && report.lease_duration_seconds == lease
            && report.protocol == protocol,
        reports_failure(report, protocol, internal, lease, error) ==> !report.created
            && report.error is Some && report.error->Some_0@ == error
            && report.external_endpoint is None && report.internal_endpoint == internal
            && report.lease_duration_seconds == lease && report.protocol == protocol,
        !(reports_success(report, protocol, internal, external, lease) && reports_failure(
            report,
            protocol,
            internal,
            lease,
            error,
        )),
{
}

/// The pairs of a family are those pairs and no others, in their order.
pub proof fn law_families_are_checked_apart(
    pairs: Seq<PairFacts>,
    family: NativeAddressFamily,
    pair: PairFacts,
)
    ensures
        of_family(pairs, family).len() <= pairs.len(),
        of_family(pairs, family).contains(pair) ==> pair.address_family == family,
        pairs.contains(pair) && pair.address_family == family ==> of_family(
            pairs,
            family,
        ).contains(pair),
{
    let test = |one: PairFacts| one.address_family == family;
    pairs.filter_lemma(test);
    assert(of_family(pairs, family) == pairs.filter(test));
    if of_family(pairs, family).contains(pair) {
        let i = choose|i: int|
            0 <= i < of_family(pairs, family).len() && of_family(pairs, family)[i] == pair;
        assert(test(pairs.filter(test)[i]));
    }
    if pairs.contains(pair) && pair.address_family == family {
        let i = choose|i: int| 0 <= i < pairs.len() && pairs[i] == pair;
        assert(test(pairs[i]));
        assert(pairs.filter(test).contains(pairs[i]));
    }
}

/// What several reports found together is everything that each of them found.
pub proof fn law_no_result_is_lost(reports: Seq<HolePunchReport>, n: nat, k: int, i: int)
    requires
        0 <= k < n <= reports.len(),
        0 <= i < reports[k].pair_results@.len(),
    ensures
        joint_results(reports, n).contains(views(reports[k].pair_results@)[i]),
    decreases n,
{
    let before = joint_results(reports, (n - 1) as nat);
    let more = views(reports[n - 1].pair_results@);
    let wanted = views(reports[k].pair_results@)[i];
    if k < n - 1 {
        law_no_result_is_lost(reports, (n - 1) as nat, k, i);
        let m = choose|m: int| 0 <= m < before.len() && before[m] == wanted;
        assert((before + more)[m] == wanted);
    } else {
        assert((before + more)[before.len() + i] == wanted);
    }
}

/// What servers answered together is everything that each of them answered.
pub proof fn law_no_answer_is_lost(answers: Seq<ServerAnswers>, n: nat, k: int, i: int)
    requires
        0 <= k < n <= answers.len(),
        0 <= i < answers[k].candidates@.len(),
    ensures
        answered_candidates(answers, n).contains(views(answers[k].candidates@)[i]),
    decreases n,
{
    let before = answered_candidates(answers, (n - 1) as nat);
    let more = views(answers[n - 1].candidates@);
    let wanted = views(answers[k].candidates@)[i];
    if k < n - 1 {
        law_no_answer_is_lost(answers, (n - 1) as nat, k, i);
        let m = choose|m: int| 0 <= m < before.len() && before[m] == wanted;
        assert((before + more)[m] == wanted);
    } else {
        assert((before + more)[before.len() + i] == wanted);
    }
}

/// A stored list of hashes is acceptable only as the file of a sound list of the expected transfer
/// and generation; what is missing or cannot be read never is.
pub proof fn law_acceptable_lists_are_of_the_transfer(
    expected: SidecarExpectation,
    read: SidecarRead,
    manifest: BlockHashManifest,
)
    ensures
        expected.accepts(read) ==> read is Bytes && exists|found: BlockHashManifest| #[trigger]
            is_file_of(read->Bytes_0@, found) && found.defect() is None && found.transfer_id@
                == expected.transfer_id@ && found.checkpoint_generation == expected.generation,
        read is Bytes && is_file_of(read->Bytes_0@, manifest) && manifest.defect() is None
            && expected.objection(manifest) is None ==> expected.accepts(read),
{
    if expected.accepts(read) {
        let bytes = read->Bytes_0@;
        let found = choose|found: BlockHashManifest| #[trigger]
            is_file_of(bytes, found) && found.defect() is None && expected.objection(found) is None;
        assert(is_file_of(bytes, found) && found.defect() is None && expected.objection(found)
            is None);
    }
}

} // verus!
