//! Which addresses a device offers, to whom, and in what order.

use crate::address::IpAddress;
use crate::candidates::{
    address_rejection, admitted, after_addresses, batch_defect, best_candidates, birth_defect,
    collide, hints_at_vpn, host_candidate, manual_candidate, priority_of, report, set_defect,
    CandidateFacts, CandidatePrivacyPolicy, Gathering, HostGatherOptions, HostInterface,
    ManualCandidateInput, NativeCandidate, NativeCandidateType,
};
use crate::ordering::{in_order, lemma_in_order, text_before};
use crate::text::{contains_text, lower_text};
use vstd::prelude::*;

verus! {

/// A candidate is taken exactly when it can be used: the right version, a port, one host of its
/// address family that is not this one, short names, time left within the allowed skew, and an
/// identifier that fits its contents.
pub proof fn law_candidates_can_be_used(candidate: CandidateFacts, allow_loopback: bool, now: u64)
    ensures
        candidate.defect(allow_loopback, now) is None ==> {
            &&& candidate.version == 1
            &&& candidate.port > 0
            &&& candidate.address_family is Ipv4 <==> candidate.address is V4
            &&& !candidate.address.unspecified()
            &&& !candidate.address.multicast()
            &&& !candidate.address.broadcast()
            &&& !candidate.address.link_local_v6()
            &&& candidate.address.loopback() ==> allow_loopback
            &&& 0 < vstd::utf8::encode_utf8(candidate.network_identifier).len() <= 64
            &&& 0 < vstd::utf8::encode_utf8(candidate.foundation).len() <= 64
            &&& now <= candidate.expires_unix_ms + 30_000
            &&& candidate.candidate_id == candidate.proper_id()
            &&& candidate.related_address matches Some(related) ==> related.port > 0
                && !related.ip.unspecified() && !related.ip.multicast() && (related.ip is V4
                <==> candidate.address_family is Ipv4)
        },
        candidate.defect(allow_loopback, now) is None <== {
            &&& candidate.version == 1
            &&& candidate.port > 0
            &&& candidate.address_family is Ipv4 <==> candidate.address is V4
            &&& !candidate.address.unspecified()
            &&& !candidate.address.multicast()
            &&& !candidate.address.broadcast()
            &&& !candidate.address.link_local_v6()
            &&& candidate.address.loopback() ==> allow_loopback
            &&& 0 < vstd::utf8::encode_utf8(candidate.network_identifier).len() <= 64
            &&& 0 < vstd::utf8::encode_utf8(candidate.foundation).len() <= 64
            &&& now <= candidate.expires_unix_ms + 30_000
            &&& candidate.candidate_id == candidate.proper_id()
            &&& candidate.related_address is None
        },
        now > candidate.expires_unix_ms + 30_000 ==> candidate.defect(allow_loopback, now) is Some,
{
}

/// A candidate that was taken is taken at any earlier time, and where loopback is allowed.
pub proof fn law_candidates_only_run_out(
    candidate: CandidateFacts,
    allow_loopback: bool,
    now: u64,
    earlier: u64,
)
    requires
        candidate.defect(allow_loopback, now) is None,
        earlier <= now,
    ensures
        candidate.defect(allow_loopback, earlier) is None,
        candidate.defect(true, earlier) is None,
        birth_defect(candidate) is None,
{
}

/// A set is taken exactly when it is small, each of its candidates is, and no two are one.
pub proof fn law_sets_are_taken_whole(
    candidates: Seq<CandidateFacts>,
    allow_loopback: bool,
    now: u64,
)
    ensures
        batch_defect(candidates, allow_loopback, now) is None <==> {
            &&& candidates.len() <= 32
            &&& forall|i: int|
                0 <= i < candidates.len() ==> (#[trigger] candidates[i]).defect(
                    allow_loopback,
                    now,
                ) is None
            &&& forall|i: int, j: int|
                0 <= i < j < candidates.len() ==> {
                    &&& (#[trigger] candidates[i]).candidate_id != (
                    #[trigger] candidates[j]).candidate_id
                    &&& !(candidates[i].candidate_type == candidates[j].candidate_type
                        && candidates[i].address == candidates[j].address && candidates[i].port
                        == candidates[j].port)
                }
        },
        candidates.len() > 32 ==> batch_defect(candidates, allow_loopback, now) == Some(
            "native-candidate-set-oversized"@,
        ),
{
    lemma_set_is_taken_from(candidates, allow_loopback, now, 0);
    if batch_defect(candidates, allow_loopback, now) is None {
        assert forall|i: int, j: int| 0 <= i < j < candidates.len() implies {
            &&& (#[trigger] candidates[i]).candidate_id != (
            #[trigger] candidates[j]).candidate_id
            &&& !(candidates[i].candidate_type == candidates[j].candidate_type
                && candidates[i].address == candidates[j].address && candidates[i].port
                == candidates[j].port)
        } by {
            assert(!collide(candidates[i], candidates[j]));
        }
    }
}

proof fn lemma_set_is_taken_from(
    candidates: Seq<CandidateFacts>,
    allow_loopback: bool,
    now: u64,
    at: nat,
)
    ensures
        set_defect(candidates, allow_loopback, now, at) is None <==> {
            &&& forall|i: int|
                at <= i < candidates.len() ==> (#[trigger] candidates[i]).defect(
                    allow_loopback,
                    now,
                ) is None
            &&& forall|i: int, j: int|
                0 <= i < j && at <= j < candidates.len() ==> !collide(
                    #[trigger] candidates[i],
                    #[trigger] candidates[j],
                )
        },
    decreases candidates.len() - at,
{
    if at < candidates.len() {
        lemma_set_is_taken_from(candidates, allow_loopback, now, at + 1);
    }
}

/// What each policy shows of a device: nothing but what was entered by hand, nothing private,
/// everything, or what is private only to the network that is shared.
pub proof fn law_policies_hide_private_addresses(
    candidate: CandidateFacts,
    policy: CandidatePrivacyPolicy,
    expected_same_lan: bool,
)
    ensures
        ({
            let shown = admitted(candidate, policy, expected_same_lan);
            let seen_outside = candidate.candidate_type is ServerReflexive
                || candidate.candidate_type is Mapped || candidate.candidate_type is Manual
                || candidate.candidate_type is Ipv6 && !candidate.address.private_or_local();
            &&& policy is Manual ==> (shown <==> candidate.candidate_type is Manual)
            &&& policy is PublicOnly ==> (shown <==> seen_outside)
            &&& policy is AllDirect ==> shown
            &&& policy is LanFirst && !expected_same_lan ==> (shown <==> seen_outside)
            &&& policy is LanFirst && expected_same_lan ==> shown
            &&& policy is PublicOnly || policy is LanFirst && !expected_same_lan ==> (
            candidate.candidate_type is Host ==> !shown)
            &&& candidate.candidate_type is Manual ==> shown
        }),
{
}

/// Candidates are preferred by kind: hosts, the newer family, mapped, seen from outside, entered
/// by hand. Within a kind a physical interface counts more, and then one without a tunnel.
pub proof fn law_better_kinds_come_first(
    left: NativeCandidateType,
    right: NativeCandidateType,
    physical: bool,
    vpn: bool,
    other_physical: bool,
    other_vpn: bool,
)
    ensures
        ({
            let one = priority_of(left, physical, vpn);
            let two = priority_of(right, other_physical, other_vpn);
            &&& left is Host && !(right is Host) ==> one > two
            &&& left is Ipv6 && !(right is Host || right is Ipv6) ==> one > two
            &&& left is Mapped && (right is ServerReflexive || right is Manual) ==> one > two
            &&& left is ServerReflexive && right is Manual ==> one > two
            &&& left == right && physical && !other_physical ==> one > two
            &&& left == right && physical == other_physical && !vpn && other_vpn ==> one > two
            &&& left == right && physical == other_physical && vpn == other_vpn ==> one == two
            &&& left == right && physical && !vpn && !other_physical && other_vpn ==> one - two
                == 110
            &&& left is Host && !physical && vpn ==> one == 500_000
            &&& left is Ipv6 && !physical && vpn ==> one == 450_000
            &&& left is Mapped && !physical && vpn ==> one == 350_000
            &&& left is ServerReflexive && !physical && vpn ==> one == 300_000
            &&& left is Manual && !physical && vpn ==> one == 100_000
        }),
{
}

/// What a candidate is made of stands in it, and its identifier is that of its contents.
pub proof fn law_host_candidates_show_their_interface(
    interface: HostInterface,
    address: IpAddress,
    options: HostGatherOptions,
)
    ensures
        ({
            let candidate = host_candidate(interface, address, options);
            &&& candidate.address == address
            &&& candidate.candidate_type is Host <==> address is V4
            &&& candidate.candidate_type is Ipv6 <==> address is V6
            &&& candidate.address_family is Ipv4 <==> address is V4
            &&& address is V4 && options.ipv4_port is Some ==> Some(candidate.port)
                == options.ipv4_port
            &&& address is V6 && options.ipv6_port is Some ==> Some(candidate.port)
                == options.ipv6_port
            &&& candidate.generation == options.generation
            &&& candidate.expires_unix_ms == options.expires_unix_ms
            &&& candidate.related_address is None
            &&& candidate.candidate_id == candidate.proper_id()
            &&& candidate.network_identifier == interface.identifier()
            &&& candidate.version == 1
            &&& candidate.priority == priority_of(
                candidate.candidate_type,
                interface.is_physical,
                interface.vpn_like(),
            )
        }),
{
}

/// A candidate that was entered by hand keeps what was entered; without a wish it comes last of
/// all.
pub proof fn law_manual_candidates_keep_what_was_entered(
    input: ManualCandidateInput,
    generation: u32,
    expires_unix_ms: u64,
    other: NativeCandidateType,
    physical: bool,
    vpn: bool,
)
    ensures
        ({
            let candidate = manual_candidate(input, generation, expires_unix_ms);
            &&& candidate.candidate_type is Manual
            &&& candidate.address == input.address
            &&& candidate.port == input.port
            &&& input.priority is Some ==> candidate.priority == input.priority->Some_0
            &&& input.priority is None ==> candidate.priority < priority_of(other, physical, vpn)
            &&& candidate.generation == generation
            &&& candidate.expires_unix_ms == expires_unix_ms
            &&& candidate.candidate_id == candidate.proper_id()
        }),
{
}

/// An address of an interface is offered exactly when the interface is up, it is not loopback
/// unless that is tested, it is one host without a scope, tunnels and virtual interfaces are
/// allowed, its family has a socket, and it was not offered before.
pub proof fn law_addresses_are_offered_while_allowed(
    interface: HostInterface,
    address: IpAddress,
    options: HostGatherOptions,
    seen: Seq<IpAddress>,
)
    ensures
        ({
            let rejection = address_rejection(interface, address, options, seen);
            &&& rejection is None <==> {
                &&& interface.is_up
                &&& interface.is_running
                &&& interface.is_loopback || address.loopback() ==> options.allow_loopback_test
                &&& !address.unspecified()
                &&& !address.multicast()
                &&& !address.link_local_v6()
                &&& interface.vpn_like() ==> options.allow_vpn
                &&& interface.virtual_like() && !interface.vpn_like() ==> options.allow_virtual
                &&& address is V4 ==> options.ipv4_port is Some
                &&& address is V6 ==> options.ipv6_port is Some
                &&& !seen.contains(address)
            }
            &&& report(interface, Some(address), rejection).accepted <==> rejection is None
            &&& report(interface, Some(address), rejection).rejection_reason == rejection
            &&& report(interface, Some(address), rejection).local_ip == Some(address)
        }),
{
}

/// An interface counts as a tunnel by its kind or by a telling name, and as virtual when it is not
/// physical or of a kind that others share.
pub proof fn law_tunnels_are_known(interface: HostInterface)
    ensures
        interface.is_tun || interface.kind is Tunnel || interface.kind is Ppp
            || interface.kind is ProprietaryVirtual ==> interface.vpn_like(),
        interface.vpn_like() ==> {
            ||| interface.is_tun
            ||| interface.kind is Tunnel
            ||| interface.kind is Ppp
            ||| interface.kind is ProprietaryVirtual
            ||| hints_at_vpn(interface.name@)
            ||| interface.friendly_name is Some && hints_at_vpn(
                interface.friendly_name->Some_0@,
            )
        },
        hints_at_vpn(interface.name@) ==> interface.vpn_like(),
        !interface.is_physical ==> interface.virtual_like(),
        interface.virtual_like() <==> !interface.is_physical || interface.kind is Bridge
            || interface.kind is PeerToPeerWireless || interface.kind is ProprietaryVirtual,
        interface.friendly_name is Some && hints_at_vpn(interface.friendly_name->Some_0@)
            ==> interface.vpn_like(),
{
}

/// A name hints at a tunnel exactly when it holds one of the telling words, whatever the case of
/// its letters.
pub proof fn law_telling_names_are_found(name: Seq<char>, other: Seq<char>)
    ensures
        lower_text(name) == lower_text(other) ==> hints_at_vpn(name) == hints_at_vpn(other),
        ({
            let says = |word: Seq<char>| contains_text(lower_text(name), word);
            hints_at_vpn(name) <==> says("vpn"@) || says("wireguard"@) || says("openvpn"@) || says(
                "tailscale"@,
            ) || says("zerotier"@) || says("hamachi"@) || says("tunnel"@) || says("wintun"@) || says(
                "tap-"@,
            )
        }),
{
}

/// Every address of an interface is told of, and none is offered twice: what is offered grows by
/// exactly the addresses that were not refused.
pub proof fn law_every_address_is_told_of(
    start: Gathering,
    interface: HostInterface,
    options: HostGatherOptions,
    n: nat,
)
    requires
        n <= interface.addresses@.len(),
        start.seen.no_duplicates(),
    ensures
        ({
            let after = after_addresses(start, interface, options, n);
            &&& after.diagnostics.len() == start.diagnostics.len() + n
            &&& after.seen.no_duplicates()
            &&& after.seen.len() >= start.seen.len()
            &&& after.candidates.len() <= start.candidates.len() + (after.seen.len()
                - start.seen.len())
            &&& forall|i: int|
                0 <= i < n ==> (
                #[trigger] after.diagnostics[start.diagnostics.len() + i]).local_ip == Some(
                    interface.addresses@[i],
                )
        }),
    decreases n,
{
    if n > 0 {
        law_every_address_is_told_of(start, interface, options, (n - 1) as nat);
        let before = after_addresses(start, interface, options, (n - 1) as nat);
        let after = after_addresses(start, interface, options, n);
        assert forall|i: int| 0 <= i < n implies (
        #[trigger] after.diagnostics[start.diagnostics.len() + i]).local_ip == Some(
            interface.addresses@[i],
        ) by {
            if i < n - 1 {
                assert(after.diagnostics[start.diagnostics.len() + i]
                    == before.diagnostics[start.diagnostics.len() + i]);
            }
        }
    }
}

/// Of what was found the best are kept: at most so many as are exchanged, by priority, and none
/// that was left out is better than one that was kept.
pub proof fn law_the_best_candidates_are_kept(candidates: Seq<CandidateFacts>, x: CandidateFacts)
    ensures
        ({
            let kept = best_candidates(candidates);
            &&& kept.len() <= 32
            &&& candidates.len() <= 32 ==> kept.len() == candidates.len()
            &&& candidates.len() > 32 ==> kept.len() == 32
            &&& forall|i: int, j: int|
                0 <= i < j < kept.len() ==> {
                    &&& (#[trigger] kept[i]).priority >= (#[trigger] kept[j]).priority
                    &&& kept[i].priority == kept[j].priority ==> !text_before(
                        kept[j].candidate_id,
                        kept[i].candidate_id,
                    )
                }
            &&& forall|i: int|
                0 <= i < kept.len() ==> candidates.contains(#[trigger] kept[i])
            &&& candidates.contains(x) && !kept.contains(x) ==> forall|i: int|
                0 <= i < kept.len() ==> (#[trigger] kept[i]).priority >= x.priority
        }),
{
    let sorted = in_order::<NativeCandidate>(candidates);
    lemma_in_order::<NativeCandidate>(candidates);
    let kept = best_candidates(candidates);
    assert forall|i: int, j: int| 0 <= i < j < kept.len() implies {
        &&& (#[trigger] kept[i]).priority >= (#[trigger] kept[j]).priority
        &&& kept[i].priority == kept[j].priority ==> !text_before(
            kept[j].candidate_id,
            kept[i].candidate_id,
        )
    } by {
        assert(kept[i] == sorted[i] && kept[j] == sorted[j]);
    }
    assert forall|i: int| 0 <= i < kept.len() implies candidates.contains(#[trigger] kept[i]) by {
        assert(kept[i] == sorted[i]);
        assert(sorted.contains(sorted[i]));
    }
    if candidates.contains(x) && !kept.contains(x) {
        assert(sorted.contains(x));
        let k = choose|k: int| 0 <= k < sorted.len() && sorted[k] == x;
        if k < kept.len() {
            assert(kept[k] == x);
        }
        assert forall|i: int| 0 <= i < kept.len() implies (#[trigger] kept[i]).priority
            >= x.priority by {
            assert(kept[i] == sorted[i]);
            assert(sorted[k] == x);
        }
    }
}

} // verus!
