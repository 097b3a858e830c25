//! Optional port mappings on the router: when one is tried, by which protocols, and what is
//! reported of it.

use crate::address::{IpAddress, SocketAddress};
use crate::candidates::{
    birth_defect, candidate_of, foundation, foundation_text, CandidateFacts, NativeAddressFamily,
    NativeCandidate, NativeCandidateType,
};
use crate::text::joined;
use vstd::prelude::*;

verus! {

pub const DEFAULT_MAPPING_LEASE_SECONDS: u32 = 120;

#[derive(Debug, Clone, Copy, PartialEq, Eq, Structural)]
pub enum NativePortMappingProtocol {
    UpnpIgd,
    Pcp,
    NatPmp,
}

#[derive(Debug, PartialEq, Eq)]
pub struct PortMappingAttemptDiagnostic {
    pub protocol: NativePortMappingProtocol,
    pub internal_endpoint: SocketAddress,
    pub external_endpoint: Option<SocketAddress>,
    pub lease_duration_seconds: u32,
    pub created: bool,
    pub renewal_status: String,
    pub removal_result: Option<String>,
    pub error: Option<String>,
}

/// What the report of one attempt says.
pub struct AttemptFacts {
    pub protocol: NativePortMappingProtocol,
    pub internal_endpoint: SocketAddress,
    pub external_endpoint: Option<SocketAddress>,
    pub lease_duration_seconds: u32,
    pub created: bool,
    pub renewal_status: Seq<char>,
    pub removal_result: Option<Seq<char>>,
    pub error: Option<Seq<char>>,
}

impl View for PortMappingAttemptDiagnostic {
    type V = AttemptFacts;

    open spec fn view(&self) -> AttemptFacts {
        AttemptFacts {
            protocol: self.protocol,
            internal_endpoint: self.internal_endpoint,
            external_endpoint: self.external_endpoint,
            lease_duration_seconds: self.lease_duration_seconds,
            created: self.created,
            renewal_status: self.renewal_status@,
            removal_result: match self.removal_result {
                Some(result) => Some(result@),
                None => None,
            },
            error: match self.error {
                Some(error) => Some(error@),
                None => None,
            },
        }
    }
}

impl Clone for PortMappingAttemptDiagnostic {
    fn clone(&self) -> (copy: Self)
        ensures
            copy@ == self@,
    {
        PortMappingAttemptDiagnostic {
            protocol: self.protocol,
            internal_endpoint: self.internal_endpoint,
            external_endpoint: self.external_endpoint,
            lease_duration_seconds: self.lease_duration_seconds,
            created: self.created,
            renewal_status: self.renewal_status.clone(),
            removal_result: match &self.removal_result {
                Some(result) => Some(result.clone()),
                None => None,
            },
            error: match &self.error {
                Some(error) => Some(error.clone()),
                None => None,
            },
        }
    }
}

#[derive(Debug, Clone)]
pub struct PortMappingDevelopmentOptions {
    pub enabled: bool,
    pub protocols: Option<Vec<NativePortMappingProtocol>>,
    pub lease_duration_seconds: Option<u32>,
}

impl Default for PortMappingDevelopmentOptions {
    fn default() -> (options: Self)
        ensures
            !options.enabled,
            options.protocols is None,
            options.lease_duration_seconds is None,
    {
        PortMappingDevelopmentOptions {
            enabled: false,
            protocols: None,
            lease_duration_seconds: None,
        }
    }
}

/// The protocols that are tried, in their order.
pub open spec fn protocols_of(options: PortMappingDevelopmentOptions) -> Seq<
    NativePortMappingProtocol,
> {
    match options.protocols {
        Some(chosen) => chosen@,
        None => seq![
            NativePortMappingProtocol::UpnpIgd,
            NativePortMappingProtocol::Pcp,
            NativePortMappingProtocol::NatPmp,
        ],
    }
}

/// How long a mapping is asked for, in seconds.
pub open spec fn lease_of(options: PortMappingDevelopmentOptions) -> u32 {
    let wanted = match options.lease_duration_seconds {
        Some(seconds) => seconds,
        None => DEFAULT_MAPPING_LEASE_SECONDS,
    };
    if wanted < 60 {
        60
    } else if wanted > 600 {
        600
    } else {
        wanted
    }
}

/// The attempts to map one port.
pub struct PortMappingRun {
    protocols: Vec<NativePortMappingProtocol>,
    lease_seconds: u32,
    internal_port: u16,
    next: usize,
    attempts: Vec<PortMappingAttemptDiagnostic>,
}

/// Why no mapping may be tried although one is asked for, if it may not.
pub open spec fn mapping_refusal(
    internal_port: u16,
    options: PortMappingDevelopmentOptions,
    development: bool,
) -> Option<Seq<char>> {
    if !development {
        Some("native-port-mapping-development-only"@)
    } else if internal_port == 0 {
        Some("native-port-mapping-port-invalid"@)
    } else if protocols_of(options).len() > 3 {
        Some("native-port-mapping-protocol-set-invalid"@)
    } else {
        None
    }
}

/// Whether a report says that an attempt failed.
pub open spec fn reports_failure(
    report: PortMappingAttemptDiagnostic,
    protocol: NativePortMappingProtocol,
    internal_endpoint: SocketAddress,
    lease_seconds: u32,
    error: Seq<char>,
) -> bool {
    &&& report.protocol == protocol
    &&& report.internal_endpoint == internal_endpoint
    &&& report.external_endpoint is None
    &&& report.lease_duration_seconds == lease_seconds
    &&& !report.created
    &&& report.renewal_status@ == "not-created"@
    &&& report.removal_result is None
    &&& report.error matches Some(text) && text@ == error
}

/// Whether a report says that a mapping was made.
pub open spec fn reports_success(
    report: PortMappingAttemptDiagnostic,
    protocol: NativePortMappingProtocol,
    internal_endpoint: SocketAddress,
    external_endpoint: SocketAddress,
    lease_seconds: u32,
) -> bool {
    &&& report.protocol == protocol
    &&& report.internal_endpoint == internal_endpoint
    &&& report.external_endpoint == Some(external_endpoint)
    &&& report.lease_duration_seconds == lease_seconds
    &&& report.created
    &&& report.renewal_status@ == "active"@
    &&& report.removal_result is None
    &&& report.error is None
}

impl PortMappingRun {
    /// The protocols that are tried.
    pub closed spec fn protocols(self) -> Seq<NativePortMappingProtocol> {
        self.protocols@
    }

    /// How long a mapping is asked for, in seconds.
    pub closed spec fn lease(self) -> u32 {
        self.lease_seconds
    }

    /// The port to map.
    pub closed spec fn port(self) -> u16 {
        self.internal_port
    }

    /// How many protocols were taken up.
    pub closed spec fn position(self) -> int {
        self.next as int
    }

    /// The reports of the attempts so far.
    pub closed spec fn attempts(self) -> Seq<PortMappingAttemptDiagnostic> {
        self.attempts@
    }

    /// No more protocols were taken up than there are.
    pub open spec fn wf(self) -> bool {
        0 <= self.position() <= self.protocols().len() <= 3
    }

    /// Plans the attempts to map a port. Unless mappings are enabled there are none.
    pub fn plan(
        internal_port: u16,
        options: &PortMappingDevelopmentOptions,
        development: bool,
    ) -> (result: Result<Option<Self>, String>)
        ensures
            match result {
                Ok(None) => !options.enabled,
                Ok(Some(run)) => {
                    &&& options.enabled
                    &&& mapping_refusal(internal_port, *options, development) is None
                    &&& run.wf()
                    &&& run.protocols() == protocols_of(*options)
                    &&& run.lease() == lease_of(*options)
                    &&& run.port() == internal_port
                    &&& run.position() == 0
                    &&& run.attempts() == Seq::<PortMappingAttemptDiagnostic>::empty()
                },
                Err(error) => options.enabled && mapping_refusal(
                    internal_port,
                    *options,
                    development,
                ) == Some(error@),
            },
    {
        if !options.enabled {
            return Ok(None);
        }
        if !development {
            return Err("native-port-mapping-development-only".to_owned());
        }
        if internal_port == 0 {
            return Err("native-port-mapping-port-invalid".to_owned());
        }
        let wanted: u32 = match options.lease_duration_seconds {
            Some(seconds) => seconds,
            None => DEFAULT_MAPPING_LEASE_SECONDS,
        };
        let lease_seconds: u32 = if wanted < 60 {
            60
        } else if wanted > 600 {
            600
        } else {
            wanted
        };
        let mut protocols: Vec<NativePortMappingProtocol> = Vec::new();
        match &options.protocols {
            Some(chosen) => {
                if chosen.len() > 3 {
                    return Err("native-port-mapping-protocol-set-invalid".to_owned());
                }
                let mut index: usize = 0;
                while index < chosen.len()
                    invariant
                        index <= chosen@.len(),
                        protocols@ == chosen@.take(index as int),
                    decreases chosen@.len() - index,
                {
                    protocols.push(chosen[index]);
                    index += 1;
                    assert(protocols@ =~= chosen@.take(index as int));
                }
                assert(chosen@.take(chosen@.len() as int) =~= chosen@);
            },
            None => {
                protocols.push(NativePortMappingProtocol::UpnpIgd);
                protocols.push(NativePortMappingProtocol::Pcp);
                protocols.push(NativePortMappingProtocol::NatPmp);
                assert(protocols@ =~= protocols_of(*options));
            },
        }
        Ok(
            Some(
                PortMappingRun { protocols, lease_seconds, internal_port, next: 0, attempts: Vec::new() },
            ),
        )
    }

    /// Takes up the next protocol, if there is one.
    pub fn next_protocol(&mut self, cancelled: bool) -> (result: Result<
        Option<NativePortMappingProtocol>,
        String,
    >)
        requires
            old(self).wf(),
        ensures
            final(self).wf(),
            final(self).protocols() == old(self).protocols(),
            final(self).lease() == old(self).lease(),
            final(self).port() == old(self).port(),
            final(self).attempts() == old(self).attempts(),
            if old(self).position() == old(self).protocols().len() {
                result == Ok::<Option<NativePortMappingProtocol>, String>(None)
                    && final(self).position() == old(self).position()
            } else if cancelled {
                result matches Err(error) && error@ == "native-connectivity-cancelled"@
                    && final(self).position() == old(self).position()
            } else {
                result == Ok::<Option<NativePortMappingProtocol>, String>(
                    Some(old(self).protocols()[old(self).position()]),
                ) && final(self).position() == old(self).position() + 1
            },
    {
        if self.next >= self.protocols.len() {
            return Ok(None);
        }
        if cancelled {
            return Err("native-connectivity-cancelled".to_owned());
        }
        let protocol = self.protocols[self.next];
        self.next = self.next + 1;
        Ok(Some(protocol))
    }

    /// Takes note of an attempt that failed.
    pub fn attempt_failed(
        &mut self,
        protocol: NativePortMappingProtocol,
        internal_endpoint: SocketAddress,
        error: String,
    )
        requires
            old(self).wf(),
        ensures
            final(self).wf(),
            final(self).protocols() == old(self).protocols(),
            final(self).lease() == old(self).lease(),
            final(self).port() == old(self).port(),
            final(self).position() == old(self).position(),
            final(self).attempts().len() == old(self).attempts().len() + 1,
            final(self).attempts().drop_last() == old(self).attempts(),
            reports_failure(
                final(self).attempts().last(),
                protocol,
                internal_endpoint,
                old(self).lease(),
                error@,
            ),
    {
        let ghost before = self.attempts@;
        self.attempts.push(
            PortMappingAttemptDiagnostic {
                protocol,
                internal_endpoint,
                external_endpoint: None,
                lease_duration_seconds: self.lease_seconds,
                created: false,
                renewal_status: "not-created".to_owned(),
                removal_result: None,
                error: Some(error),
            },
        );
        assert(self.attempts@.drop_last() =~= before);
    }

    /// For how many seconds a mapping is asked for.
    pub fn lease_seconds(&self) -> (seconds: u32)
        ensures
            seconds == self.lease(),
    {
        self.lease_seconds
    }

    /// The reports of all attempts.
    pub fn into_attempts(self) -> (attempts: Vec<PortMappingAttemptDiagnostic>)
        ensures
            attempts@ == self.attempts(),
    {
        self.attempts
    }
}

/// The report of a mapping that was made.
pub fn mapping_created(
    protocol: NativePortMappingProtocol,
    internal_endpoint: SocketAddress,
    external_endpoint: SocketAddress,
    lease_seconds: u32,
) -> (report: PortMappingAttemptDiagnostic)
    ensures
        reports_success(report, protocol, internal_endpoint, external_endpoint, lease_seconds),
{
    PortMappingAttemptDiagnostic {
        protocol,
        internal_endpoint,
        external_endpoint: Some(external_endpoint),
        lease_duration_seconds: lease_seconds,
        created: true,
        renewal_status: "active".to_owned(),
        removal_result: None,
        error: None,
    }
}

/// How long after a mapping was made or renewed it is renewed, in seconds: half of its time,
/// and no less than half a minute.
pub open spec fn renewal_seconds(lease_seconds: u32) -> u32 {
    if lease_seconds < 60 {
        30
    } else {
        lease_seconds / 2
    }
}

pub fn renewal_delay(lease_seconds: u32) -> (seconds: u32)
    ensures
        seconds == renewal_seconds(lease_seconds),
        seconds >= 30,
{
    if lease_seconds < 60 {
        30
    } else {
        lease_seconds / 2
    }
}

/// Takes note of how a renewal went, and says whether the mapping goes on.
pub fn mapping_renewed(report: &mut PortMappingAttemptDiagnostic, failure: Option<String>) -> (goes_on:
    bool)
    ensures
        goes_on == (failure is None),
        match failure {
            None => final(report).renewal_status@ == "renewed"@ && final(report).error == old(report).error,
            Some(error) => final(report).renewal_status@ == "renewal-failed"@
                && final(report).error == Some(error),
        },
        final(report).protocol == old(report).protocol,
        final(report).internal_endpoint == old(report).internal_endpoint,
        final(report).external_endpoint == old(report).external_endpoint,
        final(report).lease_duration_seconds == old(report).lease_duration_seconds,
        final(report).created == old(report).created,
        final(report).removal_result == old(report).removal_result,
{
    match failure {
        None => {
            report.renewal_status = "renewed".to_owned();
            true
        },
        Some(error) => {
            report.renewal_status = "renewal-failed".to_owned();
            report.error = Some(error);
            false
        },
    }
}

/// Takes note of how the removal of a mapping went.
pub fn mapping_removed(report: &mut PortMappingAttemptDiagnostic, failure: Option<String>)
    ensures
        final(report).renewal_status@ == "stopped"@,
        final(report).removal_result matches Some(text) && text@ == match failure {
            None => "removed"@,
            Some(error) => "removal-unconfirmed: "@ + error@,
        },
        final(report).protocol == old(report).protocol,
        final(report).internal_endpoint == old(report).internal_endpoint,
        final(report).external_endpoint == old(report).external_endpoint,
        final(report).lease_duration_seconds == old(report).lease_duration_seconds,
        final(report).created == old(report).created,
        final(report).error == old(report).error,
{
    report.removal_result = Some(
        match failure {
            None => "removed".to_owned(),
            Some(error) => joined("removal-unconfirmed: ", error.as_str()),
        },
    );
    report.renewal_status = "stopped".to_owned();
}

/// The name of the network that a mapping belongs to.
pub open spec fn mapping_network(protocol: NativePortMappingProtocol) -> Seq<char> {
    match protocol {
        NativePortMappingProtocol::UpnpIgd => "upnp-igd"@,
        NativePortMappingProtocol::Pcp => "pcp"@,
        NativePortMappingProtocol::NatPmp => "nat-pmp"@,
    }
}

/// The candidate that a mapping stands for.
pub open spec fn mapped_facts(
    protocol: NativePortMappingProtocol,
    external_ip: IpAddress,
    external_port: u16,
    internal_endpoint: SocketAddress,
    generation: u32,
    expires_unix_ms: u64,
) -> CandidateFacts {
    candidate_of(
        NativeCandidateType::Mapped,
        external_ip,
        external_port,
        mapping_network(protocol),
        350_000,
        foundation_text(
            NativeCandidateType::Mapped,
            mapping_network(protocol),
            if protocol is UpnpIgd {
                NativeAddressFamily::of(external_ip)
            } else {
                NativeAddressFamily::Ipv4
            },
        ),
        Some(internal_endpoint),
        generation,
        expires_unix_ms,
    )
}

/// The candidate that a mapping stands for.
pub fn mapped_candidate(
    protocol: NativePortMappingProtocol,
    external_ip: IpAddress,
    external_port: u16,
    internal_endpoint: SocketAddress,
    generation: u32,
    expires_unix_ms: u64,
) -> (result: Result<NativeCandidate, String>)
    ensures
        ({
            let facts = mapped_facts(
                protocol,
                external_ip,
                external_port,
                internal_endpoint,
                generation,
                expires_unix_ms,
            );
            match result {
                Ok(candidate) => candidate@ == facts && birth_defect(facts) is None,
                Err(error) => birth_defect(facts) == Some(error@),
            }
        }),
{
    let network: &'static str = match protocol {
        NativePortMappingProtocol::UpnpIgd => "upnp-igd",
        NativePortMappingProtocol::Pcp => "pcp",
        NativePortMappingProtocol::NatPmp => "nat-pmp",
    };
    let family = if protocol == NativePortMappingProtocol::UpnpIgd {
        NativeAddressFamily::for_ip(external_ip)
    } else {
        NativeAddressFamily::Ipv4
    };
    NativeCandidate::new(
        NativeCandidateType::Mapped,
        external_ip,
        external_port,
        network.to_owned(),
        350_000,
        foundation(NativeCandidateType::Mapped, network, family),
        Some(internal_endpoint),
        generation,
        expires_unix_ms,
    )
}

/// Whether an address can be the client's own in a mapping.
pub open spec fn is_client_address(octets: [u8; 4]) -> bool {
    !IpAddress::V4(octets).loopback() && !IpAddress::V4(octets).unspecified()
}

/// The default interface as the operating system reports it.
#[derive(Debug)]
pub struct DefaultRoute {
    pub addresses: Vec<[u8; 4]>,
    pub gateways: Vec<[u8; 4]>,
}

/// The gateway and the client's own address on the default route.
pub fn mapping_route(route: &Option<DefaultRoute>) -> (result: Result<
    (IpAddress, IpAddress),
    String,
>)
    ensures
        match *route {
            None => result matches Err(error) && error@
                == "native-port-mapping-default-route-unavailable"@,
            Some(known) => match result {
                Ok((gateway, client)) => {
                    &&& known.gateways@.len() > 0
                    &&& gateway == IpAddress::V4(known.gateways@[0])
                    &&& exists|i: int|
                        0 <= i < known.addresses@.len() && client == IpAddress::V4(
                            #[trigger] known.addresses@[i],
                        ) && is_client_address(known.addresses@[i]) && forall|j: int|
                            0 <= j < i ==> !is_client_address(#[trigger] known.addresses@[j])
                },
                Err(error) => if forall|i: int|
                    0 <= i < known.addresses@.len() ==> !is_client_address(
                        #[trigger] known.addresses@[i],
                    ) {
                    error@ == "native-port-mapping-client-address-unavailable"@
                } else {
                    known.gateways@.len() == 0 && error@
                        == "native-port-mapping-gateway-unavailable"@
                },
            },
        },
{
    let known: &DefaultRoute = match route {
        Some(known) => known,
        None => return Err("native-port-mapping-default-route-unavailable".to_owned()),
    };
    let mut index: usize = 0;
    while index < known.addresses.len()
        invariant
            index <= known.addresses@.len(),
            *route == Some(*known),
            forall|j: int| 0 <= j < index ==> !is_client_address(#[trigger] known.addresses@[j]),
        decreases known.addresses@.len() - index,
    {
        let client = IpAddress::V4(known.addresses[index]);
        if !client.is_loopback() && !client.is_unspecified() {
            assert(is_client_address(known.addresses@[index as int]));
            if known.gateways.len() == 0 {
                return Err("native-port-mapping-gateway-unavailable".to_owned());
            }
            return Ok((IpAddress::V4(known.gateways[0]), client));
        }
        index += 1;
    }
    Err("native-port-mapping-client-address-unavailable".to_owned())
}

} // verus!
