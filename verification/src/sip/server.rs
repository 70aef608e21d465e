//! The signalling loop: what to do with each datagram, and where packets go.

use std::sync::Arc;
use vstd::prelude::*;

use crate::addr::PeerAddr;
use crate::config::AppConfig;
use crate::rtp::engine::RtpEngine;
use crate::sip::dns::DnsCache;
use crate::sip::packet::{Method, SipPacket};
use crate::text::decimal_text;

verus! {

/// The port of a response's destination that names none.
pub const DEFAULT_SIP_PORT: u16 = 5060;

/// What the caller of the signalling loop observed.
pub enum ServerEvent<'a> {
    /// The service is to end.
    ShutdownRequested,
    /// The socket failed.
    ReceiveFailed,
    /// A datagram arrived.
    Received { datagram: &'a [u8] },
    /// The datagram is not a SIP packet.
    ParseFailed,
    /// The datagram is this SIP packet.
    Parsed { packet: &'a SipPacket },
    /// The packet was inspected, and may be passed on or not.
    Inspected { forward: bool },
}

/// What the caller of the signalling loop has to do next.
#[derive(Clone, Copy, Debug, PartialEq, Eq, Structural)]
pub enum ServerAction {
    /// End the loop.
    Stop,
    /// Wait for the next datagram.
    Receive,
    /// Parse the datagram.
    Parse,
    /// Answer `100 Trying` first where `send_trying` says so, and inspect the packet.
    Inspect { send_trying: bool },
    /// Pass the packet on.
    Route,
}

/// Where a packet goes.
#[derive(Clone, Copy, Debug, PartialEq, Eq, Structural)]
pub enum RoutePlan {
    /// To this address.
    To(PeerAddr),
    /// To the address in its request URI.
    ToRequestUri,
    /// To the address in its Via header.
    ToVia,
    /// Nowhere.
    Discard,
}

/// Whether a datagram is only line ends and zero bytes.
pub open spec fn is_filler(datagram: Seq<u8>) -> bool {
    forall|i: int|
        0 <= i < datagram.len() ==> {
            ||| #[trigger] datagram[i] == 0x0d
            ||| datagram[i] == 0x0a
            ||| datagram[i] == 0
        }
}

/// Whether a datagram can be a SIP packet: it has at least four bytes, and four bytes
/// of filler are a keep-alive.
pub open spec fn worth_parsing(datagram: Seq<u8>) -> bool {
    datagram.len() >= 4 && !(datagram.len() == 4 && is_filler(datagram))
}

/// What to do about an event of the signalling loop.
pub open spec fn reaction(event: ServerEvent<'_>) -> ServerAction {
    match event {
        ServerEvent::ShutdownRequested => ServerAction::Stop,
        ServerEvent::ReceiveFailed => ServerAction::Receive,
        ServerEvent::Received { datagram } => if worth_parsing(datagram@) {
            ServerAction::Parse
        } else {
            ServerAction::Receive
        },
        ServerEvent::ParseFailed => ServerAction::Receive,
        ServerEvent::Parsed { packet } => ServerAction::Inspect {
            send_trying: packet.opens_call(),
        },
        ServerEvent::Inspected { forward } => if forward {
            ServerAction::Route
        } else {
            ServerAction::Receive
        },
    }
}

/// Where a packet from `src` goes. A request goes to the proxy, unless it comes from
/// there: then it goes where its URI points. Without the proxy's address it goes
/// nowhere. A response goes back the way that its Via header tells.
pub open spec fn route(is_request: bool, src: PeerAddr, proxy: Option<PeerAddr>) -> RoutePlan {
    if is_request {
        match proxy {
            Some(proxy) => if src.ip == proxy.ip {
                RoutePlan::ToRequestUri
            } else {
                RoutePlan::To(proxy)
            },
            None => RoutePlan::Discard,
        }
    } else {
        RoutePlan::ToVia
    }
}

/// The address that a plan leads to, when looking in the packet gave `found`.
pub open spec fn destination(plan: RoutePlan, found: Option<PeerAddr>) -> Option<PeerAddr> {
    match plan {
        RoutePlan::To(addr) => Some(addr),
        RoutePlan::ToRequestUri | RoutePlan::ToVia => found,
        RoutePlan::Discard => None,
    }
}

/// The state of the signalling side of a border controller.
pub struct SipServer {
    pub config: Arc<AppConfig>,
    pub rtp_engine: RtpEngine,
    pub dns_cache: DnsCache,
}

impl SipServer {
    /// A server with these settings, without relays and without resolved names.
    pub fn new(config: Arc<AppConfig>) -> (server: SipServer)
        ensures
            server.config == config,
            server.rtp_engine@ == (crate::rtp::engine::RelayTable {
                calls: Map::empty(),
                relays: Map::empty(),
                start_port: config.rtp_start_port,
                end_port: config.rtp_end_port,
            }),
            server.dns_cache@ == Map::<Seq<char>, (PeerAddr, u128)>::empty(),
    {
        let rtp_engine = RtpEngine::new(config.rtp_start_port, config.rtp_end_port);
        SipServer { config, rtp_engine, dns_cache: DnsCache::new() }
    }

    /// The local address that signalling binds.
    pub fn bind_address(&self) -> (address: String)
        ensures
            address@ == self.config.sip_bind_ip@ + ":"@ + crate::text::decimal(
                self.config.sip_port as nat,
            ),
    {
        let port = decimal_text(self.config.sip_port as u64);
        self.config.sip_bind_ip.clone().concat(":").concat(port.as_str())
    }

    /// One turn of the signalling loop: takes in what happened, and says what to do
    /// next.
    pub fn run(&self, event: ServerEvent<'_>) -> (action: ServerAction)
        ensures
            action == reaction(event),
    {
        match event {
            ServerEvent::ShutdownRequested => ServerAction::Stop,
            ServerEvent::ReceiveFailed => ServerAction::Receive,
            ServerEvent::Received { datagram } => {
                if datagram.len() < 4 {
                    return ServerAction::Receive;
                }
                if datagram.len() <= 4 && all_filler(datagram) {
                    return ServerAction::Receive;
                }
                ServerAction::Parse
            },
            ServerEvent::ParseFailed => ServerAction::Receive,
            ServerEvent::Parsed { packet } => {
                let send_trying = packet.is_request && match &packet.method {
                    Method::Invite => true,
                    Method::Other(_) => false,
                };
                ServerAction::Inspect { send_trying }
            },
            ServerEvent::Inspected { forward } => if forward {
                ServerAction::Route
            } else {
                ServerAction::Receive
            },
        }
    }

    /// Decides where a packet from `src_addr` goes, given the proxy's address if it
    /// could be resolved.
    pub fn route_packet(
        &self,
        packet: &SipPacket,
        src_addr: PeerAddr,
        proxy_addr: Option<PeerAddr>,
    ) -> (plan: RoutePlan)
        ensures
            plan == route(packet.is_request, src_addr, proxy_addr),
    {
        if packet.is_request {
            if let Some(proxy_addr) = proxy_addr {
                if src_addr.ip == proxy_addr.ip {
                    RoutePlan::ToRequestUri
                } else {
                    RoutePlan::To(proxy_addr)
                }
            } else {
                RoutePlan::Discard
            }
        } else {
            RoutePlan::ToVia
        }
    }
}

impl RoutePlan {
    /// The address to send to. `found` is what the part of the packet that the plan
    /// names gave, if the plan names one.
    pub fn settle(self, found: Option<PeerAddr>) -> (target: Option<PeerAddr>)
        ensures
            target == destination(self, found),
    {
        match self {
            RoutePlan::To(addr) => Some(addr),
            RoutePlan::ToRequestUri | RoutePlan::ToVia => found,
            RoutePlan::Discard => None,
        }
    }
}

/// Whether a datagram is only line ends and zero bytes.
fn all_filler(datagram: &[u8]) -> (filler: bool)
    ensures
        filler == is_filler(datagram@),
{
    let mut i: usize = 0;
    while i < datagram.len()
        invariant
            i <= datagram.len(),
            forall|k: int|
                0 <= k < i ==> {
                    ||| #[trigger] datagram@[k] == 0x0d
                    ||| datagram@[k] == 0x0a
                    ||| datagram@[k] == 0
                },
        decreases datagram.len() - i,
    {
        let byte: u8 = datagram[i];
        if !(byte == 0x0d || byte == 0x0a || byte == 0) {
            return false;
        }
        i = i + 1;
    }
    true
}

/// A request that does not come from the proxy is passed to the proxy and nowhere
/// else.
pub proof fn law_requests_go_through_the_proxy(
    src: PeerAddr,
    proxy: PeerAddr,
    found: Option<PeerAddr>,
)
    requires
        src.ip != proxy.ip,
    ensures
        destination(route(true, src, Some(proxy)), found) == Some(proxy),
{
}

/// A request goes nowhere while the proxy's address is unknown.
pub proof fn law_requests_wait_for_the_proxy(src: PeerAddr, found: Option<PeerAddr>)
    ensures
        destination(route(true, src, None), found) is None,
{
}

/// A request of the proxy goes where its URI points, never back to the proxy by
/// default.
pub proof fn law_proxy_requests_follow_their_uri(
    src: PeerAddr,
    proxy: PeerAddr,
    found: Option<PeerAddr>,
)
    requires
        src.ip == proxy.ip,
    ensures
        destination(route(true, src, Some(proxy)), found) == found,
{
}

/// Responses are routed by their Via header alone, whoever sent them and whether or
/// not the proxy is known.
pub proof fn law_responses_follow_their_via(
    src: PeerAddr,
    proxy: Option<PeerAddr>,
    found: Option<PeerAddr>,
)
    ensures
        destination(route(false, src, proxy), found) == found,
{
}

/// A response is always routed by its Via header, from whichever source, with or without
/// the proxy's address, and whatever else the packet holds; and nothing but a response is.
pub proof fn law_via_is_for_responses(
    server: &SipServer,
    packet: &SipPacket,
    src_addr: PeerAddr,
    proxy_addr: Option<PeerAddr>,
    plan: RoutePlan,
)
    requires
        call_ensures(SipServer::route_packet, (server, packet, src_addr, proxy_addr), plan),
    ensures
        plan is ToVia <==> !packet.is_request,
        route(packet.is_request, src_addr, proxy_addr) == plan,
{
}

/// A request goes to the resolved proxy, to its address and port, unless it came from the
/// proxy's own IP address, from whichever port: then its URI tells where it goes. Without
/// the proxy's address it is discarded, and it is discarded for no other reason.
pub proof fn law_requests_pass_the_proxy_once(
    server: &SipServer,
    packet: &SipPacket,
    src_addr: PeerAddr,
    proxy_addr: Option<PeerAddr>,
    plan: RoutePlan,
)
    requires
        call_ensures(SipServer::route_packet, (server, packet, src_addr, proxy_addr), plan),
        packet.is_request,
    ensures
        plan is Discard <==> proxy_addr is None,
        plan is ToRequestUri <==> (proxy_addr matches Some(proxy) && proxy.ip == src_addr.ip),
        plan is To <==> (proxy_addr matches Some(proxy) && proxy.ip != src_addr.ip),
        plan matches RoutePlan::To(target) ==> proxy_addr == Some(target),
{
}

/// Where a packet is sent: an address of the plan's own comes before anything found in the
/// packet, a plan that looks into the packet sends to what was found there, and a
/// discarded packet is sent nowhere.
pub proof fn law_plan_settles_the_target(
    plan: RoutePlan,
    found: Option<PeerAddr>,
    target: Option<PeerAddr>,
)
    requires
        call_ensures(RoutePlan::settle, (plan, found), target),
    ensures
        plan matches RoutePlan::To(addr) ==> target == Some(addr),
        plan is ToRequestUri ==> target == found,
        plan is ToVia ==> target == found,
        plan is Discard ==> target is None,
        destination(plan, found) == target,
{
}

/// A datagram is parsed if it has more than four bytes, and if it has four of which one is
/// neither a line end nor zero; every other datagram is passed over.
pub proof fn law_datagrams_are_parsed_unless_filler(
    server: &SipServer,
    datagram: &[u8],
    action: ServerAction,
)
    requires
        call_ensures(SipServer::run, (server, ServerEvent::Received { datagram }), action),
    ensures
        action is Parse || action is Receive,
        datagram@.len() > 4 ==> action is Parse,
        datagram@.len() < 4 ==> action is Receive,
        datagram@.len() == 4 ==> (action is Parse <==> exists|i: int|
            0 <= i < 4 && {
                let byte = #[trigger] datagram@[i];
                byte != 13 && byte != 10 && byte != 0
            }),
        reaction(ServerEvent::Received { datagram }) == action,
{
    if datagram@.len() == 4 && action is Parse {
        let i = choose|i: int|
            0 <= i < datagram@.len() && !({
                ||| #[trigger] datagram@[i] == 0x0d
                ||| datagram@[i] == 0x0a
                ||| datagram@[i] == 0
            });
        assert(datagram@[i] != 13 && datagram@[i] != 10 && datagram@[i] != 0);
    }
}

/// Every packet that parses is inspected, and an INVITE request, and nothing else, is
/// answered with `100 Trying` first.
pub proof fn law_invites_are_answered_at_once(
    server: &SipServer,
    packet: &SipPacket,
    action: ServerAction,
)
    requires
        call_ensures(SipServer::run, (server, ServerEvent::Parsed { packet }), action),
    ensures
        action matches ServerAction::Inspect { send_trying } && (send_trying <==> packet.is_request
            && packet.method is Invite),
        reaction(ServerEvent::Parsed { packet }) == action,
{
}

/// The loop ends when it is told to and at no other event; failures and dropped packets
/// lead to the next datagram; and only a packet that inspection let pass is routed.
pub proof fn law_loop_ends_only_on_request(
    server: &SipServer,
    event: ServerEvent<'_>,
    action: ServerAction,
)
    requires
        call_ensures(SipServer::run, (server, event), action),
    ensures
        action is Stop <==> event is ShutdownRequested,
        action is Route <==> (event matches ServerEvent::Inspected { forward } && forward),
        event is ReceiveFailed || event is ParseFailed ==> action is Receive,
        event matches ServerEvent::Inspected { forward } && !forward ==> action is Receive,
        action is Parse ==> event is Received,
        action is Inspect ==> event is Parsed,
{
}

/// A new server keeps its settings, draws relay ports from the range that they give, and
/// has no relays and no resolved names.
pub proof fn law_new_server_follows_its_settings(config: Arc<AppConfig>, server: SipServer)
    requires
        call_ensures(SipServer::new, (config,), server),
    ensures
        server.config == config,
        server.rtp_engine@.start_port == config.rtp_start_port,
        server.rtp_engine@.end_port == config.rtp_end_port,
        forall|call_id: Seq<char>| !#[trigger] server.rtp_engine@.calls.dom().contains(call_id),
        forall|port: u16| !#[trigger] server.rtp_engine@.relays.dom().contains(port),
        forall|name: Seq<char>| !#[trigger] server.dns_cache@.dom().contains(name),
{
}

/// Signalling binds the configured address and port: what precedes the last colon is the
/// address, and what follows it reads back as the port.
pub proof fn law_signalling_binds_what_is_configured(server: &SipServer, address: String)
    requires
        call_ensures(SipServer::bind_address, (server,), address),
    ensures
        ({
            let ip = server.config.sip_bind_ip@;
            &&& address@.len() > ip.len() + 1
            &&& address@.take(ip.len() as int) == ip
            &&& address@[ip.len() as int] == ':'
            &&& address@.skip(ip.len() as int + 1) == crate::text::decimal(
                server.config.sip_port as nat,
            )
            &&& crate::text::parsed_u16(address@.skip(ip.len() as int + 1)) == Some(
                server.config.sip_port,
            )
        }),
{
    reveal_strlit(":");
    let ip = server.config.sip_bind_ip@;
    let port = crate::text::decimal(server.config.sip_port as nat);
    crate::text::law_decimal_reads_back(server.config.sip_port as nat);
    assert(address@.take(ip.len() as int) =~= ip);
    assert(address@.skip(ip.len() as int + 1) =~= port);
}

} // verus!
