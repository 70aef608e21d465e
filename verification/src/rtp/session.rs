//! One relay session between an inside and an outside leg.
//!
//! A session learns each leg's real address from the media it receives
//! (latching) and passes every packet on to the other leg. The caller owns the
//! socket and the timers; it reports what happened and does what it is told.

use vstd::prelude::*;

use crate::addr::{is_docker_gateway, is_internal_ip, PeerAddr};
use crate::text::decimal_text;

verus! {

/// How long a session waits for a packet before it ends, in seconds.
pub const RELAY_TIMEOUT_SECS: u64 = 60;

/// One leg of a session: where its packets go, and whether that address was
/// learnt from media (`latched`) or only announced in signalling.
#[derive(Clone, Copy, Debug, PartialEq, Eq, Structural)]
pub struct RelayLeg {
    pub peer: Option<PeerAddr>,
    pub latched: bool,
}

/// The state of a relay session.
#[derive(Clone, Copy, Debug, PartialEq, Eq, Structural)]
pub struct RelaySession {
    pub outside: RelayLeg,
    pub inside: RelayLeg,
}

/// What the caller of a session observed.
pub enum RelayEvent<'a> {
    /// The session was told to stop.
    Stopped,
    /// A datagram arrived from `src`.
    Received { packet: &'a [u8], src: PeerAddr },
    /// The socket failed.
    ReceiveFailed,
    /// Nothing arrived for `RELAY_TIMEOUT_SECS`.
    TimedOut,
}

/// What the caller of a session has to do next.
#[derive(Clone, Copy, Debug, PartialEq, Eq, Structural)]
pub enum RelayAction {
    /// Send the datagram that just arrived to this address.
    Forward(PeerAddr),
    /// Wait for the next event.
    Wait,
    /// End the session.
    Terminate,
}

/// Whether a datagram is RTCP: version 2, and a packet type from 192 to 205.
pub open spec fn rtcp(packet: Seq<u8>) -> bool {
    &&& packet.len() >= 2
    &&& packet[0] / 64 == 2
    &&& 192 <= packet[1] <= 205
}

/// Whether a datagram from `src` may teach its leg an address: RTCP never does,
/// and neither does a container gateway on the inside.
pub open spec fn teaches(packet: Seq<u8>, src: PeerAddr) -> bool {
    &&& !rtcp(packet)
    &&& crate::addr::internal_ip(src.ip) ==> !crate::addr::docker_gateway(src.ip)
}

impl RelayLeg {
    /// A leg with nothing known.
    pub open spec fn unknown() -> RelayLeg {
        RelayLeg { peer: None, latched: false }
    }

    /// A leg whose address was announced in signalling.
    pub open spec fn announced(peer: PeerAddr) -> RelayLeg {
        RelayLeg { peer: Some(peer), latched: false }
    }

    /// A leg locked to an address that media came from.
    pub open spec fn locked(peer: PeerAddr) -> RelayLeg {
        RelayLeg { peer: Some(peer), latched: true }
    }

    /// A leg is open to `src` while it is not locked, and when the peer it is
    /// locked to has another IP address.
    pub open spec fn open_to(self, src: PeerAddr) -> bool {
        match self.peer {
            None => true,
            Some(peer) => !self.latched || peer.ip != src.ip,
        }
    }

    /// The leg after a datagram from `src` on it.
    pub open spec fn after(self, packet: Seq<u8>, src: PeerAddr) -> RelayLeg {
        if teaches(packet, src) && self.open_to(src) {
            RelayLeg::locked(src)
        } else {
            self
        }
    }

    /// Whether a datagram from `src` makes this leg lock to `src`.
    fn should_latch(&self, src: PeerAddr, teaching: bool) -> (latch: bool)
        ensures
            latch == (teaching && self.open_to(src)),
    {
        match self.peer {
            None => teaching,
            Some(peer) => {
                if !self.latched && teaching {
                    true
                } else if peer.ip != src.ip && teaching {
                    true
                } else {
                    false
                }
            },
        }
    }
}

impl RelaySession {
    /// The session that knows only what signalling announced.
    pub open spec fn initial(announced: Option<PeerAddr>) -> RelaySession {
        match announced {
            None => RelaySession { outside: RelayLeg::unknown(), inside: RelayLeg::unknown() },
            Some(peer) => if crate::addr::internal_ip(peer.ip) {
                RelaySession { outside: RelayLeg::unknown(), inside: RelayLeg::announced(peer) }
            } else {
                RelaySession { outside: RelayLeg::announced(peer), inside: RelayLeg::unknown() }
            },
        }
    }

    /// The session after a datagram from `src`: only the leg that `src` belongs to
    /// can change.
    pub open spec fn after(self, packet: Seq<u8>, src: PeerAddr) -> RelaySession {
        if crate::addr::internal_ip(src.ip) {
            RelaySession { inside: self.inside.after(packet, src), ..self }
        } else {
            RelaySession { outside: self.outside.after(packet, src), ..self }
        }
    }

    /// The session after several datagrams, first to last.
    pub open spec fn after_all(self, datagrams: Seq<(Seq<u8>, PeerAddr)>) -> RelaySession
        decreases datagrams.len(),
    {
        if datagrams.len() == 0 {
            self
        } else {
            self.after_all(datagrams.drop_last()).after(datagrams.last().0, datagrams.last().1)
        }
    }

    /// Where a datagram from `src` goes: to the peer of the other leg.
    pub open spec fn other_peer(self, src: PeerAddr) -> Option<PeerAddr> {
        if crate::addr::internal_ip(src.ip) {
            self.outside.peer
        } else {
            self.inside.peer
        }
    }

    /// Each leg's peer lies on that leg's side, and a locked leg has a peer.
    pub open spec fn sided(self) -> bool {
        &&& self.inside.peer matches Some(peer) ==> crate::addr::internal_ip(peer.ip)
        &&& self.outside.peer matches Some(peer) ==> !crate::addr::internal_ip(peer.ip)
        &&& self.inside.latched ==> self.inside.peer is Some
        &&& self.outside.latched ==> self.outside.peer is Some
    }

    /// A session whose peers are unknown but for the one that signalling announced,
    /// which is put on the side that its address belongs to.
    pub fn new(initial_peer: Option<PeerAddr>) -> (session: RelaySession)
        ensures
            session == RelaySession::initial(initial_peer),
            session.sided(),
    {
        let mut session = RelaySession {
            outside: RelayLeg { peer: None, latched: false },
            inside: RelayLeg { peer: None, latched: false },
        };
        if let Some(target) = initial_peer {
            if is_internal_ip(target.ip) {
                session.inside.peer = Some(target);
            } else {
                session.outside.peer = Some(target);
            }
        }
        session
    }

    /// One turn of the session. A datagram updates the leg it came from and is
    /// passed on to the other leg's peer, if that is known; anything else ends the
    /// session.
    pub fn step(&mut self, event: RelayEvent<'_>) -> (action: RelayAction)
        ensures
            match event {
                RelayEvent::Received { packet, src } => {
                    &&& *final(self) == old(self).after(packet@, src)
                    &&& action == match old(self).other_peer(src) {
                        Some(peer) => RelayAction::Forward(peer),
                        None => RelayAction::Wait,
                    }
                },
                _ => *final(self) == *old(self) && action == RelayAction::Terminate,
            },
            old(self).sided() ==> final(self).sided(),
    {
        match event {
            RelayEvent::Received { packet, src } => {
                let rtcp = is_rtcp(packet);
                let destination = if is_internal_ip(src.ip) {
                    let teaching = !is_docker_gateway(src.ip) && !rtcp;
                    if self.inside.should_latch(src, teaching) {
                        self.inside = RelayLeg { peer: Some(src), latched: true };
                    }
                    self.outside.peer
                } else {
                    if self.outside.should_latch(src, !rtcp) {
                        self.outside = RelayLeg { peer: Some(src), latched: true };
                    }
                    self.inside.peer
                };
                match destination {
                    Some(peer) => RelayAction::Forward(peer),
                    None => RelayAction::Wait,
                }
            },
            RelayEvent::Stopped | RelayEvent::ReceiveFailed | RelayEvent::TimedOut => {
                RelayAction::Terminate
            },
        }
    }
}

/// Whether a datagram is RTCP.
pub fn is_rtcp(packet: &[u8]) -> (is: bool)
    ensures
        is == rtcp(packet@),
{
    if packet.len() < 2 {
        return false;
    }
    let first: u8 = packet[0];
    assert(first >> 6 == first / 64) by (bit_vector);
    first >> 6 == 2 && packet[1] >= 192 && packet[1] <= 205
}

/// The local address that the relay on `port` binds: every interface.
pub fn relay_bind_address(port: u16) -> (address: String)
    ensures
        address@ == "0.0.0.0:"@ + crate::text::decimal(port as nat),
{
    "0.0.0.0:".to_owned().concat(decimal_text(port as u64).as_str())
}

/// A datagram is only ever sent to the opposite side of the one it came from.
pub proof fn law_forwarding_crosses_sides(session: RelaySession, src: PeerAddr)
    requires
        session.sided(),
    ensures
        session.other_peer(src) matches Some(peer) ==> crate::addr::internal_ip(peer.ip)
            != crate::addr::internal_ip(src.ip),
{
}

/// RTCP changes nothing in the session, whatever its source. That it is passed on
/// all the same follows from `other_peer` not depending on the datagram.
pub proof fn law_rtcp_never_latches(session: RelaySession, packet: Seq<u8>, src: PeerAddr)
    requires
        rtcp(packet),
    ensures
        session.after(packet, src) == session,
{
}

/// A container gateway never becomes the inside peer.
pub proof fn law_gateway_never_latches(session: RelaySession, packet: Seq<u8>, src: PeerAddr)
    requires
        crate::addr::internal_ip(src.ip),
        crate::addr::docker_gateway(src.ip),
    ensures
        session.after(packet, src) == session,
{
}

/// A locked leg keeps its peer when only the port of the sender differs.
pub proof fn law_port_change_keeps_lock(leg: RelayLeg, packet: Seq<u8>, src: PeerAddr)
    requires
        leg.latched,
        leg.peer matches Some(peer) && peer.ip == src.ip,
    ensures
        leg.after(packet, src) == leg,
{
}

/// The first datagram that may teach an address overrides what signalling
/// announced and locks its leg.
pub proof fn law_first_media_locks(leg: RelayLeg, packet: Seq<u8>, src: PeerAddr)
    requires
        !leg.latched,
        teaches(packet, src),
    ensures
        leg.after(packet, src) == RelayLeg::locked(src),
{
}

/// A locked leg moves when media comes from another IP address.
pub proof fn law_handover_relocks(leg: RelayLeg, packet: Seq<u8>, src: PeerAddr)
    requires
        leg.peer matches Some(peer) && peer.ip != src.ip,
        teaches(packet, src),
    ensures
        leg.after(packet, src) == RelayLeg::locked(src),
{
}

/// Once media from `src` has been accepted on one leg, a datagram from the other
/// leg goes to `src`.
pub proof fn law_media_opens_the_return_path(
    session: RelaySession,
    packet: Seq<u8>,
    src: PeerAddr,
    back: PeerAddr,
)
    requires
        teaches(packet, src),
        crate::addr::internal_ip(src.ip) ==> session.inside.open_to(src),
        !crate::addr::internal_ip(src.ip) ==> session.outside.open_to(src),
        crate::addr::internal_ip(back.ip) != crate::addr::internal_ip(src.ip),
    ensures
        session.after(packet, src).other_peer(back) == Some(src),
{
}

/// No run of datagrams mixes the sides up or unlocks a leg.
pub proof fn law_runs_keep_sides_and_locks(
    session: RelaySession,
    datagrams: Seq<(Seq<u8>, PeerAddr)>,
)
    requires
        session.sided(),
    ensures
        session.after_all(datagrams).sided(),
        session.inside.latched ==> session.after_all(datagrams).inside.latched,
        session.outside.latched ==> session.after_all(datagrams).outside.latched,
    decreases datagrams.len(),
{
    if datagrams.len() > 0 {
        law_runs_keep_sides_and_locks(session, datagrams.drop_last());
    }
}

/// What RTCP is, said of the bytes: the two top bits of the first byte are `10`, and the
/// second byte is a packet type from 192 to 205. Nothing else counts, neither the length
/// beyond two bytes nor what follows them.
pub proof fn law_rtcp_is_told_by_two_bytes(packet: &[u8], found: bool)
    requires
        call_ensures(is_rtcp, (packet,), found),
    ensures
        packet@.len() < 2 ==> !found,
        packet@.len() >= 2 ==> found == (128 <= packet@[0] <= 191 && 192 <= packet@[1] <= 205),
        rtcp(packet@) == found,
{
}

/// Media locks its leg. A datagram that is not RTCP by its bytes, and that does not come
/// from an inside address ending in 1, leaves the leg of its source locked to its source,
/// whatever its length and payload; only a leg that is already locked to the same IP
/// address keeps the peer it has. The other leg is untouched.
pub proof fn law_media_locks_its_leg(
    session: &mut RelaySession,
    packet: &[u8],
    src: PeerAddr,
    action: RelayAction,
)
    requires
        call_ensures(RelaySession::step, (session, RelayEvent::Received { packet, src }), action),
        packet@.len() < 2 || packet@[0] < 128 || packet@[0] > 191 || packet@[1] < 192 || packet@[1]
            > 205,
        crate::addr::internal_ip(src.ip) ==> !(src.ip matches crate::addr::IpAddress::V4(_, _, _, d)
            && d == 1),
    ensures
        ({
            let inside = crate::addr::internal_ip(src.ip);
            let before = if inside {
                old(session).inside
            } else {
                old(session).outside
            };
            let after = if inside {
                final(session).inside
            } else {
                final(session).outside
            };
            let same_ip = before.peer matches Some(peer) && peer.ip == src.ip;
            &&& !before.latched || !same_ip ==> after.peer == Some(src) && after.latched
            &&& before.latched && same_ip ==> after == before
        }),
        crate::addr::internal_ip(src.ip) ==> final(session).outside == old(session).outside,
        !crate::addr::internal_ip(src.ip) ==> final(session).inside == old(session).inside,
        *final(session) == old(session).after(packet@, src),
{
}

/// RTCP, by its bytes, and what comes from an inside address ending in 1 leave the session
/// as it is.
pub proof fn law_control_and_gateways_teach_nothing(
    session: &mut RelaySession,
    packet: &[u8],
    src: PeerAddr,
    action: RelayAction,
)
    requires
        call_ensures(RelaySession::step, (session, RelayEvent::Received { packet, src }), action),
        ({
            ||| packet@.len() >= 2 && 128 <= packet@[0] <= 191 && 192 <= packet@[1] <= 205
            ||| crate::addr::internal_ip(src.ip) && (
            src.ip matches crate::addr::IpAddress::V4(_, _, _, d) && d == 1)
        }),
    ensures
        *final(session) == *old(session),
        *final(session) == old(session).after(packet@, src),
{
}

/// Every datagram crosses: whatever it holds, it goes to the peer that the leg opposite to
/// its source has, whether that was learnt or only announced, and waits for nothing else.
pub proof fn law_every_datagram_crosses(
    session: &mut RelaySession,
    packet: &[u8],
    src: PeerAddr,
    action: RelayAction,
)
    requires
        call_ensures(RelaySession::step, (session, RelayEvent::Received { packet, src }), action),
    ensures
        crate::addr::internal_ip(src.ip) ==> match old(session).outside.peer {
            Some(peer) => action == RelayAction::Forward(peer),
            None => action == RelayAction::Wait,
        },
        !crate::addr::internal_ip(src.ip) ==> match old(session).inside.peer {
            Some(peer) => action == RelayAction::Forward(peer),
            None => action == RelayAction::Wait,
        },
{
}

/// Two calls: after media from `src` on a leg that is not locked, any datagram from the
/// other side goes to `src`, and to the very port that the media came from.
pub proof fn law_media_is_answered(
    session: &mut RelaySession,
    packet: &[u8],
    src: PeerAddr,
    first: RelayAction,
    later: &mut RelaySession,
    reply: &[u8],
    back: PeerAddr,
    second: RelayAction,
)
    requires
        call_ensures(RelaySession::step, (session, RelayEvent::Received { packet, src }), first),
        *later == *final(session),
        call_ensures(
            RelaySession::step,
            (later, RelayEvent::Received { packet: reply, src: back }),
            second,
        ),
        packet@.len() < 2 || packet@[0] < 128 || packet@[0] > 191 || packet@[1] < 192 || packet@[1]
            > 205,
        crate::addr::internal_ip(src.ip) ==> !(src.ip matches crate::addr::IpAddress::V4(_, _, _, d)
            && d == 1)
            && !session.inside.latched,
        !crate::addr::internal_ip(src.ip) ==> !session.outside.latched,
        crate::addr::internal_ip(back.ip) != crate::addr::internal_ip(src.ip),
    ensures
        second == RelayAction::Forward(src),
{
}

/// A session goes on while datagrams arrive, and ends with anything else that happens; its
/// legs are then as they were. A minute without a datagram is such an end.
pub proof fn law_only_datagrams_keep_a_session(
    session: &mut RelaySession,
    event: RelayEvent<'_>,
    action: RelayAction,
)
    requires
        call_ensures(RelaySession::step, (session, event), action),
    ensures
        action is Terminate <==> !(event is Received),
        !(event is Received) ==> *final(session) == *old(session),
        RELAY_TIMEOUT_SECS == 60,
{
}

/// A new session has no locked leg. What was announced is the peer of the side that its
/// address lies on, and of no other.
pub proof fn law_new_session_knows_what_was_announced(
    announced: Option<PeerAddr>,
    session: RelaySession,
)
    requires
        call_ensures(RelaySession::new, (announced,), session),
    ensures
        !session.inside.latched && !session.outside.latched,
        announced matches Some(peer) ==> if crate::addr::internal_ip(peer.ip) {
            session.inside.peer == announced && session.outside.peer is None
        } else {
            session.outside.peer == announced && session.inside.peer is None
        },
        announced is None ==> session.inside.peer is None && session.outside.peer is None,
        session == RelaySession::initial(announced),
{
}

/// A relay binds its own port on every interface: what follows the colon reads back as the
/// port.
pub proof fn law_relay_binds_its_port(port: u16, address: String)
    requires
        call_ensures(relay_bind_address, (port,), address),
    ensures
        address@.len() > 8,
        address@.take(8) == seq!['0', '.', '0', '.', '0', '.', '0', ':'],
        address@.skip(8) == crate::text::decimal(port as nat),
        crate::text::parsed_u16(address@.skip(8)) == Some(port),
{
    reveal_strlit("0.0.0.0:");
    crate::text::law_decimal_reads_back(port as nat);
    assert(address@.take(8) =~= "0.0.0.0:"@);
    assert(address@.skip(8) =~= crate::text::decimal(port as nat));
}

} // verus!
