use sip_sbc::addr::{IpAddress, PeerAddr};
use sip_sbc::rtp::session::{
    is_rtcp, relay_bind_address, RelayAction, RelayEvent, RelayLeg, RelaySession,
};

const RTP: [u8; 4] = [0x80, 0x00, 0x00, 0x01];
const RTCP: [u8; 4] = [0x80, 200, 0x00, 0x06];

fn peer(a: u8, b: u8, c: u8, d: u8, port: u16) -> PeerAddr {
    PeerAddr { ip: IpAddress::V4(a, b, c, d), port, flowinfo: 0, scope_id: 0 }
}

fn receive(session: &mut RelaySession, packet: &[u8], src: PeerAddr) -> RelayAction {
    session.step(RelayEvent::Received { packet, src })
}

fn locked(peer: PeerAddr) -> RelayLeg {
    RelayLeg { peer: Some(peer), latched: true }
}

#[test]
fn rtcp_is_told_by_version_and_packet_type() {
    assert!(is_rtcp(&[0x80, 192]));
    assert!(is_rtcp(&[0xbf, 205, 9]));
    assert!(!is_rtcp(&[0x80, 191]));
    assert!(!is_rtcp(&[0x80, 206]));
    assert!(!is_rtcp(&[0x40, 200]));
    assert!(!is_rtcp(&[0xc0, 200]));
    assert!(!is_rtcp(&[0x80]));
    assert!(!is_rtcp(&[]));
}

#[test]
fn bind_address_names_every_interface() {
    assert_eq!(relay_bind_address(10000), "0.0.0.0:10000");
    assert_eq!(relay_bind_address(0), "0.0.0.0:0");
}

#[test]
fn announced_peer_is_put_on_its_side() {
    let inside = peer(10, 0, 0, 5, 4000);
    let outside = peer(85, 1, 2, 3, 5000);
    let unknown = RelayLeg { peer: None, latched: false };
    let session = RelaySession::new(Some(inside));
    assert_eq!(session.inside, RelayLeg { peer: Some(inside), latched: false });
    assert_eq!(session.outside, unknown);
    let session = RelaySession::new(Some(outside));
    assert_eq!(session.outside, RelayLeg { peer: Some(outside), latched: false });
    assert_eq!(session.inside, unknown);
    let session = RelaySession::new(None);
    assert_eq!((session.inside, session.outside), (unknown, unknown));
}

#[test]
fn first_media_overrides_the_announced_port() {
    let announced = peer(85, 1, 2, 3, 5000);
    let real = peer(85, 1, 2, 3, 61234);
    let mut session = RelaySession::new(Some(announced));
    assert_eq!(receive(&mut session, &RTP, real), RelayAction::Wait);
    assert_eq!(session.outside, locked(real));
}

#[test]
fn rtcp_never_latches_but_is_forwarded() {
    let inside = peer(10, 0, 0, 5, 4000);
    let outside = peer(85, 1, 2, 3, 5001);
    let mut session = RelaySession::new(Some(inside));
    assert_eq!(receive(&mut session, &RTCP, outside), RelayAction::Forward(inside));
    assert_eq!(session.outside.peer, None);
}

#[test]
fn port_change_keeps_the_lock() {
    let first = peer(85, 1, 2, 3, 5000);
    let mut session = RelaySession::new(None);
    receive(&mut session, &RTP, first);
    receive(&mut session, &RTP, peer(85, 1, 2, 3, 5001));
    assert_eq!(session.outside, locked(first));
}

#[test]
fn handover_relocks() {
    let wifi = peer(85, 1, 2, 3, 5000);
    let mobile = peer(178, 9, 9, 9, 7000);
    let mut session = RelaySession::new(None);
    receive(&mut session, &RTP, wifi);
    receive(&mut session, &RTCP, mobile);
    assert_eq!(session.outside, locked(wifi));
    receive(&mut session, &RTP, mobile);
    assert_eq!(session.outside, locked(mobile));
}

#[test]
fn gateway_never_latches_inside() {
    let gateway = peer(172, 17, 0, 1, 4000);
    let outside = peer(85, 1, 2, 3, 5000);
    let mut session = RelaySession::new(Some(outside));
    assert_eq!(receive(&mut session, &RTP, gateway), RelayAction::Forward(outside));
    assert_eq!(session.inside.peer, None);
}

#[test]
fn outside_address_ending_in_one_latches() {
    let outside = peer(85, 1, 2, 1, 5000);
    let mut session = RelaySession::new(None);
    receive(&mut session, &RTP, outside);
    assert_eq!(session.outside, locked(outside));
}

#[test]
fn media_opens_the_return_path() {
    let inside = peer(10, 0, 0, 5, 4000);
    let outside = peer(85, 1, 2, 3, 5000);
    let mut session = RelaySession::new(None);
    assert_eq!(receive(&mut session, &RTP, outside), RelayAction::Wait);
    assert_eq!(receive(&mut session, &RTP, inside), RelayAction::Forward(outside));
    assert_eq!(receive(&mut session, &RTP, outside), RelayAction::Forward(inside));
    assert_eq!(session.inside, locked(inside));
    assert_eq!(session.outside, locked(outside));
}

#[test]
fn runs_keep_sides_and_locks() {
    let mut session = RelaySession::new(None);
    let sources = [
        peer(10, 0, 0, 5, 4000),
        peer(85, 1, 2, 3, 5000),
        peer(10, 0, 0, 6, 4002),
        peer(172, 17, 0, 1, 4000),
        peer(9, 9, 9, 9, 1),
    ];
    for packet in [RTP, RTCP, RTP] {
        for src in sources {
            receive(&mut session, &packet, src);
        }
    }
    assert_eq!(session.inside, locked(sources[2]));
    assert_eq!(session.outside, locked(sources[4]));
}

#[test]
fn everything_else_ends_the_session() {
    let outside = peer(85, 1, 2, 3, 5000);
    let mut session = RelaySession::new(Some(outside));
    let before = session;
    assert_eq!(session.step(RelayEvent::Stopped), RelayAction::Terminate);
    assert_eq!(session.step(RelayEvent::ReceiveFailed), RelayAction::Terminate);
    assert_eq!(session.step(RelayEvent::TimedOut), RelayAction::Terminate);
    assert_eq!(session, before);
}
