use std::sync::Arc;

use sip_sbc::addr::{IpAddress, PeerAddr};
use sip_sbc::config::AppConfig;
use sip_sbc::sip::packet::{Method, SipPacket};
use sip_sbc::sip::server::{RoutePlan, ServerAction, ServerEvent, SipServer, DEFAULT_SIP_PORT};

fn server() -> SipServer {
    SipServer::new(Arc::new(AppConfig {
        sip_bind_ip: "0.0.0.0".to_string(),
        sip_port: 5060,
        sip_internal_ip: "10.0.0.2".to_string(),
        sip_public_ip: "85.0.0.2".to_string(),
        proxy_sip_addr: "proxy:5060".to_string(),
        rtp_start_port: 40000,
        rtp_end_port: 40000,
    }))
}

fn packet(is_request: bool, method: Method, status_code: u16) -> SipPacket {
    SipPacket { is_request, method, status_code, call_id: None, headers: vec![], body: vec![] }
}

fn peer(d: u8, port: u16) -> PeerAddr {
    PeerAddr { ip: IpAddress::V4(10, 0, 0, d), port, flowinfo: 0, scope_id: 0 }
}

#[test]
fn a_server_starts_from_its_settings() {
    let mut server = server();
    assert_eq!(server.bind_address(), "0.0.0.0:5060");
    assert_eq!(server.rtp_engine.get_or_allocate_relay("a", None).unwrap().port(), 40000);
    assert!(server.rtp_engine.get_or_allocate_relay("b", None).is_none());
    assert_eq!(DEFAULT_SIP_PORT, 5060);
}

#[test]
fn keep_alives_and_short_datagrams_are_skipped() {
    let server = server();
    let skipped: [&[u8]; 6] =
        [b"", b"\r\n", b"abc", b"\r\n\r\n", b"\0\0\0\0", b"\n\n\r\0"];
    for datagram in skipped {
        assert_eq!(server.run(ServerEvent::Received { datagram }), ServerAction::Receive);
    }
    let parsed: [&[u8]; 4] = [b"BYE ", b"\r\n\r\n\r", b"\r\n\r ", b"INVITE sip:a SIP/2.0"];
    for datagram in parsed {
        assert_eq!(server.run(ServerEvent::Received { datagram }), ServerAction::Parse);
    }
}

#[test]
fn only_an_invite_is_answered_with_trying() {
    let server = server();
    let invite = packet(true, Method::Invite, 0);
    let bye = packet(true, Method::Other("BYE".to_string()), 0);
    let response = packet(false, Method::Invite, 200);
    assert_eq!(
        server.run(ServerEvent::Parsed { packet: &invite }),
        ServerAction::Inspect { send_trying: true }
    );
    assert_eq!(
        server.run(ServerEvent::Parsed { packet: &bye }),
        ServerAction::Inspect { send_trying: false }
    );
    assert_eq!(
        server.run(ServerEvent::Parsed { packet: &response }),
        ServerAction::Inspect { send_trying: false }
    );
}

#[test]
fn the_loop_goes_on_until_shutdown() {
    let server = server();
    assert_eq!(server.run(ServerEvent::ShutdownRequested), ServerAction::Stop);
    assert_eq!(server.run(ServerEvent::ReceiveFailed), ServerAction::Receive);
    assert_eq!(server.run(ServerEvent::ParseFailed), ServerAction::Receive);
    assert_eq!(server.run(ServerEvent::Inspected { forward: true }), ServerAction::Route);
    assert_eq!(server.run(ServerEvent::Inspected { forward: false }), ServerAction::Receive);
}

#[test]
fn requests_go_through_the_proxy() {
    let server = server();
    let request = packet(true, Method::Invite, 0);
    let proxy = peer(9, 5060);
    let plan = server.route_packet(&request, peer(8, 5060), Some(proxy));
    assert_eq!(plan, RoutePlan::To(proxy));
    assert_eq!(plan.settle(None), Some(proxy));
    assert_eq!(plan.settle(Some(peer(1, 1))), Some(proxy));
}

#[test]
fn requests_of_the_proxy_follow_their_uri() {
    let server = server();
    let request = packet(true, Method::Other("BYE".to_string()), 0);
    let plan = server.route_packet(&request, peer(9, 40000), Some(peer(9, 5060)));
    assert_eq!(plan, RoutePlan::ToRequestUri);
    assert_eq!(plan.settle(Some(peer(4, 7000))), Some(peer(4, 7000)));
    assert_eq!(plan.settle(None), None);
}

#[test]
fn requests_wait_for_the_proxy() {
    let server = server();
    let request = packet(true, Method::Invite, 0);
    let plan = server.route_packet(&request, peer(8, 5060), None);
    assert_eq!(plan, RoutePlan::Discard);
    assert_eq!(plan.settle(Some(peer(1, 1))), None);
}

#[test]
fn responses_follow_their_via() {
    let server = server();
    let response = packet(false, Method::Invite, 180);
    for proxy in [None, Some(peer(9, 5060))] {
        let plan = server.route_packet(&response, peer(9, 5060), proxy);
        assert_eq!(plan, RoutePlan::ToVia);
        assert_eq!(plan.settle(Some(peer(3, 5062))), Some(peer(3, 5062)));
    }
}

#[test]
fn packets_are_labelled_by_method_or_status() {
    assert_eq!(packet(true, Method::Invite, 0).label(), "INVITE");
    assert_eq!(packet(true, Method::Other("BYE".to_string()), 0).label(), "BYE");
    assert_eq!(packet(false, Method::Invite, 486).label(), "RESPONSE/486");
}
