use std::sync::Arc;

use sip_sbc::addr::{IpAddress, PeerAddr};
use sip_sbc::config::AppConfig;
use sip_sbc::rtp::engine::{RelayGrant, RtpEngine};
use sip_sbc::sip::media::{read_announcement, MediaHandler, SdpOutcome};
use sip_sbc::sip::packet::{Header, HeaderName, Method, SipPacket};

const OFFER: &str = "v=0\r\nc=IN IP4 85.1.2.3\r\nm=audio 49170 RTP/AVP 0 8\r\na=rtcp:49171\r\n";

fn handler() -> MediaHandler {
    MediaHandler::new(Arc::new(AppConfig {
        sip_bind_ip: "0.0.0.0".to_string(),
        sip_port: 5060,
        sip_internal_ip: "10.0.0.2".to_string(),
        sip_public_ip: "85.0.0.2".to_string(),
        proxy_sip_addr: "proxy:5060".to_string(),
        rtp_start_port: 40000,
        rtp_end_port: 40000,
    }))
}

fn header(name: HeaderName, value: &str) -> Header {
    Header { name, value: value.to_string() }
}

fn packet(is_request: bool, call_id: Option<&str>, body: &[u8]) -> SipPacket {
    SipPacket {
        is_request,
        method: Method::Invite,
        status_code: 200,
        call_id: call_id.map(|id| id.to_string()),
        headers: vec![
            header(HeaderName::Other(0), "via"),
            header(HeaderName::ContentLength, "7"),
            header(HeaderName::Other(2), "contact"),
            header(HeaderName::ContentLength, "8"),
        ],
        body: body.to_vec(),
    }
}

fn client() -> PeerAddr {
    PeerAddr { ip: IpAddress::V4(85, 1, 2, 3), port: 49170, flowinfo: 0, scope_id: 0 }
}

fn parse(text: &str) -> Option<PeerAddr> {
    if text == "85.1.2.3:49170" {
        Some(client())
    } else {
        None
    }
}

fn rewrite(body: &[u8], ip: &str, port: u16) -> Option<Vec<u8>> {
    let mut new_body = format!("c=IN IP4 {}\r\nm=audio {}\r\n", ip, port).into_bytes();
    new_body.extend_from_slice(body);
    Some(new_body)
}

fn no_audio(_body: &[u8], _ip: &str, _port: u16) -> Option<Vec<u8>> {
    None
}

fn announced(text: &str) -> (String, u16) {
    let announcement = read_announcement(text);
    (announcement.ip, announcement.port)
}

fn names(packet: &SipPacket) -> Vec<HeaderName> {
    packet.headers.iter().map(|h| h.name).collect()
}

#[test]
fn announcements_are_read() {
    assert_eq!(announced(OFFER), ("85.1.2.3".to_string(), 49170));
    assert_eq!(announced(""), ("0.0.0.0".to_string(), 0));
    assert_eq!(announced("c=IN IP4 \t 1.2.3.4 \u{a0}"), ("1.2.3.4".to_string(), 0));
    assert_eq!(announced(" c=IN IP4 1.2.3.4"), ("0.0.0.0".to_string(), 0));
    assert_eq!(announced("c=IN IP6 ::1"), ("0.0.0.0".to_string(), 0));
    assert_eq!(announced("m=audio  +080 RTP/AVP"), ("0.0.0.0".to_string(), 80));
    assert_eq!(announced("m=audio 65535"), ("0.0.0.0".to_string(), 65535));
    assert_eq!(announced("m=audio 65536"), ("0.0.0.0".to_string(), 0));
    assert_eq!(announced("m=audio 99999999999999999999"), ("0.0.0.0".to_string(), 0));
    assert_eq!(announced("m=audio -5"), ("0.0.0.0".to_string(), 0));
    assert_eq!(announced("m=audio +"), ("0.0.0.0".to_string(), 0));
    assert_eq!(announced("m=audio 49170/2 RTP/AVP"), ("0.0.0.0".to_string(), 0));
    assert_eq!(announced("m=audio \r\n"), ("0.0.0.0".to_string(), 0));
}

#[test]
fn the_last_line_decides() {
    assert_eq!(
        announced("c=IN IP4 1.1.1.1\nm=audio 10\nc=IN IP4 2.2.2.2\nm=audio 20"),
        ("2.2.2.2".to_string(), 20)
    );
    assert_eq!(announced("m=audio 10\nm=audio x"), ("0.0.0.0".to_string(), 0));
    assert_eq!(announced("m=audio 10\nm=video 20\n\n"), ("0.0.0.0".to_string(), 10));
}

#[test]
fn an_announced_endpoint_is_spelled_out() {
    let handler = handler();
    let endpoint = |body: &str| handler.client_endpoint(&packet(true, None, body.as_bytes()));
    assert_eq!(endpoint(OFFER), Some("85.1.2.3:49170".to_string()));
    assert_eq!(endpoint("c=IN IP4 host.example\r\nm=audio 7\r\n"), Some("host.example:7".to_string()));
    assert_eq!(endpoint("m=audio 7\r\nc=IN IP4 \r\n"), Some(":7".to_string()));
}

#[test]
fn hold_announces_nothing() {
    let handler = handler();
    let endpoint = |body: &str| handler.client_endpoint(&packet(true, None, body.as_bytes()));
    assert_eq!(endpoint("c=IN IP4 0.0.0.0\r\nm=audio 49170 RTP/AVP 0\r\n"), None);
    assert_eq!(endpoint("c=IN IP4 85.1.2.3\r\nm=audio 0 RTP/AVP 0\r\n"), None);
    assert_eq!(endpoint("m=audio 49170 RTP/AVP 0\r\n"), None);
}

#[test]
fn packets_without_call_or_body_pass_untouched() {
    let handler = handler();
    let mut engine = RtpEngine::new(40000, 40000);
    let mut anonymous = packet(true, None, OFFER.as_bytes());
    let outcome = handler.process_sdp(&mut engine, &mut anonymous, parse, rewrite);
    assert!(matches!(outcome, SdpOutcome::NoMedia));
    assert!(outcome.accepted());
    assert_eq!(anonymous.body, OFFER.as_bytes());
    let mut empty = packet(true, Some("call"), b"");
    let outcome = handler.process_sdp(&mut engine, &mut empty, parse, rewrite);
    assert!(matches!(outcome, SdpOutcome::NoMedia));
    assert_eq!(empty.headers.len(), 4);
    assert!(!engine.release_relay_by_call_id("call"));
}

#[test]
fn a_request_is_pointed_at_the_inside_address() {
    let handler = handler();
    let mut engine = RtpEngine::new(40000, 40000);
    let mut request = packet(true, Some("call"), OFFER.as_bytes());
    let outcome = handler.process_sdp(&mut engine, &mut request, parse, rewrite);
    assert!(outcome.accepted());
    match outcome {
        SdpOutcome::Relayed { grant: RelayGrant::Started { port, relay }, rewritten } => {
            assert_eq!(port, 40000);
            assert!(rewritten);
            assert_eq!(relay.session.outside.peer, Some(client()));
        }
        _ => panic!("no relay was started"),
    }
    let expected = "c=IN IP4 10.0.0.2\r\nm=audio 40000\r\n\
                    v=0\r\nc=IN IP4 85.1.2.3\r\nm=audio 49170 RTP/AVP 0 8\r\n";
    assert_eq!(String::from_utf8(request.body.clone()).unwrap(), expected);
    assert_eq!(
        names(&request),
        vec![HeaderName::Other(0), HeaderName::Other(2), HeaderName::ContentLength]
    );
    assert_eq!(request.headers[2].value, request.body.len().to_string());
    assert_eq!(request.headers[1].value, "contact");
}

#[test]
fn a_response_is_pointed_at_the_public_address() {
    let handler = handler();
    let mut engine = RtpEngine::new(40000, 40000);
    let mut request = packet(true, Some("call"), OFFER.as_bytes());
    handler.process_sdp(&mut engine, &mut request, parse, rewrite);
    let mut response = packet(false, Some("call"), b"x");
    let outcome = handler.process_sdp(&mut engine, &mut response, parse, rewrite);
    match outcome {
        SdpOutcome::Relayed { grant: RelayGrant::Existing { port }, rewritten: true } => {
            assert_eq!(port, 40000);
        }
        _ => panic!("the call lost its relay"),
    }
    assert_eq!(response.body, b"c=IN IP4 85.0.0.2\r\nm=audio 40000\r\nx");
}

#[test]
fn a_call_without_a_relay_is_refused() {
    let handler = handler();
    let mut engine = RtpEngine::new(40000, 40000);
    engine.claim_port("other", None, 40000);
    let mut request = packet(true, Some("call"), OFFER.as_bytes());
    let outcome = handler.process_sdp(&mut engine, &mut request, parse, rewrite);
    assert!(matches!(outcome, SdpOutcome::Refused));
    assert!(!outcome.accepted());
    assert_eq!(request.body, OFFER.as_bytes());
    assert_eq!(request.headers.len(), 4);
}

#[test]
fn a_description_without_audio_stays_as_it_is() {
    let handler = handler();
    let mut engine = RtpEngine::new(40000, 40000);
    let mut request = packet(true, Some("call"), OFFER.as_bytes());
    let outcome = handler.process_sdp(&mut engine, &mut request, parse, no_audio);
    assert!(matches!(outcome, SdpOutcome::Relayed { rewritten: false, .. }));
    assert_eq!(request.body, OFFER.as_bytes());
    assert_eq!(request.headers.len(), 4);
    assert!(engine.release_relay_by_call_id("call"));
}

fn cleaned(text: &str) -> String {
    let mut target = packet(true, None, b"");
    handler().install_body(&mut target, Some(text.as_bytes().to_vec()));
    String::from_utf8(target.body).unwrap()
}

#[test]
fn rtcp_lines_are_erased() {
    assert_eq!(cleaned("a=rtcp:49171\r\n"), "");
    assert_eq!(cleaned("v=0\r\na=rtcp:1\r\na=rtcp:2\r\ns=-\r\n"), "v=0\r\ns=-\r\n");
    assert_eq!(cleaned("a=rtcp:\r\nx"), "x");
    assert_eq!(cleaned("a=rtcp:1\r\r\nx"), "x");
    assert_eq!(cleaned("\na=rtcp:1 IN IP4 \u{1f600}\r\n"), "\n");
}

#[test]
fn other_lines_are_spared() {
    let spared = [
        "",
        "a=rtcp:49171",
        "a=rtcp:49171\r",
        "a=rtcp:49171\nv=0\r\n",
        "a=rtcp-mux\r\n",
        " a=rtcp:49171\r\n",
        "v=0 a=rtcp:49171\r\n",
        "A=RTCP:49171\r\n",
    ];
    for text in spared {
        assert_eq!(cleaned(text), text);
    }
}

#[test]
fn cleaning_is_idempotent() {
    let once = cleaned("v=0\r\na=rtcp:1\r\na=rtcp:2\na=rtcp:3\r\n");
    assert_eq!(once, "v=0\r\na=rtcp:2\n");
    assert_eq!(cleaned(&once), once);
}

#[test]
fn bytes_that_are_not_utf8_are_replaced() {
    let mut target = packet(true, None, b"");
    handler().install_body(&mut target, Some(vec![b'a', 0xff, b'b']));
    assert_eq!(target.body, "a\u{fffd}b".as_bytes());
    assert_eq!(target.headers.last().unwrap().value, "5");
}

#[test]
fn a_second_body_replaces_the_first_length() {
    let mut target = packet(true, None, b"");
    target.replace_body(vec![1; 1234]);
    target.replace_body(vec![]);
    assert_eq!(
        names(&target),
        vec![HeaderName::Other(0), HeaderName::Other(2), HeaderName::ContentLength]
    );
    assert_eq!(target.headers[2].value, "0");
    assert!(target.body.is_empty());
}
