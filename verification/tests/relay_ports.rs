use sip_sbc::addr::{IpAddress, PeerAddr};
use sip_sbc::rtp::engine::{DrawOutcome, RelayGrant, RtpEngine, StartedRelay, MAX_DRAWS};
use sip_sbc::rtp::session::RelaySession;

fn started(grant: Option<RelayGrant>) -> (u16, StartedRelay) {
    match grant {
        Some(RelayGrant::Started { port, relay }) => (port, relay),
        Some(RelayGrant::Existing { .. }) => panic!("the call already has a relay"),
        None => panic!("no port"),
    }
}

#[test]
fn drawn_numbers_are_rounded_up_to_even_ports() {
    let mut engine = RtpEngine::new(10000, 10011);
    assert_eq!(started(engine.claim_port("a", None, 10000)).0, 10000);
    assert_eq!(started(engine.claim_port("b", None, 10001)).0, 10002);
    assert!(engine.claim_port("c", None, 10002).is_none());
    assert!(engine.claim_port("c", None, 10011).is_none());
    assert_eq!(started(engine.claim_port("c", None, 10009)).0, 10010);
}

#[test]
fn the_last_port_stands_for_itself() {
    let mut engine = RtpEngine::new(65534, 65535);
    assert_eq!(started(engine.claim_port("a", None, 65535)).0, 65535);
    assert_eq!(started(engine.claim_port("b", None, 65534)).0, 65534);
    assert!(engine.get_or_allocate_relay("c", None).is_none());
}

#[test]
fn a_call_keeps_its_port() {
    let mut engine = RtpEngine::new(20000, 20100);
    let (port, _) = started(engine.get_or_allocate_relay("call", None));
    assert!(port >= 20000 && port <= 20100 && port % 2 == 0);
    for _ in 0..3 {
        match engine.get_or_allocate_relay("call", None) {
            Some(RelayGrant::Existing { port: again }) => assert_eq!(again, port),
            _ => panic!("the call lost its relay"),
        }
    }
}

#[test]
fn a_known_call_needs_no_range() {
    let mut engine = RtpEngine::new(20001, 20000);
    assert_eq!(started(engine.claim_port("call", None, 19999)).0, 20000);
    let grant = engine.get_or_allocate_relay("call", None).unwrap();
    assert_eq!(grant.port(), 20000);
}

#[test]
fn calls_never_share_a_port() {
    let mut engine = RtpEngine::new(30000, 30200);
    let mut ports = Vec::new();
    for i in 0..40 {
        let (port, _) = started(engine.get_or_allocate_relay(&format!("call-{}", i), None));
        assert!(!ports.contains(&port));
        ports.push(port);
    }
}

#[test]
fn a_full_range_gives_nothing() {
    let mut engine = RtpEngine::new(40000, 40000);
    assert_eq!(started(engine.get_or_allocate_relay("a", None)).0, 40000);
    assert!(engine.get_or_allocate_relay("b", None).is_none());
    let mut engine = RtpEngine::new(40001, 40001);
    assert!(engine.get_or_allocate_relay("a", None).is_none());
}

#[test]
fn releasing_frees_the_port() {
    let mut engine = RtpEngine::new(40000, 40000);
    started(engine.get_or_allocate_relay("a", None));
    assert!(engine.release_relay_by_call_id("a"));
    assert!(!engine.release_relay_by_call_id("a"));
    assert_eq!(started(engine.get_or_allocate_relay("b", None)).0, 40000);
}

#[test]
fn unknown_calls_are_not_released() {
    let mut engine = RtpEngine::new(40000, 40010);
    assert!(!engine.release_relay_by_call_id("a"));
    assert!(engine.take_relay("a").is_none());
}

#[test]
fn release_signals_the_relay_that_was_started() {
    let mut engine = RtpEngine::new(50000, 50100);
    let (_, first) = started(engine.get_or_allocate_relay("a", None));
    let (_, second) = started(engine.get_or_allocate_relay("b", None));
    let mut stop_first = first.stop_signal.subscribe();
    let mut stop_second = second.stop_signal.subscribe();
    assert!(stop_first.try_recv().is_err());
    assert!(engine.release_relay_by_call_id("a"));
    assert!(stop_first.try_recv().is_ok());
    assert!(stop_second.try_recv().is_err());
}

#[test]
fn the_table_holds_the_channel_that_was_handed_out() {
    let mut engine = RtpEngine::new(50000, 50100);
    let (_, relay) = started(engine.get_or_allocate_relay("a", None));
    let held = engine.take_relay("a").unwrap();
    assert!(held.stop_signal.same_channel(&relay.stop_signal));
}

#[test]
fn a_started_relay_knows_the_announced_peer() {
    let announced =
        PeerAddr { ip: IpAddress::V4(85, 1, 2, 3), port: 4000, flowinfo: 0, scope_id: 0 };
    let mut engine = RtpEngine::new(50000, 50100);
    let (_, relay) = started(engine.get_or_allocate_relay("a", Some(announced)));
    assert_eq!(relay.session, RelaySession::new(Some(announced)));
    assert_eq!(relay.session.outside.peer, Some(announced));
}

#[test]
fn an_ended_relay_is_forgotten() {
    let mut engine = RtpEngine::new(40000, 40000);
    started(engine.get_or_allocate_relay("a", None));
    engine.relay_ended("a", 40000);
    assert!(!engine.release_relay_by_call_id("a"));
    assert_eq!(started(engine.get_or_allocate_relay("a", None)).0, 40000);
}

#[test]
fn a_late_end_takes_the_port_from_the_next_call() {
    let mut engine = RtpEngine::new(40000, 40000);
    started(engine.get_or_allocate_relay("a", None));
    engine.release_relay_by_call_id("a");
    started(engine.get_or_allocate_relay("b", None));
    engine.relay_ended("a", 40000);
    assert_eq!(started(engine.claim_port("c", None, 40000)).0, 40000);
    assert_eq!(engine.get_or_allocate_relay("b", None).unwrap().port(), 40000);
    assert!(engine.release_relay_by_call_id("b"));
    assert!(!engine.release_relay_by_call_id("c"));
}

#[test]
fn an_unusable_draw_is_followed_by_another_until_the_last() {
    let mut engine = RtpEngine::new(40000, 40001);
    for attempt in 0..MAX_DRAWS - 1 {
        let outcome = engine.try_draw("call", None, attempt, 40001);
        assert!(matches!(outcome, DrawOutcome::DrawAgain));
    }
    let outcome = engine.try_draw("call", None, MAX_DRAWS - 1, 40001);
    assert!(matches!(outcome, DrawOutcome::GiveUp));
    assert!(!engine.release_relay_by_call_id("call"));
}

#[test]
fn a_usable_draw_is_granted_at_any_attempt() {
    for attempt in [0, 1, MAX_DRAWS - 1] {
        let mut engine = RtpEngine::new(40000, 40001);
        match engine.try_draw("call", None, attempt, 40000) {
            DrawOutcome::Granted(grant) => assert_eq!(grant.port(), 40000),
            _ => panic!("a free port was not granted"),
        }
        assert!(matches!(engine.try_draw("next", None, 0, 40000), DrawOutcome::DrawAgain));
        assert!(engine.release_relay_by_call_id("call"));
    }
}

#[test]
fn a_range_with_an_odd_end_serves_every_even_port() {
    let mut engine = RtpEngine::new(40000, 40003);
    let (first, _) = started(engine.get_or_allocate_relay("a", None));
    let (second, _) = started(engine.get_or_allocate_relay("b", None));
    assert_eq!(first.min(second), 40000);
    assert_eq!(first.max(second), 40002);
    assert!(engine.get_or_allocate_relay("c", None).is_none());
}
