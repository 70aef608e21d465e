use sip_sbc::addr::{IpAddress, PeerAddr};
use sip_sbc::sip::dns::{DnsCache, ResolveAction, ResolveEvent, FRESH_NANOS};

fn addr(d: u8) -> PeerAddr {
    PeerAddr { ip: IpAddress::V4(10, 0, 0, d), port: 5060, flowinfo: 0, scope_id: 0 }
}

fn read(text: &str) -> Option<PeerAddr> {
    if text == "10.0.0.7:5060" {
        Some(addr(7))
    } else {
        None
    }
}

fn ask(cache: &mut DnsCache, host: &str, now: u128) -> ResolveAction {
    cache.resolve(host, now, ResolveEvent::Requested, read)
}

fn answer(cache: &mut DnsCache, host: &str, now: u128, found: PeerAddr) -> ResolveAction {
    cache.resolve(host, now, ResolveEvent::LookedUp { attempt: 1, found: Some(found) }, read)
}

#[test]
fn a_literal_is_its_own_answer() {
    let mut cache = DnsCache::new();
    assert_eq!(ask(&mut cache, "10.0.0.7:5060", 0), ResolveAction::Finish(Some(addr(7))));
    assert_eq!(
        cache.begin_request("10.0.0.7:5060", 0, None),
        ResolveAction::LookUp { attempt: 1 }
    );
}

#[test]
fn a_literal_comes_before_the_cache() {
    let mut cache = DnsCache::new();
    answer(&mut cache, "10.0.0.7:5060", 0, addr(1));
    assert_eq!(ask(&mut cache, "10.0.0.7:5060", 1), ResolveAction::Finish(Some(addr(7))));
    assert_eq!(
        cache.begin_request("10.0.0.7:5060", 1, None),
        ResolveAction::Finish(Some(addr(1)))
    );
    assert_eq!(
        cache.begin_request("proxy", 1, Some(addr(9))),
        ResolveAction::Finish(Some(addr(9)))
    );
}

#[test]
fn only_a_new_request_reads_the_host_name() {
    let mut cache = DnsCache::new();
    let asked = std::cell::Cell::new(0);
    let count = |_: &str| {
        asked.set(asked.get() + 1);
        None
    };
    cache.resolve("proxy", 0, ResolveEvent::Requested, count);
    assert_eq!(asked.get(), 1);
    cache.resolve("proxy", 0, ResolveEvent::LookedUp { attempt: 1, found: None }, count);
    cache.resolve("proxy", 0, ResolveEvent::Rested { attempt: 1 }, count);
    assert_eq!(asked.get(), 1);
}

#[test]
fn answers_are_cached_for_a_minute() {
    let mut cache = DnsCache::default();
    let start = 5_000;
    assert_eq!(ask(&mut cache, "proxy", start), ResolveAction::LookUp { attempt: 1 });
    assert_eq!(answer(&mut cache, "proxy", start, addr(1)), ResolveAction::Finish(Some(addr(1))));
    assert_eq!(
        ask(&mut cache, "proxy", start + FRESH_NANOS - 1),
        ResolveAction::Finish(Some(addr(1)))
    );
    assert_eq!(ask(&mut cache, "proxy", start + FRESH_NANOS), ResolveAction::LookUp { attempt: 1 });
    assert_eq!(ask(&mut cache, "proxy", 0), ResolveAction::Finish(Some(addr(1))));
}

#[test]
fn a_later_answer_replaces_an_earlier_one() {
    let mut cache = DnsCache::new();
    answer(&mut cache, "proxy", 0, addr(1));
    answer(&mut cache, "proxy", 10, addr(2));
    assert_eq!(ask(&mut cache, "proxy", 11), ResolveAction::Finish(Some(addr(2))));
}

#[test]
fn names_are_kept_apart() {
    let mut cache = DnsCache::new();
    answer(&mut cache, "one", 0, addr(1));
    answer(&mut cache, "two", 0, addr(2));
    assert_eq!(ask(&mut cache, "one", 1), ResolveAction::Finish(Some(addr(1))));
    assert_eq!(ask(&mut cache, "two", 1), ResolveAction::Finish(Some(addr(2))));
    assert_eq!(ask(&mut cache, "three", 1), ResolveAction::LookUp { attempt: 1 });
}

fn silence(cache: &mut DnsCache, host: &str, now: u128) -> (Vec<u64>, Option<PeerAddr>) {
    let mut rests = Vec::new();
    let mut action = ask(cache, host, now);
    loop {
        let event = match action {
            ResolveAction::Finish(result) => return (rests, result),
            ResolveAction::LookUp { attempt } => ResolveEvent::LookedUp { attempt, found: None },
            ResolveAction::Rest { attempt, millis } => {
                rests.push(millis);
                ResolveEvent::Rested { attempt }
            }
        };
        action = cache.resolve(host, now, event, read);
    }
}

#[test]
fn silence_ends_with_nothing_for_an_unknown_name() {
    let mut cache = DnsCache::new();
    assert_eq!(silence(&mut cache, "proxy", 0), (vec![100, 200, 400, 800, 1600], None));
}

#[test]
fn silence_ends_with_a_stale_entry_for_a_known_name() {
    let mut cache = DnsCache::new();
    answer(&mut cache, "proxy", 0, addr(1));
    let later = 10 * FRESH_NANOS;
    let (rests, result) = silence(&mut cache, "proxy", later);
    assert_eq!(rests, vec![100, 200, 400, 800, 1600]);
    assert_eq!(result, Some(addr(1)));
}

#[test]
fn a_late_answer_ends_the_request() {
    let mut cache = DnsCache::new();
    let found = ResolveEvent::LookedUp { attempt: 5, found: Some(addr(3)) };
    assert_eq!(cache.resolve("proxy", 0, found, read), ResolveAction::Finish(Some(addr(3))));
    assert_eq!(ask(&mut cache, "proxy", 1), ResolveAction::Finish(Some(addr(3))));
}
