//! The concurrent maps of `dashmap`, and what their operations do to the contents.

use dashmap::DashMap;
use vstd::prelude::*;

use crate::addr::PeerAddr;
use crate::rtp::engine::RtpRelay;

verus! {

/// The concurrent map `dashmap::DashMap`. It can be changed through a
/// shared reference; here every change goes through `&mut`, and the owners of the
/// maps hand out no reference to them, so that a map's contents are a function of
/// its value.
#[verifier::external_type_specification]
#[verifier::external_body]
#[verifier::reject_recursive_types(K)]
#[verifier::reject_recursive_types(V)]
#[verifier::reject_recursive_types(S)]
pub struct ExDashMap<K, V, S>(dashmap::DashMap<K, V, S>);

/// The ports that calls are mapped to, by call ID.
pub uninterp spec fn call_ports(map: DashMap<String, u16>) -> Map<Seq<char>, u16>;

/// The running relays, by port.
pub uninterp spec fn relays_by_port(map: DashMap<u16, RtpRelay>) -> Map<u16, RtpRelay>;

/// `DashMap::new`: the map is empty.
#[verifier::external_body]
pub(crate) fn new_call_map() -> (map: DashMap<String, u16>)
    ensures
        call_ports(map) == (Map::<Seq<char>, u16>::empty()),
{
    DashMap::new()
}

/// `DashMap::get`, with the value copied out: the value stored under the key, if
/// there is one.
#[verifier::external_body]
pub(crate) fn call_port(map: &DashMap<String, u16>, call_id: &str) -> (port: Option<u16>)
    ensures
        port == call_ports(*map).get(call_id@),
{
    map.get(call_id).map(|entry| *entry.value())
}

/// `DashMap::insert`: the key is mapped to the value, whatever it was mapped to
/// before, and every other key stays as it was.
#[verifier::external_body]
pub(crate) fn insert_call(map: &mut DashMap<String, u16>, call_id: &str, port: u16)
    ensures
        call_ports(*final(map)) == call_ports(*old(map)).insert(call_id@, port),
{
    map.insert(call_id.to_string(), port);
}

/// `DashMap::remove`: the key is gone, every other key stays as it was, and the
/// value that was stored under the key is returned.
#[verifier::external_body]
pub(crate) fn remove_call(map: &mut DashMap<String, u16>, call_id: &str) -> (port: Option<u16>)
    ensures
        port == call_ports(*old(map)).get(call_id@),
        call_ports(*final(map)) == call_ports(*old(map)).remove(call_id@),
{
    map.remove(call_id).map(|entry| entry.1)
}

/// `DashMap::new`: the map is empty.
#[verifier::external_body]
pub(crate) fn new_relay_map() -> (map: DashMap<u16, RtpRelay>)
    ensures
        relays_by_port(map) == (Map::<u16, RtpRelay>::empty()),
{
    DashMap::new()
}

/// `DashMap::contains_key`: whether the key is mapped to anything.
#[verifier::external_body]
pub(crate) fn has_relay(map: &DashMap<u16, RtpRelay>, port: u16) -> (has: bool)
    ensures
        has == relays_by_port(*map).dom().contains(port),
{
    map.contains_key(&port)
}

/// `DashMap::insert`: the key is mapped to the value, whatever it was mapped to
/// before, and every other key stays as it was.
#[verifier::external_body]
pub(crate) fn insert_relay(map: &mut DashMap<u16, RtpRelay>, port: u16, relay: RtpRelay)
    ensures
        relays_by_port(*final(map)) == relays_by_port(*old(map)).insert(port, relay),
{
    map.insert(port, relay);
}

/// `DashMap::remove`: the key is gone, every other key stays as it was, and the
/// value that was stored under the key is returned.
#[verifier::external_body]
pub(crate) fn remove_relay(map: &mut DashMap<u16, RtpRelay>, port: u16) -> (relay: Option<RtpRelay>)
    ensures
        relay == relays_by_port(*old(map)).get(port),
        relays_by_port(*final(map)) == relays_by_port(*old(map)).remove(port),
{
    map.remove(&port).map(|entry| entry.1)
}

/// The resolved names: the address of each, and the instant it is good from.
pub uninterp spec fn resolved_names(map: DashMap<String, (PeerAddr, u128)>) -> Map<
    Seq<char>,
    (PeerAddr, u128),
>;

/// `DashMap::new`: the map is empty.
#[verifier::external_body]
pub(crate) fn new_name_map() -> (map: DashMap<String, (PeerAddr, u128)>)
    ensures
        resolved_names(map) == (Map::<Seq<char>, (PeerAddr, u128)>::empty()),
{
    DashMap::new()
}

/// `DashMap::get`, with the value copied out: the value stored under the key, if
/// there is one.
#[verifier::external_body]
pub(crate) fn resolved_name(map: &DashMap<String, (PeerAddr, u128)>, hostname: &str) -> (entry:
    Option<(PeerAddr, u128)>)
    ensures
        entry == resolved_names(*map).get(hostname@),
{
    map.get(hostname).map(|entry| *entry.value())
}

/// `DashMap::insert`: the key is mapped to the value, whatever it was mapped to
/// before, and every other key stays as it was.
#[verifier::external_body]
pub(crate) fn insert_name(
    map: &mut DashMap<String, (PeerAddr, u128)>,
    hostname: &str,
    addr: PeerAddr,
    since: u128,
)
    ensures
        resolved_names(*final(map)) == resolved_names(*old(map)).insert(hostname@, (addr, since)),
{
    map.insert(hostname.to_string(), (addr, since));
}

} // verus!
