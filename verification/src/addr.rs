//! Network addresses as plain numbers, and the classes that the relay tells apart.

use vstd::prelude::*;

verus! {

/// An IP address. An IPv4 address is its four octets, most significant first;
/// an IPv6 address is its 128 bits as one number, most significant first.
#[derive(Clone, Copy, Debug, PartialEq, Eq, Structural)]
pub enum IpAddress {
    V4(u8, u8, u8, u8),
    V6(u128),
}

/// A UDP endpoint. `flowinfo` and `scope_id` belong to IPv6 endpoints and are
/// zero on IPv4 ones.
#[derive(Clone, Copy, Debug, PartialEq, Eq, Structural)]
pub struct PeerAddr {
    pub ip: IpAddress,
    pub port: u16,
    pub flowinfo: u32,
    pub scope_id: u32,
}

/// The number that four octets spell in base 256.
pub open spec fn v4_number(a: u8, b: u8, c: u8, d: u8) -> int {
    ((a * 256 + b) * 256 + c) * 256 + d
}

/// Whether `ip` is one of the `size` IPv4 addresses that start at `a.b.c.d`.
pub open spec fn in_v4_block(ip: IpAddress, a: u8, b: u8, c: u8, d: u8, size: int) -> bool {
    match ip {
        IpAddress::V4(w, x, y, z) => {
            let first = v4_number(a, b, c, d);
            first <= v4_number(w, x, y, z) < first + size
        },
        IpAddress::V6(_) => false,
    }
}

/// The addresses of the inside leg: 10.0.0.0/8, 127.0.0.0/8, 172.16.0.0/12,
/// 192.168.0.0/16, the carrier-grade block 100.64.0.0/10, and `::1`.
pub open spec fn internal_ip(ip: IpAddress) -> bool {
    ||| in_v4_block(ip, 10, 0, 0, 0, 0x100_0000)
    ||| in_v4_block(ip, 127, 0, 0, 0, 0x100_0000)
    ||| in_v4_block(ip, 172, 16, 0, 0, 0x10_0000)
    ||| in_v4_block(ip, 192, 168, 0, 0, 0x1_0000)
    ||| in_v4_block(ip, 100, 64, 0, 0, 0x40_0000)
    ||| ip == IpAddress::V6(1)
}

/// The addresses that a container bridge gives its gateway: IPv4 addresses whose
/// last octet is 1.
pub open spec fn docker_gateway(ip: IpAddress) -> bool {
    ip matches IpAddress::V4(_, _, _, d) && d == 1
}

/// Whether `ip` belongs to the inside leg of a call.
pub fn is_internal_ip(ip: IpAddress) -> (internal: bool)
    ensures
        internal == internal_ip(ip),
{
    match ip {
        IpAddress::V4(a, b, _, _) => {
            if a == 10 || a == 127 {
                return true;
            }
            if a == 172 && (b >= 16 && b <= 31) {
                return true;
            }
            if a == 192 && b == 168 {
                return true;
            }
            if a == 100 && (b >= 64 && b <= 127) {
                return true;
            }
            false
        },
        IpAddress::V6(bits) => bits == 1,
    }
}

/// Whether `ip` looks like a container bridge's gateway.
pub fn is_docker_gateway(ip: IpAddress) -> (gateway: bool)
    ensures
        gateway == docker_gateway(ip),
{
    match ip {
        IpAddress::V4(_, _, _, d) => d == 1,
        IpAddress::V6(_) => false,
    }
}

/// Which addresses lie inside, as ranges of the number that the octets spell: the private
/// blocks, the loopback block and the carrier-grade block, each whole and nothing beside
/// them; and of IPv6 the loopback address alone.
pub proof fn law_inside_is_these_ranges(ip: IpAddress, internal: bool)
    requires
        call_ensures(is_internal_ip, (ip,), internal),
    ensures
        match ip {
            IpAddress::V4(a, b, c, d) => {
                let n = a * 0x100_0000 + b * 0x1_0000 + c * 0x100 + d;
                internal == ({
                    ||| 0x0a00_0000 <= n <= 0x0aff_ffff
                    ||| 0x7f00_0000 <= n <= 0x7fff_ffff
                    ||| 0xac10_0000 <= n <= 0xac1f_ffff
                    ||| 0xc0a8_0000 <= n <= 0xc0a8_ffff
                    ||| 0x6440_0000 <= n <= 0x647f_ffff
                })
            },
            IpAddress::V6(bits) => internal == (bits == 1),
        },
        internal_ip(ip) == internal,
{
}

/// Only the first two octets tell the sides apart.
pub proof fn law_prefix_decides_the_side(
    a: u8,
    b: u8,
    c: u8,
    d: u8,
    e: u8,
    f: u8,
    first: bool,
    second: bool,
)
    requires
        call_ensures(is_internal_ip, (IpAddress::V4(a, b, c, d),), first),
        call_ensures(is_internal_ip, (IpAddress::V4(a, b, e, f),), second),
    ensures
        first == second,
{
    lemma_inside_by_prefix(a, b, c, d);
    lemma_inside_by_prefix(a, b, e, f);
}

/// The inside blocks, by their first two octets.
proof fn lemma_inside_by_prefix(a: u8, b: u8, c: u8, d: u8)
    ensures
        internal_ip(IpAddress::V4(a, b, c, d)) == ({
            ||| a == 10
            ||| a == 127
            ||| a == 172 && 16 <= b <= 31
            ||| a == 192 && b == 168
            ||| a == 100 && 64 <= b <= 127
        }),
{
}

/// A container gateway is an IPv4 address whose last octet is 1, whatever the others are.
pub proof fn law_gateway_is_told_by_the_last_octet(ip: IpAddress, gateway: bool)
    requires
        call_ensures(is_docker_gateway, (ip,), gateway),
    ensures
        match ip {
            IpAddress::V4(_, _, _, d) => gateway == (d == 1),
            IpAddress::V6(_) => !gateway,
        },
        docker_gateway(ip) == gateway,
{
}

} // verus!
