use sip_sbc::addr::{is_docker_gateway, is_internal_ip, IpAddress};

fn internal(a: u8, b: u8, c: u8, d: u8) -> bool {
    is_internal_ip(IpAddress::V4(a, b, c, d))
}

#[test]
fn private_blocks_are_internal() {
    assert!(internal(10, 0, 0, 0));
    assert!(internal(10, 88, 7, 1));
    assert!(internal(10, 255, 255, 255));
    assert!(internal(127, 0, 0, 1));
    assert!(internal(172, 16, 0, 0));
    assert!(internal(172, 31, 255, 255));
    assert!(internal(192, 168, 0, 1));
    assert!(internal(100, 64, 0, 0));
    assert!(internal(100, 127, 255, 255));
}

#[test]
fn neighbours_of_private_blocks_are_not_internal() {
    assert!(!internal(9, 255, 255, 255));
    assert!(!internal(11, 0, 0, 0));
    assert!(!internal(126, 255, 255, 255));
    assert!(!internal(128, 0, 0, 0));
    assert!(!internal(172, 15, 255, 255));
    assert!(!internal(172, 32, 0, 0));
    assert!(!internal(192, 167, 255, 255));
    assert!(!internal(192, 169, 0, 0));
    assert!(!internal(100, 63, 255, 255));
    assert!(!internal(100, 128, 0, 0));
    assert!(!internal(8, 8, 8, 8));
}

#[test]
fn only_the_loopback_is_internal_among_ipv6() {
    assert!(is_internal_ip(IpAddress::V6(1)));
    assert!(!is_internal_ip(IpAddress::V6(0)));
    assert!(!is_internal_ip(IpAddress::V6(2)));
    assert!(!is_internal_ip(IpAddress::V6(0xfe80 << 112 | 1)));
}

#[test]
fn gateways_end_in_one() {
    assert!(is_docker_gateway(IpAddress::V4(172, 17, 0, 1)));
    assert!(is_docker_gateway(IpAddress::V4(8, 8, 8, 1)));
    assert!(!is_docker_gateway(IpAddress::V4(172, 17, 1, 2)));
    assert!(!is_docker_gateway(IpAddress::V6(1)));
}
