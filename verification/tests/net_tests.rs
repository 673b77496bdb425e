use autoban::net::{Cidr, CidrError, IpAddress};
use autoban::func::Protocol;
use autoban::server::handlers::{try_get_client_ip, XRealIp};

#[test]
fn cidr_parses_and_prints_ipv4() {
    let c = Cidr::from_str("192.168.1.7/24").unwrap();
    assert_eq!(c, Cidr::V4 { prefix: 0xC0A8_0100, bits: 24 });
    assert_eq!(c.to_string(), "192.168.1.0/24");
    let h = Cidr::from_str("10.0.0.1").unwrap();
    assert_eq!(h, Cidr::V4 { prefix: 0x0A00_0001, bits: 32 });
    assert_eq!(h.to_string(), "10.0.0.1/32");
    assert_eq!(h.first_as_ip_addr(), IpAddress::V4(0x0A00_0001));
    assert!(h.is_v4());
}

#[test]
fn cidr_parses_and_prints_ipv6() {
    let c = Cidr::from_str("::1").unwrap();
    assert_eq!(c, Cidr::V6 { prefix: 1, bits: 128 });
    assert_eq!(c.to_string(), "::1/128");
    let n = Cidr::from_str("2001:db8::/32").unwrap();
    assert_eq!(n.to_string(), "2001:db8::/32");
    assert!(!n.is_v4());
    assert_eq!(n.first_as_ip_addr().to_string(), "2001:db8::");
}

#[test]
fn cidr_refuses_other_text() {
    assert_eq!(Cidr::from_str("abc"), Err(CidrError::IncorrectCidrString));
    assert_eq!(Cidr::from_str(""), Err(CidrError::IncorrectCidrString));
    assert_eq!(Cidr::from_str("1.2.3.4/33"), Err(CidrError::IncorrectCidrString));
}

#[test]
fn cidr_error_messages() {
    assert_eq!(CidrError::IncorrectBitsRange.to_string(), "The subnet size (bits) is out of range.");
    assert_eq!(CidrError::IncorrectMask.to_string(), "The mask is incorrect.");
    assert_eq!(CidrError::IncorrectCidrString.to_string(), "The CIDR string is incorrect.");
}

#[test]
fn address_text_is_dotted_decimal() {
    assert_eq!(IpAddress::V4(0).to_string(), "0.0.0.0");
    assert_eq!(IpAddress::V4(0xFFFF_FFFF).to_string(), "255.255.255.255");
    assert_eq!(IpAddress::V4(0x7F00_0001).to_string(), "127.0.0.1");
    assert_eq!(IpAddress::V6(0).to_string(), "::");
}

#[test]
fn client_block_of_address() {
    assert_eq!(try_get_client_ip(false, IpAddress::V4(0x0102_0304), None, None), Some(Cidr::V4 { prefix: 0x0102_0304, bits: 32 }));
    assert_eq!(try_get_client_ip(false, IpAddress::V6(5), None, None), Some(Cidr::V6 { prefix: 5, bits: 128 }));
    assert_eq!(try_get_client_ip(true, IpAddress::V6(5), Some(XRealIp(IpAddress::V4(1))), None), Some(Cidr::from_str("0.0.0.1").unwrap()));
    assert_eq!(try_get_client_ip(true, IpAddress::V6(5), None, None), Some(Cidr::from_str("127.0.0.1").unwrap()));
}

#[test]
fn protocol_names_round_trip() {
    for p in [Protocol::ALL, Protocol::TCP, Protocol::UDP] {
        let name: String = p.into();
        assert_eq!(Protocol::from(name), p);
    }
    assert_eq!(String::from(Protocol::UDP), "udp");
    assert_eq!(String::from(Protocol::TCP), "tcp");
    assert_eq!(String::from(Protocol::ALL), "all");
    assert_eq!(Protocol::from("UDP".to_string()), Protocol::UDP);
    assert_eq!(Protocol::from("TCP".to_string()), Protocol::TCP);
    assert_eq!(Protocol::from("Udp".to_string()), Protocol::ALL);
    assert_eq!(Protocol::from("".to_string()), Protocol::ALL);
}

#[test]
fn protocol_prefixes() {
    assert_eq!(Protocol::ALL.tcp_prefix(), "");
    assert_eq!(Protocol::TCP.tcp_prefix(), "");
    assert_eq!(Protocol::UDP.tcp_prefix(), "#");
    assert_eq!(Protocol::ALL.udp_prefix(), "");
    assert_eq!(Protocol::TCP.udp_prefix(), "#");
    assert_eq!(Protocol::UDP.udp_prefix(), "");
}
