use rexmq::net::{ip_string, parse_socket_address, IpAddress, SocketAddress};
use rexmq::text::{decimal_string, hex_string};

#[test]
fn ipv4_socket_addresses_parse() {
    assert_eq!(parse_socket_address("127.0.0.1:9000"), Some(SocketAddress::v4(127, 0, 0, 1, 9000)));
    assert_eq!(parse_socket_address("0.0.0.0:0"), Some(SocketAddress::v4(0, 0, 0, 0, 0)));
    assert_eq!(
        parse_socket_address("255.255.255.255:65535"),
        Some(SocketAddress::v4(255, 255, 255, 255, 65535))
    );
}

#[test]
fn malformed_socket_addresses_are_refused() {
    for s in [
        "",
        "127.0.0.1",
        "127.0.0.1:",
        "127.0.0.1:65536",
        "256.0.0.1:80",
        "01.0.0.1:80",
        "1.2.3:80",
        "1.2.3.4.5:80",
        " 1.2.3.4:80",
        "1.2.3.4:8a",
        "localhost:80",
    ] {
        assert_eq!(parse_socket_address(s), None, "{s}");
    }
}

#[test]
fn socket_addresses_print_as_std_does() {
    let a = SocketAddress::v4(10, 1, 2, 3, 80);
    assert_eq!(a.to_string(), "10.1.2.3:80");
    assert_eq!(a.port(), 80);
    let v6 = SocketAddress { ip: IpAddress::V6(0, 0, 0, 0, 0, 0, 0, 1), port: 443, scope_id: 0 };
    assert_eq!(v6.to_string(), "[::1]:443");
    assert_eq!(ip_string(&IpAddress::V6(0x2001, 0xdb8, 0, 0, 1, 0, 0, 1)), "2001:db8::1:0:0:1");
    assert_eq!(ip_string(&IpAddress::V6(1, 0, 2, 0, 3, 0, 4, 0)), "1:0:2:0:3:0:4:0");
    assert_eq!(ip_string(&IpAddress::V6(0, 0, 0, 0, 0, 0, 0, 0)), "::");
}

#[test]
fn printed_addresses_parse_back() {
    for a in [SocketAddress::v4(192, 168, 0, 10, 8881), SocketAddress::v4(1, 0, 0, 255, 1)] {
        assert_eq!(parse_socket_address(&a.to_string()), Some(a));
    }
}

#[test]
fn numbers_print_in_decimal_and_hex() {
    assert_eq!(decimal_string(0), "0");
    assert_eq!(decimal_string(18446744073709551615), "18446744073709551615");
    assert_eq!(hex_string(255), "ff");
}

fn v6(g: [u16; 8], port: u16, scope_id: u32) -> SocketAddress {
    SocketAddress { ip: IpAddress::V6(g[0], g[1], g[2], g[3], g[4], g[5], g[6], g[7]), port, scope_id }
}

#[test]
fn ipv6_socket_addresses_parse() {
    let cases: &[(&str, Option<SocketAddress>)] = &[
        ("[::1]:80", Some(v6([0, 0, 0, 0, 0, 0, 0, 1], 80, 0))),
        ("[::]:0", Some(v6([0; 8], 0, 0))),
        ("[1:2:3:4:5:6:7:8]:65535", Some(v6([1, 2, 3, 4, 5, 6, 7, 8], 65535, 0))),
        ("[1::8]:1", Some(v6([1, 0, 0, 0, 0, 0, 0, 8], 1, 0))),
        ("[1:2::]:1", Some(v6([1, 2, 0, 0, 0, 0, 0, 0], 1, 0))),
        ("[::ffff:1.2.3.4]:443", Some(v6([0, 0, 0, 0, 0, 0xffff, 0x0102, 0x0304], 443, 0))),
        ("[::1.2.3.4]:1", Some(v6([0, 0, 0, 0, 0, 0, 0x0102, 0x0304], 1, 0))),
        ("[1:2:3:4:5:6:1.2.3.4]:1", Some(v6([1, 2, 3, 4, 5, 6, 0x0102, 0x0304], 1, 0))),
        ("[ABCD:ef01::0]:8", Some(v6([0xabcd, 0xef01, 0, 0, 0, 0, 0, 0], 8, 0))),
        ("[fe80::1%3]:22", Some(v6([0xfe80, 0, 0, 0, 0, 0, 0, 1], 22, 3))),
        ("[1:2:3:4:5:6:7::]:1", Some(v6([1, 2, 3, 4, 5, 6, 7, 0], 1, 0))),
        ("[::1:2:3:4:5:6:7]:1", Some(v6([0, 1, 2, 3, 4, 5, 6, 7], 1, 0))),
        ("[0:0:0:0:0:0:0:0]:00080", Some(v6([0; 8], 80, 0))),
        ("[1:2:3:4:5:6:7:8:9]:1", None),
        ("[1:2:3:4:5:1.2.3.4]:1", None),
        ("[1.2.3.4::]:1", None),
        ("[1::2::3]:1", None),
        ("[12345::1]:1", None),
        ("[fe80::1%]:22", None),
        ("[fe80::1%4294967296]:22", None),
        ("[::1]", None),
        ("[::1]80", None),
        ("[::1]:", None),
        ("[:::]:1", None),
        ("[1:::2]:1", None),
        ("[:1::2]:1", None),
        ("[::1:2:3:4:5:6:7:8]:1", None),
        ("[1:2:3:4:5:6:7:8::]:1", None),
        ("[1:2:3:4:5:6:7:8:]:1", None),
        ("[::1.2.3.04]:1", None),
        ("[::1.2.3.4a]:1", None),
        ("[::g]:1", None),
        ("[::1]:65536", None),
        ("[1.2.3.4]:5", None),
    ];
    for (s, expected) in cases {
        assert_eq!(parse_socket_address(s), *expected, "{s}");
    }
}

#[test]
fn ipv6_socket_addresses_print_and_read_back() {
    let cases: &[(SocketAddress, &str)] = &[
        (v6([0, 0, 0, 0, 0, 0, 0, 1], 80, 0), "[::1]:80"),
        (v6([0, 0, 0, 0, 0, 0xffff, 0x0102, 0x0304], 443, 0), "[::ffff:1.2.3.4]:443"),
        (v6([0, 0, 0, 0, 0, 0, 0x0102, 0x0304], 1, 0), "[::102:304]:1"),
        (v6([0xfe80, 0, 0, 0, 0, 0, 0, 1], 22, 3), "[fe80::1%3]:22"),
        (v6([0xabcd, 0xef01, 0, 0, 0, 0, 0, 0], 8, 0), "[abcd:ef01::]:8"),
        (v6([1, 2, 3, 4, 5, 6, 7, 0], 1, 0), "[1:2:3:4:5:6:7:0]:1"),
        (v6([0; 8], 80, 0), "[::]:80"),
    ];
    for (a, text) in cases {
        assert_eq!(a.to_string(), *text);
        assert_eq!(parse_socket_address(text), Some(*a), "{text}");
    }
}
