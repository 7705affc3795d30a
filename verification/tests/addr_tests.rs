use ip_echo::AddrFamily;
use ip_echo::BindTarget;
use ip_echo::ConfigError;
use ip_echo::DEFAULT_PORT;
use ip_echo::IpAddress;
use ip_echo::parse_addr;
use ip_echo::resolve_addr;
use ip_echo::resolve_binds;

fn v4(a: u8, b: u8, c: u8, d: u8) -> IpAddress {
    IpAddress::V4 { a, b, c, d }
}

fn v6(s: [u16; 8]) -> IpAddress {
    IpAddress::V6 {
        s0: s[0],
        s1: s[1],
        s2: s[2],
        s3: s[3],
        s4: s[4],
        s5: s[5],
        s6: s[6],
        s7: s[7],
    }
}

#[test]
fn bare_ipv4_gets_default_port() {
    let r = parse_addr(&String::from("127.0.0.1"));
    assert_eq!(r, Ok(BindTarget { ip: v4(127, 0, 0, 1), port: DEFAULT_PORT }));
}

#[test]
fn bare_ipv6_loopback_gets_default_port() {
    let r = parse_addr(&String::from("::1"));
    assert_eq!(r, Ok(BindTarget { ip: v6([0, 0, 0, 0, 0, 0, 0, 1]), port: DEFAULT_PORT }));
}

#[test]
fn bare_ipv6_full_form_gets_default_port() {
    let r = parse_addr(&String::from("1:2:3:4:5:6:7:8"));
    assert_eq!(r, Ok(BindTarget { ip: v6([1, 2, 3, 4, 5, 6, 7, 8]), port: DEFAULT_PORT }));
}

#[test]
fn bare_address_takes_configured_default() {
    let r = resolve_addr("10.0.0.2", 4433);
    assert_eq!(r, Ok(BindTarget { ip: v4(10, 0, 0, 2), port: 4433 }));
}

#[test]
fn embedded_port_wins_over_default() {
    let r = resolve_addr("127.0.0.1:8443", 9999);
    assert_eq!(r, Ok(BindTarget { ip: v4(127, 0, 0, 1), port: 8443 }));
}

#[test]
fn bracketed_ipv6_keeps_its_port() {
    let r = parse_addr(&String::from("[::1]:8080"));
    assert_eq!(r, Ok(BindTarget { ip: v6([0, 0, 0, 0, 0, 0, 0, 1]), port: 8080 }));
}

#[test]
fn bracketed_ipv6_with_groups_keeps_its_port() {
    let r = resolve_addr("[2001:db8::1]:443", 11313);
    assert_eq!(
        r,
        Ok(BindTarget { ip: v6([0x2001, 0xdb8, 0, 0, 0, 0, 0, 1]), port: 443 })
    );
}

#[test]
fn port_zero_is_taken_literally() {
    let r = parse_addr(&String::from("1.2.3.4:0"));
    assert_eq!(r, Ok(BindTarget { ip: v4(1, 2, 3, 4), port: 0 }));
}

#[test]
fn trailing_colon_without_port_fails() {
    let r = parse_addr(&String::from("1.2.3.4:"));
    assert_eq!(r, Err(ConfigError::InvalidAddressWithPort));
}

#[test]
fn plain_text_fails() {
    let r = parse_addr(&String::from("not-an-address"));
    assert_eq!(r, Err(ConfigError::InvalidAddress));
}

#[test]
fn five_octets_fail() {
    let r = parse_addr(&String::from("1.2.3.4.5"));
    assert_eq!(r, Err(ConfigError::InvalidAddress));
}

#[test]
fn octet_out_of_range_fails() {
    let r = parse_addr(&String::from("300.0.0.1"));
    assert_eq!(r, Err(ConfigError::InvalidAddress));
}

#[test]
fn leading_zero_octet_fails() {
    let r = parse_addr(&String::from("01.2.3.4"));
    assert_eq!(r, Err(ConfigError::InvalidAddress));
}

#[test]
fn leading_zero_port_fails() {
    let r = parse_addr(&String::from("1.2.3.4:080"));
    assert_eq!(r, Err(ConfigError::InvalidAddressWithPort));
}

#[test]
fn unbracketed_multi_colon_ambiguity_fails() {
    let r = parse_addr(&String::from("1:2:3"));
    assert_eq!(r, Err(ConfigError::InvalidAddress));
}

#[test]
fn double_compression_fails() {
    let r = parse_addr(&String::from("1::2::3"));
    assert_eq!(r, Err(ConfigError::InvalidAddress));
}

#[test]
fn bare_colons_fail() {
    let r = parse_addr(&String::from(":::"));
    assert_eq!(r, Err(ConfigError::InvalidAddress));
}

#[test]
fn empty_string_fails() {
    let r = parse_addr(&String::from(""));
    assert_eq!(r, Err(ConfigError::InvalidAddress));
}

#[test]
fn unspecified_ipv6_parses() {
    let r = parse_addr(&String::from("::"));
    assert_eq!(r, Ok(BindTarget { ip: v6([0; 8]), port: DEFAULT_PORT }));
}

#[test]
fn embedded_ipv4_tail_parses() {
    let r = parse_addr(&String::from("::ffff:192.168.0.1"));
    assert_eq!(
        r,
        Ok(BindTarget { ip: v6([0, 0, 0, 0, 0, 0xffff, 0xc0a8, 0x0001]), port: DEFAULT_PORT })
    );
}

#[test]
fn eight_groups_with_compression_fail() {
    let r = parse_addr(&String::from("1:2:3:4:5:6:7:8::"));
    assert_eq!(r, Err(ConfigError::InvalidAddress));
}

#[test]
fn family_tags_follow_the_address() {
    let t4 = parse_addr(&String::from("127.0.0.1")).unwrap();
    let t6 = parse_addr(&String::from("::1")).unwrap();
    assert_eq!(t4.ip.family(), AddrFamily::V4);
    assert!(t4.ip.is_ipv4());
    assert_eq!(t6.ip.family(), AddrFamily::V6);
    assert!(!t6.ip.is_ipv4());
}

#[test]
fn resolve_binds_keeps_order() {
    let binds = vec![String::from("127.0.0.1"), String::from("[::1]:500")];
    let r = resolve_binds(&binds, DEFAULT_PORT).unwrap();
    assert_eq!(r.len(), 2);
    assert_eq!(r[0], BindTarget { ip: v4(127, 0, 0, 1), port: DEFAULT_PORT });
    assert_eq!(r[1], BindTarget { ip: v6([0, 0, 0, 0, 0, 0, 0, 1]), port: 500 });
}

#[test]
fn resolve_binds_reports_first_failure() {
    let binds = vec![String::from("127.0.0.1"), String::from("nope"), String::from("1.2.3.4:")];
    let r = resolve_binds(&binds, DEFAULT_PORT);
    assert_eq!(r, Err(ConfigError::InvalidAddress));
}
