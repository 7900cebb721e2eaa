use pea_2_pea::shared::addr::{bytes_equal, Ipv4, SockAddr};

#[test]
fn ipv4_text_is_dotted_decimal() {
    assert_eq!(Ipv4::new(172, 22, 44, 3).to_text(), b"172.22.44.3".to_vec());
    assert_eq!(Ipv4::new(0, 0, 0, 0).to_text(), b"0.0.0.0".to_vec());
    assert_eq!(Ipv4::new(255, 255, 255, 255).to_text(), b"255.255.255.255".to_vec());
    assert_eq!(Ipv4::new(10, 100, 9, 99).to_text(), b"10.100.9.99".to_vec());
}

#[test]
fn ipv4_from_text_reads_what_to_text_writes() {
    for d in 0..=255u8 {
        let ip = Ipv4::new(172, 22, d, 255 - d);
        assert_eq!(Ipv4::from_text(&ip.to_text()), Some(ip));
    }
}

#[test]
fn ipv4_from_text_rejects_other_forms() {
    assert_eq!(Ipv4::from_text(b""), None);
    assert_eq!(Ipv4::from_text(b"1.2.3"), None);
    assert_eq!(Ipv4::from_text(b"1.2.3.4.5"), None);
    assert_eq!(Ipv4::from_text(b"1.2.3.256"), None);
    assert_eq!(Ipv4::from_text(b"01.2.3.4"), None);
    assert_eq!(Ipv4::from_text(b"1.2.3.4 "), None);
    assert_eq!(Ipv4::from_text(b"1,2,3,4"), None);
    assert_eq!(Ipv4::from_text(b"1..2.3"), None);
    assert_eq!(Ipv4::from_text(b"a.b.c.d"), None);
    assert_eq!(Ipv4::from_text(b"1.2.3.4:80"), None);
    assert_eq!(Ipv4::from_text(b"111111.2.3.4"), None);
}

#[test]
fn unspecified_is_all_zero() {
    assert_eq!(Ipv4::unspecified(), Ipv4::new(0, 0, 0, 0));
    assert!(Ipv4::unspecified().is_unspecified());
    assert!(!Ipv4::new(0, 0, 0, 1).is_unspecified());
}

#[test]
fn sock_addr_text_is_address_colon_port() {
    let addr = SockAddr::new(Ipv4::new(203, 0, 113, 7), 40000);
    assert_eq!(addr.to_text(), b"203.0.113.7:40000".to_vec());
    assert_eq!(SockAddr::new(Ipv4::new(1, 2, 3, 4), 0).to_text(), b"1.2.3.4:0".to_vec());
    assert_eq!(
        SockAddr::new(Ipv4::new(255, 255, 255, 255), 65535).to_text(),
        b"255.255.255.255:65535".to_vec()
    );
}

#[test]
fn sock_addr_from_text_reads_what_to_text_writes() {
    for port in [0u16, 1, 9, 10, 99, 100, 999, 1000, 3543, 9999, 10000, 40000, 65535] {
        let addr = SockAddr::new(Ipv4::new(192, 168, 1, 17), port);
        assert_eq!(SockAddr::from_text(&addr.to_text()), Some(addr));
    }
}

#[test]
fn sock_addr_from_text_rejects_other_forms() {
    assert_eq!(SockAddr::from_text(b"1.2.3.4"), None);
    assert_eq!(SockAddr::from_text(b"1.2.3.4:"), None);
    assert_eq!(SockAddr::from_text(b"1.2.3.4:65536"), None);
    assert_eq!(SockAddr::from_text(b"1.2.3.4:080"), None);
    assert_eq!(SockAddr::from_text(b"1.2.3.4;80"), None);
    assert_eq!(SockAddr::from_text(b"[::1]:80"), None);
    assert_eq!(SockAddr::from_text(b"1.2.3.4:80:90"), None);
    assert_eq!(SockAddr::from_text(b"1.2.3.4:123456"), None);
}

#[test]
fn bytes_equal_compares_contents() {
    assert!(bytes_equal(b"", b""));
    assert!(bytes_equal(b"abc", b"abc"));
    assert!(!bytes_equal(b"abc", b"abd"));
    assert!(!bytes_equal(b"abc", b"ab"));
}
