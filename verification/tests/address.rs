use mcadmin::address::{
    client_address_from_output, host_to_string, host_upload_body, ipv4_to_string, parse_host_address,
    parse_ipv4, ClientAddressError, HostAddr, Ipv4,
};

fn ip(a: u8, b: u8, c: u8, d: u8) -> Ipv4 {
    Ipv4 { a, b, c, d }
}

#[test]
fn parse_ipv4_reads_dotted_decimal() {
    assert_eq!(parse_ipv4("1.2.3.4"), Some(ip(1, 2, 3, 4)));
    assert_eq!(parse_ipv4("255.255.255.255"), Some(ip(255, 255, 255, 255)));
    assert_eq!(parse_ipv4("0.0.0.0"), Some(ip(0, 0, 0, 0)));
    assert_eq!(parse_ipv4("10.200.30.4"), Some(ip(10, 200, 30, 4)));
}

#[test]
fn parse_ipv4_refuses_other_text() {
    for text in [
        "", "1.2.3", "1.2.3.4.5", "01.2.3.4", "1.2.3.00", "256.1.1.1", "1.2.3.4 ", " 1.2.3.4",
        "1..2.3", "1.2.3.4\n", "1234.1.1.1", "+1.2.3.4", "1.2.3.", ".1.2.3", "a.b.c.d", "::1",
    ] {
        assert_eq!(parse_ipv4(text), None, "{:?}", text);
    }
}

#[test]
fn ipv4_text_is_shortest_decimal_and_reads_back() {
    for (addr, want) in [
        (ip(1, 2, 3, 4), "1.2.3.4"),
        (ip(0, 0, 0, 0), "0.0.0.0"),
        (ip(255, 10, 0, 99), "255.10.0.99"),
        (ip(192, 168, 1, 100), "192.168.1.100"),
    ] {
        let text = ipv4_to_string(addr);
        assert_eq!(text, want);
        assert_eq!(parse_ipv4(&text), Some(addr));
    }
}

#[test]
fn upload_body_is_the_text_in_utf8() {
    assert_eq!(host_upload_body(HostAddr::V4(ip(1, 2, 3, 4)), ""), b"1.2.3.4".to_vec());
    assert_eq!(host_upload_body(HostAddr::V4(ip(192, 168, 0, 10)), "::9"), b"192.168.0.10".to_vec());
    assert_eq!(host_upload_body(HostAddr::V6(1), "::1"), b"::1".to_vec());
    assert_eq!(host_to_string(HostAddr::V6(1), "::1"), "::1");
}

#[test]
fn uploaded_address_downloads_back() {
    let addr = ip(203, 0, 113, 7);
    let body = host_upload_body(HostAddr::V4(addr), "");
    let text = String::from_utf8(body).unwrap();
    assert_eq!(parse_host_address(&text, None), Some(HostAddr::V4(addr)));
    assert_eq!(parse_host_address(&text, Some(5)), Some(HostAddr::V4(addr)));
}

#[test]
fn host_address_falls_back_to_the_ipv6_reading() {
    assert_eq!(parse_host_address("::1", Some(1)), Some(HostAddr::V6(1)));
    let body = host_upload_body(HostAddr::V6(1), "::1");
    let text = String::from_utf8(body).unwrap();
    assert_eq!(parse_host_address(&text, Some(1)), Some(HostAddr::V6(1)));
    assert_eq!(parse_host_address("garbage", None), None);
}

#[test]
fn client_address_errors() {
    assert_eq!(
        client_address_from_output(false, b"1.2.3.4".to_vec(), None),
        Err(ClientAddressError::CommandFailed)
    );
    assert_eq!(client_address_from_output(true, vec![0xff, 0x2e], None), Err(ClientAddressError::NotUtf8));
    assert_eq!(
        client_address_from_output(true, b"1.2.3.4\n".to_vec(), None),
        Err(ClientAddressError::NotAnAddress)
    );
    assert_eq!(client_address_from_output(true, Vec::new(), None), Err(ClientAddressError::NotAnAddress));
}

#[test]
fn client_address_reads_the_output() {
    assert_eq!(
        client_address_from_output(true, b"93.184.216.34".to_vec(), None),
        Ok(HostAddr::V4(ip(93, 184, 216, 34)))
    );
}

#[test]
fn client_address_reads_an_ipv6_output() {
    let bits: u128 = 0x2001_0db8_0000_0000_0000_0000_0000_0001;
    assert_eq!(client_address_from_output(true, b"2001:db8::1".to_vec(), Some(bits)), Ok(HostAddr::V6(bits)));
    assert_eq!(
        client_address_from_output(true, b"2001:db8::1".to_vec(), None),
        Err(ClientAddressError::NotAnAddress)
    );
}
