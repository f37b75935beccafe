use sniproxy::socks5::ConnectError;
use sniproxy::socks5::Socks5;

#[test]
fn greeting_offers_no_authentication() {
    assert_eq!(Socks5::greeting(), vec![0x05, 0x01, 0x00]);
}

#[test]
fn method_selection_accepts_no_authentication() {
    assert!(Socks5::check_method_selection(&[0x05, 0x00]).is_ok());
}

#[test]
fn method_selection_rejects_other_methods() {
    let r = Socks5::check_method_selection(&[0x05, 0xff]);
    assert_eq!(r.unwrap_err(), ConnectError::AuthRejected);
}

#[test]
fn method_selection_short_reply_is_malformed() {
    let r = Socks5::check_method_selection(&[0x05]);
    assert_eq!(r.unwrap_err(), ConnectError::Malformed);
}

#[test]
fn connect_request_encodes_port_443() {
    let r = Socks5::build_connect_request(b"example.com", 443).unwrap();
    let mut expected = vec![0x05, 0x01, 0x00, 0x03, 11];
    expected.extend_from_slice(b"example.com");
    expected.extend_from_slice(&[0x01, 0xbb]);
    assert_eq!(r, expected);
}

#[test]
fn connect_request_encodes_port_80() {
    let r = Socks5::build_connect_request(b"example.com", 80).unwrap();
    let mut expected = vec![0x05, 0x01, 0x00, 0x03, 11];
    expected.extend_from_slice(b"example.com");
    expected.extend_from_slice(&[0x00, 0x50]);
    assert_eq!(r, expected);
}

#[test]
fn connect_request_refuses_other_ports() {
    let r = Socks5::build_connect_request(b"example.com", 8080);
    assert_eq!(r.unwrap_err(), ConnectError::UnsupportedPort);
}

#[test]
fn connect_reply_success() {
    let reply = [0x05, 0x00, 0x00, 0x01, 0, 0, 0, 0, 0, 0];
    assert!(Socks5::parse_connect_reply(&reply).is_ok());
}

#[test]
fn connect_reply_rejected_carries_status() {
    let reply = [0x05, 0x05, 0x00, 0x01, 0, 0, 0, 0, 0, 0];
    let r = Socks5::parse_connect_reply(&reply);
    assert_eq!(r.unwrap_err(), ConnectError::Rejected(5));
}

#[test]
fn connect_reply_short_is_malformed() {
    let r = Socks5::parse_connect_reply(&[0x05]);
    assert_eq!(r.unwrap_err(), ConnectError::Malformed);
}
