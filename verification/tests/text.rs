use newsletter::startup::bind_address;
use newsletter::text::to_hex_lower;

#[test]
fn hex_is_lowercase_two_digits_per_byte() {
    assert_eq!(to_hex_lower(&[0x0a, 0x14, 0x1e, 0xff, 0x00]), "0a141eff00");
    assert_eq!(to_hex_lower(&[]), "");
}

#[test]
fn bind_address_joins_host_and_port() {
    assert_eq!(bind_address("127.0.0.1", 8000), "127.0.0.1:8000");
    assert_eq!(bind_address("localhost", 0), "localhost:0");
    assert_eq!(bind_address("::", 65535), ":::65535");
    assert_eq!(bind_address("h", 7), "h:7");
}
