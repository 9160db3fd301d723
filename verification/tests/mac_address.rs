use rftmle::mac::{parse_hex_byte, parse_mac, split_chars, InvalidMacAddress};

#[test]
fn parses_the_server_address() {
    assert_eq!(parse_mac("34:5A:60:94:2E:02"), Ok([0x34, 0x5A, 0x60, 0x94, 0x2E, 0x02]));
}

#[test]
fn parses_lower_case_and_short_octets() {
    assert_eq!(parse_mac("ff:0:a:0b:C:1"), Ok([0xff, 0, 0x0a, 0x0b, 0x0c, 1]));
}

#[test]
fn accepts_what_from_str_radix_accepts() {
    assert_eq!(parse_mac("+1:2:3:4:5:006"), Ok([1, 2, 3, 4, 5, 6]));
}

#[test]
fn refuses_wrong_number_of_octets() {
    assert_eq!(parse_mac("34:5A:60:94:2E"), Err(InvalidMacAddress));
    assert_eq!(parse_mac("34:5A:60:94:2E:02:11"), Err(InvalidMacAddress));
    assert_eq!(parse_mac(""), Err(InvalidMacAddress));
}

#[test]
fn refuses_bad_octets() {
    assert_eq!(parse_mac("34:5A:60:94:2E:100"), Err(InvalidMacAddress));
    assert_eq!(parse_mac("34:5A:60:94:2E:"), Err(InvalidMacAddress));
    assert_eq!(parse_mac("34:5G:60:94:2E:02"), Err(InvalidMacAddress));
    assert_eq!(parse_mac("-1:5A:60:94:2E:02"), Err(InvalidMacAddress));
    assert_eq!(parse_mac("+:5A:60:94:2E:02"), Err(InvalidMacAddress));
}

#[test]
fn hex_byte_matches_from_str_radix() {
    for s in ["0", "00ff", "+7f", "100", "", "+", "-1", "z", "fF", "0000000001"] {
        let chars: Vec<char> = s.chars().collect();
        assert_eq!(parse_hex_byte(&chars), u8::from_str_radix(s, 16).ok(), "{}", s);
    }
}

#[test]
fn splits_as_str_split_does() {
    for s in ["", ":", "a:b", "a::b:", "abc"] {
        let parts: Vec<String> = split_chars(s, ':').into_iter().map(|p| p.into_iter().collect()).collect();
        let expected: Vec<String> = s.split(':').map(|p| p.to_string()).collect();
        assert_eq!(parts, expected);
    }
}
