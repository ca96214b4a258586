use machammer::dhcp_parser::{parse_dhcp_options, DhcpOption};
use machammer::utils::{append_decimal, format_buffer, format_dhcp_option, hex_digit_char};

fn text(buffer: &[u8]) -> String {
    String::from_utf8(format_buffer(buffer)).unwrap()
}

#[test]
fn empty_buffer_is_one_line_feed() {
    assert_eq!(text(&[]), "\n");
}

#[test]
fn short_buffer() {
    assert_eq!(text(&[0x00, 0x0a, 0xff]), "00 0a ff \n");
}

#[test]
fn eighth_byte_is_followed_by_a_gap() {
    assert_eq!(text(&[1, 2, 3, 4, 5, 6, 7, 8]), "01 02 03 04 05 06 07 08  \n");
    assert_eq!(text(&[1, 2, 3, 4, 5, 6, 7, 8, 9]), "01 02 03 04 05 06 07 08  09 \n");
}

#[test]
fn sixteen_bytes_fill_a_line() {
    let buffer: Vec<u8> = (0..18u8).map(|b| b * 16 + 1).collect();
    assert_eq!(
        text(&buffer),
        "01 11 21 31 41 51 61 71  81 91 a1 b1 c1 d1 e1 f1 \n01 11 \n"
    );
    let full: Vec<u8> = (0..16u8).collect();
    assert_eq!(text(&full), "00 01 02 03 04 05 06 07  08 09 0a 0b 0c 0d 0e 0f \n\n");
}

#[test]
fn hexadecimal_digits_are_lower_case() {
    let digits: Vec<u8> = (0..16u8).map(hex_digit_char).collect();
    assert_eq!(digits, b"0123456789abcdef".to_vec());
}

#[test]
fn decimal_digits() {
    for n in [0usize, 1, 9, 10, 11, 99, 100, 255, 256, 1000, 65535, 4294967295, usize::MAX] {
        let mut out = b"x".to_vec();
        append_decimal(&mut out, n);
        assert_eq!(String::from_utf8(out).unwrap(), format!("x{}", n));
    }
}

#[test]
fn option_line_shows_code_length_and_values() {
    let option = DhcpOption { opcode: 53, length: 1, payload: vec![2] };
    assert_eq!(
        String::from_utf8(format_dhcp_option(&option)).unwrap(),
        "DHCPOption { opcode: 53, length: 1, payload: 2 }\n"
    );
    let empty = DhcpOption { opcode: 0, length: 0, payload: vec![] };
    assert_eq!(
        String::from_utf8(format_dhcp_option(&empty)).unwrap(),
        "DHCPOption { opcode: 0, length: 0, payload: }\n"
    );
    let parsed = parse_dhcp_options(&[1, 4, 255, 255, 254, 0, 255]).unwrap();
    assert_eq!(
        String::from_utf8(format_dhcp_option(&parsed[0])).unwrap(),
        "DHCPOption { opcode: 1, length: 4, payload: 255 255 254 0 }\n"
    );
}
