use machammer::address::HardwareAddress;
use machammer::dhcp_forge::build_discover_frame;
use machammer::dhcp_parser::{any_offer, is_dhcp_offer, parse_dhcp_options};
use machammer::worker::frame_is_offer_for;
use pnet::packet::Packet;

fn packet_with(protocol: u8, source: u16, destination: u16, options: &[u8]) -> Vec<u8> {
    let total = 20 + 8 + 236 + 4 + options.len();
    let mut p = vec![0u8; 20];
    p[0] = 0x45;
    p[2] = (total >> 8) as u8;
    p[3] = (total & 0xff) as u8;
    p[8] = 64;
    p[9] = protocol;
    p.extend_from_slice(&source.to_be_bytes());
    p.extend_from_slice(&destination.to_be_bytes());
    p.extend_from_slice(&((total - 20) as u16).to_be_bytes());
    p.extend_from_slice(&[0, 0]);
    let mut dhcp = vec![0u8; 236];
    dhcp[0] = 2;
    p.extend_from_slice(&dhcp);
    p.extend_from_slice(&[0x63, 0x82, 0x53, 0x63]);
    p.extend_from_slice(options);
    p
}

fn offer_packet(options: &[u8]) -> Vec<u8> {
    packet_with(17, 67, 68, options)
}

#[test]
fn offer_is_recognised() {
    assert!(is_dhcp_offer(&offer_packet(&[53, 1, 2, 255])));
    assert!(is_dhcp_offer(&offer_packet(&[53, 1, 2])));
    assert!(is_dhcp_offer(&offer_packet(&[1, 4, 255, 255, 255, 0, 53, 1, 2, 51, 4, 0, 0, 14, 16, 255])));
}

#[test]
fn absent_message_type_is_no_offer() {
    assert!(!is_dhcp_offer(&offer_packet(&[])));
    assert!(!is_dhcp_offer(&offer_packet(&[255])));
    assert!(!is_dhcp_offer(&offer_packet(&[1, 4, 255, 255, 255, 0, 255])));
}

#[test]
fn other_code_is_no_offer() {
    assert!(!is_dhcp_offer(&offer_packet(&[54, 1, 2, 255])));
    assert!(!is_dhcp_offer(&offer_packet(&[52, 1, 2, 255])));
}

#[test]
fn other_message_types_are_no_offer() {
    assert!(!is_dhcp_offer(&offer_packet(&[53, 1, 1, 255])));
    assert!(!is_dhcp_offer(&offer_packet(&[53, 1, 5, 255])));
    assert!(!is_dhcp_offer(&offer_packet(&[53, 2, 2, 0, 255])));
    assert!(!is_dhcp_offer(&offer_packet(&[53, 0, 255])));
}

#[test]
fn offer_behind_end_marker_is_not_seen() {
    assert!(!is_dhcp_offer(&offer_packet(&[255, 53, 1, 2])));
}

#[test]
fn truncated_option_is_no_offer() {
    assert!(!is_dhcp_offer(&offer_packet(&[53, 4, 2])));
    assert!(!is_dhcp_offer(&offer_packet(&[53, 1])));
    assert!(!is_dhcp_offer(&offer_packet(&[53])));
    assert!(!is_dhcp_offer(&offer_packet(&[12, 200, 1, 2, 3])));
    assert!(!is_dhcp_offer(&offer_packet(&[53, 1, 2, 12, 9, 1])));
    assert!(!is_dhcp_offer(&offer_packet(&[53, 1, 2, 12])));
}

#[test]
fn wrong_protocol_or_ports_are_no_offer() {
    assert!(!is_dhcp_offer(&packet_with(6, 67, 68, &[53, 1, 2, 255])));
    assert!(!is_dhcp_offer(&packet_with(17, 68, 67, &[53, 1, 2, 255])));
    assert!(!is_dhcp_offer(&packet_with(17, 67, 67, &[53, 1, 2, 255])));
    assert!(!is_dhcp_offer(&packet_with(17, 68, 68, &[53, 1, 2, 255])));
}

#[test]
fn short_buffers_are_no_offer() {
    let whole = offer_packet(&[53, 1, 2, 255]);
    assert!(is_dhcp_offer(&whole));
    for len in 0..(20 + 8 + 236 + 4 + 3) {
        assert!(!is_dhcp_offer(&whole[..len]), "length {}", len);
    }
}

#[test]
fn total_length_bounds_the_payload() {
    let mut p = offer_packet(&[53, 1, 2, 255]);
    // the header says the packet ends before the options
    let total: usize = 20 + 8 + 236 + 4;
    p[2] = (total >> 8) as u8;
    p[3] = (total & 0xff) as u8;
    assert!(!is_dhcp_offer(&p));
}

#[test]
fn header_length_moves_the_payload() {
    let inner = offer_packet(&[53, 1, 2, 255]);
    let mut p = inner[..20].to_vec();
    p[0] = 0x46;
    let total = inner.len() + 4;
    p[2] = (total >> 8) as u8;
    p[3] = (total & 0xff) as u8;
    p.extend_from_slice(&[1, 1, 1, 1]);
    p.extend_from_slice(&inner[20..]);
    assert!(is_dhcp_offer(&p));
    p[0] = 0x45;
    assert!(!is_dhcp_offer(&p));
}

#[test]
fn options_are_parsed_in_order() {
    let options = parse_dhcp_options(&[53, 1, 2, 12, 3, 97, 98, 99, 0, 0, 255, 53, 1, 2]).unwrap();
    assert_eq!(options.len(), 3);
    assert_eq!(options[0].opcode, 53);
    assert_eq!(options[0].length, 1);
    assert_eq!(options[0].payload, vec![2]);
    assert_eq!(options[1].opcode, 12);
    assert_eq!(options[1].length, 3);
    assert_eq!(options[1].payload, vec![97, 98, 99]);
    assert_eq!(options[2].opcode, 0);
    assert_eq!(options[2].length, 0);
    assert_eq!(options[2].payload, Vec::<u8>::new());
    assert!(options[0].is_offer());
    assert!(!options[1].is_offer());
    assert!(any_offer(&options));
}

#[test]
fn options_that_do_not_fit_give_nothing() {
    assert!(parse_dhcp_options(&[53, 2, 2]).is_none());
    assert!(parse_dhcp_options(&[53]).is_none());
    assert!(parse_dhcp_options(&[53, 1, 2, 7]).is_none());
    assert_eq!(parse_dhcp_options(&[]).unwrap().len(), 0);
    assert_eq!(parse_dhcp_options(&[255, 9]).unwrap().len(), 0);
}

#[test]
fn discover_is_no_offer() {
    let mac = HardwareAddress::new(0xaa, 0xbb, 0xcc, 0xdd, 0xee, 0xff);
    let frame = build_discover_frame(mac, 7, 0);
    assert!(!is_dhcp_offer(&frame[14..]));
}

#[test]
fn offer_must_be_addressed_to_the_target() {
    let mac = HardwareAddress::new(0xaa, 0xbb, 0xcc, 0xdd, 0xee, 0xff);
    let other = HardwareAddress::new(0xaa, 0xbb, 0xcc, 0xdd, 0xee, 0xfe);
    let mut frame = vec![0xaa, 0xbb, 0xcc, 0xdd, 0xee, 0xff, 1, 2, 3, 4, 5, 6, 0x08, 0x00];
    frame.extend_from_slice(&offer_packet(&[53, 1, 2, 255]));
    assert!(frame_is_offer_for(&frame, mac));
    assert!(!frame_is_offer_for(&frame, other));
    frame[13] = 0x06;
    assert!(!frame_is_offer_for(&frame, mac));
    frame[13] = 0x00;
    frame[12] = 0x86;
    assert!(!frame_is_offer_for(&frame, mac));
    assert!(!frame_is_offer_for(&frame[..13], mac));
    assert!(!frame_is_offer_for(&[], mac));
}

fn layered_verdict(buffer: &[u8]) -> bool {
    let ip = match pnet::packet::ipv4::Ipv4Packet::new(buffer) {
        Some(p) => p,
        None => return false,
    };
    if ip.get_next_level_protocol() != pnet::packet::ip::IpNextHeaderProtocol(17) {
        return false;
    }
    let udp = match pnet::packet::udp::UdpPacket::new(ip.payload()) {
        Some(p) => p,
        None => return false,
    };
    if udp.get_source() != 67 || udp.get_destination() != 68 {
        return false;
    }
    let dhcp = match pnet::packet::dhcp::DhcpPacket::new(udp.payload()) {
        Some(p) => p,
        None => return false,
    };
    let region = dhcp.payload();
    if region.len() < 4 {
        return false;
    }
    let options = &region[4..];
    let mut found = false;
    let mut i = 0;
    while i < options.len() {
        if options[i] == 0xff {
            break;
        }
        if i + 1 >= options.len() {
            return false;
        }
        let length = options[i + 1] as usize;
        if i + 2 + length > options.len() {
            return false;
        }
        if options[i] == 53 && options[i + 2..i + 2 + length] == [2u8] {
            found = true;
        }
        i += length + 2;
    }
    found
}

#[test]
fn verdict_agrees_with_layered_parsing() {
    let base = offer_packet(&[1, 4, 255, 255, 255, 0, 53, 1, 2, 51, 4, 0, 0, 14, 16, 255]);
    assert!(layered_verdict(&base));
    let mut state: u32 = 12345;
    let mut agreed_true = 0;
    for round in 0..20000u32 {
        let mut p = base.clone();
        state = state.wrapping_mul(1664525).wrapping_add(1013904223);
        let place = match round % 5 {
            0 => 0,
            1 => 2 + (state >> 8) as usize % 2,
            2 => 20 + (state >> 8) as usize % 8,
            3 => 268 + (state >> 8) as usize % (p.len() - 268),
            _ => (state >> 8) as usize % p.len(),
        };
        p[place] = (state >> 24) as u8;
        state = state.wrapping_mul(1664525).wrapping_add(1013904223);
        let keep = if round % 3 == 0 { (state >> 8) as usize % (p.len() + 1) } else { p.len() };
        let p = &p[..keep];
        let expected = layered_verdict(p);
        assert_eq!(is_dhcp_offer(p), expected, "round {} buffer {:?}", round, p);
        if expected {
            agreed_true += 1;
        }
    }
    assert!(agreed_true > 100);
}
