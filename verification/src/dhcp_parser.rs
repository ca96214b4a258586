//! Recognising a DHCP Offer in the payload of a received Ethernet frame:
//! IPv4, then UDP from port 67 to port 68, then the DHCP options.

use vstd::prelude::*;
use vstd::slice::{slice_subrange, slice_to_vec};
use crate::bytes::be16_value;
use crate::checksum::{UDP_CLIENT_PORT, UDP_SERVER_PORT};

verus! {

/// IPv4 protocol number of UDP.
pub const UDP_PROTO_CODE: u8 = 17;

/// Length of the magic cookie that opens the options region.
pub const DHCP_COOKIE_SIZE: usize = 4;

/// Option code of the DHCP message type.
pub const DHCP_OPTION_CODE_FOR_MSG_TYPE: u8 = 53;

/// Message type of an Offer.
pub const DHCP_MSG_TYPE_OFFER: u8 = 2;

/// Option code that ends the options.
pub const DHCP_OPTIONS_EOF: u8 = 0xff;

/// Shortest IPv4 packet: a header without options.
pub const IPV4_MINIMUM_LENGTH: usize = 20;

/// Length of a UDP header.
pub const UDP_HEADER_LENGTH: usize = 8;

/// Length of the fixed part of a DHCP message, before the options region.
pub const DHCP_FIXED_LENGTH: usize = 236;

/// One option of a DHCP message: a code, the declared length of the value,
/// and the value.
#[derive(Debug)]
pub struct DhcpOption {
    pub opcode: u8,
    pub length: usize,
    pub payload: Vec<u8>,
}

/// What an option says: its code and its value.
pub struct OptionContent {
    pub opcode: u8,
    pub payload: Seq<u8>,
}

impl View for DhcpOption {
    type V = OptionContent;

    open spec fn view(&self) -> OptionContent {
        OptionContent { opcode: self.opcode, payload: self.payload@ }
    }
}

impl DhcpOption {
    /// The declared length is the length of the value.
    pub open spec fn well_formed(&self) -> bool {
        self.length == self.payload@.len()
    }

    /// True for a message-type option whose single value byte says Offer.
    pub fn is_offer(&self) -> (r: bool)
        ensures
            r == says_offer(self@),
    {
        let r = self.opcode == DHCP_OPTION_CODE_FOR_MSG_TYPE && self.payload.len() == 1
            && self.payload[0] == DHCP_MSG_TYPE_OFFER;
        proof {
            if r {
                assert(self.payload@ =~= seq![DHCP_MSG_TYPE_OFFER]);
            } else if self.payload@ == seq![DHCP_MSG_TYPE_OFFER] {
                assert(self.payload@.len() == 1);
                assert(self.payload@[0] == DHCP_MSG_TYPE_OFFER);
            }
        }
        r
    }
}

/// The contents of a list of options, in order.
pub open spec fn contents(options: Seq<DhcpOption>) -> Seq<OptionContent> {
    Seq::new(options.len(), |k: int| options[k]@)
}

/// True for the content of a message-type option with the one value byte 2.
pub open spec fn says_offer(option: OptionContent) -> bool {
    option.opcode == DHCP_OPTION_CODE_FOR_MSG_TYPE && option.payload == seq![DHCP_MSG_TYPE_OFFER]
}

/// True when one of `options` says Offer.
pub open spec fn holds_offer(options: Seq<OptionContent>) -> bool {
    exists|k: int| 0 <= k < options.len() && says_offer(#[trigger] options[k])
}

/// True when an option starts at `i`: the scan has neither run out of bytes
/// nor met the end marker.
pub open spec fn option_starts(bytes: Seq<u8>, i: int) -> bool {
    0 <= i < bytes.len() && bytes[i] != DHCP_OPTIONS_EOF
}

/// True when the option that starts at `i` has its length byte and all of
/// its declared value inside `bytes`.
pub open spec fn option_fits(bytes: Seq<u8>, i: int) -> bool {
    i + 1 < bytes.len() && i + 2 + bytes[i + 1] as int <= bytes.len()
}

/// The index just behind the option that starts at `i`.
pub open spec fn next_option(bytes: Seq<u8>, i: int) -> int {
    i + 2 + bytes[i + 1] as int
}

/// True when every option met from `i` on, up to the end marker or the end of
/// `bytes`, lies inside `bytes`.
pub open spec fn options_fit(bytes: Seq<u8>, i: int) -> bool
    decreases bytes.len() - i,
{
    if !option_starts(bytes, i) {
        true
    } else if !option_fits(bytes, i) {
        false
    } else {
        options_fit(bytes, next_option(bytes, i))
    }
}

/// The options met from `i` on, up to the end marker, the end of `bytes`, or
/// the first option that does not fit.
pub open spec fn options_from(bytes: Seq<u8>, i: int) -> Seq<OptionContent>
    decreases bytes.len() - i,
{
    if !option_starts(bytes, i) || !option_fits(bytes, i) {
        Seq::empty()
    } else {
        seq![
            OptionContent {
                opcode: bytes[i],
                payload: bytes.subrange(i + 2, next_option(bytes, i)),
            },
        ] + options_from(bytes, next_option(bytes, i))
    }
}

/// The payload of the IPv4 packet `packet` of at least 20 bytes: it starts
/// behind the header, whose length in 32-bit words is the low half of the
/// first byte and is taken as five at least, and it ends where the header's
/// total-length field says, or where `packet` ends if that comes first.
pub open spec fn ipv4_payload(packet: Seq<u8>) -> Seq<u8> {
    let header = (packet[0] % 16) as int * 4;
    let total = be16_value(packet[2], packet[3]);
    let start = if header > 20 { header } else { 20 };
    let length = if total > header { total - header } else { 0 };
    let end = if start + length < packet.len() { start + length } else { packet.len() as int };
    if packet.len() <= start {
        Seq::empty()
    } else {
        packet.subrange(start, end)
    }
}

/// True when `datagram` is a UDP datagram from port 67 to port 68.
pub open spec fn from_server_to_client(datagram: Seq<u8>) -> bool {
    &&& datagram.len() >= UDP_HEADER_LENGTH
    &&& be16_value(datagram[0], datagram[1]) == UDP_SERVER_PORT
    &&& be16_value(datagram[2], datagram[3]) == UDP_CLIENT_PORT
}

/// True when the DHCP message `message` has a whole fixed part and magic
/// cookie, options that all fit, and among them one that says Offer.
pub open spec fn message_holds_offer(message: Seq<u8>) -> bool {
    let start = (DHCP_FIXED_LENGTH + DHCP_COOKIE_SIZE) as int;
    &&& message.len() >= start
    &&& options_fit(message.skip(start), 0)
    &&& holds_offer(options_from(message.skip(start), 0))
}

/// True when `packet`, the payload of an Ethernet frame, is an IPv4 packet
/// that carries a UDP datagram from port 67 to port 68 with a DHCP message
/// that holds an Offer.
pub open spec fn is_offer(packet: Seq<u8>) -> bool {
    &&& packet.len() >= IPV4_MINIMUM_LENGTH
    &&& packet[9] == UDP_PROTO_CODE
    &&& from_server_to_client(ipv4_payload(packet))
    &&& message_holds_offer(ipv4_payload(packet).skip(UDP_HEADER_LENGTH as int))
}

/// True when the scan that starts at `i` comes to start an option at
/// `target`.
pub open spec fn scan_reaches(bytes: Seq<u8>, i: int, target: int) -> bool
    decreases bytes.len() - i,
{
    if i == target {
        true
    } else if !option_starts(bytes, i) || !option_fits(bytes, i) {
        false
    } else {
        scan_reaches(bytes, next_option(bytes, i), target)
    }
}

/// Where the scan meets an option whose length byte or value would lie past
/// the end of the buffer, the options do not all fit.
pub proof fn lemma_truncated_option_does_not_fit(bytes: Seq<u8>, i: int, target: int)
    requires
        scan_reaches(bytes, i, target),
        option_starts(bytes, target),
        !option_fits(bytes, target),
    ensures
        !options_fit(bytes, i),
    decreases bytes.len() - i,
{
    if i != target {
        lemma_truncated_option_does_not_fit(bytes, next_option(bytes, i), target);
    }
}

/// A packet in whose options the scan meets an option that runs past the end
/// of the buffer is no Offer, whatever else it holds.
pub proof fn lemma_truncated_packet_is_no_offer(packet: Seq<u8>, target: int)
    requires
        packet.len() >= IPV4_MINIMUM_LENGTH,
        ({
            let message = ipv4_payload(packet).skip(UDP_HEADER_LENGTH as int);
            let region = message.skip((DHCP_FIXED_LENGTH + DHCP_COOKIE_SIZE) as int);
            &&& scan_reaches(region, 0, target)
            &&& option_starts(region, target)
            &&& !option_fits(region, target)
        }),
    ensures
        !is_offer(packet),
{
    let message = ipv4_payload(packet).skip(UDP_HEADER_LENGTH as int);
    let region = message.skip((DHCP_FIXED_LENGTH + DHCP_COOKIE_SIZE) as int);
    lemma_truncated_option_does_not_fit(region, 0, target);
}

/// Options that begin with a message type whose one value byte is 2 hold an
/// Offer.
pub proof fn lemma_leading_offer_is_found(bytes: Seq<u8>)
    requires
        bytes.len() >= 3,
        bytes[0] == DHCP_OPTION_CODE_FOR_MSG_TYPE,
        bytes[1] == 1,
        bytes[2] == DHCP_MSG_TYPE_OFFER,
    ensures
        holds_offer(options_from(bytes, 0)),
{
    let options = options_from(bytes, 0);
    assert(option_starts(bytes, 0) && option_fits(bytes, 0));
    assert(bytes.subrange(2, 3) =~= seq![DHCP_MSG_TYPE_OFFER]);
    assert(says_offer(options[0]));
}

/// An option other than a message type with the one value byte 2 is no
/// Offer: not one with another code, and not one with another value.
pub proof fn lemma_other_options_say_no_offer(option: OptionContent)
    ensures
        option.opcode != DHCP_OPTION_CODE_FOR_MSG_TYPE ==> !says_offer(option),
        option.payload.len() != 1 ==> !says_offer(option),
        option.payload.len() == 1 && option.payload[0] != DHCP_MSG_TYPE_OFFER ==> !says_offer(
            option,
        ),
{
    if says_offer(option) {
        assert(option.payload.len() == 1);
        assert(option.payload[0] == DHCP_MSG_TYPE_OFFER);
    }
}

/// Reads the options of a DHCP message from `buffer`, which starts behind
/// the magic cookie. Gives nothing when an option's length byte or value
/// would lie past the end of `buffer`.
pub fn parse_dhcp_options(buffer: &[u8]) -> (r: Option<Vec<DhcpOption>>)
    ensures
        r is Some <==> options_fit(buffer@, 0),
        r matches Some(options) ==> {
            &&& contents(options@) == options_from(buffer@, 0)
            &&& forall|k: int| 0 <= k < options@.len() ==> (#[trigger] options@[k]).well_formed()
        },
{
    let mut options: Vec<DhcpOption> = Vec::new();
    let mut i: usize = 0;
    while i < buffer.len() && buffer[i] != DHCP_OPTIONS_EOF
        invariant
            i <= buffer@.len(),
            options_fit(buffer@, 0) == options_fit(buffer@, i as int),
            options_from(buffer@, 0) == contents(options@) + options_from(buffer@, i as int),
            forall|k: int| 0 <= k < options@.len() ==> (#[trigger] options@[k]).well_formed(),
        decreases buffer@.len() - i,
    {
        let op_code = buffer[i];
        if buffer.len() - i < 2 {
            return None;
        }
        let op_length: usize = buffer[i + 1] as usize;
        if buffer.len() - i - 2 < op_length {
            return None;
        }
        let payload = slice_to_vec(slice_subrange(buffer, i + 2, i + 2 + op_length));
        let ghost before = contents(options@);
        let option = DhcpOption { opcode: op_code, length: op_length, payload };
        options.push(option);
        proof {
            let rest = options_from(buffer@, next_option(buffer@, i as int));
            assert(contents(options@) =~= before + seq![option@]);
            assert(before + (seq![option@] + rest) =~= (before + seq![option@]) + rest);
        }
        i += op_length + 2;
    }
    proof {
        assert(contents(options@) + Seq::<OptionContent>::empty() =~= contents(options@));
    }
    Some(options)
}

/// Looks for an option that says Offer.
pub fn any_offer(options: &Vec<DhcpOption>) -> (r: bool)
    ensures
        r == holds_offer(contents(options@)),
{
    let mut k: usize = 0;
    while k < options.len()
        invariant
            k <= options@.len(),
            forall|j: int| 0 <= j < k ==> !says_offer(#[trigger] contents(options@)[j]),
        decreases options@.len() - k,
    {
        if options[k].is_offer() {
            assert(says_offer(contents(options@)[k as int]));
            return true;
        }
        k += 1;
    }
    false
}

/// Tells whether `buffer`, the payload of an Ethernet frame, carries a DHCP
/// Offer. Anything that is not a whole, well-formed message is no Offer.
pub fn is_dhcp_offer(buffer: &[u8]) -> (r: bool)
    ensures
        r == is_offer(buffer@),
{
    if buffer.len() < IPV4_MINIMUM_LENGTH {
        return false;
    }
    if buffer[9] != UDP_PROTO_CODE {
        return false;
    }
    let header: usize = (buffer[0] % 16) as usize * 4;
    let total: usize = buffer[2] as usize * 256 + buffer[3] as usize;
    let start: usize = if header > 20 { header } else { 20 };
    let length: usize = if total > header { total - header } else { 0 };
    let end: usize = if start + length < buffer.len() { start + length } else { buffer.len() };
    if buffer.len() <= start {
        return false;
    }
    let datagram = slice_subrange(buffer, start, end);
    assert(datagram@ == ipv4_payload(buffer@));
    if datagram.len() < UDP_HEADER_LENGTH {
        return false;
    }
    let source: u16 = datagram[0] as u16 * 256 + datagram[1] as u16;
    let destination: u16 = datagram[2] as u16 * 256 + datagram[3] as u16;
    if source != UDP_SERVER_PORT || destination != UDP_CLIENT_PORT {
        return false;
    }
    let message = slice_subrange(datagram, UDP_HEADER_LENGTH, datagram.len());
    assert(message@ == datagram@.skip(UDP_HEADER_LENGTH as int));
    if message.len() < DHCP_FIXED_LENGTH + DHCP_COOKIE_SIZE {
        return false;
    }
    let region = slice_subrange(message, DHCP_FIXED_LENGTH + DHCP_COOKIE_SIZE, message.len());
    assert(region@ == message@.skip((DHCP_FIXED_LENGTH + DHCP_COOKIE_SIZE) as int));
    match parse_dhcp_options(region) {
        Some(options) => any_offer(&options),
        None => false,
    }
}

} // verus!
