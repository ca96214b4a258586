//! Text ready to print: a hexadecimal dump of a buffer, and the line that
//! shows one DHCP option.

use vstd::prelude::*;
use crate::bytes::append_bytes;
use crate::dhcp_parser::DhcpOption;

verus! {

/// ASCII space.
pub const SPACE: u8 = 0x20;

/// ASCII line feed.
pub const NEWLINE: u8 = 0x0a;

/// Number of bytes shown on one line of a dump.
pub const BYTES_PER_LINE: usize = 16;

/// The lower-case hexadecimal digit of `n`, for `n` below sixteen.
pub open spec fn hex_char(n: int) -> u8 {
    if n < 10 {
        (0x30 + n) as u8
    } else {
        (0x61 + n - 10) as u8
    }
}

/// What the dump shows for the byte at `index`: two hexadecimal digits and a
/// space; one more space behind the eighth byte of a line, a line feed
/// behind the sixteenth.
pub open spec fn cell(index: int, byte: u8) -> Seq<u8> {
    let text = seq![hex_char(byte as int / 16), hex_char(byte as int % 16), SPACE];
    if index % 16 == 7 {
        text.push(SPACE)
    } else if index % 16 == 15 {
        text.push(NEWLINE)
    } else {
        text
    }
}

/// The cells of the first `n` bytes, one behind the other.
pub open spec fn cells(bytes: Seq<u8>, n: int) -> Seq<u8>
    decreases n,
{
    if n <= 0 {
        Seq::empty()
    } else {
        cells(bytes, n - 1) + cell(n - 1, bytes[n - 1])
    }
}

/// The whole dump: the cells of all bytes and a closing line feed.
pub open spec fn dump(bytes: Seq<u8>) -> Seq<u8> {
    cells(bytes, bytes.len() as int).push(NEWLINE)
}

/// The lower-case hexadecimal digit of `n`.
pub fn hex_digit_char(n: u8) -> (r: u8)
    requires
        n < 16,
    ensures
        r == hex_char(n as int),
{
    if n < 10 {
        0x30 + n
    } else {
        0x61 + (n - 10)
    }
}

/// Lays `buffer` out as a hexadecimal dump in ASCII, sixteen bytes to a
/// line.
pub fn format_buffer(buffer: &[u8]) -> (text: Vec<u8>)
    ensures
        text@ == dump(buffer@),
{
    let mut text: Vec<u8> = Vec::new();
    let mut i: usize = 0;
    let mut k: usize = 0;
    while k < buffer.len()
        invariant
            k <= buffer@.len(),
            i == k % 16,
            text@ == cells(buffer@, k as int),
        decreases buffer@.len() - k,
    {
        let o = buffer[k];
        let ghost before = text@;
        let high = hex_digit_char(o / 16);
        let low = hex_digit_char(o % 16);
        text.push(high);
        text.push(low);
        text.push(SPACE);
        i += 1;
        if i == 8 {
            text.push(SPACE);
            assert(cell(k as int, o) =~= seq![high, low, SPACE, SPACE]);
        } else if i == BYTES_PER_LINE {
            text.push(NEWLINE);
            i = 0;
            assert(cell(k as int, o) =~= seq![high, low, SPACE, NEWLINE]);
        } else {
            assert(cell(k as int, o) =~= seq![high, low, SPACE]);
        }
        assert(text@ =~= before + cell(k as int, o));
        k += 1;
    }
    text.push(NEWLINE);
    text
}

/// The text `DHCPOption { opcode: ` that opens the line of an option.
pub const OPTION_OPENING: [u8; 21] = [
    0x44, 0x48, 0x43, 0x50, 0x4f, 0x70, 0x74, 0x69, 0x6f, 0x6e, 0x20, 0x7b, 0x20, 0x6f, 0x70,
    0x63, 0x6f, 0x64, 0x65, 0x3a, 0x20,
];

/// The text `, length: ` that stands before an option's length.
pub const OPTION_LENGTH_LABEL: [u8; 10] = [
    0x2c, 0x20, 0x6c, 0x65, 0x6e, 0x67, 0x74, 0x68, 0x3a, 0x20,
];

/// The text `, payload:` that stands before an option's value bytes.
pub const OPTION_PAYLOAD_LABEL: [u8; 10] = [
    0x2c, 0x20, 0x70, 0x61, 0x79, 0x6c, 0x6f, 0x61, 0x64, 0x3a,
];

/// The text ` }` and a line feed, which close the line of an option.
pub const OPTION_CLOSING: [u8; 3] = [
    0x20, 0x7d, 0x0a,
];

/// The decimal digits of `n` in ASCII, without leading zeros.
pub open spec fn decimal(n: nat) -> Seq<u8>
    decreases n,
{
    if n < 10 {
        seq![(0x30 + n) as u8]
    } else {
        decimal(n / 10).push((0x30 + n % 10) as u8)
    }
}

/// The first `n` value bytes of an option, each in decimal behind a space.
pub open spec fn values(payload: Seq<u8>, n: int) -> Seq<u8>
    decreases n,
{
    if n <= 0 {
        Seq::empty()
    } else {
        values(payload, n - 1) + seq![SPACE] + decimal(payload[n - 1] as nat)
    }
}

/// The line that shows an option: its code, its declared length and its
/// value bytes, all in decimal.
pub open spec fn option_line(option: DhcpOption) -> Seq<u8> {
    OPTION_OPENING@ + decimal(option.opcode as nat) + OPTION_LENGTH_LABEL@ + decimal(
        option.length as nat,
    ) + OPTION_PAYLOAD_LABEL@ + values(option.payload@, option.payload@.len() as int)
        + OPTION_CLOSING@
}

/// Appends the decimal digits of `n` to `text`.
pub fn append_decimal(text: &mut Vec<u8>, n: usize)
    ensures
        final(text)@ == old(text)@ + decimal(n as nat),
    decreases n,
{
    if n < 10 {
        text.push(0x30 + n as u8);
        assert(text@ =~= old(text)@ + decimal(n as nat));
    } else {
        append_decimal(text, n / 10);
        text.push(0x30 + (n % 10) as u8);
        assert(text@ =~= old(text)@ + decimal(n as nat));
    }
}

/// Lays an option out as one line of ASCII text.
pub fn format_dhcp_option(option: &DhcpOption) -> (text: Vec<u8>)
    ensures
        text@ == option_line(*option),
{
    let mut text: Vec<u8> = Vec::new();
    append_bytes(&mut text, OPTION_OPENING.as_slice());
    append_decimal(&mut text, option.opcode as usize);
    append_bytes(&mut text, OPTION_LENGTH_LABEL.as_slice());
    append_decimal(&mut text, option.length);
    append_bytes(&mut text, OPTION_PAYLOAD_LABEL.as_slice());
    let ghost head = text@;
    let mut k: usize = 0;
    while k < option.payload.len()
        invariant
            k <= option.payload@.len(),
            text@ == head + values(option.payload@, k as int),
        decreases option.payload@.len() - k,
    {
        let ghost before = text@;
        text.push(SPACE);
        append_decimal(&mut text, option.payload[k] as usize);
        assert(text@ =~= head + values(option.payload@, k as int + 1));
        k += 1;
    }
    append_bytes(&mut text, OPTION_CLOSING.as_slice());
    text
}

} // verus!
