//! The UDP checksum of a DHCP Discover datagram: the one's-complement sum of
//! the IPv4 pseudo-header, the UDP header and the payload, complemented.

use vstd::prelude::*;

verus! {

/// Size of a UDP header in bytes.
pub const UDP_HEADER_SIZE: u16 = 8;

/// IPv4 protocol number of UDP.
pub const UDP_PROTO_CODE: u16 = 17;

/// UDP port of a DHCP client.
pub const UDP_CLIENT_PORT: u16 = 68;

/// UDP port of a DHCP server.
pub const UDP_SERVER_PORT: u16 = 67;

/// Longest payload whose UDP length still fits the 16-bit length field.
pub const MAX_UDP_PAYLOAD: usize = 65527;

/// The `k`-th big-endian 16-bit word of `bytes`; a trailing odd byte is the
/// high byte of a word whose low byte is zero.
pub open spec fn word_at(bytes: Seq<u8>, k: int) -> int {
    if 2 * k + 1 < bytes.len() {
        bytes[2 * k] as int * 256 + bytes[2 * k + 1] as int
    } else {
        bytes[2 * k] as int * 256
    }
}

/// The number of 16-bit words that `bytes` occupies, a trailing odd byte
/// counting as one.
pub open spec fn word_count(bytes: Seq<u8>) -> int {
    (bytes.len() as int + 1) / 2
}

/// The plain integer sum of the first `n` words of `bytes`.
pub open spec fn words_total(bytes: Seq<u8>, n: int) -> int
    decreases n,
{
    if n <= 0 {
        0
    } else {
        words_total(bytes, n - 1) + word_at(bytes, n - 1)
    }
}

/// The plain integer sum of the pseudo-header words (source 0.0.0.0,
/// destination 255.255.255.255, protocol, UDP length) and of the UDP header
/// words (ports 68 and 67, length, a zero checksum field) for a payload of
/// `len` bytes.
pub open spec fn header_total(len: int) -> int {
    0x0000 + 0x0000 + 0xffff + 0xffff + UDP_PROTO_CODE as int + (len + UDP_HEADER_SIZE as int)
        + UDP_CLIENT_PORT as int + UDP_SERVER_PORT as int + (len + UDP_HEADER_SIZE as int) + 0x0000
}

/// The 16-bit one's-complement sum of words whose plain integer sum is
/// `total`: zero for zero, otherwise the value in `1..=0xffff` that is
/// congruent to `total` modulo `0xffff`.
pub open spec fn ones_complement_fold(total: int) -> int {
    if total <= 0 {
        0
    } else {
        (total - 1) % 0xffff + 1
    }
}

/// One addition with end-around carry: a carry out of bit 16 is added back
/// into the low 16 bits.
pub open spec fn end_around_carry_add(a: int, b: int) -> int {
    if a + b > 0xffff {
        a + b - 0xffff
    } else {
        a + b
    }
}

/// The checksum of the datagram that carries `payload`.
pub open spec fn udp_checksum(payload: Seq<u8>) -> int {
    0xffff - ones_complement_fold(
        header_total(payload.len() as int) + words_total(payload, word_count(payload)),
    )
}

/// Adding a word with end-around carry to a folded sum gives the folded sum
/// of the plain total with that word added.
pub proof fn lemma_carry_add_folds(total: int, word: int)
    requires
        0 <= total,
        0 <= word <= 0xffff,
    ensures
        end_around_carry_add(ones_complement_fold(total), word) == ones_complement_fold(
            total + word,
        ),
        0 <= ones_complement_fold(total) <= 0xffff,
{
}

/// The checksum is a 16-bit value below `0xffff`, and a datagram with this
/// checksum in place sums to `0xffff` in one's-complement arithmetic, which
/// is how a receiver checks it.
pub proof fn lemma_checksum_verifies(payload: Seq<u8>)
    requires
        payload.len() <= MAX_UDP_PAYLOAD,
    ensures
        0 <= udp_checksum(payload) < 0xffff,
        ones_complement_fold(
            header_total(payload.len() as int) + words_total(payload, word_count(payload))
                + udp_checksum(payload),
        ) == 0xffff,
{
    lemma_words_total_nonneg(payload, word_count(payload));
    let t = header_total(payload.len() as int) + words_total(payload, word_count(payload));
    lemma_carry_add_folds(t, udp_checksum(payload));
}

/// A sum of words is never negative.
pub proof fn lemma_words_total_nonneg(bytes: Seq<u8>, n: int)
    requires
        n <= word_count(bytes),
    ensures
        0 <= words_total(bytes, n),
    decreases n,
{
    if n > 0 {
        lemma_words_total_nonneg(bytes, n - 1);
    }
}

/// Adds two 16-bit values with end-around carry.
fn carry_sum(a: u16, b: u16) -> (r: u16)
    ensures
        r as int == end_around_carry_add(a as int, b as int),
{
    let wide: u32 = a as u32 + b as u32;
    if wide > 0xffff {
        (wide - 0xffff) as u16
    } else {
        wide as u16
    }
}

/// Computes the UDP checksum of a datagram from 0.0.0.0 port 68 to
/// 255.255.255.255 port 67 that carries `payload`.
pub fn forge_udp_checksum_for_dhcp_discover(payload: &[u8]) -> (r: u16)
    requires
        payload@.len() <= MAX_UDP_PAYLOAD,
    ensures
        r as int == udp_checksum(payload@),
{
    let length: u16 = payload.len() as u16;
    let ghost len = payload@.len() as int;
    let mut sum: u16 = 0;
    let ghost mut total: int = 0;

    sum = carry_sum(sum, 0x0000);
    sum = carry_sum(sum, 0x0000);
    proof {
        lemma_carry_add_folds(0, 0);
    }
    sum = carry_sum(sum, 0xffff);
    proof {
        lemma_carry_add_folds(total, 0xffff);
        total = total + 0xffff;
    }
    sum = carry_sum(sum, 0xffff);
    proof {
        lemma_carry_add_folds(total, 0xffff);
        total = total + 0xffff;
    }
    sum = carry_sum(sum, UDP_PROTO_CODE);
    proof {
        lemma_carry_add_folds(total, UDP_PROTO_CODE as int);
        total = total + UDP_PROTO_CODE as int;
    }
    sum = carry_sum(sum, length + UDP_HEADER_SIZE);
    proof {
        lemma_carry_add_folds(total, len + 8);
        total = total + len + 8;
    }
    sum = carry_sum(sum, UDP_CLIENT_PORT);
    proof {
        lemma_carry_add_folds(total, UDP_CLIENT_PORT as int);
        total = total + UDP_CLIENT_PORT as int;
    }
    sum = carry_sum(sum, UDP_SERVER_PORT);
    proof {
        lemma_carry_add_folds(total, UDP_SERVER_PORT as int);
        total = total + UDP_SERVER_PORT as int;
    }
    sum = carry_sum(sum, length + UDP_HEADER_SIZE);
    proof {
        lemma_carry_add_folds(total, len + 8);
        total = total + len + 8;
    }
    sum = carry_sum(sum, 0x0000);
    proof {
        lemma_carry_add_folds(total, 0);
    }
    assert(total == header_total(len));

    let even: usize = payload.len() - payload.len() % 2;
    let mut i: usize = 0;
    while i < even
        invariant
            i <= even,
            i % 2 == 0,
            even == payload@.len() - payload@.len() % 2,
            len == payload@.len(),
            0 <= total,
            total == header_total(len) + words_total(payload@, i as int / 2),
            sum as int == ones_complement_fold(total),
        decreases even - i,
    {
        let number: u16 = payload[i] as u16 * 256 + payload[i + 1] as u16;
        sum = carry_sum(sum, number);
        proof {
            lemma_carry_add_folds(total, number as int);
            assert(word_at(payload@, i as int / 2) == number as int);
            assert((i as int + 2) / 2 == i as int / 2 + 1);
            total = total + number as int;
        }
        i += 2;
    }

    if payload.len() % 2 != 0 {
        let number: u16 = payload[payload.len() - 1] as u16 * 256;
        sum = carry_sum(sum, number);
        proof {
            lemma_carry_add_folds(total, number as int);
            assert(word_at(payload@, i as int / 2) == number as int);
            assert(word_count(payload@) == i as int / 2 + 1);
            total = total + number as int;
        }
    } else {
        assert(word_count(payload@) == i as int / 2);
    }

    u16::MAX - sum
}

} // verus!
