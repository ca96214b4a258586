//! Big-endian fields and runs of bytes, as sequences and as pushes onto a
//! buffer.

use vstd::prelude::*;

verus! {

/// `n` zero bytes.
pub open spec fn zeros(n: nat) -> Seq<u8> {
    Seq::new(n, |i: int| 0u8)
}

/// A 16-bit value, most significant byte first.
pub open spec fn be16(x: u16) -> Seq<u8> {
    seq![(x / 256) as u8, (x % 256) as u8]
}

/// A 32-bit value, most significant byte first.
pub open spec fn be32(x: u32) -> Seq<u8> {
    seq![
        (x / 0x100_0000) as u8,
        (x / 0x1_0000 % 256) as u8,
        (x / 0x100 % 256) as u8,
        (x % 256) as u8,
    ]
}

/// The 16-bit value that two bytes spell, most significant byte first.
pub open spec fn be16_value(high: u8, low: u8) -> int {
    high as int * 256 + low as int
}

/// Appends `bytes` to `buffer`.
pub fn append_bytes(buffer: &mut Vec<u8>, bytes: &[u8])
    ensures
        final(buffer)@ == old(buffer)@ + bytes@,
{
    let mut i: usize = 0;
    while i < bytes.len()
        invariant
            i <= bytes@.len(),
            buffer@ == old(buffer)@ + bytes@.subrange(0, i as int),
        decreases bytes@.len() - i,
    {
        buffer.push(bytes[i]);
        assert(buffer@ =~= old(buffer)@ + bytes@.subrange(0, i as int + 1));
        i += 1;
    }
    assert(bytes@.subrange(0, i as int) =~= bytes@);
}

/// Appends `n` zero bytes to `buffer`.
pub fn append_zeros(buffer: &mut Vec<u8>, n: usize)
    ensures
        final(buffer)@ == old(buffer)@ + zeros(n as nat),
{
    let mut i: usize = 0;
    while i < n
        invariant
            i <= n,
            buffer@ == old(buffer)@ + zeros(i as nat),
        decreases n - i,
    {
        buffer.push(0);
        assert(buffer@ =~= old(buffer)@ + zeros((i + 1) as nat));
        i += 1;
    }
}

/// Appends a 16-bit value, most significant byte first.
pub fn append_be16(buffer: &mut Vec<u8>, x: u16)
    ensures
        final(buffer)@ == old(buffer)@ + be16(x),
{
    buffer.push((x / 256) as u8);
    buffer.push((x % 256) as u8);
    assert(buffer@ =~= old(buffer)@ + be16(x));
}

/// Appends a 32-bit value, most significant byte first.
pub fn append_be32(buffer: &mut Vec<u8>, x: u32)
    ensures
        final(buffer)@ == old(buffer)@ + be32(x),
{
    buffer.push((x / 0x100_0000) as u8);
    buffer.push((x / 0x1_0000 % 256) as u8);
    buffer.push((x / 0x100 % 256) as u8);
    buffer.push((x % 256) as u8);
    assert(buffer@ =~= old(buffer)@ + be32(x));
}

} // verus!
