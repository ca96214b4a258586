//! Reading one line of a target list: hexadecimal octets separated by
//! colons, six at most; a line with fewer stands for a partial address that
//! is completed from bytes the caller supplies.

use vstd::prelude::*;
use vstd::slice::slice_subrange;
use crate::address::HardwareAddress;

verus! {

/// The byte that separates the octets of an address.
pub const SEPARATOR: u8 = 0x3a;

/// The sign that may stand before an octet's digits.
pub const PLUS: u8 = 0x2b;

/// Number of octets in an address.
pub const ADDRESS_LENGTH: usize = 6;

/// Reasons for which a line is refused.
#[derive(Clone, Copy, Debug, PartialEq, Eq, Structural)]
pub enum LineError {
    /// A field between colons is not a hexadecimal number up to `ff`.
    MalformedOctet,
    /// The line holds more than six octets.
    TooManyOctets,
}

/// The value of a hexadecimal digit in ASCII, either case.
pub open spec fn hex_digit_value(c: u8) -> Option<int> {
    if 0x30 <= c <= 0x39 {
        Some(c - 0x30)
    } else if 0x61 <= c <= 0x66 {
        Some(c - 0x61 + 10)
    } else if 0x41 <= c <= 0x46 {
        Some(c - 0x41 + 10)
    } else {
        None
    }
}

/// The number that a run of hexadecimal digits spells, if all are digits.
pub open spec fn hex_value(digits: Seq<u8>) -> Option<int>
    decreases digits.len(),
{
    if digits.len() == 0 {
        Some(0)
    } else {
        match (hex_value(digits.drop_last()), hex_digit_value(digits.last())) {
            (Some(high), Some(low)) => Some(high * 16 + low),
            _ => None,
        }
    }
}

/// The digits of a field: the field without a leading plus sign.
pub open spec fn digits_of(text: Seq<u8>) -> Seq<u8> {
    if text.len() > 0 && text[0] == PLUS {
        text.skip(1)
    } else {
        text
    }
}

/// The octet that a field spells: one or more hexadecimal digits, with any
/// number of leading zeros, whose value is 255 at most.
pub open spec fn octet_value(text: Seq<u8>) -> Option<u8> {
    let digits = digits_of(text);
    if digits.len() == 0 {
        None
    } else {
        match hex_value(digits) {
            Some(v) => if v <= 255 {
                Some(v as u8)
            } else {
                None
            },
            None => None,
        }
    }
}

/// The fields of a line: the runs of bytes between its colons. A line
/// without a colon is one field; an empty line is one empty field.
pub open spec fn fields(line: Seq<u8>) -> Seq<Seq<u8>>
    decreases line.len(),
{
    if line.len() == 0 {
        seq![Seq::<u8>::empty()]
    } else {
        let before = fields(line.drop_last());
        if line.last() == SEPARATOR {
            before.push(Seq::<u8>::empty())
        } else {
            before.drop_last().push(before.last().push(line.last()))
        }
    }
}

/// True when every field spells an octet.
pub open spec fn all_octets(parts: Seq<Seq<u8>>) -> bool {
    forall|k: int| 0 <= k < parts.len() ==> octet_value(#[trigger] parts[k]) is Some
}

/// The octets that the fields spell, in order.
pub open spec fn octets_of(parts: Seq<Seq<u8>>) -> Seq<u8> {
    Seq::new(parts.len(), |k: int| octet_value(parts[k]).unwrap())
}

/// What a line says: its octets, or why it is refused. A malformed field
/// is named before the number of fields is.
pub open spec fn line_octets(line: Seq<u8>) -> Result<Seq<u8>, LineError> {
    if !all_octets(fields(line)) {
        Err(LineError::MalformedOctet)
    } else if fields(line).len() > ADDRESS_LENGTH {
        Err(LineError::TooManyOctets)
    } else {
        Ok(octets_of(fields(line)))
    }
}

/// The address that begins with `octets` and goes on with the first bytes
/// of `fill`, as many as are missing.
pub open spec fn completed(octets: Seq<u8>, fill: Seq<u8>) -> HardwareAddress {
    let all = octets + fill;
    HardwareAddress(all[0], all[1], all[2], all[3], all[4], all[5])
}

/// The digits read so far never spell more than all the digits do.
pub proof fn lemma_hex_prefix(digits: Seq<u8>, i: int)
    requires
        0 <= i <= digits.len(),
    ensures
        hex_value(digits) matches Some(v) ==> (hex_value(digits.take(i)) matches Some(a) && 0 <= a
            <= v),
    decreases digits.len(),
{
    if i == digits.len() {
        assert(digits.take(i) =~= digits);
        if digits.len() > 0 {
            lemma_hex_prefix(digits.drop_last(), i - 1);
        }
    } else {
        assert(digits.drop_last().take(i) =~= digits.take(i));
        lemma_hex_prefix(digits.drop_last(), i);
    }
}

/// Reads a hexadecimal digit.
pub fn hex_digit(c: u8) -> (r: Option<u8>)
    ensures
        r is Some <==> hex_digit_value(c) is Some,
        r matches Some(d) ==> hex_digit_value(c) == Some(d as int) && d < 16,
{
    if 0x30 <= c && c <= 0x39 {
        Some(c - 0x30)
    } else if 0x61 <= c && c <= 0x66 {
        Some(c - 0x61 + 10)
    } else if 0x41 <= c && c <= 0x46 {
        Some(c - 0x41 + 10)
    } else {
        None
    }
}

/// Reads one field as an octet.
pub fn parse_octet(text: &[u8]) -> (r: Option<u8>)
    ensures
        r == octet_value(text@),
{
    let start: usize = if text.len() > 0 && text[0] == PLUS { 1 } else { 0 };
    let digits = slice_subrange(text, start, text.len());
    assert(digits@ =~= digits_of(text@));
    if digits.len() == 0 {
        return None;
    }
    let mut value: u16 = 0;
    let mut i: usize = 0;
    assert(digits@.take(0) =~= Seq::<u8>::empty());
    while i < digits.len()
        invariant
            i <= digits@.len(),
            digits@ == digits_of(text@),
            value <= 255,
            hex_value(digits@.take(i as int)) == Some(value as int),
        decreases digits@.len() - i,
    {
        proof {
            let read = digits@.take(i as int + 1);
            assert(read.drop_last() =~= digits@.take(i as int));
            assert(read.last() == digits@[i as int]);
            assert(hex_value(read) == match (
                hex_value(read.drop_last()),
                hex_digit_value(read.last()),
            ) {
                (Some(high), Some(low)) => Some(high * 16 + low),
                _ => None,
            });
            lemma_hex_prefix(digits@, i as int + 1);
        }
        match hex_digit(digits[i]) {
            None => {
                return None;
            },
            Some(d) => {
                let next: u16 = value * 16 + d as u16;
                if next > 255 {
                    return None;
                }
                value = next;
            },
        }
        i += 1;
    }
    assert(digits@.take(i as int) =~= digits@);
    Some(value as u8)
}

/// Reads a line as the octets of an address, whole or partial.
pub fn parse_mac_line(line: &[u8]) -> (r: Result<Vec<u8>, LineError>)
    ensures
        match line_octets(line@) {
            Ok(octets) => r is Ok && r->Ok_0@ == octets,
            Err(e) => r is Err && r->Err_0 == e,
        },
        r matches Ok(octets) ==> 1 <= octets@.len() <= ADDRESS_LENGTH,
{
    let mut octets: Vec<u8> = Vec::new();
    let mut well_formed = true;
    let mut count: usize = 0;
    let mut start: usize = 0;
    let mut i: usize = 0;
    let ghost mut done: Seq<Seq<u8>> = Seq::empty();
    proof {
        assert(line@.take(0) =~= Seq::<u8>::empty());
        assert(line@.subrange(0, 0) =~= Seq::<u8>::empty());
        assert(fields(line@.take(0)) =~= done.push(line@.subrange(0, 0)));
    }
    while i < line.len()
        invariant
            start <= i <= line@.len(),
            count == done.len(),
            count <= i,
            fields(line@.take(i as int)) == done.push(line@.subrange(start as int, i as int)),
            well_formed == all_octets(done),
            well_formed && count <= ADDRESS_LENGTH ==> octets@ == octets_of(done),
            count > ADDRESS_LENGTH ==> octets@.len() == 0,
        decreases line@.len() - i,
    {
        proof {
            assert(line@.take(i as int + 1).drop_last() =~= line@.take(i as int));
            assert(line@.take(i as int + 1).last() == line@[i as int]);
        }
        if line[i] == SEPARATOR {
            let field = slice_subrange(line, start, i);
            let ghost before = done;
            let parsed = parse_octet(field);
            proof {
                done = done.push(field@);
                assert(line@.subrange(i as int + 1, i as int + 1) =~= Seq::<u8>::empty());
                assert forall|k: int| 0 <= k < before.len() implies done[k] == before[k] by {}
                assert(done[before.len() as int] == field@);
                if well_formed && parsed is Some {
                    assert(all_octets(done));
                } else if !well_formed {
                    let k = choose|k: int| 0 <= k < before.len() && !(octet_value(before[k]) is Some);
                    assert(done[k] == before[k]);
                } else {
                    assert(!(octet_value(done[before.len() as int]) is Some));
                }
            }
            count += 1;
            match parsed {
                Some(octet) => {
                    if well_formed && count <= ADDRESS_LENGTH {
                        octets.push(octet);
                        assert(octets@ =~= octets_of(done));
                    } else {
                        octets = Vec::new();
                    }
                },
                None => {
                    well_formed = false;
                    octets = Vec::new();
                },
            }
            start = i + 1;
        } else {
            assert(line@.subrange(start as int, i as int + 1) =~= line@.subrange(
                start as int,
                i as int,
            ).push(line@[i as int]));
            assert(done.push(line@.subrange(start as int, i as int)).drop_last() =~= done);
        }
        i += 1;
    }
    let field = slice_subrange(line, start, line.len());
    let parsed = parse_octet(field);
    proof {
        assert(line@.take(i as int) =~= line@);
        let parts = fields(line@);
        assert(parts == done.push(field@));
        assert forall|k: int| 0 <= k < done.len() implies parts[k] == done[k] by {}
        assert(parts[done.len() as int] == field@);
        if well_formed && parsed is Some {
            assert(all_octets(parts));
        } else if !well_formed {
            let k = choose|k: int| 0 <= k < done.len() && !(octet_value(done[k]) is Some);
            assert(parts[k] == done[k]);
        } else {
            assert(!(octet_value(parts[done.len() as int]) is Some));
        }
    }
    match parsed {
        Some(octet) => {
            if !well_formed {
                Err(LineError::MalformedOctet)
            } else if count >= ADDRESS_LENGTH {
                Err(LineError::TooManyOctets)
            } else {
                octets.push(octet);
                assert(octets@ =~= octets_of(fields(line@)));
                Ok(octets)
            }
        },
        None => Err(LineError::MalformedOctet),
    }
}

/// Completes `octets` to an address with the first bytes of `fill`.
pub fn complete_address(octets: &[u8], fill: &[u8; 6]) -> (r: HardwareAddress)
    requires
        octets@.len() <= ADDRESS_LENGTH,
    ensures
        r == completed(octets@, fill@),
{
    let n = octets.len();
    let a = if n > 0 { octets[0] } else { fill[0] };
    let b = if n > 1 { octets[1] } else { fill[1 - n] };
    let c = if n > 2 { octets[2] } else { fill[2 - n] };
    let d = if n > 3 { octets[3] } else { fill[3 - n] };
    let e = if n > 4 { octets[4] } else { fill[4 - n] };
    let f = if n > 5 { octets[5] } else { fill[5 - n] };
    HardwareAddress(a, b, c, d, e, f)
}

/// Reads a line as an address; a partial address is completed with the
/// first bytes of `fill`.
pub fn address_from_line(line: &[u8], fill: &[u8; 6]) -> (r: Result<HardwareAddress, LineError>)
    ensures
        r == match line_octets(line@) {
            Ok(octets) => Ok::<HardwareAddress, LineError>(completed(octets, fill@)),
            Err(e) => Err(e),
        },
{
    match parse_mac_line(line) {
        Ok(octets) => Ok(complete_address(octets.as_slice(), fill)),
        Err(e) => Err(e),
    }
}

} // verus!
