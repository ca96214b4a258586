//! Hardware (MAC) addresses.

use vstd::prelude::*;

verus! {

/// A six-octet hardware address, most significant octet first.
#[derive(Clone, Copy, Debug, PartialEq, Eq, Structural, Hash)]
pub struct HardwareAddress(pub u8, pub u8, pub u8, pub u8, pub u8, pub u8);

impl HardwareAddress {
    /// The six octets in wire order.
    pub open spec fn octets(self) -> Seq<u8> {
        seq![self.0, self.1, self.2, self.3, self.4, self.5]
    }

    /// The address with all bits set, which every station accepts.
    pub open spec fn broadcast_spec() -> HardwareAddress {
        HardwareAddress(0xff, 0xff, 0xff, 0xff, 0xff, 0xff)
    }

    /// The address with these six octets, in wire order.
    pub fn new(a: u8, b: u8, c: u8, d: u8, e: u8, f: u8) -> (r: HardwareAddress)
        ensures
            r == HardwareAddress(a, b, c, d, e, f),
    {
        HardwareAddress(a, b, c, d, e, f)
    }

    /// The broadcast address.
    pub fn broadcast() -> (r: HardwareAddress)
        ensures
            r == Self::broadcast_spec(),
    {
        HardwareAddress(0xff, 0xff, 0xff, 0xff, 0xff, 0xff)
    }

    /// The six octets in wire order.
    pub fn to_octets(&self) -> (r: [u8; 6])
        ensures
            r@ == self.octets(),
    {
        let r: [u8; 6] = [self.0, self.1, self.2, self.3, self.4, self.5];
        assert(r@ =~= self.octets());
        r
    }

    /// True when the first six bytes of `bytes` spell this address.
    pub fn matches_prefix(&self, bytes: &[u8]) -> (r: bool)
        ensures
            r == (bytes@.len() >= 6 && bytes@.subrange(0, 6) == self.octets()),
    {
        if bytes.len() < 6 {
            return false;
        }
        let r = bytes[0] == self.0 && bytes[1] == self.1 && bytes[2] == self.2
            && bytes[3] == self.3 && bytes[4] == self.4 && bytes[5] == self.5;
        proof {
            let s = bytes@.subrange(0, 6);
            if r {
                assert(s =~= self.octets());
            } else {
                if s == self.octets() {
                    assert(s[0] == self.octets()[0]);
                    assert(s[1] == self.octets()[1]);
                    assert(s[2] == self.octets()[2]);
                    assert(s[3] == self.octets()[3]);
                    assert(s[4] == self.octets()[4]);
                    assert(s[5] == self.octets()[5]);
                }
            }
        }
        r
    }
}

} // verus!
