//! An IPv4 address as its four octets, packed most significant first.

use crate::config::{decimal_string, decimal_text};
use vstd::prelude::*;

verus! {

/// An IPv4 address as its four octets.
#[derive(Debug, Clone, Copy, PartialEq, Eq)]
pub struct IPAddress {
    oct_one: u8,
    oct_two: u8,
    oct_three: u8,
    oct_four: u8,
}

impl IPAddress {
    /// The address `oct_one.oct_two.oct_three.oct_four`.
    pub fn new(oct_one: u8, oct_two: u8, oct_three: u8, oct_four: u8) -> (r: IPAddress)
        ensures
            r.octets() == seq![oct_one, oct_two, oct_three, oct_four],
    {
        IPAddress { oct_one, oct_two, oct_three, oct_four }
    }

    /// The four octets, first to last.
    pub closed spec fn octets(&self) -> Seq<u8> {
        seq![self.oct_one, self.oct_two, self.oct_three, self.oct_four]
    }

    /// The four bytes of the address on the wire.
    pub fn pack(&self) -> (r: Vec<u8>)
        ensures
            r@ == self.octets(),
    {
        let r = vec![self.oct_one, self.oct_two, self.oct_three, self.oct_four];
        assert(r@ =~= self.octets());
        r
    }
}


/// The dotted-quad text of an IPv4 address held as a big-endian 32-bit number.
pub open spec fn ipv4_text_of(address: u32) -> Seq<char> {
    decimal_text(((address as int / 16777216) % 256) as nat) + "."@ + decimal_text(
        ((address as int / 65536) % 256) as nat,
    ) + "."@ + decimal_text(((address as int / 256) % 256) as nat) + "."@ + decimal_text(
        (address as int % 256) as nat,
    )
}

/// The text of an IPv4 address, see [ipv4_text_of].
pub fn ipv4_text(address: u32) -> (r: String)
    ensures
        r@ == ipv4_text_of(address),
{
    let mut s = decimal_string(((address / 16777216) % 256) as u64);
    s.append(".");
    let b = decimal_string(((address / 65536) % 256) as u64);
    s.append(b.as_str());
    s.append(".");
    let c = decimal_string(((address / 256) % 256) as u64);
    s.append(c.as_str());
    s.append(".");
    let d = decimal_string((address % 256) as u64);
    s.append(d.as_str());
    s
}

} // verus!
