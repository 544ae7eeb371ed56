//! Serial numbers of sixteen bits, compared on a circle (RFC 1982).

use core::cmp::Ordering;
use vstd::prelude::*;
use vstd::std_specs::cmp::PartialEqIs;
use vstd::std_specs::cmp::PartialEqSpecImpl;
use vstd::std_specs::cmp::PartialOrdIs;
use vstd::std_specs::cmp::PartialOrdSpecImpl;

verus! {

/// Two numbers that lie exactly this far apart are opposite on the circle.
pub const SEQUENCE_NUMBER_DIVIDING_POINT: u16 = 32768u16;

/// `s` comes before `o`: the way forward from `s` to `o` is shorter than half
/// the circle.
pub open spec fn serial_lt(s: u16, o: u16) -> bool {
    (s < o && o - s < 32768) || (s > o && s - o > 32768)
}

/// The order of two serial numbers. Numbers opposite on the circle compare as
/// `Greater` in both directions.
pub open spec fn serial_order(s: u16, o: u16) -> Ordering {
    if s == o {
        Ordering::Equal
    } else if serial_lt(s, o) {
        Ordering::Less
    } else {
        Ordering::Greater
    }
}

/// The number that follows `s`; 65535 is followed by 0.
pub open spec fn serial_succ(s: u16) -> u16 {
    if s == 65535 {
        0
    } else {
        (s + 1) as u16
    }
}

/// A sequence number of the protocol.
#[derive(Debug, Clone, Copy)]
pub struct SequenceNumber(pub u16);

impl SequenceNumber {
    /// Steps to the following number, wrapping from 65535 to 0.
    pub fn increment(&mut self)
        ensures
            final(self).0 == serial_succ(old(self).0),
    {
        let n: u16 = self.0;
        *self = SequenceNumber(n.wrapping_add(1));
    }

    /// The number as it travels on the wire.
    pub fn as_u16(&self) -> (n: u16)
        ensures
            n == self.0,
    {
        self.0
    }

    /// Compares on the circle.
    pub fn cmp(&self, other: &SequenceNumber) -> (r: Ordering)
        ensures
            r == serial_order(self.0, other.0),
    {
        let s: u16 = self.0;
        let o: u16 = other.0;
        if s == o {
            Ordering::Equal
        } else if (s < o && o - s < SEQUENCE_NUMBER_DIVIDING_POINT) || (s > o && s - o
            > SEQUENCE_NUMBER_DIVIDING_POINT) {
            Ordering::Less
        } else {
            Ordering::Greater
        }
    }
}

impl PartialEq for SequenceNumber {
    fn eq(&self, other: &SequenceNumber) -> (r: bool) {
        match self.cmp(other) {
            Ordering::Equal => true,
            _ => false,
        }
    }
}

impl PartialEqSpecImpl for SequenceNumber {
    open spec fn obeys_eq_spec() -> bool {
        true
    }

    open spec fn eq_spec(&self, other: &SequenceNumber) -> bool {
        self.0 == other.0
    }
}

impl Eq for SequenceNumber {

}

impl PartialOrd for SequenceNumber {
    fn partial_cmp(&self, other: &SequenceNumber) -> (r: Option<Ordering>) {
        Some(self.cmp(other))
    }
}

impl PartialOrdSpecImpl for SequenceNumber {
    open spec fn obeys_partial_cmp_spec() -> bool {
        true
    }

    open spec fn partial_cmp_spec(&self, other: &SequenceNumber) -> Option<Ordering> {
        Some(serial_order(self.0, other.0))
    }
}

/// Every sequence number equals itself.
pub proof fn law_equal_to_itself(u: u16)
    ensures
        SequenceNumber(u).is_eq(&SequenceNumber(u)),
{
}

/// A sequence number is less than each of the 32767 numbers that follow it
/// on the circle.
pub proof fn law_less_than_followers(u: u16, i: int)
    requires
        1 <= i <= 32767,
    ensures
        SequenceNumber(u).is_lt(&SequenceNumber(((u + i) % 65536) as u16)),
        !SequenceNumber(((u + i) % 65536) as u16).is_lt(&SequenceNumber(u)),
{
}

/// Stepping a sequence number gives one that is greater than it.
pub proof fn law_successor_is_greater(u: u16)
    ensures
        SequenceNumber(u).is_lt(&SequenceNumber(serial_succ(u))),
        serial_succ(u) == (u + 1) % 65536,
{
}

/// Of two numbers opposite on the circle each is greater than the other.
pub proof fn law_opposite_is_greater(u: u16)
    ensures
        SequenceNumber(u).is_gt(&SequenceNumber(((u + 32768) % 65536) as u16)),
        SequenceNumber(((u + 32768) % 65536) as u16).is_gt(&SequenceNumber(u)),
{
}

} // verus!
