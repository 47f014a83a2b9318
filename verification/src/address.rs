//! IPv4 addresses, the addresses of the watched interface, and the direction
//! of a frame between them.

use crate::text::{decimal, push_decimal};
use std::collections::HashSet;
use vstd::prelude::*;

verus! {

broadcast use vstd::std_specs::hash::group_hash_axioms;

/// An IPv4 address, held as its 32 bits with the first octet on top.
#[derive(Clone, Copy, Debug, PartialEq, Eq, Structural, Hash)]
pub struct Ipv4Address {
    pub bits: u32,
}

/// The number that four octets make, first octet on top.
pub open spec fn bits_of(a: u8, b: u8, c: u8, d: u8) -> int {
    a as int * 16777216 + b as int * 65536 + c as int * 256 + d as int
}

impl Ipv4Address {
    /// The four octets, first to last.
    pub open spec fn octets(self) -> Seq<u8> {
        seq![
            (self.bits / 16777216) as u8,
            (self.bits / 65536 % 256) as u8,
            (self.bits / 256 % 256) as u8,
            (self.bits % 256) as u8,
        ]
    }

    /// 255.255.255.255.
    pub open spec fn is_broadcast(self) -> bool {
        self.bits == 0xffff_ffff
    }

    /// 0.0.0.0.
    pub open spec fn is_unspecified(self) -> bool {
        self.bits == 0
    }

    /// An address whose first octet lies in 224..=239.
    pub open spec fn is_multicast(self) -> bool {
        224 <= self.bits / 16777216 <= 239
    }

    /// Whether a peer can have this address: it is neither broadcast nor
    /// multicast nor unspecified.
    pub open spec fn is_peer(self) -> bool {
        !self.is_broadcast() && !self.is_multicast() && !self.is_unspecified()
    }

    /// The address in dotted decimal form.
    pub open spec fn dotted(self) -> Seq<char> {
        let o = self.octets();
        decimal(o[0] as nat).push('.') + decimal(o[1] as nat) + seq!['.'] + decimal(o[2] as nat)
            + seq!['.'] + decimal(o[3] as nat)
    }

    /// The address `a.b.c.d`.
    pub fn from_octets(a: u8, b: u8, c: u8, d: u8) -> (address: Self)
        ensures
            address.bits == bits_of(a, b, c, d),
            address.octets() == seq![a, b, c, d],
    {
        let bits: u32 = a as u32 * 16777216 + b as u32 * 65536 + c as u32 * 256 + d as u32;
        Ipv4Address { bits }
    }

    /// The four octets, first to last.
    pub fn to_octets(&self) -> (octets: [u8; 4])
        ensures
            octets@ == self.octets(),
    {
        [
            (self.bits / 16777216) as u8,
            (self.bits / 65536 % 256) as u8,
            (self.bits / 256 % 256) as u8,
            (self.bits % 256) as u8,
        ]
    }

    /// Whether a frame to or from this address can be fingerprinted.
    pub fn can_be_peer(&self) -> (peer: bool)
        ensures
            peer == self.is_peer(),
    {
        let first = self.bits / 16777216;
        !(self.bits == 0xffff_ffff || (224 <= first && first <= 239) || self.bits == 0)
    }

    /// Writes the address in dotted decimal form.
    pub fn to_text(&self) -> (text: String)
        ensures
            text@ == self.dotted(),
    {
        let octets = self.to_octets();
        let mut text = String::new();
        push_decimal(&mut text, octets[0] as u64);
        text.push('.');
        push_decimal(&mut text, octets[1] as u64);
        text.push('.');
        push_decimal(&mut text, octets[2] as u64);
        text.push('.');
        push_decimal(&mut text, octets[3] as u64);
        text
    }
}

/// The addresses bound to the watched interface.
pub struct LocalAddressSet {
    addresses: HashSet<u32>,
}

impl View for LocalAddressSet {
    type V = Set<Ipv4Address>;

    closed spec fn view(&self) -> Set<Ipv4Address> {
        Set::new(|a: Ipv4Address| self.addresses@.contains(a.bits))
    }
}

impl LocalAddressSet {
    /// The empty set.
    pub fn new() -> (set: Self)
        ensures
            set@ == Set::<Ipv4Address>::empty(),
    {
        let set = LocalAddressSet { addresses: HashSet::new() };
        assert(set@ =~= Set::<Ipv4Address>::empty());
        set
    }

    /// Adds one address.
    pub fn insert(&mut self, address: Ipv4Address)
        ensures
            final(self)@ == old(self)@.insert(address),
    {
        self.addresses.insert(address.bits);
        assert(self@ =~= old(self)@.insert(address));
    }

    /// The set of the addresses in `addresses`.
    pub fn from_slice(addresses: &[Ipv4Address]) -> (set: Self)
        ensures
            set@ == addresses@.to_set(),
    {
        let mut set = LocalAddressSet::new();
        let mut i: usize = 0;
        while i < addresses.len()
            invariant
                i <= addresses.len(),
                set@ == addresses@.take(i as int).to_set(),
            decreases addresses.len() - i,
        {
            set.insert(addresses[i]);
            assert(addresses@.take(i + 1) == addresses@.take(i as int).push(addresses@[i as int]));
            assert(addresses@.take(i + 1).to_set() =~= addresses@.take(i as int).to_set().insert(
                addresses@[i as int],
            )) by {
                let longer = addresses@.take(i + 1);
                let shorter = addresses@.take(i as int);
                assert forall|a: Ipv4Address| longer.to_set().contains(a) implies shorter.to_set()
                    .insert(addresses@[i as int]).contains(a) by {
                    let k = choose|k: int| 0 <= k < longer.len() && longer[k] == a;
                    if k < i {
                        assert(shorter[k] == a);
                    }
                }
                assert forall|a: Ipv4Address|
                    shorter.to_set().insert(addresses@[i as int]).contains(a) implies longer.to_set()
                        .contains(a) by {
                    if a == addresses@[i as int] {
                        assert(longer[i as int] == a);
                    } else {
                        let k = choose|k: int| 0 <= k < shorter.len() && shorter[k] == a;
                        assert(longer[k] == a);
                    }
                }
            }
            i += 1;
        }
        assert(addresses@.take(addresses.len() as int) == addresses@);
        set
    }

    /// Whether `address` is one of the local addresses.
    pub fn contains(&self, address: Ipv4Address) -> (found: bool)
        ensures
            found == self@.contains(address),
    {
        self.addresses.contains(&address.bits)
    }
}

/// Where a frame goes, seen from the watched interface.
#[derive(Clone, Copy, Debug, PartialEq, Eq, Structural)]
pub enum Direction {
    /// The frame goes to a local address; the peer is its source.
    Inbound { remote: Ipv4Address },
    /// The frame comes from a local address; the peer is its destination.
    Outbound { remote: Ipv4Address },
    /// Neither end is local.
    NotLocal,
}

/// The direction of a frame from `source` to `destination`. A local
/// destination decides first: the source is looked at only where the
/// destination is not local.
pub open spec fn direction_of(
    source: Ipv4Address,
    destination: Ipv4Address,
    local: Set<Ipv4Address>,
) -> Direction {
    if local.contains(destination) {
        Direction::Inbound { remote: source }
    } else if local.contains(source) {
        Direction::Outbound { remote: destination }
    } else {
        Direction::NotLocal
    }
}

/// Classifies a frame by its two addresses.
pub fn classify(source: Ipv4Address, destination: Ipv4Address, local: &LocalAddressSet) -> (d:
    Direction)
    ensures
        d == direction_of(source, destination, local@),
        local@.contains(source) && local@.contains(destination) ==> d == (Direction::Inbound {
            remote: source,
        }),
        !local@.contains(source) && !local@.contains(destination) ==> d == Direction::NotLocal,
{
    if local.contains(destination) {
        Direction::Inbound { remote: source }
    } else if local.contains(source) {
        Direction::Outbound { remote: destination }
    } else {
        Direction::NotLocal
    }
}

} // verus!
