//! IPv6 address blocks and source-address rotation.
//!
//! A block is a network prefix; a transport draws a fresh random address
//! inside the block for every clone, so consecutive requests appear to
//! originate from different source addresses.

use vstd::prelude::*;

verus! {

/// An IPv6 network prefix: the pool from which rotated source addresses
/// are drawn. `addr` holds the 128 address bits, `prefix_len` the number
/// of leading bits that every address of the block shares.
#[derive(Clone, Copy, PartialEq, Eq, Structural, Debug)]
pub struct AddressBlock {
    pub addr: u128,
    pub prefix_len: u8,
}

impl AddressBlock {
    /// A block is well formed when its prefix length fits an IPv6 address.
    pub open spec fn wf(self) -> bool {
        self.prefix_len <= 128
    }

    /// The mask of the host bits: the low `128 - prefix_len` bits.
    pub open spec fn spec_host_mask(self) -> u128 {
        if self.prefix_len == 0 {
            0xffff_ffff_ffff_ffff_ffff_ffff_ffff_ffffu128
        } else {
            !(0xffff_ffff_ffff_ffff_ffff_ffff_ffff_ffffu128 << ((128 - self.prefix_len) as u128))
        }
    }

    /// The address obtained by drawing `entropy` for the host bits.
    pub open spec fn spec_rotated(self, entropy: u128) -> u128 {
        (entropy & self.spec_host_mask()) | self.addr
    }

    /// Membership in the block: the network bits agree with the base.
    pub open spec fn contains(self, a: u128) -> bool {
        a & !self.spec_host_mask() == self.addr & !self.spec_host_mask()
    }

    /// The mask of the host bits, executable form.
    pub fn host_mask(&self) -> (m: u128)
        requires
            self.wf(),
        ensures
            m == self.spec_host_mask(),
    {
        if self.prefix_len == 0 {
            u128::MAX
        } else {
            !(u128::MAX << ((128 - self.prefix_len) as u128))
        }
    }

    /// Draws the source address for the given entropy: the host bits come
    /// from the entropy, the network bits from the block base. The result
    /// always lies within the block.
    pub fn rotated_address(&self, entropy: u128) -> (a: u128)
        requires
            self.wf(),
        ensures
            a == self.spec_rotated(entropy),
            self.contains(a),
    {
        let m = self.host_mask();
        let a = (entropy & m) | self.addr;
        proof {
            lemma_rotated_address_in_block(*self, entropy);
        }
        a
    }
}

/// Law: every address drawn from a well-formed block lies within the block:
/// its bits outside the host mask agree with the block base, whatever the
/// entropy was.
pub proof fn lemma_rotated_address_in_block(b: AddressBlock, entropy: u128)
    requires
        b.wf(),
    ensures
        b.contains(b.spec_rotated(entropy)),
{
    let m = b.spec_host_mask();
    let base = b.addr;
    assert(((entropy & m) | base) & !m == base & !m) by (bit_vector);
}

/// Law: for a block whose base has no host bits set, two draws that differ
/// inside the host mask give two distinct addresses. (Draws that agree on
/// the host bits give the same address, so distinctness of all clones is
/// only probabilistic; this pins down the deterministic core.)
pub proof fn lemma_rotated_addresses_distinct(b: AddressBlock, e1: u128, e2: u128)
    requires
        b.wf(),
        b.addr & b.spec_host_mask() == 0,
        e1 & b.spec_host_mask() != e2 & b.spec_host_mask(),
    ensures
        b.spec_rotated(e1) != b.spec_rotated(e2),
{
    let m = b.spec_host_mask();
    let base = b.addr;
    assert((base & m == 0 && e1 & m != e2 & m) ==> ((e1 & m) | base) != ((e2 & m) | base))
        by (bit_vector);
}

/// Relies on ipnet::Ipv6Net::from_str for parsing CIDR notation; its parser
/// rejects any prefix length above 128.
#[verifier::external_body]
pub fn parse_address_block(s: &str) -> (r: Option<AddressBlock>)
    ensures
        r is Some ==> r.unwrap().wf(),
{
    match s.parse::<ipnet::Ipv6Net>() {
        Ok(n) => Some(AddressBlock { addr: u128::from(n.addr()), prefix_len: n.prefix_len() }),
        Err(_) => None,
    }
}

} // verus!
