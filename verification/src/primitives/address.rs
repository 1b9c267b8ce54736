//! 20-byte account addresses.
use vstd::prelude::*;

use super::bytes::{
    be_bytes, lemma_be_bytes_len, lemma_be_bytes_of_value, lemma_be_value_bound,
    lemma_be_value_of_bytes_small, lemma_pow256_values, push_be, read_be,
};

verus! {

/// A 20-byte account address, held as its first 8, next 8 and last 4 bytes
/// read big-endian.
#[derive(Clone, Copy, Debug, PartialEq, Eq, Structural, Hash)]
pub struct Address {
    hi: u64,
    mid: u64,
    lo: u32,
}

impl View for Address {
    type V = Seq<u8>;

    closed spec fn view(&self) -> Seq<u8> {
        be_bytes(self.hi as nat, 8) + be_bytes(self.mid as nat, 8) + be_bytes(self.lo as nat, 4)
    }
}

impl Address {
    /// An address has 20 bytes.
    pub proof fn lemma_len(self)
        ensures
            self@.len() == 20,
    {
        lemma_be_bytes_len(self.hi as nat, 8);
        lemma_be_bytes_len(self.mid as nat, 8);
        lemma_be_bytes_len(self.lo as nat, 4);
    }

    /// Addresses with the same bytes are the same.
    pub proof fn lemma_view_injective(self, other: Address)
        requires
            self@ == other@,
        ensures
            self == other,
    {
        self.lemma_len();
        lemma_pow256_values();
        let s = self@;
        lemma_be_bytes_len(self.hi as nat, 8);
        lemma_be_bytes_len(self.mid as nat, 8);
        lemma_be_bytes_len(self.lo as nat, 4);
        lemma_be_bytes_len(other.hi as nat, 8);
        lemma_be_bytes_len(other.mid as nat, 8);
        lemma_be_bytes_len(other.lo as nat, 4);
        assert(s.subrange(0, 8) =~= be_bytes(self.hi as nat, 8));
        assert(s.subrange(0, 8) =~= be_bytes(other.hi as nat, 8));
        assert(s.subrange(8, 16) =~= be_bytes(self.mid as nat, 8));
        assert(s.subrange(8, 16) =~= be_bytes(other.mid as nat, 8));
        assert(s.subrange(16, 20) =~= be_bytes(self.lo as nat, 4));
        assert(s.subrange(16, 20) =~= be_bytes(other.lo as nat, 4));
        lemma_be_value_of_bytes_small(self.hi as nat, 8);
        lemma_be_value_of_bytes_small(other.hi as nat, 8);
        lemma_be_value_of_bytes_small(self.mid as nat, 8);
        lemma_be_value_of_bytes_small(other.mid as nat, 8);
        lemma_be_value_of_bytes_small(self.lo as nat, 4);
        lemma_be_value_of_bytes_small(other.lo as nat, 4);
    }

    /// The address made of the 20 bytes of `bytes`; other lengths are refused
    /// by `requires`.
    pub fn from_slice(bytes: &[u8]) -> (r: Address)
        requires
            bytes@.len() == 20,
        ensures
            r@ == bytes@,
    {
        let hi = read_be(bytes, 0, 8);
        let mid = read_be(bytes, 8, 8);
        let lo = read_be(bytes, 16, 4);
        proof {
            lemma_pow256_values();
            lemma_be_value_bound(bytes@.subrange(16, 20));
        }
        let r = Address { hi, mid, lo: lo as u32 };
        proof {
            lemma_be_bytes_of_value(bytes@.subrange(0, 8));
            lemma_be_bytes_of_value(bytes@.subrange(8, 16));
            lemma_be_bytes_of_value(bytes@.subrange(16, 20));
            assert(r@ =~= bytes@);
        }
        r
    }

    /// The address made of `bytes`.
    pub fn new(bytes: [u8; 20]) -> (r: Address)
        ensures
            r@ == bytes@,
    {
        Address::from_slice(bytes.as_slice())
    }

    /// The address whose 20 bytes are all `b`.
    pub fn repeat_byte(b: u8) -> (r: Address)
        ensures
            r@ == Seq::new(20, |i: int| b),
    {
        let mut bytes: Vec<u8> = Vec::new();
        let mut i: usize = 0;
        while i < 20
            invariant
                i <= 20,
                bytes@ == Seq::new(i as nat, |k: int| b),
            decreases 20 - i,
        {
            bytes.push(b);
            assert(bytes@ =~= Seq::new((i + 1) as nat, |k: int| b));
            i = i + 1;
        }
        Address::from_slice(bytes.as_slice())
    }

    /// The 20 bytes of the address.
    pub fn to_vec(&self) -> (r: Vec<u8>)
        ensures
            r@ == self@,
    {
        let mut out: Vec<u8> = Vec::new();
        push_be(&mut out, self.hi, 8);
        push_be(&mut out, self.mid, 8);
        push_be(&mut out, self.lo as u64, 4);
        assert(out@ =~= self@);
        out
    }
}

} // verus!
