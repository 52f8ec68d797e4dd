//! Strings of bits.

use vstd::prelude::*;

verus! {

/// A string of bits, packed into bytes from the most significant bit on. The last byte may hold
/// fewer than eight of them; its low bits are then unused.
#[derive(Debug)]
pub struct BitString {
    bytes: Vec<u8>,
    unused: u8,
}

/// A string of bits as contracts speak of it.
#[verifier::ext_equal]
pub struct BitsView {
    pub bytes: Seq<u8>,
    pub unused: u8,
}

/// The identifier of an account: 256 bits in every address that the library accepts as complete.
pub type AccountId = BitString;

impl View for BitString {
    type V = BitsView;

    closed spec fn view(&self) -> BitsView {
        BitsView { bytes: self.bytes@, unused: self.unused }
    }
}

impl BitsView {
    /// Fewer than eight bits are unused, and those of a byte that is there, in which they are
    /// zero.
    pub open spec fn wf(self) -> bool {
        &&& has_unused(self.bytes, self.unused)
        &&& self.unused > 0 ==> self.bytes.last() == cleared(self.bytes.last(), self.unused)
    }

    /// The number of bits.
    pub open spec fn bit_len(self) -> int {
        8 * self.bytes.len() - self.unused
    }
}

/// The last byte has so many bits that can be left unused.
pub open spec fn has_unused(bytes: Seq<u8>, unused: u8) -> bool {
    unused < 8 && (unused > 0 ==> bytes.len() > 0)
}

/// The byte with so many of its low bits set to zero.
pub open spec fn cleared(byte: u8, unused: u8) -> u8 {
    (byte >> unused) << unused
}

/// The bits of `bytes` without the last `unused` ones.
pub open spec fn without_last(bytes: Seq<u8>, unused: u8) -> BitsView {
    if unused > 0 {
        BitsView { bytes: bytes.drop_last().push(cleared(bytes.last(), unused)), unused }
    } else {
        whole_bytes(bytes)
    }
}

/// The bits of whole bytes.
pub open spec fn whole_bytes(bytes: Seq<u8>) -> BitsView {
    BitsView { bytes, unused: 0 }
}

/// The single bit one.
pub open spec fn one_bit() -> BitsView {
    BitsView { bytes: seq![0x80u8], unused: 7 }
}

impl BitString {
    #[verifier::type_invariant]
    spec fn inv(self) -> bool {
        self@.wf()
    }

    /// The bits of `bytes` without the last `unused` ones; `None` where the bytes have no such
    /// last bits.
    pub fn new(bytes: Vec<u8>, unused: u8) -> (bits: Option<Self>)
        ensures
            bits is Some <==> has_unused(bytes@, unused),
            bits matches Some(b) ==> b@ == without_last(bytes@, unused),
    {
        if unused == 0 {
            return Some(BitString { bytes, unused });
        }
        if unused >= 8 {
            return None;
        }
        let mut bytes = bytes;
        match bytes.pop() {
            Some(last) => {
                assert(cleared(cleared(last, unused), unused) == cleared(last, unused))
                    by (bit_vector)
                    requires
                        unused < 8,
                ;
                bytes.push((last >> unused) << unused);
                Some(BitString { bytes, unused })
            },
            None => None,
        }
    }

    /// The bits of whole bytes.
    pub fn from_bytes(bytes: Vec<u8>) -> (bits: Self)
        ensures
            bits@ == whole_bytes(bytes@),
    {
        BitString { bytes, unused: 0 }
    }

    /// No bits at all.
    pub fn empty() -> (bits: Self)
        ensures
            bits@ == whole_bytes(Seq::empty()),
    {
        BitString { bytes: Vec::new(), unused: 0 }
    }

    /// The single bit one.
    pub fn one() -> (bits: Self)
        ensures
            bits@ == one_bit(),
    {
        let mut bytes: Vec<u8> = Vec::new();
        bytes.push(0x80u8);
        assert(cleared(0x80u8, 7u8) == 0x80u8) by (bit_vector);
        let bits = BitString { bytes, unused: 7 };
        assert(bits@ =~= one_bit());
        bits
    }

    /// The bytes that hold the bits.
    pub fn bytes(&self) -> (bytes: &[u8])
        ensures
            bytes@ == self@.bytes,
    {
        self.bytes.as_slice()
    }

    /// How many bits of the last byte are unused.
    pub fn unused(&self) -> (unused: u8)
        ensures
            unused == self@.unused,
    {
        self.unused
    }

    /// Whether the string has 256 bits; it is then 32 whole bytes.
    pub fn has_256_bits(&self) -> (yes: bool)
        ensures
            yes == (self@.bit_len() == 256),
            yes ==> self@ == whole_bytes(self@.bytes) && self@.bytes.len() == 32,
    {
        proof {
            use_type_invariant(self);
        }
        self.bytes.len() == 32 && self.unused == 0
    }
}

impl Clone for BitString {
    fn clone(&self) -> (copy: Self)
        ensures
            copy@ == self@,
    {
        proof {
            use_type_invariant(self);
        }
        BitString { bytes: vstd::slice::slice_to_vec(self.bytes.as_slice()), unused: self.unused }
    }
}

} // verus!
