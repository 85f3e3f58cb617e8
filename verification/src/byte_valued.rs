//! The plain-old-data capability: types whose values are carried as a fixed
//! number of bytes, so a view can load and store them as opaque bit patterns.

use vstd::prelude::*;
use vstd::bytes::*;
use crate::volatile_memory::is_pow2;

verus! {

/// A type whose values travel as exactly `spec_size()` bytes.
///
/// `to_bytes` and `from_bytes` are mutually inverse, so a store followed by a
/// load hands the same value back.  The size is a power of two, which is also
/// the natural alignment demanded of atomic access.
pub trait ByteValued: Sized + Copy {
    /// The number of bytes a value occupies.
    spec fn spec_size() -> usize;

    /// The byte encoding of a value.
    spec fn to_bytes_spec(self) -> Seq<u8>;

    /// The value a byte encoding stands for.
    spec fn from_bytes_spec(b: Seq<u8>) -> Self;

    /// The size is positive and a power of two.
    proof fn size_properties()
        ensures
            0 < Self::spec_size(),
            is_pow2(Self::spec_size()),
    ;

    /// Encodings have exactly `spec_size()` bytes.
    proof fn to_bytes_len(self)
        ensures
            self.to_bytes_spec().len() == Self::spec_size(),
    ;

    /// Decoding an encoding gives the value back.
    proof fn round_trip(self)
        ensures
            Self::from_bytes_spec(self.to_bytes_spec()) == self,
    ;

    /// The number of bytes a value occupies.
    fn value_size() -> (r: usize)
        ensures
            r == Self::spec_size(),
    ;

    /// Encodes the value.
    fn to_bytes(&self) -> (r: Vec<u8>)
        ensures
            r@ == self.to_bytes_spec(),
            r@.len() == Self::spec_size(),
    ;

    /// Decodes a value from its byte encoding.
    fn from_bytes(b: &[u8]) -> (r: Self)
        requires
            b@.len() == Self::spec_size(),
        ensures
            r == Self::from_bytes_spec(b@),
    ;
}

impl ByteValued for u8 {
    open spec fn spec_size() -> usize {
        1
    }

    open spec fn to_bytes_spec(self) -> Seq<u8> {
        seq![self]
    }

    open spec fn from_bytes_spec(b: Seq<u8>) -> u8 {
        b[0]
    }

    proof fn size_properties() {
        reveal_with_fuel(is_pow2, 5);
        assert(is_pow2(1));
    }

    proof fn to_bytes_len(self) {
    }

    proof fn round_trip(self) {
    }

    fn value_size() -> usize {
        1
    }

    fn to_bytes(&self) -> (r: Vec<u8>) {
        let r = vec![*self];
        proof {
            assert(r@ =~= seq![*self]);
        }
        r
    }

    fn from_bytes(b: &[u8]) -> u8 {
        b[0]
    }
}

impl ByteValued for u16 {
    open spec fn spec_size() -> usize {
        2
    }

    open spec fn to_bytes_spec(self) -> Seq<u8> {
        spec_u16_to_le_bytes(self)
    }

    open spec fn from_bytes_spec(b: Seq<u8>) -> u16 {
        spec_u16_from_le_bytes(b)
    }

    proof fn size_properties() {
        reveal_with_fuel(is_pow2, 5);
        assert(is_pow2(1) && is_pow2(2));
    }

    proof fn to_bytes_len(self) {
        lemma_auto_spec_u16_to_from_le_bytes();
    }

    proof fn round_trip(self) {
        lemma_auto_spec_u16_to_from_le_bytes();
        assert(spec_u16_to_le_bytes(self).len() == 2);
    }

    fn value_size() -> usize {
        2
    }

    fn to_bytes(&self) -> (r: Vec<u8>) {
        proof {
            lemma_auto_spec_u16_to_from_le_bytes();
        }
        u16_to_le_bytes(*self)
    }

    fn from_bytes(b: &[u8]) -> u16 {
        u16_from_le_bytes(b)
    }
}

impl ByteValued for u32 {
    open spec fn spec_size() -> usize {
        4
    }

    open spec fn to_bytes_spec(self) -> Seq<u8> {
        spec_u32_to_le_bytes(self)
    }

    open spec fn from_bytes_spec(b: Seq<u8>) -> u32 {
        spec_u32_from_le_bytes(b)
    }

    proof fn size_properties() {
        reveal_with_fuel(is_pow2, 5);
        assert(is_pow2(1) && is_pow2(2) && is_pow2(4));
    }

    proof fn to_bytes_len(self) {
        lemma_auto_spec_u32_to_from_le_bytes();
    }

    proof fn round_trip(self) {
        lemma_auto_spec_u32_to_from_le_bytes();
        assert(spec_u32_to_le_bytes(self).len() == 4);
    }

    fn value_size() -> usize {
        4
    }

    fn to_bytes(&self) -> (r: Vec<u8>) {
        proof {
            lemma_auto_spec_u32_to_from_le_bytes();
        }
        u32_to_le_bytes(*self)
    }

    fn from_bytes(b: &[u8]) -> u32 {
        u32_from_le_bytes(b)
    }
}

impl ByteValued for u64 {
    open spec fn spec_size() -> usize {
        8
    }

    open spec fn to_bytes_spec(self) -> Seq<u8> {
        spec_u64_to_le_bytes(self)
    }

    open spec fn from_bytes_spec(b: Seq<u8>) -> u64 {
        spec_u64_from_le_bytes(b)
    }

    proof fn size_properties() {
        reveal_with_fuel(is_pow2, 5);
        assert(is_pow2(1) && is_pow2(2) && is_pow2(4) && is_pow2(8));
    }

    proof fn to_bytes_len(self) {
        lemma_auto_spec_u64_to_from_le_bytes();
    }

    proof fn round_trip(self) {
        lemma_auto_spec_u64_to_from_le_bytes();
        assert(spec_u64_to_le_bytes(self).len() == 8);
    }

    fn value_size() -> usize {
        8
    }

    fn to_bytes(&self) -> (r: Vec<u8>) {
        proof {
            lemma_auto_spec_u64_to_from_le_bytes();
        }
        u64_to_le_bytes(*self)
    }

    fn from_bytes(b: &[u8]) -> u64 {
        u64_from_le_bytes(b)
    }
}

} // verus!
