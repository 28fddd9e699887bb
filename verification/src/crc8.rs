//! The engine of eight bits.

use vstd::prelude::*;
use crate::checksum::CRC;
use crate::register::{fold, fold_byte, shift_bits, Register};

verus! {

/// The polynomial of an engine made by `default`.
pub const DEFAULT_POLYNOMIAL: u8 = 0b0000_0111;

/// A checksum engine with a register of eight bits.
pub struct CRC8 {
    crc: u8,
    polynomial: u8,
}

impl CRC<u8> for CRC8 {
    closed spec fn polynomial(&self) -> u8 {
        self.polynomial
    }

    closed spec fn register(&self) -> u8 {
        self.crc
    }

    fn create(polynomial: u8) -> (engine: Self)
        ensures
            engine.polynomial() == polynomial,
            engine.register() == 0xff,
    {
        Self { crc: u8::MAX, polynomial }
    }

    fn update(&mut self, data: &[u8])
        ensures
            final(self).polynomial() == old(self).polynomial(),
            final(self).register() == fold(old(self).polynomial(), old(self).register(), data@),
    {
        for i in 0..data.len()
            invariant
                self.polynomial == old(self).polynomial,
                self.crc == fold(old(self).polynomial, old(self).crc, data@.take(i as int)),
        {
            let ghost before = self.crc;
            self.crc ^= data[i];
            for bit in 0..8u8
                invariant
                    self.polynomial == old(self).polynomial,
                    self.crc == shift_bits(
                        self.polynomial,
                        before.absorb(data@[i as int]),
                        bit as nat,
                    ),
            {
                if self.crc & 0x80 != 0 {
                    self.crc = (self.crc << 1) ^ self.polynomial;
                } else {
                    self.crc <<= 1;
                }
            }
            proof {
                assert(data@.take(i + 1).drop_last() == data@.take(i as int));
            }
        }
        proof {
            assert(data@.take(data@.len() as int) == data@);
        }
    }

    fn finalize(&self) -> (checksum: u8)
        ensures
            checksum == self.register() ^ 0xff,
    {
        self.crc ^ u8::MAX
    }
}

impl Default for CRC8 {
    fn default() -> (engine: Self)
        ensures
            engine.polynomial() == DEFAULT_POLYNOMIAL,
            engine.register() == 0xff,
    {
        Self::create(DEFAULT_POLYNOMIAL)
    }
}

/// With the zero polynomial, `count` bits leaving at the top is a plain shift
/// to the left by `count`.
proof fn lemma_zero_polynomial_shift_bits(register: u8, count: u8)
    requires
        count <= 8,
    ensures
        count < 8 ==> shift_bits(0u8, register, count as nat) == register << count,
        count == 8 ==> shift_bits(0u8, register, count as nat) == 0,
    decreases count,
{
    if count == 0 {
        assert(register << 0u8 == register) by (bit_vector);
    } else {
        let fewer = (count - 1) as u8;
        lemma_zero_polynomial_shift_bits(register, fewer);
        if count < 8 {
            assert(((register << fewer) << 1) ^ 0 == register << count && (register << fewer) << 1
                == register << count) by (bit_vector)
                requires
                    0 < count < 8,
                    fewer == count - 1,
            ;
        } else {
            assert(((register << 7u8) << 1) ^ 0 == 0 && (register << 7u8) << 1 == 0)
                by (bit_vector);
        }
    }
}

impl CRC8 {
    /// An engine that has folded nothing reports zero, whatever its
    /// polynomial is.
    pub proof fn lemma_fresh_checksum_is_zero(polynomial: u8)
        ensures
            fold(polynomial, u8::ones(), Seq::<u8>::empty()).complement() == 0,
    {
        assert(0xffu8 ^ 0xff == 0) by (bit_vector);
    }

    /// With the zero polynomial nothing is mixed in: folding a byte shifts
    /// all eight bits of the register out, and the byte itself with them.
    pub proof fn lemma_zero_polynomial_fold_byte(register: u8, byte: u8)
        ensures
            fold_byte(0u8, register, byte) == 0,
    {
        lemma_zero_polynomial_shift_bits(register.absorb(byte), 8);
    }

    /// With the zero polynomial a single byte clears the register, and it
    /// stays clear.
    pub proof fn lemma_zero_polynomial_fold(register: u8, data: Seq<u8>)
        ensures
            data.len() == 0 ==> fold(0u8, register, data) == register,
            data.len() >= 1 ==> fold(0u8, register, data) == 0,
    {
        if data.len() > 0 {
            Self::lemma_zero_polynomial_fold_byte(
                fold(0u8, register, data.drop_last()),
                data.last(),
            );
        }
    }
}

} // verus!
