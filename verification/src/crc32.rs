//! The engine of thirty-two bits.

use vstd::prelude::*;
use crate::checksum::CRC;
use crate::register::{fold, fold_byte, shift_bits, Register};

verus! {

/// The polynomial of an engine made by `default`.
pub const DEFAULT_POLYNOMIAL: u32 = 0b0000_0100_1100_0001_0001_1101_1011_0111;

/// A checksum engine with a register of thirty-two bits.
pub struct CRC32 {
    crc: u32,
    polynomial: u32,
}

impl CRC<u32> for CRC32 {
    closed spec fn polynomial(&self) -> u32 {
        self.polynomial
    }

    closed spec fn register(&self) -> u32 {
        self.crc
    }

    fn create(polynomial: u32) -> (engine: Self)
        ensures
            engine.polynomial() == polynomial,
            engine.register() == 0xffff_ffff,
    {
        Self { crc: u32::MAX, polynomial }
    }

    fn update(&mut self, data: &[u8])
        ensures
            final(self).polynomial() == old(self).polynomial(),
            final(self).register() == fold(old(self).polynomial(), old(self).register(), data@),
    {
        for i in 0..data.len()
            invariant
                self.polynomial == old(self).polynomial,
                self.crc == fold(old(self).polynomial, old(self).crc, data@.take(i as int)),
        {
            let ghost before = self.crc;
            self.crc ^= (data[i] as u32) << 24;
            for bit in 0..8u8
                invariant
                    self.polynomial == old(self).polynomial,
                    self.crc == shift_bits(
                        self.polynomial,
                        before.absorb(data@[i as int]),
                        bit as nat,
                    ),
            {
                if self.crc & 0x8000_0000 != 0 {
                    self.crc = (self.crc << 1) ^ self.polynomial;
                } else {
                    self.crc <<= 1;
                }
            }
            proof {
                assert(data@.take(i + 1).drop_last() == data@.take(i as int));
            }
        }
        proof {
            assert(data@.take(data@.len() as int) == data@);
        }
    }

    fn finalize(&self) -> (checksum: u32)
        ensures
            checksum == self.register() ^ 0xffff_ffff,
    {
        self.crc ^ u32::MAX
    }
}

impl Default for CRC32 {
    fn default() -> (engine: Self)
        ensures
            engine.polynomial() == DEFAULT_POLYNOMIAL,
            engine.register() == 0xffff_ffff,
    {
        Self::create(DEFAULT_POLYNOMIAL)
    }
}

/// With the zero polynomial, `count` bits leaving at the top is a plain shift
/// to the left by `count`.
proof fn lemma_zero_polynomial_shift_bits(register: u32, count: u32)
    requires
        count <= 8,
    ensures
        shift_bits(0u32, register, count as nat) == register << count,
    decreases count,
{
    if count == 0 {
        assert(register << 0u32 == register) by (bit_vector);
    } else {
        let fewer = (count - 1) as u32;
        lemma_zero_polynomial_shift_bits(register, fewer);
        assert(((register << fewer) << 1) ^ 0 == register << count && (register << fewer) << 1
            == register << count) by (bit_vector)
            requires
                0 < count <= 8,
                fewer == count - 1,
        ;
    }
}

impl CRC32 {
    /// An engine that has folded nothing reports zero, whatever its
    /// polynomial is.
    pub proof fn lemma_fresh_checksum_is_zero(polynomial: u32)
        ensures
            fold(polynomial, u32::ones(), Seq::<u8>::empty()).complement() == 0,
    {
        assert(0xffff_ffffu32 ^ 0xffff_ffff == 0) by (bit_vector);
    }

    /// With the zero polynomial nothing is mixed in: folding a byte shifts
    /// the register left by eight bits, and the byte itself is lost.
    pub proof fn lemma_zero_polynomial_fold_byte(register: u32, byte: u8)
        ensures
            fold_byte(0u32, register, byte) == register << 8,
    {
        lemma_zero_polynomial_shift_bits(register.absorb(byte), 8);
        assert((register ^ ((byte as u32) << 24)) << 8 == register << 8) by (bit_vector);
    }

    /// With the zero polynomial only the number of bytes counts: each one
    /// shifts the register left by eight bits, so that four or more clear it.
    pub proof fn lemma_zero_polynomial_fold(register: u32, data: Seq<u8>)
        ensures
            data.len() < 4 ==> fold(0u32, register, data) == register << (8 * data.len()) as u32,
            data.len() >= 4 ==> fold(0u32, register, data) == 0,
        decreases data.len(),
    {
        if data.len() == 0 {
            assert(register << 0u32 == register) by (bit_vector);
        } else {
            let before = fold(0u32, register, data.drop_last());
            Self::lemma_zero_polynomial_fold(register, data.drop_last());
            Self::lemma_zero_polynomial_fold_byte(before, data.last());
            if data.len() < 4 {
                let done = (8 * (data.len() - 1)) as u32;
                let all = (8 * data.len()) as u32;
                assert((register << done) << 8 == register << all) by (bit_vector)
                    requires
                        done <= 16,
                        all == done + 8,
                ;
            } else if data.len() == 4 {
                assert((register << 24u32) << 8 == 0) by (bit_vector);
            } else {
                assert(0u32 << 8 == 0) by (bit_vector);
            }
        }
    }
}

} // verus!
