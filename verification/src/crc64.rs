//! The engine of sixty-four bits.

use vstd::prelude::*;
use crate::checksum::CRC;
use crate::register::{fold, fold_byte, shift_bits, Register};

verus! {

/// The polynomial of an engine made by `default`.
pub const DEFAULT_POLYNOMIAL: u64 = 0b0100_0010_1111_0000_1110_0001_1110_1011_1010_1001_1110_1010_0011_0110_1001_0011;

/// A checksum engine with a register of sixty-four bits.
pub struct CRC64 {
    crc: u64,
    polynomial: u64,
}

impl CRC<u64> for CRC64 {
    closed spec fn polynomial(&self) -> u64 {
        self.polynomial
    }

    closed spec fn register(&self) -> u64 {
        self.crc
    }

    fn create(polynomial: u64) -> (engine: Self)
        ensures
            engine.polynomial() == polynomial,
            engine.register() == 0xffff_ffff_ffff_ffff,
    {
        Self { crc: u64::MAX, polynomial }
    }

    fn update(&mut self, data: &[u8])
        ensures
            final(self).polynomial() == old(self).polynomial(),
            final(self).register() == fold(old(self).polynomial(), old(self).register(), data@),
    {
        for i in 0..data.len()
            invariant
                self.polynomial == old(self).polynomial,
                self.crc == fold(old(self).polynomial, old(self).crc, data@.take(i as int)),
        {
            let ghost before = self.crc;
            self.crc ^= (data[i] as u64) << 56;
            for bit in 0..8u8
                invariant
                    self.polynomial == old(self).polynomial,
                    self.crc == shift_bits(
                        self.polynomial,
                        before.absorb(data@[i as int]),
                        bit as nat,
                    ),
            {
                if self.crc & 0x8000_0000_0000_0000 != 0 {
                    self.crc = (self.crc << 1) ^ self.polynomial;
                } else {
                    self.crc <<= 1;
                }
            }
            proof {
                assert(data@.take(i + 1).drop_last() == data@.take(i as int));
            }
        }
        proof {
            assert(data@.take(data@.len() as int) == data@);
        }
    }

    fn finalize(&self) -> (checksum: u64)
        ensures
            checksum == self.register() ^ 0xffff_ffff_ffff_ffff,
    {
        self.crc ^ u64::MAX
    }
}

impl Default for CRC64 {
    fn default() -> (engine: Self)
        ensures
            engine.polynomial() == DEFAULT_POLYNOMIAL,
            engine.register() == 0xffff_ffff_ffff_ffff,
    {
        Self::create(DEFAULT_POLYNOMIAL)
    }
}

/// With the zero polynomial, `count` bits leaving at the top is a plain shift
/// to the left by `count`.
proof fn lemma_zero_polynomial_shift_bits(register: u64, count: u64)
    requires
        count <= 8,
    ensures
        shift_bits(0u64, register, count as nat) == register << count,
    decreases count,
{
    if count == 0 {
        assert(register << 0u64 == register) by (bit_vector);
    } else {
        let fewer = (count - 1) as u64;
        lemma_zero_polynomial_shift_bits(register, fewer);
        assert(((register << fewer) << 1) ^ 0 == register << count && (register << fewer) << 1
            == register << count) by (bit_vector)
            requires
                0 < count <= 8,
                fewer == count - 1,
        ;
    }
}

impl CRC64 {
    /// An engine that has folded nothing reports zero, whatever its
    /// polynomial is.
    pub proof fn lemma_fresh_checksum_is_zero(polynomial: u64)
        ensures
            fold(polynomial, u64::ones(), Seq::<u8>::empty()).complement() == 0,
    {
        assert(0xffff_ffff_ffff_ffffu64 ^ 0xffff_ffff_ffff_ffff == 0) by (bit_vector);
    }

    /// With the zero polynomial nothing is mixed in: folding a byte shifts
    /// the register left by eight bits, and the byte itself is lost.
    pub proof fn lemma_zero_polynomial_fold_byte(register: u64, byte: u8)
        ensures
            fold_byte(0u64, register, byte) == register << 8,
    {
        lemma_zero_polynomial_shift_bits(register.absorb(byte), 8);
        assert((register ^ ((byte as u64) << 56)) << 8 == register << 8) by (bit_vector);
    }

    /// With the zero polynomial only the number of bytes counts: each one
    /// shifts the register left by eight bits, so that eight or more clear it.
    pub proof fn lemma_zero_polynomial_fold(register: u64, data: Seq<u8>)
        ensures
            data.len() < 8 ==> fold(0u64, register, data) == register << (8 * data.len()) as u64,
            data.len() >= 8 ==> fold(0u64, register, data) == 0,
        decreases data.len(),
    {
        if data.len() == 0 {
            assert(register << 0u64 == register) by (bit_vector);
        } else {
            let before = fold(0u64, register, data.drop_last());
            Self::lemma_zero_polynomial_fold(register, data.drop_last());
            Self::lemma_zero_polynomial_fold_byte(before, data.last());
            if data.len() < 8 {
                let done = (8 * (data.len() - 1)) as u64;
                let all = (8 * data.len()) as u64;
                assert((register << done) << 8 == register << all) by (bit_vector)
                    requires
                        done <= 48,
                        all == done + 8,
                ;
            } else if data.len() == 8 {
                assert((register << 56u64) << 8 == 0) by (bit_vector);
            } else {
                assert(0u64 << 8 == 0) by (bit_vector);
            }
        }
    }
}

} // verus!
