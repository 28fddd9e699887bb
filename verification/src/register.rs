//! The model of a register: what one bit and one byte do to it, and what a
//! sequence of bytes does.

use vstd::prelude::*;

verus! {

/// An unsigned integer that can serve as the register of an engine.
///
/// The four primitives are all that depends on the width. How they combine
/// over a byte sequence is given once, by [`shift_bits`], [`fold_byte`] and
/// [`fold`].
pub trait Register: Sized {
    /// The register of an engine that has folded no byte yet: every bit set.
    spec fn ones() -> Self;

    /// The register after `byte` has been brought into its most significant
    /// byte.
    spec fn absorb(self, byte: u8) -> Self;

    /// The register after one bit has left at the top: shifted left by one,
    /// and mixed with `polynomial` if the bit that left was set.
    spec fn shift_bit(self, polynomial: Self) -> Self;

    /// The checksum that is reported for the register: every bit flipped.
    spec fn complement(self) -> Self;
}

/// The register after `count` bits have left at the top.
pub open spec fn shift_bits<N: Register>(polynomial: N, register: N, count: nat) -> N
    decreases count,
{
    if count == 0 {
        register
    } else {
        shift_bits(polynomial, register, (count - 1) as nat).shift_bit(polynomial)
    }
}

/// The register after one byte has been folded in: the byte enters at the
/// top, then eight bits leave.
pub open spec fn fold_byte<N: Register>(polynomial: N, register: N, byte: u8) -> N {
    shift_bits(polynomial, register.absorb(byte), 8)
}

/// The register after the bytes of `data` have been folded in, first to last.
pub open spec fn fold<N: Register>(polynomial: N, register: N, data: Seq<u8>) -> N
    decreases data.len(),
{
    if data.len() == 0 {
        register
    } else {
        fold_byte(polynomial, fold(polynomial, register, data.drop_last()), data.last())
    }
}

/// Folding is streaming: folding `first` and then `second` leaves the
/// register that folding the two joined leaves, whatever the register and
/// the polynomial were.
pub proof fn lemma_fold_concat<N: Register>(
    polynomial: N,
    register: N,
    first: Seq<u8>,
    second: Seq<u8>,
)
    ensures
        fold(polynomial, register, first + second) == fold(
            polynomial,
            fold(polynomial, register, first),
            second,
        ),
    decreases second.len(),
{
    if second.len() == 0 {
        assert(first + second == first);
    } else {
        lemma_fold_concat(polynomial, register, first, second.drop_last());
        assert((first + second).drop_last() == first + second.drop_last());
    }
}

impl Register for u8 {
    open spec fn ones() -> u8 {
        0xff
    }

    open spec fn absorb(self, byte: u8) -> u8 {
        self ^ byte
    }

    open spec fn shift_bit(self, polynomial: u8) -> u8 {
        if self & 0x80 != 0 {
            (self << 1) ^ polynomial
        } else {
            self << 1
        }
    }

    open spec fn complement(self) -> u8 {
        self ^ 0xff
    }
}

impl Register for u16 {
    open spec fn ones() -> u16 {
        0xffff
    }

    open spec fn absorb(self, byte: u8) -> u16 {
        self ^ ((byte as u16) << 8)
    }

    open spec fn shift_bit(self, polynomial: u16) -> u16 {
        if self & 0x8000 != 0 {
            (self << 1) ^ polynomial
        } else {
            self << 1
        }
    }

    open spec fn complement(self) -> u16 {
        self ^ 0xffff
    }
}

impl Register for u32 {
    open spec fn ones() -> u32 {
        0xffff_ffff
    }

    open spec fn absorb(self, byte: u8) -> u32 {
        self ^ ((byte as u32) << 24)
    }

    open spec fn shift_bit(self, polynomial: u32) -> u32 {
        if self & 0x8000_0000 != 0 {
            (self << 1) ^ polynomial
        } else {
            self << 1
        }
    }

    open spec fn complement(self) -> u32 {
        self ^ 0xffff_ffff
    }
}

impl Register for u64 {
    open spec fn ones() -> u64 {
        0xffff_ffff_ffff_ffff
    }

    open spec fn absorb(self, byte: u8) -> u64 {
        self ^ ((byte as u64) << 56)
    }

    open spec fn shift_bit(self, polynomial: u64) -> u64 {
        if self & 0x8000_0000_0000_0000 != 0 {
            (self << 1) ^ polynomial
        } else {
            self << 1
        }
    }

    open spec fn complement(self) -> u64 {
        self ^ 0xffff_ffff_ffff_ffff
    }
}

impl Register for u128 {
    open spec fn ones() -> u128 {
        0xffff_ffff_ffff_ffff_ffff_ffff_ffff_ffff
    }

    open spec fn absorb(self, byte: u8) -> u128 {
        self ^ ((byte as u128) << 120)
    }

    open spec fn shift_bit(self, polynomial: u128) -> u128 {
        if self & 0x8000_0000_0000_0000_0000_0000_0000_0000 != 0 {
            (self << 1) ^ polynomial
        } else {
            self << 1
        }
    }

    open spec fn complement(self) -> u128 {
        self ^ 0xffff_ffff_ffff_ffff_ffff_ffff_ffff_ffff
    }
}

} // verus!
