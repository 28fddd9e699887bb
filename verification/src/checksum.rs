//! The contract shared by the engines of every width.

use vstd::prelude::*;
use crate::register::{fold, Register};

verus! {

/// A checksum engine over registers of type `N`.
pub trait CRC<N>: Default where N: Register + std::ops::Shl + std::ops::BitXor {
    /// The generator polynomial the engine was created with.
    spec fn polynomial(&self) -> N;

    /// The running register.
    spec fn register(&self) -> N;

    /// Makes an engine for `polynomial` that has folded no byte yet. Any
    /// polynomial is taken, zero too.
    fn create(polynomial: N) -> (engine: Self)
        ensures
            engine.polynomial() == polynomial,
            engine.register() == N::ones(),
    ;

    /// Folds the bytes of `data`, in order, into the register. The engine can
    /// be updated again afterwards, also after a checksum has been read.
    fn update(&mut self, data: &[u8])
        ensures
            final(self).polynomial() == old(self).polynomial(),
            final(self).register() == fold(old(self).polynomial(), old(self).register(), data@),
    ;

    /// Reports the checksum of the bytes folded so far, and leaves the engine
    /// as it is.
    fn finalize(&self) -> (checksum: N)
        ensures
            checksum == self.register().complement(),
    ;
}

} // verus!
