use vstd::prelude::*;

verus! {

/// Bit selection on an integer, with bit 0 the least significant.
pub trait SelectBit: Sized {
    /// The indices that name a bit of `Self`.
    spec fn is_bit_index(index: Self) -> bool;

    spec fn spec_is_bit_set(&self, index: Self) -> bool;

    fn is_bit_set(&self, index: Self) -> (r: bool)
        requires
            Self::is_bit_index(index),
        ensures
            r == self.spec_is_bit_set(index),
    ;
}

impl SelectBit for u8 {
    open spec fn is_bit_index(index: u8) -> bool {
        index < 8
    }

    open spec fn spec_is_bit_set(&self, index: u8) -> bool {
        (*self >> index) & 1 == 1
    }

    fn is_bit_set(&self, index: u8) -> (r: bool) {
        (*self >> index) & 1 == 1
    }
}

} // verus!
