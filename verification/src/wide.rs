//! A 256-bit unsigned integer held as four 64-bit limbs, least significant
//! first. The arithmetic itself is done by `ethereum_types::U256`; this module
//! gives each operation a contract over the integer that the limbs denote.

use ethereum_types::U256;
use vstd::prelude::*;

verus! {

/// 2^64, the weight of the second limb.
pub open spec fn two_64() -> nat {
    0x1_0000_0000_0000_0000nat
}

/// 2^128, the weight of the third limb.
pub open spec fn two_128() -> nat {
    0x1_0000_0000_0000_0000_0000_0000_0000_0000nat
}

/// 2^192, the weight of the fourth limb.
pub open spec fn two_192() -> nat {
    0x1_0000_0000_0000_0000_0000_0000_0000_0000_0000_0000_0000_0000nat
}

/// 2^256, one more than the largest value a `Wide` can hold.
pub open spec fn two_256() -> nat {
    0x1_0000_0000_0000_0000_0000_0000_0000_0000_0000_0000_0000_0000_0000_0000_0000_0000nat
}

/// A 256-bit unsigned integer, as its four little-endian 64-bit limbs.
#[derive(Clone, Copy, Debug)]
pub struct Wide {
    pub limbs: [u64; 4],
}

impl View for Wide {
    type V = nat;

    /// The integer that the limbs denote.
    open spec fn view(&self) -> nat {
        (self.limbs[0] as nat) + (self.limbs[1] as nat) * two_64() + (self.limbs[2] as nat)
            * two_128() + (self.limbs[3] as nat) * two_192()
    }
}

impl Wide {
    /// Whether the value fits in 128 bits: the two upper limbs are zero.
    pub fn fits_u128(&self) -> (r: bool)
        ensures
            r == (self@ <= u128::MAX),
    {
        self.limbs[2] == 0 && self.limbs[3] == 0
    }

    /// `U256::from(u128)`: the 256-bit integer with the same value as `v`.
    #[verifier::external_body]
    pub(crate) fn from_u128(v: u128) -> (r: Wide)
        ensures
            r@ == v,
    {
        Wide { limbs: U256::from(v).0 }
    }

    /// `U256::as_u128`: the value as a `u128`. The outside function panics on
    /// a value of more than 128 bits, which the precondition leaves out.
    #[verifier::external_body]
    pub(crate) fn as_u128(&self) -> (r: u128)
        requires
            self@ <= u128::MAX,
        ensures
            r == self@,
    {
        U256(self.limbs).as_u128()
    }

    /// `U256::checked_mul`: the product where it is below 2^256, and `None`
    /// where it is not.
    #[verifier::external_body]
    pub(crate) fn checked_mul(&self, other: &Wide) -> (r: Option<Wide>)
        ensures
            match r {
                Some(p) => p@ == self@ * other@,
                None => self@ * other@ >= two_256(),
            },
    {
        match U256(self.limbs).checked_mul(U256(other.limbs)) {
            Some(p) => Some(Wide { limbs: p.0 }),
            None => None,
        }
    }

    /// `U256 / U256`: the quotient rounded down. The outside operator panics
    /// on a zero divisor, which the precondition leaves out.
    #[verifier::external_body]
    pub(crate) fn div(&self, other: &Wide) -> (r: Wide)
        requires
            other@ != 0,
        ensures
            r@ == self@ / other@,
    {
        Wide { limbs: (U256(self.limbs) / U256(other.limbs)).0 }
    }

    /// `U256 << u32` for a shift below 256: the value times 2^shift, with the
    /// bits that leave the 256-bit width dropped.
    #[verifier::external_body]
    pub(crate) fn shl(&self, shift: u32) -> (r: Wide)
        requires
            shift < 256,
        ensures
            r@ == (self@ * vstd::arithmetic::power2::pow2(shift as nat)) % two_256(),
    {
        Wide { limbs: (U256(self.limbs) << shift).0 }
    }

    /// `U256 >> u32` for a shift below 256: the value divided by 2^shift,
    /// rounded down.
    #[verifier::external_body]
    pub(crate) fn shr(&self, shift: u32) -> (r: Wide)
        requires
            shift < 256,
        ensures
            r@ == self@ / vstd::arithmetic::power2::pow2(shift as nat),
    {
        Wide { limbs: (U256(self.limbs) >> shift).0 }
    }
}

} // verus!
