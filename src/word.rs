//! 256-bit unsigned machine words, as held by the governance state.
//!
//! A `Word` keeps its value as four little-endian 64-bit limbs; its arithmetic
//! is done by `alloy_primitives::U256`, which has the same layout.

use vstd::prelude::*;

verus! {

/// 2^64, the weight of one limb.
pub open spec fn limb_base() -> nat {
    0x1_0000_0000_0000_0000
}

/// 2^256: every `Word` value is below it.
pub open spec fn word_bound() -> nat {
    limb_base() * limb_base() * limb_base() * limb_base()
}

/// An unsigned 256-bit integer, least significant limb first.
#[derive(Clone, Copy, Debug, PartialEq, Eq)]
pub struct Word {
    pub limbs: [u64; 4],
}

impl Word {
    /// The integer that the limbs spell.
    pub open spec fn value(self) -> nat {
        self.limbs@[0] as nat + limb_base() * (self.limbs@[1] as nat + limb_base() * (
        self.limbs@[2] as nat + limb_base() * (self.limbs@[3] as nat)))
    }

    pub proof fn lemma_value_bound(self)
        ensures
            self.value() < word_bound(),
    {
        let b = limb_base();
        let (l0, l1, l2, l3) = (
            self.limbs@[0] as nat,
            self.limbs@[1] as nat,
            self.limbs@[2] as nat,
            self.limbs@[3] as nat,
        );
        assert(l3 < b && l2 < b && l1 < b && l0 < b);
        assert(b * l3 <= b * (b - 1)) by (nonlinear_arith)
            requires
                l3 < b,
        ;
        assert(l2 + b * l3 < b * b) by (nonlinear_arith)
            requires
                l2 < b,
                l3 < b,
        ;
        assert(l1 + b * (l2 + b * l3) < b * (b * b)) by (nonlinear_arith)
            requires
                l1 < b,
                l2 + b * l3 < b * b,
        ;
        assert(l0 + b * (l1 + b * (l2 + b * l3)) < b * (b * (b * b))) by (nonlinear_arith)
            requires
                l0 < b,
                l1 + b * (l2 + b * l3) < b * (b * b),
        ;
        assert(b * (b * (b * b)) == b * b * b * b) by (nonlinear_arith);
    }

    /// A value below 2^64 is held in the lowest limb alone.
    pub proof fn lemma_low_limb(self)
        requires
            self.value() < limb_base(),
        ensures
            self.value() == self.limbs@[0],
    {
        let b = limb_base();
        let l0 = self.limbs@[0] as nat;
        let rest = self.limbs@[1] as nat + b * (self.limbs@[2] as nat + b * (
        self.limbs@[3] as nat));
        assert(rest == 0) by (nonlinear_arith)
            requires
                l0 + b * rest < b,
                b > 0,
        ;
    }

    /// The word whose value is `x`.
    pub fn from_u64(x: u64) -> (r: Word)
        ensures
            r.value() == x,
    {
        Word { limbs: [x, 0, 0, 0] }
    }

    /// Zero.
    pub fn zero() -> (r: Word)
        ensures
            r.value() == 0,
    {
        Word::from_u64(0)
    }

    /// Whether the value is zero.
    pub fn is_zero(&self) -> (r: bool)
        ensures
            r == (self.value() == 0),
    {
        self.limbs[0] == 0 && self.limbs[1] == 0 && self.limbs[2] == 0 && self.limbs[3] == 0
    }

    /// Relies on `U256::checked_add` (ruint's `Uint<256, 4>`): the sum, or
    /// `None` when it does not fit in 256 bits. `U256::from_limbs` and
    /// `into_limbs` keep the limbs as they are, least significant first; at
    /// 256 bits `from_limbs` accepts every array of limbs.
    #[verifier::external_body]
    pub(crate) fn checked_add(&self, rhs: &Word) -> (r: Option<Word>)
        ensures
            match r {
                Some(s) => self.value() + rhs.value() < word_bound() && s.value() == self.value()
                    + rhs.value(),
                None => self.value() + rhs.value() >= word_bound(),
            },
    {
        let a = alloy_primitives::U256::from_limbs(self.limbs);
        let b = alloy_primitives::U256::from_limbs(rhs.limbs);
        match a.checked_add(b) {
            Some(s) => Some(Word { limbs: s.into_limbs() }),
            None => None,
        }
    }

    /// Relies on `U256::checked_mul`: the product, or `None` when it does not
    /// fit in 256 bits.
    #[verifier::external_body]
    pub(crate) fn checked_mul(&self, rhs: &Word) -> (r: Option<Word>)
        ensures
            match r {
                Some(p) => self.value() * rhs.value() < word_bound() && p.value() == self.value()
                    * rhs.value(),
                None => self.value() * rhs.value() >= word_bound(),
            },
    {
        let a = alloy_primitives::U256::from_limbs(self.limbs);
        let b = alloy_primitives::U256::from_limbs(rhs.limbs);
        match a.checked_mul(b) {
            Some(p) => Some(Word { limbs: p.into_limbs() }),
            None => None,
        }
    }

    /// Relies on `U256`'s `<` (`PartialOrd`, through `Ord::cmp` on the limbs,
    /// most significant first): it compares the integer values.
    #[verifier::external_body]
    pub(crate) fn lt(&self, rhs: &Word) -> (r: bool)
        ensures
            r == (self.value() < rhs.value()),
    {
        alloy_primitives::U256::from_limbs(self.limbs) < alloy_primitives::U256::from_limbs(
            rhs.limbs,
        )
    }
}

} // verus!
