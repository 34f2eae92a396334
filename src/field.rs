//! Canonical elements of the BN254 scalar field.

use vstd::prelude::*;

verus! {

/// The radix of a limb.
pub open spec fn limb_base() -> nat {
    0x1_0000_0000_0000_0000nat
}

/// The number that four little-endian 64-bit limbs stand for.
pub open spec fn limbs_value(l0: u64, l1: u64, l2: u64, l3: u64) -> nat {
    l0 as nat + limb_base() * (l1 as nat + limb_base() * (l2 as nat + limb_base() * (l3 as nat)))
}

pub const MODULUS_L0: u64 = 0x43e1_f593_f000_0001;
pub const MODULUS_L1: u64 = 0x2833_e848_79b9_7091;
pub const MODULUS_L2: u64 = 0xb850_45b6_8181_585d;
pub const MODULUS_L3: u64 = 0x3064_4e72_e131_a029;

/// The prime order of the BN254 scalar field.
pub open spec fn modulus() -> nat {
    limbs_value(MODULUS_L0, MODULUS_L1, MODULUS_L2, MODULUS_L3)
}

/// Comparing two numbers by their top digit first, then by the digit below.
proof fn lemma_two_digit_order(a0: nat, a1: nat, b0: nat, b1: nat)
    requires
        a0 < limb_base(),
        b0 < limb_base(),
    ensures
        (a0 + limb_base() * a1 < b0 + limb_base() * b1) <==> (a1 < b1 || (a1 == b1 && a0 < b0)),
        (a0 + limb_base() * a1 == b0 + limb_base() * b1) <==> (a1 == b1 && a0 == b0),
{
    let bb = limb_base();
    if a1 < b1 {
        assert(a0 + bb * a1 < b0 + bb * b1) by (nonlinear_arith)
            requires a0 < bb, a1 < b1;
    } else if a1 > b1 {
        assert(a0 + bb * a1 > b0 + bb * b1) by (nonlinear_arith)
            requires b0 < bb, a1 > b1;
    }
}

/// An element of the BN254 scalar field, held as its canonical
/// representative: four little-endian limbs whose value is below the modulus.
#[derive(Clone, Copy, Debug, PartialEq, Eq, Structural)]
pub struct FieldElem {
    l0: u64,
    l1: u64,
    l2: u64,
    l3: u64,
}

impl View for FieldElem {
    type V = nat;

    closed spec fn view(&self) -> nat {
        limbs_value(self.l0, self.l1, self.l2, self.l3)
    }
}

impl FieldElem {
    #[verifier::type_invariant]
    closed spec fn canonical(self) -> bool {
        limbs_value(self.l0, self.l1, self.l2, self.l3) < modulus()
    }

    /// The element built from four little-endian limbs, if their value is
    /// below the modulus.
    pub fn from_limbs(limbs: [u64; 4]) -> (r: Option<FieldElem>)
        ensures
            r is Some <==> limbs_value(limbs[0], limbs[1], limbs[2], limbs[3]) < modulus(),
            r matches Some(e) ==> e@ == limbs_value(limbs[0], limbs[1], limbs[2], limbs[3]),
    {
        let l0 = limbs[0];
        let l1 = limbs[1];
        let l2 = limbs[2];
        let l3 = limbs[3];
        let below = l3 < MODULUS_L3 || (l3 == MODULUS_L3 && (l2 < MODULUS_L2 || (l2 == MODULUS_L2
            && (l1 < MODULUS_L1 || (l1 == MODULUS_L1 && l0 < MODULUS_L0)))));
        proof {
            let bb = limb_base();
            let h2 = l2 as nat + bb * (l3 as nat);
            let m2 = MODULUS_L2 as nat + bb * (MODULUS_L3 as nat);
            let h1 = l1 as nat + bb * h2;
            let m1 = MODULUS_L1 as nat + bb * m2;
            lemma_two_digit_order(l2 as nat, l3 as nat, MODULUS_L2 as nat, MODULUS_L3 as nat);
            lemma_two_digit_order(l1 as nat, h2, MODULUS_L1 as nat, m2);
            lemma_two_digit_order(l0 as nat, h1, MODULUS_L0 as nat, m1);
        }
        if below {
            Some(FieldElem { l0, l1, l2, l3 })
        } else {
            None
        }
    }

    /// The little-endian limbs of the element.
    pub fn to_limbs(&self) -> (r: [u64; 4])
        ensures
            limbs_value(r[0], r[1], r[2], r[3]) == self@,
    {
        [self.l0, self.l1, self.l2, self.l3]
    }

    /// The element whose value is `v`.
    pub fn from_u64(v: u64) -> (r: FieldElem)
        ensures
            r@ == v as nat,
    {
        assert(limbs_value(v, 0, 0, 0) == v as nat) by (nonlinear_arith);
        proof {
            let bb = limb_base();
            let m = MODULUS_L2 as nat + bb * (MODULUS_L3 as nat);
            assert(bb * m >= bb) by (nonlinear_arith)
                requires m >= 1;
            assert(bb * (MODULUS_L1 as nat + bb * m) >= bb) by (nonlinear_arith)
                requires MODULUS_L1 as nat + bb * m >= 1;
        }
        FieldElem { l0: v, l1: 0, l2: 0, l3: 0 }
    }

    /// The additive identity.
    pub fn zero() -> (r: FieldElem)
        ensures
            r@ == 0,
    {
        FieldElem::from_u64(0)
    }
}

} // verus!
