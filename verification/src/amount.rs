use vstd::prelude::*;

verus! {

/// 2^64, the limb base used when splitting 128-bit words for carries.
pub const BASE64: u128 = 0x1_0000_0000_0000_0000;

/// 2^128, the weight of the high word of an `Amount`.
pub open spec fn base128() -> nat {
    0x100000000000000000000000000000000nat
}

/// The largest value an `Amount` can hold: 2^256 - 1.
pub open spec fn u256_max() -> nat {
    0xffffffffffffffffffffffffffffffffffffffffffffffffffffffffffffffffnat
}

/// Clamp a mathematical sum at the top of the 256-bit range, the way a
/// saturating addition does.
pub open spec fn clamped(n: nat) -> nat {
    if n > u256_max() {
        u256_max()
    } else {
        n
    }
}

/// An unsigned 256-bit amount of base units (wei), wide enough that a
/// realistic `gas * price` product can never overflow, held as two 128-bit
/// words.
#[derive(Clone, Copy, PartialEq, Eq, Structural, Debug)]
pub struct Amount {
    pub hi: u128,
    pub lo: u128,
}

impl Amount {
    /// The mathematical value this amount holds.
    pub open spec fn value(self) -> nat {
        (self.hi as nat) * base128() + (self.lo as nat)
    }

    pub fn zero() -> (r: Amount)
        ensures
            r.value() == 0,
    {
        Amount { hi: 0, lo: 0 }
    }

    pub fn from_u128(v: u128) -> (r: Amount)
        ensures
            r.value() == v,
    {
        Amount { hi: 0, lo: v }
    }

    /// Addition that clamps at the top of the range instead of wrapping, so
    /// a running total can never silently restart from zero.
    pub fn saturating_add(self, other: Amount) -> (r: Amount)
        ensures
            r.value() == clamped(self.value() + other.value()),
    {
        let (lo, carry): (u128, u128) = if self.lo <= u128::MAX - other.lo {
            (self.lo + other.lo, 0)
        } else {
            (self.lo - (u128::MAX - other.lo) - 1, 1)
        };
        if self.hi <= u128::MAX - other.hi && self.hi + other.hi <= u128::MAX - carry {
            let r = Amount { hi: self.hi + other.hi + carry, lo };
            assert(r.value() == self.value() + other.value());
            r
        } else {
            let r = Amount { hi: u128::MAX, lo: u128::MAX };
            assert(self.value() + other.value() > u256_max());
            assert(r.value() == u256_max());
            r
        }
    }

    /// The fee paid by one transaction: gas used times effective gas price,
    /// computed exactly (a 64-bit by 128-bit product always fits in 256
    /// bits).
    pub fn fee(gas_used: u64, effective_gas_price: u128) -> (r: Amount)
        ensures
            r.value() == (gas_used as nat) * (effective_gas_price as nat),
    {
        let g: u128 = gas_used as u128;
        let p: u128 = effective_gas_price;
        let p_hi: u128 = p / BASE64;
        let p_lo: u128 = p % BASE64;
        assert(g < BASE64);
        assert(g * p_lo < 0x100000000000000000000000000000000int && g * p_hi <= (
        0x1_0000_0000_0000_0000 - 1) * (0x1_0000_0000_0000_0000 - 1)) by (nonlinear_arith)
            requires
                g < 0x1_0000_0000_0000_0000,
                p_lo < 0x1_0000_0000_0000_0000,
                p_hi < 0x1_0000_0000_0000_0000,
        ;
        let a: u128 = g * p_lo;
        let b: u128 = g * p_hi;
        let a_hi: u128 = a / BASE64;
        let a_lo: u128 = a % BASE64;
        let c: u128 = b + a_hi;
        let r_hi: u128 = c / BASE64;
        let r_lo: u128 = (c % BASE64) * BASE64 + a_lo;
        let r = Amount { hi: r_hi, lo: r_lo };
        proof {
            let gi = g as int;
            let pi = p as int;
            assert((r_hi as int) * 0x100000000000000000000000000000000int + (r_lo as int) == gi * pi)
                by (nonlinear_arith)
                requires
                    pi == (p_hi as int) * 0x1_0000_0000_0000_0000 + (p_lo as int),
                    (a as int) == gi * (p_lo as int),
                    (b as int) == gi * (p_hi as int),
                    (a as int) == (a_hi as int) * 0x1_0000_0000_0000_0000 + (a_lo as int),
                    (c as int) == (b as int) + (a_hi as int),
                    (c as int) == (r_hi as int) * 0x1_0000_0000_0000_0000 + ((c % BASE64) as int),
                    (r_lo as int) == ((c % BASE64) as int) * 0x1_0000_0000_0000_0000 + (a_lo as int),
            ;
        }
        r
    }
}

/// Folding one more non-negative term into an already clamped total gives
/// the clamp of the exact overall sum: saturating at each step loses
/// nothing but the excess over the representable range.
pub proof fn lemma_clamped_add(s: nat, f: nat)
    ensures
        clamped(clamped(s) + f) == clamped(s + f),
{
}

} // verus!
