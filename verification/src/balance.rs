use vstd::prelude::*;

verus! {

/// Radix of one limb: 2^64.
pub open spec fn limb_radix() -> int {
    0x10000000000000000int
}

/// 2^128.
pub open spec fn limb_radix_2() -> int {
    0x100000000000000000000000000000000int
}

/// 2^192.
pub open spec fn limb_radix_3() -> int {
    0x1000000000000000000000000000000000000000000000000int
}

/// One past the largest representable balance: 2^256.
pub open spec fn balance_limit() -> int {
    0x10000000000000000000000000000000000000000000000000000000000000000int
}

/// An unsigned 256-bit balance, held as four 64-bit limbs, least
/// significant first.  The unsigned representation makes the ledger's
/// "no negative balance" invariant structural.
#[derive(Clone, Copy, Debug, PartialEq, Eq, Structural)]
pub struct U256 {
    pub l0: u64,
    pub l1: u64,
    pub l2: u64,
    pub l3: u64,
}

impl U256 {
    /// The numeric value represented by the four limbs.
    pub open spec fn value(self) -> nat {
        (self.l0 + self.l1 * limb_radix() + self.l2 * limb_radix_2() + self.l3 * limb_radix_3())
            as nat
    }

    /// Every representable value lies below 2^256.
    pub proof fn lemma_value_below_limit(self)
        ensures
            self.value() < balance_limit(),
    {
    }

    pub fn zero() -> (r: U256)
        ensures
            r.value() == 0,
    {
        U256 { l0: 0, l1: 0, l2: 0, l3: 0 }
    }

    pub fn from_u64(v: u64) -> (r: U256)
        ensures
            r.value() == v,
    {
        U256 { l0: v, l1: 0, l2: 0, l3: 0 }
    }

    /// Builds a balance from its four limbs, least significant first.
    pub fn from_limbs(l0: u64, l1: u64, l2: u64, l3: u64) -> (r: U256)
        ensures
            r.value() == l0 + l1 * limb_radix() + l2 * limb_radix_2() + l3 * limb_radix_3(),
    {
        U256 { l0, l1, l2, l3 }
    }

    pub fn is_zero(&self) -> (r: bool)
        ensures
            r == (self.value() == 0),
    {
        self.l0 == 0 && self.l1 == 0 && self.l2 == 0 && self.l3 == 0
    }

    /// Overflow-detecting addition: the sum when it is representable,
    /// `None` when it would reach 2^256.
    pub fn checked_add(&self, rhs: &U256) -> (r: Option<U256>)
        ensures
            self.value() + rhs.value() < balance_limit() ==> (r matches Some(s)
                && s.value() == self.value() + rhs.value()),
            self.value() + rhs.value() >= balance_limit() ==> r is None,
    {
        let (s0, c0) = limb_adc(self.l0, rhs.l0, 0);
        let (s1, c1) = limb_adc(self.l1, rhs.l1, c0);
        let (s2, c2) = limb_adc(self.l2, rhs.l2, c1);
        let (s3, c3) = limb_adc(self.l3, rhs.l3, c2);
        let s = U256 { l0: s0, l1: s1, l2: s2, l3: s3 };
        proof {
            lemma_add_recombine(
                self.l0, self.l1, self.l2, self.l3,
                rhs.l0, rhs.l1, rhs.l2, rhs.l3,
                s0, s1, s2, s3,
                c0, c1, c2, c3,
            );
            s.lemma_value_below_limit();
        }
        if c3 == 0 {
            Some(s)
        } else {
            None
        }
    }

    /// Underflow-detecting subtraction: the difference when `rhs` does not
    /// exceed `self`, `None` otherwise.
    pub fn checked_sub(&self, rhs: &U256) -> (r: Option<U256>)
        ensures
            rhs.value() <= self.value() ==> (r matches Some(d)
                && d.value() == self.value() - rhs.value()),
            rhs.value() > self.value() ==> r is None,
    {
        let (d0, b0) = limb_sbb(self.l0, rhs.l0, 0);
        let (d1, b1) = limb_sbb(self.l1, rhs.l1, b0);
        let (d2, b2) = limb_sbb(self.l2, rhs.l2, b1);
        let (d3, b3) = limb_sbb(self.l3, rhs.l3, b2);
        let d = U256 { l0: d0, l1: d1, l2: d2, l3: d3 };
        proof {
            lemma_sub_recombine(
                self.l0, self.l1, self.l2, self.l3,
                rhs.l0, rhs.l1, rhs.l2, rhs.l3,
                d0, d1, d2, d3,
                b0, b1, b2, b3,
            );
            d.lemma_value_below_limit();
        }
        if b3 == 0 {
            Some(d)
        } else {
            None
        }
    }
}

/// One limb of a carrying addition: returns `(sum mod 2^64, carry)`.
fn limb_adc(x: u64, y: u64, c: u64) -> (r: (u64, u64))
    requires
        c <= 1,
    ensures
        r.0 + r.1 * limb_radix() == x + y + c,
        r.1 <= 1,
{
    let t: u128 = x as u128 + y as u128 + c as u128;
    let lo: u64 = (t % 0x10000000000000000u128) as u64;
    let hi: u64 = (t / 0x10000000000000000u128) as u64;
    proof {
        vstd::arithmetic::div_mod::lemma_fundamental_div_mod(t as int, limb_radix());
    }
    (lo, hi)
}

/// One limb of a borrowing subtraction: returns `(difference mod 2^64, borrow)`.
fn limb_sbb(x: u64, y: u64, b: u64) -> (r: (u64, u64))
    requires
        b <= 1,
    ensures
        r.0 - r.1 * limb_radix() == x - y - b,
        r.1 <= 1,
{
    let t: u128 = 0x10000000000000000u128 + x as u128 - y as u128 - b as u128;
    let lo: u64 = (t % 0x10000000000000000u128) as u64;
    let q: u64 = (t / 0x10000000000000000u128) as u64;
    proof {
        vstd::arithmetic::div_mod::lemma_fundamental_div_mod(t as int, limb_radix());
    }
    (lo, 1 - q)
}

/// Recombines the four limb equations of a carrying addition into one
/// equation over the represented values.
proof fn lemma_add_recombine(
    a0: u64, a1: u64, a2: u64, a3: u64,
    b0: u64, b1: u64, b2: u64, b3: u64,
    s0: u64, s1: u64, s2: u64, s3: u64,
    c0: u64, c1: u64, c2: u64, c3: u64,
)
    requires
        s0 + c0 * limb_radix() == a0 + b0,
        s1 + c1 * limb_radix() == a1 + b1 + c0,
        s2 + c2 * limb_radix() == a2 + b2 + c1,
        s3 + c3 * limb_radix() == a3 + b3 + c2,
    ensures
        s0 + s1 * limb_radix() + s2 * limb_radix_2() + s3 * limb_radix_3()
            + c3 * balance_limit()
            == (a0 + a1 * limb_radix() + a2 * limb_radix_2() + a3 * limb_radix_3())
            + (b0 + b1 * limb_radix() + b2 * limb_radix_2() + b3 * limb_radix_3()),
{
}

/// Recombines the four limb equations of a borrowing subtraction into one
/// equation over the represented values.
proof fn lemma_sub_recombine(
    a0: u64, a1: u64, a2: u64, a3: u64,
    b0: u64, b1: u64, b2: u64, b3: u64,
    d0: u64, d1: u64, d2: u64, d3: u64,
    w0: u64, w1: u64, w2: u64, w3: u64,
)
    requires
        d0 - w0 * limb_radix() == a0 - b0,
        d1 - w1 * limb_radix() == a1 - b1 - w0,
        d2 - w2 * limb_radix() == a2 - b2 - w1,
        d3 - w3 * limb_radix() == a3 - b3 - w2,
    ensures
        d0 + d1 * limb_radix() + d2 * limb_radix_2() + d3 * limb_radix_3()
            - w3 * balance_limit()
            == (a0 + a1 * limb_radix() + a2 * limb_radix_2() + a3 * limb_radix_3())
            - (b0 + b1 * limb_radix() + b2 * limb_radix_2() + b3 * limb_radix_3()),
{
}

} // verus!
