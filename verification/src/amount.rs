//! Token and base-asset quantities: unsigned 256-bit integers in the asset's
//! smallest unit, as the chain reports them.
//!
//! The arithmetic on them is that of the chain client's own integer type; the
//! functions here state what it computes over the natural numbers.

use vstd::prelude::*;

verus! {

/// Two to the power 64.
pub open spec fn word() -> nat {
    0x1_0000_0000_0000_0000
}

/// The exclusive upper bound of an [`Amount`]: two to the power 256.
pub open spec fn amount_limit() -> nat {
    word() * word() * word() * word()
}

/// Ten to the power `n`.
pub open spec fn pow10(n: nat) -> nat
    decreases n,
{
    if n == 0 {
        1
    } else {
        10 * pow10((n - 1) as nat)
    }
}

/// Every power of ten is positive.
pub proof fn lemma_pow10_positive(n: nat)
    ensures
        pow10(n) > 0,
    decreases n,
{
    if n > 0 {
        lemma_pow10_positive((n - 1) as nat);
    }
}

/// The largest number of decimal places by which an [`Amount`] can be scaled:
/// ten to this power still fits 256 bits, and the client refuses to scale by more.
pub const MAX_SCALE_DIGITS: u8 = 76;

/// Hundredths of a percent in a whole.
pub const BPS_DENOMINATOR: u64 = 10_000;

/// An unsigned 256-bit quantity, held as four 64-bit words, least significant first.
#[derive(Clone, Copy, Debug, PartialEq, Eq, Structural)]
pub struct Amount {
    pub w0: u64,
    pub w1: u64,
    pub w2: u64,
    pub w3: u64,
}

impl View for Amount {
    type V = nat;

    /// The number that the four words spell.
    open spec fn view(&self) -> nat {
        (self.w0 as nat) + (self.w1 as nat) * word() + (self.w2 as nat) * word() * word() + (
        self.w3 as nat) * word() * word() * word()
    }
}

/// Two amounts that spell the same number are the same amount.
pub proof fn lemma_view_injective(a: Amount, b: Amount)
    requires
        a@ == b@,
    ensures
        a == b,
{
    assert(a.w3 == b.w3 && a.w2 == b.w2 && a.w1 == b.w1 && a.w0 == b.w0) by (nonlinear_arith)
        requires
            (a.w0 as nat) + (a.w1 as nat) * 0x1_0000_0000_0000_0000 + (a.w2 as nat)
                * 0x1_0000_0000_0000_0000 * 0x1_0000_0000_0000_0000 + (a.w3 as nat)
                * 0x1_0000_0000_0000_0000 * 0x1_0000_0000_0000_0000 * 0x1_0000_0000_0000_0000 == (
            b.w0 as nat) + (b.w1 as nat) * 0x1_0000_0000_0000_0000 + (b.w2 as nat)
                * 0x1_0000_0000_0000_0000 * 0x1_0000_0000_0000_0000 + (b.w3 as nat)
                * 0x1_0000_0000_0000_0000 * 0x1_0000_0000_0000_0000 * 0x1_0000_0000_0000_0000,
    ;
}

/// The amount that spells a number; there is one for every number below two to the
/// power 256, and no more than one.
pub open spec fn amount_of(n: nat) -> Amount {
    choose|a: Amount| a@ == n
}

/// An amount is the one that spells its number.
pub proof fn lemma_amount_of_view(a: Amount)
    ensures
        amount_of(a@) == a,
{
    let b = amount_of(a@);
    assert(b@ == a@);
    lemma_view_injective(a, b);
}

/// Every number below two to the power 256 is spelled by an amount.
pub proof fn lemma_amount_of_spells(n: nat)
    requires
        n < amount_limit(),
    ensures
        amount_of(n)@ == n,
{
    let w: int = 0x1_0000_0000_0000_0000;
    let q1 = n as int / w;
    let r0 = n as int % w;
    let q2 = q1 / w;
    let r1 = q1 % w;
    let q3 = q2 / w;
    let r2 = q2 % w;
    assert(n == r0 + w * q1);
    assert(q1 == r1 + w * q2);
    assert(q2 == r2 + w * q3);
    assert(0 <= q3 < w) by (nonlinear_arith)
        requires
            n < w * w * w * w,
            n == r0 + w * q1,
            q1 == r1 + w * q2,
            q2 == r2 + w * q3,
            0 <= r0,
            0 <= r1,
            0 <= r2,
            0 <= q3,
            w > 0,
    ;
    let a = Amount { w0: r0 as u64, w1: r1 as u64, w2: r2 as u64, w3: q3 as u64 };
    assert(a@ == n) by (nonlinear_arith)
        requires
            a@ == r0 + r1 * w + r2 * w * w + q3 * w * w * w,
            n == r0 + w * q1,
            q1 == r1 + w * q2,
            q2 == r2 + w * q3,
    ;
}

/// Every amount lies below two to the power 256.
pub proof fn lemma_view_bounded(a: Amount)
    ensures
        a@ < amount_limit(),
{
}

/// Product of two amounts, by `U256::checked_mul` of ethers: the exact product where it
/// fits 256 bits, nothing where it does not.
#[verifier::external_body]
pub(crate) fn checked_mul(a: Amount, b: Amount) -> (r: Option<Amount>)
    ensures
        a@ * b@ < amount_limit() ==> r.is_some() && r.unwrap()@ == a@ * b@,
        a@ * b@ >= amount_limit() ==> r.is_none(),
{
    let x = ethers::types::U256([a.w0, a.w1, a.w2, a.w3]);
    let y = ethers::types::U256([b.w0, b.w1, b.w2, b.w3]);
    match x.checked_mul(y) {
        Some(p) => Some(Amount { w0: p.0[0], w1: p.0[1], w2: p.0[2], w3: p.0[3] }),
        None => None,
    }
}

/// Difference of two amounts, by `U256::checked_sub` of ethers: the exact difference
/// where the first is at least the second, nothing where it is smaller.
#[verifier::external_body]
pub(crate) fn checked_sub(a: Amount, b: Amount) -> (r: Option<Amount>)
    ensures
        a@ >= b@ ==> r.is_some() && r.unwrap()@ == a@ - b@,
        a@ < b@ ==> r.is_none(),
{
    let x = ethers::types::U256([a.w0, a.w1, a.w2, a.w3]);
    let y = ethers::types::U256([b.w0, b.w1, b.w2, b.w3]);
    match x.checked_sub(y) {
        Some(d) => Some(Amount { w0: d.0[0], w1: d.0[1], w2: d.0[2], w3: d.0[3] }),
        None => None,
    }
}

/// Quotient of two amounts, by the division operator of ethers' `U256`, which rounds
/// towards zero and panics on a zero divisor.
#[verifier::external_body]
pub(crate) fn quotient(a: Amount, b: Amount) -> (r: Amount)
    requires
        b@ > 0,
    ensures
        r@ == a@ / b@,
{
    let x = ethers::types::U256([a.w0, a.w1, a.w2, a.w3]);
    let y = ethers::types::U256([b.w0, b.w1, b.w2, b.w3]);
    let q = x / y;
    Amount { w0: q.0[0], w1: q.0[1], w2: q.0[2], w3: q.0[3] }
}

/// Ten to the power `n`, by `U256::exp10` of ethers, which panics where the power
/// does not fit 256 bits; up to the 77th power it does.
#[verifier::external_body]
pub(crate) fn power_of_ten(n: u8) -> (r: Amount)
    requires
        n <= 77,
    ensures
        r@ == pow10(n as nat),
{
    let p = ethers::types::U256::exp10(usize::from(n));
    Amount { w0: p.0[0], w1: p.0[1], w2: p.0[2], w3: p.0[3] }
}

/// What is left of `quote` after the tolerated slippage is taken off, rounded down.
pub open spec fn after_slippage(quote: nat, slippage_bps: nat) -> nat
    recommends
        slippage_bps <= BPS_DENOMINATOR,
{
    quote * ((BPS_DENOMINATOR - slippage_bps) as nat) / (BPS_DENOMINATOR as nat)
}

/// The worth in millionths of a dollar of `amount` smallest units of an asset that
/// has `decimals` decimal places and costs `price` millionths of a dollar a piece,
/// rounded down. An asset with more decimal places than can be scaled in 256 bits
/// is worth nothing.
pub open spec fn worth(amount: nat, decimals: nat, price: nat) -> nat {
    if decimals > MAX_SCALE_DIGITS {
        0
    } else {
        amount * price / pow10(decimals)
    }
}

/// The worth of an amount as a 64-bit number of millionths of a dollar, where it can
/// be told: where the product of amount and price fits 256 bits and the worth fits
/// 64 bits.
pub open spec fn valuation(amount: nat, decimals: u8, price: u64) -> Option<u64> {
    if decimals > MAX_SCALE_DIGITS {
        Some(0)
    } else if amount * (price as nat) >= amount_limit() {
        None
    } else if worth(amount, decimals as nat, price as nat) > u64::MAX {
        None
    } else {
        Some(worth(amount, decimals as nat, price as nat) as u64)
    }
}

/// Why a quantity could not be computed.
#[derive(Clone, Copy, Debug, PartialEq, Eq, Structural)]
pub enum ArithmeticError {
    /// The slippage tolerance is more than the whole.
    SlippageOutOfRange,
    /// An intermediate product does not fit 256 bits.
    ProductOverflow,
    /// The result does not fit 64 bits.
    ValueOverflow,
}

/// The least output that a swap quoted at `quote` may deliver under a slippage
/// tolerance: the quote less the tolerated share, rounded down. There is none where
/// the tolerance exceeds the whole, nor where scaling the quote leaves 256 bits.
pub open spec fn slippage_floor(quote: Amount, slippage_bps: u16) -> Result<
    Amount,
    ArithmeticError,
> {
    if slippage_bps > BPS_DENOMINATOR {
        Err(ArithmeticError::SlippageOutOfRange)
    } else if quote@ * ((BPS_DENOMINATOR - slippage_bps) as nat) >= amount_limit() {
        Err(ArithmeticError::ProductOverflow)
    } else {
        Ok(amount_of(after_slippage(quote@, slippage_bps as nat)))
    }
}

impl Amount {
    /// The amount zero.
    pub fn zero() -> (r: Amount)
        ensures
            r@ == 0,
    {
        Amount { w0: 0, w1: 0, w2: 0, w3: 0 }
    }

    /// The largest amount: two to the power 256, less one.
    pub fn max_value() -> (r: Amount)
        ensures
            r@ == amount_limit() - 1,
    {
        Amount { w0: u64::MAX, w1: u64::MAX, w2: u64::MAX, w3: u64::MAX }
    }

    /// The amount that equals a 64-bit number.
    pub fn from_u64(x: u64) -> (r: Amount)
        ensures
            r@ == x,
    {
        Amount { w0: x, w1: 0, w2: 0, w3: 0 }
    }

    /// The amount that equals a 128-bit number.
    pub fn from_u128(x: u128) -> (r: Amount)
        ensures
            r@ == x,
    {
        let low: u64 = (x & 0xffff_ffff_ffff_ffff) as u64;
        let high: u64 = (x >> 64) as u64;
        assert(x == (x & 0xffff_ffff_ffff_ffff) + (x >> 64) * 0x1_0000_0000_0000_0000)
            by (bit_vector);
        assert((x & 0xffff_ffff_ffff_ffff) <= 0xffff_ffff_ffff_ffff) by (bit_vector);
        assert((x >> 64) <= 0xffff_ffff_ffff_ffff) by (bit_vector);
        Amount { w0: low, w1: high, w2: 0, w3: 0 }
    }

    /// The amount as a 64-bit number, where it is that small.
    pub fn to_u64(&self) -> (r: Option<u64>)
        ensures
            self@ <= u64::MAX ==> r == Some(self@ as u64),
            self@ > u64::MAX ==> r.is_none(),
    {
        if self.w1 == 0 && self.w2 == 0 && self.w3 == 0 {
            Some(self.w0)
        } else {
            None
        }
    }

    /// The amount as a 128-bit number, where it is that small.
    pub fn to_u128(&self) -> (r: Option<u128>)
        ensures
            self@ <= u128::MAX ==> r == Some(self@ as u128),
            self@ > u128::MAX ==> r.is_none(),
    {
        if self.w2 == 0 && self.w3 == 0 {
            let high: u128 = self.w1 as u128;
            let low: u128 = self.w0 as u128;
            Some(high * 0x1_0000_0000_0000_0000 + low)
        } else {
            None
        }
    }

    /// Whether the amount is zero.
    pub fn is_zero(&self) -> (b: bool)
        ensures
            b == (self@ == 0),
    {
        self.w0 == 0 && self.w1 == 0 && self.w2 == 0 && self.w3 == 0
    }

    /// Whether `self` is at least `other`.
    pub fn ge(&self, other: &Amount) -> (b: bool)
        ensures
            b == (self@ >= other@),
    {
        if self.w3 != other.w3 {
            self.w3 > other.w3
        } else if self.w2 != other.w2 {
            self.w2 > other.w2
        } else if self.w1 != other.w1 {
            self.w1 > other.w1
        } else {
            self.w0 >= other.w0
        }
    }

    /// The least output that a swap quoted at `self` may deliver under a slippage
    /// tolerance of `slippage_bps` hundredths of a percent.
    ///
    /// Fails where the tolerance exceeds the whole, and where the quote is so large
    /// that scaling it leaves 256 bits.
    pub fn min_output(&self, slippage_bps: u16) -> (r: Result<Amount, ArithmeticError>)
        ensures
            r == slippage_floor(*self, slippage_bps),
            r.is_ok() ==> r.unwrap()@ == after_slippage(self@, slippage_bps as nat),
    {
        if slippage_bps as u64 > BPS_DENOMINATOR {
            return Err(ArithmeticError::SlippageOutOfRange);
        }
        let kept: u64 = BPS_DENOMINATOR - slippage_bps as u64;
        match self::checked_mul(*self, Amount::from_u64(kept)) {
            None => Err(ArithmeticError::ProductOverflow),
            Some(scaled) => {
                let floor = quotient(scaled, Amount::from_u64(BPS_DENOMINATOR));
                proof {
                    lemma_amount_of_view(floor);
                }
                Ok(floor)
            },
        }
    }

    /// The worth of this many smallest units of an asset, in millionths of a dollar.
    ///
    /// Fails where the product of amount and price leaves 256 bits, and where the
    /// worth leaves 64 bits.
    pub fn value_usd(&self, decimals: u8, price: u64) -> (r: Result<u64, ArithmeticError>)
        ensures
            r.is_ok() == valuation(self@, decimals, price).is_some(),
            r.is_ok() ==> r.unwrap() == valuation(self@, decimals, price).unwrap(),
            r.is_err() ==> r.unwrap_err() == (if self@ * (price as nat) >= amount_limit() {
                ArithmeticError::ProductOverflow
            } else {
                ArithmeticError::ValueOverflow
            }),
    {
        if decimals > MAX_SCALE_DIGITS {
            return Ok(0);
        }
        match self::checked_mul(*self, Amount::from_u64(price)) {
            None => Err(ArithmeticError::ProductOverflow),
            Some(product) => {
                proof {
                    lemma_pow10_positive(decimals as nat);
                }
                let scaled = quotient(product, power_of_ten(decimals));
                match scaled.to_u64() {
                    Some(v) => Ok(v),
                    None => Err(ArithmeticError::ValueOverflow),
                }
            },
        }
    }
}

} // verus!
