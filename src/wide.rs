//! Unsigned 256-bit integers for intermediate products, held as two 128-bit
//! words. The arithmetic itself is ethnum's `U256`.
use vstd::prelude::*;
use ethnum::U256;

verus! {

/// 2^128, the weight of the high word.
pub open spec fn word_base() -> int {
    0x1_0000_0000_0000_0000_0000_0000_0000_0000int
}

/// 2^256, one past the largest value a `Wide` holds.
pub open spec fn wide_limit() -> int {
    0x1_0000_0000_0000_0000_0000_0000_0000_0000_0000_0000_0000_0000_0000_0000_0000_0000int
}

/// An unsigned 256-bit integer: `hi * 2^128 + lo`.
#[derive(Clone, Copy, Debug, PartialEq, Eq, Structural)]
pub struct Wide {
    pub hi: u128,
    pub lo: u128,
}

impl Wide {
    pub open spec fn value(self) -> int {
        self.hi * word_base() + self.lo
    }

    pub fn from_u128(x: u128) -> (r: Wide)
        ensures
            r.value() == x,
    {
        Wide { hi: 0, lo: x }
    }

    pub fn is_zero(&self) -> (r: bool)
        ensures
            r == (self.value() == 0),
    {
        proof {
            let b = word_base();
            let h = self.hi as int;
            assert(h * b >= 0 && (h > 0 ==> h * b >= b)) by (nonlinear_arith)
                requires
                    b > 0,
                    h >= 0,
            {
            }
        }
        self.hi == 0 && self.lo == 0
    }
}

/// Relies on `ethnum::U256::checked_mul`: the product, or `None` where it
/// does not fit in 256 bits.
#[verifier::external_body]
pub(crate) fn checked_mul(a: Wide, b: Wide) -> (r: Option<Wide>)
    ensures
        r is Some <==> a.value() * b.value() < wide_limit(),
        r matches Some(p) ==> p.value() == a.value() * b.value(),
{
    match U256::from_words(a.hi, a.lo).checked_mul(U256::from_words(b.hi, b.lo)) {
        Some(p) => {
            let (hi, lo) = p.into_words();
            Some(Wide { hi, lo })
        },
        None => None,
    }
}

/// Relies on `ethnum::U256::checked_add`: the sum, or `None` where it does
/// not fit in 256 bits.
#[verifier::external_body]
pub(crate) fn checked_add(a: Wide, b: Wide) -> (r: Option<Wide>)
    ensures
        r is Some <==> a.value() + b.value() < wide_limit(),
        r matches Some(p) ==> p.value() == a.value() + b.value(),
{
    match U256::from_words(a.hi, a.lo).checked_add(U256::from_words(b.hi, b.lo)) {
        Some(p) => {
            let (hi, lo) = p.into_words();
            Some(Wide { hi, lo })
        },
        None => None,
    }
}

/// Relies on `ethnum::U256::div_rem`: floor quotient and remainder; it
/// panics on a zero divisor, which `requires` rules out.
#[verifier::external_body]
pub(crate) fn div_rem(n: Wide, d: Wide) -> (r: (Wide, Wide))
    requires
        d.value() > 0,
    ensures
        r.0.value() == n.value() / d.value(),
        r.1.value() == n.value() % d.value(),
{
    let (q, m) = U256::from_words(n.hi, n.lo).div_rem(U256::from_words(d.hi, d.lo));
    let (q_hi, q_lo) = q.into_words();
    let (m_hi, m_lo) = m.into_words();
    (Wide { hi: q_hi, lo: q_lo }, Wide { hi: m_hi, lo: m_lo })
}

/// Relies on ethnum's `TryFrom<U256> for u64`: the value where it is at most
/// `u64::MAX`, else an error.
#[verifier::external_body]
pub(crate) fn to_u64(a: Wide) -> (r: Option<u64>)
    ensures
        r is Some <==> a.value() <= u64::MAX,
        r matches Some(v) ==> v == a.value(),
{
    u64::try_from(U256::from_words(a.hi, a.lo)).ok()
}

} // verus!
