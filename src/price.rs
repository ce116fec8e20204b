use vstd::prelude::*;
use crate::error::BondingCurveError;

verus! {

/// The pricing strategy of a curve.
#[derive(Clone, Copy, Debug, PartialEq, Eq, Structural)]
pub enum CurveType {
    Linear,
    Exponential,
    Logarithmic,
    Bezier,
}

/// Growth rates and interpolation progress are counted in basis points.
pub const BASIS_POINTS: u64 = 10000;

/// `floor(log2(n))`, with the logarithm of 0 and 1 taken as 0.
pub open spec fn log2_floor(n: nat) -> nat
    decreases n,
{
    if n <= 1 {
        0
    } else {
        1 + log2_floor(n / 2)
    }
}

/// Interpolation progress of an edition through the supply, in basis points.
pub open spec fn progress_bps(edition: int, max_supply: int) -> int {
    (edition * 10000) / max_supply
}

/// The growth term of an exponential curve, in whole multiples of the base price.
pub open spec fn growth_multiplier(price_increment: int, edition: int) -> int {
    (price_increment * (edition - 1)) / 10000
}

/// The product that a curve multiplies before it adds the base (or floor) price.
pub open spec fn step_product(
    kind: CurveType,
    base_price: int,
    price_increment: int,
    edition: int,
    floor: int,
    ceiling: int,
    max_supply: int,
) -> int {
    match kind {
        CurveType::Linear => (edition - 1) * price_increment,
        CurveType::Exponential => base_price * growth_multiplier(price_increment, edition),
        CurveType::Logarithmic => price_increment * log2_floor(edition as nat),
        CurveType::Bezier => (ceiling - floor) * progress_bps(edition, max_supply),
    }
}

/// The exact price of the edition with the given 1-based index.
pub open spec fn price_value(
    kind: CurveType,
    base_price: int,
    price_increment: int,
    edition: int,
    floor: int,
    ceiling: int,
    max_supply: int,
) -> int {
    let p = step_product(kind, base_price, price_increment, edition, floor, ceiling, max_supply);
    match kind {
        CurveType::Bezier => floor + p / 10000,
        _ => base_price + p,
    }
}

/// The inputs on which a price is defined: a 1-based edition and, for the
/// interpolated curve, a non-empty supply and a ceiling no lower than the floor.
pub open spec fn price_domain_ok(
    kind: CurveType,
    edition: int,
    floor: int,
    ceiling: int,
    max_supply: int,
) -> bool {
    &&& edition >= 1
    &&& kind == CurveType::Bezier ==> max_supply > 0 && floor <= ceiling
}

/// Every intermediate value of the evaluation fits in 64 bits.
pub open spec fn price_fits(
    kind: CurveType,
    base_price: int,
    price_increment: int,
    edition: int,
    floor: int,
    ceiling: int,
    max_supply: int,
) -> bool {
    &&& kind == CurveType::Exponential ==> price_increment * (edition - 1) <= u64::MAX
    &&& step_product(kind, base_price, price_increment, edition, floor, ceiling, max_supply)
        <= u64::MAX
    &&& price_value(kind, base_price, price_increment, edition, floor, ceiling, max_supply)
        <= u64::MAX
}

proof fn lemma_log2_below(n: nat)
    requires
        n >= 1,
    ensures
        log2_floor(n) < n,
    decreases n,
{
    if n > 1 {
        lemma_log2_below(n / 2);
    }
}

proof fn lemma_log2_monotonic(a: nat, b: nat)
    requires
        a <= b,
    ensures
        log2_floor(a) <= log2_floor(b),
    decreases b,
{
    if a > 1 {
        lemma_log2_monotonic(a / 2, b / 2);
    }
}

/// `floor(log2(n))` for a positive 32-bit integer.
fn log2_floor_u32(n: u32) -> (r: u32)
    requires
        n >= 1,
    ensures
        r == log2_floor(n as nat),
{
    let mut x: u32 = n;
    let mut k: u32 = 0;
    proof {
        lemma_log2_below(n as nat);
    }
    while x > 1
        invariant
            x >= 1,
            k + log2_floor(x as nat) == log2_floor(n as nat),
            log2_floor(n as nat) < n,
        decreases x,
    {
        x = x / 2;
        k = k + 1;
    }
    k
}

/// The price of the edition with 1-based index `edition`, evaluated with
/// checked 64-bit arithmetic.
///
/// The interpolated (`Bezier`) curve moves from `floor` towards `ceiling` as
/// the edition advances through `max_supply`; the other curves start at
/// `base_price` and grow by `price_increment` (basis points per edition for
/// `Exponential`).
pub fn calculate_price(
    curve_type: &CurveType,
    base_price: u64,
    price_increment: u64,
    edition: u32,
    floor: u64,
    ceiling: u64,
    max_supply: u32,
) -> (r: Result<u64, BondingCurveError>)
    ensures
        r is Ok <==> price_domain_ok(*curve_type, edition as int, floor as int, ceiling as int, max_supply as int)
            && price_fits(*curve_type, base_price as int, price_increment as int, edition as int,
                floor as int, ceiling as int, max_supply as int),
        r is Ok ==> r->Ok_0 == price_value(*curve_type, base_price as int, price_increment as int,
            edition as int, floor as int, ceiling as int, max_supply as int),
        edition == 0 ==> r == Err::<u64, BondingCurveError>(BondingCurveError::InvalidEdition),
        edition > 0 && *curve_type == CurveType::Bezier && max_supply == 0
            ==> r == Err::<u64, BondingCurveError>(BondingCurveError::InvalidEdition),
        edition > 0 && *curve_type == CurveType::Bezier && max_supply > 0 && ceiling < floor
            ==> r == Err::<u64, BondingCurveError>(BondingCurveError::InvalidPriceRange),
        price_domain_ok(*curve_type, edition as int, floor as int, ceiling as int, max_supply as int)
            && !price_fits(*curve_type, base_price as int, price_increment as int, edition as int,
                floor as int, ceiling as int, max_supply as int)
            ==> r == Err::<u64, BondingCurveError>(BondingCurveError::ArithmeticOverflow),
{
    if edition == 0 {
        return Err(BondingCurveError::InvalidEdition);
    }
    let steps = (edition - 1) as u64;
    match curve_type {
        CurveType::Linear => {
            let p = match steps.checked_mul(price_increment) {
                Some(p) => p,
                None => return Err(BondingCurveError::ArithmeticOverflow),
            };
            match base_price.checked_add(p) {
                Some(v) => Ok(v),
                None => Err(BondingCurveError::ArithmeticOverflow),
            }
        },
        CurveType::Exponential => {
            let scaled = match price_increment.checked_mul(steps) {
                Some(s) => s,
                None => return Err(BondingCurveError::ArithmeticOverflow),
            };
            let multiplier = scaled / BASIS_POINTS;
            let p = match base_price.checked_mul(multiplier) {
                Some(p) => p,
                None => return Err(BondingCurveError::ArithmeticOverflow),
            };
            match base_price.checked_add(p) {
                Some(v) => Ok(v),
                None => Err(BondingCurveError::ArithmeticOverflow),
            }
        },
        CurveType::Logarithmic => {
            let log = log2_floor_u32(edition) as u64;
            let p = match price_increment.checked_mul(log) {
                Some(p) => p,
                None => return Err(BondingCurveError::ArithmeticOverflow),
            };
            match base_price.checked_add(p) {
                Some(v) => Ok(v),
                None => Err(BondingCurveError::ArithmeticOverflow),
            }
        },
        CurveType::Bezier => {
            if max_supply == 0 {
                return Err(BondingCurveError::InvalidEdition);
            }
            if ceiling < floor {
                return Err(BondingCurveError::InvalidPriceRange);
            }
            assert(edition as u64 * 10000 <= u64::MAX) by (nonlinear_arith)
                requires
                    edition <= u32::MAX,
            ;
            let progress = (edition as u64 * BASIS_POINTS) / max_supply as u64;
            let range = ceiling - floor;
            let p = match range.checked_mul(progress) {
                Some(p) => p,
                None => return Err(BondingCurveError::ArithmeticOverflow),
            };
            match floor.checked_add(p / BASIS_POINTS) {
                Some(v) => Ok(v),
                None => Err(BondingCurveError::ArithmeticOverflow),
            }
        },
    }
}

/// On valid inputs every price is a non-negative amount.
pub proof fn lemma_price_nonneg(
    kind: CurveType,
    base_price: u64,
    price_increment: u64,
    edition: u32,
    floor: u64,
    ceiling: u64,
    max_supply: u32,
)
    requires
        price_domain_ok(kind, edition as int, floor as int, ceiling as int, max_supply as int),
    ensures
        price_value(kind, base_price as int, price_increment as int, edition as int, floor as int,
            ceiling as int, max_supply as int) >= 0,
{
    let b = base_price as int;
    let inc = price_increment as int;
    let e = edition as int;
    match kind {
        CurveType::Linear => {
            assert((e - 1) * inc >= 0) by (nonlinear_arith)
                requires
                    e >= 1,
                    inc >= 0,
            ;
        },
        CurveType::Exponential => {
            assert(inc * (e - 1) >= 0) by (nonlinear_arith)
                requires
                    e >= 1,
                    inc >= 0,
            ;
            let m = growth_multiplier(inc, e);
            assert(b * m >= 0) by (nonlinear_arith)
                requires
                    m >= 0,
                    b >= 0,
            ;
        },
        CurveType::Logarithmic => {
            let l = log2_floor(e as nat) as int;
            assert(inc * l >= 0) by (nonlinear_arith)
                requires
                    l >= 0,
                    inc >= 0,
            ;
        },
        CurveType::Bezier => {
            let m = max_supply as int;
            let range = ceiling as int - floor as int;
            let pr = progress_bps(e, m);
            assert(pr >= 0) by (nonlinear_arith)
                requires
                    e >= 1,
                    m > 0,
                    pr == (e * 10000) / m,
            ;
            assert(range * pr >= 0) by (nonlinear_arith)
                requires
                    pr >= 0,
                    range >= 0,
            ;
        },
    }
}

/// Prices never fall as editions advance: on every curve kind, for valid
/// editions `e1 < e2` on the same parameters, the price of `e1` is at most
/// the price of `e2`.
pub proof fn lemma_price_monotonic(
    kind: CurveType,
    base_price: u64,
    price_increment: u64,
    e1: u32,
    e2: u32,
    floor: u64,
    ceiling: u64,
    max_supply: u32,
)
    requires
        price_domain_ok(kind, e1 as int, floor as int, ceiling as int, max_supply as int),
        e1 < e2,
    ensures
        price_value(kind, base_price as int, price_increment as int, e1 as int, floor as int,
            ceiling as int, max_supply as int) <= price_value(kind, base_price as int,
            price_increment as int, e2 as int, floor as int, ceiling as int, max_supply as int),
{
    let b = base_price as int;
    let inc = price_increment as int;
    let a1 = e1 as int;
    let a2 = e2 as int;
    match kind {
        CurveType::Linear => {
            assert((a1 - 1) * inc <= (a2 - 1) * inc) by (nonlinear_arith)
                requires
                    1 <= a1 <= a2,
                    inc >= 0,
            ;
        },
        CurveType::Exponential => {
            assert(inc * (a1 - 1) <= inc * (a2 - 1)) by (nonlinear_arith)
                requires
                    1 <= a1 <= a2,
                    inc >= 0,
            ;
            vstd::arithmetic::div_mod::lemma_div_is_ordered(inc * (a1 - 1), inc * (a2 - 1), 10000);
            let m1 = growth_multiplier(inc, a1);
            let m2 = growth_multiplier(inc, a2);
            assert(b * m1 <= b * m2) by (nonlinear_arith)
                requires
                    m1 <= m2,
                    b >= 0,
            ;
        },
        CurveType::Logarithmic => {
            lemma_log2_monotonic(a1 as nat, a2 as nat);
            let l1 = log2_floor(a1 as nat) as int;
            let l2 = log2_floor(a2 as nat) as int;
            assert(inc * l1 <= inc * l2) by (nonlinear_arith)
                requires
                    l1 <= l2,
                    inc >= 0,
            ;
        },
        CurveType::Bezier => {
            let m = max_supply as int;
            let range = ceiling as int - floor as int;
            assert(a1 * 10000 <= a2 * 10000);
            vstd::arithmetic::div_mod::lemma_div_is_ordered(a1 * 10000, a2 * 10000, m);
            let p1 = progress_bps(a1, m);
            let p2 = progress_bps(a2, m);
            assert(range * p1 <= range * p2) by (nonlinear_arith)
                requires
                    p1 <= p2,
                    range >= 0,
            ;
            vstd::arithmetic::div_mod::lemma_div_is_ordered(range * p1, range * p2, 10000);
        },
    }
}

} // verus!
