use bonding_curve::{calculate_price, BondingCurveError, CurveType};

fn price(kind: CurveType, base: u64, inc: u64, edition: u32, floor: u64, ceiling: u64, max: u32) -> Result<u64, BondingCurveError> {
    calculate_price(&kind, base, inc, edition, floor, ceiling, max)
}

#[test]
fn linear_formula() {
    assert_eq!(price(CurveType::Linear, 1000, 100, 1, 0, 0, 3), Ok(1000));
    assert_eq!(price(CurveType::Linear, 1000, 100, 2, 0, 0, 3), Ok(1100));
    assert_eq!(price(CurveType::Linear, 1000, 100, 3, 0, 0, 3), Ok(1200));
    assert_eq!(price(CurveType::Linear, 7, 3, 11, 0, 0, 0), Ok(37));
}

#[test]
fn exponential_formula_truncates_growth() {
    assert_eq!(price(CurveType::Exponential, 1000, 500, 1, 0, 0, 100), Ok(1000));
    assert_eq!(price(CurveType::Exponential, 1000, 500, 3, 0, 0, 100), Ok(1000));
    assert_eq!(price(CurveType::Exponential, 1000, 500, 21, 0, 0, 100), Ok(2000));
    assert_eq!(price(CurveType::Exponential, 1000, 500, 41, 0, 0, 100), Ok(3000));
    assert_eq!(price(CurveType::Exponential, 1000, 10000, 2, 0, 0, 100), Ok(2000));
}

#[test]
fn logarithmic_formula_uses_floor_log2() {
    assert_eq!(price(CurveType::Logarithmic, 100, 50, 1, 0, 0, 0), Ok(100));
    assert_eq!(price(CurveType::Logarithmic, 100, 50, 2, 0, 0, 0), Ok(150));
    assert_eq!(price(CurveType::Logarithmic, 100, 50, 3, 0, 0, 0), Ok(150));
    assert_eq!(price(CurveType::Logarithmic, 100, 50, 4, 0, 0, 0), Ok(200));
    assert_eq!(price(CurveType::Logarithmic, 100, 50, 1000, 0, 0, 0), Ok(550));
    assert_eq!(price(CurveType::Logarithmic, 100, 50, 1024, 0, 0, 0), Ok(600));
    assert_eq!(price(CurveType::Logarithmic, 0, 1, u32::MAX, 0, 0, 0), Ok(31));
}

#[test]
fn interpolated_formula() {
    assert_eq!(price(CurveType::Bezier, 0, 0, 1, 1000, 2000, 10), Ok(1100));
    assert_eq!(price(CurveType::Bezier, 0, 0, 5, 1000, 2000, 10), Ok(1500));
    assert_eq!(price(CurveType::Bezier, 0, 0, 10, 1000, 2000, 10), Ok(2000));
    assert_eq!(price(CurveType::Bezier, 0, 0, 3, 1000, 2000, 7), Ok(1428));
    assert_eq!(price(CurveType::Bezier, 0, 0, 4, 500, 500, 7), Ok(500));
}

#[test]
fn edition_zero_is_a_domain_error() {
    for kind in [CurveType::Linear, CurveType::Exponential, CurveType::Logarithmic, CurveType::Bezier] {
        assert_eq!(price(kind, 1000, 100, 0, 0, 10, 3), Err(BondingCurveError::InvalidEdition));
    }
}

#[test]
fn interpolation_without_supply_is_a_domain_error() {
    assert_eq!(price(CurveType::Bezier, 0, 0, 1, 0, 10, 0), Err(BondingCurveError::InvalidEdition));
}

#[test]
fn inverted_interpolation_range_is_refused() {
    assert_eq!(price(CurveType::Bezier, 0, 0, 1, 2000, 1000, 10), Err(BondingCurveError::InvalidPriceRange));
}

#[test]
fn overflow_is_reported_not_wrapped() {
    assert_eq!(price(CurveType::Linear, u64::MAX, 1, 2, 0, 0, 0), Err(BondingCurveError::ArithmeticOverflow));
    assert_eq!(price(CurveType::Linear, 0, u64::MAX, 3, 0, 0, 0), Err(BondingCurveError::ArithmeticOverflow));
    assert_eq!(price(CurveType::Linear, u64::MAX, 0, 5, 0, 0, 0), Ok(u64::MAX));
    // The growth product overflows even though the base is zero.
    assert_eq!(price(CurveType::Exponential, 0, u64::MAX, 3, 0, 0, 0), Err(BondingCurveError::ArithmeticOverflow));
    assert_eq!(price(CurveType::Exponential, u64::MAX, 10000, 2, 0, 0, 0), Err(BondingCurveError::ArithmeticOverflow));
    assert_eq!(price(CurveType::Logarithmic, 0, u64::MAX, 4, 0, 0, 0), Err(BondingCurveError::ArithmeticOverflow));
    assert_eq!(price(CurveType::Bezier, 0, 0, 2, 0, u64::MAX, 1), Err(BondingCurveError::ArithmeticOverflow));
}

#[test]
fn prices_never_fall_as_editions_advance() {
    let kinds = [CurveType::Linear, CurveType::Exponential, CurveType::Logarithmic, CurveType::Bezier];
    for kind in kinds {
        let mut last = 0u64;
        for edition in 1..=300u32 {
            let p = price(kind, 1000, 250, edition, 100, 9000, 300).unwrap();
            assert!(p >= last, "{:?} fell at edition {}", kind, edition);
            last = p;
        }
    }
}
