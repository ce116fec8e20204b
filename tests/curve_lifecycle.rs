use bonding_curve::{
    advance_mint, close_curve, get_price, initialize_curve, mint_edition,
    mint_edition_with_bezier_lookup, update_curve, BondingCurve, BondingCurveError, CurveType, Key,
    MintAttempt, MintEvent, MintStage,
};

fn key(b: u8) -> Key {
    Key::new([b; 32])
}

fn linear_curve(base: u64, inc: u64, max: u32) -> BondingCurve {
    initialize_curve(key(1), key(2), CurveType::Linear, base, inc, max, None, None, 254).unwrap()
}

fn complete(curve: &mut BondingCurve, mut attempt: MintAttempt) -> MintAttempt {
    assert_eq!(attempt.stage, MintStage::AwaitingPayment);
    advance_mint(curve, &mut attempt, MintEvent::PaymentSucceeded);
    assert_eq!(attempt.stage, MintStage::AwaitingIssuance);
    assert!(attempt.fits_curve(curve));
    advance_mint(curve, &mut attempt, MintEvent::IssuanceSucceeded);
    assert_eq!(attempt.stage, MintStage::Completed);
    attempt
}

fn mint_next(curve: &mut BondingCurve) -> MintAttempt {
    let attempt = mint_edition(curve).unwrap();
    complete(curve, attempt)
}

#[test]
fn linear_scenario_three_mints_then_exhausted() {
    let mut curve = linear_curve(1000, 100, 3);
    let mut paid = Vec::new();
    for expected in [1000u64, 1100, 1200] {
        assert_eq!(get_price(&curve), Ok(expected));
        let attempt = mint_edition(&curve).unwrap();
        assert_eq!(attempt.price, expected);
        assert_eq!(attempt.payee, key(1));
        let done = complete(&mut curve, attempt);
        paid.push(done.price);
    }
    assert_eq!(paid, vec![1000, 1100, 1200]);
    assert_eq!(curve.current_supply, 3);
    assert_eq!(curve.total_volume, 3300);
    assert_eq!(mint_edition(&curve).unwrap_err(), BondingCurveError::MaxSupplyReached);
    assert_eq!(get_price(&curve), Err(BondingCurveError::MaxSupplyReached));
}

#[test]
fn editions_are_numbered_from_pre_mint_supply() {
    let mut curve = linear_curve(5, 5, 10);
    for n in 1..=4u32 {
        let attempt = mint_edition(&curve).unwrap();
        assert_eq!(attempt.edition, n);
        complete(&mut curve, attempt);
        assert_eq!(curve.current_supply, n);
    }
    assert_eq!(curve.total_volume, 5 + 10 + 15 + 20);
}

#[test]
fn volume_is_the_sum_of_collected_prices() {
    let mut curve = initialize_curve(key(1), key(2), CurveType::Logarithmic, 100, 50, 8, None, None, 1).unwrap();
    let mut sum = 0u64;
    for _ in 0..8 {
        let done = mint_next(&mut curve);
        sum += done.price;
        assert_eq!(curve.total_volume, sum);
    }
    assert_eq!(sum, 100 + 150 + 150 + 200 + 200 + 200 + 200 + 250);
}

#[test]
fn cap_reached_leaves_state_unchanged() {
    let mut curve = linear_curve(10, 1, 0);
    let before = curve;
    assert_eq!(mint_edition(&curve).unwrap_err(), BondingCurveError::MaxSupplyReached);
    curve.max_supply = 1;
    mint_next(&mut curve);
    let after_one = curve;
    assert_eq!(mint_edition(&curve).unwrap_err(), BondingCurveError::MaxSupplyReached);
    assert_eq!(curve.current_supply, after_one.current_supply);
    assert_eq!(curve.total_volume, after_one.total_volume);
    assert_eq!(before.current_supply, 0);
}

#[test]
fn failed_issuance_reverses_payment_and_keeps_totals() {
    let mut curve = linear_curve(1000, 100, 3);
    let mut attempt = mint_edition(&curve).unwrap();
    advance_mint(&mut curve, &mut attempt, MintEvent::PaymentSucceeded);
    advance_mint(&mut curve, &mut attempt, MintEvent::IssuanceFailed);
    assert_eq!(attempt.stage, MintStage::Refunding);
    assert_eq!(curve.current_supply, 0);
    assert_eq!(curve.total_volume, 0);
    advance_mint(&mut curve, &mut attempt, MintEvent::PaymentReversed);
    assert_eq!(attempt.stage, MintStage::Aborted(BondingCurveError::IssuanceFailed));
    assert_eq!(curve.current_supply, 0);
    assert_eq!(curve.total_volume, 0);
    // A fresh attempt still mints the first edition at the first price.
    let retry = mint_next(&mut curve);
    assert_eq!((retry.edition, retry.price), (1, 1000));
    assert_eq!(curve.total_volume, 1000);
}

#[test]
fn failed_payment_aborts_without_issuance() {
    let mut curve = linear_curve(1000, 100, 3);
    let mut attempt = mint_edition(&curve).unwrap();
    advance_mint(&mut curve, &mut attempt, MintEvent::PaymentFailed);
    assert_eq!(attempt.stage, MintStage::Aborted(BondingCurveError::PaymentFailed));
    // Later events have no effect on a finished attempt.
    advance_mint(&mut curve, &mut attempt, MintEvent::IssuanceSucceeded);
    assert_eq!(attempt.stage, MintStage::Aborted(BondingCurveError::PaymentFailed));
    assert_eq!(curve.current_supply, 0);
    assert_eq!(curve.total_volume, 0);
}

#[test]
fn issuance_before_payment_is_ignored() {
    let mut curve = linear_curve(1000, 100, 3);
    let mut attempt = mint_edition(&curve).unwrap();
    advance_mint(&mut curve, &mut attempt, MintEvent::IssuanceSucceeded);
    assert_eq!(attempt.stage, MintStage::AwaitingPayment);
    assert_eq!(curve.current_supply, 0);
}

#[test]
fn stale_attempt_no_longer_fits() {
    let mut curve = linear_curve(1000, 100, 3);
    let first = mint_edition(&curve).unwrap();
    let second = mint_edition(&curve).unwrap();
    assert!(second.fits_curve(&curve));
    complete(&mut curve, first);
    assert!(!second.fits_curve(&curve));
}

#[test]
fn volume_overflow_is_refused_before_payment() {
    let mut curve = linear_curve(10, 0, 5);
    curve.total_volume = u64::MAX - 5;
    assert_eq!(mint_edition(&curve).unwrap_err(), BondingCurveError::ArithmeticOverflow);
    curve.total_volume = u64::MAX - 10;
    assert!(mint_edition(&curve).is_ok());
}

#[test]
fn interpolated_range_is_validated_at_creation() {
    let err = initialize_curve(key(1), key(2), CurveType::Bezier, 0, 0, 10, Some(2000), Some(1000), 0);
    assert_eq!(err.unwrap_err(), BondingCurveError::InvalidPriceRange);
    let c = initialize_curve(key(1), key(2), CurveType::Bezier, 0, 0, 10, Some(1000), Some(2000), 0).unwrap();
    assert_eq!((c.bezier_min_price, c.bezier_max_price), (1000, 2000));
    assert_eq!(get_price(&c), Ok(1100));
    let d = initialize_curve(key(1), key(2), CurveType::Linear, 77, 0, 10, None, None, 0).unwrap();
    assert_eq!((d.bezier_min_price, d.bezier_max_price), (77, 77));
    assert_eq!((d.current_supply, d.total_volume), (0, 0));
}

#[test]
fn update_requires_the_authority() {
    let mut curve = linear_curve(1000, 100, 3);
    let before = curve;
    assert_eq!(update_curve(&mut curve, &key(9), Some(1), Some(2), Some(5)), Err(BondingCurveError::Unauthorized));
    // Refused even with a cap that would otherwise be invalid.
    mint_next(&mut curve);
    assert_eq!(update_curve(&mut curve, &key(9), None, None, Some(0)), Err(BondingCurveError::Unauthorized));
    assert_eq!(curve.base_price, before.base_price);
    assert_eq!(curve.max_supply, before.max_supply);
}

#[test]
fn update_refuses_cap_below_supply() {
    let mut curve = linear_curve(1000, 100, 3);
    mint_next(&mut curve);
    mint_next(&mut curve);
    assert_eq!(update_curve(&mut curve, &key(1), Some(5), None, Some(1)), Err(BondingCurveError::InvalidMaxSupply));
    assert_eq!(curve.base_price, 1000);
    assert_eq!(curve.max_supply, 3);
    assert_eq!(update_curve(&mut curve, &key(1), None, None, Some(2)), Ok(()));
    assert_eq!(curve.max_supply, 2);
}

#[test]
fn update_changes_only_given_fields() {
    let mut curve = linear_curve(1000, 100, 3);
    assert_eq!(update_curve(&mut curve, &key(1), None, Some(7), None), Ok(()));
    assert_eq!((curve.base_price, curve.price_increment, curve.max_supply), (1000, 7, 3));
    assert_eq!(update_curve(&mut curve, &key(1), Some(3), None, Some(9)), Ok(()));
    assert_eq!((curve.base_price, curve.price_increment, curve.max_supply), (3, 7, 9));
    assert_eq!(get_price(&curve), Ok(3));
}

#[test]
fn close_requires_authority_and_empty_curve() {
    let mut curve = linear_curve(1000, 100, 3);
    assert_eq!(close_curve(&curve, &key(9)), Err(BondingCurveError::Unauthorized));
    assert_eq!(close_curve(&curve, &key(1)), Ok(()));
    mint_next(&mut curve);
    assert_eq!(close_curve(&curve, &key(1)), Err(BondingCurveError::CurveNotEmpty));
    assert_eq!(close_curve(&curve, &key(9)), Err(BondingCurveError::Unauthorized));
}

#[test]
fn keys_compare_by_bytes() {
    let mut b = [3u8; 32];
    assert!(Key::new(b).same_as(&key(3)));
    b[31] = 4;
    assert!(!Key::new(b).same_as(&key(3)));
    assert!(Key::new(b) != key(3));
}

#[test]
fn inverted_range_is_refused_for_every_curve_type() {
    for kind in [CurveType::Linear, CurveType::Exponential, CurveType::Logarithmic, CurveType::Bezier] {
        let r = initialize_curve(key(1), key(2), kind, 0, 0, 10, Some(2000), Some(1000), 0);
        assert_eq!(r.unwrap_err(), BondingCurveError::InvalidPriceRange);
    }
    // A default ceiling (the base price) below an explicit floor is inverted too.
    let r = initialize_curve(key(1), key(2), CurveType::Linear, 500, 0, 10, Some(600), None, 0);
    assert_eq!(r.unwrap_err(), BondingCurveError::InvalidPriceRange);
    let r = initialize_curve(key(1), key(2), CurveType::Linear, 500, 0, 10, Some(400), None, 0);
    assert!(r.is_ok());
}
