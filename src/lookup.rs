use vstd::prelude::*;
use crate::curve::BondingCurve;
use crate::error::BondingCurveError;
use crate::key::Key;
use crate::price::CurveType;

verus! {

/// A write-once table of precomputed prices for an interpolated curve:
/// entry `i` is the price of edition `i + 1`.
#[derive(Clone, Debug)]
pub struct BezierPriceLookup {
    /// The curve record that owns this table.
    pub bonding_curve: Key,
    pub prices: Vec<u64>,
    pub bump: u8,
}

impl BezierPriceLookup {
    /// The table holds a price for the edition with 1-based index `edition`.
    pub open spec fn has_price(&self, edition: int) -> bool {
        1 <= edition <= self.prices@.len()
    }

    /// The stored price of the edition with 1-based index `edition`.
    pub open spec fn stored_price(&self, edition: int) -> u64 {
        self.prices@[edition - 1]
    }

    /// The stored price of the edition with 1-based index `edition`.
    pub fn price_at(&self, edition: u32) -> (r: Result<u64, BondingCurveError>)
        ensures
            r is Ok <==> self.has_price(edition as int),
            r is Ok ==> r->Ok_0 == self.stored_price(edition as int),
            r is Err ==> r == Err::<u64, BondingCurveError>(BondingCurveError::PriceNotFound),
    {
        if edition == 0 || edition as usize > self.prices.len() {
            return Err(BondingCurveError::PriceNotFound);
        }
        Ok(self.prices[edition as usize - 1])
    }
}

/// Creates the price table of `curve`, whose record is `curve_key`.
///
/// Refused unless the curve is interpolated, `caller` is its authority, and
/// the table holds no more prices than the supply cap.
pub fn initialize_bezier_lookup(
    curve: &BondingCurve,
    curve_key: Key,
    caller: &Key,
    prices: Vec<u64>,
    bump: u8,
) -> (r: Result<BezierPriceLookup, BondingCurveError>)
    ensures
        curve.curve_type != CurveType::Bezier ==> r == Err::<
            BezierPriceLookup,
            BondingCurveError,
        >(BondingCurveError::InvalidCurveType),
        curve.curve_type == CurveType::Bezier && caller@ != curve.authority@ ==> r == Err::<
            BezierPriceLookup,
            BondingCurveError,
        >(BondingCurveError::Unauthorized),
        curve.curve_type == CurveType::Bezier && caller@ == curve.authority@ && prices@.len()
            > curve.max_supply ==> r == Err::<BezierPriceLookup, BondingCurveError>(
            BondingCurveError::InvalidPriceLookup,
        ),
        r is Ok <==> curve.curve_type == CurveType::Bezier && caller@ == curve.authority@
            && prices@.len() <= curve.max_supply,
        r is Ok ==> r->Ok_0.bonding_curve == curve_key && r->Ok_0.prices@ == prices@
            && r->Ok_0.bump == bump,
{
    if curve.curve_type != CurveType::Bezier {
        return Err(BondingCurveError::InvalidCurveType);
    }
    if !caller.same_as(&curve.authority) {
        return Err(BondingCurveError::Unauthorized);
    }
    if prices.len() > curve.max_supply as usize {
        return Err(BondingCurveError::InvalidPriceLookup);
    }
    Ok(BezierPriceLookup { bonding_curve: curve_key, prices, bump })
}

} // verus!
