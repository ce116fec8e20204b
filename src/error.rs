use vstd::prelude::*;

verus! {

/// Every way in which an operation on a curve can be refused.
#[derive(Clone, Copy, Debug, PartialEq, Eq, Structural)]
pub enum BondingCurveError {
    /// The supply cap has been reached: no further edition can be minted.
    MaxSupplyReached,
    /// The caller is not the curve's authority.
    Unauthorized,
    /// A new supply cap would fall below the editions already minted.
    InvalidMaxSupply,
    /// The curve still has minted editions and cannot be closed.
    CurveNotEmpty,
    /// A price or a running total would not fit in 64 bits.
    ArithmeticOverflow,
    /// A price table holds more entries than the supply cap, or belongs to another curve.
    InvalidPriceLookup,
    /// The price table holds no entry for the requested edition.
    PriceNotFound,
    /// The operation needs a curve of another kind.
    InvalidCurveType,
    /// The edition index is zero, or the interpolation range is empty (no supply cap).
    InvalidEdition,
    /// The interpolation ceiling lies below its floor.
    InvalidPriceRange,
    /// The buyer's payment was not settled.
    PaymentFailed,
    /// The unit could not be issued; the payment is to be reversed.
    IssuanceFailed,
}

} // verus!
