use vstd::prelude::*;
use crate::error::BondingCurveError;
use crate::key::Key;
use crate::price::{calculate_price, price_domain_ok, price_fits, price_value, CurveType};

verus! {

/// The persistent configuration and running totals of one collection's curve.
#[derive(Clone, Copy, Debug)]
pub struct BondingCurve {
    /// The only identity that may change or close this curve.
    pub authority: Key,
    /// The collection this curve prices.
    pub collection_mint: Key,
    pub curve_type: CurveType,
    pub base_price: u64,
    pub price_increment: u64,
    pub max_supply: u32,
    /// Editions minted so far.
    pub current_supply: u32,
    /// Sum of the prices collected so far.
    pub total_volume: u64,
    /// Derivation nonce of the curve's own signing capability.
    pub bump: u8,
    /// Floor of the interpolated curve.
    pub bezier_min_price: u64,
    /// Ceiling of the interpolated curve.
    pub bezier_max_price: u64,
}

/// `o`'s value if it holds one, else `v`.
pub open spec fn or_keep<T>(o: Option<T>, v: T) -> T {
    match o {
        Some(x) => x,
        None => v,
    }
}

impl BondingCurve {
    /// The supply never exceeds the cap, and an interpolated curve's range is not inverted.
    pub open spec fn wf(&self) -> bool {
        &&& self.current_supply <= self.max_supply
        &&& self.curve_type == CurveType::Bezier ==> self.bezier_min_price <= self.bezier_max_price
    }

    /// The 1-based index of the edition that the next mint issues.
    pub open spec fn next_edition(&self) -> int {
        self.current_supply + 1
    }

    /// The curve's closed-form price for the next edition is defined and fits in 64 bits.
    pub open spec fn next_price_ok(&self) -> bool {
        &&& price_domain_ok(self.curve_type, self.next_edition(), self.bezier_min_price as int,
            self.bezier_max_price as int, self.max_supply as int)
        &&& price_fits(self.curve_type, self.base_price as int, self.price_increment as int,
            self.next_edition(), self.bezier_min_price as int, self.bezier_max_price as int,
            self.max_supply as int)
    }

    /// The curve's closed-form price for the next edition.
    pub open spec fn next_price(&self) -> int {
        price_value(self.curve_type, self.base_price as int, self.price_increment as int,
            self.next_edition(), self.bezier_min_price as int, self.bezier_max_price as int,
            self.max_supply as int)
    }
}

/// Creates the curve of a collection, with no editions minted and no volume.
///
/// The interpolation floor and ceiling default to the base price; a ceiling
/// below the floor is refused, whatever the curve type.
pub fn initialize_curve(
    authority: Key,
    collection_mint: Key,
    curve_type: CurveType,
    base_price: u64,
    price_increment: u64,
    max_supply: u32,
    bezier_min_price: Option<u64>,
    bezier_max_price: Option<u64>,
    bump: u8,
) -> (r: Result<BondingCurve, BondingCurveError>)
    ensures
        r is Err <==> or_keep(bezier_max_price, base_price) < or_keep(bezier_min_price, base_price),
        r is Err ==> r == Err::<BondingCurve, BondingCurveError>(BondingCurveError::InvalidPriceRange),
        r is Ok ==> r->Ok_0 == (BondingCurve {
            authority,
            collection_mint,
            curve_type,
            base_price,
            price_increment,
            max_supply,
            current_supply: 0,
            total_volume: 0,
            bump,
            bezier_min_price: or_keep(bezier_min_price, base_price),
            bezier_max_price: or_keep(bezier_max_price, base_price),
        }),
        r is Ok ==> r->Ok_0.wf(),
{
    let floor = match bezier_min_price {
        Some(p) => p,
        None => base_price,
    };
    let ceiling = match bezier_max_price {
        Some(p) => p,
        None => base_price,
    };
    if ceiling < floor {
        return Err(BondingCurveError::InvalidPriceRange);
    }
    Ok(BondingCurve {
        authority,
        collection_mint,
        curve_type,
        base_price,
        price_increment,
        max_supply,
        current_supply: 0,
        total_volume: 0,
        bump,
        bezier_min_price: floor,
        bezier_max_price: ceiling,
    })
}

/// The closed-form price that the next mint would pay, without changing the curve.
pub fn get_price(curve: &BondingCurve) -> (r: Result<u64, BondingCurveError>)
    ensures
        r is Ok <==> curve.current_supply < curve.max_supply && curve.next_price_ok(),
        r is Ok ==> r->Ok_0 == curve.next_price(),
        curve.current_supply >= curve.max_supply
            ==> r == Err::<u64, BondingCurveError>(BondingCurveError::MaxSupplyReached),
        curve.current_supply < curve.max_supply && curve.curve_type == CurveType::Bezier
            && curve.bezier_max_price < curve.bezier_min_price
            ==> r == Err::<u64, BondingCurveError>(BondingCurveError::InvalidPriceRange),
        curve.current_supply < curve.max_supply && (curve.curve_type == CurveType::Bezier
            ==> curve.bezier_min_price <= curve.bezier_max_price) && !curve.next_price_ok()
            ==> r == Err::<u64, BondingCurveError>(BondingCurveError::ArithmeticOverflow),
{
    if curve.current_supply >= curve.max_supply {
        return Err(BondingCurveError::MaxSupplyReached);
    }
    calculate_price(
        &curve.curve_type,
        curve.base_price,
        curve.price_increment,
        curve.current_supply + 1,
        curve.bezier_min_price,
        curve.bezier_max_price,
        curve.max_supply,
    )
}

/// Changes any of the base price, the increment and the supply cap.
///
/// Only the authority may do so, and the cap may not fall below the editions
/// already minted. On any error the curve is left as it was.
pub fn update_curve(
    curve: &mut BondingCurve,
    caller: &Key,
    new_base_price: Option<u64>,
    new_price_increment: Option<u64>,
    new_max_supply: Option<u32>,
) -> (r: Result<(), BondingCurveError>)
    ensures
        caller@ != old(curve).authority@ ==> r == Err::<(), BondingCurveError>(
            BondingCurveError::Unauthorized),
        caller@ == old(curve).authority@ && new_max_supply is Some
            && new_max_supply->Some_0 < old(curve).current_supply
            ==> r == Err::<(), BondingCurveError>(BondingCurveError::InvalidMaxSupply),
        r is Ok <==> caller@ == old(curve).authority@ && (new_max_supply is Some
            ==> new_max_supply->Some_0 >= old(curve).current_supply),
        r is Err ==> *final(curve) == *old(curve),
        r is Ok ==> *final(curve) == (BondingCurve {
            base_price: or_keep(new_base_price, old(curve).base_price),
            price_increment: or_keep(new_price_increment, old(curve).price_increment),
            max_supply: or_keep(new_max_supply, old(curve).max_supply),
            ..*old(curve)
        }),
        old(curve).wf() ==> final(curve).wf(),
{
    if !caller.same_as(&curve.authority) {
        return Err(BondingCurveError::Unauthorized);
    }
    if let Some(max_supply) = new_max_supply {
        if max_supply < curve.current_supply {
            return Err(BondingCurveError::InvalidMaxSupply);
        }
    }
    if let Some(base_price) = new_base_price {
        curve.base_price = base_price;
    }
    if let Some(increment) = new_price_increment {
        curve.price_increment = increment;
    }
    if let Some(max_supply) = new_max_supply {
        curve.max_supply = max_supply;
    }
    Ok(())
}

/// Decides whether `caller` may close the curve: only its authority, and only
/// while no edition has been minted. The storage is then reclaimed by the caller.
pub fn close_curve(curve: &BondingCurve, caller: &Key) -> (r: Result<(), BondingCurveError>)
    ensures
        caller@ != curve.authority@ ==> r == Err::<(), BondingCurveError>(
            BondingCurveError::Unauthorized),
        caller@ == curve.authority@ && curve.current_supply != 0 ==> r == Err::<
            (),
            BondingCurveError,
        >(BondingCurveError::CurveNotEmpty),
        r is Ok <==> caller@ == curve.authority@ && curve.current_supply == 0,
{
    if !caller.same_as(&curve.authority) {
        return Err(BondingCurveError::Unauthorized);
    }
    if curve.current_supply != 0 {
        return Err(BondingCurveError::CurveNotEmpty);
    }
    Ok(())
}

} // verus!
