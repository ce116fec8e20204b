use vstd::prelude::*;
use crate::curve::BondingCurve;
use crate::error::BondingCurveError;
use crate::key::Key;
use crate::lookup::BezierPriceLookup;
use crate::price::{calculate_price, lemma_price_nonneg, price_domain_ok, price_fits, price_value, CurveType};

verus! {

/// Where a mint attempt stands. Each stage names the outside work that comes next.
#[derive(Clone, Copy, Debug, PartialEq, Eq, Structural)]
pub enum MintStage {
    /// The price is to be transferred from the buyer to the payee.
    AwaitingPayment,
    /// Payment settled; one unit is to be issued to the buyer.
    AwaitingIssuance,
    /// Issuance failed after payment; the payment is to be reversed.
    Refunding,
    /// The unit was issued and paid for; supply and volume are committed.
    Completed,
    /// The attempt ended without effect on the curve.
    Aborted(BondingCurveError),
}

/// The outcome of the outside work that a stage asked for.
#[derive(Clone, Copy, Debug, PartialEq, Eq, Structural)]
pub enum MintEvent {
    PaymentSucceeded,
    PaymentFailed,
    IssuanceSucceeded,
    IssuanceFailed,
    PaymentReversed,
}

/// One mint attempt against a curve: the edition it issues and the price it collects.
#[derive(Clone, Copy, Debug)]
pub struct MintAttempt {
    /// 1-based index of the edition being minted.
    pub edition: u32,
    /// The amount the buyer pays.
    pub price: u64,
    /// Who receives the payment: the curve's authority.
    pub payee: Key,
    pub stage: MintStage,
}

/// The curve after one more edition was sold at `price`.
pub open spec fn committed(c: BondingCurve, price: u64) -> BondingCurve {
    BondingCurve {
        current_supply: (c.current_supply + 1) as u32,
        total_volume: (c.total_volume + price) as u64,
        ..c
    }
}

/// The stage that follows `stage` once `event` is reported.
pub open spec fn next_stage(stage: MintStage, event: MintEvent) -> MintStage {
    match (stage, event) {
        (MintStage::AwaitingPayment, MintEvent::PaymentSucceeded) => MintStage::AwaitingIssuance,
        (MintStage::AwaitingPayment, MintEvent::PaymentFailed) => MintStage::Aborted(
            BondingCurveError::PaymentFailed,
        ),
        (MintStage::AwaitingIssuance, MintEvent::IssuanceSucceeded) => MintStage::Completed,
        (MintStage::AwaitingIssuance, MintEvent::IssuanceFailed) => MintStage::Refunding,
        (MintStage::Refunding, MintEvent::PaymentReversed) => MintStage::Aborted(
            BondingCurveError::IssuanceFailed,
        ),
        _ => stage,
    }
}

impl MintAttempt {
    /// The attempt still matches the curve: it mints the curve's next edition,
    /// under the cap, and its price can be added to the volume.
    pub open spec fn fits(&self, curve: BondingCurve) -> bool {
        &&& self.edition == curve.current_supply + 1
        &&& curve.current_supply < curve.max_supply
        &&& curve.total_volume + self.price <= u64::MAX
    }

    /// Tests whether the attempt still matches the curve.
    pub fn fits_curve(&self, curve: &BondingCurve) -> (r: bool)
        ensures
            r == self.fits(*curve),
    {
        curve.current_supply < curve.max_supply && self.edition == curve.current_supply + 1
            && self.price <= u64::MAX - curve.total_volume
    }
}

/// An attempt that collects `price` for the curve's next edition, or the
/// error that refuses it before any payment is asked for.
fn open_attempt(curve: &BondingCurve, price: u64) -> (r: Result<MintAttempt, BondingCurveError>)
    requires
        curve.current_supply < curve.max_supply,
    ensures
        r is Ok <==> curve.total_volume + price <= u64::MAX,
        r is Err ==> r == Err::<MintAttempt, BondingCurveError>(
            BondingCurveError::ArithmeticOverflow,
        ),
        r is Ok ==> r->Ok_0 == (MintAttempt {
            edition: (curve.current_supply + 1) as u32,
            price,
            payee: curve.authority,
            stage: MintStage::AwaitingPayment,
        }),
        r is Ok ==> r->Ok_0.fits(*curve),
{
    if price > u64::MAX - curve.total_volume {
        return Err(BondingCurveError::ArithmeticOverflow);
    }
    Ok(MintAttempt {
        edition: curve.current_supply + 1,
        price,
        payee: curve.authority,
        stage: MintStage::AwaitingPayment,
    })
}

/// Opens a mint attempt for the curve's next edition at its closed-form price.
///
/// Refused when the supply cap is reached, when the price is undefined or
/// overflows, or when the volume could not take the price.
pub fn mint_edition(curve: &BondingCurve) -> (r: Result<MintAttempt, BondingCurveError>)
    ensures
        curve.current_supply >= curve.max_supply ==> r == Err::<MintAttempt, BondingCurveError>(
            BondingCurveError::MaxSupplyReached,
        ),
        r is Ok <==> curve.current_supply < curve.max_supply && curve.next_price_ok()
            && curve.total_volume + curve.next_price() <= u64::MAX,
        curve.current_supply < curve.max_supply && curve.curve_type == CurveType::Bezier
            && curve.bezier_max_price < curve.bezier_min_price
            ==> r == Err::<MintAttempt, BondingCurveError>(BondingCurveError::InvalidPriceRange),
        curve.current_supply < curve.max_supply && (curve.curve_type == CurveType::Bezier
            ==> curve.bezier_min_price <= curve.bezier_max_price) && !(curve.next_price_ok()
            && curve.total_volume + curve.next_price() <= u64::MAX)
            ==> r == Err::<MintAttempt, BondingCurveError>(BondingCurveError::ArithmeticOverflow),
        r is Ok ==> r->Ok_0.edition == curve.next_edition() && r->Ok_0.price == curve.next_price()
            && r->Ok_0.payee == curve.authority && r->Ok_0.stage == MintStage::AwaitingPayment,
        r is Ok ==> r->Ok_0.fits(*curve),
{
    if curve.current_supply >= curve.max_supply {
        return Err(BondingCurveError::MaxSupplyReached);
    }
    let price = calculate_price(
        &curve.curve_type,
        curve.base_price,
        curve.price_increment,
        curve.current_supply + 1,
        curve.bezier_min_price,
        curve.bezier_max_price,
        curve.max_supply,
    )?;
    open_attempt(curve, price)
}

/// Opens a mint attempt for the curve's next edition at the price stored in
/// its table. `curve_key` is the curve's record, which the table must belong to.
pub fn mint_edition_with_bezier_lookup(
    curve: &BondingCurve,
    curve_key: &Key,
    lookup: &BezierPriceLookup,
) -> (r: Result<MintAttempt, BondingCurveError>)
    ensures
        curve.current_supply >= curve.max_supply ==> r == Err::<MintAttempt, BondingCurveError>(
            BondingCurveError::MaxSupplyReached,
        ),
        curve.current_supply < curve.max_supply && lookup.bonding_curve@ != curve_key@ ==> r
            == Err::<MintAttempt, BondingCurveError>(BondingCurveError::InvalidPriceLookup),
        curve.current_supply < curve.max_supply && lookup.bonding_curve@ == curve_key@
            && !lookup.has_price(curve.next_edition()) ==> r == Err::<
            MintAttempt,
            BondingCurveError,
        >(BondingCurveError::PriceNotFound),
        curve.current_supply < curve.max_supply && lookup.bonding_curve@ == curve_key@
            && lookup.has_price(curve.next_edition()) && curve.total_volume + lookup.stored_price(
            curve.next_edition(),
        ) > u64::MAX ==> r == Err::<MintAttempt, BondingCurveError>(
            BondingCurveError::ArithmeticOverflow,
        ),
        r is Ok <==> curve.current_supply < curve.max_supply && lookup.bonding_curve@
            == curve_key@ && lookup.has_price(curve.next_edition()) && curve.total_volume
            + lookup.stored_price(curve.next_edition()) <= u64::MAX,
        r is Ok ==> r->Ok_0.edition == curve.next_edition() && r->Ok_0.price
            == lookup.stored_price(curve.next_edition()) && r->Ok_0.payee == curve.authority
            && r->Ok_0.stage == MintStage::AwaitingPayment,
        r is Ok ==> r->Ok_0.fits(*curve),
{
    if curve.current_supply >= curve.max_supply {
        return Err(BondingCurveError::MaxSupplyReached);
    }
    if !lookup.bonding_curve.same_as(curve_key) {
        return Err(BondingCurveError::InvalidPriceLookup);
    }
    let price = lookup.price_at(curve.current_supply + 1)?;
    open_attempt(curve, price)
}

/// The price that the next table-priced mint would charge, without changing
/// the curve: refused exactly when `mint_edition_with_bezier_lookup` would be.
pub fn get_price_with_bezier_lookup(
    curve: &BondingCurve,
    curve_key: &Key,
    lookup: &BezierPriceLookup,
) -> (r: Result<u64, BondingCurveError>)
    ensures
        curve.current_supply >= curve.max_supply ==> r == Err::<u64, BondingCurveError>(
            BondingCurveError::MaxSupplyReached,
        ),
        curve.current_supply < curve.max_supply && lookup.bonding_curve@ != curve_key@ ==> r
            == Err::<u64, BondingCurveError>(BondingCurveError::InvalidPriceLookup),
        curve.current_supply < curve.max_supply && lookup.bonding_curve@ == curve_key@
            && !lookup.has_price(curve.next_edition()) ==> r == Err::<u64, BondingCurveError>(
            BondingCurveError::PriceNotFound,
        ),
        curve.current_supply < curve.max_supply && lookup.bonding_curve@ == curve_key@
            && lookup.has_price(curve.next_edition()) && curve.total_volume + lookup.stored_price(
            curve.next_edition(),
        ) > u64::MAX ==> r == Err::<u64, BondingCurveError>(BondingCurveError::ArithmeticOverflow),
        r is Ok <==> curve.current_supply < curve.max_supply && lookup.bonding_curve@
            == curve_key@ && lookup.has_price(curve.next_edition()) && curve.total_volume
            + lookup.stored_price(curve.next_edition()) <= u64::MAX,
        r is Ok ==> r->Ok_0 == lookup.stored_price(curve.next_edition()),
{
    match mint_edition_with_bezier_lookup(curve, curve_key, lookup) {
        Ok(attempt) => Ok(attempt.price),
        Err(e) => Err(e),
    }
}

/// Moves a mint attempt on once the outside work of its stage has been done.
///
/// Supply and volume change only when issuance is confirmed after payment;
/// every other step leaves the curve as it was. A failed issuance asks for the
/// payment to be reversed before the attempt is given up.
pub fn advance_mint(curve: &mut BondingCurve, attempt: &mut MintAttempt, event: MintEvent)
    requires
        old(attempt).stage == MintStage::AwaitingIssuance ==> old(attempt).fits(*old(curve)),
    ensures
        final(attempt).stage == next_stage(old(attempt).stage, event),
        final(attempt).edition == old(attempt).edition,
        final(attempt).price == old(attempt).price,
        final(attempt).payee == old(attempt).payee,
        old(attempt).stage == MintStage::AwaitingIssuance && event == MintEvent::IssuanceSucceeded
            ==> *final(curve) == committed(*old(curve), old(attempt).price),
        !(old(attempt).stage == MintStage::AwaitingIssuance && event
            == MintEvent::IssuanceSucceeded) ==> *final(curve) == *old(curve),
        old(curve).wf() ==> final(curve).wf(),
{
    match (attempt.stage, event) {
        (MintStage::AwaitingPayment, MintEvent::PaymentSucceeded) => {
            attempt.stage = MintStage::AwaitingIssuance;
        },
        (MintStage::AwaitingPayment, MintEvent::PaymentFailed) => {
            attempt.stage = MintStage::Aborted(BondingCurveError::PaymentFailed);
        },
        (MintStage::AwaitingIssuance, MintEvent::IssuanceSucceeded) => {
            curve.current_supply = curve.current_supply + 1;
            curve.total_volume = curve.total_volume + attempt.price;
            attempt.stage = MintStage::Completed;
        },
        (MintStage::AwaitingIssuance, MintEvent::IssuanceFailed) => {
            attempt.stage = MintStage::Refunding;
        },
        (MintStage::Refunding, MintEvent::PaymentReversed) => {
            attempt.stage = MintStage::Aborted(BondingCurveError::IssuanceFailed);
        },
        _ => {},
    }
}

/// Sum of a sequence of prices.
pub open spec fn sum_prices(prices: Seq<u64>) -> int
    decreases prices.len(),
{
    if prices.len() == 0 {
        0
    } else {
        sum_prices(prices.drop_last()) + prices.last()
    }
}

/// The curve after the editions paid for with `prices` were committed, in order.
pub open spec fn after_mints(c: BondingCurve, prices: Seq<u64>) -> BondingCurve
    decreases prices.len(),
{
    if prices.len() == 0 {
        c
    } else {
        committed(after_mints(c, prices.drop_last()), prices.last())
    }
}

/// After `k` successful mints against a fresh curve, the supply is `k` and
/// the volume is exactly the sum of the `k` prices paid, in order.
///
/// A successful mint keeps the supply within 32 bits and the volume within 64
/// bits; those bounds are what a run of `k` successful mints implies.
pub proof fn lemma_supply_volume_consistency(c: BondingCurve, prices: Seq<u64>)
    requires
        c.current_supply == 0,
        c.total_volume == 0,
        prices.len() <= u32::MAX,
        sum_prices(prices) <= u64::MAX,
    ensures
        after_mints(c, prices).current_supply == prices.len(),
        after_mints(c, prices).total_volume == sum_prices(prices),
        after_mints(c, prices).max_supply == c.max_supply,
    decreases prices.len(),
{
    if prices.len() > 0 {
        let rest = prices.drop_last();
        assert(sum_prices(rest) <= sum_prices(prices));
        lemma_supply_volume_consistency(c, rest);
    }
}

proof fn lemma_sum_nonneg(p: Seq<u64>)
    ensures
        sum_prices(p) >= 0,
    decreases p.len(),
{
    if p.len() > 0 {
        lemma_sum_nonneg(p.drop_last());
    }
}

proof fn lemma_sum_prefix_step(p: Seq<u64>, i: int)
    requires
        0 <= i < p.len(),
    ensures
        sum_prices(p.take(i + 1)) == sum_prices(p.take(i)) + p[i],
{
    assert(p.take(i + 1).drop_last() =~= p.take(i));
}

proof fn lemma_sum_prefix_bounded(p: Seq<u64>, i: int)
    requires
        0 <= i <= p.len(),
    ensures
        sum_prices(p.take(i)) <= sum_prices(p),
    decreases p.len() - i,
{
    if i == p.len() {
        assert(p.take(i) =~= p);
    } else {
        lemma_sum_prefix_step(p, i);
        lemma_sum_prefix_bounded(p, i + 1);
    }
}

/// Committing prices changes only the supply and the volume, by the count and the sum.
proof fn lemma_after_mints_shape(c: BondingCurve, p: Seq<u64>)
    requires
        c.current_supply + p.len() <= u32::MAX,
        c.total_volume + sum_prices(p) <= u64::MAX,
    ensures
        after_mints(c, p) == (BondingCurve {
            current_supply: (c.current_supply + p.len()) as u32,
            total_volume: (c.total_volume + sum_prices(p)) as u64,
            ..c
        }),
    decreases p.len(),
{
    if p.len() > 0 {
        let q = p.drop_last();
        lemma_sum_nonneg(q);
        lemma_after_mints_shape(c, q);
        let prev = after_mints(c, q);
        assert(prev.current_supply == c.current_supply + q.len());
        assert(prev.total_volume == c.total_volume + sum_prices(q));
        assert(sum_prices(p) == sum_prices(q) + p.last());
        assert(after_mints(c, p) == committed(prev, p.last()));
    }
}

/// Along a run of mints that pays `p` against a fresh curve, the curve after
/// the first `i` mints has minted `i` editions, holds the sum of the first `i`
/// prices, keeps every parameter, and still has room under the cap and in the
/// volume for the next price.
pub proof fn lemma_mint_run(c0: BondingCurve, p: Seq<u64>)
    requires
        c0.current_supply == 0,
        c0.total_volume == 0,
        p.len() <= c0.max_supply,
        sum_prices(p) <= u64::MAX,
    ensures
        forall|i: int|
            0 <= i <= p.len() ==> #[trigger] after_mints(c0, p.take(i)) == (BondingCurve {
                current_supply: i as u32,
                total_volume: sum_prices(p.take(i)) as u64,
                ..c0
            }),
        forall|i: int|
            0 <= i < p.len() ==> #[trigger] after_mints(c0, p.take(i)).current_supply
                < c0.max_supply && after_mints(c0, p.take(i)).total_volume + p[i] <= u64::MAX,
{
    assert forall|i: int| 0 <= i <= p.len() implies #[trigger] after_mints(c0, p.take(i)) == (
    BondingCurve { current_supply: i as u32, total_volume: sum_prices(p.take(i)) as u64, ..c0 }) by {
        lemma_sum_nonneg(p.take(i));
        lemma_sum_prefix_bounded(p, i);
        lemma_after_mints_shape(c0, p.take(i));
    }
    assert forall|i: int| 0 <= i < p.len() implies #[trigger] after_mints(
        c0,
        p.take(i),
    ).current_supply < c0.max_supply && after_mints(c0, p.take(i)).total_volume + p[i]
        <= u64::MAX by {
        lemma_sum_nonneg(p.take(i));
        lemma_sum_prefix_bounded(p, i);
        lemma_after_mints_shape(c0, p.take(i));
        lemma_sum_prefix_step(p, i);
        lemma_sum_prefix_bounded(p, i + 1);
    }
}

/// The closed-form prices of editions `1..=k` of the curve `c`.
pub open spec fn quoted_prices(c: BondingCurve, k: nat) -> Seq<u64> {
    Seq::new(
        k,
        |i: int|
            price_value(c.curve_type, c.base_price as int, c.price_increment as int, i + 1,
                c.bezier_min_price as int, c.bezier_max_price as int, c.max_supply as int) as u64,
    )
}

/// `k` closed-form mints against a fresh curve: the `i`-th call of
/// `mint_edition` (0-based) sees the curve that the earlier `i` completed
/// mints left, succeeds, and charges the price of edition `i + 1`; after all
/// `k`, the supply is `k` and the volume the exact sum of those prices.
///
/// The requirements are those under which each of the `k` calls succeeds.
pub proof fn lemma_closed_form_mints(c0: BondingCurve, k: nat)
    requires
        c0.current_supply == 0,
        c0.total_volume == 0,
        k <= c0.max_supply,
        forall|e: int|
            1 <= e <= k ==> price_domain_ok(c0.curve_type, e, c0.bezier_min_price as int,
                c0.bezier_max_price as int, c0.max_supply as int) && #[trigger] price_fits(c0.curve_type,
                c0.base_price as int, c0.price_increment as int, e, c0.bezier_min_price as int,
                c0.bezier_max_price as int, c0.max_supply as int),
        sum_prices(quoted_prices(c0, k)) <= u64::MAX,
    ensures
        forall|i: int|
            0 <= i < k ==> {
                let s = #[trigger] after_mints(c0, quoted_prices(c0, k).take(i));
                &&& s.current_supply < s.max_supply
                &&& s.next_edition() == i + 1
                &&& s.next_price_ok()
                &&& s.next_price() == quoted_prices(c0, k)[i]
                &&& s.total_volume + s.next_price() <= u64::MAX
            },
        after_mints(c0, quoted_prices(c0, k)).current_supply == k,
        after_mints(c0, quoted_prices(c0, k)).total_volume == sum_prices(quoted_prices(c0, k)),
{
    let p = quoted_prices(c0, k);
    lemma_mint_run(c0, p);
    assert forall|i: int| 0 <= i < k implies {
        let s = #[trigger] after_mints(c0, p.take(i));
        &&& s.current_supply < s.max_supply
        &&& s.next_edition() == i + 1
        &&& s.next_price_ok()
        &&& s.next_price() == p[i]
        &&& s.total_volume + s.next_price() <= u64::MAX
    } by {
        let s = after_mints(c0, p.take(i));
        assert(s.next_edition() == i + 1);
        assert(price_fits(c0.curve_type, c0.base_price as int, c0.price_increment as int, i + 1,
            c0.bezier_min_price as int, c0.bezier_max_price as int, c0.max_supply as int));
        lemma_price_nonneg(c0.curve_type, c0.base_price, c0.price_increment, (i + 1) as u32,
            c0.bezier_min_price, c0.bezier_max_price, c0.max_supply);
    }
    lemma_supply_volume_consistency(c0, p);
}

/// `k` table-priced mints against a fresh curve: the `i`-th call of
/// `mint_edition_with_bezier_lookup` (0-based) sees the curve that the earlier
/// `i` completed mints left, succeeds, and charges the table's entry `i`;
/// after all `k`, the supply is `k` and the volume the exact sum of the first
/// `k` entries.
///
/// The requirements are those under which each of the `k` calls succeeds.
pub proof fn lemma_table_mints(
    c0: BondingCurve,
    curve_key: Key,
    lookup: BezierPriceLookup,
    k: nat,
)
    requires
        c0.current_supply == 0,
        c0.total_volume == 0,
        k <= c0.max_supply,
        k <= lookup.prices@.len(),
        lookup.bonding_curve@ == curve_key@,
        sum_prices(lookup.prices@.take(k as int)) <= u64::MAX,
    ensures
        forall|i: int|
            0 <= i < k ==> {
                let s = #[trigger] after_mints(c0, lookup.prices@.take(k as int).take(i));
                &&& s.current_supply < s.max_supply
                &&& s.next_edition() == i + 1
                &&& lookup.has_price(s.next_edition())
                &&& lookup.stored_price(s.next_edition()) == lookup.prices@[i]
                &&& s.total_volume + lookup.stored_price(s.next_edition()) <= u64::MAX
            },
        after_mints(c0, lookup.prices@.take(k as int)).current_supply == k,
        after_mints(c0, lookup.prices@.take(k as int)).total_volume == sum_prices(
            lookup.prices@.take(k as int),
        ),
{
    let p = lookup.prices@.take(k as int);
    lemma_mint_run(c0, p);
    assert forall|i: int| 0 <= i < k implies {
        let s = #[trigger] after_mints(c0, p.take(i));
        &&& s.current_supply < s.max_supply
        &&& s.next_edition() == i + 1
        &&& lookup.has_price(s.next_edition())
        &&& lookup.stored_price(s.next_edition()) == lookup.prices@[i]
        &&& s.total_volume + lookup.stored_price(s.next_edition()) <= u64::MAX
    } by {
        let s = after_mints(c0, p.take(i));
        assert(s.next_edition() == i + 1);
        assert(p[i] == lookup.prices@[i]);
    }
    lemma_supply_volume_consistency(c0, p);
}

} // verus!
