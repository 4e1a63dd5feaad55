//! Smart order routing: split an order across venues, greedily taking the
//! cheapest remaining liquidity per unit after slippage and fees, and
//! execute the plan all-or-nothing.
use vstd::prelude::*;
use crate::errors::AutoTradeError;
use crate::math::{div_toward_zero, in_i128, min, tdiv};
use crate::storage::Signal;
use crate::store::OrdMap;

verus! {

pub const BPS_DENOMINATOR: i128 = 10_000;

#[derive(Clone, Copy, Debug, PartialEq, Eq, Structural)]
pub enum LiquidityVenue {
    Sdex,
    Pool,
    PathPayment,
}

#[derive(Clone, Copy, Debug, PartialEq, Eq, Structural)]
pub struct VenueLiquidity {
    pub venue: LiquidityVenue,
    pub venue_id: u32,
    pub available_amount: i128,
    pub price: i128,
    pub fee_bps: u32,
    /// Slippage (basis points) of taking the whole available amount.
    pub slippage_bps: u32,
}

#[derive(Clone, Copy, Debug, PartialEq, Eq, Structural)]
pub struct RouteSegment {
    pub venue: LiquidityVenue,
    pub venue_id: u32,
    pub amount: i128,
    pub execution_price: i128,
    pub fee_amount: i128,
    pub estimated_slippage_bps: u32,
}

#[derive(Debug)]
pub struct RoutingPlan {
    pub requested_amount: i128,
    pub allocated_amount: i128,
    pub average_price: i128,
    pub total_fees: i128,
    pub total_cost: i128,
    pub estimated_slippage_bps: u32,
    pub segments: Vec<RouteSegment>,
}

/// A venue's identity: its kind and id.
#[derive(Clone, Copy, Debug, PartialEq, Eq, Structural)]
pub struct VenueKey {
    pub venue: LiquidityVenue,
    pub venue_id: u32,
}

/// The identity of the venue a quote comes from.
pub fn venue_key(quote: &VenueLiquidity) -> (r: VenueKey)
    ensures
        r == (VenueKey { venue: quote.venue, venue_id: quote.venue_id }),
{
    VenueKey { venue: quote.venue, venue_id: quote.venue_id }
}

/// Amount and average price of an executed order.
#[derive(Clone, Copy, Debug, PartialEq, Eq, Structural)]
pub struct ExecutionResult {
    pub executed_amount: i128,
    pub executed_price: i128,
}

// ---------------------------------------------------------------------------
// Pricing a slice of a venue
// ---------------------------------------------------------------------------

/// Slippage of taking `amount` of `liquidity`: the venue's full-depth
/// slippage pro rata, rounded up; `u32::MAX` without liquidity.
pub open spec fn slippage_spec(amount: int, liquidity: int, max_slippage_bps: u32) -> u32 {
    if liquidity <= 0 { u32::MAX } else { tdiv(amount * max_slippage_bps + liquidity - 1, liquidity) as u32 }
}

pub fn compute_slippage_bps(amount: i128, liquidity: i128, max_slippage_bps: u32) -> (r: u32)
    requires
        liquidity > 0 ==> in_i128(amount * max_slippage_bps) && in_i128(amount * max_slippage_bps + liquidity)
            && in_i128(amount * max_slippage_bps + liquidity - 1),
    ensures
        r == slippage_spec(amount as int, liquidity as int, max_slippage_bps),
{
    if liquidity <= 0 {
        return u32::MAX;
    }
    let raw = div_toward_zero(amount * max_slippage_bps as i128 + liquidity - 1, liquidity);
    #[verifier::truncate] (raw as u32)
}

/// `bps` basis points of `value`, rounded up.
pub open spec fn bps_of(value: int, bps: u32) -> int {
    tdiv(value * bps + 9_999, 10_000)
}

pub fn apply_bps(value: i128, bps: u32) -> (r: i128)
    requires
        in_i128(value * bps),
        in_i128(value * bps + 9_999),
    ensures
        r == bps_of(value as int, bps),
{
    div_toward_zero(value * bps as i128 + (BPS_DENOMINATOR - 1), BPS_DENOMINATOR)
}

/// Amount already routed to one venue among the first `k` segments.
pub open spec fn allocated_spec(segs: Seq<RouteSegment>, venue: LiquidityVenue, venue_id: u32, k: int) -> int
    decreases k,
{
    if k <= 0 {
        0
    } else {
        allocated_spec(segs, venue, venue_id, k - 1)
            + if segs[k - 1].venue == venue && segs[k - 1].venue_id == venue_id { segs[k - 1].amount as int } else { 0int }
    }
}

pub open spec fn allocated_fits(segs: Seq<RouteSegment>, venue: LiquidityVenue, venue_id: u32) -> bool {
    forall|k: int| 0 < k <= segs.len() ==> in_i128(#[trigger] allocated_spec(segs, venue, venue_id, k))
}

pub fn allocated_for(segments: &Vec<RouteSegment>, venue: LiquidityVenue, venue_id: u32) -> (r: i128)
    requires
        allocated_fits(segments@, venue, venue_id),
    ensures
        r == allocated_spec(segments@, venue, venue_id, segments@.len() as int),
{
    let mut allocated: i128 = 0;
    let mut i: usize = 0;
    while i < segments.len()
        invariant
            i <= segments@.len(),
            allocated_fits(segments@, venue, venue_id),
            allocated == allocated_spec(segments@, venue, venue_id, i as int),
        decreases segments@.len() - i,
    {
        let segment = segments[i];
        assert(in_i128(allocated_spec(segments@, venue, venue_id, i + 1)));
        if segment.venue == venue && segment.venue_id == venue_id {
            allocated = allocated + segment.amount;
        }
        i = i + 1;
    }
    allocated
}

/// The slice a venue offers toward `remaining`, with its total cost and
/// amount: none when it has nothing left or would slip too far.
pub open spec fn candidate(v: VenueLiquidity, segs: Seq<RouteSegment>, remaining: int, max_slippage_bps: u32) -> Option<(RouteSegment, int, int)> {
    let alloc = min(remaining, v.available_amount - allocated_spec(segs, v.venue, v.venue_id, segs.len() as int));
    let slip = slippage_spec(alloc, v.available_amount as int, v.slippage_bps);
    let price = tdiv(v.price * (10_000 + slip), 10_000);
    let notional = alloc * price;
    let fee = bps_of(notional, v.fee_bps);
    if alloc <= 0 || slip > max_slippage_bps {
        None
    } else {
        Some((RouteSegment {
            venue: v.venue,
            venue_id: v.venue_id,
            amount: alloc as i128,
            execution_price: price as i128,
            fee_amount: fee as i128,
            estimated_slippage_bps: slip,
        }, notional + fee, alloc))
    }
}

/// Arithmetic of pricing one venue's slice stays in range.
pub open spec fn candidate_fits(v: VenueLiquidity, segs: Seq<RouteSegment>, remaining: int, max_slippage_bps: u32) -> bool {
    let alloc = min(remaining, v.available_amount - allocated_spec(segs, v.venue, v.venue_id, segs.len() as int));
    let slip = slippage_spec(alloc, v.available_amount as int, v.slippage_bps);
    let price = tdiv(v.price * (10_000 + slip), 10_000);
    &&& allocated_fits(segs, v.venue, v.venue_id)
    &&& in_i128(v.available_amount - allocated_spec(segs, v.venue, v.venue_id, segs.len() as int))
    &&& alloc > 0 ==> {
        &&& (v.available_amount > 0 ==> in_i128(alloc * v.slippage_bps) && in_i128(alloc * v.slippage_bps + v.available_amount)
            && in_i128(alloc * v.slippage_bps + v.available_amount - 1))
        &&& (slip <= max_slippage_bps ==> {
            &&& in_i128(v.price * (10_000 + slip))
            &&& in_i128(alloc * price)
            &&& in_i128(alloc * price * v.fee_bps)
            &&& in_i128(alloc * price * v.fee_bps + 9_999)
            &&& in_i128(alloc * price + bps_of(alloc * price, v.fee_bps))
        })
    }
}

/// The cheapest slice per unit among the first `k` venues; on a tie the
/// earlier venue is kept.
pub open spec fn best_upto(venues: Seq<VenueLiquidity>, segs: Seq<RouteSegment>, remaining: int, max_slippage_bps: u32, k: int)
    -> Option<(RouteSegment, int, int)>
    decreases k,
{
    if k <= 0 {
        None
    } else {
        let prev = best_upto(venues, segs, remaining, max_slippage_bps, k - 1);
        match candidate(venues[k - 1], segs, remaining, max_slippage_bps) {
            None => prev,
            Some(c) => match prev {
                None => Some(c),
                Some(b) => if c.1 * b.2 >= b.1 * c.2 { prev } else { Some(c) },
            },
        }
    }
}

pub open spec fn scan_fits(venues: Seq<VenueLiquidity>, segs: Seq<RouteSegment>, remaining: int, max_slippage_bps: u32) -> bool {
    forall|k: int| 0 <= k < venues.len() ==> {
        &&& candidate_fits(#[trigger] venues[k], segs, remaining, max_slippage_bps)
        &&& (candidate(venues[k], segs, remaining, max_slippage_bps) matches Some(c) ==>
            (best_upto(venues, segs, remaining, max_slippage_bps, k) matches Some(b) ==> in_i128(c.1 * b.2) && in_i128(b.1 * c.2)))
    }
}

proof fn lemma_candidate_amount(v: VenueLiquidity, segs: Seq<RouteSegment>, remaining: int, max_slippage_bps: u32)
    requires
        in_i128(remaining),
        in_i128(v.available_amount - allocated_spec(segs, v.venue, v.venue_id, segs.len() as int)),
    ensures
        candidate(v, segs, remaining, max_slippage_bps) matches Some(c) ==> 0 < c.0.amount <= remaining && c.2 == c.0.amount,
{
}

proof fn lemma_best_amount(venues: Seq<VenueLiquidity>, segs: Seq<RouteSegment>, remaining: int, max_slippage_bps: u32, k: int)
    requires
        in_i128(remaining),
        k <= venues.len(),
        scan_fits(venues, segs, remaining, max_slippage_bps),
    ensures
        best_upto(venues, segs, remaining, max_slippage_bps, k) matches Some(b) ==> 0 < b.0.amount <= remaining && b.2 == b.0.amount,
    decreases k,
{
    if k > 0 {
        lemma_best_amount(venues, segs, remaining, max_slippage_bps, k - 1);
        assert(candidate_fits(venues[k - 1], segs, remaining, max_slippage_bps));
        lemma_candidate_amount(venues[k - 1], segs, remaining, max_slippage_bps);
    }
}

// ---------------------------------------------------------------------------
// The greedy plan
// ---------------------------------------------------------------------------

/// Take the cheapest slice until the order is filled; fail when no venue
/// can supply more.
pub open spec fn greedy(venues: Seq<VenueLiquidity>, remaining: int, segs: Seq<RouteSegment>, max_slippage_bps: u32)
    -> Result<Seq<RouteSegment>, AutoTradeError>
    decreases remaining,
{
    if remaining <= 0 {
        Ok(segs)
    } else {
        match best_upto(venues, segs, remaining, max_slippage_bps, venues.len() as int) {
            None => Err(AutoTradeError::InsufficientLiquidity),
            Some(b) => if b.0.amount <= 0 || b.0.amount > remaining {
                Err(AutoTradeError::InsufficientLiquidity)
            } else {
                greedy(venues, remaining - b.0.amount, segs.push(b.0), max_slippage_bps)
            },
        }
    }
}

/// Arithmetic along the greedy path stays in range.
pub open spec fn greedy_fits(venues: Seq<VenueLiquidity>, remaining: int, segs: Seq<RouteSegment>, max_slippage_bps: u32) -> bool
    decreases remaining,
{
    if remaining <= 0 {
        true
    } else {
        &&& scan_fits(venues, segs, remaining, max_slippage_bps)
        &&& match best_upto(venues, segs, remaining, max_slippage_bps, venues.len() as int) {
            None => true,
            Some(b) => if b.0.amount <= 0 || b.0.amount > remaining {
                true
            } else {
                greedy_fits(venues, remaining - b.0.amount, segs.push(b.0), max_slippage_bps)
            },
        }
    }
}

/// Sums over the first `k` segments: amount, notional and fees.
pub open spec fn seg_sums(segs: Seq<RouteSegment>, k: int) -> (int, int, int)
    decreases k,
{
    if k <= 0 {
        (0, 0, 0)
    } else {
        let p = seg_sums(segs, k - 1);
        (p.0 + segs[k - 1].amount, p.1 + segs[k - 1].amount * segs[k - 1].execution_price, p.2 + segs[k - 1].fee_amount)
    }
}

pub open spec fn finalize_fits(segs: Seq<RouteSegment>, reference_price: int) -> bool {
    let t = seg_sums(segs, segs.len() as int);
    let avg = if t.0 == 0 { 0 } else { tdiv(t.1, t.0) };
    &&& forall|k: int| 0 < k <= segs.len() ==> {
        let p = #[trigger] seg_sums(segs, k);
        &&& in_i128(p.0) && in_i128(p.1) && in_i128(p.2)
        &&& in_i128(segs[k - 1].amount * segs[k - 1].execution_price)
    }
    &&& in_i128(t.1 + t.2)
    &&& t.0 != 0 ==> t.1 > i128::MIN || t.0 != -1
    &&& (reference_price > 0 && avg > reference_price) ==> in_i128((avg - reference_price) * 10_000)
}

/// The plan's totals: allocated amount, average price, fees, total cost and
/// slippage against the reference price; refused unless fully allocated
/// within the slippage bound.
pub open spec fn finalize_spec(reference_price: int, requested: int, segs: Seq<RouteSegment>, max_slippage_bps: u32)
    -> Result<(int, int, int, int, u32), AutoTradeError>
{
    let t = seg_sums(segs, segs.len() as int);
    let avg = if t.0 == 0 { 0 } else { tdiv(t.1, t.0) };
    let slip = if reference_price <= 0 || avg <= reference_price { 0u32 } else { tdiv((avg - reference_price) * 10_000, reference_price) as u32 };
    if t.0 != requested {
        Err(AutoTradeError::InsufficientLiquidity)
    } else if slip > max_slippage_bps {
        Err(AutoTradeError::SlippageExceeded)
    } else {
        Ok((t.0, avg, t.2, t.1 + t.2, slip))
    }
}

pub fn finalize_plan(reference_price: i128, requested_amount: i128, segments: Vec<RouteSegment>, max_slippage_bps: u32)
    -> (r: Result<RoutingPlan, AutoTradeError>)
    requires
        finalize_fits(segments@, reference_price as int),
    ensures
        match finalize_spec(reference_price as int, requested_amount as int, segments@, max_slippage_bps) {
            Err(e) => r matches Err(e2) && e2 == e,
            Ok(t) => r matches Ok(p) && p.requested_amount == requested_amount && p.allocated_amount == t.0
                && p.average_price == t.1 && p.total_fees == t.2 && p.total_cost == t.3
                && p.estimated_slippage_bps == t.4 && p.segments@ == segments@,
        },
{
    let ghost s = segments@;
    let mut allocated_amount: i128 = 0;
    let mut total_notional: i128 = 0;
    let mut total_fees: i128 = 0;
    let mut i: usize = 0;
    while i < segments.len()
        invariant
            s == segments@,
            finalize_fits(s, reference_price as int),
            i <= s.len(),
            (allocated_amount as int, total_notional as int, total_fees as int) == seg_sums(s, i as int),
        decreases s.len() - i,
    {
        let segment = segments[i];
        assert(in_i128(seg_sums(s, i + 1).0) && in_i128(seg_sums(s, i + 1).1) && in_i128(seg_sums(s, i + 1).2));
        assert(in_i128(s[(i + 1) - 1].amount * s[(i + 1) - 1].execution_price));
        allocated_amount = allocated_amount + segment.amount;
        total_notional = total_notional + segment.amount * segment.execution_price;
        total_fees = total_fees + segment.fee_amount;
        i = i + 1;
    }
    if allocated_amount != requested_amount {
        return Err(AutoTradeError::InsufficientLiquidity);
    }
    let average_price = if allocated_amount == 0 { 0 } else { div_toward_zero(total_notional, allocated_amount) };
    let estimated_slippage_bps: u32 = if reference_price <= 0 || average_price <= reference_price {
        0
    } else {
        #[verifier::truncate] (div_toward_zero((average_price - reference_price) * BPS_DENOMINATOR, reference_price) as u32)
    };
    if estimated_slippage_bps > max_slippage_bps {
        return Err(AutoTradeError::SlippageExceeded);
    }
    Ok(RoutingPlan {
        requested_amount,
        allocated_amount,
        average_price,
        total_fees,
        total_cost: total_notional + total_fees,
        estimated_slippage_bps,
        segments,
    })
}


pub open spec fn plan_fits(venues: Seq<VenueLiquidity>, requested: int, reference_price: int, max_slippage_bps: u32) -> bool {
    &&& greedy_fits(venues, requested, Seq::empty(), max_slippage_bps)
    &&& (greedy(venues, requested, Seq::empty(), max_slippage_bps) matches Ok(segs) ==> finalize_fits(segs, reference_price))
}

/// The plan for `requested` units over `venues`.
pub open spec fn plan_spec(venues: Seq<VenueLiquidity>, reference_price: int, requested: int, max_slippage_bps: u32)
    -> Result<(Seq<RouteSegment>, (int, int, int, int, u32)), AutoTradeError>
{
    if requested <= 0 {
        Err(AutoTradeError::InvalidAmount)
    } else if venues.len() == 0 {
        Err(AutoTradeError::RoutingPlanNotFound)
    } else {
        match greedy(venues, requested, Seq::empty(), max_slippage_bps) {
            Err(e) => Err(e),
            Ok(segs) => match finalize_spec(reference_price, requested, segs, max_slippage_bps) {
                Err(e) => Err(e),
                Ok(t) => Ok((segs, t)),
            },
        }
    }
}

fn best_slice(venues: &Vec<VenueLiquidity>, selected: &Vec<RouteSegment>, remaining: i128, max_slippage_bps: u32)
    -> (r: Option<(RouteSegment, i128, i128)>)
    requires
        scan_fits(venues@, selected@, remaining as int, max_slippage_bps),
    ensures
        match best_upto(venues@, selected@, remaining as int, max_slippage_bps, venues@.len() as int) {
            None => r is None,
            Some(b) => r matches Some(x) && x.0 == b.0 && x.1 == b.1 && x.2 == b.2,
        },
{
    let mut best: Option<(RouteSegment, i128, i128)> = None;
    let mut k: usize = 0;
    while k < venues.len()
        invariant
            k <= venues@.len(),
            scan_fits(venues@, selected@, remaining as int, max_slippage_bps),
            match best_upto(venues@, selected@, remaining as int, max_slippage_bps, k as int) {
                None => best is None,
                Some(b) => best matches Some(x) && x.0 == b.0 && x.1 == b.1 && x.2 == b.2,
            },
        decreases venues@.len() - k,
    {
        let venue = venues[k];
        assert(candidate_fits(venues@[k as int], selected@, remaining as int, max_slippage_bps));
        let already_allocated = allocated_for(selected, venue.venue, venue.venue_id);
        let remaining_liquidity = venue.available_amount - already_allocated;
        let allocation = if remaining < remaining_liquidity { remaining } else { remaining_liquidity };
        if allocation > 0 {
            let slippage = compute_slippage_bps(allocation, venue.available_amount, venue.slippage_bps);
            if slippage <= max_slippage_bps {
                let price_with_slippage = div_toward_zero(venue.price * (BPS_DENOMINATOR + slippage as i128), BPS_DENOMINATOR);
                let notional = allocation * price_with_slippage;
                let fee_amount = apply_bps(notional, venue.fee_bps);
                let total_cost = notional + fee_amount;
                let segment = RouteSegment {
                    venue: venue.venue,
                    venue_id: venue.venue_id,
                    amount: allocation,
                    execution_price: price_with_slippage,
                    fee_amount,
                    estimated_slippage_bps: slippage,
                };
                let replace = match best {
                    Some((_, best_cost, best_amount)) => !(total_cost * best_amount >= best_cost * allocation),
                    None => true,
                };
                if replace {
                    best = Some((segment, total_cost, allocation));
                }
            }
        }
        k = k + 1;
    }
    best
}

/// Venue quotes by signal, and a venue to fail on execution per signal.
pub struct RoutingBook {
    pub venues: OrdMap<Vec<VenueLiquidity>>,
    pub fail_venue: OrdMap<(LiquidityVenue, u32)>,
}

pub open spec fn quotes_of(book: &RoutingBook, signal_id: u64) -> Seq<VenueLiquidity> {
    if book.venues@.contains_key(signal_id as u128) { book.venues@[signal_id as u128]@ } else { Seq::empty() }
}

fn copy_quotes(v: &Vec<VenueLiquidity>) -> (r: Vec<VenueLiquidity>)
    ensures
        r@ == v@,
{
    let mut out: Vec<VenueLiquidity> = Vec::new();
    let mut i: usize = 0;
    while i < v.len()
        invariant
            i <= v@.len(),
            out@ == v@.take(i as int),
        decreases v@.len() - i,
    {
        out.push(v[i]);
        i = i + 1;
        proof { assert(out@ =~= v@.take(i as int)); }
    }
    proof { assert(v@.take(v@.len() as int) =~= v@); }
    out
}

impl RoutingBook {
    pub fn new() -> (b: Self)
        ensures
            b.venues@ == Map::<u128, Vec<VenueLiquidity>>::empty(),
            b.fail_venue@ == Map::<u128, (LiquidityVenue, u32)>::empty(),
    {
        RoutingBook { venues: OrdMap::new(), fail_venue: OrdMap::new() }
    }

    /// The signal's venue quotes, in the order the venues were first quoted.
    pub fn get_venue_liquidity(&self, signal_id: u64) -> (r: Vec<VenueLiquidity>)
        ensures
            r@ == quotes_of(self, signal_id),
    {
        match self.venues.get(signal_id as u128) {
            Some(v) => copy_quotes(v),
            None => Vec::new(),
        }
    }

    /// Record or refresh a venue's quote for the signal.
    pub fn upsert_venue_liquidity(&mut self, signal_id: u64, quote: VenueLiquidity) -> (r: Result<(), AutoTradeError>)
        ensures
            final(self).fail_venue@ == old(self).fail_venue@,
            (quote.available_amount <= 0 || quote.price <= 0) ==> {
                &&& r == Err::<(), AutoTradeError>(AutoTradeError::InvalidAmount)
                &&& final(self).venues@ == old(self).venues@
            },
            !(quote.available_amount <= 0 || quote.price <= 0) ==> {
                let q = quotes_of(&*old(self), signal_id);
                &&& r is Ok
                &&& final(self).venues@.dom() == old(self).venues@.dom().insert(signal_id as u128)
                &&& forall|k: u128| k != signal_id as u128 && #[trigger] old(self).venues@.contains_key(k) ==> final(self).venues@[k] == old(self).venues@[k]
                &&& quotes_of(&*final(self), signal_id) == if exists|i: int| 0 <= i < q.len() && q[i].venue == quote.venue && #[trigger] q[i].venue_id == quote.venue_id {
                        q.update(choose|i: int| 0 <= i < q.len() && q[i].venue == quote.venue && #[trigger] q[i].venue_id == quote.venue_id
                            && forall|j: int| 0 <= j < i ==> !(q[j].venue == quote.venue && q[j].venue_id == quote.venue_id), quote)
                    } else {
                        q.push(quote)
                    }
            },
    {
        if quote.available_amount <= 0 || quote.price <= 0 {
            return Err(AutoTradeError::InvalidAmount);
        }
        let k = signal_id as u128;
        let mut list = match self.venues.remove(k) {
            Some(v) => v,
            None => Vec::new(),
        };
        let ghost q = list@;
        assert(q == quotes_of(&*old(self), signal_id));
        let mut i: usize = 0;
        while i < list.len()
            invariant
                q == list@,
                q == quotes_of(&*old(self), signal_id),
                self.fail_venue@ == old(self).fail_venue@,
                self.venues@ == old(self).venues@.remove(k),
                k == signal_id as u128,
                !(quote.available_amount <= 0 || quote.price <= 0),
                i <= q.len(),
                forall|j: int| 0 <= j < i ==> !(q[j].venue == quote.venue && q[j].venue_id == quote.venue_id),
            decreases q.len() - i,
        {
            if list[i].venue == quote.venue && list[i].venue_id == quote.venue_id {
                proof {
                    let c = choose|c: int| 0 <= c < q.len() && q[c].venue == quote.venue && #[trigger] q[c].venue_id == quote.venue_id
                        && forall|j: int| 0 <= j < c ==> !(q[j].venue == quote.venue && q[j].venue_id == quote.venue_id);
                    assert(0 <= i < q.len() && q[i as int].venue == quote.venue && q[i as int].venue_id == quote.venue_id
                        && forall|j: int| 0 <= j < i ==> !(q[j].venue == quote.venue && q[j].venue_id == quote.venue_id));
                    if c < i { assert(!(q[c].venue == quote.venue && q[c].venue_id == quote.venue_id)); }
                    if c > i { assert(!(q[i as int].venue == quote.venue && q[i as int].venue_id == quote.venue_id)); }
                }
                list.set(i, quote);
                self.venues.insert(k, list);
                return Ok(());
            }
            i = i + 1;
        }
        list.push(quote);
        self.venues.insert(k, list);
        Ok(())
    }

    /// Fail execution on one venue of the signal (for exercising rollback).
    pub fn set_execution_failure(&mut self, signal_id: u64, venue: LiquidityVenue, venue_id: u32)
        ensures
            final(self).fail_venue@ == old(self).fail_venue@.insert(signal_id as u128, (venue, venue_id)),
            final(self).venues@ == old(self).venues@,
    {
        self.fail_venue.insert(signal_id as u128, (venue, venue_id));
    }
}

/// Route `requested_amount` of the signal's order across its venues.
pub fn plan_best_execution(book: &RoutingBook, signal: &Signal, requested_amount: i128, max_slippage_bps: u32)
    -> (r: Result<RoutingPlan, AutoTradeError>)
    requires
        plan_fits(quotes_of(book, signal.signal_id), requested_amount as int, signal.price as int, max_slippage_bps),
    ensures
        match plan_spec(quotes_of(book, signal.signal_id), signal.price as int, requested_amount as int, max_slippage_bps) {
            Err(e) => r matches Err(e2) && e2 == e,
            Ok((segs, t)) => r matches Ok(p) && p.requested_amount == requested_amount && p.allocated_amount == t.0
                && p.average_price == t.1 && p.total_fees == t.2 && p.total_cost == t.3
                && p.estimated_slippage_bps == t.4 && p.segments@ == segs,
        },
{
    if requested_amount <= 0 {
        return Err(AutoTradeError::InvalidAmount);
    }
    let venues = book.get_venue_liquidity(signal.signal_id);
    if venues.len() == 0 {
        return Err(AutoTradeError::RoutingPlanNotFound);
    }
    let ghost vs = venues@;
    let mut remaining = requested_amount;
    let mut selected: Vec<RouteSegment> = Vec::new();
    while remaining > 0
        invariant
            vs == venues@,
            vs == quotes_of(book, signal.signal_id),
            vs.len() > 0,
            requested_amount > 0,
            0 <= remaining <= requested_amount,
            greedy(vs, requested_amount as int, Seq::empty(), max_slippage_bps)
                == greedy(vs, remaining as int, selected@, max_slippage_bps),
            greedy_fits(vs, remaining as int, selected@, max_slippage_bps),
        decreases remaining,
    {
        proof {
            lemma_best_amount(vs, selected@, remaining as int, max_slippage_bps, vs.len() as int);
        }
        let best = best_slice(&venues, &selected, remaining, max_slippage_bps);
        let segment = match best {
            Some((seg, _, _)) => seg,
            None => return Err(AutoTradeError::InsufficientLiquidity),
        };
        remaining = remaining - segment.amount;
        selected.push(segment);
    }
    finalize_plan(signal.price, requested_amount, selected, max_slippage_bps)
}


pub open spec fn quote_matches(v: VenueLiquidity, venue: LiquidityVenue, venue_id: u32) -> bool {
    v.venue == venue && v.venue_id == venue_id
}

pub open spec fn has_quote(q: Seq<VenueLiquidity>, venue: LiquidityVenue, venue_id: u32) -> bool {
    exists|i: int| 0 <= i < q.len() && #[trigger] quote_matches(q[i], venue, venue_id)
}

/// Index of the first quote of a venue.
pub open spec fn quote_index(q: Seq<VenueLiquidity>, venue: LiquidityVenue, venue_id: u32) -> int {
    choose|i: int| 0 <= i < q.len() && #[trigger] quote_matches(q[i], venue, venue_id)
        && forall|j: int| 0 <= j < i ==> !quote_matches(q[j], venue, venue_id)
}

fn find_quote(q: &Vec<VenueLiquidity>, venue: LiquidityVenue, venue_id: u32) -> (r: Option<usize>)
    ensures
        match r {
            None => !has_quote(q@, venue, venue_id),
            Some(i) => has_quote(q@, venue, venue_id) && i == quote_index(q@, venue, venue_id) && i < q@.len(),
        },
{
    let mut i: usize = 0;
    while i < q.len()
        invariant
            i <= q@.len(),
            forall|j: int| 0 <= j < i ==> !quote_matches(q@[j], venue, venue_id),
        decreases q@.len() - i,
    {
        if q[i].venue == venue && q[i].venue_id == venue_id {
            proof {
                assert(quote_matches(q@[i as int], venue, venue_id));
                let c = quote_index(q@, venue, venue_id);
                if c < i { assert(!quote_matches(q@[c], venue, venue_id)); }
                if c > i { assert(!quote_matches(q@[i as int], venue, venue_id)); }
            }
            return Some(i);
        }
        i = i + 1;
    }
    None
}

/// Every segment finds its venue's quote with enough liquidity and a
/// positive price, and none is on the failing venue.
pub open spec fn segment_ok(q: Seq<VenueLiquidity>, seg: RouteSegment, fail: Option<(LiquidityVenue, u32)>) -> bool {
    &&& has_quote(q, seg.venue, seg.venue_id)
    &&& q[quote_index(q, seg.venue, seg.venue_id)].available_amount >= seg.amount
    &&& q[quote_index(q, seg.venue, seg.venue_id)].price > 0
    &&& fail != Some((seg.venue, seg.venue_id))
}

pub open spec fn executable(q: Seq<VenueLiquidity>, segs: Seq<RouteSegment>, fail: Option<(LiquidityVenue, u32)>) -> bool {
    forall|s: int| 0 <= s < segs.len() ==> #[trigger] segment_ok(q, segs[s], fail)
}

/// Quotes after drawing the first `k` segments from their venues.
pub open spec fn drawn(q: Seq<VenueLiquidity>, segs: Seq<RouteSegment>, k: int) -> Seq<VenueLiquidity>
    decreases k,
{
    if k <= 0 {
        q
    } else {
        let prev = drawn(q, segs, k - 1);
        let seg = segs[k - 1];
        let i = quote_index(prev, seg.venue, seg.venue_id);
        prev.update(i, VenueLiquidity { available_amount: (prev[i].available_amount - seg.amount) as i128, ..prev[i] })
    }
}

pub open spec fn draw_fits(q: Seq<VenueLiquidity>, segs: Seq<RouteSegment>) -> bool {
    forall|k: int| 0 <= k < segs.len() ==> {
        let prev = drawn(q, segs, k);
        in_i128(prev[quote_index(prev, (#[trigger] segs[k]).venue, segs[k].venue_id)].available_amount - segs[k].amount)
    }
}

proof fn lemma_drawn_keys(q: Seq<VenueLiquidity>, segs: Seq<RouteSegment>, k: int)
    requires
        0 <= k <= segs.len(),
        forall|s: int| 0 <= s < segs.len() ==> has_quote(q, (#[trigger] segs[s]).venue, segs[s].venue_id),
    ensures
        drawn(q, segs, k).len() == q.len(),
        forall|i: int| 0 <= i < q.len() ==> (#[trigger] drawn(q, segs, k)[i]).venue == q[i].venue && drawn(q, segs, k)[i].venue_id == q[i].venue_id,
    decreases k,
{
    if k > 0 {
        lemma_drawn_keys(q, segs, k - 1);
        let prev = drawn(q, segs, k - 1);
        let seg = segs[k - 1];
        let w = choose|i: int| 0 <= i < q.len() && #[trigger] quote_matches(q[i], seg.venue, seg.venue_id);
        assert(quote_matches(prev[w], seg.venue, seg.venue_id));
        lemma_first_exists(prev, seg.venue, seg.venue_id, w);
    }
}

proof fn lemma_first_exists(q: Seq<VenueLiquidity>, venue: LiquidityVenue, venue_id: u32, w: int)
    requires
        0 <= w < q.len(),
        quote_matches(q[w], venue, venue_id),
    ensures
        has_quote(q, venue, venue_id),
        0 <= quote_index(q, venue, venue_id) < q.len(),
        quote_matches(q[quote_index(q, venue, venue_id)], venue, venue_id),
    decreases w,
{
    if exists|j: int| 0 <= j < w && quote_matches(q[j], venue, venue_id) {
        let j = choose|j: int| 0 <= j < w && quote_matches(q[j], venue, venue_id);
        lemma_first_exists(q, venue, venue_id, j);
    } else {
        assert(0 <= w < q.len() && quote_matches(q[w], venue, venue_id)
            && forall|j: int| 0 <= j < w ==> !quote_matches(q[j], venue, venue_id));
    }
}

fn check_segments(quotes: &Vec<VenueLiquidity>, segs: &Vec<RouteSegment>, fail: Option<(LiquidityVenue, u32)>) -> (ok: bool)
    ensures
        ok == executable(quotes@, segs@, fail),
{
    let ghost q = quotes@;
    let mut s: usize = 0;
    while s < segs.len()
        invariant
            q == quotes@,
            s <= segs@.len(),
            forall|t: int| 0 <= t < s ==> #[trigger] segment_ok(q, segs@[t], fail),
        decreases segs@.len() - s,
    {
        let seg = segs[s];
        let ok = match find_quote(quotes, seg.venue, seg.venue_id) {
            Some(idx) => {
                let stored = quotes[idx];
                let on_fail = match fail {
                    Some((v, id)) => v == seg.venue && id == seg.venue_id,
                    None => false,
                };
                !(stored.available_amount < seg.amount || stored.price <= 0) && !on_fail
            },
            None => false,
        };
        assert(ok == segment_ok(q, segs@[s as int], fail));
        if !ok {
            return false;
        }
        s = s + 1;
    }
    true
}

#[verifier::rlimit(50)]
fn draw_segments(list: &mut Vec<VenueLiquidity>, segs: &Vec<RouteSegment>, Ghost(fail): Ghost<Option<(LiquidityVenue, u32)>>)
    requires
        executable(old(list)@, segs@, fail),
        draw_fits(old(list)@, segs@),
    ensures
        final(list)@ == drawn(old(list)@, segs@, segs@.len() as int),
{
    let ghost q = list@;
    assert forall|x: int| 0 <= x < segs@.len() implies has_quote(q, (#[trigger] segs@[x]).venue, segs@[x].venue_id) by {
        assert(segment_ok(q, segs@[x], fail));
    }
    let mut t: usize = 0;
    while t < segs.len()
        invariant
            q == old(list)@,
            forall|x: int| 0 <= x < segs@.len() ==> has_quote(q, (#[trigger] segs@[x]).venue, segs@[x].venue_id),
            draw_fits(q, segs@),
            t <= segs@.len(),
            list@ == drawn(q, segs@, t as int),
        decreases segs@.len() - t,
    {
        let seg = segs[t];
        proof {
            lemma_drawn_keys(q, segs@, t as int);
            let w = choose|i: int| 0 <= i < q.len() && #[trigger] quote_matches(q[i], seg.venue, seg.venue_id);
            assert(quote_matches(list@[w], seg.venue, seg.venue_id));
            lemma_first_exists(list@, seg.venue, seg.venue_id, w);
        }
        let idx = find_quote(list, seg.venue, seg.venue_id).unwrap();
        let mut stored = list[idx];
        assert(in_i128(drawn(q, segs@, t as int)[quote_index(drawn(q, segs@, t as int), segs@[t as int].venue, segs@[t as int].venue_id)].available_amount - segs@[t as int].amount));
        stored.available_amount = stored.available_amount - seg.amount;
        list.set(idx, stored);
        t = t + 1;
    }
}

impl RoutingBook {
    /// Execute every segment of the plan or none: all venues are checked
    /// first, then each segment's amount is drawn from its venue.
    pub fn execute_plan_atomically(&mut self, signal_id: u64, plan: &RoutingPlan) -> (r: Result<ExecutionResult, AutoTradeError>)
        requires
            draw_fits(quotes_of(&*old(self), signal_id), plan.segments@),
        ensures
            final(self).fail_venue@ == old(self).fail_venue@,
            ({
                let q = quotes_of(&*old(self), signal_id);
                let fail = if old(self).fail_venue@.contains_key(signal_id as u128) { Some(old(self).fail_venue@[signal_id as u128]) } else { None };
                if !executable(q, plan.segments@, fail) {
                    r == Err::<ExecutionResult, AutoTradeError>(AutoTradeError::SystemError) && final(self).venues@ == old(self).venues@
                } else {
                    &&& r == Ok::<ExecutionResult, AutoTradeError>(ExecutionResult {
                            executed_amount: plan.allocated_amount,
                            executed_price: plan.average_price,
                        })
                    &&& (plan.segments@.len() > 0 ==> {
                        &&& final(self).venues@ == old(self).venues@.insert(signal_id as u128, final(self).venues@[signal_id as u128])
                        &&& quotes_of(&*final(self), signal_id) == drawn(q, plan.segments@, plan.segments@.len() as int)
                    })
                    &&& (plan.segments@.len() == 0 ==> final(self).venues@ == old(self).venues@)
                }
            }),
    {
        let fail = match self.fail_venue.get(signal_id as u128) {
            Some(f) => Some(*f),
            None => None,
        };
        let quotes = self.get_venue_liquidity(signal_id);
        if !check_segments(&quotes, &plan.segments, fail) {
            return Err(AutoTradeError::SystemError);
        }
        if plan.segments.len() == 0 {
            return Ok(ExecutionResult { executed_amount: plan.allocated_amount, executed_price: plan.average_price });
        }
        let k = signal_id as u128;
        proof {
            assert(segment_ok(quotes@, plan.segments@[0], fail));
        }
        let mut list = self.venues.remove(k).unwrap();
        draw_segments(&mut list, &plan.segments, Ghost(fail));
        self.venues.insert(k, list);
        proof {
            assert(self.venues@ =~= old(self).venues@.insert(k, self.venues@[k]));
        }
        Ok(ExecutionResult { executed_amount: plan.allocated_amount, executed_price: plan.average_price })
    }
}


/// Plan the route for the signal's order and execute it all-or-nothing.
pub fn execute_best_route(book: &mut RoutingBook, signal: &Signal, requested_amount: i128, max_slippage_bps: u32)
    -> (r: Result<ExecutionResult, AutoTradeError>)
    requires
        plan_fits(quotes_of(&*old(book), signal.signal_id), requested_amount as int, signal.price as int, max_slippage_bps),
        plan_spec(quotes_of(&*old(book), signal.signal_id), signal.price as int, requested_amount as int, max_slippage_bps)
            matches Ok((segs, t)) ==> draw_fits(quotes_of(&*old(book), signal.signal_id), segs),
    ensures
        final(book).fail_venue@ == old(book).fail_venue@,
        ({
            let q = quotes_of(&*old(book), signal.signal_id);
            let fail = if old(book).fail_venue@.contains_key(signal.signal_id as u128) { Some(old(book).fail_venue@[signal.signal_id as u128]) } else { None };
            match plan_spec(q, signal.price as int, requested_amount as int, max_slippage_bps) {
                Err(e) => r == Err::<ExecutionResult, AutoTradeError>(e) && final(book).venues@ == old(book).venues@,
                Ok((segs, t)) => if !executable(q, segs, fail) {
                    r == Err::<ExecutionResult, AutoTradeError>(AutoTradeError::SystemError) && final(book).venues@ == old(book).venues@
                } else {
                    &&& r == Ok::<ExecutionResult, AutoTradeError>(ExecutionResult { executed_amount: t.0 as i128, executed_price: t.1 as i128 })
                    &&& (segs.len() > 0 ==> quotes_of(&*final(book), signal.signal_id) == drawn(q, segs, segs.len() as int))
                    &&& (segs.len() > 0 ==> final(book).venues@ == old(book).venues@.insert(signal.signal_id as u128, final(book).venues@[signal.signal_id as u128]))
                    &&& (segs.len() == 0 ==> final(book).venues@ == old(book).venues@)
                },
            }
        }),
{
    let plan = plan_best_execution(book, signal, requested_amount, max_slippage_bps)?;
    book.execute_plan_atomically(signal.signal_id, &plan)
}


/// No venue is asked for more than it quotes.
pub open spec fn within_quotes(venues: Seq<VenueLiquidity>, segs: Seq<RouteSegment>) -> bool {
    forall|i: int| 0 <= i < venues.len() ==>
        allocated_spec(segs, (#[trigger] venues[i]).venue, venues[i].venue_id, segs.len() as int) <= venues[i].available_amount
}

/// Each venue is quoted once.
pub open spec fn quotes_unique(venues: Seq<VenueLiquidity>) -> bool {
    forall|i: int, j: int| 0 <= i < venues.len() && 0 <= j < venues.len() && i != j ==>
        !((#[trigger] venues[i]).venue == (#[trigger] venues[j]).venue && venues[i].venue_id == venues[j].venue_id)
}

proof fn lemma_allocated_prefix(segs: Seq<RouteSegment>, x: RouteSegment, venue: LiquidityVenue, venue_id: u32, k: int)
    requires
        0 <= k <= segs.len(),
    ensures
        allocated_spec(segs.push(x), venue, venue_id, k) == allocated_spec(segs, venue, venue_id, k),
    decreases k,
{
    if k > 0 {
        lemma_allocated_prefix(segs, x, venue, venue_id, k - 1);
        assert(segs.push(x)[k - 1] == segs[k - 1]);
    }
}

proof fn lemma_best_is_candidate(venues: Seq<VenueLiquidity>, segs: Seq<RouteSegment>, remaining: int, max_slippage_bps: u32, k: int)
    requires
        0 <= k <= venues.len(),
    ensures
        best_upto(venues, segs, remaining, max_slippage_bps, k) matches Some(b) ==>
            exists|j: int| 0 <= j < k && #[trigger] candidate(venues[j], segs, remaining, max_slippage_bps) == Some(b),
    decreases k,
{
    if k > 0 {
        lemma_best_is_candidate(venues, segs, remaining, max_slippage_bps, k - 1);
    }
}

proof fn lemma_greedy_within_quotes(venues: Seq<VenueLiquidity>, remaining: int, segs: Seq<RouteSegment>, max_slippage_bps: u32)
    requires
        quotes_unique(venues),
        within_quotes(venues, segs),
    ensures
        greedy(venues, remaining, segs, max_slippage_bps) matches Ok(out) ==> within_quotes(venues, out),
    decreases remaining,
{
    if remaining > 0 {
        let n = venues.len() as int;
        lemma_best_is_candidate(venues, segs, remaining, max_slippage_bps, n);
        match best_upto(venues, segs, remaining, max_slippage_bps, n) {
            None => {},
            Some(b) => {
                if !(b.0.amount <= 0 || b.0.amount > remaining) {
                    let j = choose|j: int| 0 <= j < n && #[trigger] candidate(venues[j], segs, remaining, max_slippage_bps) == Some(b);
                    let next = segs.push(b.0);
                    assert forall|i: int| 0 <= i < venues.len() implies
                        allocated_spec(next, (#[trigger] venues[i]).venue, venues[i].venue_id, next.len() as int) <= venues[i].available_amount by {
                        lemma_allocated_prefix(segs, b.0, venues[i].venue, venues[i].venue_id, segs.len() as int);
                        assert(next[segs.len() as int] == b.0);
                    }
                    lemma_greedy_within_quotes(venues, remaining - b.0.amount, next, max_slippage_bps);
                }
            },
        }
    }
}

/// A routing plan that goes through fills exactly the requested amount,
/// keeps its slippage within the bound, and takes from no venue more than
/// the venue quotes.
pub proof fn law_plan_respects_quotes(venues: Seq<VenueLiquidity>, reference_price: int, requested: int, max_slippage_bps: u32)
    requires
        quotes_unique(venues),
        forall|i: int| 0 <= i < venues.len() ==> (#[trigger] venues[i]).available_amount > 0,
    ensures
        plan_spec(venues, reference_price, requested, max_slippage_bps) matches Ok((segs, t)) ==> {
            &&& t.0 == requested
            &&& t.4 <= max_slippage_bps
            &&& within_quotes(venues, segs)
        },
{
    assert(within_quotes(venues, Seq::empty()));
    lemma_greedy_within_quotes(venues, requested, Seq::empty(), max_slippage_bps);
}

}

verus! {

/// Units bought over a list of route segments.
pub open spec fn segments_amount(segs: Seq<RouteSegment>) -> int
    decreases segs.len(),
{
    if segs.len() == 0 { 0 } else { segments_amount(segs.drop_last()) + segs.last().amount }
}

/// What the segments' units cost at their execution prices, before fees.
pub open spec fn segments_notional(segs: Seq<RouteSegment>) -> int
    decreases segs.len(),
{
    if segs.len() == 0 { 0 } else { segments_notional(segs.drop_last()) + segs.last().amount * segs.last().execution_price }
}

/// The fees charged over the segments.
pub open spec fn segments_fees(segs: Seq<RouteSegment>) -> int
    decreases segs.len(),
{
    if segs.len() == 0 { 0 } else { segments_fees(segs.drop_last()) + segs.last().fee_amount }
}

proof fn lemma_seg_sums_totals(segs: Seq<RouteSegment>, k: int)
    requires
        0 <= k <= segs.len(),
    ensures
        seg_sums(segs, k) == (segments_amount(segs.take(k)), segments_notional(segs.take(k)), segments_fees(segs.take(k))),
    decreases k,
{
    if k > 0 {
        lemma_seg_sums_totals(segs, k - 1);
        assert(segs.take(k).drop_last() =~= segs.take(k - 1));
        assert(segs.take(k).last() == segs[k - 1]);
    }
}

/// A finished plan allocates exactly the requested units, which are those
/// of its segments; it charges their fees and costs their notional plus
/// those fees; its average price is the notional per unit, rounded down;
/// and its slippage is within the bound.
pub proof fn law_plan_total_cost(reference_price: int, requested: int, segs: Seq<RouteSegment>, max_slippage_bps: u32)
    ensures
        finalize_spec(reference_price, requested, segs, max_slippage_bps) matches Ok(t) ==> {
            &&& t.0 == requested
            &&& t.0 == segments_amount(segs)
            &&& t.2 == segments_fees(segs)
            &&& t.3 == segments_notional(segs) + segments_fees(segs)
            &&& (t.0 > 0 && segments_notional(segs) >= 0) ==>
                t.1 * t.0 <= segments_notional(segs) < (t.1 + 1) * t.0
            &&& t.4 <= max_slippage_bps
        },
{
    lemma_seg_sums_totals(segs, segs.len() as int);
    assert(segs.take(segs.len() as int) =~= segs);
    let n = segments_notional(segs);
    let a = segments_amount(segs);
    if a > 0 && n >= 0 {
        let q = tdiv(n, a);
        assert(q == n / a);
        assert(q * a <= n < (q + 1) * a) by (nonlinear_arith) requires q == n / a, a > 0, n >= 0;
    }
}

/// The best plan over any venues costs the notional of its segments plus
/// their fees.
pub proof fn law_best_plan_total_cost(venues: Seq<VenueLiquidity>, reference_price: int, requested: int, max_slippage_bps: u32)
    ensures
        plan_spec(venues, reference_price, requested, max_slippage_bps) matches Ok((segs, t)) ==> {
            &&& t.0 == requested
            &&& t.0 == segments_amount(segs)
            &&& t.2 == segments_fees(segs)
            &&& t.3 == segments_notional(segs) + segments_fees(segs)
        },
{
    match plan_spec(venues, reference_price, requested, max_slippage_bps) {
        Ok((segs, t)) => law_plan_total_cost(reference_price, requested, segs, max_slippage_bps),
        Err(_) => {},
    }
}

}
