use auto_trade::smart_routing::{
    execute_best_route, plan_best_execution, LiquidityVenue, RoutingBook, VenueLiquidity,
};
use auto_trade::storage::Signal;
use auto_trade::AutoTradeError;

fn signal(id: u64) -> Signal {
    Signal { signal_id: id, price: 100, expiry: 5_000, base_asset: 1 }
}

fn quote(venue: LiquidityVenue, venue_id: u32, available_amount: i128, price: i128, fee_bps: u32, slippage_bps: u32) -> VenueLiquidity {
    VenueLiquidity { venue, venue_id, available_amount, price, fee_bps, slippage_bps }
}

#[test]
fn chooses_best_price_across_venues() {
    let mut book = RoutingBook::new();
    let s = signal(7);
    book.upsert_venue_liquidity(s.signal_id, quote(LiquidityVenue::Sdex, 1, 100, 101, 5, 30)).unwrap();
    book.upsert_venue_liquidity(s.signal_id, quote(LiquidityVenue::Pool, 2, 100, 99, 10, 10)).unwrap();
    let plan = plan_best_execution(&book, &s, 50, 100).unwrap();
    assert_eq!(plan.allocated_amount, 50);
    assert_eq!(plan.segments.len(), 1);
    assert_eq!(plan.segments[0].venue, LiquidityVenue::Pool);
}

#[test]
fn splits_across_multiple_venues_when_needed() {
    let mut book = RoutingBook::new();
    let s = signal(8);
    book.upsert_venue_liquidity(s.signal_id, quote(LiquidityVenue::Pool, 1, 40, 99, 5, 10)).unwrap();
    book.upsert_venue_liquidity(s.signal_id, quote(LiquidityVenue::Sdex, 2, 35, 100, 5, 10)).unwrap();
    book.upsert_venue_liquidity(s.signal_id, quote(LiquidityVenue::PathPayment, 3, 50, 102, 5, 10)).unwrap();
    let plan = plan_best_execution(&book, &s, 90, 100).unwrap();
    assert_eq!(plan.allocated_amount, 90);
    assert_eq!(plan.segments.len(), 3);
    assert_eq!(plan.segments[0].venue, LiquidityVenue::Pool);
    assert_eq!(plan.segments[1].venue, LiquidityVenue::Sdex);
    assert_eq!(plan.segments[2].venue, LiquidityVenue::PathPayment);
}

#[test]
fn rejects_routes_that_exceed_slippage() {
    let mut book = RoutingBook::new();
    let s = signal(9);
    book.upsert_venue_liquidity(s.signal_id, quote(LiquidityVenue::Sdex, 1, 100, 100, 0, 800)).unwrap();
    let err = plan_best_execution(&book, &s, 100, 50).unwrap_err();
    assert_eq!(err, AutoTradeError::InsufficientLiquidity);
}

#[test]
fn fails_when_total_liquidity_is_too_low() {
    let mut book = RoutingBook::new();
    let s = signal(10);
    book.upsert_venue_liquidity(s.signal_id, quote(LiquidityVenue::Sdex, 1, 20, 100, 0, 10)).unwrap();
    book.upsert_venue_liquidity(s.signal_id, quote(LiquidityVenue::Pool, 2, 20, 101, 0, 10)).unwrap();
    let err = plan_best_execution(&book, &s, 50, 100).unwrap_err();
    assert_eq!(err, AutoTradeError::InsufficientLiquidity);
}

#[test]
fn atomic_execution_rolls_back_on_failure() {
    let mut book = RoutingBook::new();
    let s = signal(11);
    book.upsert_venue_liquidity(s.signal_id, quote(LiquidityVenue::Sdex, 1, 60, 100, 0, 10)).unwrap();
    book.upsert_venue_liquidity(s.signal_id, quote(LiquidityVenue::Pool, 2, 60, 101, 0, 10)).unwrap();
    let plan = plan_best_execution(&book, &s, 100, 100).unwrap();
    book.set_execution_failure(s.signal_id, LiquidityVenue::Pool, 2);
    let err = book.execute_plan_atomically(s.signal_id, &plan).unwrap_err();
    assert_eq!(err, AutoTradeError::AtomicExecutionFailed);
    let venues = book.get_venue_liquidity(s.signal_id);
    assert_eq!(venues[0].available_amount, 60);
    assert_eq!(venues[1].available_amount, 60);
}

#[test]
fn successful_execution_consumes_liquidity() {
    let mut book = RoutingBook::new();
    let s = signal(12);
    book.upsert_venue_liquidity(s.signal_id, quote(LiquidityVenue::Sdex, 1, 60, 100, 0, 10)).unwrap();
    book.upsert_venue_liquidity(s.signal_id, quote(LiquidityVenue::Pool, 2, 60, 101, 0, 10)).unwrap();
    let result = execute_best_route(&mut book, &s, 100, 100).unwrap();
    let venues = book.get_venue_liquidity(s.signal_id);
    let left: i128 = venues.iter().map(|v| v.available_amount).sum();
    assert_eq!(left, 20);
    let _ = result;
}

#[test]
fn upsert_rejects_non_positive_price() {
    let mut book = RoutingBook::new();
    assert!(book.upsert_venue_liquidity(1, quote(LiquidityVenue::Sdex, 1, 60, 0, 0, 10)).is_err());
    assert_eq!(book.get_venue_liquidity(1).len(), 0);
}

#[test]
fn venue_identity_of_a_quote() {
    let k = auto_trade::smart_routing::venue_key(&quote(LiquidityVenue::Pool, 7, 1, 1, 0, 0));
    assert_eq!(k, auto_trade::smart_routing::VenueKey { venue: LiquidityVenue::Pool, venue_id: 7 });
}
