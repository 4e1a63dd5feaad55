use auto_trade::strategies::arbitrage::{calculate_optimal_arb_capital, evaluate_cycle, LiquidityVenue};

#[test]
fn test_calculate_optimal_arb_capital() {
    let capital = calculate_optimal_arb_capital(10000, 10100, &LiquidityVenue::SDEX, &LiquidityVenue::LiquidityPool(1)).unwrap();
    assert!(capital > 0);
}

#[test]
fn profitable_cycle_gives_legs_and_profit() {
    let (legs, profit, pct) = evaluate_cycle(1, 2, 3, LiquidityVenue::SDEX, 11_000_000,
        LiquidityVenue::LiquidityPool(4), 10_000_000, LiquidityVenue::SDEX, 10_000_000).unwrap();
    assert_eq!(legs.len(), 3);
    assert_eq!(legs[0].amount_in, 10_000_000_000);
    assert_eq!(legs[0].expected_amount_out, 11_000_000_000);
    assert_eq!(legs[1].venue, LiquidityVenue::LiquidityPool(4));
    assert_eq!(legs[2].asset_out, 1);
    assert_eq!(legs[2].expected_amount_out, 11_000_000_000);
    assert_eq!(profit, 910_000_000);
    assert_eq!(pct, 910);
}

#[test]
fn cycle_at_par_is_not_profitable_after_fees() {
    assert!(evaluate_cycle(1, 2, 3, LiquidityVenue::SDEX, 10_000_000, LiquidityVenue::SDEX, 10_000_000,
        LiquidityVenue::SDEX, 10_000_000).is_none());
}
