use candid::Principal;
use perp_market::account::UniqueSubAccount;
use perp_market::corelib::constants::{ONE_HOUR, ONE_YEAR};
use perp_market::corelib::order_lib::LimitOrder;
use perp_market::corelib::price_lib::_equivalent;
use perp_market::market::Market;
use perp_market::position::{
    ManageDebtParams, PositionOrderType, PositionParameters, PositionStatus,
};
use perp_market::store::MemoryPool;
use perp_market::types::{Asset, AssetClass, MarketDetails, StateDetails, TickState};

fn open_market() -> Market {
    let mut market = Market::init(
        MemoryPool::new(),
        MarketDetails {
            base_asset: Asset { symbol: "ETH".to_string(), class: AssetClass::Cryptocurrency },
            quote_asset: Asset { symbol: "USD".to_string(), class: AssetClass::FiatCurrency },
            vault_id: Principal::from_slice(&[1, 1]),
            xrc_id: Principal::from_slice(&[2, 2]),
            tick_spacing: 1,
        },
    );
    market._set_state_details(StateDetails {
        not_paused: true,
        max_leveragex10: 200,
        min_collateral: 1,
    });
    market
}

fn user(n: u8) -> Principal {
    Principal::from_slice(&[n, 9])
}

fn rest(market: &mut Market, size: u128, tick: u64, buy: bool, now: u64) {
    let mut order = LimitOrder::new(size, tick, buy);
    market._open_order(&mut order, now);
}

fn market_position(long: bool, collateral: u128, debt: u128, timestamp: u64) -> PositionParameters {
    PositionParameters {
        owner: user(1),
        entry_tick: 1000,
        long,
        collateral_value: collateral,
        debt_value: debt,
        volume_share: 77,
        interest_rate: 500,
        order_type: PositionOrderType::Market,
        timestamp,
    }
}

#[test]
fn update_after_swap_pays_the_debt_first() {
    let mut market = open_market();
    let mut position = market_position(true, 100, 900, 5 * ONE_HOUR);
    // what the swap gave does not cover the debt with its interest
    let (profit, params) =
        market._update_market_position_after_swap(&mut position, 400, 250, 50, 7 * ONE_HOUR);
    assert_eq!(profit, 0);
    assert_eq!(params, ManageDebtParams::init(900, 950, 400));
    assert_eq!(position.debt_value, 550);
    assert_eq!(position.collateral_value, 100);
    assert_eq!(position.volume_share, 250);
    // executed two hours before: the time stays
    assert_eq!(position.timestamp, 5 * ONE_HOUR);
    assert_eq!(market.funding_rate_tracker.net_volume_long, 250);

    // what the swap gave covers all: the rest is profit
    let mut position = market_position(false, 100, 900, 5 * ONE_HOUR);
    let (profit, params) = market._update_market_position_after_swap(
        &mut position,
        1_000,
        30,
        50,
        5 * ONE_HOUR + ONE_HOUR - 1,
    );
    assert_eq!(profit, 50);
    assert_eq!(params, ManageDebtParams::init(900, 950, 950));
    assert_eq!(position.debt_value, 0);
    assert_eq!(position.collateral_value, 30);
    assert_eq!(position.volume_share, 30);
    // executed less than an hour before: the time moves on
    assert_eq!(position.timestamp, 5 * ONE_HOUR + ONE_HOUR - 1);
    assert_eq!(market.funding_rate_tracker.net_volume_short, 30);
    // exactly an hour before: the time stays
    let mut position = market_position(false, 100, 0, ONE_HOUR);
    market._update_market_position_after_swap(&mut position, 0, 0, 0, 2 * ONE_HOUR);
    assert_eq!(position.timestamp, ONE_HOUR);
}

#[test]
fn conversion_gives_back_debt_before_collateral() {
    let mut market = open_market();
    let order = LimitOrder::new(1_000, 1000, true);
    let mut position = market_position(true, 400, 600, 0);
    position.order_type = PositionOrderType::Limit(order);
    position.volume_share = 0;
    // 250 was not filled: all of it repays debt
    let mut part = position;
    let (removed, params) = market._convert_limit_position(&mut part, 250, 33);
    assert_eq!(removed, 0);
    assert_eq!(params, ManageDebtParams::init(600, 600, 250));
    assert_eq!(part.debt_value, 350);
    assert_eq!(part.collateral_value, 400);
    assert_eq!(part.volume_share, 750);
    assert_eq!(part.timestamp, 33);
    assert!(matches!(part.order_type, PositionOrderType::Market));
    assert_eq!(market.funding_rate_tracker.net_volume_long, 750);
    // 700 was not filled: the debt is repaid and 100 leaves as collateral
    let mut most = position;
    let (removed, params) = market._convert_limit_position(&mut most, 700, 34);
    assert_eq!(removed, 100);
    assert_eq!(params, ManageDebtParams::init(600, 600, 600));
    assert_eq!(most.debt_value, 0);
    assert_eq!(most.collateral_value, 300);
    assert_eq!(most.volume_share, 300);
    // all was filled
    let mut whole = position;
    let (removed, params) = market._convert_limit_position(&mut whole, 0, 35);
    assert_eq!(removed, 0);
    assert_eq!(params, ManageDebtParams::init(600, 600, 0));
    assert_eq!(whole.debt_value, 600);
    assert_eq!(whole.collateral_value, 400);
}

#[test]
fn market_short_closes_against_resting_sells() {
    let mut market = open_market();
    rest(&mut market, 5_000_000, 1000, true, 1);
    market._update_highest_buy_offer_tick(1000);
    let (result, _, _) =
        market.open_market_position(user(1), 0, false, 1_000_000, 20, None, (true, 0), 10);
    let position = result.unwrap();
    let base = 2 * _equivalent(1_000_000, 1000, true);
    let got = _equivalent(base, 1000, false);
    assert!(!position.long);
    assert_eq!(position.entry_tick, 1000);
    assert_eq!(position.volume_share, got);
    assert_eq!(position.collateral_value, 1_000_000);
    assert_eq!(position.debt_value, 1_000_000);
    assert_eq!(market.funding_rate_tracker.net_volume_short, got);
    assert_eq!(market._get_highest_buy_offer_tick(), 1000);

    // sells rest above; the short buys back from the lowest of them
    rest(&mut market, 3_000_000, 1010, false, 11);
    rest(&mut market, 3_000_000, 1005, false, 12);
    market._update_lowest_sell_offer_tick(1005);
    let (profit, update, start_timer) = market.close_market_position(user(1), 0, None, 20);
    let bought = _equivalent(got, 1005, true);
    let value = _equivalent(bought, 1005, false);
    assert_eq!(profit, value - 1_000_000);
    let update = update.unwrap();
    assert_eq!(update.manage_debt_params, ManageDebtParams::init(1_000_000, 1_000_000, 1_000_000));
    assert!(!start_timer);
    assert!(market._get_account_position(&user(1)._to_subaccount(0)).is_none());
    assert_eq!(market._get_tick_details(1005).unwrap().liq_bounds.lower_bound, bought);
    assert_eq!(market.funding_rate_tracker.net_volume_short, 0);
    assert_eq!(market._get_lowest_sell_offer_tick(), 1005);
}

#[test]
fn market_long_that_cannot_sell_all_stays_open() {
    let mut market = open_market();
    let base = _equivalent(9_000, 2000, true);
    rest(&mut market, base, 2000, false, 1);
    market._update_lowest_sell_offer_tick(2000);
    let (result, _, _) =
        market.open_market_position(user(1), 0, true, 3_000, 30, None, (true, 500), 100);
    let position = result.unwrap();
    let paid = _equivalent(base, 2000, false);
    assert_eq!(position.volume_share, paid);
    assert_eq!(position.debt_value, 6_000 - (9_000 - paid));
    assert_eq!(position.collateral_value, 3_000);
    assert_eq!(position.entry_tick, 2000);

    // a buy that takes only a part of what the long holds
    rest(&mut market, 2_500, 1990, true, 101);
    market._update_highest_buy_offer_tick(1990);
    let now = 100 + ONE_YEAR;
    let (profit, update, start_timer) = market.close_market_position(user(1), 0, None, now);
    let interest = position.debt_value * 500 / 10_000;
    let net_debt = position.debt_value + interest;
    assert_eq!(profit, 0);
    let update = update.unwrap();
    assert_eq!(
        update.manage_debt_params,
        ManageDebtParams::init(position.debt_value, net_debt, 2_500)
    );
    // the task runs since the long emptied the tick it bought from
    assert!(!start_timer);
    assert!(market._get_pending_timer());
    let holding = _equivalent(paid, 2000, true);
    let sold = _equivalent(2_500, 1990, true);
    let left = _equivalent(holding - sold, 2000, false);
    let after = market._get_account_position(&user(1)._to_subaccount(0)).unwrap();
    assert_eq!(after.debt_value, net_debt - 2_500);
    assert_eq!(after.collateral_value, 3_000);
    assert_eq!(after.volume_share, left);
    assert_eq!(after.timestamp, 100);
    assert_eq!(market.funding_rate_tracker.net_volume_long, left);
    assert!(market._get_tick_details(1990).is_none());
    // the buy was crossed and no other buy rests: none is cached
    assert_eq!(market._get_highest_buy_offer_tick(), 0);
}

#[test]
fn limit_short_is_filled_by_a_market_long() {
    let mut market = open_market();
    market.open_limit_position(user(1), 0, false, 40_000, 20, 1500, (true, 3), 10).0.unwrap();
    let seller = user(1)._to_subaccount(0);
    let resting = 2 * _equivalent(40_000, 1500, true);
    let tick = market._get_tick_details(1500).unwrap();
    assert_eq!(tick.tick_state, TickState::SELL);
    assert_eq!(tick.liq_bounds.upper_bound, resting);
    assert_eq!(market.get_best_offers(), (0, 1500));

    // a long buys a part of what rests
    let (result, update, start_timer) =
        market.open_market_position(user(2), 0, true, 10_000, 30, None, (true, 0), 20);
    let long = result.unwrap();
    let bought = _equivalent(30_000, 1500, true);
    assert_eq!(long.entry_tick, 1500);
    assert_eq!(long.volume_share, 30_000);
    assert_eq!(long.debt_value, 20_000);
    assert!(update.is_none());
    assert!(!start_timer);
    assert_eq!(market._get_tick_details(1500).unwrap().liq_bounds.lower_bound, bought);
    assert_eq!(market._get_lowest_sell_offer_tick(), 1500);
    assert_eq!(
        market._convert_account_limit_position_to_market(seller, true, 21),
        PositionStatus::PARTIAL
    );

    // the seller closes: what was filled becomes a market short
    let (collateral, update) = market.close_limit_position(user(1), 0, 30);
    let unfilled = _equivalent(resting - bought, 1500, false);
    assert!(unfilled > 40_000);
    assert_eq!(collateral, unfilled - 40_000);
    let update = update.unwrap();
    assert_eq!(update.profit, unfilled - 40_000);
    assert_eq!(update.manage_debt_params, ManageDebtParams::init(40_000, 40_000, 40_000));
    let short = market._get_account_position(&seller).unwrap();
    assert!(matches!(short.order_type, PositionOrderType::Market));
    assert!(!short.long);
    assert_eq!(short.debt_value, 0);
    assert_eq!(short.collateral_value, 80_000 - unfilled);
    assert_eq!(short.volume_share, 80_000 - unfilled);
    assert_eq!(short.timestamp, 30);
    assert_eq!(market.funding_rate_tracker.net_volume_short, 80_000 - unfilled);
    assert!(market._get_tick_details(1500).is_none());
}

#[test]
fn cache_moves_to_the_next_offer_behind_a_swap() {
    let mut market = open_market();
    rest(&mut market, 1_000, 3000, false, 1);
    rest(&mut market, 1_000, 3500, false, 2);
    rest(&mut market, 1_000, 9000, false, 3);
    market._update_lowest_sell_offer_tick(3000);
    // one unit more than the tick costs, so that rounding leaves it covered
    let cost = _equivalent(1_000, 3000, false) + 1;
    // the first tick is emptied: the next within the horizon is cached
    let (result, _, start_timer) =
        market.open_market_position(user(1), 0, true, cost, 10, None, (true, 0), 5);
    let position = result.unwrap();
    assert_eq!(position.entry_tick, 3000);
    assert_eq!(position.collateral_value, cost - 1);
    assert!(start_timer);
    assert!(market._get_tick_details(3000).is_none());
    assert_eq!(market._get_lowest_sell_offer_tick(), 3500);
    // the next tick is emptied too: no offer lies within the horizon
    let cost = _equivalent(1_000, 3500, false) + 1;
    let (result, _, _) =
        market.open_market_position(user(2), 0, true, cost, 10, None, (true, 0), 5);
    assert_eq!(result.unwrap().entry_tick, 3500);
    assert_eq!(market._get_lowest_sell_offer_tick(), 0);
    assert_eq!(market._get_next_best_offer_tick(true, 3500, u64::MAX), Some(9000));
    // a caller's limit reaches further than the horizon
    let cost = _equivalent(400, 9000, false);
    let (result, _, _) =
        market.open_market_position(user(3), 0, true, cost, 10, Some(9000), (true, 0), 5);
    let position = result.unwrap();
    assert_eq!(position.entry_tick, 9000);
    assert_eq!(market._get_lowest_sell_offer_tick(), 9000);
    assert_eq!(
        market._get_tick_details(9000).unwrap().liq_bounds.lower_bound,
        _equivalent(cost, 9000, true)
    );
}

#[test]
fn conversions_are_executed_in_the_order_they_were_scheduled() {
    let mut market = open_market();
    market.open_limit_position(user(1), 0, true, 1_000, 10, 1000, (true, 0), 1).0.unwrap();
    market.open_limit_position(user(2), 0, true, 2_000, 10, 1000, (true, 0), 2).0.unwrap();
    market.open_limit_position(user(3), 0, true, 3_000, 10, 990, (true, 0), 3).0.unwrap();
    let (first, second, third) =
        (user(1)._to_subaccount(0), user(2)._to_subaccount(0), user(3)._to_subaccount(0));
    let (out, _, tick, crossed) = market._swap(1_000_000, false, 1000, 0);
    assert_eq!(out, 6_000);
    assert_eq!(tick, 990);
    assert_eq!(crossed, vec![1000, 990]);
    assert!(market._schedule_execution_for_ticks_orders(crossed));
    assert_eq!(market.executable_limit_orders_accounts, vec![first, second, third]);
    assert!(!market._execute_each_limit_order(10));
    assert_eq!(market.executable_limit_orders_accounts, vec![second, third]);
    let converted = market._get_account_position(&first).unwrap();
    assert!(matches!(converted.order_type, PositionOrderType::Market));
    assert_eq!(converted.volume_share, 1_000);
    assert!(matches!(
        market._get_account_position(&second).unwrap().order_type,
        PositionOrderType::Limit(_)
    ));
    // an account that closed meanwhile is passed over
    market._remove_account_position(&second);
    assert!(!market._execute_each_limit_order(11));
    assert!(market._get_account_position(&second).is_none());
    assert!(!market._execute_each_limit_order(12));
    assert_eq!(market._get_account_position(&third).unwrap().volume_share, 3_000);
    assert!(market._execute_each_limit_order(13));
    assert!(!market._get_pending_timer());
}

#[test]
fn cache_is_cleared_when_a_swap_leaves_no_offer() {
    let mut market = open_market();
    market.open_limit_position(user(1), 0, false, 1_000, 10, 1100, (true, 0), 1).0.unwrap();
    assert_eq!(market.get_best_offers(), (0, 1100));
    let (result, _, _) =
        market.open_market_position(user(2), 0, true, 1_000, 10, None, (true, 0), 2);
    assert_eq!(result.unwrap().entry_tick, 1100);
    assert!(market._get_tick_details(1100).is_none());
    assert_eq!(market.get_best_offers(), (0, 0));
    // nothing rests on the sell side: a buy above the old sell is no crossing
    let (result, update) =
        market.open_limit_position(user(3), 0, true, 500, 10, 1200, (true, 0), 3);
    assert!(update.is_none());
    assert_eq!(result.unwrap().entry_tick, 1200);
    assert_eq!(market.get_best_offers(), (1200, 0));
}

#[test]
fn record_is_created_later_than_any_that_was_destroyed() {
    let mut market = open_market();
    assert!(market.can_open_limit_position(true, 700, 10, 500, 0) == false);
    assert!(market.can_open_limit_position(true, 700, 10, 500, 40));
    market.open_limit_position(user(1), 0, true, 700, 10, 500, (true, 0), 40).0.unwrap();
    // a second order on the record needs no later time
    assert!(market.can_open_limit_position(true, 5, 10, 500, 3));
    // the record is destroyed: no record can be created at its time again
    assert_eq!(market.close_limit_position(user(1), 0, 40).0, 700);
    assert!(market._get_tick_details(500).is_none());
    assert!(!market.can_open_limit_position(true, 5, 10, 500, 40));
    assert!(!market.can_open_limit_position(true, 5, 10, 777, 39));
    assert!(market.can_open_limit_position(true, 5, 10, 500, 41));
    let placed =
        market.open_limit_position(user(2), 0, true, 5, 10, 500, (true, 0), 41).0.unwrap();
    match placed.order_type {
        PositionOrderType::Limit(order) => assert_eq!(order.init_tick_timestamp, 41),
        PositionOrderType::Market => panic!("a limit position holds its order"),
    }
    assert_eq!(market._get_tick_details(500).unwrap().created_timestamp, 41);
    // a swap that empties a tick keeps its time in mind as well
    let (_, _, _, crossed) = market._swap(1_000, false, 500, 500);
    assert_eq!(crossed, vec![500]);
    assert!(!market.can_open_limit_position(true, 5, 10, 600, 41));
    assert!(market.can_open_limit_position(true, 5, 10, 600, 42));
    // an order without a size is kept off the book
    assert!(!market.can_open_limit_position(true, 0, 10, 600, 42));
    assert!(!market.can_open_limit_position(false, 1, 10, 600, 42));
}
