use candid::Principal;
use perp_market::corelib::book_check::_book_is_in_order;
use perp_market::corelib::order_lib::{CloseOrderParams, LimitOrder, OpenOrderParams};
use perp_market::corelib::price_lib::{_equivalent, _equivalent_fits};
use perp_market::account::UniqueSubAccount;
use perp_market::corelib::swap_lib::{SwapParams, _peek_swap, _swap_fits};
use perp_market::market::Market;
use perp_market::position::{
    _can_liquidation_status, _can_position_interest, PositionOrderType, PositionParameters,
};
use perp_market::store::MemoryPool;
use perp_market::types::{
    Asset, AssetClass, FundingRateTracker, MarketDetails, StateDetails, TickDetails, TickState,
};

fn market(tick_spacing: u64) -> Market {
    let mut market = Market::init(
        MemoryPool::new(),
        MarketDetails {
            base_asset: Asset { symbol: "BTC".to_string(), class: AssetClass::Cryptocurrency },
            quote_asset: Asset { symbol: "USD".to_string(), class: AssetClass::FiatCurrency },
            vault_id: Principal::from_slice(&[1]),
            xrc_id: Principal::from_slice(&[2]),
            tick_spacing,
        },
    );
    market._set_state_details(StateDetails {
        not_paused: true,
        max_leveragex10: 100,
        min_collateral: 1,
    });
    market
}

fn position(collateral: u128, debt: u128) -> PositionParameters {
    PositionParameters {
        owner: Principal::from_slice(&[3]),
        entry_tick: 1000,
        long: true,
        collateral_value: collateral,
        debt_value: debt,
        volume_share: 0,
        interest_rate: 500,
        order_type: PositionOrderType::Market,
        timestamp: 100,
    }
}

#[test]
fn closing_gives_what_the_whole_order_converts_into() {
    let (mut bitmaps, mut ticks) = MemoryPool::new().new_book();
    let mut order = LimitOrder::new(1_000_003, 4321, false);
    OpenOrderParams { integrals_bitmaps: &mut bitmaps, ticks_details: &mut ticks, order: &mut order }
        .open_order(1);
    let mut swap = SwapParams {
        buy: true,
        init_tick: 4321,
        stopping_tick: 4321,
        order_size: 333_335,
        integrals_bitmaps: &mut bitmaps,
        ticks_details: &mut ticks,
    };
    let (taken, left, _, _) = swap._swap();
    assert_eq!(left, 0);
    assert_eq!(taken, _equivalent(333_335, 4321, true));
    let mut params =
        CloseOrderParams { order: &order, integrals_bitmaps: &mut bitmaps, ticks_details: &mut ticks };
    assert!(params.can_close());
    let (received, remaining) = params.close_order();
    assert_eq!(remaining, 1_000_003 - taken);
    assert_eq!(received, _equivalent(taken, 4321, false));
    let whole = _equivalent(1_000_003, 4321, false);
    let parts = received + _equivalent(remaining, 4321, false);
    assert!(parts <= whole && whole <= parts + 1);
    assert!(ticks.get(4321).is_none());
}

#[test]
fn an_order_that_the_record_cannot_hold_is_not_closed() {
    let (mut bitmaps, mut ticks) = MemoryPool::new().new_book();
    let mut order = LimitOrder::new(500, 77, true);
    OpenOrderParams { integrals_bitmaps: &mut bitmaps, ticks_details: &mut ticks, order: &mut order }
        .open_order(1);
    // an order that was never placed, larger than all that rests
    let mut stranger = LimitOrder::new(501, 77, true);
    stranger.init_tick_timestamp = 1;
    let params = CloseOrderParams {
        order: &stranger,
        integrals_bitmaps: &mut bitmaps,
        ticks_details: &mut ticks,
    };
    assert!(!params.can_close());
    // one that claims more was removed when it was placed than ever was
    let mut early = order;
    early.init_removed_liquidity = 1;
    let params =
        CloseOrderParams { order: &early, integrals_bitmaps: &mut bitmaps, ticks_details: &mut ticks };
    assert!(!params.can_close());
    // one too large to convert
    let huge = LimitOrder::new(u128::MAX, 78, true);
    let params =
        CloseOrderParams { order: &huge, integrals_bitmaps: &mut bitmaps, ticks_details: &mut ticks };
    assert!(!params.can_close());
    let params =
        CloseOrderParams { order: &order, integrals_bitmaps: &mut bitmaps, ticks_details: &mut ticks };
    assert!(params.can_close());
}

#[test]
fn conversion_fits_while_the_product_does() {
    assert!(_equivalent_fits(u128::MAX / 1_000_000_000, 5, true));
    assert!(!_equivalent_fits(u128::MAX / 1_000_000_000 + 1, 5, true));
    assert!(_equivalent_fits(u128::MAX / 1_000_000_000, 0, false));
    assert!(!_equivalent_fits(u128::MAX / 1_000_000_000, 1, false));
    assert!(_equivalent_fits(0, u64::MAX, false));
}

#[test]
fn tracker_says_what_it_can_take() {
    let tracker = FundingRateTracker {
        net_volume_long: u128::MAX - 10,
        total_long_shares: 5,
        net_volume_short: 10,
        total_short_shares: u128::MAX - 4,
    };
    assert!(tracker.can_add_volume(10, true));
    assert!(!tracker.can_add_volume(11, true));
    // five shares would be minted for ten of volume: one too many
    assert!(!tracker.can_add_volume(1, false));
    assert!(tracker.can_add_volume(0, false));
    assert!(tracker.can_remove_volume(1, true));
    assert!(!tracker.can_remove_volume(6, true));
    assert!(!tracker.can_remove_volume(2, true));
    assert!(tracker.can_remove_volume(u128::MAX / 10, false));
    assert!(!tracker.can_remove_volume(u128::MAX / 10 + 1, false));
}

#[test]
fn interest_and_liquidation_say_when_they_can_be_computed() {
    let fine = position(100, 900);
    assert!(_can_position_interest(&fine, 100));
    assert!(_can_position_interest(&fine, u64::MAX));
    assert!(!_can_position_interest(&fine, 99));
    let heavy = position(0, u128::MAX / 1_000);
    assert!(_can_position_interest(&heavy, 100));
    assert!(_can_position_interest(&heavy, 102));
    assert!(!_can_position_interest(&heavy, 103));

    assert!(_can_liquidation_status(&fine, 1000, 100));
    assert!(!_can_liquidation_status(&fine, 1000, 99));
    // the collateral is exactly gone: no leverage can be computed
    assert!(!_can_liquidation_status(&fine, 900, 100));
    let mut at_zero = fine;
    at_zero.entry_tick = 0;
    assert!(!_can_liquidation_status(&at_zero, 5, 100));
    let mut far = fine;
    far.entry_tick = 1;
    assert!(!_can_liquidation_status(&far, u64::MAX, 100));
    let rich = position(u128::MAX / 2, 1);
    assert!(!_can_liquidation_status(&rich, 1000, 100));
    let mut limit = rich;
    limit.order_type = PositionOrderType::Limit(LimitOrder::new(1, 1, true));
    limit.collateral_value = i128::MAX as u128 + 1;
    assert!(!_can_liquidation_status(&limit, 1000, 100));
    limit.collateral_value = i128::MAX as u128;
    assert!(_can_liquidation_status(&limit, 1000, 100));
}

#[test]
fn market_says_which_positions_it_can_open_and_close() {
    let mut unset = market(0);
    assert!(!unset.can_open_limit_position(true, 100, 20, 1000, 1));
    unset._set_state_details(StateDetails::default());

    let mut market = market(1);
    assert!(market.can_open_limit_position(true, 100, 20, 1000, 1));
    assert!(!market.can_open_limit_position(true, 100, 9, 1000, 1));
    assert!(!market.can_open_limit_position(true, u128::MAX / 2, 30, 1000, 1));
    assert!(market.can_open_limit_position(true, u128::MAX - 5, 10, 1000, 1));
    assert!(!market.can_open_limit_position(false, u128::MAX - 5, 10, 1000, 1));
    let whale = Principal::from_slice(&[4, 4]);
    let user = Principal::from_slice(&[5, 5]);
    assert!(!market.can_close_limit_position(user, 0));
    market.open_limit_position(whale, 0, true, u128::MAX - 5, 10, 1000, (true, 1), 1).0.unwrap();
    // nothing more fits on the tick, and the order is too large to convert
    assert!(!market.can_open_limit_position(true, 100, 20, 1000, 1));
    assert!(market.can_open_limit_position(true, 5, 10, 1000, 1));
    assert!(market.can_open_limit_position(true, 100, 20, 999, 1));
    assert!(!market.can_close_limit_position(whale, 0));
    assert!(!market.can_get_account_position_details(whale, 0, 5));
    market.open_limit_position(user, 0, true, 100, 20, 999, (true, 1), 1).0.unwrap();
    assert!(market.can_close_limit_position(user, 0));
    assert!(market.can_get_account_position_details(user, 0, 5));
    assert!(market.can_liquidate_position(user, 0, 5));
    assert!(!market.can_liquidate_position(user, 1, 5));
    assert_eq!(market.liquidate_position(user, 0, 5), (false, None));
    assert_eq!(market.close_limit_position(user, 0, 2).0, 100);

    assert!(market.can_settle_funding_rate(1_010, 1_000));
    assert!(!market.can_settle_funding_rate(1_010, 0));
    assert!(!market.can_settle_funding_rate(u128::MAX, 1));
    // a premium of three hundred percent: more than the longs hold
    market.funding_rate_tracker.add_volume(10, true);
    assert!(!market.can_settle_funding_rate(4_000, 1_000));
    assert!(market.can_settle_funding_rate(2_000, 1_000));
}

#[test]
fn records_keep_what_the_store_was_given() {
    let (mut bitmaps, mut ticks) = MemoryPool::new().new_book();
    assert!(ticks.get(0).is_none());
    assert!(bitmaps.get(0).is_none());
    let mut record = TickDetails::new(99);
    assert_eq!(record.tick_state, TickState::BUY);
    assert_eq!(record.created_timestamp, 99);
    record._add_liquidity(10);
    record._remove_liquidity(3);
    record.liq_bounds._reduce_boundary(4);
    assert_eq!(record.liq_bounds.upper_bound, 10);
    assert_eq!(record.liq_bounds.lower_bound, 7);
    assert_eq!(record.liq_bounds.lifetime_removed_liquidity, 3);
    assert_eq!(record.liq_bounds._liquidity_within(), 3);
    record.tick_state = TickState::SELL;
    ticks.insert(u64::MAX, record);
    ticks.insert(5, TickDetails::default());
    let read = ticks.get(u64::MAX).unwrap();
    assert_eq!(read.tick_state, TickState::SELL);
    assert_eq!(read.liq_bounds, record.liq_bounds);
    assert_eq!(read.created_timestamp, 99);
    assert_eq!(ticks.get(5).unwrap().tick_state, TickState::SELL);
    ticks.remove(u64::MAX);
    assert!(ticks.get(u64::MAX).is_none());
    assert!(ticks.get(5).is_some());
    bitmaps.insert(3, u128::MAX);
    bitmaps.insert(3, 1 << 100);
    assert_eq!(bitmaps.get(3), Some(1 << 100));
    assert_eq!(bitmaps.get(4), None);
}

#[test]
fn market_says_which_market_positions_it_can_open_and_close() {
    let mut market = market(1);
    let seller = Principal::from_slice(&[6, 6]);
    let buyer = Principal::from_slice(&[7, 7]);
    market.open_limit_position(seller, 0, false, 50_000, 10, 2000, (true, 1), 1).0.unwrap();
    assert!(market.can_open_market_position(true, 1_000, 30, None));
    assert!(market.can_open_market_position(true, 1_000, 30, Some(5000)));
    assert!(!market.can_open_market_position(true, 1_000, 9, None));
    // a quote too large to convert
    assert!(!market.can_open_market_position(true, u128::MAX / 1_000_000_000 + 1, 10, None));
    assert!(market.can_open_market_position(true, u128::MAX / 1_000_000_000, 10, None));
    // no buy rests: a short is not opened, and asks for nothing
    assert!(market.can_open_market_position(false, 1_000, 30, None));
    // the longs' side has no room for the value of the position
    market.funding_rate_tracker.net_volume_long = u128::MAX - 10;
    assert!(!market.can_open_market_position(true, 1_000, 30, None));
    market.funding_rate_tracker.net_volume_long = 0;

    assert!(!market.can_close_market_position(buyer, 0, None, 5));
    let position =
        market.open_market_position(buyer, 0, true, 1_000, 90, None, (true, 500), 5).0.unwrap();
    assert_eq!(position.volume_share, 9_000);
    assert_eq!(position.debt_value, 8_000);
    // no buy rests to sell into: the close does nothing and fits
    assert!(market.can_close_market_position(buyer, 0, None, 6));
    // a buy that takes all the long holds, for less than its debt
    market.open_limit_position(seller, 1, true, 2_000_000, 10, 10, (true, 1), 7).0.unwrap();
    assert!(_equivalent(_equivalent(9_000, 2000, true), 10, false) < 8_000);
    assert!(!market.can_close_market_position(buyer, 0, None, 8));
    // before the position was executed
    assert!(!market.can_close_market_position(buyer, 0, None, 4));
    // a limit position is left alone by a market close
    assert!(market.can_close_market_position(seller, 1, None, 8));

    assert!(market.can_execute_each_limit_order());
    market.executable_limit_orders_accounts.push(seller._to_subaccount(0));
    assert!(market.can_execute_each_limit_order());
    market.funding_rate_tracker.net_volume_short = u128::MAX;
    assert!(!market.can_execute_each_limit_order());
}

#[test]
fn swap_can_be_looked_at_before_it_is_made() {
    let (mut bitmaps, mut ticks) = MemoryPool::new().new_book();
    for (size, tick) in [(700u128, 300u64), (900, 290), (1_100, 150)] {
        let mut order = LimitOrder::new(size, tick, true);
        OpenOrderParams {
            integrals_bitmaps: &mut bitmaps,
            ticks_details: &mut ticks,
            order: &mut order,
        }
        .open_order(1);
    }
    assert!(_swap_fits(false, 300, 100, 5_000));
    assert!(!_swap_fits(false, 300, 100, u128::MAX / 1_000_000_000));
    assert!(_swap_fits(true, 300, 400, u128::MAX / 1_000_000_000));
    assert!(!_swap_fits(true, 300, 400, u128::MAX / 1_000_000_000 + 1));
    let seen = _peek_swap(false, 300, 100, 2_000, &bitmaps, &ticks);
    assert!(ticks.get(300).is_some());
    let mut swap = SwapParams {
        buy: false,
        init_tick: 300,
        stopping_tick: 100,
        order_size: 2_000,
        integrals_bitmaps: &mut bitmaps,
        ticks_details: &mut ticks,
    };
    let (out, remaining, tick, crossed) = swap._swap();
    assert_eq!(seen, (out, remaining, tick));
    assert_eq!(crossed, vec![300, 290]);
    assert_eq!(out, 700 + 900 + _equivalent(remaining_after(2_000), 150, false));
    assert_eq!(remaining, 0);
}

fn remaining_after(size: u128) -> u128 {
    size - _equivalent(700, 300, true) - _equivalent(900, 290, true)
}

#[test]
fn book_is_read_to_see_whether_it_is_in_order() {
    let (mut bitmaps, mut ticks) = MemoryPool::new().new_book();
    assert!(_book_is_in_order(&bitmaps, &ticks));
    let mut placed = Vec::new();
    for (size, tick, buy) in
        [(5u128, 0u64, true), (7, 127, false), (9, 128, true), (11, u64::MAX, false)]
    {
        let mut order = LimitOrder::new(size, tick, buy);
        OpenOrderParams {
            integrals_bitmaps: &mut bitmaps,
            ticks_details: &mut ticks,
            order: &mut order,
        }
        .open_order(3);
        placed.push(order);
    }
    assert!(_book_is_in_order(&bitmaps, &ticks));
    assert_eq!(ticks.first_from(1).unwrap().0, 127);
    assert_eq!(ticks.first_from(129).unwrap().0, u64::MAX);
    assert_eq!(bitmaps.first_from(2).unwrap().0, u64::MAX / 128);
    // a record without a mark
    let record = ticks.get(128).unwrap();
    ticks.insert(5_000, record);
    assert!(!_book_is_in_order(&bitmaps, &ticks));
    ticks.remove(5_000);
    assert!(_book_is_in_order(&bitmaps, &ticks));
    // a mark without a record
    bitmaps.insert(77, 1 << 9);
    assert!(!_book_is_in_order(&bitmaps, &ticks));
    bitmaps.insert(77, 0);
    assert!(_book_is_in_order(&bitmaps, &ticks));
    // a record without liquidity, and one with its bounds out of order
    let mut empty = record;
    empty.liq_bounds.lower_bound = empty.liq_bounds.upper_bound;
    ticks.insert(128, empty);
    assert!(!_book_is_in_order(&bitmaps, &ticks));
    let mut wrong = record;
    wrong.liq_bounds.lifetime_removed_liquidity = wrong.liq_bounds.lower_bound + 1;
    ticks.insert(128, wrong);
    assert!(!_book_is_in_order(&bitmaps, &ticks));
    ticks.insert(128, record);
    assert!(_book_is_in_order(&bitmaps, &ticks));
    // the time of a destroyed record, kept beside the words, is no mark
    let mut closing = CloseOrderParams {
        order: &placed[0],
        integrals_bitmaps: &mut bitmaps,
        ticks_details: &mut ticks,
    };
    assert_eq!(closing.close_order(), (0, 5));
    assert!(ticks.get(0).is_none());
    assert_eq!(bitmaps.get(u64::MAX), Some(3));
    assert!(_book_is_in_order(&bitmaps, &ticks));

    let mut market = market(1);
    assert!(market.book_is_in_order());
    market
        .open_limit_position(Principal::from_slice(&[8]), 0, true, 50, 10, 999, (true, 1), 1)
        .0
        .unwrap();
    assert!(market.book_is_in_order());
}
