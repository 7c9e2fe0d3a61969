use candid::Principal;
use perp_market::account::UniqueSubAccount;
use perp_market::corelib::order_lib::LimitOrder;
use perp_market::corelib::price_lib::{_equivalent, _tick_to_price};
use perp_market::market::{is_tick_order_stored, remove_tick_order, store_tick_order, Market};
use perp_market::operations::{OpenPositionError, Vault, VaultUpdate, XRC, _debt_value};
use perp_market::position::{ManageDebtParams, PositionOrderType, PositionStatus};
use perp_market::store::MemoryPool;
use perp_market::types::{
    Asset, AssetClass, ExchangeRate, ExchangeRateError, ExchangeRateMetadata, MarketDetails,
    StateDetails, TickState,
};
use sha2::{Digest, Sha256};

fn details(tick_spacing: u64) -> MarketDetails {
    MarketDetails {
        base_asset: Asset { symbol: "ICP".to_string(), class: AssetClass::Cryptocurrency },
        quote_asset: Asset { symbol: "USD".to_string(), class: AssetClass::FiatCurrency },
        vault_id: Principal::from_slice(&[9, 9, 9]),
        xrc_id: Principal::from_slice(&[8, 8]),
        tick_spacing,
    }
}

fn running_market() -> Market {
    let mut market = Market::init(MemoryPool::new(), details(1));
    market._set_state_details(StateDetails {
        not_paused: true,
        max_leveragex10: 100,
        min_collateral: 10,
    });
    market
}

fn user(n: u8) -> Principal {
    Principal::from_slice(&[n, 1, 2, 3])
}

/// Places a resting order on the book of the market, outside any position.
fn rest(market: &mut Market, size: u128, tick: u64, buy: bool, now: u64) -> LimitOrder {
    let mut order = LimitOrder::new(size, tick, buy);
    market._open_order(&mut order, now);
    order
}

#[test]
fn subaccount_is_the_digest_of_principal_and_index() {
    let principal = user(5);
    let mut hasher = Sha256::new();
    hasher.update(principal.as_slice());
    hasher.update([3u8]);
    let expected: [u8; 32] = hasher.finalize().into();
    assert_eq!(principal._to_subaccount(3), expected);
    assert_ne!(principal._to_subaccount(4), expected);
    assert_ne!(user(6)._to_subaccount(3), expected);
    let anonymous = Principal::anonymous();
    let digest: [u8; 32] = Sha256::digest([4u8, 0u8]).into();
    assert_eq!(anonymous._to_subaccount(0), digest);
}

#[test]
fn a_new_market_is_empty_and_paused() {
    let market = Market::init(MemoryPool::new(), details(5));
    assert_eq!(market._get_state_details(), StateDetails::default());
    assert!(!market._get_state_details().not_paused);
    assert_eq!(market._get_market_details().tick_spacing, 5);
    assert_eq!(market._get_market_details().vault_id, Principal::from_slice(&[9, 9, 9]));
    assert_eq!(market._get_highest_buy_offer_tick(), 0);
    assert_eq!(market._get_lowest_sell_offer_tick(), 0);
    assert_eq!(market.get_best_offers(), (0, 0));
    assert!(market._get_tick_details(1000).is_none());
    assert!(market._get_account_position(&user(1)._to_subaccount(0)).is_none());
    assert!(!market._has_position_or_pending_error_log(&user(1)._to_subaccount(0)));
    assert!(!market._get_pending_timer());
    assert_eq!(market.funding_rate_tracker.net_volume_long, 0);
}

#[test]
fn default_details_name_nobody() {
    let details = MarketDetails::default();
    assert_eq!(details.vault_id, Principal::anonymous());
    assert_eq!(details.xrc_id, Principal::anonymous());
    assert_eq!(details.vault_id.as_slice(), &[4u8]);
    assert_eq!(details.tick_spacing, 0);
    assert_eq!(details.base_asset, Asset::default());
    assert_eq!(details.quote_asset.symbol, "");
    assert_eq!(details.quote_asset.class, AssetClass::Cryptocurrency);
    assert_eq!(AssetClass::default(), AssetClass::Cryptocurrency);
    assert_eq!(TickState::default(), TickState::SELL);
}

#[test]
fn debt_follows_the_leverage() {
    assert_eq!(_debt_value(100, 30), 200);
    assert_eq!(_debt_value(100, 10), 0);
    assert_eq!(_debt_value(100, 15), 50);
    assert_eq!(_debt_value(7, 11), 0);
    assert_eq!(_debt_value(1_000_000, 255), 24_500_000);
}

#[test]
fn refusals_come_in_order_with_their_words() {
    let mut market = Market::init(MemoryPool::new(), details(1));
    let account = user(1)._to_subaccount(0);
    assert_eq!(
        market._open_position_checks(&account, 100, 20, (true, 5)),
        Err(OpenPositionError::MarketPaused)
    );
    market._set_state_details(StateDetails {
        not_paused: true,
        max_leveragex10: 100,
        min_collateral: 10,
    });
    assert_eq!(market._open_position_precheck(&account, 100, 20), None);
    assert_eq!(
        market._open_position_checks(&account, 100, 100, (true, 5)),
        Err(OpenPositionError::LeverageOrCollateral)
    );
    assert_eq!(
        market._open_position_checks(&account, 9, 20, (true, 5)),
        Err(OpenPositionError::LeverageOrCollateral)
    );
    assert_eq!(
        market._open_position_checks(&account, 10, 99, (false, 5)),
        Err(OpenPositionError::NotEnoughLiquidity)
    );
    assert_eq!(market._open_position_checks(&account, 10, 99, (true, 5)), Ok(5));
    let (result, update) =
        market.open_limit_position(user(1), 0, true, 100, 20, 1000, (true, 5), 1);
    assert!(result.is_ok());
    assert!(update.is_none());
    assert_eq!(
        market._open_position_checks(&account, 100, 20, (true, 5)),
        Err(OpenPositionError::PendingErrorOrPosition)
    );
    assert_eq!(
        market._open_position_precheck(&account, 100, 20),
        Some(OpenPositionError::PendingErrorOrPosition)
    );

    assert_eq!(
        OpenPositionError::PendingErrorOrPosition.message(),
        "Account has pending error or unclosed position"
    );
    assert_eq!(OpenPositionError::MarketPaused.message(), "Market is paused");
    assert_eq!(
        OpenPositionError::LeverageOrCollateral.message(),
        "Max leverage exceeded or collateral is too small"
    );
    assert_eq!(OpenPositionError::NotEnoughLiquidity.message(), "Not enough liquidity for debt");
    assert_eq!(OpenPositionError::FailedToOpen.message(), "Failed to open position");
}

#[test]
fn limit_long_rests_at_its_tick_and_sets_the_highest_buy() {
    let mut market = running_market();
    let (result, update) =
        market.open_limit_position(user(1), 0, true, 10_000_000, 10, 1000, (true, 7), 50);
    assert!(update.is_none());
    let position = result.unwrap();
    assert_eq!(position.owner, user(1));
    assert!(position.long);
    assert_eq!(position.entry_tick, 1000);
    assert_eq!(position.collateral_value, 10_000_000);
    assert_eq!(position.debt_value, 0);
    assert_eq!(position.interest_rate, 7);
    assert_eq!(position.volume_share, 0);
    assert_eq!(position.timestamp, 0);
    let order = match position.order_type {
        PositionOrderType::Limit(order) => order,
        PositionOrderType::Market => panic!("a limit position holds its order"),
    };
    assert!(order.buy);
    assert_eq!(order.order_size, 10_000_000);
    assert_eq!(order.init_lower_bound, 0);
    assert_eq!(order.init_tick_timestamp, 50);
    let tick = market._get_tick_details(1000).unwrap();
    assert_eq!(tick.liq_bounds.upper_bound, 10_000_000);
    assert_eq!(tick.liq_bounds.lower_bound, 0);
    assert_eq!(tick.tick_state, TickState::BUY);
    assert_eq!(market.get_best_offers(), (1000, 0));
    let account = user(1)._to_subaccount(0);
    assert!(is_tick_order_stored(&market.limit_orders_record, 1000, &account));
    let stored = market._get_account_position(&account).unwrap();
    assert_eq!(stored.collateral_value, 10_000_000);
    assert_eq!(stored.owner, user(1));
    assert!(matches!(stored.order_type, PositionOrderType::Limit(_)));

    // a second order at the same tick starts where the first ends
    let (second, _) =
        market.open_limit_position(user(2), 0, true, 500_000, 30, 1000, (true, 7), 60);
    let second = second.unwrap();
    assert_eq!(second.debt_value, 1_000_000);
    let order2 = match second.order_type {
        PositionOrderType::Limit(order) => order,
        PositionOrderType::Market => panic!("a limit position holds its order"),
    };
    assert_eq!(order2.order_size, 1_500_000);
    assert_eq!(order2.init_lower_bound, 10_000_000);
    assert_eq!(market._get_tick_details(1000).unwrap().liq_bounds.upper_bound, 11_500_000);

    // a lower buy does not move the highest buy, a higher one does
    market.open_limit_position(user(3), 0, true, 100, 10, 900, (true, 7), 61).0.unwrap();
    assert_eq!(market.get_best_offers(), (1000, 0));
    market.open_limit_position(user(4), 0, true, 100, 10, 1100, (true, 7), 62).0.unwrap();
    assert_eq!(market.get_best_offers(), (1100, 0));
}

#[test]
fn limit_that_would_trade_at_once_fails_and_refunds() {
    let mut market = running_market();
    market.open_limit_position(user(1), 0, false, 1_000, 20, 1200, (true, 7), 1).0.unwrap();
    assert_eq!(market.get_best_offers(), (0, 1200));
    let size = _equivalent(1_000, 1200, true) + _equivalent(1_000, 1200, true);
    let tick = market._get_tick_details(1200).unwrap();
    assert_eq!(tick.liq_bounds.upper_bound, size);
    assert_eq!(tick.tick_state, TickState::SELL);

    for entry in [1200u64, 1300] {
        let (result, update) =
            market.open_limit_position(user(2), 1, true, 400, 25, entry, (true, 7), 2);
        assert_eq!(result.unwrap_err(), OpenPositionError::FailedToOpen);
        let update = update.unwrap();
        assert_eq!(update.user, user(2));
        assert_eq!(update.account_index, 1);
        assert_eq!(update.profit, 400);
        assert_eq!(update.manage_debt_params, ManageDebtParams::init(600, 600, 600));
        assert!(market._get_account_position(&user(2)._to_subaccount(1)).is_none());
    }
    assert!(market.open_limit_position(user(2), 1, true, 400, 25, 1199, (true, 7), 2).0.is_ok());
    assert_eq!(market.get_best_offers(), (1199, 1200));
    // a short at or below the highest buy
    let (result, update) =
        market.open_limit_position(user(3), 0, false, 400, 25, 1199, (true, 7), 2);
    assert_eq!(result.unwrap_err(), OpenPositionError::FailedToOpen);
    assert!(update.is_some());
}

#[test]
fn limit_position_that_was_not_filled_closes_with_everything_back() {
    let mut market = running_market();
    market.open_limit_position(user(1), 2, true, 1_000, 30, 1000, (true, 7), 1).0.unwrap();
    assert_eq!(
        market._convert_account_limit_position_to_market(user(1)._to_subaccount(2), true, 5),
        PositionStatus::UNFILLED
    );
    assert!(market._get_tick_details(1000).is_some());
    let (collateral, update) = market.close_limit_position(user(1), 2, 9);
    assert_eq!(collateral, 1_000);
    let update = update.unwrap();
    assert_eq!(update.user, user(1));
    assert_eq!(update.account_index, 2);
    assert_eq!(update.profit, 1_000);
    assert_eq!(update.manage_debt_params, ManageDebtParams::init(2_000, 2_000, 2_000));
    let account = user(1)._to_subaccount(2);
    assert!(market._get_account_position(&account).is_none());
    assert!(!is_tick_order_stored(&market.limit_orders_record, 1000, &account));
    assert!(market._get_tick_details(1000).is_none());
    // without debt nothing is told to the vault
    market.open_limit_position(user(1), 2, true, 1_000, 10, 1000, (true, 7), 10).0.unwrap();
    assert_eq!(market.close_limit_position(user(1), 2, 11), (1_000, None::<VaultUpdate>));
}

#[test]
fn market_long_uses_what_the_book_offers_and_gives_the_rest_back() {
    let mut market = running_market();
    // Base resting at 1100 that costs exactly 150 of quote.
    let mut base = _equivalent(150, 1100, true);
    while _equivalent(base, 1100, false) < 150 {
        base += 1;
    }
    assert_eq!(_equivalent(base, 1100, false), 150);
    rest(&mut market, base, 1100, false, 1);
    market._update_lowest_sell_offer_tick(1100);

    let (result, update, start_timer) =
        market.open_market_position(user(1), 0, true, 100, 30, None, (true, 12), 77);
    let position = result.unwrap();
    assert!(position.long);
    assert_eq!(position.entry_tick, 1100);
    assert_eq!(position.collateral_value, 100);
    assert_eq!(position.debt_value, 50);
    assert_eq!(position.volume_share, 150);
    assert_eq!(position.interest_rate, 12);
    assert_eq!(position.timestamp, 77);
    assert!(matches!(position.order_type, PositionOrderType::Market));
    let update = update.unwrap();
    assert_eq!(update.profit, 0);
    assert_eq!(update.manage_debt_params, ManageDebtParams::init(200, 200, 150));
    assert!(start_timer);
    assert!(market._get_pending_timer());
    assert!(market._get_tick_details(1100).is_none());
    assert_eq!(market.funding_rate_tracker.net_volume_long, 150);
    assert_eq!(market.funding_rate_tracker.total_long_shares, 150);
    // nothing else rests: no sell is cached
    assert_eq!(market._get_lowest_sell_offer_tick(), 0);
    let stored = market._get_account_position(&user(1)._to_subaccount(0)).unwrap();
    assert_eq!(stored.debt_value, 50);
    assert_eq!(stored.entry_tick, 1100);
    assert!(matches!(stored.order_type, PositionOrderType::Market));
}

#[test]
fn market_long_on_an_empty_book_uses_nothing() {
    let mut market = running_market();
    let (result, update, start_timer) =
        market.open_market_position(user(1), 0, true, 100, 30, Some(5000), (true, 12), 77);
    let position = result.unwrap();
    assert_eq!(position.entry_tick, 0);
    assert_eq!(position.collateral_value, 0);
    assert_eq!(position.debt_value, 0);
    assert_eq!(position.volume_share, 0);
    let update = update.unwrap();
    assert_eq!(update.profit, 100);
    assert_eq!(update.manage_debt_params, ManageDebtParams::init(200, 200, 200));
    assert!(!start_timer);
}

#[test]
fn market_short_without_a_buy_fails_and_refunds() {
    let mut market = running_market();
    let (result, update, start_timer) =
        market.open_market_position(user(1), 0, false, 100, 30, None, (true, 12), 77);
    assert_eq!(result.unwrap_err(), OpenPositionError::FailedToOpen);
    let update = update.unwrap();
    assert_eq!(update.profit, 100);
    assert_eq!(update.manage_debt_params, ManageDebtParams::init(200, 200, 200));
    assert!(!start_timer);
    assert!(market._get_account_position(&user(1)._to_subaccount(0)).is_none());
}

#[test]
fn market_short_fills_a_limit_long_which_is_then_converted() {
    let mut market = running_market();
    market.open_limit_position(user(1), 0, true, 1_000_000, 20, 1000, (true, 7), 10).0.unwrap();
    assert_eq!(market.get_best_offers(), (1000, 0));
    let buyer = user(1)._to_subaccount(0);

    // the short sells more base than the buy can take
    let (result, update, start_timer) =
        market.open_market_position(user(2), 0, false, 2_000_000, 20, None, (true, 9), 20);
    let short = result.unwrap();
    assert!(!short.long);
    assert_eq!(short.entry_tick, 1000);
    assert_eq!(short.volume_share, 2_000_000);
    assert_eq!(market.funding_rate_tracker.net_volume_short, 2_000_000);
    assert!(start_timer);
    assert!(market._get_tick_details(1000).is_none());
    assert_eq!(market.executable_limit_orders_accounts, vec![buyer]);
    assert!(!is_tick_order_stored(&market.limit_orders_record, 1000, &buyer));
    // the buy is paid for with the base that its quote converts into
    let sold = _equivalent(2_000_000, 1000, true);
    let brought = 2 * _equivalent(2_000_000, 1000, true);
    let unused = _equivalent(brought - sold, 1000, false);
    let update = update.unwrap();
    assert_eq!(update.manage_debt_params.amount_repaid, 2_000_000.min(unused));
    assert_eq!(short.debt_value, 2_000_000 - 2_000_000.min(unused));
    assert_eq!(short.collateral_value + update.profit, 2_000_000);

    // the conversion of the crossed limit position
    assert_eq!(
        market._convert_account_limit_position_to_market(buyer, true, 25),
        PositionStatus::FILLED
    );
    assert!(!market._execute_each_limit_order(30));
    let converted = market._get_account_position(&buyer).unwrap();
    assert!(matches!(converted.order_type, PositionOrderType::Market));
    assert_eq!(converted.timestamp, 30);
    assert_eq!(converted.collateral_value, 1_000_000);
    assert_eq!(converted.debt_value, 1_000_000);
    assert_eq!(converted.volume_share, 2_000_000);
    assert_eq!(market.funding_rate_tracker.net_volume_long, 2_000_000);
    assert!(market.executable_limit_orders_accounts.is_empty());
    assert!(market._get_pending_timer());
    // with nothing left to convert the task stops
    assert!(market._execute_each_limit_order(31));
    assert!(!market._get_pending_timer());
}

#[test]
fn part_filled_limit_position_closes_into_a_market_position() {
    let mut market = running_market();
    market.open_limit_position(user(1), 0, true, 600, 20, 1000, (true, 7), 10).0.unwrap();
    // someone sells base worth 500 of quote into the order of 1200
    let mut base = _equivalent(500, 1000, true);
    while _equivalent(base, 1000, false) < 500 {
        base += 1;
    }
    let (out, remaining, tick, crossed) = market._swap(base, false, 1000, 1000);
    assert_eq!((out, remaining, tick), (500, 0, 1000));
    assert!(crossed.is_empty());
    assert_eq!(
        market._convert_account_limit_position_to_market(user(1)._to_subaccount(0), true, 11),
        PositionStatus::PARTIAL
    );
    let (collateral, update) = market.close_limit_position(user(1), 0, 40);
    // 700 was not filled: 600 of it repays the debt, 100 leaves as collateral
    assert_eq!(collateral, 100);
    let update = update.unwrap();
    assert_eq!(update.profit, 100);
    assert_eq!(update.manage_debt_params, ManageDebtParams::init(600, 600, 600));
    let position = market._get_account_position(&user(1)._to_subaccount(0)).unwrap();
    assert!(matches!(position.order_type, PositionOrderType::Market));
    assert_eq!(position.collateral_value, 500);
    assert_eq!(position.debt_value, 0);
    assert_eq!(position.volume_share, 500);
    assert_eq!(position.timestamp, 40);
    assert_eq!(market.funding_rate_tracker.net_volume_long, 500);
    assert!(market._get_tick_details(1000).is_none());
    // closing a market position as a limit position does nothing
    assert_eq!(market.close_limit_position(user(1), 0, 41), (0, None::<VaultUpdate>));
}

#[test]
fn market_long_closes_against_resting_buys() {
    let mut market = running_market();
    let base = _equivalent(3_000, 1100, true);
    rest(&mut market, base, 1100, false, 1);
    market._update_lowest_sell_offer_tick(1100);
    let (result, _, _) =
        market.open_market_position(user(1), 0, true, 1_000, 30, None, (true, 0), 77);
    let position = result.unwrap();
    let paid = _equivalent(base, 1100, false);
    assert_eq!(position.volume_share, paid);
    assert_eq!(position.debt_value, 2_000 - (3_000 - paid));
    assert_eq!(position.entry_tick, 1100);

    // closing a limit position as a market position does nothing
    market.open_limit_position(user(3), 0, true, 50_000, 10, 1090, (true, 0), 78).0.unwrap();
    assert_eq!(market.close_market_position(user(3), 0, None, 80), (0, None, false));

    let (profit, update, start_timer) = market.close_market_position(user(1), 0, None, 90);
    let sold = _equivalent(paid, 1100, true);
    let got = _equivalent(sold, 1090, false);
    assert_eq!(profit, got - position.debt_value);
    let update = update.unwrap();
    assert_eq!(update.profit, profit);
    assert_eq!(
        update.manage_debt_params,
        ManageDebtParams::init(position.debt_value, position.debt_value, position.debt_value)
    );
    assert!(!start_timer);
    assert!(market._get_account_position(&user(1)._to_subaccount(0)).is_none());
    assert_eq!(market.funding_rate_tracker.net_volume_long, 0);
    assert_eq!(market.funding_rate_tracker.total_long_shares, 0);
    assert_eq!(market._get_tick_details(1090).unwrap().liq_bounds.lower_bound, got);
}

#[test]
fn position_that_lost_its_collateral_is_liquidated() {
    let mut market = running_market();
    let base = _equivalent(10_000, 1000, true);
    rest(&mut market, base, 1000, false, 1);
    market._update_lowest_sell_offer_tick(1000);
    let (result, _, _) =
        market.open_market_position(user(1), 0, true, 1_000, 90, None, (true, 0), 5);
    let position = result.unwrap();
    assert_eq!(position.entry_tick, 1000);
    assert_eq!(market.liquidate_position(user(1), 0, 6), (false, None));
    assert!(market._get_account_position(&user(1)._to_subaccount(0)).is_some());

    // the best sell falls by a fifth
    market._update_lowest_sell_offer_tick(800);
    let value = position.collateral_value + position.debt_value;
    let lost = value * 2_000 / 10_000;
    let collateral = value as i128 - (lost + position.debt_value) as i128;
    assert!(collateral < 0);
    let (liquidated, update) = market.liquidate_position(user(1), 0, 7);
    assert!(liquidated);
    let update = update.unwrap();
    assert_eq!(update.user, user(1));
    assert_eq!(update.profit, 0);
    assert_eq!(
        update.manage_debt_params,
        ManageDebtParams::init(
            position.debt_value,
            position.debt_value,
            position.debt_value - (-collateral) as u128
        )
    );
    assert!(market._get_account_position(&user(1)._to_subaccount(0)).is_none());
    assert_eq!(market.funding_rate_tracker.net_volume_long, 0);
}

#[test]
fn details_of_a_position_show_its_profit() {
    let mut market = running_market();
    assert!(market.get_account_position_details(user(1), 0, 1).is_none());
    let base = _equivalent(100, 1000, true);
    rest(&mut market, base, 1000, false, 1);
    market._update_lowest_sell_offer_tick(1000);
    let (result, _, _) =
        market.open_market_position(user(1), 0, true, 100, 10, None, (true, 0), 5);
    let position = result.unwrap();
    assert_eq!(position.debt_value, 0);
    let collateral = position.collateral_value;
    market._update_lowest_sell_offer_tick(1020);
    let (shown, status, pnl) = market.get_account_position_details(user(1), 0, 6).unwrap();
    assert_eq!(shown.collateral_value, collateral);
    assert_eq!(status, PositionStatus::FILLED);
    let now = collateral + collateral * 200 / 10_000;
    assert_eq!(pnl, ((now - collateral) * 10_000 / collateral) as i64);
    market._update_lowest_sell_offer_tick(500);
    let (_, _, pnl) = market.get_account_position_details(user(1), 0, 6).unwrap();
    let lost = collateral * 5_000 / 10_000;
    assert_eq!(pnl, -((lost * 10_000 / collateral) as i64));
    assert_eq!(pnl, -4_949);
}

#[test]
fn notification_that_fails_blocks_the_account_until_it_is_cleared() {
    let mut market = running_market();
    let vault = Vault::init(market._get_market_details().vault_id);
    assert_eq!(vault.canister_id, Principal::from_slice(&[9, 9, 9]));
    assert_eq!(vault.create_position_validity_check(None), (false, 0));
    assert_eq!(vault.create_position_validity_check(Some((true, 9))), (true, 9));
    let update = vault.position_update(user(1), 4, 55, ManageDebtParams::init(1, 2, 3));
    let account = user(1)._to_subaccount(4);
    vault.manage_position_update(&mut market, update, true);
    assert!(market.retry_account_error(&account).is_none());
    vault.manage_position_update(&mut market, update, false);
    let log = market.retry_account_error(&account).unwrap();
    assert_eq!(log.user, user(1));
    assert_eq!(log.profit, 55);
    assert_eq!(log.debt_params, ManageDebtParams::init(1, 2, 3));
    assert!(market._has_position_or_pending_error_log(&account));
    let (result, _) = market.open_limit_position(user(1), 4, true, 100, 20, 1000, (true, 5), 1);
    assert_eq!(result.unwrap_err(), OpenPositionError::PendingErrorOrPosition);
    assert!(market._get_tick_details(1000).is_none());
    market.success_notif(account);
    assert!(market.retry_account_error(&account).is_none());
    assert!(market.open_limit_position(user(1), 4, true, 100, 20, 1000, (true, 5), 1).0.is_ok());
}

#[test]
fn register_keeps_accounts_in_the_order_they_came() {
    let mut market = running_market();
    let (a, b, c) = ([1u8; 32], [2u8; 32], [3u8; 32]);
    store_tick_order(&mut market.limit_orders_record, 10, a);
    store_tick_order(&mut market.limit_orders_record, 10, b);
    store_tick_order(&mut market.limit_orders_record, 20, c);
    store_tick_order(&mut market.limit_orders_record, 10, a);
    assert!(is_tick_order_stored(&market.limit_orders_record, 10, &a));
    assert!(!is_tick_order_stored(&market.limit_orders_record, 20, &a));
    assert!(!is_tick_order_stored(&market.limit_orders_record, 30, &a));
    remove_tick_order(&mut market.limit_orders_record, 10, a);
    assert_eq!(market.limit_orders_record.get(&10).unwrap(), &vec![b, a]);
    assert!(!market._schedule_execution_for_ticks_orders(Vec::new()));
    assert!(!market._get_pending_timer());
    assert!(market._schedule_execution_for_ticks_orders(vec![20, 10, 30, 10]));
    assert_eq!(market.executable_limit_orders_accounts, vec![c, b, a]);
    assert!(market.limit_orders_record.get(&10).unwrap().is_empty());
    assert!(market._get_pending_timer());
    // the task runs already
    store_tick_order(&mut market.limit_orders_record, 20, b);
    assert!(!market._schedule_execution_for_ticks_orders(vec![20]));
    assert_eq!(market.executable_limit_orders_accounts, vec![c, b, a, b]);
}

#[test]
fn best_offers_are_given_on_the_callers_grid() {
    let mut market = Market::init(MemoryPool::new(), details(100));
    market._set_state_details(StateDetails {
        not_paused: true,
        max_leveragex10: 100,
        min_collateral: 10,
    });
    let position =
        market.open_limit_position(user(1), 0, true, 100, 10, 120_050, (true, 7), 1).0.unwrap();
    assert_eq!(position.entry_tick, 1200);
    assert!(is_tick_order_stored(&market.limit_orders_record, 1200, &user(1)._to_subaccount(0)));
    market.open_limit_position(user(2), 0, false, 100, 10, 130_099, (true, 7), 1).0.unwrap();
    assert_eq!(market.get_best_offers(), (120_000, 130_000));
    assert_eq!(market._get_next_best_offer_tick(true, 0, 5000), Some(1300));
    assert_eq!(market._get_next_best_offer_tick(false, 5000, 0), Some(1200));
}

#[test]
fn funding_is_settled_against_the_oracle() {
    let mut market = running_market();
    market.funding_rate_tracker.add_volume(1_000_000, true);
    market.funding_rate_tracker.add_volume(400_000, false);
    market._settle_funding_rate(1_010, 1_000);
    assert_eq!(market.funding_rate_tracker.net_volume_long, 990_000);
    assert_eq!(market.funding_rate_tracker.net_volume_short, 410_000);
    assert_eq!(market.funding_rate_tracker.total_long_shares, 1_000_000);
    assert_eq!(market.funding_rate_tracker.total_short_shares, 400_000);
    market._settle_funding_rate(1_000, 1_000);
    assert_eq!(market.funding_rate_tracker.net_volume_long, 990_000);

    let xrc = XRC::init(market._get_market_details().xrc_id);
    let request = xrc.exchange_rate_request(market._get_market_details());
    assert_eq!(request.base_asset.symbol, "ICP");
    assert_eq!(request.quote_asset.class, AssetClass::FiatCurrency);
    assert!(request.timestamp.is_none());

    // the perpetual's price at the lowest sell against a spot of one
    market._update_lowest_sell_offer_tick(100);
    let perp = _tick_to_price(100) * 1_000_000 / 1_000_000_000;
    let premium = (perp - 1_000_000) * 10_000 / 1_000_000;
    let rate = ExchangeRate {
        base_asset: request.base_asset.clone(),
        quote_asset: request.quote_asset.clone(),
        timestamp: 0,
        rate: 1_000_000,
        metadata: ExchangeRateMetadata {
            decimals: 6,
            base_asset_num_queried_sources: 1,
            base_asset_num_received_rates: 1,
            quote_asset_num_queried_sources: 1,
            quote_asset_num_received_rates: 1,
            standard_deviation: 0,
            forex_timestamp: None,
        },
    };
    market.settle_funding_rate(Ok(rate));
    let due = 990_000 * premium / 10_000;
    assert!(due > 0);
    assert_eq!(market.funding_rate_tracker.net_volume_long, 990_000 - due);
    assert_eq!(market.funding_rate_tracker.net_volume_short, 410_000 + due);
    market.settle_funding_rate(Err(ExchangeRateError::RateLimited));
    assert_eq!(market.funding_rate_tracker.net_volume_long, 990_000 - due);
}

#[test]
fn what_the_pool_holds_outlives_the_market() {
    let mut market = running_market();
    market.open_limit_position(user(1), 0, true, 1_000, 20, 1000, (true, 7), 10).0.unwrap();
    market.open_limit_position(user(2), 0, false, 1_000, 20, 1500, (true, 7), 11).0.unwrap();
    let vault = Vault::init(user(9));
    let update = vault.position_update(user(3), 0, 5, ManageDebtParams::init(1, 1, 1));
    vault.manage_position_update(&mut market, update, false);
    let state = market._get_state_details();
    let tracker = market.funding_rate_tracker;
    let (pool, record, queue, highest, lowest) = market.pre_upgrade();
    assert_eq!((highest, lowest), (1000, 1500));
    let market =
        Market::post_upgrade(pool, details(1), state, tracker, record, queue, highest, lowest);
    assert_eq!(market.get_best_offers(), (1000, 1500));
    assert_eq!(market._get_tick_details(1000).unwrap().liq_bounds.upper_bound, 2_000);
    assert_eq!(market._get_tick_details(1500).unwrap().tick_state, TickState::SELL);
    let position = market._get_account_position(&user(2)._to_subaccount(0)).unwrap();
    assert_eq!(position.owner, user(2));
    assert_eq!(position.entry_tick, 1500);
    assert!(!position.long);
    match position.order_type {
        PositionOrderType::Limit(order) => {
            assert!(!order.buy);
            assert_eq!(order.ref_tick, 1500);
            assert_eq!(order.init_tick_timestamp, 11);
        },
        PositionOrderType::Market => panic!("a limit position holds its order"),
    }
    assert_eq!(market.retry_account_error(&user(3)._to_subaccount(0)).unwrap().profit, 5);
    assert!(is_tick_order_stored(&market.limit_orders_record, 1000, &user(1)._to_subaccount(0)));
    assert_eq!(market._get_next_best_offer_tick(true, 0, 3000), Some(1500));
}
