use candid::Principal;
use perp_market::corelib::constants::ONE_YEAR;
use perp_market::corelib::order_lib::LimitOrder;
use perp_market::position::{
    _calculate_position_unrealised_pnl_and_net_debt_value, _liquidation_status,
    ManageDebtParams, PositionOrderType, PositionParameters,
};

fn market_position(long: bool, entry_tick: u64, collateral: u128, debt: u128) -> PositionParameters {
    PositionParameters {
        owner: Principal::from_slice(&[7, 7]),
        entry_tick,
        long,
        collateral_value: collateral,
        debt_value: debt,
        volume_share: 0,
        interest_rate: 0,
        order_type: PositionOrderType::Market,
        timestamp: 0,
    }
}

#[test]
fn long_in_profit_without_debt_is_not_liquidated() {
    let position = market_position(true, 1000, 100, 0);
    let (pnl, net_debt) =
        _calculate_position_unrealised_pnl_and_net_debt_value(position, 1020, 0);
    // (1020 - 1000) * 100 / 1000 percent, in basis points
    assert_eq!(pnl, 200);
    assert_eq!(net_debt, 0);
    assert_eq!(_liquidation_status(position, 20, 1020, 0), (false, 102, 0));
}

#[test]
fn pnl_takes_the_side_of_the_position() {
    let long = market_position(true, 1000, 100, 0);
    let short = market_position(false, 1000, 100, 0);
    assert_eq!(_calculate_position_unrealised_pnl_and_net_debt_value(long, 950, 0).0, -500);
    assert_eq!(_calculate_position_unrealised_pnl_and_net_debt_value(short, 950, 0).0, 500);
    assert_eq!(_calculate_position_unrealised_pnl_and_net_debt_value(short, 1020, 0).0, -200);
    assert_eq!(_calculate_position_unrealised_pnl_and_net_debt_value(long, 1000, 0).0, 0);
    // rounded towards zero
    assert_eq!(_calculate_position_unrealised_pnl_and_net_debt_value(long, 3001, 0).0, 20_010);
    let odd = market_position(true, 3, 100, 0);
    assert_eq!(_calculate_position_unrealised_pnl_and_net_debt_value(odd, 4, 0).0, 3_333);
    assert_eq!(_calculate_position_unrealised_pnl_and_net_debt_value(odd, 2, 0).0, -3_333);
}

#[test]
fn net_debt_carries_the_interest() {
    let mut position = market_position(true, 1000, 100, 1_000_000);
    position.interest_rate = 500;
    position.timestamp = 11;
    assert_eq!(
        _calculate_position_unrealised_pnl_and_net_debt_value(position, 1000, 11 + ONE_YEAR),
        (0, 1_050_000)
    );
}

#[test]
fn leverage_at_the_maximum_liquidates() {
    let position = market_position(true, 1000, 100, 900);
    // loss of five percent of a thousand: collateral of fifty, leverage 19
    assert_eq!(_liquidation_status(position, 100, 950, 0), (true, 50, 900));
    assert_eq!(_liquidation_status(position, 190, 950, 0), (true, 50, 900));
    assert_eq!(_liquidation_status(position, 191, 950, 0), (false, 50, 900));
    // at the entry tick the leverage is ten
    assert_eq!(_liquidation_status(position, 100, 1000, 0), (true, 100, 900));
    assert_eq!(_liquidation_status(position, 101, 1000, 0), (false, 100, 900));
}

#[test]
fn collateral_that_is_gone_liquidates() {
    let position = market_position(true, 1000, 100, 900);
    assert_eq!(_liquidation_status(position, 255, 800, 0), (true, -100, 900));
    let short = market_position(false, 1000, 100, 900);
    assert_eq!(_liquidation_status(short, 255, 1200, 0), (true, -100, 900));
    assert_eq!(_liquidation_status(short, 255, 800, 0), (false, 300, 900));
}

#[test]
fn limit_position_is_never_liquidated() {
    let mut position = market_position(true, 1000, 100, 900);
    position.order_type = PositionOrderType::Limit(LimitOrder::new(1000, 1000, true));
    assert_eq!(_liquidation_status(position, 0, 1, 0), (false, 100, 0));
}

#[test]
fn debt_params_keep_what_they_are_given() {
    let params = ManageDebtParams::init(1, 2, 3);
    assert_eq!(params.initial_debt, 1);
    assert_eq!(params.net_debt, 2);
    assert_eq!(params.amount_repaid, 3);
    assert_eq!(ManageDebtParams::default(), ManageDebtParams::init(0, 0, 0));
}
