use perp_market::corelib::calc_lib::{
    _calc_interest, _calc_shares, _calc_shares_value, _percentage, _power_of_ten,
};
use perp_market::corelib::constants::ONE_YEAR;
use perp_market::position::_calculate_funding_rate_premium;
use perp_market::types::FundingRateTracker;

#[test]
fn shares_are_one_to_one_on_an_empty_side() {
    let mut tracker = FundingRateTracker::default();
    assert_eq!(tracker.add_volume(1_000, true), 1_000);
    assert_eq!(tracker.net_volume_long, 1_000);
    assert_eq!(tracker.total_long_shares, 1_000);
    assert_eq!(tracker.net_volume_short, 0);
    assert_eq!(tracker.total_short_shares, 0);
    assert_eq!(tracker.add_volume(70, false), 70);
    assert_eq!(tracker.net_volume_short, 70);
    assert_eq!(tracker.total_short_shares, 70);
}

#[test]
fn shares_are_minted_pro_rata() {
    let mut tracker = FundingRateTracker {
        net_volume_long: 3_000,
        total_long_shares: 1_000,
        net_volume_short: 0,
        total_short_shares: 0,
    };
    // 600 * 1000 / 3000
    assert_eq!(tracker.add_volume(600, true), 200);
    assert_eq!(tracker.net_volume_long, 3_600);
    assert_eq!(tracker.total_long_shares, 1_200);
    // 100 * 1200 / 3600, rounded down
    assert_eq!(tracker.add_volume(100, true), 33);
}

#[test]
fn volume_that_joins_and_leaves_takes_out_what_it_brought() {
    let mut tracker = FundingRateTracker {
        net_volume_long: 0,
        total_long_shares: 0,
        net_volume_short: 5_000,
        total_short_shares: 2_500,
    };
    let before = tracker;
    let shares = tracker.add_volume(800, false);
    assert_eq!(shares, 400);
    assert_eq!(tracker.remove_volume(shares, false), 800);
    assert_eq!(tracker.net_volume_short, before.net_volume_short);
    assert_eq!(tracker.total_short_shares, before.total_short_shares);

    let shares = tracker.add_volume(42, true);
    assert_eq!(tracker.remove_volume(shares, true), 42);
    assert_eq!(tracker.net_volume_long, 0);
    assert_eq!(tracker.total_long_shares, 0);
}

#[test]
fn rounding_of_shares_never_gains() {
    let mut tracker = FundingRateTracker {
        net_volume_long: 3,
        total_long_shares: 10,
        net_volume_short: 0,
        total_short_shares: 0,
    };
    let shares = tracker.add_volume(1, true);
    assert_eq!(shares, 3);
    // 3 * 4 / 13
    assert_eq!(tracker.remove_volume(shares, true), 0);
}

#[test]
fn removing_shares_gives_their_part_of_the_volume() {
    let mut tracker = FundingRateTracker {
        net_volume_long: 900,
        total_long_shares: 300,
        net_volume_short: 0,
        total_short_shares: 0,
    };
    assert_eq!(tracker.remove_volume(100, true), 300);
    assert_eq!(tracker.net_volume_long, 600);
    assert_eq!(tracker.total_long_shares, 200);
    let mut empty = FundingRateTracker::default();
    assert_eq!(empty.remove_volume(0, false), 0);
}

#[test]
fn longs_pay_one_percent_when_the_rate_is_a_hundred_basis_points() {
    let mut tracker = FundingRateTracker {
        net_volume_long: 1_000_000,
        total_long_shares: 777,
        net_volume_short: 500_000,
        total_short_shares: 333,
    };
    assert!(tracker.can_settle(100, true));
    tracker.settle_funding_rate(100, true);
    assert_eq!(tracker.net_volume_long, 990_000);
    assert_eq!(tracker.net_volume_short, 510_000);
    assert_eq!(tracker.total_long_shares, 777);
    assert_eq!(tracker.total_short_shares, 333);
}

#[test]
fn shorts_pay_when_the_rate_is_negative() {
    let mut tracker = FundingRateTracker {
        net_volume_long: 1_000_000,
        total_long_shares: 777,
        net_volume_short: 500_000,
        total_short_shares: 333,
    };
    tracker.settle_funding_rate(250, false);
    assert_eq!(tracker.net_volume_long, 1_012_500);
    assert_eq!(tracker.net_volume_short, 487_500);
    assert_eq!(tracker.total_long_shares, 777);
    assert_eq!(tracker.total_short_shares, 333);
}

#[test]
fn settling_more_than_a_side_holds_is_not_accepted() {
    let tracker = FundingRateTracker {
        net_volume_long: 100,
        total_long_shares: 1,
        net_volume_short: u128::MAX - 5,
        total_short_shares: 1,
    };
    // the shorts have no room for a hundred more
    assert!(!tracker.can_settle(10_000, true));
    assert!(tracker.can_settle(500, true));
    assert!(!tracker.can_settle(600, true));
    // the shorts can pay the longs
    assert!(tracker.can_settle(1, false));
    let small = FundingRateTracker {
        net_volume_long: 100,
        total_long_shares: 1,
        net_volume_short: 100,
        total_short_shares: 1,
    };
    // twice what the longs hold
    assert!(!small.can_settle(20_000, true));
    assert!(small.can_settle(10_000, true));
}

#[test]
fn funding_rate_premium_is_in_basis_points_of_the_spot_price() {
    assert_eq!(_calculate_funding_rate_premium(1_010, 1_000), 100);
    assert_eq!(_calculate_funding_rate_premium(990, 1_000), -100);
    assert_eq!(_calculate_funding_rate_premium(1_000, 1_000), 0);
    assert_eq!(_calculate_funding_rate_premium(3_001, 3_000), 3);
    assert_eq!(_calculate_funding_rate_premium(2_999, 3_000), -3);
    assert_eq!(_calculate_funding_rate_premium(6_000, 3_000), 10_000);
}

#[test]
fn calculations_round_down() {
    assert_eq!(_percentage(100, 1_000_000), 10_000);
    assert_eq!(_percentage(1, 9_999), 0);
    assert_eq!(_percentage(10_000, 123), 123);
    assert_eq!(_percentage(0, 123), 0);
    assert_eq!(_calc_shares(50, 0, 0), 50);
    assert_eq!(_calc_shares(50, 10, 0), 50);
    assert_eq!(_calc_shares(50, 0, 10), 50);
    assert_eq!(_calc_shares(50, 10, 20), 25);
    assert_eq!(_calc_shares(7, 1, 2), 3);
    assert_eq!(_calc_shares_value(25, 35, 70), 50);
    assert_eq!(_calc_shares_value(1, 3, 2), 0);
    assert_eq!(_calc_shares_value(0, 0, 2), 0);
    assert_eq!(_power_of_ten(0), 1);
    assert_eq!(_power_of_ten(9), 1_000_000_000);
    assert_eq!(_power_of_ten(38), 100_000_000_000_000_000_000_000_000_000_000_000_000);
}

#[test]
fn interest_accrues_by_the_year() {
    // five percent a year on a million, over a year, half a year, no time
    assert_eq!(_calc_interest(1_000_000, 500, 0, ONE_YEAR), 50_000);
    assert_eq!(_calc_interest(1_000_000, 500, 7, 7 + ONE_YEAR / 2), 25_000);
    assert_eq!(_calc_interest(1_000_000, 500, 9, 9), 0);
    assert_eq!(_calc_interest(0, 500, 0, ONE_YEAR), 0);
    assert_eq!(_calc_interest(1_000_000, 0, 0, ONE_YEAR), 0);
    // one basis point a year on ten thousand over a year, less a nanosecond
    assert_eq!(_calc_interest(10_000, 1, 0, ONE_YEAR), 1);
    assert_eq!(_calc_interest(10_000, 1, 0, ONE_YEAR - 1), 0);
}
