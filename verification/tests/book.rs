use perp_market::corelib::bitmap_lib::{_flip_bit, _is_bit_set, _next_set_bit};
use perp_market::corelib::order_lib::{CloseOrderParams, LimitOrder, OpenOrderParams};
use perp_market::corelib::price_lib::{_equivalent, _tick_to_price};
use perp_market::corelib::swap_lib::{SwapParams, _get_best_offer};
use perp_market::corelib::tick_lib::{_compressed_tick, _def_max_tick, _int_and_dec};
use perp_market::store::{BitmapStore, MemoryPool, TickStore};
use perp_market::types::TickState;

fn open(
    bitmaps: &mut BitmapStore,
    ticks: &mut TickStore,
    size: u128,
    tick: u64,
    buy: bool,
    now: u64,
) -> LimitOrder {
    let mut order = LimitOrder::new(size, tick, buy);
    let mut params = OpenOrderParams { integrals_bitmaps: bitmaps, ticks_details: ticks, order: &mut order };
    params.open_order(now);
    order
}

fn close(bitmaps: &mut BitmapStore, ticks: &mut TickStore, order: &LimitOrder) -> (u128, u128) {
    let mut params = CloseOrderParams { order, integrals_bitmaps: bitmaps, ticks_details: ticks };
    assert!(params.can_close());
    params.close_order()
}

fn marked(bitmaps: &BitmapStore, tick: u64) -> bool {
    let (integral, bit) = _int_and_dec(tick);
    match bitmaps.get(integral) {
        Some(word) => _is_bit_set(word, bit),
        None => false,
    }
}

#[test]
fn test_place_order() {
    let (mut bitmaps, mut ticks) = MemoryPool::new().new_book();
    let order1 = open(&mut bitmaps, &mut ticks, 10_000_000, 1000, true, 5);
    let details = ticks.get(1000).unwrap();
    assert_eq!(order1.init_lower_bound, 0);
    assert_eq!(order1.init_tick_timestamp, 5);
    assert_eq!(details.liq_bounds.lifetime_removed_liquidity, 0);
    assert_eq!(details.liq_bounds.upper_bound, 10_000_000);
    assert_eq!(details.liq_bounds.lower_bound, 0);
    assert_eq!(details.tick_state, TickState::BUY);
    assert_eq!(details.created_timestamp, 5);
    assert!(marked(&bitmaps, 1000));
    assert!(!marked(&bitmaps, 1001));

    let order2 = open(&mut bitmaps, &mut ticks, 1_000_000, 1000, true, 9);
    let details = ticks.get(1000).unwrap();
    assert_eq!(order2.init_lower_bound, 10_000_000);
    assert_eq!(order2.init_tick_timestamp, 5);
    assert_eq!(details.liq_bounds.upper_bound, 11_000_000);
    assert_eq!(details.created_timestamp, 5);
}

#[test]
fn test_open_and_close_order() {
    let (mut bitmaps, mut ticks) = MemoryPool::new().new_book();
    let order1 = open(&mut bitmaps, &mut ticks, 10_000_000, 1000, true, 5);
    let (amount_out, amount_remaining) = close(&mut bitmaps, &mut ticks, &order1);
    assert_eq!(amount_out, 0);
    assert_eq!(amount_remaining, 10_000_000);
    assert!(ticks.get(1000).is_none());
    assert!(!marked(&bitmaps, 1000));
}

#[test]
fn test_open_close_different_orders() {
    let (mut bitmaps, mut ticks) = MemoryPool::new().new_book();
    let order1 = open(&mut bitmaps, &mut ticks, 10_000_000, 1000, true, 5);
    let order2 = open(&mut bitmaps, &mut ticks, 1_000_000, 1000, true, 6);
    assert_eq!(close(&mut bitmaps, &mut ticks, &order1), (0, 10_000_000));
    let details = ticks.get(1000).unwrap();
    assert_eq!(details.liq_bounds.lifetime_removed_liquidity, 10_000_000);
    assert_eq!(details.liq_bounds.lower_bound, 10_000_000);
    assert_eq!(details.liq_bounds.upper_bound, 11_000_000);
    assert!(marked(&bitmaps, 1000));
    assert_eq!(close(&mut bitmaps, &mut ticks, &order2), (0, 1_000_000));
    assert!(ticks.get(1000).is_none());
    assert!(!marked(&bitmaps, 1000));
}

#[test]
fn market_sell_consumes_the_first_order_of_a_tick() {
    let (mut bitmaps, mut ticks) = MemoryPool::new().new_book();
    let order1 = open(&mut bitmaps, &mut ticks, 10_000_000, 1000, true, 5);
    let order2 = open(&mut bitmaps, &mut ticks, 1_000_000, 1000, true, 6);
    // Selling base for the quote that rests at the tick: size the order so
    // that it converts into exactly the first order's quote.
    let base = _equivalent(10_000_000, 1000, true) + 1;
    assert_eq!(_equivalent(base, 1000, false), 10_000_000);
    let mut swap = SwapParams {
        buy: false,
        init_tick: 1000,
        stopping_tick: 1000,
        order_size: base,
        integrals_bitmaps: &mut bitmaps,
        ticks_details: &mut ticks,
    };
    let (amount_out, amount_remaining, resulting_tick, crossed) = swap._swap();
    assert_eq!(amount_out, 10_000_000);
    assert_eq!(amount_remaining, 0);
    assert_eq!(resulting_tick, 1000);
    assert_eq!(crossed, Vec::<u64>::new());
    let details = ticks.get(1000).unwrap();
    assert_eq!(details.liq_bounds.lower_bound, 10_000_000);
    assert_eq!(details.liq_bounds.lifetime_removed_liquidity, 0);
    // The first order was filled whole, the second not at all.
    assert_eq!(close(&mut bitmaps, &mut ticks, &order1), (_equivalent(10_000_000, 1000, true), 0));
    assert_eq!(close(&mut bitmaps, &mut ticks, &order2), (0, 1_000_000));
    assert!(ticks.get(1000).is_none());
}

#[test]
fn market_sell_crosses_a_tick_with_one_order() {
    let (mut bitmaps, mut ticks) = MemoryPool::new().new_book();
    let order1 = open(&mut bitmaps, &mut ticks, 10_000_000, 1000, true, 5);
    let base = _equivalent(10_000_000, 1000, true) + 1;
    let mut swap = SwapParams {
        buy: false,
        init_tick: 1000,
        stopping_tick: 900,
        order_size: base,
        integrals_bitmaps: &mut bitmaps,
        ticks_details: &mut ticks,
    };
    let (amount_out, amount_remaining, resulting_tick, crossed) = swap._swap();
    assert_eq!(amount_out, 10_000_000);
    assert_eq!(resulting_tick, 1000);
    assert_eq!(crossed, vec![1000]);
    assert_eq!(amount_remaining, base - _equivalent(10_000_000, 1000, true));
    assert!(ticks.get(1000).is_none());
    assert!(!marked(&bitmaps, 1000));
    // The record is gone: the order counts as filled whole.
    assert_eq!(close(&mut bitmaps, &mut ticks, &order1), (_equivalent(10_000_000, 1000, true), 0));
}

#[test]
fn swap_on_an_empty_book_takes_nothing() {
    let (mut bitmaps, mut ticks) = MemoryPool::new().new_book();
    let mut swap = SwapParams {
        buy: true,
        init_tick: 700,
        stopping_tick: 1700,
        order_size: 5_000,
        integrals_bitmaps: &mut bitmaps,
        ticks_details: &mut ticks,
    };
    assert_eq!(swap._swap(), (0, 5_000, 700, Vec::<u64>::new()));
}

#[test]
fn swap_walks_ticks_in_price_order_and_includes_both_ends() {
    let (mut bitmaps, mut ticks) = MemoryPool::new().new_book();
    open(&mut bitmaps, &mut ticks, 100, 1300, false, 1);
    open(&mut bitmaps, &mut ticks, 100, 1100, false, 2);
    open(&mut bitmaps, &mut ticks, 100, 1500, false, 3);
    open(&mut bitmaps, &mut ticks, 100, 1501, false, 4);
    // A resting buy inside the range is no offer to a buyer.
    open(&mut bitmaps, &mut ticks, 100, 1200, true, 5);
    let cost_1100 = _equivalent(100, 1100, false);
    let cost_1300 = _equivalent(100, 1300, false);
    let cost_1500 = _equivalent(100, 1500, false);
    let mut swap = SwapParams {
        buy: true,
        init_tick: 1100,
        stopping_tick: 1500,
        order_size: 1_000,
        integrals_bitmaps: &mut bitmaps,
        ticks_details: &mut ticks,
    };
    let (amount_out, amount_remaining, resulting_tick, crossed) = swap._swap();
    assert_eq!(amount_out, 300);
    assert_eq!(amount_remaining, 1_000 - cost_1100 - cost_1300 - cost_1500);
    assert_eq!(resulting_tick, 1500);
    assert_eq!(crossed, vec![1100, 1300, 1500]);
    assert!(ticks.get(1501).is_some());
    assert!(ticks.get(1200).is_some());
    assert_eq!(_get_best_offer(true, 0, 2000, &bitmaps, &ticks), Some(1501));
    assert_eq!(_get_best_offer(false, 2000, 0, &bitmaps, &ticks), Some(1200));
    assert_eq!(_get_best_offer(true, 0, 1500, &bitmaps, &ticks), None);
    assert_eq!(_get_best_offer(true, 1502, 5000, &bitmaps, &ticks), None);
}

#[test]
fn part_fill_is_seen_by_the_order_that_was_first() {
    let (mut bitmaps, mut ticks) = MemoryPool::new().new_book();
    let first = open(&mut bitmaps, &mut ticks, 1_000, 50, false, 1);
    let second = open(&mut bitmaps, &mut ticks, 1_000, 50, false, 1);
    let mut swap = SwapParams {
        buy: true,
        init_tick: 50,
        stopping_tick: 50,
        order_size: _equivalent(400, 50, false) + 1,
        integrals_bitmaps: &mut bitmaps,
        ticks_details: &mut ticks,
    };
    let (amount_out, amount_remaining, _, crossed) = swap._swap();
    assert_eq!((amount_out, amount_remaining), (400, 0));
    assert!(crossed.is_empty());
    assert_eq!(close(&mut bitmaps, &mut ticks, &second), (0, 1_000));
    assert_eq!(close(&mut bitmaps, &mut ticks, &first), (_equivalent(400, 50, false), 600));
    assert!(ticks.get(50).is_none());
}

#[test]
fn order_on_a_recreated_tick_counts_as_filled() {
    let (mut bitmaps, mut ticks) = MemoryPool::new().new_book();
    let old = open(&mut bitmaps, &mut ticks, 777, 64, true, 10);
    let mut swap = SwapParams {
        buy: false,
        init_tick: 64,
        stopping_tick: 64,
        order_size: 10_000,
        integrals_bitmaps: &mut bitmaps,
        ticks_details: &mut ticks,
    };
    let (_, _, _, crossed) = swap._swap();
    assert_eq!(crossed, vec![64]);
    let newer = open(&mut bitmaps, &mut ticks, 5, 64, true, 11);
    assert_eq!(newer.init_tick_timestamp, 11);
    assert_eq!(close(&mut bitmaps, &mut ticks, &old), (_equivalent(777, 64, true), 0));
    assert_eq!(ticks.get(64).unwrap().liq_bounds.upper_bound, 5);
}

#[test]
fn bitmap_flip_and_scan() {
    assert_eq!(_flip_bit(0, 0), 1);
    assert_eq!(_flip_bit(1, 0), 0);
    assert_eq!(_flip_bit(0, 127), 1u128 << 127);
    assert_eq!(_flip_bit(0b1010, 1), 0b1000);
    let word = (1u128 << 3) | (1u128 << 90);
    assert_eq!(_next_set_bit(word, 0, true), Some(3));
    assert_eq!(_next_set_bit(word, 3, true), Some(3));
    assert_eq!(_next_set_bit(word, 4, true), Some(90));
    assert_eq!(_next_set_bit(word, 91, true), None);
    assert_eq!(_next_set_bit(word, 127, false), Some(90));
    assert_eq!(_next_set_bit(word, 89, false), Some(3));
    assert_eq!(_next_set_bit(word, 2, false), None);
    assert_eq!(_next_set_bit(0, 0, true), None);
}

#[test]
fn tick_arithmetic() {
    assert_eq!(_int_and_dec(0), (0, 0));
    assert_eq!(_int_and_dec(1000), (7, 104));
    assert_eq!(_int_and_dec(u64::MAX), (u64::MAX / 128, 127));
    assert_eq!(_compressed_tick(1000, 1), 1000);
    assert_eq!(_compressed_tick(1099, 100), 10);
    assert_eq!(_def_max_tick(5000, true), 6024);
    assert_eq!(_def_max_tick(5000, false), 3976);
    assert_eq!(_def_max_tick(10, false), 0);
    assert_eq!(_def_max_tick(u64::MAX - 3, true), u64::MAX);
}

#[test]
fn prices_grow_by_a_basis_point_a_tick() {
    assert_eq!(_tick_to_price(0), 1_000_000_000);
    assert_eq!(_tick_to_price(1), 1_000_100_000);
    assert_eq!(_tick_to_price(2), 1_000_200_010);
    assert_eq!(_tick_to_price(3), 1_000_300_030);
    assert_eq!(_tick_to_price(10_000_000), 1_000_000_000_000_000_000);
    assert_eq!(_equivalent(1_000_000, 0, true), 1_000_000);
    assert_eq!(_equivalent(1_000_000, 0, false), 1_000_000);
    assert_eq!(_equivalent(1_000_000, 2, false), 1_000_200);
    assert_eq!(_equivalent(1_000_200, 2, true), 999_999);
    assert_eq!(_equivalent(0, 77, true), 0);
}

#[test]
fn swap_stops_where_the_rest_buys_nothing() {
    let (mut bitmaps, mut ticks) = MemoryPool::new().new_book();
    open(&mut bitmaps, &mut ticks, 1_000, 3000, false, 1);
    open(&mut bitmaps, &mut ticks, 1_000, 3500, false, 2);
    let cost = _equivalent(1_000, 3000, false);
    assert_eq!(_equivalent(1, 3500, true), 0);
    let mut swap = SwapParams {
        buy: true,
        init_tick: 3000,
        stopping_tick: 4000,
        order_size: cost + 1,
        integrals_bitmaps: &mut bitmaps,
        ticks_details: &mut ticks,
    };
    // the one unit left is kept, and the second tick is not touched
    assert_eq!(swap._swap(), (1_000, 1, 3000, vec![3000]));
    assert_eq!(ticks.get(3500).unwrap().liq_bounds.lower_bound, 0);
    let mut swap = SwapParams {
        buy: true,
        init_tick: 3000,
        stopping_tick: 4000,
        order_size: 0,
        integrals_bitmaps: &mut bitmaps,
        ticks_details: &mut ticks,
    };
    assert_eq!(swap._swap(), (0, 0, 3000, Vec::<u64>::new()));
    // a range that runs the wrong way holds no tick
    let mut swap = SwapParams {
        buy: true,
        init_tick: 4000,
        stopping_tick: 3000,
        order_size: 5_000,
        integrals_bitmaps: &mut bitmaps,
        ticks_details: &mut ticks,
    };
    assert_eq!(swap._swap(), (0, 5_000, 4000, Vec::<u64>::new()));
}

#[test]
fn swap_accounts_for_the_whole_order() {
    let (mut bitmaps, mut ticks) = MemoryPool::new().new_book();
    open(&mut bitmaps, &mut ticks, 777, 100, true, 1);
    open(&mut bitmaps, &mut ticks, 555, 90, true, 1);
    open(&mut bitmaps, &mut ticks, 333, 80, true, 1);
    let size = 2_000;
    let mut swap = SwapParams {
        buy: false,
        init_tick: 100,
        stopping_tick: 85,
        order_size: size,
        integrals_bitmaps: &mut bitmaps,
        ticks_details: &mut ticks,
    };
    let (out, remaining, tick, crossed) = swap._swap();
    assert_eq!(out, 777 + 555);
    assert_eq!((tick, crossed), (90, vec![100, 90]));
    let spent = _equivalent(777, 100, true) + _equivalent(555, 90, true);
    assert_eq!(spent + remaining, size);
    assert!(ticks.get(80).is_some());
}
