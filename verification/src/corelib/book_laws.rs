//! What holds of the order book whatever is done to it.

use vstd::prelude::*;
use crate::corelib::bitmap_lib::lemma_empty_word;
use crate::corelib::constants::_MAX_PRICE_RATIO;
use crate::corelib::order_lib::{
    flip_mark, lemma_flip_mark, lemma_retire, retired_floor, tick_is_marked, Book,
    LimitOrder,
};
use crate::corelib::price_lib::{
    equivalent, lemma_equivalent_monotone, lemma_equivalent_round_trip, lemma_equivalent_split,
    lemma_equivalent_zero,
};
use crate::corelib::swap_lib::{lemma_best_offer, lemma_take_keeps_wf, ticks_left, SwapOutcome};
use crate::types::{Amount, LiquidityBoundary, Tick, TickDetails, Time};

verus! {

/// The empty book is in order.
pub proof fn lemma_empty_book_wf()
    ensures
        Book::empty().wf(),
{
    assert forall|tick: Tick| !tick_is_marked(Book::empty().bitmaps, tick) by {
        lemma_empty_word(tick % 128);
    }
}

/// Placing an order keeps the book in order: every record goes on holding
/// liquidity between ordered bounds, the bitmap keeps marking exactly the
/// ticks that have a record, and the order's tick has one.
pub proof fn lemma_open_keeps_wf(book: Book, order: LimitOrder, now: Time)
    requires
        book.wf(),
        book.open_fits(order, now),
    ensures
        book.open_order(order, now).0.wf(),
        book.open_order(order, now).0.ticks.contains_key(order.ref_tick),
{
    let after = book.open_order(order, now).0;
    let tick = order.ref_tick;
    lemma_flip_mark(book.bitmaps, tick);
    assert forall|other: Tick| #[trigger]
        after.ticks.contains_key(other) <==> tick_is_marked(after.bitmaps, other) by {
        assert(book.ticks.contains_key(other) <==> tick_is_marked(book.bitmaps, other));
    }
    assert forall|other: Tick| #[trigger] after.ticks.contains_key(other) implies after.ticks[other]
        .liq_bounds.wf() && after.ticks[other].liq_bounds.liquidity_within() > 0 by {
        if other != tick {
            assert(book.ticks.contains_key(other));
        } else if book.ticks.contains_key(tick) {
            assert(book.ticks[tick].liq_bounds.wf());
        }
    }
}

/// Closing an order keeps the book in order.
pub proof fn lemma_close_keeps_wf(book: Book, order: LimitOrder)
    requires
        book.wf(),
        book.close_fits(order),
    ensures
        book.close_order(order).0.wf(),
{
    let after = book.close_order(order).0;
    let tick = order.ref_tick;
    lemma_flip_mark(book.bitmaps, tick);
    if book.ticks.contains_key(tick) {
        assert(tick_is_marked(book.bitmaps, tick));
        if !book.bitmaps.contains_key(tick / 128) {
            lemma_empty_word(tick % 128);
        }
        assert(book.ticks[tick].liq_bounds.wf());
    }
    assert forall|other: Tick| #[trigger]
        after.ticks.contains_key(other) <==> tick_is_marked(after.bitmaps, other) by {
        if book.ticks.contains_key(tick) {
            let created = book.ticks[tick].created_timestamp;
            lemma_retire(book.bitmaps, created, other);
            lemma_retire(flip_mark(book.bitmaps, tick), created, other);
        }
        assert(book.ticks.contains_key(other) <==> tick_is_marked(book.bitmaps, other));
    }
    assert forall|other: Tick| #[trigger] after.ticks.contains_key(other) implies after.ticks[other]
        .liq_bounds.wf() && after.ticks[other].liq_bounds.liquidity_within() > 0 by {
        if other != tick {
            assert(book.ticks.contains_key(other));
        }
    }
}

/// A swap keeps the book in order, at every step of its walk.
pub proof fn lemma_walk_keeps_wf(outcome: SwapOutcome, buy: bool, cursor: Tick, stop: Tick)
    requires
        outcome.book.wf(),
    ensures
        outcome.walk(buy, cursor, stop).book.wf(),
    decreases ticks_left(buy, cursor, stop),
{
    if outcome.amount_remaining != 0 {
        lemma_best_offer(outcome.book, buy, cursor, stop);
        match outcome.book.best_offer(buy, cursor, stop) {
            None => {},
            Some(tick) => {
                lemma_take_keeps_wf(outcome, buy, tick);
                let taken = outcome.take_at(buy, tick);
                if outcome.is_dust_at(buy, tick) {
                } else if !outcome.crosses(buy, tick) || tick == stop {
                } else if buy {
                    lemma_walk_keeps_wf(taken, buy, (tick + 1) as Tick, stop);
                } else {
                    lemma_walk_keeps_wf(taken, buy, (tick - 1) as Tick, stop);
                }
            },
        }
    }
}

/// A swap keeps the book in order.
pub proof fn lemma_swap_keeps_wf(
    book: Book,
    buy: bool,
    init_tick: Tick,
    stopping_tick: Tick,
    order_size: Amount,
)
    requires
        book.wf(),
    ensures
        book.swap(buy, init_tick, stopping_tick, order_size).book.wf(),
{
    lemma_walk_keeps_wf(
        SwapOutcome {
            book,
            amount_out: 0,
            amount_remaining: order_size as nat,
            resulting_tick: init_tick,
            crossed_ticks: Seq::empty(),
            spent: 0,
        },
        buy,
        init_tick,
        stopping_tick,
    );
}

/// What closing an order gives adds up to the whole order: what was
/// received, and what the unfilled part would convert into, make what the
/// whole order converts into. The sum is exact where the order was filled
/// whole or not at all; a part fill rounds twice and may lose one unit.
pub proof fn lemma_close_accounts_for_order(book: Book, order: LimitOrder)
    requires
        book.close_fits(order),
    ensures
        ({
            let (after, received, remaining) = book.close_order(order);
            let whole = order.proceeds(order.order_size as nat);
            &&& remaining <= order.order_size
            &&& received + order.proceeds(remaining as nat) <= whole
            &&& whole <= received + order.proceeds(remaining as nat) + 1
            &&& (remaining == order.order_size || remaining == 0) ==> received + order.proceeds(
                remaining as nat,
            ) == whole
        }),
{
    let tick = order.ref_tick;
    lemma_equivalent_zero(tick as nat, order.buy);
    crate::corelib::price_lib::lemma_equivalent_in_range(
        order.order_size as nat,
        tick as nat,
        order.buy,
    );
    if book.ticks.contains_key(tick) {
        let details = book.ticks[tick];
        let unfilled = order.unfilled(details) as nat;
        let filled = order.filled(details) as nat;
        assert(filled + unfilled == order.order_size);
        lemma_equivalent_split(filled, unfilled, tick as nat, order.buy);
        lemma_equivalent_monotone(filled, order.order_size as nat, tick as nat, order.buy);
        lemma_equivalent_monotone(unfilled, order.order_size as nat, tick as nat, order.buy);
    }
}

/// An order that is closed right after it was placed is given back whole:
/// nothing was received, all of it remains, the liquidity at its tick is
/// what it was before, and so are every other record and every mark of the
/// bitmap. A record that was there before is there again, on the same side
/// and of the same age, each of its three marks moved up by the size of the
/// order; a tick that had no record has none again, and the book keeps in
/// mind that one was destroyed there.
pub proof fn lemma_open_then_close(book: Book, order: LimitOrder, now: Time)
    requires
        book.wf(),
        book.open_fits(order, now),
        crate::corelib::price_lib::equivalent_fits(
            order.order_size as nat,
            order.ref_tick as nat,
            order.buy,
        ),
    ensures
        ({
            let (opened, placed) = book.open_order(order, now);
            let (after, received, remaining) = opened.close_order(placed);
            &&& opened.close_fits(placed)
            &&& received == 0
            &&& remaining == order.order_size
            &&& after.liquidity_at(order.ref_tick) == book.liquidity_at(order.ref_tick)
            &&& after.ticks.contains_key(order.ref_tick) == (book.liquidity_at(order.ref_tick) > 0)
            &&& book.liquidity_at(order.ref_tick) > 0 ==> after.ticks[order.ref_tick] == (
            TickDetails {
                liq_bounds: LiquidityBoundary {
                    upper_bound: (book.ticks[order.ref_tick].liq_bounds.upper_bound
                        + order.order_size) as u128,
                    lower_bound: (book.ticks[order.ref_tick].liq_bounds.lower_bound
                        + order.order_size) as u128,
                    lifetime_removed_liquidity: (
                    book.ticks[order.ref_tick].liq_bounds.lifetime_removed_liquidity
                        + order.order_size) as u128,
                },
                ..book.ticks[order.ref_tick]
            })
            &&& forall|tick: Tick|
                tick != order.ref_tick ==> after.ticks.contains_key(tick)
                    == book.ticks.contains_key(tick) && (book.ticks.contains_key(tick)
                    ==> after.ticks[tick] == book.ticks[tick])
            &&& forall|tick: Tick| tick_is_marked(after.bitmaps, tick) == (if tick == order.ref_tick {
                book.liquidity_at(tick) > 0
            } else {
                tick_is_marked(book.bitmaps, tick)
            })
        }),
{
    let tick = order.ref_tick;
    let (opened, placed) = book.open_order(order, now);
    let (after, received, remaining) = opened.close_order(placed);
    lemma_equivalent_zero(tick as nat, order.buy);
    lemma_open_keeps_wf(book, order, now);
    lemma_flip_mark(book.bitmaps, tick);
    lemma_flip_mark(opened.bitmaps, tick);
    if book.ticks.contains_key(tick) {
        assert(book.ticks[tick].liq_bounds.wf());
        assert(tick_is_marked(book.bitmaps, tick));
    }
    assert(tick_is_marked(opened.bitmaps, tick));
    if !opened.bitmaps.contains_key(tick / 128) {
        lemma_empty_word(tick % 128);
    }
    assert(opened.close_fits(placed));
    assert(received == 0);
    assert(remaining == order.order_size);
    assert(after.liquidity_at(tick) == book.liquidity_at(tick));
    assert(after.ticks.contains_key(tick) == (book.liquidity_at(tick) > 0));
    assert forall|other: Tick| tick_is_marked(after.bitmaps, other) == (if other == tick {
        book.liquidity_at(other) > 0
    } else {
        tick_is_marked(book.bitmaps, other)
    }) by {
        lemma_retire(opened.bitmaps, now, other);
        lemma_retire(flip_mark(opened.bitmaps, tick), now, other);
        assert(book.ticks.contains_key(other) <==> tick_is_marked(book.bitmaps, other));
    }
    assert forall|other: Tick| other != tick implies after.ticks.contains_key(other)
        == book.ticks.contains_key(other) && (book.ticks.contains_key(other) ==> after.ticks[other]
        == book.ticks[other]) by {}
}

/// An order whose tick was emptied since it was placed was filled whole,
/// whether the tick has no record now or a record created later.
pub proof fn lemma_close_after_tick_was_consumed(book: Book, order: LimitOrder)
    requires
        !book.ticks.contains_key(order.ref_tick) || order.init_tick_timestamp
            < book.ticks[order.ref_tick].created_timestamp,
    ensures
        book.close_order(order).1 == order.proceeds(order.order_size as nat) as Amount,
        book.close_order(order).2 == 0,
{
}

/// Closing an order whose tick has a later record changes nothing on a book
/// that is in order: the record, which holds liquidity, stays as it is, and
/// so does the bitmap.
pub proof fn lemma_close_of_outlived_order_keeps_book(book: Book, order: LimitOrder)
    requires
        book.wf(),
        book.ticks.contains_key(order.ref_tick),
        order.init_tick_timestamp < book.ticks[order.ref_tick].created_timestamp,
    ensures
        book.close_order(order).0 == book,
{
    let after = book.close_order(order).0;
    assert(book.ticks[order.ref_tick].liq_bounds.liquidity_within() > 0);
    assert(after.ticks =~= book.ticks);
}

/// The ticks that a swap crosses have no record and no mark afterwards, at
/// every step of its walk on a book that is in order.
pub proof fn lemma_walk_crossed_are_gone(
    outcome: SwapOutcome,
    buy: bool,
    cursor: Tick,
    stop: Tick,
    tick: Tick,
)
    requires
        outcome.book.wf(),
    ensures
        ({
            let end = outcome.walk(buy, cursor, stop);
            end.crossed_ticks.contains(tick) && !outcome.crossed_ticks.contains(tick) ==> {
                &&& !end.book.ticks.contains_key(tick)
                &&& !tick_is_marked(end.book.bitmaps, tick)
            }
        }),
    decreases ticks_left(buy, cursor, stop),
{
    let end = outcome.walk(buy, cursor, stop);
    lemma_walk_keeps_wf(outcome, buy, cursor, stop);
    assert(end.book.ticks.contains_key(tick) <==> tick_is_marked(end.book.bitmaps, tick));
    if outcome.amount_remaining != 0 {
        lemma_best_offer(outcome.book, buy, cursor, stop);
        match outcome.book.best_offer(buy, cursor, stop) {
            None => {},
            Some(at) => {
                let taken = outcome.take_at(buy, at);
                lemma_take_keeps_wf(outcome, buy, at);
                if outcome.is_dust_at(buy, at) {
                } else {
                    if end.crossed_ticks.contains(tick) && !outcome.crossed_ticks.contains(tick)
                        && taken.crossed_ticks.contains(tick) {
                        let index = choose|i: int|
                            0 <= i < taken.crossed_ticks.len() && taken.crossed_ticks[i] == tick;
                        if index < outcome.crossed_ticks.len() {
                            assert(outcome.crossed_ticks[index] == tick);
                        }
                        assert(tick == at && outcome.crosses(buy, at));
                        assert(!taken.book.ticks.contains_key(tick));
                    }
                    if !outcome.crosses(buy, at) || at == stop {
                    } else {
                        let next = if buy {
                            (at + 1) as Tick
                        } else {
                            (at - 1) as Tick
                        };
                        lemma_walk_crossed_are_gone(taken, buy, next, stop, tick);
                        lemma_walk_retires(taken, buy, next, stop, tick);
                    }
                }
            },
        }
    }
}

/// Placing an order keeps what the book knows of the records that were
/// destroyed.
pub proof fn lemma_open_keeps_retired(book: Book, order: LimitOrder, now: Time)
    ensures
        retired_floor(book.open_order(order, now).0.bitmaps) == retired_floor(book.bitmaps),
{
    lemma_retire(book.bitmaps, now, order.ref_tick);
}

/// Closing an order forgets no record that was destroyed, and a record
/// that it destroys is kept in mind: the book's latest time of a destroyed
/// record is no earlier than before, and no earlier than the creation of
/// the record that the close destroyed.
pub proof fn lemma_close_retires(book: Book, order: LimitOrder, tick: Tick)
    ensures
        retired_floor(book.close_order(order).0.bitmaps) >= retired_floor(book.bitmaps),
        book.ticks.contains_key(tick) && !book.close_order(order).0.ticks.contains_key(tick)
            ==> retired_floor(book.close_order(order).0.bitmaps)
            >= book.ticks[tick].created_timestamp,
{
    let at = order.ref_tick;
    if book.ticks.contains_key(at) {
        let created = book.ticks[at].created_timestamp;
        lemma_retire(book.bitmaps, created, at);
        lemma_retire(flip_mark(book.bitmaps, at), created, at);
    }
}

/// A swap forgets no record that was destroyed, and every record that it
/// destroys is kept in mind, at every step of its walk.
pub proof fn lemma_walk_retires(
    outcome: SwapOutcome,
    buy: bool,
    cursor: Tick,
    stop: Tick,
    tick: Tick,
)
    ensures
        ({
            let end = outcome.walk(buy, cursor, stop);
            &&& retired_floor(end.book.bitmaps) >= retired_floor(outcome.book.bitmaps)
            &&& end.book.ticks.contains_key(tick) ==> outcome.book.ticks.contains_key(tick)
                && end.book.ticks[tick].created_timestamp
                == outcome.book.ticks[tick].created_timestamp
            &&& outcome.book.ticks.contains_key(tick) && !end.book.ticks.contains_key(tick)
                ==> retired_floor(end.book.bitmaps) >= outcome.book.ticks[tick].created_timestamp
        }),
    decreases ticks_left(buy, cursor, stop),
{
    if outcome.amount_remaining != 0 {
        lemma_best_offer(outcome.book, buy, cursor, stop);
        match outcome.book.best_offer(buy, cursor, stop) {
            None => {},
            Some(at) => {
                let taken = outcome.take_at(buy, at);
                lemma_retire(
                    flip_mark(outcome.book.bitmaps, at),
                    outcome.book.ticks[at].created_timestamp,
                    at,
                );
                lemma_retire(outcome.book.bitmaps, 0, at);
                if outcome.is_dust_at(buy, at) {
                } else if !outcome.crosses(buy, at) || at == stop {
                } else if buy {
                    lemma_walk_retires(taken, buy, (at + 1) as Tick, stop, tick);
                } else {
                    lemma_walk_retires(taken, buy, (at - 1) as Tick, stop, tick);
                }
            },
        }
    }
}

/// A swap forgets no record that was destroyed, and every record that it
/// destroys is kept in mind.
pub proof fn lemma_swap_retires(
    book: Book,
    buy: bool,
    init_tick: Tick,
    stopping_tick: Tick,
    order_size: Amount,
    tick: Tick,
)
    ensures
        ({
            let end = book.swap(buy, init_tick, stopping_tick, order_size);
            &&& retired_floor(end.book.bitmaps) >= retired_floor(book.bitmaps)
            &&& book.ticks.contains_key(tick) && !end.book.ticks.contains_key(tick)
                ==> retired_floor(end.book.bitmaps) >= book.ticks[tick].created_timestamp
        }),
{
    lemma_walk_retires(
        SwapOutcome {
            book,
            amount_out: 0,
            amount_remaining: order_size as nat,
            resulting_tick: init_tick,
            crossed_ticks: Seq::empty(),
            spent: 0,
        },
        buy,
        init_tick,
        stopping_tick,
        tick,
    );
}

/// A record that is created at a tick is later than every record that was
/// destroyed before, so that an order placed on a destroyed record was
/// filled whole: where the record of the order's tick is kept in mind as
/// destroyed, and another order then creates a record there at a time at
/// which it can be placed, closing the first order gives all of it,
/// converted, and leaves nothing.
pub proof fn lemma_close_after_recreation(
    book: Book,
    order: LimitOrder,
    newcomer: LimitOrder,
    now: Time,
)
    requires
        !book.ticks.contains_key(order.ref_tick),
        order.init_tick_timestamp <= retired_floor(book.bitmaps),
        newcomer.ref_tick == order.ref_tick,
        book.open_fits(newcomer, now),
    ensures
        book.open_order(newcomer, now).0.ticks[order.ref_tick].created_timestamp == now,
        order.init_tick_timestamp < now,
        book.open_order(newcomer, now).0.close_order(order).1 == order.proceeds(
            order.order_size as nat,
        ) as Amount,
        book.open_order(newcomer, now).0.close_order(order).2 == 0,
{
    let recreated = book.open_order(newcomer, now).0;
    assert(recreated.ticks[order.ref_tick].created_timestamp == now);
    lemma_close_after_tick_was_consumed(recreated, order);
}

/// A swap accounts for the whole order. What was received, valued tick by
/// tick in the taker's own unit, and what remains never exceed the order;
/// they make exactly the order where something remains, that is where the
/// swap ended for want of offers and not in a part fill that rounded; and
/// they fall short of the order by no more than the rounding of one
/// conversion, `_MAX_PRICE_RATIO` at most.
pub proof fn lemma_walk_conserves(outcome: SwapOutcome, buy: bool, cursor: Tick, stop: Tick)
    ensures
        ({
            let end = outcome.walk(buy, cursor, stop);
            &&& end.spent + end.amount_remaining <= outcome.spent + outcome.amount_remaining
            &&& end.amount_remaining <= outcome.amount_remaining
            &&& end.amount_out >= outcome.amount_out
            &&& end.amount_remaining > 0 ==> end.spent + end.amount_remaining == outcome.spent
                + outcome.amount_remaining
            &&& outcome.spent + outcome.amount_remaining <= end.spent + end.amount_remaining
                + _MAX_PRICE_RATIO
        }),
    decreases ticks_left(buy, cursor, stop),
{
    if outcome.amount_remaining != 0 {
        lemma_best_offer(outcome.book, buy, cursor, stop);
        match outcome.book.best_offer(buy, cursor, stop) {
            None => {},
            Some(tick) => {
                let taken = outcome.take_at(buy, tick);
                let wanted = equivalent(outcome.amount_remaining, tick as nat, buy);
                let available = outcome.book.liquidity_at(tick);
                lemma_equivalent_round_trip(outcome.amount_remaining, tick as nat, buy);
                crate::corelib::price_lib::lemma_equivalent_round_trip_loss(
                    outcome.amount_remaining,
                    tick as nat,
                    buy,
                );
                if outcome.crosses(buy, tick) {
                    lemma_equivalent_monotone(available, wanted, tick as nat, !buy);
                }
                if outcome.is_dust_at(buy, tick) {
                } else if !outcome.crosses(buy, tick) || tick == stop {
                } else if buy {
                    lemma_walk_conserves(taken, buy, (tick + 1) as Tick, stop);
                } else {
                    lemma_walk_conserves(taken, buy, (tick - 1) as Tick, stop);
                }
            },
        }
    }
}

/// A swap accounts for the whole order: see `lemma_walk_conserves`.
pub proof fn lemma_swap_conserves(
    book: Book,
    buy: bool,
    init_tick: Tick,
    stopping_tick: Tick,
    order_size: Amount,
)
    ensures
        ({
            let end = book.swap(buy, init_tick, stopping_tick, order_size);
            &&& end.spent + end.amount_remaining <= order_size
            &&& end.amount_remaining > 0 ==> end.spent + end.amount_remaining == order_size
            &&& order_size <= end.spent + end.amount_remaining + _MAX_PRICE_RATIO
        }),
{
    lemma_walk_conserves(
        SwapOutcome {
            book,
            amount_out: 0,
            amount_remaining: order_size as nat,
            resulting_tick: init_tick,
            crossed_ticks: Seq::empty(),
            spent: 0,
        },
        buy,
        init_tick,
        stopping_tick,
    );
}

/// A swap on a book without offers in its range takes nothing.
pub proof fn lemma_swap_without_offers(
    book: Book,
    buy: bool,
    init_tick: Tick,
    stopping_tick: Tick,
    order_size: Amount,
)
    requires
        book.best_offer(buy, init_tick, stopping_tick) == None::<Tick>,
    ensures
        ({
            let end = book.swap(buy, init_tick, stopping_tick, order_size);
            &&& end.book == book
            &&& end.amount_out == 0
            &&& end.amount_remaining == order_size
            &&& end.resulting_tick == init_tick
            &&& end.crossed_ticks == Seq::<Tick>::empty()
        }),
{
}

} // verus!
