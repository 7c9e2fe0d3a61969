//! What holds of the market whatever is done to it.

use vstd::prelude::*;
use candid::Principal;
use crate::account::{subaccount_key, Subaccount};
use crate::corelib::book_laws::{lemma_close_keeps_wf, lemma_open_keeps_wf, lemma_swap_keeps_wf};
use crate::corelib::order_lib::{
    flip_mark, lemma_flip_mark, lemma_retire, tick_is_marked, Book, LimitOrder,
};
use crate::corelib::swap_lib::{lemma_best_offer, ticks_left, SwapOutcome};
use crate::corelib::tick_lib::def_max_tick;
use crate::market::MarketView;
use crate::operations::{debt_for, OpenPositionError};
use crate::position::{PositionOrderType, PositionParameters};
use crate::position_manager::{offer_after_swap, offer_moved};
use crate::types::{Amount, Tick, Time};

verus! {

/// Opening a limit position keeps the book in order.
pub proof fn lemma_opened_limit_keeps_wf(
    market: MarketView,
    account: Subaccount,
    owner: Principal,
    long: bool,
    collateral_value: Amount,
    debt_value: Amount,
    interest_rate: u32,
    entry_tick: Tick,
    now: Time,
)
    requires
        market.book.wf(),
        market.open_limit_fits(long, collateral_value, debt_value, entry_tick, now),
    ensures
        market.opened_limit(
            account,
            owner,
            long,
            collateral_value,
            debt_value,
            interest_rate,
            entry_tick,
            now,
        ).0.book.wf(),
{
    if !market.limit_crosses(long, entry_tick) {
        lemma_open_keeps_wf(
            market.book,
            MarketView::limit_order(long, collateral_value, debt_value, entry_tick),
            now,
        );
    }
}

/// Opening a market position keeps the book in order.
pub proof fn lemma_opened_market_keeps_wf(
    market: MarketView,
    account: Subaccount,
    owner: Principal,
    long: bool,
    collateral_value: Amount,
    debt_value: Amount,
    interest_rate: u32,
    max_tick: Option<Tick>,
    now: Time,
)
    requires
        market.book.wf(),
    ensures
        market.opened_market(
            account,
            owner,
            long,
            collateral_value,
            debt_value,
            interest_rate,
            max_tick,
            now,
        ).0.book.wf(),
{
    if market.market_start(long, max_tick) is Some {
        let start = market.market_start(long, max_tick).unwrap();
        lemma_swap_keeps_wf(
            market.book,
            long,
            start,
            market.stopping_tick(max_tick, market.cached_offer(long), long),
            MarketView::market_order_size(long, collateral_value, debt_value, start) as Amount,
        );
    }
}

/// Closing a market position keeps the book in order.
pub proof fn lemma_closed_market_keeps_wf(
    market: MarketView,
    account: Subaccount,
    position: PositionParameters,
    max_tick: Option<Tick>,
    now: Time,
)
    requires
        market.book.wf(),
    ensures
        market.closed_market(account, position, max_tick, now).market.book.wf(),
{
    let long = position.long;
    if market.close_start(long, max_tick) is Some {
        lemma_swap_keeps_wf(
            market.book,
            !long,
            market.close_start(long, max_tick).unwrap(),
            market.stopping_tick(max_tick, market.cached_offer(!long), !long),
            market.close_order_size(position) as Amount,
        );
    }
}

/// Closing a limit position keeps the book in order.
pub proof fn lemma_closed_limit_keeps_wf(
    market: MarketView,
    account: Subaccount,
    position: PositionParameters,
    now: Time,
)
    requires
        market.book.wf(),
        market.close_limit_fits(position),
    ensures
        market.closed_limit(account, position, now).market.book.wf(),
{
    match position.order_type {
        PositionOrderType::Market => {},
        PositionOrderType::Limit(order) => {
            lemma_close_keeps_wf(market.book, order);
        },
    }
}

/// Converting the limit position of an account keeps the book in order.
pub proof fn lemma_converted_account_keeps_wf(
    market: MarketView,
    account: Subaccount,
    read: bool,
    now: Time,
)
    requires
        market.book.wf(),
        market.convert_account_fits(account, read),
    ensures
        market.converted_account(account, read, now).book.wf(),
{
    if !read && market.positions.contains_key(account) {
        match market.positions[account].order_type {
            PositionOrderType::Market => {},
            PositionOrderType::Limit(order) => {
                lemma_close_keeps_wf(market.book, order);
            },
        }
    }
}

/// An account holds at most one position and at most one error log: while
/// it holds either, no position is opened for it, and nothing changes.
pub proof fn lemma_one_position_per_account(
    market: MarketView,
    user: Principal,
    account_index: u8,
    long: bool,
    collateral_value: Amount,
    leveragex10: u8,
    limit_tick: Tick,
    max_tick: Option<Tick>,
    vault_answer: (bool, u32),
    now: Time,
)
    requires
        market.has_position_or_pending_error_log(subaccount_key(user, account_index)),
    ensures
        ({
            let opening = market.open_limit_position(
                user,
                account_index,
                long,
                collateral_value,
                leveragex10,
                limit_tick,
                vault_answer,
                now,
            );
            &&& opening.market == market
            &&& opening.result == Err::<PositionParameters, OpenPositionError>(
                OpenPositionError::PendingErrorOrPosition,
            )
        }),
        ({
            let opening = market.open_market_position(
                user,
                account_index,
                long,
                collateral_value,
                leveragex10,
                max_tick,
                vault_answer,
                now,
            );
            &&& opening.market == market
            &&& opening.result == Err::<PositionParameters, OpenPositionError>(
                OpenPositionError::PendingErrorOrPosition,
            )
        }),
{
}

/// A position that is opened becomes the position of its account, and the
/// position of no other account changes.
pub proof fn lemma_opened_position_is_the_accounts(
    market: MarketView,
    user: Principal,
    account_index: u8,
    long: bool,
    collateral_value: Amount,
    leveragex10: u8,
    limit_tick: Tick,
    max_tick: Option<Tick>,
    vault_answer: (bool, u32),
    now: Time,
)
    ensures
        ({
            let opening = market.open_limit_position(
                user,
                account_index,
                long,
                collateral_value,
                leveragex10,
                limit_tick,
                vault_answer,
                now,
            );
            &&& opening.result is Ok ==> opening.market.positions == market.positions.insert(
                subaccount_key(user, account_index),
                opening.result->Ok_0,
            ) && !market.has_position_or_pending_error_log(subaccount_key(user, account_index))
            &&& opening.result is Err ==> opening.market.positions == market.positions
            &&& opening.market.error_logs == market.error_logs
        }),
        ({
            let opening = market.open_market_position(
                user,
                account_index,
                long,
                collateral_value,
                leveragex10,
                max_tick,
                vault_answer,
                now,
            );
            &&& opening.result is Ok ==> opening.market.positions == market.positions.insert(
                subaccount_key(user, account_index),
                opening.result->Ok_0,
            ) && !market.has_position_or_pending_error_log(subaccount_key(user, account_index))
            &&& opening.result is Err ==> opening.market.positions == market.positions
            &&& opening.market.error_logs == market.error_logs
        }),
{
}

/// Whether `tick` lies nearer the spread than `than` for an order of the
/// given direction: below it for a buy, which takes from sells; above it
/// for a sell, which takes from buys.
pub open spec fn nearer(buy: bool, tick: Tick, than: Tick) -> bool {
    if buy {
        tick < than
    } else {
        tick > than
    }
}

impl MarketView {
    /// No offer to an order of the given direction lies nearer the spread
    /// than the cached one. A cache of zero stands for no offer within the
    /// horizon of the scan that set it, and says nothing of the ticks
    /// beyond.
    pub open spec fn side_consistent(self, buy: bool) -> bool {
        self.cached_offer(buy) != 0 ==> self.none_nearer(buy, self.cached_offer(buy))
    }

    /// Whether no tick nearer the spread than `than` offers anything to an
    /// order of the given direction.
    pub open spec fn none_nearer(self, buy: bool, than: Tick) -> bool {
        forall|tick: Tick| nearer(buy, tick, than) ==> !#[trigger] self.book.is_offer(tick, buy)
    }

    /// No offer lies nearer the spread than the cached one: no tick below
    /// the cached lowest sell offers sells, and no tick above the cached
    /// highest buy offers buys.
    pub open spec fn offers_consistent(self) -> bool {
        self.side_consistent(true) && self.side_consistent(false)
    }
}

/// Placing an order makes no offer but, at most, one at the order's tick
/// on the order's side.
pub proof fn lemma_open_order_offers(book: Book, order: LimitOrder, now: Time)
    ensures
        forall|tick: Tick, buy: bool| #[trigger]
            book.open_order(order, now).0.is_offer(tick, buy) ==> book.is_offer(tick, buy) || (tick
                == order.ref_tick && buy == !order.buy),
{
    let after = book.open_order(order, now).0;
    lemma_flip_mark(book.bitmaps, order.ref_tick);
    assert forall|tick: Tick, buy: bool| #[trigger] after.is_offer(tick, buy) implies book.is_offer(
        tick,
        buy,
    ) || (tick == order.ref_tick && buy == !order.buy) by {
        if tick != order.ref_tick {
            assert(after.ticks[tick] == book.ticks[tick]);
            assert(tick_is_marked(after.bitmaps, tick) == tick_is_marked(book.bitmaps, tick));
        }
    }
}

/// Closing an order makes no offer.
pub proof fn lemma_close_order_offers(book: Book, order: LimitOrder)
    ensures
        forall|tick: Tick, buy: bool| #[trigger]
            book.close_order(order).0.is_offer(tick, buy) ==> book.is_offer(tick, buy),
{
    let after = book.close_order(order).0;
    lemma_flip_mark(book.bitmaps, order.ref_tick);
    assert forall|tick: Tick, buy: bool| #[trigger] after.is_offer(tick, buy) implies book.is_offer(
        tick,
        buy,
    ) by {
        if book.ticks.contains_key(order.ref_tick) {
            let created = book.ticks[order.ref_tick].created_timestamp;
            lemma_retire(book.bitmaps, created, tick);
            lemma_retire(flip_mark(book.bitmaps, order.ref_tick), created, tick);
        }
        if tick != order.ref_tick {
            assert(after.ticks[tick] == book.ticks[tick]);
            assert(tick_is_marked(after.bitmaps, tick) == tick_is_marked(book.bitmaps, tick));
        }
    }
}

/// Taking from an offer makes no offer, and an offer that is crossed is
/// none any more.
pub proof fn lemma_take_offers(outcome: SwapOutcome, buy: bool, tick: Tick)
    requires
        outcome.book.is_offer(tick, buy),
    ensures
        forall|other: Tick, side: bool| #[trigger]
            outcome.take_at(buy, tick).book.is_offer(other, side) ==> outcome.book.is_offer(
                other,
                side,
            ),
        outcome.crosses(buy, tick) ==> forall|side: bool|
            !#[trigger] outcome.take_at(buy, tick).book.is_offer(tick, side),
{
    let after = outcome.take_at(buy, tick).book;
    lemma_flip_mark(outcome.book.bitmaps, tick);
    assert forall|other: Tick, side: bool| #[trigger] after.is_offer(
        other,
        side,
    ) implies outcome.book.is_offer(other, side) by {
        lemma_retire(
            flip_mark(outcome.book.bitmaps, tick),
            outcome.book.ticks[tick].created_timestamp,
            other,
        );
        if other != tick {
            assert(after.ticks[other] == outcome.book.ticks[other]);
            assert(tick_is_marked(after.bitmaps, other) == tick_is_marked(
                outcome.book.bitmaps,
                other,
            ));
        }
    }
}

/// Whether `tick` lies from `from` on towards `to`, short of `to`.
pub open spec fn lies_before(buy: bool, from: Tick, tick: Tick, to: Tick) -> bool {
    if buy {
        from <= tick < to
    } else {
        to < tick <= from
    }
}

/// A swap makes no offer. Where it took anything, the tick it ended at was
/// an offer on its way, and behind it no offer is left between the start
/// and that tick.
pub proof fn lemma_walk_offers(outcome: SwapOutcome, buy: bool, cursor: Tick, stop: Tick)
    ensures
        ({
            let end = outcome.walk(buy, cursor, stop);
            &&& forall|tick: Tick, side: bool| #[trigger]
                end.book.is_offer(tick, side) ==> outcome.book.is_offer(tick, side)
            &&& end == outcome || {
                &&& outcome.book.is_offer(end.resulting_tick, buy)
                &&& (buy ==> cursor <= end.resulting_tick)
                &&& (!buy ==> end.resulting_tick <= cursor)
                &&& forall|tick: Tick|
                    lies_before(buy, cursor, tick, end.resulting_tick) ==> !#[trigger] end.book.is_offer(
                        tick,
                        buy,
                    )
                &&& forall|tick: Tick|
                    end.crossed_ticks.contains(tick) && !outcome.crossed_ticks.contains(tick)
                        ==> !#[trigger] end.book.is_offer(tick, buy)
            }
        }),
    decreases ticks_left(buy, cursor, stop),
{
    let end = outcome.walk(buy, cursor, stop);
    if outcome.amount_remaining != 0 {
        lemma_best_offer(outcome.book, buy, cursor, stop);
        match outcome.book.best_offer(buy, cursor, stop) {
            None => {},
            Some(tick) => {
                let taken = outcome.take_at(buy, tick);
                lemma_take_offers(outcome, buy, tick);
                if outcome.is_dust_at(buy, tick) {
                } else if !outcome.crosses(buy, tick) || tick == stop {
                    assert forall|other: Tick|
                        end.crossed_ticks.contains(other) && !outcome.crossed_ticks.contains(
                            other,
                        ) implies !#[trigger] end.book.is_offer(other, buy) by {
                        if outcome.crosses(buy, tick) {
                            let index = choose|i: int|
                                0 <= i < end.crossed_ticks.len() && end.crossed_ticks[i] == other;
                            if index < outcome.crossed_ticks.len() {
                                assert(outcome.crossed_ticks[index] == other);
                            }
                        }
                    }
                } else {
                    let next = if buy {
                        (tick + 1) as Tick
                    } else {
                        (tick - 1) as Tick
                    };
                    lemma_walk_offers(taken, buy, next, stop);
                    assert(end == taken.walk(buy, next, stop));
                    assert forall|other: Tick|
                        end.crossed_ticks.contains(other) && !outcome.crossed_ticks.contains(
                            other,
                        ) implies !#[trigger] end.book.is_offer(other, buy) by {
                        if taken.crossed_ticks.contains(other) {
                            let index = choose|i: int|
                                0 <= i < taken.crossed_ticks.len() && taken.crossed_ticks[i]
                                    == other;
                            if index < outcome.crossed_ticks.len() {
                                assert(outcome.crossed_ticks[index] == other);
                            }
                            assert(other == tick);
                            assert(!taken.book.is_offer(tick, buy));
                        }
                    }
                    assert forall|other: Tick|
                        lies_before(
                            buy,
                            cursor,
                            other,
                            end.resulting_tick,
                        ) implies !#[trigger] end.book.is_offer(other, buy) by {
                        if other == tick {
                            assert(!taken.book.is_offer(tick, buy));
                        } else if lies_before(buy, cursor, other, tick) {
                            assert(!outcome.book.is_offer(other, buy));
                        }
                    }
                }
            },
        }
    }
}

/// The offer cached after a swap is the nearest within the default horizon
/// of the tick where the swap ended: it is an offer on the book that the
/// swap leaves, and no offer lies between that tick and it. Where zero is
/// cached, no tick of the horizon offers anything, unless tick zero itself
/// is the nearest offer.
pub proof fn lemma_offer_after_swap(outcome: SwapOutcome, buy: bool)
    ensures
        ({
            let cached = offer_after_swap(outcome, buy);
            let from = outcome.resulting_tick;
            let limit = def_max_tick(from, buy);
            &&& cached != 0 ==> {
                &&& outcome.book.is_offer(cached, buy)
                &&& (buy ==> from <= cached <= limit)
                &&& (!buy ==> limit <= cached <= from)
                &&& forall|tick: Tick|
                    lies_before(buy, from, tick, cached) ==> !#[trigger] outcome.book.is_offer(
                        tick,
                        buy,
                    )
            }
            &&& cached == 0 ==> outcome.book.is_offer(0, buy) || forall|tick: Tick|
                (buy && from <= tick <= limit) || (!buy && limit <= tick <= from)
                    ==> !#[trigger] outcome.book.is_offer(tick, buy)
        }),
{
    lemma_best_offer(
        outcome.book,
        buy,
        outcome.resulting_tick,
        def_max_tick(outcome.resulting_tick, buy),
    );
}

/// A swap keeps the cached best offers the best, with the cache refreshed
/// as the swap asks for, where it starts at a tick that no offer lies
/// nearer than, or walks down from tick zero.
pub proof fn lemma_swap_keeps_offers(
    market: MarketView,
    buy: bool,
    start: Tick,
    stop: Tick,
    order_size: Amount,
)
    requires
        market.offers_consistent(),
        (!buy && start == 0) || market.none_nearer(buy, start),
    ensures
        ({
            let outcome = market.book.swap(buy, start, stop, order_size);
            (MarketView { book: outcome.book, ..market }).with_cached_offer(
                buy,
                if offer_moved(outcome, start, buy) {
                    offer_after_swap(outcome, buy)
                } else {
                    market.cached_offer(buy)
                },
            ).offers_consistent()
        }),
{
    let begin = SwapOutcome {
        book: market.book,
        amount_out: 0,
        amount_remaining: order_size as nat,
        resulting_tick: start,
        crossed_ticks: Seq::empty(),
        spent: 0,
    };
    let outcome = market.book.swap(buy, start, stop, order_size);
    lemma_walk_offers(begin, buy, start, stop);
    let after = (MarketView { book: outcome.book, ..market }).with_cached_offer(
        buy,
        if offer_moved(outcome, start, buy) {
            offer_after_swap(outcome, buy)
        } else {
            market.cached_offer(buy)
        },
    );
    let other_side = !buy;
    assert(market.side_consistent(buy) && market.side_consistent(other_side)) by {
        if buy {
        } else {
        }
    }
    let cached = after.cached_offer(buy);
    if offer_moved(outcome, start, buy) {
        assert(outcome != begin);
        lemma_offer_after_swap(outcome, buy);
    }
    assert(after.side_consistent(buy)) by {
        if cached != 0 {
            assert forall|tick: Tick|
                nearer(buy, tick, cached) implies !#[trigger] after.book.is_offer(tick, buy) by {
                if after.book.is_offer(tick, buy) {
                    assert(market.book.is_offer(tick, buy));
                    if offer_moved(outcome, start, buy) {
                        if lies_before(buy, start, tick, outcome.resulting_tick) {
                            assert(!outcome.book.is_offer(tick, buy));
                        }
                        if lies_before(buy, outcome.resulting_tick, tick, cached) {
                            assert(!outcome.book.is_offer(tick, buy));
                        }
                    }
                }
            }
        }
    }
    assert(after.side_consistent(other_side)) by {
        let other_cached = after.cached_offer(other_side);
        assert(other_cached == market.cached_offer(other_side));
        if other_cached != 0 {
            assert forall|tick: Tick|
                nearer(other_side, tick, other_cached) implies !#[trigger] after.book.is_offer(
                tick,
                other_side,
            ) by {
                if after.book.is_offer(tick, other_side) {
                    assert(market.book.is_offer(tick, other_side));
                }
            }
        }
    }
    if buy {
    } else {
    }
}

/// Opening a limit position keeps the cached best offers the best, and the
/// cached tick of the position's side is the entry tick or nearer the
/// spread. Left out is a position on a side whose cache is zero while an
/// offer of that side lies nearer the spread than the entry tick: the cache
/// takes the entry tick then, and knows nothing of that offer.
pub proof fn lemma_opened_limit_keeps_offers(
    market: MarketView,
    account: Subaccount,
    owner: Principal,
    long: bool,
    collateral_value: Amount,
    debt_value: Amount,
    interest_rate: u32,
    entry_tick: Tick,
    now: Time,
)
    requires
        market.offers_consistent(),
        market.cached_offer(!long) == 0 ==> market.none_nearer(!long, entry_tick),
    ensures
        market.opened_limit(
            account,
            owner,
            long,
            collateral_value,
            debt_value,
            interest_rate,
            entry_tick,
            now,
        ).0.offers_consistent(),
        !market.limit_crosses(long, entry_tick) ==> market.opened_limit(
            account,
            owner,
            long,
            collateral_value,
            debt_value,
            interest_rate,
            entry_tick,
            now,
        ).1 is Some && !nearer(
            !long,
            entry_tick,
            market.opened_limit(
                account,
                owner,
                long,
                collateral_value,
                debt_value,
                interest_rate,
                entry_tick,
                now,
            ).0.cached_offer(!long),
        ),
{
    if !market.limit_crosses(long, entry_tick) {
        let order = MarketView::limit_order(long, collateral_value, debt_value, entry_tick);
        let book = market.book.open_order(order, now).0;
        let after = market.opened_limit(
            account,
            owner,
            long,
            collateral_value,
            debt_value,
            interest_rate,
            entry_tick,
            now,
        ).0;
        lemma_open_order_offers(market.book, order, now);
        let side = !long;
        assert(market.side_consistent(side) && market.side_consistent(long)) by {
            if long {
            } else {
            }
        }
        let cached = market.cached_offer(side);
        if cached != 0 {
            lemma_best_offer(book, side, cached, entry_tick);
        }
        assert(after.book == book);
        assert(after.cached_offer(side) == market.offer_after_limit(book, long, entry_tick)) by {
            if long {
            } else {
            }
        }
        assert(after.side_consistent(side)) by {
            let cached_after = after.cached_offer(side);
            if cached == 0 {
                assert(market.none_nearer(side, entry_tick));
                assert(cached_after == entry_tick);
            }
            if cached_after != 0 {
                assert forall|tick: Tick|
                    nearer(side, tick, cached_after) implies !#[trigger] after.book.is_offer(
                    tick,
                    side,
                ) by {
                    if book.is_offer(tick, side) {
                        if tick == entry_tick {
                            assert(cached_after == cached);
                            assert(cached != 0);
                            assert(book.best_offer(side, cached, entry_tick) is Some);
                            assert(ticks_left(side, cached, entry_tick) > 0);
                        } else {
                            assert(market.book.is_offer(tick, side));
                            if cached != 0 {
                                assert(!nearer(side, tick, cached));
                            }
                        }
                    }
                }
            }
        }
        assert(after.side_consistent(long)) by {
            let other_cached = after.cached_offer(long);
            assert(other_cached == market.cached_offer(long));
            if other_cached != 0 {
                assert forall|tick: Tick|
                    nearer(long, tick, other_cached) implies !#[trigger] after.book.is_offer(
                    tick,
                    long,
                ) by {
                    if book.is_offer(tick, long) {
                        assert(market.book.is_offer(tick, long));
                    }
                }
            }
        }
        if long {
        } else {
        }
    }
}

/// Opening a market position keeps the cached best offers the best.
pub proof fn lemma_opened_market_keeps_offers(
    market: MarketView,
    account: Subaccount,
    owner: Principal,
    long: bool,
    collateral_value: Amount,
    debt_value: Amount,
    interest_rate: u32,
    max_tick: Option<Tick>,
    now: Time,
)
    requires
        market.offers_consistent(),
    ensures
        market.opened_market(
            account,
            owner,
            long,
            collateral_value,
            debt_value,
            interest_rate,
            max_tick,
            now,
        ).0.offers_consistent(),
{
    if market.market_start(long, max_tick) is Some {
        let start = market.market_start(long, max_tick).unwrap();
        let stop = market.stopping_tick(max_tick, market.cached_offer(long), long);
        if long {
            assert(market.side_consistent(true));
            assert(market.none_nearer(true, start));
        } else {
            assert(market.side_consistent(false));
            lemma_best_offer(market.book, false, market.highest_buy_offer, stop);
            if start != 0 {
                assert(market.none_nearer(false, start));
            }
        }
        let size = MarketView::market_order_size(long, collateral_value, debt_value, start)
            as Amount;
        lemma_swap_keeps_offers(market, long, start, stop, size);
        let outcome = market.book.swap(long, start, stop, size);
        let kept = (MarketView { book: outcome.book, ..market }).with_cached_offer(
            long,
            if offer_moved(outcome, start, long) {
                offer_after_swap(outcome, long)
            } else {
                market.cached_offer(long)
            },
        );
        let after = market.opened_market(
            account,
            owner,
            long,
            collateral_value,
            debt_value,
            interest_rate,
            max_tick,
            now,
        ).0;
        assert(after.book == kept.book);
        assert(after.lowest_sell_offer == kept.lowest_sell_offer);
        assert(after.highest_buy_offer == kept.highest_buy_offer);
        assert(kept.side_consistent(true) && kept.side_consistent(false));
        assert(after.side_consistent(true));
        assert(after.side_consistent(false));
    }
}

/// Closing a market position keeps the cached best offers the best.
pub proof fn lemma_closed_market_keeps_offers(
    market: MarketView,
    account: Subaccount,
    position: PositionParameters,
    max_tick: Option<Tick>,
    now: Time,
)
    requires
        market.offers_consistent(),
    ensures
        market.closed_market(account, position, max_tick, now).market.offers_consistent(),
{
    let buy = !position.long;
    if market.close_start(position.long, max_tick) is Some {
        let start = market.close_start(position.long, max_tick).unwrap();
        let stop = market.stopping_tick(max_tick, market.cached_offer(buy), buy);
        lemma_best_offer(market.book, buy, market.cached_offer(buy), stop);
        if buy {
            assert(market.side_consistent(true));
            assert(market.none_nearer(true, start));
        } else {
            assert(market.side_consistent(false));
            if start != 0 {
                assert(market.none_nearer(false, start));
            }
        }
        let size = market.close_order_size(position) as Amount;
        lemma_swap_keeps_offers(market, buy, start, stop, size);
        let outcome = market.book.swap(buy, start, stop, size);
        let kept = (MarketView { book: outcome.book, ..market }).with_cached_offer(
            buy,
            if offer_moved(outcome, start, buy) {
                offer_after_swap(outcome, buy)
            } else {
                market.cached_offer(buy)
            },
        );
        let after = market.closed_market(account, position, max_tick, now).market;
        assert(after.book == kept.book);
        assert(after.lowest_sell_offer == kept.lowest_sell_offer);
        assert(after.highest_buy_offer == kept.highest_buy_offer);
        assert(kept.side_consistent(true) && kept.side_consistent(false));
        assert(after.side_consistent(true));
        assert(after.side_consistent(false));
    } else {
        let after = market.closed_market(account, position, max_tick, now).market;
        assert(after.book == market.book);
        assert(market.side_consistent(true) && market.side_consistent(false));
        assert(after.side_consistent(true));
        assert(after.side_consistent(false));
    }
}

/// Closing a limit position keeps the cached best offers the best.
pub proof fn lemma_closed_limit_keeps_offers(
    market: MarketView,
    account: Subaccount,
    position: PositionParameters,
    now: Time,
)
    requires
        market.offers_consistent(),
    ensures
        market.closed_limit(account, position, now).market.offers_consistent(),
{
    match position.order_type {
        PositionOrderType::Market => {},
        PositionOrderType::Limit(order) => {
            lemma_close_order_offers(market.book, order);
            let after = market.closed_limit(account, position, now).market;
            assert forall|tick: Tick, buy: bool| #[trigger]
                after.book.is_offer(tick, buy) implies market.book.is_offer(tick, buy) by {}
        },
    }
}

/// Converting the limit position of an account keeps the cached best
/// offers the best.
pub proof fn lemma_converted_account_keeps_offers(
    market: MarketView,
    account: Subaccount,
    read: bool,
    now: Time,
)
    requires
        market.offers_consistent(),
    ensures
        market.converted_account(account, read, now).offers_consistent(),
{
    if !read && market.positions.contains_key(account) {
        match market.positions[account].order_type {
            PositionOrderType::Market => {},
            PositionOrderType::Limit(order) => {
                lemma_close_order_offers(market.book, order);
                let after = market.converted_account(account, read, now);
                assert forall|tick: Tick, buy: bool| #[trigger]
                    after.book.is_offer(tick, buy) implies market.book.is_offer(tick, buy) by {}
            },
        }
    }
}

/// A market with nothing in it has its cached best offers right.
pub proof fn lemma_initial_market_offers(details: crate::types::MarketDetails)
    ensures
        MarketView::initial(details).offers_consistent(),
        MarketView::initial(details).book.wf(),
{
    crate::corelib::book_laws::lemma_empty_book_wf();
}

/// After a limit position was opened or refused, the book is in order and
/// the cached best offers are the best. Left out is a position on a side
/// whose cache is zero while an offer of that side lies nearer the spread
/// than the entry tick.
pub proof fn lemma_open_limit_position_keeps_market(
    market: MarketView,
    user: Principal,
    account_index: u8,
    long: bool,
    collateral_value: Amount,
    leveragex10: u8,
    max_tick: Tick,
    vault_answer: (bool, u32),
    now: Time,
)
    requires
        market.book.wf(),
        market.offers_consistent(),
        market.open_limit_position_fits(long, collateral_value, leveragex10, max_tick, now),
        market.cached_offer(!long) == 0 ==> market.none_nearer(
            !long,
            max_tick / market.details.tick_spacing,
        ),
    ensures
        market.open_limit_position(
            user,
            account_index,
            long,
            collateral_value,
            leveragex10,
            max_tick,
            vault_answer,
            now,
        ).market.book.wf(),
        market.open_limit_position(
            user,
            account_index,
            long,
            collateral_value,
            leveragex10,
            max_tick,
            vault_answer,
            now,
        ).market.offers_consistent(),
{
    let account = subaccount_key(user, account_index);
    let debt_value = debt_for(collateral_value, leveragex10) as Amount;
    let entry_tick = max_tick / market.details.tick_spacing;
    match market.position_checks(account, collateral_value, leveragex10, vault_answer) {
        Err(_) => {},
        Ok(interest_rate) => {
            lemma_opened_limit_keeps_wf(
                market,
                account,
                user,
                long,
                collateral_value,
                debt_value,
                interest_rate,
                entry_tick,
                now,
            );
            lemma_opened_limit_keeps_offers(
                market,
                account,
                user,
                long,
                collateral_value,
                debt_value,
                interest_rate,
                entry_tick,
                now,
            );
        },
    }
}

/// After a market position was opened or refused, the book is in order and
/// the cached best offers are the best.
pub proof fn lemma_open_market_position_keeps_market(
    market: MarketView,
    user: Principal,
    account_index: u8,
    long: bool,
    collateral_value: Amount,
    leveragex10: u8,
    max_tick: Option<Tick>,
    vault_answer: (bool, u32),
    now: Time,
)
    requires
        market.book.wf(),
        market.offers_consistent(),
    ensures
        market.open_market_position(
            user,
            account_index,
            long,
            collateral_value,
            leveragex10,
            max_tick,
            vault_answer,
            now,
        ).market.book.wf(),
        market.open_market_position(
            user,
            account_index,
            long,
            collateral_value,
            leveragex10,
            max_tick,
            vault_answer,
            now,
        ).market.offers_consistent(),
{
    let account = subaccount_key(user, account_index);
    let debt_value = debt_for(collateral_value, leveragex10) as Amount;
    match market.position_checks(account, collateral_value, leveragex10, vault_answer) {
        Err(_) => {},
        Ok(interest_rate) => {
            lemma_opened_market_keeps_wf(
                market,
                account,
                user,
                long,
                collateral_value,
                debt_value,
                interest_rate,
                max_tick,
                now,
            );
            lemma_opened_market_keeps_offers(
                market,
                account,
                user,
                long,
                collateral_value,
                debt_value,
                interest_rate,
                max_tick,
                now,
            );
        },
    }
}

/// After the limit position of an account was closed, the book is in order
/// and the cached best offers are the best.
pub proof fn lemma_close_limit_position_keeps_market(
    market: MarketView,
    user: Principal,
    account_index: u8,
    now: Time,
)
    requires
        market.book.wf(),
        market.offers_consistent(),
        market.close_limit_position_fits(user, account_index),
    ensures
        market.close_limit_position(user, account_index, now).market.book.wf(),
        market.close_limit_position(user, account_index, now).market.offers_consistent(),
{
    let account = subaccount_key(user, account_index);
    let position = market.positions[account];
    if !position.is_market() {
        lemma_closed_limit_keeps_wf(market, account, position, now);
        lemma_closed_limit_keeps_offers(market, account, position, now);
    }
}

/// After the market position of an account was closed, the book is in
/// order and the cached best offers are the best.
pub proof fn lemma_close_market_position_keeps_market(
    market: MarketView,
    user: Principal,
    account_index: u8,
    max_tick: Option<Tick>,
    now: Time,
)
    requires
        market.book.wf(),
        market.offers_consistent(),
    ensures
        market.close_market_position(user, account_index, max_tick, now).market.book.wf(),
        market.close_market_position(
            user,
            account_index,
            max_tick,
            now,
        ).market.offers_consistent(),
{
    let account = subaccount_key(user, account_index);
    let position = market.positions[account];
    if position.is_market() {
        lemma_closed_market_keeps_wf(market, account, position, max_tick, now);
        lemma_closed_market_keeps_offers(market, account, position, max_tick, now);
    }
}

/// After a conversion was executed, the book is in order and the cached
/// best offers are the best.
pub proof fn lemma_executed_keeps_market(market: MarketView, now: Time)
    requires
        market.book.wf(),
        market.offers_consistent(),
        market.execute_fits(),
    ensures
        market.executed(now).book.wf(),
        market.executed(now).offers_consistent(),
{
    if market.executable.len() > 0 {
        let waiting = MarketView { executable: market.executable.remove(0), ..market };
        lemma_converted_account_keeps_wf(waiting, market.executable[0], false, now);
        lemma_converted_account_keeps_offers(waiting, market.executable[0], false, now);
    }
}

} // verus!
