//! Opening, closing and converting positions.

use vstd::prelude::*;
use candid::Principal;
use crate::account::Subaccount;
use crate::corelib::book_laws::lemma_swap_conserves;
use crate::corelib::constants::ONE_HOUR;
use crate::corelib::order_lib::{_retired_floor, order_closes_on, Book, LimitOrder};
use crate::corelib::price_lib::{
    _equivalent, _equivalent_fits, equivalent, equivalent_fits,
    lemma_equivalent_in_range, lemma_equivalent_range, lemma_equivalent_round_trip,
    lemma_price_bounds, tick_price,
};
use crate::corelib::swap_lib::{_peek_swap, _swap_fits, swap_fits, ticks_left, SwapOutcome};
use crate::corelib::tick_lib::{_compressed_tick, _def_max_tick, def_max_tick};
use crate::market::{Market, MarketView};
use crate::position::{
    _can_position_interest, _position_interest, ManageDebtParams, PositionOrderType, PositionParameters, PositionStatus,
};
use crate::types::{Amount, Tick, Time};

verus! {

/// Whether a swap moved the best offer it started from: it ended beyond
/// the starting tick, or emptied it.
pub open spec fn offer_moved(outcome: SwapOutcome, start: Tick, buy: bool) -> bool {
    (if buy {
        outcome.resulting_tick > start
    } else {
        outcome.resulting_tick < start
    }) || outcome.crossed_ticks.contains(start)
}

/// The best offer to cache after a swap: the nearest offer from the tick
/// where the swap ended, within the default horizon; zero, for none, where
/// no offer lies there.
pub open spec fn offer_after_swap(outcome: SwapOutcome, buy: bool) -> Tick {
    match outcome.book.best_offer(
        buy,
        outcome.resulting_tick,
        def_max_tick(outcome.resulting_tick, buy),
    ) {
        Some(tick) => tick,
        None => 0,
    }
}

/// The part of a position's debt that is not used when `remaining_value`
/// of its order is not filled: what is not filled, up to the whole debt.
pub open spec fn unused_debt(debt_value: Amount, remaining_value: Amount) -> Amount {
    if remaining_value >= debt_value {
        debt_value
    } else {
        remaining_value
    }
}

/// The part of a position's collateral that is not used: what is not
/// filled beyond the debt.
pub open spec fn unused_collateral(debt_value: Amount, remaining_value: Amount) -> Amount {
    if remaining_value >= debt_value {
        (remaining_value - debt_value) as Amount
    } else {
        0
    }
}

/// What closing a market position gives.
pub struct MarketClose {
    pub market: MarketView,
    /// The position as the close leaves it.
    pub position: PositionParameters,
    /// What goes to the owner.
    pub profit: Amount,
    pub crossed_ticks: Seq<Tick>,
    pub debt_params: ManageDebtParams,
}

/// What closing a limit position gives.
pub struct LimitClose {
    pub market: MarketView,
    /// The position as the close leaves it.
    pub position: PositionParameters,
    /// The collateral that leaves the position.
    pub removed_collateral: Amount,
    pub debt_params: ManageDebtParams,
}

impl MarketView {
    /// The last tick of a walk: the caller's limit brought onto the grid,
    /// or the default horizon from `from`.
    pub open spec fn stopping_tick(self, max_tick: Option<Tick>, from: Tick, buy: bool) -> Tick {
        match max_tick {
            Some(tick) => tick / self.details.tick_spacing,
            None => def_max_tick(from, buy),
        }
    }

    /// The cached best offer that an order of the given direction trades
    /// against first.
    pub open spec fn cached_offer(self, buy: bool) -> Tick {
        if buy {
            self.lowest_sell_offer
        } else {
            self.highest_buy_offer
        }
    }

    /// The market with the cached best offer for the given direction
    /// replaced.
    pub open spec fn with_cached_offer(self, buy: bool, tick: Tick) -> MarketView {
        if buy {
            MarketView { lowest_sell_offer: tick, ..self }
        } else {
            MarketView { highest_buy_offer: tick, ..self }
        }
    }

    /// Whether a limit position at `entry_tick` would trade at once: a long
    /// at or above the lowest sell, a short at or below the highest buy.
    pub open spec fn limit_crosses(self, long: bool, entry_tick: Tick) -> bool {
        self.cached_offer(long) != 0 && if long {
            entry_tick >= self.lowest_sell_offer
        } else {
            entry_tick <= self.highest_buy_offer
        }
    }

    /// The size of the order of a limit position: collateral and debt, for
    /// a short each converted into the base at the entry tick.
    pub open spec fn limit_order_size(
        long: bool,
        collateral_value: Amount,
        debt_value: Amount,
        entry_tick: Tick,
    ) -> nat {
        if long {
            (collateral_value + debt_value) as nat
        } else {
            equivalent(collateral_value as nat, entry_tick as nat, true) + equivalent(
                debt_value as nat,
                entry_tick as nat,
                true,
            )
        }
    }

    /// The order of a limit position before it is placed.
    pub open spec fn limit_order(
        long: bool,
        collateral_value: Amount,
        debt_value: Amount,
        entry_tick: Tick,
    ) -> LimitOrder {
        LimitOrder {
            buy: long,
            order_size: Self::limit_order_size(long, collateral_value, debt_value, entry_tick)
                as Amount,
            init_removed_liquidity: 0,
            init_lower_bound: 0,
            ref_tick: entry_tick,
            init_tick_timestamp: 0,
        }
    }

    /// Whether a limit position can be opened at `now`: its order has a
    /// size and can be placed without overflow, at a time later than the
    /// creation of every record that was destroyed where it creates one.
    pub open spec fn open_limit_fits(
        self,
        long: bool,
        collateral_value: Amount,
        debt_value: Amount,
        entry_tick: Tick,
        now: Time,
    ) -> bool {
        !self.limit_crosses(long, entry_tick) ==> {
            &&& collateral_value + debt_value <= u128::MAX
            &&& !long ==> equivalent_fits(collateral_value as nat, entry_tick as nat, true)
                && equivalent_fits(debt_value as nat, entry_tick as nat, true)
            &&& self.book.open_fits(
                Self::limit_order(long, collateral_value, debt_value, entry_tick),
                now,
            )
        }
    }

    /// The best offer to cache on the side of a limit order that was placed
    /// at `entry_tick`: the entry tick where no offer was cached, or where
    /// no offer lies between the cached tick and the entry tick; the cached
    /// tick otherwise.
    pub open spec fn offer_after_limit(self, book: Book, long: bool, entry_tick: Tick) -> Tick {
        let cached = self.cached_offer(!long);
        if cached == 0 {
            entry_tick
        } else {
            match book.best_offer(!long, cached, entry_tick) {
                Some(tick) => if tick == entry_tick {
                    entry_tick
                } else {
                    cached
                },
                None => entry_tick,
            }
        }
    }

    /// The market after a limit position was opened, and the position; the
    /// market as it was, and no position, where the order would trade at
    /// once.
    pub open spec fn opened_limit(
        self,
        account: Subaccount,
        owner: Principal,
        long: bool,
        collateral_value: Amount,
        debt_value: Amount,
        interest_rate: u32,
        entry_tick: Tick,
        now: Time,
    ) -> (MarketView, Option<PositionParameters>) {
        if self.limit_crosses(long, entry_tick) {
            (self, None)
        } else {
            let (book, placed) = self.book.open_order(
                Self::limit_order(long, collateral_value, debt_value, entry_tick),
                now,
            );
            let position = PositionParameters {
                owner,
                long,
                entry_tick,
                collateral_value,
                debt_value,
                interest_rate,
                volume_share: 0,
                order_type: PositionOrderType::Limit(placed),
                timestamp: 0,
            };
            (
                (MarketView {
                    book,
                    positions: self.positions.insert(account, position),
                    ..self
                }).with_cached_offer(!long, self.offer_after_limit(book, long, entry_tick)),
                Some(position),
            )
        }
    }

    /// The tick at which a market position starts its walk: the lowest sell
    /// for a long; for a short the nearest buy from the highest buy, if
    /// there is one before the stopping tick.
    pub open spec fn market_start(self, long: bool, max_tick: Option<Tick>) -> Option<Tick> {
        if long {
            Some(self.lowest_sell_offer)
        } else {
            self.book.best_offer(
                false,
                self.highest_buy_offer,
                self.stopping_tick(max_tick, self.highest_buy_offer, false),
            )
        }
    }

    /// The size of the order of a market position that starts at `start`.
    pub open spec fn market_order_size(
        long: bool,
        collateral_value: Amount,
        debt_value: Amount,
        start: Tick,
    ) -> nat {
        Self::limit_order_size(long, collateral_value, debt_value, start)
    }

    /// The swap that opens a market position.
    pub open spec fn market_swap(
        self,
        long: bool,
        collateral_value: Amount,
        debt_value: Amount,
        max_tick: Option<Tick>,
    ) -> SwapOutcome {
        let start = self.market_start(long, max_tick).unwrap();
        self.book.swap(
            long,
            start,
            self.stopping_tick(max_tick, self.cached_offer(long), long),
            Self::market_order_size(long, collateral_value, debt_value, start) as Amount,
        )
    }

    /// The value, in the collateral's unit, of what a swap left of the
    /// order of a market position.
    pub open spec fn market_remaining_value(outcome: SwapOutcome, long: bool, start: Tick) -> nat {
        if long {
            outcome.amount_remaining
        } else {
            equivalent(outcome.amount_remaining, start as nat, false)
        }
    }

    /// The value that a market position holds after the swap that opened
    /// it: for a long, collateral and debt less what was not used; for a
    /// short, what the swap gave.
    pub open spec fn market_position_value(
        outcome: SwapOutcome,
        long: bool,
        collateral_value: Amount,
        debt_value: Amount,
    ) -> nat {
        if long {
            (collateral_value + debt_value - outcome.amount_remaining) as nat
        } else {
            outcome.amount_out
        }
    }

    /// Whether a market position can be opened without overflow.
    pub open spec fn open_market_fits(
        self,
        long: bool,
        collateral_value: Amount,
        debt_value: Amount,
        max_tick: Option<Tick>,
    ) -> bool {
        &&& max_tick is Some ==> self.details.tick_spacing > 0
        &&& self.book.wf()
        &&& collateral_value + debt_value <= u128::MAX
        &&& self.market_start(long, max_tick) is Some ==> {
            let start = self.market_start(long, max_tick).unwrap();
            &&& !long ==> equivalent_fits(collateral_value as nat, start as nat, true)
                && equivalent_fits(debt_value as nat, start as nat, true)
            &&& swap_fits(
                long,
                start,
                self.stopping_tick(max_tick, self.cached_offer(long), long),
                Self::market_order_size(long, collateral_value, debt_value, start) as Amount,
            )
            &&& self.funding.add_fits(
                Self::market_position_value(
                    self.market_swap(long, collateral_value, debt_value, max_tick),
                    long,
                    collateral_value,
                    debt_value,
                ) as Amount,
                long,
            )
        }
    }

    /// The market after a market position was opened, with the position and
    /// the ticks that its swap emptied; the market as it was, and no
    /// position, where a short finds no buy to start from.
    pub open spec fn opened_market(
        self,
        account: Subaccount,
        owner: Principal,
        long: bool,
        collateral_value: Amount,
        debt_value: Amount,
        interest_rate: u32,
        max_tick: Option<Tick>,
        now: Time,
    ) -> (MarketView, Option<(PositionParameters, Seq<Tick>)>) {
        match self.market_start(long, max_tick) {
            None => (self, None),
            Some(start) => {
                let outcome = self.market_swap(long, collateral_value, debt_value, max_tick);
                let remaining_value = Self::market_remaining_value(outcome, long, start) as Amount;
                let value = Self::market_position_value(
                    outcome,
                    long,
                    collateral_value,
                    debt_value,
                ) as Amount;
                let position = PositionParameters {
                    owner,
                    long,
                    entry_tick: outcome.resulting_tick,
                    collateral_value: (collateral_value - unused_collateral(
                        debt_value,
                        remaining_value,
                    )) as Amount,
                    debt_value: (debt_value - unused_debt(debt_value, remaining_value)) as Amount,
                    interest_rate,
                    volume_share: self.funding.minted(value, long) as Amount,
                    order_type: PositionOrderType::Market,
                    timestamp: now,
                };
                (
                    (MarketView {
                        book: outcome.book,
                        funding: self.funding.added(value, long),
                        positions: self.positions.insert(account, position),
                        ..self
                    }).with_cached_offer(
                        long,
                        if offer_moved(outcome, start, long) {
                            offer_after_swap(outcome, long)
                        } else {
                            self.cached_offer(long)
                        },
                    ),
                    Some((position, outcome.crossed_ticks)),
                )
            },
        }
    }

    /// The value that the volume share of a position claims.
    pub open spec fn realised_value(self, position: PositionParameters) -> Amount {
        self.funding.claim(position.volume_share, position.long) as Amount
    }

    /// The size of the order that closes a market position: the realised
    /// value, for a long converted into the base at the entry tick.
    pub open spec fn close_order_size(self, position: PositionParameters) -> nat {
        if position.long {
            equivalent(self.realised_value(position) as nat, position.entry_tick as nat, true)
        } else {
            self.realised_value(position) as nat
        }
    }

    /// The tick at which the swap that closes a market position starts: the
    /// nearest offer from the cached one, if there is one before the
    /// stopping tick. A long is closed by selling, a short by buying.
    pub open spec fn close_start(self, long: bool, max_tick: Option<Tick>) -> Option<Tick> {
        self.book.best_offer(
            !long,
            self.cached_offer(!long),
            self.stopping_tick(max_tick, self.cached_offer(!long), !long),
        )
    }

    /// The swap that closes a market position.
    pub open spec fn close_swap(self, position: PositionParameters, max_tick: Option<Tick>)
        -> SwapOutcome {
        self.book.swap(
            !position.long,
            self.close_start(position.long, max_tick).unwrap(),
            self.stopping_tick(max_tick, self.cached_offer(!position.long), !position.long),
            self.close_order_size(position) as Amount,
        )
    }

    /// The value, in the collateral's unit, of what the closing swap gave.
    pub open spec fn close_out_value(outcome: SwapOutcome, long: bool, start: Tick) -> nat {
        if long {
            outcome.amount_out
        } else {
            equivalent(outcome.amount_out, start as nat, false)
        }
    }

    /// The value, in the collateral's unit, of what the closing swap left.
    pub open spec fn close_remaining_value(outcome: SwapOutcome, long: bool, entry_tick: Tick)
        -> nat {
        if long {
            equivalent(outcome.amount_remaining, entry_tick as nat, false)
        } else {
            outcome.amount_remaining
        }
    }

    /// Whether a market position can be closed without overflow.
    pub open spec fn close_market_fits(
        self,
        position: PositionParameters,
        max_tick: Option<Tick>,
        now: Time,
    ) -> bool {
        let long = position.long;
        &&& self.funding.remove_fits(position.volume_share, long)
        &&& max_tick is Some ==> self.details.tick_spacing > 0
        &&& self.book.wf()
        &&& long ==> equivalent_fits(
            self.realised_value(position) as nat,
            position.entry_tick as nat,
            true,
        )
        &&& self.close_start(long, max_tick) is Some ==> {
            let start = self.close_start(long, max_tick).unwrap();
            let outcome = self.close_swap(position, max_tick);
            let removed = self.funding.removed(position.volume_share, long);
            &&& swap_fits(
                !long,
                start,
                self.stopping_tick(max_tick, self.cached_offer(!long), !long),
                self.close_order_size(position) as Amount,
            )
            &&& position.interest_fits(now)
            &&& position.debt_value + position.interest_due(now) <= u128::MAX
            &&& !long ==> equivalent_fits(outcome.amount_out, start as nat, false)
            &&& outcome.amount_remaining > 0 && long ==> equivalent_fits(
                outcome.amount_remaining,
                position.entry_tick as nat,
                false,
            )
            &&& outcome.amount_remaining > 0 ==> removed.add_fits(
                Self::close_remaining_value(outcome, long, position.entry_tick) as Amount,
                long,
            )
            &&& outcome.amount_remaining == 0 ==> Self::close_out_value(outcome, long, start)
                >= position.debt_value + position.interest_due(now)
        }
    }

    /// What closing a market position gives. The position's volume leaves
    /// its side, and an order of its realised value is swapped the other
    /// way. Where the swap uses up the order, the debt with its interest is
    /// repaid, the rest is the owner's, and the position is removed.
    /// Otherwise the position stays, updated. Where no offer is found,
    /// nothing is swapped.
    pub open spec fn closed_market(
        self,
        account: Subaccount,
        position: PositionParameters,
        max_tick: Option<Tick>,
        now: Time,
    ) -> MarketClose {
        let long = position.long;
        let removed = self.funding.removed(position.volume_share, long);
        match self.close_start(long, max_tick) {
            None => MarketClose {
                market: MarketView { funding: removed, ..self },
                position,
                profit: 0,
                crossed_ticks: Seq::empty(),
                debt_params: ManageDebtParams {
                    initial_debt: position.debt_value,
                    net_debt: position.debt_value,
                    amount_repaid: 0,
                },
            },
            Some(start) => {
                let outcome = self.close_swap(position, max_tick);
                let out_value = Self::close_out_value(outcome, long, start) as Amount;
                let interest_value = position.interest_due(now) as Amount;
                let net_debt = (position.debt_value + interest_value) as Amount;
                let cached = if offer_moved(outcome, start, !long) {
                    offer_after_swap(outcome, !long)
                } else {
                    self.cached_offer(!long)
                };
                if outcome.amount_remaining > 0 {
                    let remaining_value = Self::close_remaining_value(
                        outcome,
                        long,
                        position.entry_tick,
                    ) as Amount;
                    let updated = position.updated(
                        out_value,
                        remaining_value,
                        interest_value,
                        removed,
                        now,
                    );
                    MarketClose {
                        market: (MarketView {
                            book: outcome.book,
                            funding: removed.added(remaining_value, long),
                            positions: self.positions.insert(account, updated),
                            ..self
                        }).with_cached_offer(!long, cached),
                        position: updated,
                        profit: PositionParameters::profit_after(out_value, net_debt),
                        crossed_ticks: outcome.crossed_ticks,
                        debt_params: position.debt_update(out_value, interest_value),
                    }
                } else {
                    MarketClose {
                        market: (MarketView {
                            book: outcome.book,
                            funding: removed,
                            positions: self.positions.remove(account),
                            ..self
                        }).with_cached_offer(!long, cached),
                        position,
                        profit: (out_value - net_debt) as Amount,
                        crossed_ticks: outcome.crossed_ticks,
                        debt_params: ManageDebtParams {
                            initial_debt: position.debt_value,
                            net_debt,
                            amount_repaid: net_debt,
                        },
                    }
                }
            },
        }
    }

    /// The value, in the collateral's unit, of the unfilled part of the
    /// order of a limit position.
    pub open spec fn limit_remaining_value(position: PositionParameters, remaining: Amount) -> nat {
        if position.long {
            remaining as nat
        } else {
            equivalent(remaining as nat, position.entry_tick as nat, false)
        }
    }

    /// Whether the limit order of a position can be turned into a market
    /// position without overflow, once it was closed on the book with
    /// `remaining` unfilled.
    pub open spec fn conversion_fits(self, position: PositionParameters, remaining: Amount)
        -> bool {
        &&& !position.long ==> equivalent_fits(
            remaining as nat,
            position.entry_tick as nat,
            false,
        )
        &&& Self::limit_remaining_value(position, remaining) <= u128::MAX
        &&& position.convert_fits(
            Self::limit_remaining_value(position, remaining) as Amount,
            self.funding,
        )
    }

    /// Whether a limit position can be closed without overflow.
    pub open spec fn close_limit_fits(self, position: PositionParameters) -> bool {
        match position.order_type {
            PositionOrderType::Market => true,
            PositionOrderType::Limit(order) => {
                &&& self.book.close_fits(order)
                &&& self.book.close_order(order).1 != 0 ==> self.conversion_fits(
                    position,
                    self.book.close_order(order).2,
                )
            },
        }
    }

    /// What closing a limit position gives. An order of which nothing was
    /// filled is taken off the book: the collateral goes back, the debt is
    /// repaid whole, and the position is removed. Otherwise the position
    /// becomes a market position of what was filled. A market position is
    /// left as it is.
    pub open spec fn closed_limit(
        self,
        account: Subaccount,
        position: PositionParameters,
        now: Time,
    ) -> LimitClose {
        match position.order_type {
            PositionOrderType::Market => LimitClose {
                market: self,
                position,
                removed_collateral: 0,
                debt_params: ManageDebtParams { initial_debt: 0, net_debt: 0, amount_repaid: 0 },
            },
            PositionOrderType::Limit(order) => {
                let (book, received, remaining) = self.book.close_order(order);
                if received == 0 {
                    LimitClose {
                        market: MarketView {
                            book,
                            positions: self.positions.remove(account),
                            ..self
                        },
                        position,
                        removed_collateral: position.collateral_value,
                        debt_params: ManageDebtParams {
                            initial_debt: position.debt_value,
                            net_debt: position.debt_value,
                            amount_repaid: position.debt_value,
                        },
                    }
                } else {
                    let remaining_value = Self::limit_remaining_value(position, remaining)
                        as Amount;
                    let converted = position.converted(remaining_value, self.funding, now);
                    LimitClose {
                        market: MarketView {
                            book,
                            funding: self.funding.added(
                                (position.collateral_value + position.debt_value
                                    - remaining_value) as Amount,
                                position.long,
                            ),
                            positions: self.positions.insert(account, converted),
                            ..self
                        },
                        position: converted,
                        removed_collateral: position.removed_collateral(remaining_value),
                        debt_params: ManageDebtParams {
                            initial_debt: position.debt_value,
                            net_debt: position.debt_value,
                            amount_repaid: position.repaid_debt(remaining_value),
                        },
                    }
                }
            },
        }
    }

    /// How much of the limit order of the position of `account` has been
    /// filled; `FILLED` where the account has no limit position.
    pub open spec fn position_status(self, account: Subaccount) -> PositionStatus {
        if !self.positions.contains_key(account) {
            PositionStatus::FILLED
        } else {
            match self.positions[account].order_type {
                PositionOrderType::Market => PositionStatus::FILLED,
                PositionOrderType::Limit(order) => {
                    let (book, received, remaining) = self.book.close_order(order);
                    if received == 0 {
                        PositionStatus::UNFILLED
                    } else if remaining > 0 {
                        PositionStatus::PARTIAL
                    } else {
                        PositionStatus::FILLED
                    }
                },
            }
        }
    }

    /// Whether the limit position of `account` can be converted without
    /// overflow.
    pub open spec fn convert_account_fits(self, account: Subaccount, read: bool) -> bool {
        self.positions.contains_key(account) ==> match self.positions[account].order_type {
            PositionOrderType::Market => true,
            PositionOrderType::Limit(order) => {
                &&& self.book.close_fits(order)
                &&& !read ==> self.conversion_fits(
                    self.positions[account],
                    self.book.close_order(order).2,
                )
            },
        }
    }

    /// The market after the limit position of `account` was converted into
    /// a market position of what its order was filled with. Nothing
    /// changes where the account has no limit position, or where the
    /// status is only read.
    pub open spec fn converted_account(self, account: Subaccount, read: bool, now: Time)
        -> MarketView {
        if read || !self.positions.contains_key(account) {
            self
        } else {
            let position = self.positions[account];
            match position.order_type {
                PositionOrderType::Market => self,
                PositionOrderType::Limit(order) => {
                    let (book, received, remaining) = self.book.close_order(order);
                    let remaining_value = Self::limit_remaining_value(position, remaining)
                        as Amount;
                    MarketView {
                        book,
                        funding: self.funding.added(
                            (position.collateral_value + position.debt_value
                                - remaining_value) as Amount,
                            position.long,
                        ),
                        positions: self.positions.insert(
                            account,
                            position.converted(remaining_value, self.funding, now),
                        ),
                        ..self
                    }
                },
            }
        }
    }
}

/// Whether `tick` is among `ticks`.
pub fn contains_tick(ticks: &Vec<Tick>, tick: Tick) -> (found: bool)
    ensures
        found == ticks@.contains(tick),
{
    let mut index: usize = 0;
    while index < ticks.len()
        invariant
            index <= ticks@.len(),
            forall|i: int| 0 <= i < index ==> ticks@[i] != tick,
        decreases ticks@.len() - index,
    {
        if ticks[index] == tick {
            return true;
        }
        index = index + 1;
    }
    false
}

/// What is left of two amounts that were converted into the base at a tick
/// converts back into no more than the two amounts together.
pub proof fn lemma_remaining_value_bounded(
    collateral_value: nat,
    debt_value: nat,
    remaining: nat,
    tick: nat,
)
    requires
        remaining <= equivalent(collateral_value, tick, true) + equivalent(debt_value, tick, true),
    ensures
        equivalent(remaining, tick, false) <= collateral_value + debt_value,
        remaining <= collateral_value + debt_value,
{
    lemma_price_bounds(tick);
    lemma_equivalent_round_trip(collateral_value, tick, true);
    lemma_equivalent_round_trip(debt_value, tick, true);
    lemma_equivalent_range(collateral_value, tick);
    lemma_equivalent_range(debt_value, tick);
    let a = equivalent(collateral_value, tick, true);
    let b = equivalent(debt_value, tick, true);
    let p = tick_price(tick);
    assert(remaining * p / 1_000_000_000 <= collateral_value + debt_value) by (nonlinear_arith)
        requires
            remaining <= a + b,
            a * p <= collateral_value * 1_000_000_000,
            b * p <= debt_value * 1_000_000_000,
    {
        assert(remaining * p <= (a + b) * p);
        assert((a + b) * p == a * p + b * p);
        assert((collateral_value + debt_value) * 1_000_000_000 == collateral_value * 1_000_000_000
            + debt_value * 1_000_000_000);
        assert((collateral_value + debt_value) * 1_000_000_000 / 1_000_000_000 == collateral_value
            + debt_value);
    }
}

impl Market {
    /// The last tick of a walk: the caller's limit brought onto the grid,
    /// or the default horizon from `from`.
    pub fn _stopping_tick(&self, max_tick: Option<Tick>, from: Tick, buy: bool) -> (stop: Tick)
        requires
            max_tick is Some ==> self@.details.tick_spacing > 0,
        ensures
            stop == self@.stopping_tick(max_tick, from, buy),
    {
        match max_tick {
            Some(tick) => _compressed_tick(tick, self.market_details.tick_spacing),
            None => _def_max_tick(from, buy),
        }
    }

    /// The best offer to cache after a swap that ended at `resulting_tick`:
    /// the nearest offer from there within the default horizon, or zero.
    fn next_offer_after(&self, resulting_tick: Tick, buy: bool) -> (next: Tick)
        ensures
            next == (match self@.book.best_offer(
                buy,
                resulting_tick,
                def_max_tick(resulting_tick, buy),
            ) {
                Some(tick) => tick,
                None => 0,
            }),
    {
        let limit = _def_max_tick(resulting_tick, buy);
        match self._get_next_best_offer_tick(buy, resulting_tick, limit) {
            Some(tick) => tick,
            None => 0,
        }
    }

    /// Whether a limit position can be opened at `now`.
    pub fn _can_open_limit(
        &self,
        long: bool,
        collateral_value: Amount,
        debt_value: Amount,
        entry_tick: Tick,
        now: Time,
    ) -> (fits: bool)
        ensures
            fits == self@.open_limit_fits(long, collateral_value, debt_value, entry_tick, now),
    {
        let cached = if long {
            self.lowest_sell_offer
        } else {
            self.highest_buy_offer
        };
        let crosses = cached != 0 && if long {
            entry_tick >= cached
        } else {
            entry_tick <= cached
        };
        if crosses {
            return true;
        }
        if collateral_value > u128::MAX - debt_value {
            return false;
        }
        let order_size = if long {
            collateral_value + debt_value
        } else {
            if !_equivalent_fits(collateral_value, entry_tick, true) || !_equivalent_fits(
                debt_value,
                entry_tick,
                true,
            ) {
                return false;
            }
            proof {
                lemma_equivalent_range(collateral_value as nat, entry_tick as nat);
                lemma_equivalent_range(debt_value as nat, entry_tick as nat);
            }
            _equivalent(collateral_value, entry_tick, true) + _equivalent(
                debt_value,
                entry_tick,
                true,
            )
        };
        if order_size == 0 {
            return false;
        }
        match self.ticks_details.get(entry_tick) {
            None => now as u128 > _retired_floor(&self.integrals_bitmaps),
            Some(details) => {
                let bounds = details.liq_bounds;
                bounds.upper_bound >= bounds.lower_bound && order_size <= u128::MAX
                    - bounds.upper_bound
            },
        }
    }

    /// Whether the limit order of `position` can be turned into a market
    /// position without overflow, with `remaining` of it unfilled.
    fn can_convert(&self, position: &PositionParameters, remaining: Amount) -> (fits: bool)
        ensures
            fits == self@.conversion_fits(*position, remaining),
    {
        let remaining_value = if position.long {
            remaining
        } else {
            if !_equivalent_fits(remaining, position.entry_tick, false) {
                return false;
            }
            proof {
                lemma_equivalent_in_range(remaining as nat, position.entry_tick as nat, false);
            }
            _equivalent(remaining, position.entry_tick, false)
        };
        if position.collateral_value > u128::MAX - position.debt_value {
            return false;
        }
        let whole = position.collateral_value + position.debt_value;
        if remaining_value > whole {
            return false;
        }
        self.funding_rate_tracker.can_add_volume(whole - remaining_value, position.long)
    }

    /// Whether a limit position can be closed without overflow.
    pub fn _can_close_limit(&self, position: &PositionParameters) -> (fits: bool)
        ensures
            fits == self@.close_limit_fits(*position),
    {
        match position.order_type {
            PositionOrderType::Market => true,
            PositionOrderType::Limit(order) => {
                if !_equivalent_fits(order.order_size, order.ref_tick, order.buy) {
                    return false;
                }
                match self.ticks_details.get(order.ref_tick) {
                    None => {
                        proof {
                            lemma_equivalent_in_range(
                                order.order_size as nat,
                                order.ref_tick as nat,
                                order.buy,
                            );
                        }
                        let received = _equivalent(order.order_size, order.ref_tick, order.buy);
                        received == 0 || self.can_convert(position, 0)
                    },
                    Some(details) => {
                        if !order_closes_on(&order, &details) {
                            return false;
                        }
                        let mut record = details;
                        let (received, remaining) = crate::corelib::order_lib::Order::_closing_update(
                            &order,
                            &mut record,
                        );
                        received == 0 || self.can_convert(position, remaining)
                    },
                }
            },
        }
    }

    /// Whether the limit position of `account` can be converted without
    /// overflow.
    pub fn _can_convert_account(&self, account: &Subaccount, read: bool) -> (fits: bool)
        ensures
            fits == self@.convert_account_fits(*account, read),
    {
        let position = match self._get_account_position(account) {
            Some(position) => position,
            None => {
                return true;
            },
        };
        match position.order_type {
            PositionOrderType::Market => true,
            PositionOrderType::Limit(order) => {
                if !_equivalent_fits(order.order_size, order.ref_tick, order.buy) {
                    return false;
                }
                match self.ticks_details.get(order.ref_tick) {
                    None => read || self.can_convert(&position, 0),
                    Some(details) => {
                        if !order_closes_on(&order, &details) {
                            return false;
                        }
                        let mut record = details;
                        let (_, remaining) = crate::corelib::order_lib::Order::_closing_update(
                            &order,
                            &mut record,
                        );
                        read || self.can_convert(&position, remaining)
                    },
                }
            },
        }
    }

    /// Whether a market position can be opened without overflow, on a book
    /// that is in order.
    pub fn _can_open_market(
        &self,
        long: bool,
        collateral_value: Amount,
        debt_value: Amount,
        max_tick: Option<Tick>,
    ) -> (fits: bool)
        requires
            self@.book.wf(),
        ensures
            fits == self@.open_market_fits(long, collateral_value, debt_value, max_tick),
    {
        if max_tick.is_some() && self.market_details.tick_spacing == 0 {
            return false;
        }
        if collateral_value > u128::MAX - debt_value {
            return false;
        }
        let cached = if long {
            self.lowest_sell_offer
        } else {
            self.highest_buy_offer
        };
        let stopping_tick = self._stopping_tick(max_tick, cached, long);
        let starting_tick = if long {
            cached
        } else {
            match self._get_next_best_offer_tick(false, cached, stopping_tick) {
                Some(tick) => tick,
                None => {
                    return true;
                },
            }
        };
        let order_size = if long {
            collateral_value + debt_value
        } else {
            if !_equivalent_fits(collateral_value, starting_tick, true) || !_equivalent_fits(
                debt_value,
                starting_tick,
                true,
            ) {
                return false;
            }
            proof {
                lemma_equivalent_range(collateral_value as nat, starting_tick as nat);
                lemma_equivalent_range(debt_value as nat, starting_tick as nat);
            }
            _equivalent(collateral_value, starting_tick, true) + _equivalent(
                debt_value,
                starting_tick,
                true,
            )
        };
        if !_swap_fits(long, starting_tick, stopping_tick, order_size) {
            return false;
        }
        proof {
            lemma_swap_conserves(self@.book, long, starting_tick, stopping_tick, order_size);
        }
        let (amount_out, amount_remaining, _) = _peek_swap(
            long,
            starting_tick,
            stopping_tick,
            order_size,
            &self.integrals_bitmaps,
            &self.ticks_details,
        );
        let position_value = if long {
            collateral_value + debt_value - amount_remaining
        } else {
            amount_out
        };
        self.funding_rate_tracker.can_add_volume(position_value, long)
    }

    /// Whether a market position can be closed without overflow, on a book
    /// that is in order.
    pub fn _can_close_market(
        &self,
        position: &PositionParameters,
        max_tick: Option<Tick>,
        now: Time,
    ) -> (fits: bool)
        requires
            self@.book.wf(),
        ensures
            fits == self@.close_market_fits(*position, max_tick, now),
    {
        let long = position.long;
        if !self.funding_rate_tracker.can_remove_volume(position.volume_share, long) {
            return false;
        }
        if max_tick.is_some() && self.market_details.tick_spacing == 0 {
            return false;
        }
        let mut tracker = self.funding_rate_tracker;
        let realised_value = tracker.remove_volume(position.volume_share, long);
        let order_size = if long {
            if !_equivalent_fits(realised_value, position.entry_tick, true) {
                return false;
            }
            proof {
                lemma_equivalent_range(realised_value as nat, position.entry_tick as nat);
            }
            _equivalent(realised_value, position.entry_tick, true)
        } else {
            realised_value
        };
        let buy = !long;
        let cached = if buy {
            self.lowest_sell_offer
        } else {
            self.highest_buy_offer
        };
        let stopping_tick = self._stopping_tick(max_tick, cached, buy);
        let starting_tick = match self._get_next_best_offer_tick(buy, cached, stopping_tick) {
            Some(tick) => tick,
            None => {
                return true;
            },
        };
        if !_swap_fits(buy, starting_tick, stopping_tick, order_size) {
            return false;
        }
        if !_can_position_interest(position, now) {
            return false;
        }
        let interest_value = _position_interest(position, now);
        if position.debt_value > u128::MAX - interest_value {
            return false;
        }
        let net_debt = position.debt_value + interest_value;
        let (amount_out, amount_remaining, _) = _peek_swap(
            buy,
            starting_tick,
            stopping_tick,
            order_size,
            &self.integrals_bitmaps,
            &self.ticks_details,
        );
        let amount_out_value = if long {
            amount_out
        } else {
            if !_equivalent_fits(amount_out, starting_tick, false) {
                return false;
            }
            proof {
                lemma_equivalent_in_range(amount_out as nat, starting_tick as nat, false);
            }
            _equivalent(amount_out, starting_tick, false)
        };
        if amount_remaining > 0 {
            let amount_remaining_value = if long {
                if !_equivalent_fits(amount_remaining, position.entry_tick, false) {
                    return false;
                }
                proof {
                    lemma_equivalent_in_range(
                        amount_remaining as nat,
                        position.entry_tick as nat,
                        false,
                    );
                }
                _equivalent(amount_remaining, position.entry_tick, false)
            } else {
                amount_remaining
            };
            tracker.can_add_volume(amount_remaining_value, long)
        } else {
            amount_out_value >= net_debt
        }
    }

    /// Opens a long limit position: places a buy order of collateral and
    /// debt at the entry tick, unless it would trade at once.
    pub fn _open_limit_long_position(
        &mut self,
        account: Subaccount,
        owner: Principal,
        collateral_value: Amount,
        debt_value: Amount,
        interest_rate: u32,
        entry_tick: Tick,
        now: Time,
    ) -> (opened: Option<(PositionParameters, Vec<Tick>)>)
        requires
            old(self)@.open_limit_fits(true, collateral_value, debt_value, entry_tick, now),
        ensures
            final(self)@ == old(self)@.opened_limit(
                account,
                owner,
                true,
                collateral_value,
                debt_value,
                interest_rate,
                entry_tick,
                now,
            ).0,
            match opened {
                Some((position, crossed)) => Some(position) == old(self)@.opened_limit(
                    account,
                    owner,
                    true,
                    collateral_value,
                    debt_value,
                    interest_rate,
                    entry_tick,
                    now,
                ).1 && crossed@.len() == 0,
                None => old(self)@.limit_crosses(true, entry_tick),
            },
    {
        let lowest_sell_offer_tick = self._get_lowest_sell_offer_tick();
        if lowest_sell_offer_tick != 0 && entry_tick >= lowest_sell_offer_tick {
            return None;
        }
        let (collateral, debt) = (collateral_value, debt_value);
        let mut order = LimitOrder::new(collateral + debt, entry_tick, true);
        self._open_order(&mut order, now);
        let position = PositionParameters {
            owner,
            long: true,
            entry_tick,
            collateral_value,
            debt_value,
            interest_rate,
            volume_share: 0,
            order_type: PositionOrderType::Limit(order),
            timestamp: 0,
        };
        self._insert_account_position(account, position);
        let highest_buy_offer_tick = self._get_highest_buy_offer_tick();
        if highest_buy_offer_tick == 0 {
            self._update_highest_buy_offer_tick(entry_tick);
        } else {
            let active_highest_buy_offer_tick = self._get_next_best_offer_tick(
                false,
                highest_buy_offer_tick,
                entry_tick,
            );
            let nearest = match active_highest_buy_offer_tick {
                Some(tick) => tick,
                None => entry_tick,
            };
            if nearest == entry_tick {
                self._update_highest_buy_offer_tick(entry_tick);
            }
        }
        Some((position, Vec::new()))
    }

    /// Opens a short limit position: places a sell order of collateral and
    /// debt, converted into the base at the entry tick, unless it would
    /// trade at once.
    pub fn _open_limit_short_position(
        &mut self,
        account: Subaccount,
        owner: Principal,
        collateral_value: Amount,
        debt_value: Amount,
        interest_rate: u32,
        entry_tick: Tick,
        now: Time,
    ) -> (opened: Option<(PositionParameters, Vec<Tick>)>)
        requires
            old(self)@.open_limit_fits(false, collateral_value, debt_value, entry_tick, now),
        ensures
            final(self)@ == old(self)@.opened_limit(
                account,
                owner,
                false,
                collateral_value,
                debt_value,
                interest_rate,
                entry_tick,
                now,
            ).0,
            match opened {
                Some((position, crossed)) => Some(position) == old(self)@.opened_limit(
                    account,
                    owner,
                    false,
                    collateral_value,
                    debt_value,
                    interest_rate,
                    entry_tick,
                    now,
                ).1 && crossed@.len() == 0,
                None => old(self)@.limit_crosses(false, entry_tick),
            },
    {
        let highest_buy_offer_tick = self._get_highest_buy_offer_tick();
        if highest_buy_offer_tick != 0 && entry_tick <= highest_buy_offer_tick {
            return None;
        }
        proof {
            lemma_equivalent_range(collateral_value as nat, entry_tick as nat);
            lemma_equivalent_range(debt_value as nat, entry_tick as nat);
        }
        let (collateral, debt) = (
            _equivalent(collateral_value, entry_tick, true),
            _equivalent(debt_value, entry_tick, true),
        );
        let mut order = LimitOrder::new(collateral + debt, entry_tick, false);
        self._open_order(&mut order, now);
        let position = PositionParameters {
            owner,
            long: false,
            entry_tick,
            collateral_value,
            debt_value,
            interest_rate,
            volume_share: 0,
            order_type: PositionOrderType::Limit(order),
            timestamp: 0,
        };
        self._insert_account_position(account, position);
        let lowest_sell_offer_tick = self._get_lowest_sell_offer_tick();
        if lowest_sell_offer_tick == 0 {
            self._update_lowest_sell_offer_tick(entry_tick);
        } else {
            let active_lowest_sell_offer_tick = self._get_next_best_offer_tick(
                true,
                lowest_sell_offer_tick,
                entry_tick,
            );
            let nearest = match active_lowest_sell_offer_tick {
                Some(tick) => tick,
                None => entry_tick,
            };
            if nearest == entry_tick {
                self._update_lowest_sell_offer_tick(entry_tick);
            }
        }
        Some((position, Vec::new()))
    }

    /// Opens a long market position: buys with collateral and debt from the
    /// lowest sell upwards. What the swap leaves unused goes back, debt
    /// first.
    pub fn _open_market_long_position(
        &mut self,
        account: Subaccount,
        owner: Principal,
        collateral_value: Amount,
        debt_value: Amount,
        interest_rate: u32,
        max_tick: Option<Tick>,
        now: Time,
    ) -> (opened: Option<(PositionParameters, Vec<Tick>)>)
        requires
            old(self)@.open_market_fits(true, collateral_value, debt_value, max_tick),
        ensures
            final(self)@ == old(self)@.opened_market(
                account,
                owner,
                true,
                collateral_value,
                debt_value,
                interest_rate,
                max_tick,
                now,
            ).0,
            match opened {
                Some((position, crossed)) => Some((position, crossed@)) == old(self)@.opened_market(
                    account,
                    owner,
                    true,
                    collateral_value,
                    debt_value,
                    interest_rate,
                    max_tick,
                    now,
                ).1 && position.collateral_value <= collateral_value && position.debt_value
                    <= debt_value,
                None => false,
            },
    {
        let (collateral, debt) = (collateral_value, debt_value);
        let lowest_sell_offer_tick = self._get_lowest_sell_offer_tick();
        let stopping_tick = self._stopping_tick(max_tick, lowest_sell_offer_tick, true);
        proof {
            lemma_swap_conserves(
                self@.book,
                true,
                lowest_sell_offer_tick,
                stopping_tick,
                (collateral + debt) as Amount,
            );
        }
        let (_amount_out, amount_remaining_value, resulting_tick, crossed_ticks) = self._swap(
            collateral + debt,
            true,
            lowest_sell_offer_tick,
            stopping_tick,
        );
        let (un_used_debt_value, un_used_collateral_value) = if amount_remaining_value
            >= debt_value {
            (debt_value, amount_remaining_value - debt_value)
        } else {
            (amount_remaining_value, 0)
        };
        let resulting_debt_value = debt_value - un_used_debt_value;
        let resulting_collateral_value = collateral_value - un_used_collateral_value;
        let position_value = collateral_value + debt_value - amount_remaining_value;
        let volume_share = self._calc_position_volume_share(position_value, true);
        let position = PositionParameters {
            owner,
            long: true,
            entry_tick: resulting_tick,
            collateral_value: resulting_collateral_value,
            debt_value: resulting_debt_value,
            interest_rate,
            volume_share,
            order_type: PositionOrderType::Market,
            timestamp: now,
        };
        if resulting_tick > lowest_sell_offer_tick || contains_tick(
            &crossed_ticks,
            lowest_sell_offer_tick,
        ) {
            let next_best = self.next_offer_after(resulting_tick, true);
            self._update_lowest_sell_offer_tick(next_best);
        }
        self._insert_account_position(account, position);
        Some((position, crossed_ticks))
    }

    /// Opens a short market position: sells collateral and debt, converted
    /// into the base at the nearest buy, from there downwards. What the
    /// swap leaves unused goes back, debt first.
    pub fn _open_market_short_position(
        &mut self,
        account: Subaccount,
        owner: Principal,
        collateral_value: Amount,
        debt_value: Amount,
        interest_rate: u32,
        max_tick: Option<Tick>,
        now: Time,
    ) -> (opened: Option<(PositionParameters, Vec<Tick>)>)
        requires
            old(self)@.open_market_fits(false, collateral_value, debt_value, max_tick),
        ensures
            final(self)@ == old(self)@.opened_market(
                account,
                owner,
                false,
                collateral_value,
                debt_value,
                interest_rate,
                max_tick,
                now,
            ).0,
            match opened {
                Some((position, crossed)) => Some((position, crossed@)) == old(self)@.opened_market(
                    account,
                    owner,
                    false,
                    collateral_value,
                    debt_value,
                    interest_rate,
                    max_tick,
                    now,
                ).1 && position.collateral_value <= collateral_value && position.debt_value
                    <= debt_value,
                None => old(self)@.market_start(false, max_tick) is None,
            },
    {
        let highest_buy_offer_tick = self._get_highest_buy_offer_tick();
        let stopping_tick = self._stopping_tick(max_tick, highest_buy_offer_tick, false);
        let starting_tick = match self._get_next_best_offer_tick(
            false,
            highest_buy_offer_tick,
            stopping_tick,
        ) {
            Some(tick) => tick,
            None => {
                return None;
            },
        };
        proof {
            lemma_equivalent_range(collateral_value as nat, starting_tick as nat);
            lemma_equivalent_range(debt_value as nat, starting_tick as nat);
        }
        let (collateral, debt) = (
            _equivalent(collateral_value, starting_tick, true),
            _equivalent(debt_value, starting_tick, true),
        );
        proof {
            lemma_swap_conserves(
                self@.book,
                false,
                starting_tick,
                stopping_tick,
                (collateral + debt) as Amount,
            );
        }
        let (amount_out_value, amount_remaining, resulting_tick, crossed_ticks) = self._swap(
            collateral + debt,
            false,
            starting_tick,
            stopping_tick,
        );
        proof {
            lemma_remaining_value_bounded(
                collateral_value as nat,
                debt_value as nat,
                amount_remaining as nat,
                starting_tick as nat,
            );
            let price = tick_price(starting_tick as nat);
            let span = ticks_left(false, starting_tick, stopping_tick);
            let size = (collateral + debt) as nat;
            assert(amount_remaining * price <= (size + span) * price) by (nonlinear_arith)
                requires
                    amount_remaining <= size,
                    span >= 0,
                    price >= 0,
            ;
        }
        let amount_remaining_value = _equivalent(amount_remaining, starting_tick, false);
        let (un_used_debt_value, un_used_collateral_value) = if amount_remaining_value
            >= debt_value {
            (debt_value, amount_remaining_value - debt_value)
        } else {
            (amount_remaining_value, 0)
        };
        let resulting_debt_value = debt_value - un_used_debt_value;
        let resulting_collateral_value = collateral_value - un_used_collateral_value;
        let position_value = amount_out_value;
        let volume_share = self._calc_position_volume_share(position_value, false);
        let position = PositionParameters {
            owner,
            long: false,
            entry_tick: resulting_tick,
            collateral_value: resulting_collateral_value,
            debt_value: resulting_debt_value,
            interest_rate,
            volume_share,
            order_type: PositionOrderType::Market,
            timestamp: now,
        };
        if resulting_tick < starting_tick || contains_tick(&crossed_ticks, starting_tick) {
            let next_best = self.next_offer_after(resulting_tick, false);
            self._update_highest_buy_offer_tick(next_best);
        }
        self._insert_account_position(account, position);
        Some((position, crossed_ticks))
    }

    /// Updates a market position after a swap that closed a part of it:
    /// what the swap gave pays the debt with its interest as far as it
    /// goes, and the value that remains is the position's new volume. Gives
    /// the owner's profit and what the vault is told of the debt.
    pub fn _update_market_position_after_swap(
        &mut self,
        position: &mut PositionParameters,
        amount_out_value: Amount,
        amount_remaining_value: Amount,
        interest_value: Amount,
        now: Time,
    ) -> (result: (Amount, ManageDebtParams))
        requires
            old(position).update_fits(amount_remaining_value, interest_value, old(self)@.funding),
        ensures
            *final(position) == old(position).updated(
                amount_out_value,
                amount_remaining_value,
                interest_value,
                old(self)@.funding,
                now,
            ),
            final(self)@ == (MarketView {
                funding: old(self)@.funding.added(amount_remaining_value, old(position).long),
                ..old(self)@
            }),
            result.0 == PositionParameters::profit_after(
                amount_out_value,
                (old(position).debt_value + interest_value) as Amount,
            ),
            result.1 == old(position).debt_update(amount_out_value, interest_value),
    {
        let init_debt_value = position.debt_value;
        let net_debt_value = init_debt_value + interest_value;
        let profit;
        let manage_debt_params;
        if amount_out_value < net_debt_value {
            position.debt_value = net_debt_value - amount_out_value;
            profit = 0;
            manage_debt_params = ManageDebtParams::init(
                init_debt_value,
                net_debt_value,
                amount_out_value,
            );
        } else {
            position.debt_value = 0;
            position.collateral_value = amount_remaining_value;
            profit = amount_out_value - net_debt_value;
            manage_debt_params = ManageDebtParams::init(
                init_debt_value,
                net_debt_value,
                net_debt_value,
            );
        }
        let new_volume_share = self._calc_position_volume_share(
            amount_remaining_value,
            position.long,
        );
        position.volume_share = new_volume_share;
        if position.timestamp as u128 + ONE_HOUR as u128 > now as u128 {
            position.timestamp = now;
        }
        (profit, manage_debt_params)
    }

    /// Turns a limit position into a market position of what its order was
    /// filled with: the unfilled value first repays debt, then leaves as
    /// collateral. Gives the collateral that leaves and what the vault is
    /// told of the debt.
    pub fn _convert_limit_position(
        &mut self,
        position: &mut PositionParameters,
        amount_remaining_value: Amount,
        now: Time,
    ) -> (result: (Amount, ManageDebtParams))
        requires
            old(position).convert_fits(amount_remaining_value, old(self)@.funding),
        ensures
            *final(position) == old(position).converted(
                amount_remaining_value,
                old(self)@.funding,
                now,
            ),
            final(self)@ == (MarketView {
                funding: old(self)@.funding.added(
                    (old(position).collateral_value + old(position).debt_value
                        - amount_remaining_value) as Amount,
                    old(position).long,
                ),
                ..old(self)@
            }),
            result.0 == old(position).removed_collateral(amount_remaining_value),
            result.1 == (ManageDebtParams {
                initial_debt: old(position).debt_value,
                net_debt: old(position).debt_value,
                amount_repaid: old(position).repaid_debt(amount_remaining_value),
            }),
    {
        let initial_collateral_value: u128 = position.collateral_value;
        let initial_debt_value = position.debt_value;
        let removed_collateral;
        if amount_remaining_value > initial_debt_value {
            removed_collateral = amount_remaining_value - initial_debt_value;
            position.debt_value = 0;
            position.collateral_value = position.collateral_value - removed_collateral;
        } else {
            removed_collateral = 0;
            position.debt_value = position.debt_value - amount_remaining_value;
        }
        let remaining_order_value = initial_collateral_value + initial_debt_value
            - amount_remaining_value;
        let volume_share = self._calc_position_volume_share(remaining_order_value, position.long);
        position.volume_share = volume_share;
        position.order_type = PositionOrderType::Market;
        position.timestamp = now;
        let manage_debt_params = ManageDebtParams::init(
            initial_debt_value,
            initial_debt_value,
            initial_debt_value - position.debt_value,
        );
        (removed_collateral, manage_debt_params)
    }

    /// Closes a long market position: sells the base that its realised
    /// value bought at the entry tick, from the nearest buy downwards.
    /// Gives the owner's profit, the ticks that the swap emptied and what
    /// the vault is told of the debt.
    pub fn _close_market_long_position(
        &mut self,
        account: Subaccount,
        position: &mut PositionParameters,
        max_tick: Option<Tick>,
        now: Time,
    ) -> (result: (Amount, Vec<Tick>, ManageDebtParams))
        requires
            old(position).long,
            old(self)@.close_market_fits(*old(position), max_tick, now),
        ensures
            ({
                let closed = old(self)@.closed_market(account, *old(position), max_tick, now);
                &&& final(self)@ == closed.market
                &&& *final(position) == closed.position
                &&& result.0 == closed.profit
                &&& result.1@ == closed.crossed_ticks
                &&& result.2 == closed.debt_params
            }),
    {
        let position_realised_value = self._calc_position_realised_value(
            position.volume_share,
            true,
        );
        let realised_position_size = _equivalent(
            position_realised_value,
            position.entry_tick,
            true,
        );
        let highest_buy_offer_tick = self._get_highest_buy_offer_tick();
        let stopping_tick = self._stopping_tick(max_tick, highest_buy_offer_tick, false);
        let starting_tick = match self._get_next_best_offer_tick(
            false,
            highest_buy_offer_tick,
            stopping_tick,
        ) {
            Some(tick) => tick,
            None => {
                return (
                    0,
                    Vec::new(),
                    ManageDebtParams::init(position.debt_value, position.debt_value, 0),
                );
            },
        };
        proof {
            lemma_swap_conserves(
                self@.book,
                false,
                starting_tick,
                stopping_tick,
                realised_position_size,
            );
        }
        let (amount_out_value, amount_remaining, resulting_tick, crossed_ticks) = self._swap(
            realised_position_size,
            false,
            starting_tick,
            stopping_tick,
        );
        let interest_value = _position_interest(position, now);
        let profit: u128;
        let manage_debt_params: ManageDebtParams;
        if amount_remaining > 0 {
            proof {
                lemma_equivalent_in_range(
                    amount_remaining as nat,
                    position.entry_tick as nat,
                    false,
                );
            }
            let amount_remaining_value = _equivalent(amount_remaining, position.entry_tick, false);
            let (gain, params) = self._update_market_position_after_swap(
                position,
                amount_out_value,
                amount_remaining_value,
                interest_value,
                now,
            );
            profit = gain;
            manage_debt_params = params;
            self._insert_account_position(account, *position);
        } else {
            let net_debt = position.debt_value + interest_value;
            profit = amount_out_value - net_debt;
            manage_debt_params = ManageDebtParams::init(position.debt_value, net_debt, net_debt);
            self._remove_account_position(&account);
        }
        if resulting_tick < starting_tick || contains_tick(&crossed_ticks, starting_tick) {
            let next_best = self.next_offer_after(resulting_tick, false);
            self._update_highest_buy_offer_tick(next_best);
        }
        (profit, crossed_ticks, manage_debt_params)
    }

    /// Closes a short market position: buys back with its realised value,
    /// from the nearest sell upwards. Gives the owner's profit, the ticks
    /// that the swap emptied and what the vault is told of the debt.
    pub fn _close_market_short_position(
        &mut self,
        account: Subaccount,
        position: &mut PositionParameters,
        max_tick: Option<Tick>,
        now: Time,
    ) -> (result: (Amount, Vec<Tick>, ManageDebtParams))
        requires
            !old(position).long,
            old(self)@.close_market_fits(*old(position), max_tick, now),
        ensures
            ({
                let closed = old(self)@.closed_market(account, *old(position), max_tick, now);
                &&& final(self)@ == closed.market
                &&& *final(position) == closed.position
                &&& result.0 == closed.profit
                &&& result.1@ == closed.crossed_ticks
                &&& result.2 == closed.debt_params
            }),
    {
        let position_realised_value = self._calc_position_realised_value(
            position.volume_share,
            false,
        );
        let realised_position_size = position_realised_value;
        let lowest_sell_offer_tick = self._get_lowest_sell_offer_tick();
        let stopping_tick = self._stopping_tick(max_tick, lowest_sell_offer_tick, true);
        let starting_tick = match self._get_next_best_offer_tick(
            true,
            lowest_sell_offer_tick,
            stopping_tick,
        ) {
            Some(tick) => tick,
            None => {
                return (
                    0,
                    Vec::new(),
                    ManageDebtParams::init(position.debt_value, position.debt_value, 0),
                );
            },
        };
        let (amount_out, amount_remaining_value, resulting_tick, crossed_ticks) = self._swap(
            realised_position_size,
            true,
            starting_tick,
            stopping_tick,
        );
        proof {
            lemma_equivalent_in_range(amount_out as nat, starting_tick as nat, false);
        }
        let amount_out_value = _equivalent(amount_out, starting_tick, false);
        let interest_value = _position_interest(position, now);
        let profit: u128;
        let manage_debt_params: ManageDebtParams;
        if amount_remaining_value > 0 {
            let (gain, params) = self._update_market_position_after_swap(
                position,
                amount_out_value,
                amount_remaining_value,
                interest_value,
                now,
            );
            profit = gain;
            manage_debt_params = params;
            self._insert_account_position(account, *position);
        } else {
            let net_debt = position.debt_value + interest_value;
            profit = amount_out_value - net_debt;
            manage_debt_params = ManageDebtParams::init(position.debt_value, net_debt, net_debt);
            self._remove_account_position(&account);
        }
        if resulting_tick > starting_tick || contains_tick(&crossed_ticks, starting_tick) {
            let next_best = self.next_offer_after(resulting_tick, true);
            self._update_lowest_sell_offer_tick(next_best);
        }
        (profit, crossed_ticks, manage_debt_params)
    }

    /// Closes a long limit position. Gives the collateral that leaves the
    /// position and what the vault is told of the debt.
    pub fn _close_limit_long_position(
        &mut self,
        account: Subaccount,
        position: &mut PositionParameters,
        now: Time,
    ) -> (result: (Amount, ManageDebtParams))
        requires
            old(position).long,
            old(self)@.close_limit_fits(*old(position)),
        ensures
            ({
                let closed = old(self)@.closed_limit(account, *old(position), now);
                &&& final(self)@ == closed.market
                &&& *final(position) == closed.position
                &&& result.0 == closed.removed_collateral
                &&& result.1 == closed.debt_params
            }),
    {
        let order = match position.order_type {
            PositionOrderType::Limit(order) => order,
            PositionOrderType::Market => {
                return (0, ManageDebtParams::init(0, 0, 0));
            },
        };
        let (amount_received, amount_remaining_value) = self._close_order(&order);
        if amount_received == 0 {
            let result = (
                position.collateral_value,
                ManageDebtParams::init(
                    position.debt_value,
                    position.debt_value,
                    position.debt_value,
                ),
            );
            self._remove_account_position(&account);
            result
        } else {
            let result = self._convert_limit_position(position, amount_remaining_value, now);
            self._insert_account_position(account, *position);
            result
        }
    }

    /// Closes a short limit position. Gives the collateral that leaves the
    /// position and what the vault is told of the debt.
    pub fn _close_limit_short_position(
        &mut self,
        account: Subaccount,
        position: &mut PositionParameters,
        now: Time,
    ) -> (result: (Amount, ManageDebtParams))
        requires
            !old(position).long,
            old(self)@.close_limit_fits(*old(position)),
        ensures
            ({
                let closed = old(self)@.closed_limit(account, *old(position), now);
                &&& final(self)@ == closed.market
                &&& *final(position) == closed.position
                &&& result.0 == closed.removed_collateral
                &&& result.1 == closed.debt_params
            }),
    {
        let order = match position.order_type {
            PositionOrderType::Limit(order) => order,
            PositionOrderType::Market => {
                return (0, ManageDebtParams::init(0, 0, 0));
            },
        };
        let (amount_received, amount_remaining) = self._close_order(&order);
        if amount_received == 0 {
            let result = (
                position.collateral_value,
                ManageDebtParams::init(
                    position.debt_value,
                    position.debt_value,
                    position.debt_value,
                ),
            );
            self._remove_account_position(&account);
            result
        } else {
            let amount_remaining_value = _equivalent(amount_remaining, position.entry_tick, false);
            let result = self._convert_limit_position(position, amount_remaining_value, now);
            self._insert_account_position(account, *position);
            result
        }
    }

    /// How much of the limit order of the position of `account` has been
    /// filled, as the book shows it; the book is left as it is.
    pub fn _position_status(&self, account: &Subaccount) -> (status: PositionStatus)
        requires
            self@.convert_account_fits(*account, true),
        ensures
            status == self@.position_status(*account),
    {
        let position = match self._get_account_position(account) {
            Some(position) => position,
            None => {
                return PositionStatus::FILLED;
            },
        };
        match position.order_type {
            PositionOrderType::Market => PositionStatus::FILLED,
            PositionOrderType::Limit(order) => {
                let (amount_out, amount_remaining) = match self.ticks_details.get(order.ref_tick) {
                    Some(details) => {
                        let mut record = details;
                        crate::corelib::order_lib::Order::_closing_update(&order, &mut record)
                    },
                    None => {
                        proof {
                            lemma_equivalent_in_range(
                                order.order_size as nat,
                                order.ref_tick as nat,
                                order.buy,
                            );
                        }
                        (_equivalent(order.order_size, order.ref_tick, order.buy), 0)
                    },
                };
                if amount_out == 0 {
                    PositionStatus::UNFILLED
                } else if amount_remaining > 0 {
                    PositionStatus::PARTIAL
                } else {
                    PositionStatus::FILLED
                }
            },
        }
    }

    /// Converts the limit position of `account` into a market position of
    /// what its order was filled with, and gives how much that was. Where
    /// `read` is set, only the status is given and nothing changes. An
    /// account without a limit position is left as it is.
    pub fn _convert_account_limit_position_to_market(
        &mut self,
        account: Subaccount,
        read: bool,
        now: Time,
    ) -> (status: PositionStatus)
        requires
            old(self)@.convert_account_fits(account, read),
        ensures
            status == old(self)@.position_status(account),
            final(self)@ == old(self)@.converted_account(account, read, now),
    {
        if read {
            proof {
                assert(self@.convert_account_fits(account, true));
            }
            return self._position_status(&account);
        }
        let mut position = match self._get_account_position(&account) {
            Some(position) => position,
            None => {
                return PositionStatus::FILLED;
            },
        };
        match position.order_type {
            PositionOrderType::Market => PositionStatus::FILLED,
            PositionOrderType::Limit(order) => {
                let (amount_out, amount_remaining) = self._close_order(&order);
                let position_status = if amount_out == 0 {
                    PositionStatus::UNFILLED
                } else if amount_remaining > 0 {
                    PositionStatus::PARTIAL
                } else {
                    PositionStatus::FILLED
                };
                let amount_remaining_value = if position.long {
                    amount_remaining
                } else {
                    _equivalent(amount_remaining, position.entry_tick, false)
                };
                self._convert_limit_position(&mut position, amount_remaining_value, now);
                self._insert_account_position(account, position);
                position_status
            },
        }
    }
}

} // verus!
