use vstd::prelude::*;
use crate::corelib::bitmap_lib::{_flip_bit, _next_set_bit, lemma_empty_word};
use crate::corelib::constants::_PRICE_FACTOR;
use crate::corelib::order_lib::{
    _retire, flip_mark, lemma_retire, retire, tick_is_marked, word_of, Book,
};
use crate::corelib::price_lib::{
    _equivalent, equivalent, lemma_equivalent_back_fits, lemma_equivalent_range,
    lemma_price_monotone, lemma_price_bounds, tick_price,
};
use crate::corelib::tick_lib::_int_and_dec;
use crate::store::{bitmap_home, tick_home, BitmapStore, TickStore};
use crate::types::{Amount, LiquidityBoundary, Tick, TickDetails, TickState};

verus! {

/// The side of the book that an order of the given direction trades
/// against: a buy takes from sellers, a sell from buyers.
pub open spec fn resting_side(buy: bool) -> TickState {
    if buy {
        TickState::SELL
    } else {
        TickState::BUY
    }
}

/// How many ticks a walk in the given direction has left from `cursor` to
/// `stop`, both included; zero once the cursor is past the stop.
pub open spec fn ticks_left(buy: bool, cursor: Tick, stop: Tick) -> nat {
    if buy {
        if cursor <= stop {
            (stop - cursor + 1) as nat
        } else {
            0
        }
    } else {
        if stop <= cursor {
            (cursor - stop + 1) as nat
        } else {
            0
        }
    }
}

/// Whether an order of `order_size` can be swapped from `init_tick` to
/// `stopping_tick` without overflow. A buy converts its quote at any tick if
/// it converts at all. A sell converts its base at no higher a price than
/// that of the tick it starts from, and may be given one unit more at each
/// tick it crosses than its base is worth there.
pub open spec fn swap_fits(buy: bool, init_tick: Tick, stopping_tick: Tick, order_size: Amount)
    -> bool {
    if buy {
        order_size * _PRICE_FACTOR <= u128::MAX
    } else {
        (order_size + ticks_left(false, init_tick, stopping_tick)) * tick_price(init_tick as nat)
            <= u128::MAX
    }
}

/// What a swap has done so far, or in the end.
pub struct SwapOutcome {
    /// The book as the swap leaves it.
    pub book: Book,
    /// What the taker received, in the unit of the resting side.
    pub amount_out: nat,
    /// What is left of the order, in the taker's own unit.
    pub amount_remaining: nat,
    /// The last tick that the swap took from; the starting tick where it
    /// took from none.
    pub resulting_tick: Tick,
    /// The ticks that the swap emptied, in the order it reached them.
    pub crossed_ticks: Seq<Tick>,
    /// What was received, valued tick by tick in the taker's own unit.
    pub spent: nat,
}

impl Book {
    /// Whether `tick` offers liquidity to an order of the given direction:
    /// it is marked, has a record, and rests on the opposite side.
    pub open spec fn is_offer(self, tick: Tick, buy: bool) -> bool {
        &&& tick_is_marked(self.bitmaps, tick)
        &&& self.ticks.contains_key(tick)
        &&& self.ticks[tick].tick_state == resting_side(buy)
    }

    /// The offer nearest to `start` on the way to `stop`, both included:
    /// upwards for a buy, downwards for a sell.
    pub open spec fn best_offer(self, buy: bool, start: Tick, stop: Tick) -> Option<Tick>
        decreases ticks_left(buy, start, stop),
    {
        if ticks_left(buy, start, stop) == 0 {
            None
        } else if self.is_offer(start, buy) {
            Some(start)
        } else if start == stop {
            None
        } else if buy {
            self.best_offer(buy, (start + 1) as Tick, stop)
        } else {
            self.best_offer(buy, (start - 1) as Tick, stop)
        }
    }

    /// The book after an order of the given direction took `take` from
    /// `tick` without emptying it.
    pub open spec fn fill_part(self, tick: Tick, take: nat) -> Book {
        let details = self.ticks[tick];
        Book {
            ticks: self.ticks.insert(
                tick,
                TickDetails {
                    liq_bounds: LiquidityBoundary {
                        lower_bound: (details.liq_bounds.lower_bound + take) as u128,
                        ..details.liq_bounds
                    },
                    ..details
                },
            ),
            ..self
        }
    }

    /// The book after an order emptied `tick`: the record is destroyed, the
    /// mark inverted, and the time of the record's creation kept.
    pub open spec fn cross(self, tick: Tick) -> Book {
        Book {
            ticks: self.ticks.remove(tick),
            bitmaps: retire(flip_mark(self.bitmaps, tick), self.ticks[tick].created_timestamp),
        }
    }

    /// The outcome of swapping `order_size` in the given direction, from
    /// `init_tick` to `stopping_tick`, both included.
    pub open spec fn swap(
        self,
        buy: bool,
        init_tick: Tick,
        stopping_tick: Tick,
        order_size: Amount,
    ) -> SwapOutcome {
        SwapOutcome {
            book: self,
            amount_out: 0,
            amount_remaining: order_size as nat,
            resulting_tick: init_tick,
            crossed_ticks: Seq::empty(),
            spent: 0,
        }.walk(buy, init_tick, stopping_tick)
    }
}

impl SwapOutcome {
    /// Whether taking from `tick` empties it: what is left of the order,
    /// converted into the resting unit, covers all that rests there.
    pub open spec fn crosses(self, buy: bool, tick: Tick) -> bool {
        equivalent(self.amount_remaining, tick as nat, buy) >= self.book.liquidity_at(tick)
    }

    /// The outcome after taking from the offer at `tick`. Where the order
    /// covers the tick, all that rests there is taken and paid for at the
    /// tick's price, and the tick is crossed. Otherwise the whole rest of
    /// the order is converted and taken.
    pub open spec fn take_at(self, buy: bool, tick: Tick) -> SwapOutcome {
        let available = self.book.liquidity_at(tick);
        let wanted = equivalent(self.amount_remaining, tick as nat, buy);
        if self.crosses(buy, tick) {
            let cost = equivalent(available, tick as nat, !buy);
            SwapOutcome {
                book: self.book.cross(tick),
                amount_out: self.amount_out + available,
                amount_remaining: (self.amount_remaining - cost) as nat,
                resulting_tick: tick,
                crossed_ticks: self.crossed_ticks.push(tick),
                spent: self.spent + cost,
            }
        } else {
            SwapOutcome {
                book: self.book.fill_part(tick, wanted),
                amount_out: self.amount_out + wanted,
                amount_remaining: 0,
                resulting_tick: tick,
                crossed_ticks: self.crossed_ticks,
                spent: self.spent + equivalent(wanted, tick as nat, !buy),
            }
        }
    }

    /// Whether what is left of the order is too little to take anything
    /// from `tick`: it converts into nothing, and something rests there.
    pub open spec fn is_dust_at(self, buy: bool, tick: Tick) -> bool {
        !self.crosses(buy, tick) && equivalent(self.amount_remaining, tick as nat, buy) == 0
    }

    /// The outcome of walking on from `cursor` to `stop`: take from the
    /// nearest offer, and go on behind it while the order has something
    /// left and the tick was crossed. The walk ends where the order is used
    /// up, where no offer is left on the way, where an offer was not
    /// crossed, and where what is left is too little to take anything from
    /// the nearest offer.
    pub open spec fn walk(self, buy: bool, cursor: Tick, stop: Tick) -> SwapOutcome
        decreases ticks_left(buy, cursor, stop),
    {
        if self.amount_remaining == 0 {
            self
        } else {
            match self.book.best_offer(buy, cursor, stop) {
                None => self,
                Some(tick) => {
                    proof {
                        lemma_best_offer(self.book, buy, cursor, stop);
                    }
                    let taken = self.take_at(buy, tick);
                    if self.is_dust_at(buy, tick) {
                        self
                    } else if !self.crosses(buy, tick) || tick == stop {
                        taken
                    } else if buy {
                        taken.walk(buy, (tick + 1) as Tick, stop)
                    } else {
                        taken.walk(buy, (tick - 1) as Tick, stop)
                    }
                },
            }
        }
    }
}

/// The nearest offer is an offer inside the range, and no tick between the
/// start and it is one.
pub proof fn lemma_best_offer(book: Book, buy: bool, start: Tick, stop: Tick)
    ensures
        match book.best_offer(buy, start, stop) {
            Some(tick) => {
                &&& book.is_offer(tick, buy)
                &&& (buy ==> start <= tick <= stop)
                &&& (!buy ==> stop <= tick <= start)
                &&& (forall|other: Tick|
                    (buy && start <= other < tick) || (!buy && tick < other <= start)
                        ==> !#[trigger] book.is_offer(other, buy))
            },
            None => forall|other: Tick|
                (buy && start <= other <= stop) || (!buy && stop <= other <= start)
                    ==> !#[trigger] book.is_offer(other, buy),
        },
    decreases ticks_left(buy, start, stop),
{
    if ticks_left(buy, start, stop) == 0 {
    } else if book.is_offer(start, buy) {
    } else if start == stop {
    } else if buy {
        lemma_best_offer(book, buy, (start + 1) as Tick, stop);
    } else {
        lemma_best_offer(book, buy, (start - 1) as Tick, stop);
    }
}

/// Skipping ticks that offer nothing does not change the nearest offer.
pub proof fn lemma_best_offer_skip(book: Book, buy: bool, start: Tick, next: Tick, stop: Tick)
    requires
        buy ==> start <= next <= stop,
        !buy ==> stop <= next <= start,
        forall|other: Tick|
            (buy && start <= other < next) || (!buy && next < other <= start)
                ==> !#[trigger] book.is_offer(other, buy),
    ensures
        book.best_offer(buy, start, stop) == book.best_offer(buy, next, stop),
    decreases ticks_left(buy, start, next),
{
    if start != next {
        assert(!book.is_offer(start, buy));
        if buy {
            lemma_best_offer_skip(book, buy, (start + 1) as Tick, next, stop);
        } else {
            lemma_best_offer_skip(book, buy, (start - 1) as Tick, next, stop);
        }
    }
}

/// Where no tick of the range offers anything, there is no nearest offer.
pub proof fn lemma_best_offer_none(book: Book, buy: bool, start: Tick, stop: Tick)
    requires
        forall|other: Tick|
            (buy && start <= other <= stop) || (!buy && stop <= other <= start)
                ==> !#[trigger] book.is_offer(other, buy),
    ensures
        book.best_offer(buy, start, stop) == None::<Tick>,
    decreases ticks_left(buy, start, stop),
{
    if ticks_left(buy, start, stop) == 0 {
    } else if start == stop {
        assert(!book.is_offer(start, buy));
    } else {
        assert(!book.is_offer(start, buy));
        if buy {
            lemma_best_offer_none(book, buy, (start + 1) as Tick, stop);
        } else {
            lemma_best_offer_none(book, buy, (start - 1) as Tick, stop);
        }
    }
}

/// The nearest tick to `starting_tick`, on the way to `max_tick` and both
/// included, that offers liquidity to an order of the given direction.
pub fn _get_best_offer(
    buy: bool,
    starting_tick: Tick,
    max_tick: Tick,
    integrals_bitmaps: &BitmapStore,
    ticks_details: &TickStore,
) -> (found: Option<Tick>)
    ensures
        found == (Book { ticks: ticks_details@, bitmaps: integrals_bitmaps@ }).best_offer(
            buy,
            starting_tick,
            max_tick,
        ),
{
    let ghost book = Book { ticks: ticks_details@, bitmaps: integrals_bitmaps@ };
    let mut cursor: Tick = starting_tick;
    loop
        invariant
            book == (Book { ticks: ticks_details@, bitmaps: integrals_bitmaps@ }),
            book.best_offer(buy, starting_tick, max_tick) == book.best_offer(
                buy,
                cursor,
                max_tick,
            ),
        decreases ticks_left(buy, cursor, max_tick),
    {
        if (buy && cursor > max_tick) || (!buy && cursor < max_tick) {
            return None;
        }
        let (integral, bit_position) = _int_and_dec(cursor);
        let word = match integrals_bitmaps.get(integral) {
            Some(word) => word,
            None => 0,
        };
        assert(forall|other: Tick|
            other / 128 == integral ==> word_of(book.bitmaps, other) == word);
        match _next_set_bit(word, bit_position, buy) {
            Some(bit) => {
                let tick: Tick = integral * 128 + bit;
                assert(tick / 128 == integral && tick % 128 == bit);
                assert forall|other: Tick|
                    (buy && cursor <= other < tick) || (!buy && tick < other
                        <= cursor) implies !#[trigger] book.is_offer(other, buy) by {
                    assert(other / 128 == integral);
                    assert(word_of(book.bitmaps, other) == word);
                }
                if (buy && tick > max_tick) || (!buy && tick < max_tick) {
                    proof {
                        lemma_best_offer_none(book, buy, cursor, max_tick);
                    }
                    return None;
                }
                proof {
                    lemma_best_offer_skip(book, buy, cursor, tick, max_tick);
                }
                let matches = match ticks_details.get(tick) {
                    Some(details) => match details.tick_state {
                        TickState::SELL => buy,
                        TickState::BUY => !buy,
                    },
                    None => false,
                };
                if matches {
                    return Some(tick);
                }
                if tick == max_tick {
                    return None;
                }
                cursor = if buy {
                    tick + 1
                } else {
                    tick - 1
                };
            },
            None => {
                if buy {
                    if integral >= max_tick / 128 {
                        proof {
                            assert forall|other: Tick|
                                cursor <= other <= max_tick implies !#[trigger] book.is_offer(
                                other,
                                buy,
                            ) by {
                                assert(other / 128 == integral);
                                assert(word_of(book.bitmaps, other) == word);
                            }
                            lemma_best_offer_none(book, buy, cursor, max_tick);
                        }
                        return None;
                    }
                    let next: Tick = (integral + 1) * 128;
                    proof {
                        assert forall|other: Tick|
                            cursor <= other < next implies !#[trigger] book.is_offer(
                            other,
                            buy,
                        ) by {
                            assert(other / 128 == integral);
                            assert(word_of(book.bitmaps, other) == word);
                        }
                        lemma_best_offer_skip(book, buy, cursor, next, max_tick);
                    }
                    cursor = next;
                } else {
                    if integral <= max_tick / 128 {
                        proof {
                            assert forall|other: Tick|
                                max_tick <= other <= cursor implies !#[trigger] book.is_offer(
                                other,
                                buy,
                            ) by {
                                assert(other / 128 == integral);
                                assert(word_of(book.bitmaps, other) == word);
                            }
                            lemma_best_offer_none(book, buy, cursor, max_tick);
                        }
                        return None;
                    }
                    let next: Tick = integral * 128 - 1;
                    proof {
                        assert forall|other: Tick|
                            next < other <= cursor implies !#[trigger] book.is_offer(
                            other,
                            buy,
                        ) by {
                            assert(other / 128 == integral);
                            assert(word_of(book.bitmaps, other) == word);
                        }
                        lemma_best_offer_skip(book, buy, cursor, next, max_tick);
                    }
                    cursor = next;
                }
            },
        }
    }
}

/// Crossing an offer or taking a part of its liquidity keeps the book in
/// order.
pub proof fn lemma_take_keeps_wf(outcome: SwapOutcome, buy: bool, tick: Tick)
    requires
        outcome.book.wf(),
        outcome.book.is_offer(tick, buy),
    ensures
        outcome.take_at(buy, tick).book.wf(),
{
    let book = outcome.book;
    let after = outcome.take_at(buy, tick).book;
    crate::corelib::order_lib::lemma_flip_mark(book.bitmaps, tick);
    assert(book.ticks[tick].liq_bounds.wf() && book.ticks[tick].liq_bounds.liquidity_within() > 0);
    assert forall|other: Tick| #[trigger]
        after.ticks.contains_key(other) <==> tick_is_marked(after.bitmaps, other) by {
        lemma_retire(flip_mark(book.bitmaps, tick), book.ticks[tick].created_timestamp, other);
        assert(book.ticks.contains_key(other) <==> tick_is_marked(book.bitmaps, other));
    }
    assert forall|other: Tick| #[trigger] after.ticks.contains_key(other) implies after.ticks[other]
        .liq_bounds.wf() && after.ticks[other].liq_bounds.liquidity_within() > 0 by {
        assert(book.ticks.contains_key(other));
        assert(book.ticks[other].liq_bounds.wf());
    }
}

/// An amount of quote, scaled by the price factor, is less than the price
/// times one more than the base that it buys.
pub proof fn lemma_paid_covers(amount: nat, tick: nat)
    ensures
        amount * _PRICE_FACTOR < (equivalent(amount, tick, true) + 1) * tick_price(tick),
        equivalent(amount, tick, false) * _PRICE_FACTOR <= amount * tick_price(tick),
{
    lemma_price_bounds(tick);
    let p = tick_price(tick);
    assert(amount * 1_000_000_000 < (amount * 1_000_000_000 / p + 1) * p) by (nonlinear_arith)
        requires
            p > 0,
    ;
    assert((amount * p / 1_000_000_000) * 1_000_000_000 <= amount * p) by (nonlinear_arith);
}

/// What a sell has been given stays within what its base is worth at the
/// price of the tick it started from, with one unit more for each tick it
/// crossed.
proof fn lemma_sell_bound(
    given: nat,
    used: nat,
    take: nat,
    paid: nat,
    price: nat,
    first_price: nat,
    whole: nat,
)
    by (nonlinear_arith)
    requires
        given * 1_000_000_000 <= used * first_price,
        take * 1_000_000_000 <= paid * price,
        price <= first_price,
        used + paid <= whole,
        whole * first_price <= u128::MAX,
    ensures
        (given + take) * 1_000_000_000 <= (used + paid) * first_price,
        given + take <= u128::MAX,
{
    assert(paid * price <= paid * first_price);
    assert((used + paid) * first_price == used * first_price + paid * first_price);
    assert((used + paid) * first_price <= whole * first_price);
    assert(given + take <= (given + take) * 1_000_000_000);
}

/// The walk of a swap over the two halves of the book.
fn swap_walk(
    buy: bool,
    init_tick: Tick,
    stopping_tick: Tick,
    order_size: Amount,
    integrals_bitmaps: &mut BitmapStore,
    ticks_details: &mut TickStore,
) -> (result: (Amount, Amount, Tick, Vec<Tick>))
    requires
        (Book { ticks: old(ticks_details)@, bitmaps: old(integrals_bitmaps)@ }).wf(),
        swap_fits(buy, init_tick, stopping_tick, order_size),
    ensures
        ({
            let outcome = (Book {
                ticks: old(ticks_details)@,
                bitmaps: old(integrals_bitmaps)@,
            }).swap(buy, init_tick, stopping_tick, order_size);
            &&& (Book { ticks: final(ticks_details)@, bitmaps: final(integrals_bitmaps)@ })
                == outcome.book
            &&& result.0 == outcome.amount_out
            &&& result.1 == outcome.amount_remaining
            &&& result.2 == outcome.resulting_tick
            &&& result.3@ == outcome.crossed_ticks
        }),
        bitmap_home(*final(integrals_bitmaps)) == bitmap_home(*old(integrals_bitmaps)),
        tick_home(*final(ticks_details)) == tick_home(*old(ticks_details)),
{
    let ghost target = (Book { ticks: ticks_details@, bitmaps: integrals_bitmaps@ }).swap(
        buy,
        init_tick,
        stopping_tick,
        order_size,
    );
    let ghost mut acc = SwapOutcome {
        book: Book { ticks: ticks_details@, bitmaps: integrals_bitmaps@ },
        amount_out: 0,
        amount_remaining: order_size as nat,
        resulting_tick: init_tick,
        crossed_ticks: Seq::empty(),
        spent: 0,
    };
    let mut amount_out: Amount = 0;
    let mut remaining: Amount = order_size;
    let mut resulting_tick: Tick = init_tick;
    let mut crossed_ticks: Vec<Tick> = Vec::new();
    let mut cursor: Tick = init_tick;
    let mut done: bool = false;
    let ghost first_price = tick_price(init_tick as nat);
    let ghost whole = (order_size + ticks_left(false, init_tick, stopping_tick)) as nat;
    proof {
        lemma_price_bounds(init_tick as nat);
        assert(0 * 1_000_000_000 == 0) by (nonlinear_arith);
        assert(0 <= (order_size - order_size + 0) * first_price) by (nonlinear_arith);
    }
    while !done
        invariant
            acc.book == (Book { ticks: ticks_details@, bitmaps: integrals_bitmaps@ }),
            acc.book.wf(),
            bitmap_home(*integrals_bitmaps) == bitmap_home(*old(integrals_bitmaps)),
            tick_home(*ticks_details) == tick_home(*old(ticks_details)),
            acc.amount_out == amount_out,
            acc.amount_remaining == remaining,
            acc.resulting_tick == resulting_tick,
            acc.crossed_ticks == crossed_ticks@,
            target == (if done {
                acc
            } else {
                acc.walk(buy, cursor, stopping_tick)
            }),
            remaining <= order_size,
            swap_fits(buy, init_tick, stopping_tick, order_size),
            first_price == tick_price(init_tick as nat),
            whole == order_size + ticks_left(false, init_tick, stopping_tick),
            buy ==> amount_out <= order_size - remaining,
            !buy ==> amount_out * 1_000_000_000 <= (order_size - remaining + crossed_ticks@.len())
                * first_price,
            buy ==> init_tick <= cursor && crossed_ticks@.len() <= cursor - init_tick + (if done {
                1nat
            } else {
                0nat
            }),
            !buy ==> cursor <= init_tick && crossed_ticks@.len() <= init_tick - cursor + (if done {
                1nat
            } else {
                0nat
            }),
        decreases
                (if done {
                    0
                } else {
                    ticks_left(buy, cursor, stopping_tick) + 1
                }),
    {
        if remaining == 0 {
            done = true;
        } else {
            proof {
                lemma_best_offer(acc.book, buy, cursor, stopping_tick);
            }
            match _get_best_offer(buy, cursor, stopping_tick, integrals_bitmaps, ticks_details) {
                None => {
                    done = true;
                },
                Some(tick) => {
                    let found = ticks_details.get(tick);
                    let word_found = integrals_bitmaps.get(tick / 128);
                    let ghost price = tick_price(tick as nat);
                    proof {
                        lemma_take_keeps_wf(acc, buy, tick);
                        lemma_price_bounds(tick as nat);
                        if buy {
                            assert(remaining * 1_000_000_000 <= order_size * 1_000_000_000)
                                by (nonlinear_arith)
                                requires
                                    remaining <= order_size,
                            ;
                        } else {
                            lemma_price_monotone(tick as nat, init_tick as nat);
                            assert(remaining * price <= whole * first_price) by (nonlinear_arith)
                                requires
                                    remaining <= whole,
                                    price <= first_price,
                            ;
                        }
                        lemma_equivalent_range(remaining as nat, tick as nat);
                        lemma_paid_covers(remaining as nat, tick as nat);
                        assert(acc.book.ticks[tick].liq_bounds.wf());
                        if !word_found.is_some() {
                            lemma_empty_word(tick % 128);
                        }
                    }
                    let mut details = found.unwrap();
                    let word = word_found.unwrap();
                    let available = details.liq_bounds._liquidity_within();
                    let wanted = _equivalent(remaining, tick, buy);
                    let ghost before = acc;
                    let ghost used = (order_size - remaining + crossed_ticks@.len()) as nat;
                    if wanted >= available {
                        proof {
                            lemma_equivalent_back_fits(
                                remaining as nat,
                                available as nat,
                                tick as nat,
                                buy,
                            );
                            lemma_equivalent_range(available as nat, tick as nat);
                            lemma_paid_covers(available as nat, tick as nat);
                        }
                        let cost = _equivalent(available, tick, !buy);
                        proof {
                            if !buy {
                                lemma_sell_bound(
                                    amount_out as nat,
                                    used,
                                    available as nat,
                                    (cost + 1) as nat,
                                    price,
                                    first_price,
                                    whole,
                                );
                            }
                        }
                        amount_out = amount_out + available;
                        remaining = remaining - cost;
                        ticks_details.remove(tick);
                        let (integral, bit_position) = _int_and_dec(tick);
                        integrals_bitmaps.insert(integral, _flip_bit(word, bit_position));
                        _retire(integrals_bitmaps, details.created_timestamp);
                        crossed_ticks.push(tick);
                        resulting_tick = tick;
                        proof {
                            acc = before.take_at(buy, tick);
                        }
                        if tick == stopping_tick {
                            done = true;
                        } else {
                            cursor = if buy {
                                tick + 1
                            } else {
                                tick - 1
                            };
                        }
                    } else if wanted == 0 {
                        done = true;
                    } else {
                        proof {
                            if !buy {
                                lemma_sell_bound(
                                    amount_out as nat,
                                    used,
                                    wanted as nat,
                                    remaining as nat,
                                    price,
                                    first_price,
                                    whole,
                                );
                            }
                        }
                        amount_out = amount_out + wanted;
                        details.liq_bounds._reduce_boundary(wanted);
                        ticks_details.insert(tick, details);
                        remaining = 0;
                        resulting_tick = tick;
                        proof {
                            acc = before.take_at(buy, tick);
                        }
                        done = true;
                    }
                },
            }
        }
    }
    (amount_out, remaining, resulting_tick, crossed_ticks)
}

/// Whether a swap accepts the order.
pub fn _swap_fits(buy: bool, init_tick: Tick, stopping_tick: Tick, order_size: Amount) -> (fits:
    bool)
    ensures
        fits == swap_fits(buy, init_tick, stopping_tick, order_size),
{
    if buy {
        order_size <= u128::MAX / _PRICE_FACTOR
    } else {
        let span: u128 = if stopping_tick <= init_tick {
            (init_tick - stopping_tick) as u128 + 1
        } else {
            0
        };
        let price = crate::corelib::price_lib::_tick_to_price(init_tick);
        if order_size > u128::MAX - span {
            assert((order_size + span) * price > u128::MAX) by (nonlinear_arith)
                requires
                    order_size + span > u128::MAX,
                    price >= 1,
            ;
            return false;
        }
        let whole = order_size + span;
        assert(whole * price <= u128::MAX <==> whole <= u128::MAX / price) by (nonlinear_arith)
            requires
                price > 0,
        ;
        whole <= u128::MAX / price
    }
}

/// Whether `tick` lies at `cursor` or beyond it on the way of an order of
/// the given direction.
pub open spec fn lies_ahead(buy: bool, cursor: Tick, tick: Tick) -> bool {
    if buy {
        cursor <= tick
    } else {
        tick <= cursor
    }
}

/// Whether two books offer the same, with the same liquidity, at `tick`.
pub open spec fn same_at(left: Book, right: Book, buy: bool, tick: Tick) -> bool {
    left.is_offer(tick, buy) == right.is_offer(tick, buy) && left.liquidity_at(tick)
        == right.liquidity_at(tick)
}

/// Whether two books offer the same, with the same liquidity, at every tick
/// from `cursor` on.
pub open spec fn agree_ahead(left: Book, right: Book, buy: bool, cursor: Tick) -> bool {
    forall|tick: Tick| lies_ahead(buy, cursor, tick) ==> #[trigger] same_at(left, right, buy, tick)
}

/// Books that agree from a tick on have the same nearest offer from there.
pub proof fn lemma_best_offer_agrees(left: Book, right: Book, buy: bool, start: Tick, stop: Tick)
    requires
        agree_ahead(left, right, buy, start),
    ensures
        left.best_offer(buy, start, stop) == right.best_offer(buy, start, stop),
    decreases ticks_left(buy, start, stop),
{
    if ticks_left(buy, start, stop) == 0 {
    } else {
        assert(same_at(left, right, buy, start));
        if left.is_offer(start, buy) {
        } else if start == stop {
        } else {
            let next = if buy {
                (start + 1) as Tick
            } else {
                (start - 1) as Tick
            };
            assert forall|tick: Tick| lies_ahead(buy, next, tick) implies #[trigger] same_at(
                left,
                right,
                buy,
                tick,
            ) by {
                assert(lies_ahead(buy, start, tick));
            }
            lemma_best_offer_agrees(left, right, buy, next, stop);
        }
    }
}

/// Taking from an offer changes nothing at any other tick.
pub proof fn lemma_take_agrees(outcome: SwapOutcome, buy: bool, tick: Tick)
    requires
        outcome.book.is_offer(tick, buy),
    ensures
        forall|other: Tick|
            other != tick ==> #[trigger] same_at(
                outcome.take_at(buy, tick).book,
                outcome.book,
                buy,
                other,
            ),
{
    let after = outcome.take_at(buy, tick).book;
    crate::corelib::order_lib::lemma_flip_mark(outcome.book.bitmaps, tick);
    assert forall|other: Tick| other != tick implies #[trigger] same_at(
        after,
        outcome.book,
        buy,
        other,
    ) by {
        lemma_retire(
            flip_mark(outcome.book.bitmaps, tick),
            outcome.book.ticks[tick].created_timestamp,
            other,
        );
        assert(after.ticks.contains_key(other) == outcome.book.ticks.contains_key(other));
        if after.ticks.contains_key(other) {
            assert(after.ticks[other] == outcome.book.ticks[other]);
        }
        assert(tick_is_marked(after.bitmaps, other) == tick_is_marked(
            outcome.book.bitmaps,
            other,
        ));
    }
}

/// What a swap would give, found by walking the book without changing it:
/// what the taker would receive, what would be left of the order, and the
/// last tick that the swap would take from.
pub fn _peek_swap(
    buy: bool,
    init_tick: Tick,
    stopping_tick: Tick,
    order_size: Amount,
    integrals_bitmaps: &BitmapStore,
    ticks_details: &TickStore,
) -> (result: (Amount, Amount, Tick))
    requires
        (Book { ticks: ticks_details@, bitmaps: integrals_bitmaps@ }).wf(),
        swap_fits(buy, init_tick, stopping_tick, order_size),
    ensures
        ({
            let outcome = (Book { ticks: ticks_details@, bitmaps: integrals_bitmaps@ }).swap(
                buy,
                init_tick,
                stopping_tick,
                order_size,
            );
            &&& result.0 == outcome.amount_out
            &&& result.1 == outcome.amount_remaining
            &&& result.2 == outcome.resulting_tick
        }),
{
    let ghost target = (Book { ticks: ticks_details@, bitmaps: integrals_bitmaps@ }).swap(
        buy,
        init_tick,
        stopping_tick,
        order_size,
    );
    let ghost mut acc = SwapOutcome {
        book: Book { ticks: ticks_details@, bitmaps: integrals_bitmaps@ },
        amount_out: 0,
        amount_remaining: order_size as nat,
        resulting_tick: init_tick,
        crossed_ticks: Seq::empty(),
        spent: 0,
    };
    let mut amount_out: Amount = 0;
    let mut remaining: Amount = order_size;
    let mut resulting_tick: Tick = init_tick;
    let ghost book = Book { ticks: ticks_details@, bitmaps: integrals_bitmaps@ };
    let mut cursor: Tick = init_tick;
    let mut done: bool = false;
    let ghost first_price = tick_price(init_tick as nat);
    let ghost whole = (order_size + ticks_left(false, init_tick, stopping_tick)) as nat;
    proof {
        lemma_price_bounds(init_tick as nat);
        assert(0 * 1_000_000_000 == 0) by (nonlinear_arith);
        assert(0 <= (order_size - order_size + 0) * first_price) by (nonlinear_arith);
    }
    while !done
        invariant
            book == (Book { ticks: ticks_details@, bitmaps: integrals_bitmaps@ }),
            book.wf(),
            acc.book.wf(),
            !done ==> agree_ahead(acc.book, book, buy, cursor),
            acc.amount_out == amount_out,
            acc.amount_remaining == remaining,
            acc.resulting_tick == resulting_tick,
            target == (if done {
                acc
            } else {
                acc.walk(buy, cursor, stopping_tick)
            }),
            remaining <= order_size,
            swap_fits(buy, init_tick, stopping_tick, order_size),
            first_price == tick_price(init_tick as nat),
            whole == order_size + ticks_left(false, init_tick, stopping_tick),
            buy ==> amount_out <= order_size - remaining,
            !buy ==> amount_out * 1_000_000_000 <= (order_size - remaining + acc.crossed_ticks.len())
                * first_price,
            buy ==> init_tick <= cursor && acc.crossed_ticks.len() <= cursor - init_tick + (if done {
                1nat
            } else {
                0nat
            }),
            !buy ==> cursor <= init_tick && acc.crossed_ticks.len() <= init_tick - cursor + (if done {
                1nat
            } else {
                0nat
            }),
        decreases
                (if done {
                    0
                } else {
                    ticks_left(buy, cursor, stopping_tick) + 1
                }),
    {
        if remaining == 0 {
            done = true;
        } else {
            proof {
                lemma_best_offer(acc.book, buy, cursor, stopping_tick);
                lemma_best_offer_agrees(acc.book, book, buy, cursor, stopping_tick);
            }
            match _get_best_offer(buy, cursor, stopping_tick, integrals_bitmaps, ticks_details) {
                None => {
                    done = true;
                },
                Some(tick) => {
                    let found = ticks_details.get(tick);
                    let ghost price = tick_price(tick as nat);
                    proof {
                        assert(acc.book.is_offer(tick, buy));
                        assert(same_at(acc.book, book, buy, tick));
                        assert(book.ticks[tick].liq_bounds.wf());
                        lemma_take_keeps_wf(acc, buy, tick);
                        lemma_take_agrees(acc, buy, tick);
                        lemma_price_bounds(tick as nat);
                        if buy {
                            assert(remaining * 1_000_000_000 <= order_size * 1_000_000_000)
                                by (nonlinear_arith)
                                requires
                                    remaining <= order_size,
                            ;
                        } else {
                            lemma_price_monotone(tick as nat, init_tick as nat);
                            assert(remaining * price <= whole * first_price) by (nonlinear_arith)
                                requires
                                    remaining <= whole,
                                    price <= first_price,
                            ;
                        }
                        lemma_equivalent_range(remaining as nat, tick as nat);
                        lemma_paid_covers(remaining as nat, tick as nat);
                        assert(acc.book.ticks[tick].liq_bounds.wf());
                    }
                    let details = found.unwrap();
                    let available = details.liq_bounds._liquidity_within();
                    let wanted = _equivalent(remaining, tick, buy);
                    let ghost before = acc;
                    let ghost used = (order_size - remaining + acc.crossed_ticks.len()) as nat;
                    if wanted >= available {
                        proof {
                            lemma_equivalent_back_fits(
                                remaining as nat,
                                available as nat,
                                tick as nat,
                                buy,
                            );
                            lemma_equivalent_range(available as nat, tick as nat);
                            lemma_paid_covers(available as nat, tick as nat);
                        }
                        let cost = _equivalent(available, tick, !buy);
                        proof {
                            if !buy {
                                lemma_sell_bound(
                                    amount_out as nat,
                                    used,
                                    available as nat,
                                    (cost + 1) as nat,
                                    price,
                                    first_price,
                                    whole,
                                );
                            }
                        }
                        amount_out = amount_out + available;
                        remaining = remaining - cost;
                        resulting_tick = tick;
                        proof {
                            acc = before.take_at(buy, tick);
                        }
                        if tick == stopping_tick {
                            done = true;
                        } else {
                            cursor = if buy {
                                tick + 1
                            } else {
                                tick - 1
                            };
                            proof {
                                assert forall|other: Tick|
                                    lies_ahead(buy, cursor, other) implies #[trigger] same_at(
                                    acc.book,
                                    book,
                                    buy,
                                    other,
                                ) by {
                                    assert(same_at(before.book, book, buy, other));
                                    assert(same_at(acc.book, before.book, buy, other));
                                }
                            }
                        }
                    } else if wanted == 0 {
                        done = true;
                    } else {
                        proof {
                            if !buy {
                                lemma_sell_bound(
                                    amount_out as nat,
                                    used,
                                    wanted as nat,
                                    remaining as nat,
                                    price,
                                    first_price,
                                    whole,
                                );
                            }
                        }
                        amount_out = amount_out + wanted;
                        remaining = 0;
                        resulting_tick = tick;
                        proof {
                            acc = before.take_at(buy, tick);
                        }
                        done = true;
                    }
                },
            }
        }
    }
    (amount_out, remaining, resulting_tick)
}

/// What a swap needs: the order and the two halves of the book.
pub struct SwapParams<'a> {
    /// Whether the order buys.
    pub buy: bool,
    /// The tick at which the walk starts.
    pub init_tick: Tick,
    /// The last tick that the walk may take from.
    pub stopping_tick: Tick,
    /// The size of the order, in the taker's own unit.
    pub order_size: Amount,
    /// The bitmap index over the populated ticks.
    pub integrals_bitmaps: &'a mut BitmapStore,
    /// The records of the populated ticks.
    pub ticks_details: &'a mut TickStore,
}

impl<'a> SwapParams<'a> {
    /// The book that the parameters refer to.
    pub open spec fn book(&self) -> Book {
        Book { ticks: self.ticks_details@, bitmaps: self.integrals_bitmaps@ }
    }

    /// Swaps the order against the book: walks from the starting tick to
    /// the stopping tick, both included, and takes liquidity from each
    /// offer on the way until the order is used up. Gives what was
    /// received, what is left of the order, the last tick taken from and
    /// the ticks that were emptied.
    pub fn _swap(&mut self) -> (result: (Amount, Amount, Tick, Vec<Tick>))
        requires
            old(self).book().wf(),
            swap_fits(
                old(self).buy,
                old(self).init_tick,
                old(self).stopping_tick,
                old(self).order_size,
            ),
        ensures
            ({
                let outcome = old(self).book().swap(
                    old(self).buy,
                    old(self).init_tick,
                    old(self).stopping_tick,
                    old(self).order_size,
                );
                &&& final(self).book() == outcome.book
                &&& result.0 == outcome.amount_out
                &&& result.1 == outcome.amount_remaining
                &&& result.2 == outcome.resulting_tick
                &&& result.3@ == outcome.crossed_ticks
            }),
            final(self).buy == old(self).buy,
            final(self).init_tick == old(self).init_tick,
            final(self).stopping_tick == old(self).stopping_tick,
            final(self).order_size == old(self).order_size,
            bitmap_home(*final(self).integrals_bitmaps) == bitmap_home(
                *old(self).integrals_bitmaps,
            ),
            tick_home(*final(self).ticks_details) == tick_home(*old(self).ticks_details),
            *final(final(self).integrals_bitmaps) == *final(old(self).integrals_bitmaps),
            *final(final(self).ticks_details) == *final(old(self).ticks_details),
    {
        swap_walk(
            self.buy,
            self.init_tick,
            self.stopping_tick,
            self.order_size,
            self.integrals_bitmaps,
            self.ticks_details,
        )
    }
}

} // verus!
