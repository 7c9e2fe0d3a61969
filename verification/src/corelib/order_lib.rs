use vstd::prelude::*;
use crate::corelib::bitmap_lib::{_flip_bit, bit_is_set, flip_bit, lemma_flip_bit};
use crate::corelib::constants::_RETIRED_KEY;
use crate::corelib::price_lib::{
    _equivalent, _equivalent_fits, equivalent, equivalent_fits, lemma_equivalent_zero,
};
use crate::corelib::tick_lib::_int_and_dec;
use crate::store::{bitmap_home, tick_home, BitmapStore, TickStore};
use crate::types::{Amount, LiquidityBoundary, Tick, TickDetails, TickState, Time};

verus! {

/// The bitmap word that holds the bit of `tick`; the empty word where none
/// is stored.
pub open spec fn word_of(bitmaps: Map<u64, u128>, tick: Tick) -> u128 {
    if bitmaps.contains_key(tick / 128) {
        bitmaps[tick / 128]
    } else {
        0
    }
}

/// Whether the bitmap marks `tick` as populated.
pub open spec fn tick_is_marked(bitmaps: Map<u64, u128>, tick: Tick) -> bool {
    bit_is_set(word_of(bitmaps, tick), tick % 128)
}

/// The bitmap with the mark of `tick` inverted.
pub open spec fn flip_mark(bitmaps: Map<u64, u128>, tick: Tick) -> Map<u64, u128> {
    bitmaps.insert(tick / 128, flip_bit(word_of(bitmaps, tick), tick % 128))
}

/// The latest creation time of any record of the book that was destroyed;
/// zero where none was. The index keeps it beside its words.
pub open spec fn retired_floor(bitmaps: Map<u64, u128>) -> u128 {
    if bitmaps.contains_key(_RETIRED_KEY) {
        bitmaps[_RETIRED_KEY]
    } else {
        0
    }
}

/// The bitmap after a record that was created at `created` was destroyed:
/// the time is kept where it is later than any kept before.
pub open spec fn retire(bitmaps: Map<u64, u128>, created: Time) -> Map<u64, u128> {
    if created > retired_floor(bitmaps) {
        bitmaps.insert(_RETIRED_KEY, created as u128)
    } else {
        bitmaps
    }
}

/// The state of the order book: the record of every populated tick and the
/// bitmap index over them.
pub struct Book {
    pub ticks: Map<Tick, TickDetails>,
    pub bitmaps: Map<u64, u128>,
}

impl Book {
    /// Every record holds liquidity between bounds that are in order, and
    /// the bitmap marks exactly the ticks that have a record.
    pub open spec fn wf(self) -> bool {
        &&& forall|tick: Tick| #[trigger]
            self.ticks.contains_key(tick) <==> tick_is_marked(self.bitmaps, tick)
        &&& forall|tick: Tick| #[trigger]
            self.ticks.contains_key(tick) ==> self.ticks[tick].liq_bounds.wf()
                && self.ticks[tick].liq_bounds.liquidity_within() > 0
    }

    /// The liquidity that rests unfilled at `tick`.
    pub open spec fn liquidity_at(self, tick: Tick) -> nat {
        if self.ticks.contains_key(tick) {
            self.ticks[tick].liq_bounds.liquidity_within()
        } else {
            0
        }
    }

    /// Whether the order can be placed at `now`: it has a size, it fits on
    /// the record of its tick without overflow, and where its tick has no
    /// record, `now` is later than the creation of every record that was
    /// destroyed, so that the record it creates is later than any before it
    /// at the tick.
    pub open spec fn open_fits(self, order: LimitOrder, now: Time) -> bool {
        &&& order.order_size > 0
        &&& self.ticks.contains_key(order.ref_tick) ==> order.opening_fits(
            self.ticks[order.ref_tick],
        )
        &&& !self.ticks.contains_key(order.ref_tick) ==> now > retired_floor(self.bitmaps)
    }

    /// The book after `order` was placed at `now`, and the order as placed.
    /// A tick without a record gets one, created at `now`, and its mark.
    pub open spec fn open_order(self, order: LimitOrder, now: Time) -> (Book, LimitOrder) {
        let tick = order.ref_tick;
        let existed = self.ticks.contains_key(tick);
        let details = if existed {
            self.ticks[tick]
        } else {
            TickDetails {
                tick_state: TickState::BUY,
                liq_bounds: LiquidityBoundary {
                    upper_bound: 0,
                    lower_bound: 0,
                    lifetime_removed_liquidity: 0,
                },
                created_timestamp: now,
            }
        };
        let (placed, record) = order.opened(details);
        (
            Book {
                ticks: self.ticks.insert(tick, record),
                bitmaps: if existed {
                    self.bitmaps
                } else {
                    flip_mark(self.bitmaps, tick)
                },
            },
            placed,
        )
    }

    /// Whether the order can be closed without overflow.
    pub open spec fn close_fits(self, order: LimitOrder) -> bool {
        &&& equivalent_fits(order.order_size as nat, order.ref_tick as nat, order.buy)
        &&& self.ticks.contains_key(order.ref_tick) ==> order.closing_fits(
            self.ticks[order.ref_tick],
        )
    }

    /// The book after `order` was closed, the amount received for what was
    /// filled, and the amount that was not filled. An order whose tick has
    /// no record was filled whole. A record left with nothing resting is
    /// destroyed, and its mark with it, and the time of its creation is
    /// kept.
    pub open spec fn close_order(self, order: LimitOrder) -> (Book, Amount, Amount) {
        let tick = order.ref_tick;
        if !self.ticks.contains_key(tick) {
            (self, order.proceeds(order.order_size as nat) as Amount, 0)
        } else {
            let (received, remaining, record) = order.closed(self.ticks[tick]);
            if record.liq_bounds.liquidity_within() == 0 {
                (
                    Book {
                        ticks: self.ticks.remove(tick),
                        bitmaps: retire(
                            if self.bitmaps.contains_key(tick / 128) {
                                flip_mark(self.bitmaps, tick)
                            } else {
                                self.bitmaps
                            },
                            record.created_timestamp,
                        ),
                    },
                    received,
                    remaining,
                )
            } else {
                (Book { ticks: self.ticks.insert(tick, record), ..self }, received, remaining)
            }
        }
    }

    /// The book with nothing in it.
    pub open spec fn empty() -> Book {
        Book { ticks: Map::empty(), bitmaps: Map::empty() }
    }
}

/// Orders that can be placed at a tick and taken off it again.
pub trait Order: Sized {
    /// Whether the order can be placed on `details` without overflow.
    spec fn opening_fits(&self, details: TickDetails) -> bool;

    /// The order as placed on `details`, and the record that then holds it.
    spec fn opened(&self, details: TickDetails) -> (Self, TickDetails);

    /// Whether the order can be taken off `details` without overflow.
    spec fn closing_fits(&self, details: TickDetails) -> bool;

    /// What closing the order on `details` gives: the amount received for
    /// what was filled, the amount that was not filled, and the record left.
    spec fn closed(&self, details: TickDetails) -> (Amount, Amount, TickDetails);

    fn _opening_update(&mut self, ref_tick_details: &mut TickDetails)
        requires
            old(self).opening_fits(*old(ref_tick_details)),
        ensures
            (*final(self), *final(ref_tick_details)) == old(self).opened(*old(ref_tick_details)),
    ;

    fn _closing_update(&self, ref_tick_details: &mut TickDetails) -> (amounts: (Amount, Amount))
        requires
            self.closing_fits(*old(ref_tick_details)),
        ensures
            (amounts.0, amounts.1, *final(ref_tick_details)) == self.closed(*old(ref_tick_details)),
    ;
}

/// A limit order: its size and side, the tick it rests at, and what the
/// tick's record showed when the order was placed.
#[derive(Clone, Copy, Debug)]
pub struct LimitOrder {
    /// Whether the order buys.
    pub buy: bool,
    pub order_size: Amount,
    /// The tick's removed liquidity when the order was placed.
    pub init_removed_liquidity: Amount,
    /// The tick's upper bound when the order was placed: where in the
    /// tick's queue the order begins.
    pub init_lower_bound: Amount,
    pub ref_tick: Tick,
    /// When the record that the order was placed on had been created.
    pub init_tick_timestamp: Time,
}

impl Default for LimitOrder {
    fn default() -> (order: Self)
        ensures
            order == (LimitOrder {
                buy: false,
                order_size: 0,
                init_removed_liquidity: 0,
                init_lower_bound: 0,
                ref_tick: 0,
                init_tick_timestamp: 0,
            }),
    {
        LimitOrder {
            buy: false,
            order_size: 0,
            init_removed_liquidity: 0,
            init_lower_bound: 0,
            ref_tick: 0,
            init_tick_timestamp: 0,
        }
    }
}

impl LimitOrder {
    /// An order of `order_size` at `ref_tick` that has not been placed yet.
    pub fn new(order_size: Amount, ref_tick: Tick, buy: bool) -> (order: Self)
        ensures
            order == (LimitOrder {
                buy,
                order_size,
                init_removed_liquidity: 0,
                init_lower_bound: 0,
                ref_tick,
                init_tick_timestamp: 0,
            }),
    {
        LimitOrder {
            order_size,
            ref_tick,
            buy,
            init_lower_bound: 0,
            init_removed_liquidity: 0,
            init_tick_timestamp: 0,
        }
    }

    /// The side of the book that the order rests on.
    pub open spec fn side(self) -> TickState {
        if self.buy {
            TickState::BUY
        } else {
            TickState::SELL
        }
    }

    /// What the order converts into when all of `amount` is filled.
    pub open spec fn proceeds(self, amount: nat) -> nat {
        equivalent(amount, self.ref_tick as nat, self.buy)
    }

    /// Whether the record `details` was created after the order was placed,
    /// so that the record the order rested on has been consumed.
    pub open spec fn outlived(self, details: TickDetails) -> bool {
        self.init_tick_timestamp < details.created_timestamp
    }

    /// Where the order begins in the queue of `details`: where it began when
    /// it was placed, moved up by what was withdrawn since.
    pub open spec fn queue_start(self, details: TickDetails) -> int {
        self.init_lower_bound + details.liq_bounds.lifetime_removed_liquidity
            - self.init_removed_liquidity
    }

    /// The part of the order that the record `details` shows as unfilled.
    pub open spec fn unfilled(self, details: TickDetails) -> int {
        let start = self.queue_start(details);
        let lower = details.liq_bounds.lower_bound as int;
        if self.outlived(details) {
            0
        } else if lower <= start {
            self.order_size as int
        } else if lower >= start + self.order_size {
            0
        } else {
            start + self.order_size - lower
        }
    }

    /// The part of the order that the record `details` shows as filled.
    pub open spec fn filled(self, details: TickDetails) -> int {
        self.order_size - self.unfilled(details)
    }
}

impl Order for LimitOrder {
    open spec fn opening_fits(&self, details: TickDetails) -> bool {
        &&& details.liq_bounds.upper_bound >= details.liq_bounds.lower_bound
        &&& details.liq_bounds.upper_bound + self.order_size <= u128::MAX
    }

    open spec fn opened(&self, details: TickDetails) -> (Self, TickDetails) {
        (
            LimitOrder {
                init_tick_timestamp: details.created_timestamp,
                init_lower_bound: details.liq_bounds.upper_bound,
                init_removed_liquidity: details.liq_bounds.lifetime_removed_liquidity,
                ..*self
            },
            TickDetails {
                tick_state: if details.liq_bounds.liquidity_within() == 0 {
                    self.side()
                } else {
                    details.tick_state
                },
                liq_bounds: LiquidityBoundary {
                    upper_bound: (details.liq_bounds.upper_bound + self.order_size) as u128,
                    ..details.liq_bounds
                },
                ..details
            },
        )
    }

    open spec fn closing_fits(&self, details: TickDetails) -> bool {
        &&& equivalent_fits(self.order_size as nat, self.ref_tick as nat, self.buy)
        &&& details.liq_bounds.wf()
        &&& !self.outlived(details) ==> {
            &&& details.liq_bounds.lifetime_removed_liquidity >= self.init_removed_liquidity
            &&& self.queue_start(details) + self.order_size <= u128::MAX
            &&& details.liq_bounds.lower_bound + self.unfilled(details)
                <= details.liq_bounds.upper_bound
        }
    }

    open spec fn closed(&self, details: TickDetails) -> (Amount, Amount, TickDetails) {
        let unfilled = self.unfilled(details);
        (
            self.proceeds(self.filled(details) as nat) as Amount,
            unfilled as Amount,
            if self.outlived(details) {
                details
            } else {
                TickDetails {
                    liq_bounds: LiquidityBoundary {
                        lower_bound: (details.liq_bounds.lower_bound + unfilled) as u128,
                        lifetime_removed_liquidity: (details.liq_bounds.lifetime_removed_liquidity
                            + unfilled) as u128,
                        ..details.liq_bounds
                    },
                    ..details
                }
            },
        )
    }

    /// Places the order on the record of its tick: the order keeps what the
    /// record shows, and its size joins the record's upper bound. A record
    /// with nothing resting takes the side of the order.
    fn _opening_update(&mut self, tick_details: &mut TickDetails) {
        if tick_details.liq_bounds._liquidity_within() == 0 {
            tick_details.tick_state = if self.buy {
                TickState::BUY
            } else {
                TickState::SELL
            };
        }
        let init_liq_bounds = tick_details.liq_bounds;
        self.init_tick_timestamp = tick_details.created_timestamp;
        self.init_lower_bound = init_liq_bounds.upper_bound;
        self.init_removed_liquidity = init_liq_bounds.lifetime_removed_liquidity;
        tick_details._add_liquidity(self.order_size);
    }

    /// Takes the order off the record of its tick: gives what the filled
    /// part converted into and the unfilled part, which is withdrawn from
    /// the record.
    fn _closing_update(&self, tick_details: &mut TickDetails) -> (amounts: (Amount, Amount)) {
        proof {
            crate::corelib::price_lib::lemma_equivalent_range(
                self.order_size as nat,
                self.ref_tick as nat,
            );
        }
        if self.init_tick_timestamp < tick_details.created_timestamp {
            return (_equivalent(self.order_size, self.ref_tick, self.buy), 0);
        }
        let tick_lower_bound = tick_details.liq_bounds.lower_bound;
        let order_lower_bound = self.init_lower_bound + (
        tick_details.liq_bounds.lifetime_removed_liquidity - self.init_removed_liquidity);
        let (amount_out, amount_remaining) = if tick_lower_bound <= order_lower_bound {
            proof {
                lemma_equivalent_zero(self.ref_tick as nat, self.buy);
            }
            (0, self.order_size)
        } else if tick_lower_bound < order_lower_bound + self.order_size {
            proof {
                lemma_fits_smaller(
                    (tick_lower_bound - order_lower_bound) as nat,
                    self.order_size as nat,
                    self.ref_tick as nat,
                    self.buy,
                );
            }
            (
                _equivalent(tick_lower_bound - order_lower_bound, self.ref_tick, self.buy),
                (order_lower_bound + self.order_size) - tick_lower_bound,
            )
        } else {
            (_equivalent(self.order_size, self.ref_tick, self.buy), 0)
        };
        tick_details._remove_liquidity(amount_remaining);
        (amount_out, amount_remaining)
    }
}

/// A smaller amount converts without overflow where a larger one does.
pub proof fn lemma_fits_smaller(small: nat, large: nat, tick: nat, buy: bool)
    requires
        small <= large,
        equivalent_fits(large, tick, buy),
    ensures
        equivalent_fits(small, tick, buy),
{
    let p = crate::corelib::price_lib::tick_price(tick);
    assert(small * p <= large * p) by (nonlinear_arith)
        requires
            small <= large,
    ;
    assert(small * 1_000_000_000 <= large * 1_000_000_000) by (nonlinear_arith)
        requires
            small <= large,
    ;
}

/// What placing an order needs: the order and the two halves of the book.
pub struct OpenOrderParams<'a> {
    /// The bitmap index over the populated ticks.
    pub integrals_bitmaps: &'a mut BitmapStore,
    /// The records of the populated ticks.
    pub ticks_details: &'a mut TickStore,
    /// The order to place; placing fills in what it keeps of the tick.
    pub order: &'a mut LimitOrder,
}

impl<'a> OpenOrderParams<'a> {
    /// The book that the parameters refer to.
    pub open spec fn book(&self) -> Book {
        Book { ticks: self.ticks_details@, bitmaps: self.integrals_bitmaps@ }
    }

    /// Places the order at its tick, at time `now`.
    pub fn open_order(&mut self, now: Time)
        requires
            old(self).book().open_fits(*old(self).order, now),
        ensures
            (final(self).book(), *final(self).order) == old(self).book().open_order(
                *old(self).order,
                now,
            ),
            bitmap_home(*final(self).integrals_bitmaps) == bitmap_home(
                *old(self).integrals_bitmaps,
            ),
            tick_home(*final(self).ticks_details) == tick_home(*old(self).ticks_details),
            *final(final(self).integrals_bitmaps) == *final(old(self).integrals_bitmaps),
            *final(final(self).ticks_details) == *final(old(self).ticks_details),
            *final(final(self).order) == *final(old(self).order),
    {
        let tick = self.order.ref_tick;
        let mut tick_details = match self.ticks_details.get(tick) {
            Some(details) => details,
            None => {
                let (integral, bit_position) = _int_and_dec(tick);
                let map = match self.integrals_bitmaps.get(integral) {
                    Some(word) => word,
                    None => 0,
                };
                let flipped_bitmap = _flip_bit(map, bit_position);
                self.integrals_bitmaps.insert(integral, flipped_bitmap);
                TickDetails::new(now)
            },
        };
        self.order._opening_update(&mut tick_details);
        self.ticks_details.insert(tick, tick_details);
    }
}

/// Whether `order` can be taken off the record `details` without overflow.
pub fn order_closes_on(order: &LimitOrder, details: &TickDetails) -> (fits: bool)
    requires
        equivalent_fits(order.order_size as nat, order.ref_tick as nat, order.buy),
    ensures
        fits == order.closing_fits(*details),
{
    let bounds = details.liq_bounds;
    if !(bounds.upper_bound >= bounds.lower_bound && bounds.lower_bound
        >= bounds.lifetime_removed_liquidity) {
        return false;
    }
    if order.init_tick_timestamp < details.created_timestamp {
        return true;
    }
    if bounds.lifetime_removed_liquidity < order.init_removed_liquidity {
        return false;
    }
    let withdrawn = bounds.lifetime_removed_liquidity - order.init_removed_liquidity;
    if order.init_lower_bound > u128::MAX - withdrawn {
        return false;
    }
    let start = order.init_lower_bound + withdrawn;
    if start > u128::MAX - order.order_size {
        return false;
    }
    let end = start + order.order_size;
    let lower = bounds.lower_bound;
    if lower <= start {
        order.order_size <= bounds.upper_bound - lower
    } else if lower >= end {
        true
    } else {
        end <= bounds.upper_bound
    }
}

/// What closing an order needs: the order and the two halves of the book.
pub struct CloseOrderParams<'a> {
    /// The order to close.
    pub order: &'a LimitOrder,
    /// The bitmap index over the populated ticks.
    pub integrals_bitmaps: &'a mut BitmapStore,
    /// The records of the populated ticks.
    pub ticks_details: &'a mut TickStore,
}

impl<'a> CloseOrderParams<'a> {
    /// The book that the parameters refer to.
    pub open spec fn book(&self) -> Book {
        Book { ticks: self.ticks_details@, bitmaps: self.integrals_bitmaps@ }
    }

    /// Whether `close_order` accepts the order on the book as it stands.
    pub fn can_close(&self) -> (fits: bool)
        ensures
            fits == self.book().close_fits(*self.order),
    {
        let order = self.order;
        if !_equivalent_fits(order.order_size, order.ref_tick, order.buy) {
            return false;
        }
        match self.ticks_details.get(order.ref_tick) {
            None => true,
            Some(details) => order_closes_on(order, &details),
        }
    }

    /// Closes the order: gives the amount received for what was filled and
    /// the amount that was not filled, which leaves the book.
    pub fn close_order(&mut self) -> (amounts: (Amount, Amount))
        requires
            old(self).book().close_fits(*old(self).order),
        ensures
            (final(self).book(), amounts.0, amounts.1) == old(self).book().close_order(
                *old(self).order,
            ),
            final(self).order == old(self).order,
            bitmap_home(*final(self).integrals_bitmaps) == bitmap_home(
                *old(self).integrals_bitmaps,
            ),
            tick_home(*final(self).ticks_details) == tick_home(*old(self).ticks_details),
            *final(final(self).integrals_bitmaps) == *final(old(self).integrals_bitmaps),
            *final(final(self).ticks_details) == *final(old(self).ticks_details),
    {
        let tick = self.order.ref_tick;
        let mut tick_details = match self.ticks_details.get(tick) {
            Some(details) => details,
            None => {
                proof {
                    crate::corelib::price_lib::lemma_equivalent_range(
                        self.order.order_size as nat,
                        tick as nat,
                    );
                }
                return (_equivalent(self.order.order_size, tick, self.order.buy), 0);
            },
        };
        let (amount0, amount1) = self.order._closing_update(&mut tick_details);
        if tick_details.liq_bounds._liquidity_within() == 0 {
            self.ticks_details.remove(tick);
            let (integral, bit_position) = _int_and_dec(tick);
            match self.integrals_bitmaps.get(integral) {
                Some(bitmap) => {
                    let flipped_bitmap = _flip_bit(bitmap, bit_position);
                    self.integrals_bitmaps.insert(integral, flipped_bitmap);
                },
                None => {},
            }
            _retire(self.integrals_bitmaps, tick_details.created_timestamp);
        } else {
            self.ticks_details.insert(tick, tick_details);
        }
        (amount0, amount1)
    }
}

/// Keeps the creation time of a record that was destroyed, where it is
/// later than any kept before.
pub fn _retire(integrals_bitmaps: &mut BitmapStore, created: Time)
    ensures
        final(integrals_bitmaps)@ == retire(old(integrals_bitmaps)@, created),
        bitmap_home(*final(integrals_bitmaps)) == bitmap_home(*old(integrals_bitmaps)),
{
    let floor = match integrals_bitmaps.get(_RETIRED_KEY) {
        Some(floor) => floor,
        None => 0,
    };
    if created as u128 > floor {
        integrals_bitmaps.insert(_RETIRED_KEY, created as u128);
    }
}

/// The latest creation time of any record of the book that was destroyed.
pub fn _retired_floor(integrals_bitmaps: &BitmapStore) -> (floor: u128)
    ensures
        floor == retired_floor(integrals_bitmaps@),
{
    match integrals_bitmaps.get(_RETIRED_KEY) {
        Some(floor) => floor,
        None => 0,
    }
}

/// Keeping the time of a destroyed record changes no mark, and inverting a
/// mark changes no kept time.
pub proof fn lemma_retire(bitmaps: Map<u64, u128>, created: Time, tick: Tick)
    ensures
        tick_is_marked(retire(bitmaps, created), tick) == tick_is_marked(bitmaps, tick),
        word_of(retire(bitmaps, created), tick) == word_of(bitmaps, tick),
        retired_floor(flip_mark(bitmaps, tick)) == retired_floor(bitmaps),
        retired_floor(retire(bitmaps, created)) >= retired_floor(bitmaps),
        retired_floor(retire(bitmaps, created)) >= created,
{
    assert(tick / 128 != _RETIRED_KEY);
}

/// Inverting the mark of a tick changes that mark and no other.
pub proof fn lemma_flip_mark(bitmaps: Map<u64, u128>, tick: Tick)
    ensures
        tick_is_marked(flip_mark(bitmaps, tick), tick) == !tick_is_marked(bitmaps, tick),
        forall|other: Tick|
            other != tick ==> #[trigger] tick_is_marked(flip_mark(bitmaps, tick), other)
                == tick_is_marked(bitmaps, other),
{
    lemma_flip_bit(word_of(bitmaps, tick), tick % 128);
    assert forall|other: Tick| other != tick implies #[trigger] tick_is_marked(
        flip_mark(bitmaps, tick),
        other,
    ) == tick_is_marked(bitmaps, other) by {
        if other / 128 == tick / 128 {
            assert(other % 128 != tick % 128);
            assert(word_of(flip_mark(bitmaps, tick), other) == flip_bit(
                word_of(bitmaps, tick),
                tick % 128,
            ));
            assert(word_of(bitmaps, other) == word_of(bitmaps, tick));
        } else {
            assert(word_of(flip_mark(bitmaps, tick), other) == word_of(bitmaps, other));
        }
    }
}

} // verus!
