//! The market: the book, the positions, the funding tracker and the
//! best-offer cache, and what each operation does to them.

use std::collections::HashMap;
use vstd::prelude::*;
use vstd::std_specs::hash::group_hash_axioms;
use crate::account::Subaccount;
use crate::corelib::order_lib::{Book, CloseOrderParams, LimitOrder, OpenOrderParams};
use crate::corelib::swap_lib::{swap_fits, SwapParams, _get_best_offer};
use crate::position::{
    _calculate_funding_rate_premium, funding_rate_premium, funding_rate_premium_fits,
    PositionParameters, PositionUpdateErrorLog,
};
use crate::store::{
    bitmap_home, error_log_home, position_home, tick_home, BitmapStore, ErrorLogStore, MemoryPool,
    PoolInUse, PositionStore, TickStore, _ACCOUNTS_POSITION_MEMORY, _ACCOUNT_ERROR_LOGS_MEMORY,
    _INTEGRALS_BITMAPS_MEMORY, _TICKS_DETAILS_MEMORY,
};
use crate::types::{
    Amount, Asset, AssetClass, FundingRateTracker, MarketDetails, StateDetails, Tick, TickDetails,
    Time,
};

verus! {

broadcast use group_hash_axioms;

/// The limit orders registered at each tick, as a map from tick to the
/// accounts in the order they registered.
pub open spec fn registered_orders(record: HashMap<Tick, Vec<Subaccount>>) -> Map<
    Tick,
    Seq<Subaccount>,
> {
    Map::new(|tick: Tick| record@.contains_key(tick), |tick: Tick| record@[tick]@)
}

/// The accounts registered at `tick`; none where the tick has no list.
pub open spec fn accounts_at(orders: Map<Tick, Seq<Subaccount>>, tick: Tick) -> Seq<Subaccount> {
    if orders.contains_key(tick) {
        orders[tick]
    } else {
        Seq::empty()
    }
}

/// The accounts registered at each of `ticks`, tick after tick.
pub open spec fn accounts_of_ticks(orders: Map<Tick, Seq<Subaccount>>, ticks: Seq<Tick>) -> Seq<
    Subaccount,
>
    decreases ticks.len(),
{
    if ticks.len() == 0 {
        Seq::empty()
    } else {
        accounts_at(orders, ticks[0]) + accounts_of_ticks(
            orders.insert(ticks[0], Seq::empty()),
            ticks.subrange(1, ticks.len() as int),
        )
    }
}

/// The register after the accounts at each of `ticks` were taken off it:
/// each of the ticks has an empty list.
pub open spec fn orders_without_ticks(orders: Map<Tick, Seq<Subaccount>>, ticks: Seq<Tick>) -> Map<
    Tick,
    Seq<Subaccount>,
>
    decreases ticks.len(),
{
    if ticks.len() == 0 {
        orders
    } else {
        orders_without_ticks(
            orders.insert(ticks[0], Seq::empty()),
            ticks.subrange(1, ticks.len() as int),
        )
    }
}

/// The position of the first element of `accounts` that equals `account`.
pub open spec fn first_index_of(accounts: Seq<Subaccount>, account: Subaccount) -> Option<int>
    decreases accounts.len(),
{
    if accounts.len() == 0 {
        None
    } else if accounts[0] == account {
        Some(0)
    } else {
        match first_index_of(accounts.subrange(1, accounts.len() as int), account) {
            Some(index) => Some(index + 1),
            None => None,
        }
    }
}

/// The state of the market, as the contracts speak of it.
pub struct MarketView {
    pub book: Book,
    pub positions: Map<Subaccount, PositionParameters>,
    pub error_logs: Map<Subaccount, PositionUpdateErrorLog>,
    pub funding: FundingRateTracker,
    pub state: StateDetails,
    pub details: MarketDetails,
    /// The highest tick known to hold resting buys; zero for none.
    pub highest_buy_offer: Tick,
    /// The lowest tick known to hold resting sells; zero for none.
    pub lowest_sell_offer: Tick,
    pub limit_orders: Map<Tick, Seq<Subaccount>>,
    /// The accounts whose limit positions wait to be converted.
    pub executable: Seq<Subaccount>,
    /// Whether the task that converts them is running.
    pub pending_timer: bool,
    /// Whether the book, the positions and the error logs are the
    /// collections of the market's own pool, each in the region that is
    /// its own.
    pub housed: bool,
}

/// The market. The collections, and the pool whose regions hold them, are
/// the market's own: nothing outside this library reaches them, so that
/// none outlives the pool or is put in another's place.
pub struct Market {
    /// The pool whose regions hold the four collections below.
    pub(crate) pool: PoolInUse,
    pub(crate) integrals_bitmaps: BitmapStore,
    pub(crate) ticks_details: TickStore,
    pub(crate) accounts_position: PositionStore,
    pub(crate) accounts_error_logs: ErrorLogStore,
    pub funding_rate_tracker: FundingRateTracker,
    pub state_details: StateDetails,
    pub market_details: MarketDetails,
    pub highest_buy_offer: Tick,
    pub lowest_sell_offer: Tick,
    pub limit_orders_record: HashMap<Tick, Vec<Subaccount>>,
    pub executable_limit_orders_accounts: Vec<Subaccount>,
    pub pending_timer: bool,
}

impl View for Market {
    type V = MarketView;

    open(crate) spec fn view(&self) -> MarketView {
        MarketView {
            book: Book { ticks: self.ticks_details@, bitmaps: self.integrals_bitmaps@ },
            positions: self.accounts_position@,
            error_logs: self.accounts_error_logs@,
            funding: self.funding_rate_tracker,
            state: self.state_details,
            details: self.market_details,
            highest_buy_offer: self.highest_buy_offer,
            lowest_sell_offer: self.lowest_sell_offer,
            limit_orders: registered_orders(self.limit_orders_record),
            executable: self.executable_limit_orders_accounts@,
            pending_timer: self.pending_timer,
            housed: {
                &&& bitmap_home(self.integrals_bitmaps) == (
                    self.pool.held(),
                    _INTEGRALS_BITMAPS_MEMORY,
                )
                &&& tick_home(self.ticks_details) == (self.pool.held(), _TICKS_DETAILS_MEMORY)
                &&& position_home(self.accounts_position) == (
                    self.pool.held(),
                    _ACCOUNTS_POSITION_MEMORY,
                )
                &&& error_log_home(self.accounts_error_logs) == (
                    self.pool.held(),
                    _ACCOUNT_ERROR_LOGS_MEMORY,
                )
            },
        }
    }
}

impl Market {
    /// The pool whose regions hold the market's collections.
    pub open(crate) spec fn pool_of(self) -> MemoryPool {
        self.pool.held()
    }
}

impl MarketView {
    /// A market with nothing in it, paused, with the given details.
    pub open spec fn initial(details: MarketDetails) -> MarketView {
        MarketView {
            book: Book::empty(),
            positions: Map::empty(),
            error_logs: Map::empty(),
            funding: FundingRateTracker {
                net_volume_long: 0,
                total_long_shares: 0,
                net_volume_short: 0,
                total_short_shares: 0,
            },
            state: StateDetails { not_paused: false, max_leveragex10: 0, min_collateral: 0 },
            details,
            highest_buy_offer: 0,
            lowest_sell_offer: 0,
            limit_orders: Map::empty(),
            executable: Seq::empty(),
            pending_timer: false,
            housed: true,
        }
    }

    /// Whether the account holds a position or waits on an error log.
    pub open spec fn has_position_or_pending_error_log(self, account: Subaccount) -> bool {
        self.error_logs.contains_key(account) || self.positions.contains_key(account)
    }

    /// The market after the accounts registered at each of the crossed ticks
    /// were moved to the end of the queue of conversions, tick after tick;
    /// the task that converts them runs from then on.
    pub open spec fn scheduled(self, crossed_ticks: Seq<Tick>) -> MarketView {
        if crossed_ticks.len() == 0 {
            self
        } else {
            MarketView {
                executable: self.executable + accounts_of_ticks(self.limit_orders, crossed_ticks),
                limit_orders: orders_without_ticks(self.limit_orders, crossed_ticks),
                pending_timer: true,
                ..self
            }
        }
    }

    /// Whether funding can be settled for the two prices without overflow.
    pub open spec fn settle_funding_fits(self, perp_price: u128, spot_price: u128) -> bool {
        &&& funding_rate_premium_fits(perp_price, spot_price)
        &&& self.funding.settle_fits(
            vstd::math::abs(funding_rate_premium(perp_price, spot_price)) as u64,
            funding_rate_premium(perp_price, spot_price) > 0,
        )
    }

    /// The market after funding was settled for the two prices: the longs
    /// pay where the perpetual's price is above the spot price, the shorts
    /// otherwise.
    pub open spec fn settled_funding(self, perp_price: u128, spot_price: u128) -> MarketView {
        MarketView {
            funding: self.funding.settled(
                vstd::math::abs(funding_rate_premium(perp_price, spot_price)) as u64,
                funding_rate_premium(perp_price, spot_price) > 0,
            ),
            ..self
        }
    }
}

/// A copy of `asset`.
pub fn copy_of_asset(asset: &Asset) -> (copy: Asset)
    ensures
        copy == *asset,
{
    Asset {
        symbol: asset.symbol.clone(),
        class: match asset.class {
            AssetClass::Cryptocurrency => AssetClass::Cryptocurrency,
            AssetClass::FiatCurrency => AssetClass::FiatCurrency,
        },
    }
}

/// Whether two subaccounts are the same.
pub fn same_account(left: &Subaccount, right: &Subaccount) -> (same: bool)
    ensures
        same == (*left == *right),
{
    let mut index: usize = 0;
    while index < 32
        invariant
            index <= 32,
            forall|i: int| 0 <= i < index ==> left@[i] == right@[i],
        decreases 32 - index,
    {
        if left[index] != right[index] {
            return false;
        }
        index = index + 1;
    }
    assert(left@ =~= right@);
    assert(*left =~= *right);
    true
}

/// The position in `accounts` of the first entry of `account`.
pub fn position_of(accounts: &Vec<Subaccount>, account: &Subaccount) -> (found: Option<usize>)
    ensures
        match found {
            Some(index) => first_index_of(accounts@, *account) == Some(index as int) && index
                < accounts@.len(),
            None => first_index_of(accounts@, *account) is None,
        },
{
    let mut index: usize = accounts.len();
    let mut found: Option<usize> = None;
    while index > 0
        invariant
            index <= accounts@.len(),
            match found {
                Some(at) => first_index_of(
                    accounts@.subrange(index as int, accounts@.len() as int),
                    *account,
                ) == Some(at - index) && index <= at < accounts@.len(),
                None => first_index_of(
                    accounts@.subrange(index as int, accounts@.len() as int),
                    *account,
                ) is None,
            },
        decreases index,
    {
        index = index - 1;
        let ghost tail = accounts@.subrange(index as int, accounts@.len() as int);
        assert(tail.subrange(1, tail.len() as int) =~= accounts@.subrange(
            index + 1,
            accounts@.len() as int,
        ));
        assert(tail[0] == accounts@[index as int]);
        if same_account(&accounts[index], account) {
            found = Some(index);
        } else {
            found = match found {
                Some(at) => Some(at),
                None => None,
            };
        }
    }
    assert(accounts@.subrange(0, accounts@.len() as int) =~= accounts@);
    found
}

/// The register with `account` added at the end of the list of `tick`.
pub open spec fn with_tick_order(
    orders: Map<Tick, Seq<Subaccount>>,
    tick: Tick,
    account: Subaccount,
) -> Map<Tick, Seq<Subaccount>> {
    orders.insert(tick, accounts_at(orders, tick).push(account))
}

/// Whether `account` is registered at `tick`.
pub open spec fn has_tick_order(
    orders: Map<Tick, Seq<Subaccount>>,
    tick: Tick,
    account: Subaccount,
) -> bool {
    orders.contains_key(tick) && first_index_of(orders[tick], account) is Some
}

/// The register with the first entry of `account` taken off the list of
/// `tick`.
pub open spec fn without_tick_order(
    orders: Map<Tick, Seq<Subaccount>>,
    tick: Tick,
    account: Subaccount,
) -> Map<Tick, Seq<Subaccount>> {
    orders.insert(tick, orders[tick].remove(first_index_of(orders[tick], account).unwrap()))
}

/// Registers the limit position of `account` at `tick`.
pub fn store_tick_order(
    limit_orders_record: &mut HashMap<Tick, Vec<Subaccount>>,
    tick: Tick,
    account: Subaccount,
)
    ensures
        registered_orders(*final(limit_orders_record)) == with_tick_order(
            registered_orders(*old(limit_orders_record)),
            tick,
            account,
        ),
{
    let mut accounts = match limit_orders_record.remove(&tick) {
        Some(accounts) => accounts,
        None => Vec::new(),
    };
    accounts.push(account);
    limit_orders_record.insert(tick, accounts);
    assert(registered_orders(*limit_orders_record) =~= with_tick_order(
        registered_orders(*old(limit_orders_record)),
        tick,
        account,
    ));
}

/// Takes the limit position of `account` off the register of `tick`.
pub fn remove_tick_order(
    limit_orders_record: &mut HashMap<Tick, Vec<Subaccount>>,
    tick: Tick,
    account: Subaccount,
)
    requires
        has_tick_order(registered_orders(*old(limit_orders_record)), tick, account),
    ensures
        registered_orders(*final(limit_orders_record)) == without_tick_order(
            registered_orders(*old(limit_orders_record)),
            tick,
            account,
        ),
{
    let mut accounts = match limit_orders_record.remove(&tick) {
        Some(accounts) => accounts,
        None => Vec::new(),
    };
    match position_of(&accounts, &account) {
        Some(index) => {
            accounts.remove(index);
        },
        None => {},
    }
    limit_orders_record.insert(tick, accounts);
    assert(registered_orders(*limit_orders_record) =~= without_tick_order(
        registered_orders(*old(limit_orders_record)),
        tick,
        account,
    ));
}

/// Whether `remove_tick_order` accepts the account at the tick.
pub fn is_tick_order_stored(
    limit_orders_record: &HashMap<Tick, Vec<Subaccount>>,
    tick: Tick,
    account: &Subaccount,
) -> (has: bool)
    ensures
        has == has_tick_order(registered_orders(*limit_orders_record), tick, *account),
{
    match limit_orders_record.get(&tick) {
        Some(accounts) => position_of(accounts, account).is_some(),
        None => false,
    }
}

impl Market {
    /// A market with nothing in it, its collections fresh in the regions of
    /// the pool, which it keeps.
    pub fn init(pool: MemoryPool, market_details: MarketDetails) -> (market: Market)
        ensures
            market@ == MarketView::initial(market_details),
            market@.book.wf(),
            market.pool_of() == pool,
    {
        let integrals_bitmaps = BitmapStore::new(&pool);
        let ticks_details = TickStore::new(&pool);
        let accounts_position = PositionStore::new(&pool);
        let accounts_error_logs = ErrorLogStore::new(&pool);
        let market = Market {
            pool: PoolInUse::of(pool),
            integrals_bitmaps,
            ticks_details,
            accounts_position,
            accounts_error_logs,
            funding_rate_tracker: FundingRateTracker {
                net_volume_long: 0,
                total_long_shares: 0,
                net_volume_short: 0,
                total_short_shares: 0,
            },
            state_details: StateDetails { not_paused: false, max_leveragex10: 0, min_collateral: 0 },
            market_details,
            highest_buy_offer: 0,
            lowest_sell_offer: 0,
            limit_orders_record: HashMap::new(),
            executable_limit_orders_accounts: Vec::new(),
            pending_timer: false,
        };
        proof {
            crate::corelib::book_laws::lemma_empty_book_wf();
            assert(market@.limit_orders =~= Map::<Tick, Seq<Subaccount>>::empty());
        }
        market
    }

    /// The market that the regions of the pool hold, with the rest of its
    /// state as it was saved before the upgrade.
    pub fn post_upgrade(
        pool: MemoryPool,
        market_details: MarketDetails,
        state_details: StateDetails,
        funding_rate_tracker: FundingRateTracker,
        limit_orders_record: HashMap<Tick, Vec<Subaccount>>,
        executable_limit_orders_accounts: Vec<Subaccount>,
        highest_buy_offer: Tick,
        lowest_sell_offer: Tick,
    ) -> (market: Market)
        ensures
            market@.funding == funding_rate_tracker,
            market@.state == state_details,
            market@.details == market_details,
            market@.highest_buy_offer == highest_buy_offer,
            market@.lowest_sell_offer == lowest_sell_offer,
            market@.limit_orders == registered_orders(limit_orders_record),
            market@.executable == executable_limit_orders_accounts@,
            !market@.pending_timer,
            market@.housed,
            market.pool_of() == pool,
    {
        let integrals_bitmaps = BitmapStore::init(&pool);
        let ticks_details = TickStore::init(&pool);
        let accounts_position = PositionStore::init(&pool);
        let accounts_error_logs = ErrorLogStore::init(&pool);
        Market {
            pool: PoolInUse::of(pool),
            integrals_bitmaps,
            ticks_details,
            accounts_position,
            accounts_error_logs,
            funding_rate_tracker,
            state_details,
            market_details,
            highest_buy_offer,
            lowest_sell_offer,
            limit_orders_record,
            executable_limit_orders_accounts,
            pending_timer: false,
        }
    }

    /// Gives up the market before an upgrade: its pool, whose regions go on
    /// holding the book, the positions and the error logs; and what has to
    /// be saved beside them, the register of limit orders, the queue of
    /// conversions, and the cached highest buy and lowest sell.
    pub fn pre_upgrade(self) -> (saved: (
        MemoryPool,
        HashMap<Tick, Vec<Subaccount>>,
        Vec<Subaccount>,
        Tick,
        Tick,
    ))
        ensures
            saved.0 == self.pool_of(),
            registered_orders(saved.1) == self@.limit_orders,
            saved.2@ == self@.executable,
            saved.3 == self@.highest_buy_offer,
            saved.4 == self@.lowest_sell_offer,
    {
        (
            self.pool.release(),
            self.limit_orders_record,
            self.executable_limit_orders_accounts,
            self.highest_buy_offer,
            self.lowest_sell_offer,
        )
    }

    /// Whether the book is in order, as every swap and every check of a
    /// market position asks. A market that was made with nothing in it keeps
    /// its book in order; one that was taken from memory after an upgrade is
    /// asked. All of the book is read for the answer.
    pub fn book_is_in_order(&self) -> (in_order: bool)
        ensures
            in_order == self@.book.wf(),
    {
        crate::corelib::book_check::_book_is_in_order(&self.integrals_bitmaps, &self.ticks_details)
    }

    pub fn _get_state_details(&self) -> (state: StateDetails)
        ensures
            state == self@.state,
    {
        self.state_details
    }

    pub fn _set_state_details(&mut self, new_state: StateDetails)
        ensures
            final(self)@ == (MarketView { state: new_state, ..old(self)@ }),
    {
        self.state_details = new_state;
    }

    pub fn _get_market_details(&self) -> (details: MarketDetails)
        ensures
            details == self@.details,
    {
        MarketDetails {
            base_asset: copy_of_asset(&self.market_details.base_asset),
            quote_asset: copy_of_asset(&self.market_details.quote_asset),
            vault_id: self.market_details.vault_id,
            xrc_id: self.market_details.xrc_id,
            tick_spacing: self.market_details.tick_spacing,
        }
    }

    pub fn _get_account_position(&self, account: &Subaccount) -> (position: Option<
        PositionParameters,
    >)
        ensures
            position == (if self@.positions.contains_key(*account) {
                Some(self@.positions[*account])
            } else {
                None
            }),
    {
        self.accounts_position.get(account)
    }

    pub fn _get_account_error_log(&self, account: &Subaccount) -> (log: Option<
        PositionUpdateErrorLog,
    >)
        ensures
            log == (if self@.error_logs.contains_key(*account) {
                Some(self@.error_logs[*account])
            } else {
                None
            }),
    {
        self.accounts_error_logs.get(account)
    }

    pub fn _get_tick_details(&self, tick: Tick) -> (details: Option<TickDetails>)
        ensures
            details == (if self@.book.ticks.contains_key(tick) {
                Some(self@.book.ticks[tick])
            } else {
                None
            }),
    {
        self.ticks_details.get(tick)
    }

    pub fn _get_pending_timer(&self) -> (pending: bool)
        ensures
            pending == self@.pending_timer,
    {
        self.pending_timer
    }

    pub fn _set_pending_timer(&mut self, pending: bool)
        ensures
            final(self)@ == (MarketView { pending_timer: pending, ..old(self)@ }),
    {
        self.pending_timer = pending;
    }

    pub fn _has_position_or_pending_error_log(&self, account: &Subaccount) -> (has: bool)
        ensures
            has == self@.has_position_or_pending_error_log(*account),
    {
        let has_position = self.accounts_position.contains_key(account);
        let has_pending_error = self.accounts_error_logs.contains_key(account);
        has_pending_error || has_position
    }

    /// Stores `position` as the one position of `account`, in place of any
    /// it had.
    pub fn _insert_account_position(&mut self, account: Subaccount, position: PositionParameters)
        ensures
            final(self)@ == (MarketView {
                positions: old(self)@.positions.insert(account, position),
                ..old(self)@
            }),
    {
        self.accounts_position.insert(account, position);
    }

    pub fn _remove_account_position(&mut self, account: &Subaccount)
        ensures
            final(self)@ == (MarketView {
                positions: old(self)@.positions.remove(*account),
                ..old(self)@
            }),
    {
        self.accounts_position.remove(account);
    }

    /// Stores `error_log` as the one error log of `account`, in place of any
    /// it had.
    pub fn _insert_account_error_log(
        &mut self,
        account: Subaccount,
        error_log: PositionUpdateErrorLog,
    )
        ensures
            final(self)@ == (MarketView {
                error_logs: old(self)@.error_logs.insert(account, error_log),
                ..old(self)@
            }),
    {
        self.accounts_error_logs.insert(account, error_log);
    }

    pub fn _remove_account_error_log(&mut self, account: &Subaccount)
        ensures
            final(self)@ == (MarketView {
                error_logs: old(self)@.error_logs.remove(*account),
                ..old(self)@
            }),
    {
        self.accounts_error_logs.remove(account);
    }

    pub fn _update_highest_buy_offer_tick(&mut self, next_tick: Tick)
        ensures
            final(self)@ == (MarketView { highest_buy_offer: next_tick, ..old(self)@ }),
    {
        self.highest_buy_offer = next_tick;
    }

    pub fn _update_lowest_sell_offer_tick(&mut self, next_tick: Tick)
        ensures
            final(self)@ == (MarketView { lowest_sell_offer: next_tick, ..old(self)@ }),
    {
        self.lowest_sell_offer = next_tick;
    }

    pub fn _get_highest_buy_offer_tick(&self) -> (tick: Tick)
        ensures
            tick == self@.highest_buy_offer,
    {
        self.highest_buy_offer
    }

    pub fn _get_lowest_sell_offer_tick(&self) -> (tick: Tick)
        ensures
            tick == self@.lowest_sell_offer,
    {
        self.lowest_sell_offer
    }

    /// The two cached best offers, on the grid of the callers' ticks: the
    /// highest buy, then the lowest sell.
    pub fn get_best_offers(&self) -> (offers: (Tick, Tick))
        requires
            self@.highest_buy_offer * self@.details.tick_spacing <= u64::MAX,
            self@.lowest_sell_offer * self@.details.tick_spacing <= u64::MAX,
        ensures
            offers.0 == self@.highest_buy_offer * self@.details.tick_spacing,
            offers.1 == self@.lowest_sell_offer * self@.details.tick_spacing,
    {
        let tick_spacing = self.market_details.tick_spacing;
        (self.highest_buy_offer * tick_spacing, self.lowest_sell_offer * tick_spacing)
    }

    /// Places `order` on the book.
    pub fn _open_order(&mut self, order: &mut LimitOrder, now: Time)
        requires
            old(self)@.book.open_fits(*old(order), now),
        ensures
            final(self)@ == (MarketView {
                book: old(self)@.book.open_order(*old(order), now).0,
                ..old(self)@
            }),
            *final(order) == old(self)@.book.open_order(*old(order), now).1,
    {
        let mut open_order_params = OpenOrderParams {
            order,
            integrals_bitmaps: &mut self.integrals_bitmaps,
            ticks_details: &mut self.ticks_details,
        };
        open_order_params.open_order(now);
    }

    /// Closes `order` on the book: gives the amount received for what was
    /// filled and the amount that was not filled.
    pub fn _close_order(&mut self, order: &LimitOrder) -> (amounts: (Amount, Amount))
        requires
            old(self)@.book.close_fits(*order),
        ensures
            final(self)@ == (MarketView {
                book: old(self)@.book.close_order(*order).0,
                ..old(self)@
            }),
            amounts.0 == old(self)@.book.close_order(*order).1,
            amounts.1 == old(self)@.book.close_order(*order).2,
    {
        let mut close_order_params = CloseOrderParams {
            order,
            integrals_bitmaps: &mut self.integrals_bitmaps,
            ticks_details: &mut self.ticks_details,
        };
        close_order_params.close_order()
    }

    /// Swaps an order against the book.
    pub fn _swap(&mut self, order_size: Amount, buy: bool, init_tick: Tick, stopping_tick: Tick) -> (result:
        (Amount, Amount, Tick, Vec<Tick>))
        requires
            old(self)@.book.wf(),
            swap_fits(buy, init_tick, stopping_tick, order_size),
        ensures
            ({
                let outcome = old(self)@.book.swap(buy, init_tick, stopping_tick, order_size);
                &&& final(self)@ == (MarketView { book: outcome.book, ..old(self)@ })
                &&& result.0 == outcome.amount_out
                &&& result.1 == outcome.amount_remaining
                &&& result.2 == outcome.resulting_tick
                &&& result.3@ == outcome.crossed_ticks
            }),
    {
        let mut swap_params = SwapParams {
            buy,
            init_tick,
            stopping_tick,
            order_size,
            integrals_bitmaps: &mut self.integrals_bitmaps,
            ticks_details: &mut self.ticks_details,
        };
        swap_params._swap()
    }

    /// The nearest tick to `starting_tick`, on the way to `max_tick`, that
    /// offers liquidity to an order of the given direction.
    pub fn _get_next_best_offer_tick(&self, buy: bool, starting_tick: Tick, max_tick: Tick) -> (found:
        Option<Tick>)
        ensures
            found == self@.book.best_offer(buy, starting_tick, max_tick),
    {
        _get_best_offer(buy, starting_tick, max_tick, &self.integrals_bitmaps, &self.ticks_details)
    }

    /// Settles funding between the longs and the shorts for the two prices.
    pub fn _settle_funding_rate(&mut self, perp_price: u128, spot_price: u128)
        requires
            old(self)@.settle_funding_fits(perp_price, spot_price),
        ensures
            final(self)@ == old(self)@.settled_funding(perp_price, spot_price),
    {
        let funding_rate = _calculate_funding_rate_premium(perp_price, spot_price);
        let magnitude: u64 = if funding_rate >= 0 {
            funding_rate as u64
        } else {
            (-funding_rate) as u64
        };
        self.funding_rate_tracker.settle_funding_rate(magnitude, funding_rate > 0);
    }

    /// Takes the volume share of a position off its side: gives the value
    /// that the share claimed.
    pub fn _calc_position_realised_value(&mut self, volume_share: Amount, long: bool) -> (value:
        Amount)
        requires
            old(self)@.funding.remove_fits(volume_share, long),
        ensures
            value == old(self)@.funding.claim(volume_share, long),
            final(self)@ == (MarketView {
                funding: old(self)@.funding.removed(volume_share, long),
                ..old(self)@
            }),
    {
        self.funding_rate_tracker.remove_volume(volume_share, long)
    }

    /// Adds the value of a position to its side: gives the share of the
    /// side's volume that the position holds from then on.
    pub fn _calc_position_volume_share(&mut self, position_value: Amount, long: bool) -> (share:
        Amount)
        requires
            old(self)@.funding.add_fits(position_value, long),
        ensures
            share == old(self)@.funding.minted(position_value, long),
            final(self)@ == (MarketView {
                funding: old(self)@.funding.added(position_value, long),
                ..old(self)@
            }),
    {
        self.funding_rate_tracker.add_volume(position_value, long)
    }

    /// Schedules the conversion of the limit positions at the crossed
    /// ticks. Gives whether the task that converts them is to be started.
    pub fn _schedule_execution_for_ticks_orders(&mut self, crossed_ticks: Vec<Tick>) -> (start_timer:
        bool)
        ensures
            final(self)@ == old(self)@.scheduled(crossed_ticks@),
            start_timer == (crossed_ticks@.len() > 0 && !old(self)@.pending_timer),
    {
        if crossed_ticks.len() == 0 {
            return false;
        }
        self._execute_accounts_serialization_for_each_tick(crossed_ticks)
    }

    /// Moves the accounts registered at each of `ticks` to the end of the
    /// queue of conversions. Gives whether the task that converts them is to
    /// be started, which is where it does not run yet.
    pub fn _execute_accounts_serialization_for_each_tick(&mut self, ticks: Vec<Tick>) -> (start_timer:
        bool)
        ensures
            final(self)@ == (MarketView {
                executable: old(self)@.executable + accounts_of_ticks(
                    old(self)@.limit_orders,
                    ticks@,
                ),
                limit_orders: orders_without_ticks(old(self)@.limit_orders, ticks@),
                pending_timer: true,
                ..old(self)@
            }),
            start_timer == !old(self)@.pending_timer,
    {
        let mut index: usize = 0;
        assert(ticks@.subrange(0, ticks@.len() as int) =~= ticks@);
        while index < ticks.len()
            invariant
                index <= ticks@.len(),
                self@ == (MarketView {
                    executable: self@.executable,
                    limit_orders: self@.limit_orders,
                    ..old(self)@
                }),
                old(self)@.executable + accounts_of_ticks(old(self)@.limit_orders, ticks@)
                    == self@.executable + accounts_of_ticks(
                    self@.limit_orders,
                    ticks@.subrange(index as int, ticks@.len() as int),
                ),
                orders_without_ticks(old(self)@.limit_orders, ticks@) == orders_without_ticks(
                    self@.limit_orders,
                    ticks@.subrange(index as int, ticks@.len() as int),
                ),
            decreases ticks@.len() - index,
        {
            let tick = ticks[index];
            let ghost before = self@;
            let ghost rest = ticks@.subrange(index as int, ticks@.len() as int);
            let mut tick_accounts = match self.limit_orders_record.remove(&tick) {
                Some(accounts) => accounts,
                None => Vec::new(),
            };
            self.executable_limit_orders_accounts.append(&mut tick_accounts);
            self.limit_orders_record.insert(tick, tick_accounts);
            proof {
                assert(rest[0] == tick);
                assert(rest.subrange(1, rest.len() as int) =~= ticks@.subrange(
                    index + 1,
                    ticks@.len() as int,
                ));
                assert(self@.limit_orders =~= before.limit_orders.insert(tick, Seq::empty()));
                assert(self@.executable =~= before.executable + accounts_at(
                    before.limit_orders,
                    tick,
                ));
                assert(before.executable + (accounts_at(before.limit_orders, tick)
                    + accounts_of_ticks(
                    before.limit_orders.insert(tick, Seq::empty()),
                    rest.subrange(1, rest.len() as int),
                )) =~= (before.executable + accounts_at(before.limit_orders, tick))
                    + accounts_of_ticks(
                    before.limit_orders.insert(tick, Seq::empty()),
                    rest.subrange(1, rest.len() as int),
                ));
            }
            index = index + 1;
        }
        assert(ticks@.subrange(ticks@.len() as int, ticks@.len() as int) =~= Seq::<Tick>::empty());
        let start_timer = !self.pending_timer;
        self.pending_timer = true;
        start_timer
    }
}

} // verus!
