//! The stable collections that hold the market, behind contracts over what
//! they contain.
//!
//! The collections live in the canister's stable memory. The contracts say
//! what each call does to the entries; that the memory can grow to take a
//! new entry is taken for granted, as it is of the heap.

use vstd::prelude::*;
use ic_stable_structures::memory_manager::{MemoryId, MemoryManager, VirtualMemory};
use ic_stable_structures::{DefaultMemoryImpl, StableBTreeMap};
use candid::Principal;
use crate::account::Subaccount;
use crate::corelib::order_lib::LimitOrder;
use crate::position::{
    ManageDebtParams, PositionOrderType, PositionParameters, PositionUpdateErrorLog,
};
use crate::types::{LiquidityBoundary, Tick, TickDetails, TickState};

verus! {

/// Identifier of the memory region that holds the tick records.
pub const _TICKS_DETAILS_MEMORY: u8 = 4;

/// Identifier of the memory region that holds the bitmap words.
pub const _INTEGRALS_BITMAPS_MEMORY: u8 = 5;

/// Identifier of the memory region that holds the positions.
pub const _ACCOUNTS_POSITION_MEMORY: u8 = 7;

/// Identifier of the memory region that holds the error logs.
pub const _ACCOUNT_ERROR_LOGS_MEMORY: u8 = 8;

/// A position as the stable map stores it: owner, entry tick and side; then
/// collateral, debt and volume share; then rate, time and whether it is a
/// limit position; then its order, as side, size and removed liquidity at
/// placing, and as queue start, tick and the record's time.
pub type PositionRow = (
    (Principal, u64, bool),
    (u128, u128, u128),
    ((u32, u64, bool), (bool, u128, u128), (u128, u64, u64)),
);

/// An error log as the stable map stores it: user, profit, and the three
/// debt amounts.
pub type ErrorLogRow = (Principal, u128, (u128, u128, u128));

/// A tick record as the stable map stores it: creation time, whether the
/// tick is on the buy side, and the three liquidity marks.
pub type TickRow = (u64, bool, (u128, u128, u128));

/// The memory manager that hands each collection its own region of the
/// canister's stable memory. A pool is given away to whoever makes the
/// collections of its regions, so that no region ever has two collections
/// at a time.
#[verifier::external_body]
pub struct MemoryPool {
    inner: MemoryManager<DefaultMemoryImpl>,
}

/// A pool whose regions are in use: it is kept beside the collections of
/// its regions and given back only when they are given up.
pub struct PoolInUse {
    pool: MemoryPool,
}

impl PoolInUse {
    /// The pool that is kept.
    pub closed spec fn held(self) -> MemoryPool {
        self.pool
    }

    /// Keeps `pool` while its regions are in use.
    pub(crate) fn of(pool: MemoryPool) -> (in_use: PoolInUse)
        ensures
            in_use.held() == pool,
    {
        PoolInUse { pool }
    }

    /// Gives back the pool that was kept.
    pub(crate) fn release(self) -> (pool: MemoryPool)
        ensures
            pool == self.held(),
    {
        self.pool
    }
}

/// The stable map from word index to bitmap word.
#[verifier::external_body]
pub struct BitmapStore {
    inner: StableBTreeMap<u64, u128, VirtualMemory<DefaultMemoryImpl>>,
}

/// The stable map from tick to the stored form of its record.
#[verifier::external_body]
pub struct TickStore {
    inner: StableBTreeMap<u64, TickRow, VirtualMemory<DefaultMemoryImpl>>,
}

/// The entries of a `BitmapStore`.
pub uninterp spec fn bitmap_words(store: BitmapStore) -> Map<u64, u128>;

/// The pool and the region of it that a `BitmapStore` was made in.
pub uninterp spec fn bitmap_home(store: BitmapStore) -> (MemoryPool, u8);

/// The entries of a `TickStore`.
pub uninterp spec fn tick_rows(store: TickStore) -> Map<u64, TickRow>;

/// The pool and the region of it that a `TickStore` was made in.
pub uninterp spec fn tick_home(store: TickStore) -> (MemoryPool, u8);

/// The record that a stored row stands for.
pub open spec fn row_details(row: TickRow) -> TickDetails {
    TickDetails {
        tick_state: if row.1 {
            TickState::BUY
        } else {
            TickState::SELL
        },
        liq_bounds: LiquidityBoundary {
            upper_bound: row.2.0,
            lower_bound: row.2.1,
            lifetime_removed_liquidity: row.2.2,
        },
        created_timestamp: row.0,
    }
}

/// The row that stores a record.
pub open spec fn details_row(details: TickDetails) -> TickRow {
    (
        details.created_timestamp,
        details.tick_state == TickState::BUY,
        (
            details.liq_bounds.upper_bound,
            details.liq_bounds.lower_bound,
            details.liq_bounds.lifetime_removed_liquidity,
        ),
    )
}

/// Storing a record and reading it back gives the record.
pub proof fn lemma_row_round_trip(details: TickDetails)
    ensures
        row_details(details_row(details)) == details,
{
}

impl MemoryPool {
    /// `MemoryManager::init` over `DefaultMemoryImpl::default()`. Nothing is
    /// claimed of the manager it returns. On a canister the default memory
    /// is the one stable memory of the canister, so that a canister makes
    /// one pool; elsewhere each pool has a memory of its own.
    #[verifier::external_body]
    fn init_default() -> MemoryPool {
        MemoryPool { inner: MemoryManager::init(DefaultMemoryImpl::default()) }
    }

    /// A manager over the default memory of the platform.
    pub fn new() -> MemoryPool {
        MemoryPool::init_default()
    }

    /// The two collections of an order book with nothing in it, in the
    /// pool's regions for bitmap words and for tick records.
    pub fn new_book(self) -> (book: (BitmapStore, TickStore))
        ensures
            book.0@ == (Map::<u64, u128>::empty()),
            book.1@ == (Map::<Tick, TickDetails>::empty()),
            bitmap_home(book.0) == (self, _INTEGRALS_BITMAPS_MEMORY),
            tick_home(book.1) == (self, _TICKS_DETAILS_MEMORY),
    {
        (BitmapStore::new(&self), TickStore::new(&self))
    }

    /// The two collections of the order book that the pool's regions for
    /// bitmap words and for tick records hold. What they hold is what the
    /// memory holds: nothing is known of it here.
    pub fn load_book(self) -> (book: (BitmapStore, TickStore))
        ensures
            bitmap_home(book.0) == (self, _INTEGRALS_BITMAPS_MEMORY),
            tick_home(book.1) == (self, _TICKS_DETAILS_MEMORY),
    {
        (BitmapStore::init(&self), TickStore::init(&self))
    }
}

impl View for BitmapStore {
    type V = Map<u64, u128>;

    open spec fn view(&self) -> Map<u64, u128> {
        bitmap_words(*self)
    }
}

impl BitmapStore {
    /// `StableBTreeMap::new` on the region `id` of the pool, reached with
    /// `MemoryManager::get` and `MemoryId::new`: a map with no entry, made
    /// in that region of that pool. The identifier 255 is left out, because
    /// `MemoryId::new` panics on it.
    #[verifier::external_body]
    fn create(pool: &MemoryPool, id: u8) -> (store: BitmapStore)
        requires
            id != 255,
        ensures
            bitmap_words(store) == (Map::<u64, u128>::empty()),
            bitmap_home(store) == (*pool, id),
    {
        BitmapStore { inner: StableBTreeMap::new(pool.inner.get(MemoryId::new(id))) }
    }

    /// `StableBTreeMap::init` on the region `id` of the pool: the map that
    /// the region already holds, or an empty one, made in that region of
    /// that pool. Nothing is claimed of its entries, which are what the
    /// memory holds.
    #[verifier::external_body]
    fn load(pool: &MemoryPool, id: u8) -> (store: BitmapStore)
        requires
            id != 255,
        ensures
            bitmap_home(store) == (*pool, id),
    {
        BitmapStore { inner: StableBTreeMap::init(pool.inner.get(MemoryId::new(id))) }
    }

    /// `StableBTreeMap::get`: the word stored under `integral`, if any.
    #[verifier::external_body]
    fn word_get(&self, integral: u64) -> (word: Option<u128>)
        ensures
            word == (if bitmap_words(*self).contains_key(integral) {
                Some(bitmap_words(*self)[integral])
            } else {
                None
            }),
    {
        self.inner.get(&integral)
    }

    /// `StableBTreeMap::insert`: afterwards `integral` maps to `word` and
    /// every other entry is as before; the map stays where it was made.
    #[verifier::external_body]
    fn word_insert(&mut self, integral: u64, word: u128)
        ensures
            bitmap_words(*final(self)) == bitmap_words(*old(self)).insert(integral, word),
            bitmap_home(*final(self)) == bitmap_home(*old(self)),
    {
        self.inner.insert(integral, word);
    }

    /// `StableBTreeMap::range` from `from` on, and the first entry that its
    /// iterator gives. The iterator goes by ascending key, so that this is
    /// the entry of the least key that is `from` or more, if there is one.
    #[verifier::external_body]
    fn word_from(&self, from: u64) -> (found: Option<(u64, u128)>)
        ensures
            (match found {
                Some(entry) => {
                    &&& from <= entry.0
                    &&& bitmap_words(*self).contains_key(entry.0)
                    &&& bitmap_words(*self)[entry.0] == entry.1
                    &&& forall|key: u64|
                        from <= key < entry.0 ==> !bitmap_words(*self).contains_key(key)
                },
                None => forall|key: u64| from <= key ==> !bitmap_words(*self).contains_key(key),
            }),
    {
        self.inner.range(from..).next()
    }

    /// The word of the least key that is `from` or more, with its key.
    pub fn first_from(&self, from: u64) -> (found: Option<(u64, u128)>)
        ensures
            match found {
                Some(entry) => {
                    &&& from <= entry.0
                    &&& self@.contains_key(entry.0)
                    &&& self@[entry.0] == entry.1
                    &&& forall|key: u64| from <= key < entry.0 ==> !self@.contains_key(key)
                },
                None => forall|key: u64| from <= key ==> !self@.contains_key(key),
            },
    {
        self.word_from(from)
    }

    /// An empty bitmap in the pool's region for bitmap words.
    pub(crate) fn new(pool: &MemoryPool) -> (store: BitmapStore)
        ensures
            store@ == Map::<u64, u128>::empty(),
            bitmap_home(store) == (*pool, _INTEGRALS_BITMAPS_MEMORY),
    {
        BitmapStore::create(pool, _INTEGRALS_BITMAPS_MEMORY)
    }

    /// The bitmap that the pool's region for bitmap words holds.
    pub(crate) fn init(pool: &MemoryPool) -> (store: BitmapStore)
        ensures
            bitmap_home(store) == (*pool, _INTEGRALS_BITMAPS_MEMORY),
    {
        BitmapStore::load(pool, _INTEGRALS_BITMAPS_MEMORY)
    }

    pub fn get(&self, integral: u64) -> (word: Option<u128>)
        ensures
            word == (if self@.contains_key(integral) {
                Some(self@[integral])
            } else {
                None
            }),
    {
        self.word_get(integral)
    }

    pub fn insert(&mut self, integral: u64, word: u128)
        ensures
            final(self)@ == old(self)@.insert(integral, word),
            bitmap_home(*final(self)) == bitmap_home(*old(self)),
    {
        self.word_insert(integral, word)
    }
}

impl View for TickStore {
    type V = Map<Tick, TickDetails>;

    open spec fn view(&self) -> Map<Tick, TickDetails> {
        Map::new(
            |tick: Tick| tick_rows(*self).contains_key(tick),
            |tick: Tick| row_details(tick_rows(*self)[tick]),
        )
    }
}

impl TickStore {
    /// `StableBTreeMap::new` on the region `id` of the pool: a map with no
    /// entry, made in that region of that pool. The identifier 255 is left
    /// out, because `MemoryId::new` panics on it.
    #[verifier::external_body]
    fn create(pool: &MemoryPool, id: u8) -> (store: TickStore)
        requires
            id != 255,
        ensures
            tick_rows(store) == (Map::<u64, TickRow>::empty()),
            tick_home(store) == (*pool, id),
    {
        TickStore { inner: StableBTreeMap::new(pool.inner.get(MemoryId::new(id))) }
    }

    /// `StableBTreeMap::init` on the region `id` of the pool: the map that
    /// the region already holds, or an empty one, made in that region of
    /// that pool. Nothing is claimed of its entries, which are what the
    /// memory holds.
    #[verifier::external_body]
    fn load(pool: &MemoryPool, id: u8) -> (store: TickStore)
        requires
            id != 255,
        ensures
            tick_home(store) == (*pool, id),
    {
        TickStore { inner: StableBTreeMap::init(pool.inner.get(MemoryId::new(id))) }
    }

    /// `StableBTreeMap::get`: the row stored under `tick`, if any.
    #[verifier::external_body]
    fn row_get(&self, tick: u64) -> (row: Option<TickRow>)
        ensures
            row == (if tick_rows(*self).contains_key(tick) {
                Some(tick_rows(*self)[tick])
            } else {
                None
            }),
    {
        self.inner.get(&tick)
    }

    /// `StableBTreeMap::insert`: afterwards `tick` maps to `row` and every
    /// other entry is as before; the map stays where it was made.
    #[verifier::external_body]
    fn row_insert(&mut self, tick: u64, row: TickRow)
        ensures
            tick_rows(*final(self)) == tick_rows(*old(self)).insert(tick, row),
            tick_home(*final(self)) == tick_home(*old(self)),
    {
        self.inner.insert(tick, row);
    }

    /// `StableBTreeMap::remove`: afterwards `tick` has no entry and every
    /// other entry is as before; the map stays where it was made.
    #[verifier::external_body]
    fn row_remove(&mut self, tick: u64)
        ensures
            tick_rows(*final(self)) == tick_rows(*old(self)).remove(tick),
            tick_home(*final(self)) == tick_home(*old(self)),
    {
        self.inner.remove(&tick);
    }

    /// `StableBTreeMap::range` from `from` on, and the first entry that its
    /// iterator gives. The iterator goes by ascending key, so that this is
    /// the entry of the least key that is `from` or more, if there is one.
    #[verifier::external_body]
    fn row_from(&self, from: u64) -> (found: Option<(u64, TickRow)>)
        ensures
            (match found {
                Some(entry) => {
                    &&& from <= entry.0
                    &&& tick_rows(*self).contains_key(entry.0)
                    &&& tick_rows(*self)[entry.0] == entry.1
                    &&& forall|key: u64|
                        from <= key < entry.0 ==> !tick_rows(*self).contains_key(key)
                },
                None => forall|key: u64| from <= key ==> !tick_rows(*self).contains_key(key),
            }),
    {
        self.inner.range(from..).next()
    }

    /// The record of the least tick that is `from` or more, with its tick.
    pub fn first_from(&self, from: Tick) -> (found: Option<(Tick, TickDetails)>)
        ensures
            match found {
                Some(entry) => {
                    &&& from <= entry.0
                    &&& self@.contains_key(entry.0)
                    &&& self@[entry.0] == entry.1
                    &&& forall|tick: Tick| from <= tick < entry.0 ==> !self@.contains_key(tick)
                },
                None => forall|tick: Tick| from <= tick ==> !self@.contains_key(tick),
            },
    {
        match self.row_from(from) {
            Some((tick, row)) => {
                assert forall|other: Tick| from <= other < tick implies !self@.contains_key(
                    other,
                ) by {
                    assert(!tick_rows(*self).contains_key(other));
                }
                Some(
                    (
                        tick,
                        TickDetails {
                            tick_state: if row.1 {
                                TickState::BUY
                            } else {
                                TickState::SELL
                            },
                            liq_bounds: LiquidityBoundary {
                                upper_bound: row.2.0,
                                lower_bound: row.2.1,
                                lifetime_removed_liquidity: row.2.2,
                            },
                            created_timestamp: row.0,
                        },
                    ),
                )
            },
            None => {
                assert forall|other: Tick| from <= other implies !self@.contains_key(other) by {
                    assert(!tick_rows(*self).contains_key(other));
                }
                None
            },
        }
    }

    /// An empty tick book in the pool's region for tick records.
    pub(crate) fn new(pool: &MemoryPool) -> (store: TickStore)
        ensures
            store@ == Map::<Tick, TickDetails>::empty(),
            tick_home(store) == (*pool, _TICKS_DETAILS_MEMORY),
    {
        let store = TickStore::create(pool, _TICKS_DETAILS_MEMORY);
        assert(store@ =~= Map::<Tick, TickDetails>::empty());
        store
    }

    /// The tick book that the pool's region for tick records holds.
    pub(crate) fn init(pool: &MemoryPool) -> (store: TickStore)
        ensures
            tick_home(store) == (*pool, _TICKS_DETAILS_MEMORY),
    {
        TickStore::load(pool, _TICKS_DETAILS_MEMORY)
    }

    /// The record of `tick`, if the tick is populated.
    pub fn get(&self, tick: Tick) -> (details: Option<TickDetails>)
        ensures
            details == (if self@.contains_key(tick) {
                Some(self@[tick])
            } else {
                None
            }),
    {
        match self.row_get(tick) {
            Some(row) => Some(
                TickDetails {
                    tick_state: if row.1 {
                        TickState::BUY
                    } else {
                        TickState::SELL
                    },
                    liq_bounds: LiquidityBoundary {
                        upper_bound: row.2.0,
                        lower_bound: row.2.1,
                        lifetime_removed_liquidity: row.2.2,
                    },
                    created_timestamp: row.0,
                },
            ),
            None => None,
        }
    }

    /// Stores `details` as the record of `tick`.
    pub fn insert(&mut self, tick: Tick, details: TickDetails)
        ensures
            final(self)@ == old(self)@.insert(tick, details),
            tick_home(*final(self)) == tick_home(*old(self)),
    {
        let on_buy_side = match details.tick_state {
            TickState::BUY => true,
            TickState::SELL => false,
        };
        let row: TickRow = (
            details.created_timestamp,
            on_buy_side,
            (
                details.liq_bounds.upper_bound,
                details.liq_bounds.lower_bound,
                details.liq_bounds.lifetime_removed_liquidity,
            ),
        );
        assert(row_details(row) == details);
        self.row_insert(tick, row);
        assert(self@ =~= old(self)@.insert(tick, details));
    }

    /// Destroys the record of `tick`.
    pub fn remove(&mut self, tick: Tick)
        ensures
            final(self)@ == old(self)@.remove(tick),
            tick_home(*final(self)) == tick_home(*old(self)),
    {
        self.row_remove(tick);
        assert(self@ =~= old(self)@.remove(tick));
    }
}

/// The stable map from subaccount to the stored form of its position.
#[verifier::external_body]
pub struct PositionStore {
    inner: StableBTreeMap<[u8; 32], PositionRow, VirtualMemory<DefaultMemoryImpl>>,
}

/// The stable map from subaccount to the stored form of its error log.
#[verifier::external_body]
pub struct ErrorLogStore {
    inner: StableBTreeMap<[u8; 32], ErrorLogRow, VirtualMemory<DefaultMemoryImpl>>,
}

/// The entries of a `PositionStore`.
pub uninterp spec fn position_rows(store: PositionStore) -> Map<Subaccount, PositionRow>;

/// The pool and the region of it that a `PositionStore` was made in.
pub uninterp spec fn position_home(store: PositionStore) -> (MemoryPool, u8);

/// The entries of an `ErrorLogStore`.
pub uninterp spec fn error_log_rows(store: ErrorLogStore) -> Map<Subaccount, ErrorLogRow>;

/// The pool and the region of it that an `ErrorLogStore` was made in.
pub uninterp spec fn error_log_home(store: ErrorLogStore) -> (MemoryPool, u8);

/// The position that a stored row stands for.
pub open spec fn row_position(row: PositionRow) -> PositionParameters {
    PositionParameters {
        owner: row.0.0,
        entry_tick: row.0.1,
        long: row.0.2,
        collateral_value: row.1.0,
        debt_value: row.1.1,
        volume_share: row.1.2,
        interest_rate: row.2.0.0,
        order_type: if row.2.0.2 {
            PositionOrderType::Limit(
                LimitOrder {
                    buy: row.2.1.0,
                    order_size: row.2.1.1,
                    init_removed_liquidity: row.2.1.2,
                    init_lower_bound: row.2.2.0,
                    ref_tick: row.2.2.1,
                    init_tick_timestamp: row.2.2.2,
                },
            )
        } else {
            PositionOrderType::Market
        },
        timestamp: row.2.0.1,
    }
}

/// The error log that a stored row stands for.
pub open spec fn row_error_log(row: ErrorLogRow) -> PositionUpdateErrorLog {
    PositionUpdateErrorLog {
        user: row.0,
        profit: row.1,
        debt_params: ManageDebtParams {
            initial_debt: row.2.0,
            net_debt: row.2.1,
            amount_repaid: row.2.2,
        },
    }
}

impl View for PositionStore {
    type V = Map<Subaccount, PositionParameters>;

    open spec fn view(&self) -> Map<Subaccount, PositionParameters> {
        Map::new(
            |account: Subaccount| position_rows(*self).contains_key(account),
            |account: Subaccount| row_position(position_rows(*self)[account]),
        )
    }
}

impl PositionStore {
    /// `StableBTreeMap::new` on the region `id` of the pool: a map with no
    /// entry, made in that region of that pool. The identifier 255 is left
    /// out, because `MemoryId::new` panics on it.
    #[verifier::external_body]
    fn create(pool: &MemoryPool, id: u8) -> (store: PositionStore)
        requires
            id != 255,
        ensures
            position_rows(store) == (Map::<Subaccount, PositionRow>::empty()),
            position_home(store) == (*pool, id),
    {
        PositionStore { inner: StableBTreeMap::new(pool.inner.get(MemoryId::new(id))) }
    }

    /// `StableBTreeMap::init` on the region `id` of the pool: the map that
    /// the region already holds, or an empty one, made in that region of
    /// that pool. Nothing is claimed of its entries, which are what the
    /// memory holds.
    #[verifier::external_body]
    fn load(pool: &MemoryPool, id: u8) -> (store: PositionStore)
        requires
            id != 255,
        ensures
            position_home(store) == (*pool, id),
    {
        PositionStore { inner: StableBTreeMap::init(pool.inner.get(MemoryId::new(id))) }
    }

    /// `StableBTreeMap::get`: the row stored under `account`, if any.
    #[verifier::external_body]
    fn row_get(&self, account: &Subaccount) -> (row: Option<PositionRow>)
        ensures
            row == (if position_rows(*self).contains_key(*account) {
                Some(position_rows(*self)[*account])
            } else {
                None
            }),
    {
        self.inner.get(account)
    }

    /// `StableBTreeMap::contains_key`: whether `account` has an entry.
    #[verifier::external_body]
    fn row_exists(&self, account: &Subaccount) -> (exists: bool)
        ensures
            exists == position_rows(*self).contains_key(*account),
    {
        self.inner.contains_key(account)
    }

    /// `StableBTreeMap::insert`: afterwards `account` maps to `row` and every
    /// other entry is as before; the map stays where it was made.
    #[verifier::external_body]
    fn row_insert(&mut self, account: Subaccount, row: PositionRow)
        ensures
            position_rows(*final(self)) == position_rows(*old(self)).insert(account, row),
            position_home(*final(self)) == position_home(*old(self)),
    {
        self.inner.insert(account, row);
    }

    /// `StableBTreeMap::remove`: afterwards `account` has no entry and every
    /// other entry is as before; the map stays where it was made.
    #[verifier::external_body]
    fn row_remove(&mut self, account: &Subaccount)
        ensures
            position_rows(*final(self)) == position_rows(*old(self)).remove(*account),
            position_home(*final(self)) == position_home(*old(self)),
    {
        self.inner.remove(account);
    }

    /// An empty map of positions in the pool's region for positions.
    pub(crate) fn new(pool: &MemoryPool) -> (store: PositionStore)
        ensures
            store@ == (Map::<Subaccount, PositionParameters>::empty()),
            position_home(store) == (*pool, _ACCOUNTS_POSITION_MEMORY),
    {
        let store = PositionStore::create(pool, _ACCOUNTS_POSITION_MEMORY);
        assert(store@ =~= Map::<Subaccount, PositionParameters>::empty());
        store
    }

    /// The positions that the pool's region for positions holds.
    pub(crate) fn init(pool: &MemoryPool) -> (store: PositionStore)
        ensures
            position_home(store) == (*pool, _ACCOUNTS_POSITION_MEMORY),
    {
        PositionStore::load(pool, _ACCOUNTS_POSITION_MEMORY)
    }

    /// The position of `account`, if it has one.
    pub fn get(&self, account: &Subaccount) -> (position: Option<PositionParameters>)
        ensures
            position == (if self@.contains_key(*account) {
                Some(self@[*account])
            } else {
                None
            }),
    {
        match self.row_get(account) {
            Some(row) => Some(
                PositionParameters {
                    owner: row.0.0,
                    entry_tick: row.0.1,
                    long: row.0.2,
                    collateral_value: row.1.0,
                    debt_value: row.1.1,
                    volume_share: row.1.2,
                    interest_rate: row.2.0.0,
                    order_type: if row.2.0.2 {
                        PositionOrderType::Limit(
                            LimitOrder {
                                buy: row.2.1.0,
                                order_size: row.2.1.1,
                                init_removed_liquidity: row.2.1.2,
                                init_lower_bound: row.2.2.0,
                                ref_tick: row.2.2.1,
                                init_tick_timestamp: row.2.2.2,
                            },
                        )
                    } else {
                        PositionOrderType::Market
                    },
                    timestamp: row.2.0.1,
                },
            ),
            None => None,
        }
    }

    /// Whether `account` has a position.
    pub fn contains_key(&self, account: &Subaccount) -> (exists: bool)
        ensures
            exists == self@.contains_key(*account),
    {
        self.row_exists(account)
    }

    /// Stores `position` as the position of `account`.
    pub fn insert(&mut self, account: Subaccount, position: PositionParameters)
        ensures
            final(self)@ == old(self)@.insert(account, position),
            position_home(*final(self)) == position_home(*old(self)),
    {
        let (is_limit, order) = match position.order_type {
            PositionOrderType::Limit(order) => (true, order),
            PositionOrderType::Market => (
                false,
                LimitOrder {
                    buy: false,
                    order_size: 0,
                    init_removed_liquidity: 0,
                    init_lower_bound: 0,
                    ref_tick: 0,
                    init_tick_timestamp: 0,
                },
            ),
        };
        let row: PositionRow = (
            (position.owner, position.entry_tick, position.long),
            (position.collateral_value, position.debt_value, position.volume_share),
            (
                (position.interest_rate, position.timestamp, is_limit),
                (order.buy, order.order_size, order.init_removed_liquidity),
                (order.init_lower_bound, order.ref_tick, order.init_tick_timestamp),
            ),
        );
        assert(row_position(row) == position);
        self.row_insert(account, row);
        assert(self@ =~= old(self)@.insert(account, position));
    }

    /// Removes the position of `account`.
    pub fn remove(&mut self, account: &Subaccount)
        ensures
            final(self)@ == old(self)@.remove(*account),
            position_home(*final(self)) == position_home(*old(self)),
    {
        self.row_remove(account);
        assert(self@ =~= old(self)@.remove(*account));
    }
}

impl View for ErrorLogStore {
    type V = Map<Subaccount, PositionUpdateErrorLog>;

    open spec fn view(&self) -> Map<Subaccount, PositionUpdateErrorLog> {
        Map::new(
            |account: Subaccount| error_log_rows(*self).contains_key(account),
            |account: Subaccount| row_error_log(error_log_rows(*self)[account]),
        )
    }
}

impl ErrorLogStore {
    /// `StableBTreeMap::new` on the region `id` of the pool: a map with no
    /// entry, made in that region of that pool. The identifier 255 is left
    /// out, because `MemoryId::new` panics on it.
    #[verifier::external_body]
    fn create(pool: &MemoryPool, id: u8) -> (store: ErrorLogStore)
        requires
            id != 255,
        ensures
            error_log_rows(store) == (Map::<Subaccount, ErrorLogRow>::empty()),
            error_log_home(store) == (*pool, id),
    {
        ErrorLogStore { inner: StableBTreeMap::new(pool.inner.get(MemoryId::new(id))) }
    }

    /// `StableBTreeMap::init` on the region `id` of the pool: the map that
    /// the region already holds, or an empty one, made in that region of
    /// that pool. Nothing is claimed of its entries, which are what the
    /// memory holds.
    #[verifier::external_body]
    fn load(pool: &MemoryPool, id: u8) -> (store: ErrorLogStore)
        requires
            id != 255,
        ensures
            error_log_home(store) == (*pool, id),
    {
        ErrorLogStore { inner: StableBTreeMap::init(pool.inner.get(MemoryId::new(id))) }
    }

    /// `StableBTreeMap::get`: the row stored under `account`, if any.
    #[verifier::external_body]
    fn row_get(&self, account: &Subaccount) -> (row: Option<ErrorLogRow>)
        ensures
            row == (if error_log_rows(*self).contains_key(*account) {
                Some(error_log_rows(*self)[*account])
            } else {
                None
            }),
    {
        self.inner.get(account)
    }

    /// `StableBTreeMap::contains_key`: whether `account` has an entry.
    #[verifier::external_body]
    fn row_exists(&self, account: &Subaccount) -> (exists: bool)
        ensures
            exists == error_log_rows(*self).contains_key(*account),
    {
        self.inner.contains_key(account)
    }

    /// `StableBTreeMap::insert`: afterwards `account` maps to `row` and every
    /// other entry is as before; the map stays where it was made.
    #[verifier::external_body]
    fn row_insert(&mut self, account: Subaccount, row: ErrorLogRow)
        ensures
            error_log_rows(*final(self)) == error_log_rows(*old(self)).insert(account, row),
            error_log_home(*final(self)) == error_log_home(*old(self)),
    {
        self.inner.insert(account, row);
    }

    /// `StableBTreeMap::remove`: afterwards `account` has no entry and every
    /// other entry is as before; the map stays where it was made.
    #[verifier::external_body]
    fn row_remove(&mut self, account: &Subaccount)
        ensures
            error_log_rows(*final(self)) == error_log_rows(*old(self)).remove(*account),
            error_log_home(*final(self)) == error_log_home(*old(self)),
    {
        self.inner.remove(account);
    }

    /// An empty map of error logs in the pool's region for error logs.
    pub(crate) fn new(pool: &MemoryPool) -> (store: ErrorLogStore)
        ensures
            store@ == (Map::<Subaccount, PositionUpdateErrorLog>::empty()),
            error_log_home(store) == (*pool, _ACCOUNT_ERROR_LOGS_MEMORY),
    {
        let store = ErrorLogStore::create(pool, _ACCOUNT_ERROR_LOGS_MEMORY);
        assert(store@ =~= Map::<Subaccount, PositionUpdateErrorLog>::empty());
        store
    }

    /// The error logs that the pool's region for error logs holds.
    pub(crate) fn init(pool: &MemoryPool) -> (store: ErrorLogStore)
        ensures
            error_log_home(store) == (*pool, _ACCOUNT_ERROR_LOGS_MEMORY),
    {
        ErrorLogStore::load(pool, _ACCOUNT_ERROR_LOGS_MEMORY)
    }

    /// The error log of `account`, if it has one.
    pub fn get(&self, account: &Subaccount) -> (log: Option<PositionUpdateErrorLog>)
        ensures
            log == (if self@.contains_key(*account) {
                Some(self@[*account])
            } else {
                None
            }),
    {
        match self.row_get(account) {
            Some(row) => Some(
                PositionUpdateErrorLog {
                    user: row.0,
                    profit: row.1,
                    debt_params: ManageDebtParams {
                        initial_debt: row.2.0,
                        net_debt: row.2.1,
                        amount_repaid: row.2.2,
                    },
                },
            ),
            None => None,
        }
    }

    /// Whether `account` has an error log.
    pub fn contains_key(&self, account: &Subaccount) -> (exists: bool)
        ensures
            exists == self@.contains_key(*account),
    {
        self.row_exists(account)
    }

    /// Stores `log` as the error log of `account`.
    pub fn insert(&mut self, account: Subaccount, log: PositionUpdateErrorLog)
        ensures
            final(self)@ == old(self)@.insert(account, log),
            error_log_home(*final(self)) == error_log_home(*old(self)),
    {
        let row: ErrorLogRow = (
            log.user,
            log.profit,
            (log.debt_params.initial_debt, log.debt_params.net_debt, log.debt_params.amount_repaid),
        );
        assert(row_error_log(row) == log);
        self.row_insert(account, row);
        assert(self@ =~= old(self)@.insert(account, log));
    }

    /// Removes the error log of `account`.
    pub fn remove(&mut self, account: &Subaccount)
        ensures
            final(self)@ == old(self)@.remove(*account),
            error_log_home(*final(self)) == error_log_home(*old(self)),
    {
        self.row_remove(account);
        assert(self@ =~= old(self)@.remove(*account));
    }
}

} // verus!
