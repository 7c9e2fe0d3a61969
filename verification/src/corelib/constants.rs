use vstd::prelude::*;

verus! {

/// Fixed-point scale of a price: the price of one base unit at tick zero.
pub const _PRICE_FACTOR: u128 = 1_000_000_000;

/// The largest price a tick can stand for; the grid saturates here.
pub const _PRICE_CAP: u128 = 1_000_000_000_000_000_000;

/// `_PRICE_CAP / _PRICE_FACTOR`: the most one unit can convert into.
pub const _MAX_PRICE_RATIO: u128 = 1_000_000_000;

/// One part in this many separates the prices of neighbouring ticks.
pub const _TICK_BASE: u128 = 10_000;

/// One percent, in basis points, the unit of every rate.
pub const _ONE_PERCENT: u64 = 100;

/// A hundred percent, in basis points.
pub const _HUNDRED_PERCENT: u128 = 10_000;

/// Ticks per word of the bitmap index.
pub const _WORD_BITS: u64 = 128;

/// The key of the bitmap index under which the book keeps the latest
/// creation time of any record that was destroyed. No word has this key:
/// the keys of the words are ticks over `_WORD_BITS`.
pub const _RETIRED_KEY: u64 = 0xffff_ffff_ffff_ffff;

/// How far a walk goes from its starting tick when the caller names no limit.
pub const _MAX_WALK: u64 = 1_024;

pub const ONE_SECOND: u64 = 1_000_000_000;

pub const ONE_HOUR: u64 = 3_600_000_000_000;

/// A year of 365 days, in nanoseconds.
pub const ONE_YEAR: u64 = 31_536_000_000_000_000;

} // verus!
