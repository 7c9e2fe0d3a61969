use vstd::prelude::*;
use crate::corelib::constants::{_MAX_WALK, _WORD_BITS};
use crate::types::Tick;

verus! {

/// The default horizon of a walk from `current`: `_MAX_WALK` ticks up for a
/// buy, down for a sell, held inside the range of a tick.
pub open spec fn def_max_tick(current: Tick, buy: bool) -> Tick {
    if buy {
        if current as int + _MAX_WALK as int > u64::MAX as int {
            u64::MAX
        } else {
            (current + _MAX_WALK) as u64
        }
    } else {
        if current < _MAX_WALK {
            0
        } else {
            (current - _MAX_WALK) as u64
        }
    }
}

/// The tick that a word index and a bit position stand for.
pub open spec fn tick_of(integral: u64, bit: u64) -> int {
    integral as int * (_WORD_BITS as int) + bit as int
}

/// Splits a tick into the index of its bitmap word and its bit in that word.
pub fn _int_and_dec(tick: Tick) -> (parts: (u64, u64))
    ensures
        parts.0 == tick / _WORD_BITS,
        parts.1 == tick % _WORD_BITS,
        parts.1 < _WORD_BITS,
        tick_of(parts.0, parts.1) == tick,
{
    (tick / _WORD_BITS, tick % _WORD_BITS)
}

/// Brings a caller's tick onto the grid of stored ticks.
pub fn _compressed_tick(tick: Tick, tick_spacing: u64) -> (compressed: Tick)
    requires
        tick_spacing > 0,
    ensures
        compressed == tick / tick_spacing,
{
    tick / tick_spacing
}

pub fn _def_max_tick(current: Tick, buy: bool) -> (limit: Tick)
    ensures
        limit == def_max_tick(current, buy),
        buy ==> current <= limit && limit - current <= _MAX_WALK,
        !buy ==> limit <= current && current - limit <= _MAX_WALK,
{
    if buy {
        if current > u64::MAX - _MAX_WALK {
            u64::MAX
        } else {
            current + _MAX_WALK
        }
    } else {
        if current < _MAX_WALK {
            0
        } else {
            current - _MAX_WALK
        }
    }
}

} // verus!
