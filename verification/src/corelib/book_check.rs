//! Whether a book is in order, found by reading all of it.

use vstd::prelude::*;
use crate::corelib::bitmap_lib::{_is_bit_set, _next_set_bit, bit_is_set, lemma_empty_word};
use crate::corelib::order_lib::{tick_is_marked, word_of, Book};
use crate::store::{BitmapStore, TickStore};
use crate::types::Tick;

verus! {

/// Whether the record of `tick` is as a book in order has it: marked, with
/// liquidity between bounds that are in order.
pub open spec fn record_in_order(book: Book, tick: Tick) -> bool {
    &&& tick_is_marked(book.bitmaps, tick)
    &&& book.ticks[tick].liq_bounds.wf()
    &&& book.ticks[tick].liq_bounds.liquidity_within() > 0
}

/// Whether every record of the book is marked and holds liquidity between
/// bounds that are in order.
pub open spec fn records_in_order(book: Book) -> bool {
    forall|tick: Tick| #[trigger] book.ticks.contains_key(tick) ==> record_in_order(book, tick)
}

/// Whether every tick that the bitmap marks has a record.
pub open spec fn marks_have_records(book: Book) -> bool {
    forall|tick: Tick| #[trigger]
        tick_is_marked(book.bitmaps, tick) ==> book.ticks.contains_key(tick)
}

/// Whether every record of the book is marked and holds liquidity between
/// bounds that are in order.
pub fn _records_are_in_order(integrals_bitmaps: &BitmapStore, ticks_details: &TickStore) -> (in_order:
    bool)
    ensures
        in_order == records_in_order(Book { ticks: ticks_details@, bitmaps: integrals_bitmaps@ }),
{
    let ghost book = Book { ticks: ticks_details@, bitmaps: integrals_bitmaps@ };
    let mut cursor: Tick = 0;
    loop
        invariant
            book == (Book { ticks: ticks_details@, bitmaps: integrals_bitmaps@ }),
            forall|tick: Tick|
                tick < cursor && #[trigger] book.ticks.contains_key(tick) ==> record_in_order(
                    book,
                    tick,
                ),
        decreases u64::MAX - cursor,
    {
        match ticks_details.first_from(cursor) {
            None => {
                return true;
            },
            Some((tick, details)) => {
                let word = match integrals_bitmaps.get(tick / 128) {
                    Some(word) => word,
                    None => 0,
                };
                let bounds = details.liq_bounds;
                let fine = _is_bit_set(word, tick % 128) && bounds.upper_bound > bounds.lower_bound
                    && bounds.lower_bound >= bounds.lifetime_removed_liquidity;
                assert(fine == record_in_order(book, tick));
                if !fine {
                    assert(book.ticks.contains_key(tick));
                    return false;
                }
                if tick == u64::MAX {
                    return true;
                }
                cursor = tick + 1;
            },
        }
    }
}

/// Whether every tick that the bitmap marks has a record.
pub fn _marks_have_records(integrals_bitmaps: &BitmapStore, ticks_details: &TickStore) -> (all:
    bool)
    ensures
        all == marks_have_records(Book { ticks: ticks_details@, bitmaps: integrals_bitmaps@ }),
{
    let ghost book = Book { ticks: ticks_details@, bitmaps: integrals_bitmaps@ };
    let last_integral: u64 = u64::MAX / 128;
    let mut cursor: u64 = 0;
    loop
        invariant
            book == (Book { ticks: ticks_details@, bitmaps: integrals_bitmaps@ }),
            last_integral == u64::MAX / 128,
            cursor <= last_integral,
            forall|tick: Tick|
                tick / 128 < cursor && #[trigger] tick_is_marked(book.bitmaps, tick)
                    ==> book.ticks.contains_key(tick),
        decreases last_integral - cursor,
    {
        let (integral, word) = match integrals_bitmaps.first_from(cursor) {
            None => {
                assert forall|tick: Tick| #[trigger]
                    tick_is_marked(book.bitmaps, tick) implies book.ticks.contains_key(tick) by {
                    if tick / 128 >= cursor {
                        assert(!book.bitmaps.contains_key(tick / 128));
                        lemma_empty_word(tick % 128);
                    }
                }
                assert(marks_have_records(book));
                return true;
            },
            Some(entry) => entry,
        };
        if integral > last_integral {
            assert forall|tick: Tick| #[trigger]
                tick_is_marked(book.bitmaps, tick) implies book.ticks.contains_key(tick) by {
                if tick / 128 >= cursor {
                    assert(!book.bitmaps.contains_key(tick / 128));
                    lemma_empty_word(tick % 128);
                }
            }
            assert(marks_have_records(book));
            return true;
        }
        let mut bit: u64 = 0;
        let mut done = false;
        while !done
            invariant
                book == (Book { ticks: ticks_details@, bitmaps: integrals_bitmaps@ }),
                integral <= u64::MAX / 128,
                book.bitmaps.contains_key(integral),
                book.bitmaps[integral] == word,
                bit < 128,
                !done ==> forall|seen: u64|
                    seen < bit && #[trigger] bit_is_set(word, seen) ==> book.ticks.contains_key(
                        (integral * 128 + seen) as Tick,
                    ),
                done ==> forall|seen: u64|
                    seen < 128 && #[trigger] bit_is_set(word, seen) ==> book.ticks.contains_key(
                        (integral * 128 + seen) as Tick,
                    ),
            decreases
                    (if done {
                        0
                    } else {
                        128 - bit + 1
                    }),
        {
            match _next_set_bit(word, bit, true) {
                None => {
                    done = true;
                },
                Some(set) => {
                    let tick: Tick = integral * 128 + set;
                    assert(tick / 128 == integral && tick % 128 == set);
                    if ticks_details.get(tick).is_none() {
                        assert(tick_is_marked(book.bitmaps, tick));
                        return false;
                    }
                    if set == 127 {
                        done = true;
                    } else {
                        bit = set + 1;
                    }
                },
            }
        }
        assert forall|tick: Tick|
            tick / 128 <= integral && #[trigger] tick_is_marked(
                book.bitmaps,
                tick,
            ) implies book.ticks.contains_key(tick) by {
            if tick / 128 == integral {
                assert(word_of(book.bitmaps, tick) == word);
                assert(bit_is_set(word, tick % 128));
                assert((integral * 128 + tick % 128) as Tick == tick);
            } else if tick / 128 >= cursor {
                assert(!book.bitmaps.contains_key(tick / 128));
                lemma_empty_word(tick % 128);
            }
        }
        if integral == last_integral {
            assert forall|tick: Tick| #[trigger]
                tick_is_marked(book.bitmaps, tick) implies book.ticks.contains_key(tick) by {
                assert(tick / 128 <= integral);
            }
            assert(marks_have_records(book));
            return true;
        }
        cursor = integral + 1;
    }
}

/// Whether the book is in order: every record holds liquidity between
/// bounds that are in order, and the bitmap marks exactly the ticks that
/// have a record. All of the book is read for the answer.
pub fn _book_is_in_order(integrals_bitmaps: &BitmapStore, ticks_details: &TickStore) -> (in_order:
    bool)
    ensures
        in_order == (Book { ticks: ticks_details@, bitmaps: integrals_bitmaps@ }).wf(),
{
    let ghost book = Book { ticks: ticks_details@, bitmaps: integrals_bitmaps@ };
    let records = _records_are_in_order(integrals_bitmaps, ticks_details);
    let marks = _marks_have_records(integrals_bitmaps, ticks_details);
    proof {
        if records && marks {
            assert forall|tick: Tick| #[trigger]
                book.ticks.contains_key(tick) <==> tick_is_marked(book.bitmaps, tick) by {
                if book.ticks.contains_key(tick) {
                    assert(record_in_order(book, tick));
                }
            }
            assert forall|tick: Tick| #[trigger]
                book.ticks.contains_key(tick) implies book.ticks[tick].liq_bounds.wf()
                && book.ticks[tick].liq_bounds.liquidity_within() > 0 by {
                assert(record_in_order(book, tick));
            }
        } else if !records {
            let tick = choose|tick: Tick| #[trigger]
                book.ticks.contains_key(tick) && !record_in_order(book, tick);
            assert(book.ticks.contains_key(tick));
        } else {
            let tick = choose|tick: Tick| #[trigger]
                tick_is_marked(book.bitmaps, tick) && !book.ticks.contains_key(tick);
            assert(tick_is_marked(book.bitmaps, tick));
        }
        assert(records == records_in_order(book));
        assert(marks == marks_have_records(book));
    }
    records && marks
}

} // verus!
