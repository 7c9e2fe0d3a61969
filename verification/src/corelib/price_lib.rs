use vstd::prelude::*;
use crate::corelib::constants::{_MAX_PRICE_RATIO, _PRICE_CAP, _PRICE_FACTOR, _TICK_BASE};
use crate::types::{Amount, Tick};

verus! {

/// The price one tick above a tick of price `price`: one basis point more,
/// rounded down, and never beyond the cap.
pub open spec fn next_price(price: nat) -> nat {
    let raised = price + price / (_TICK_BASE as nat);
    if raised > _PRICE_CAP {
        _PRICE_CAP as nat
    } else {
        raised
    }
}

/// The price of one base unit at `tick`, in quote units scaled by the price
/// factor: the factor itself at tick zero, one basis point more at each tick.
pub open spec fn tick_price(tick: nat) -> nat
    decreases tick,
{
    if tick == 0 {
        _PRICE_FACTOR as nat
    } else {
        next_price(tick_price((tick - 1) as nat))
    }
}

/// `amount` converted at the price of `tick`, rounded down: quote into base
/// for a buy, base into quote for a sell.
pub open spec fn equivalent(amount: nat, tick: nat, buy: bool) -> nat {
    if buy {
        amount * (_PRICE_FACTOR as nat) / tick_price(tick)
    } else {
        amount * tick_price(tick) / (_PRICE_FACTOR as nat)
    }
}

/// Whether the conversion of `amount` at `tick` stays inside the machine's
/// range on its way.
pub open spec fn equivalent_fits(amount: nat, tick: nat, buy: bool) -> bool {
    if buy {
        amount * (_PRICE_FACTOR as nat) <= u128::MAX
    } else {
        amount * tick_price(tick) <= u128::MAX
    }
}

/// Every price lies between the factor and the cap.
pub proof fn lemma_price_bounds(tick: nat)
    ensures
        _PRICE_FACTOR <= tick_price(tick) <= _PRICE_CAP,
    decreases tick,
{
    if tick > 0 {
        lemma_price_bounds((tick - 1) as nat);
    }
}

/// A higher tick never has a lower price.
pub proof fn lemma_price_monotone(low: nat, high: nat)
    requires
        low <= high,
    ensures
        tick_price(low) <= tick_price(high),
    decreases high,
{
    if low < high {
        lemma_price_monotone(low, (high - 1) as nat);
        lemma_price_bounds((high - 1) as nat);
    }
}

/// Once the price has reached the cap it stays there.
pub proof fn lemma_price_saturates(low: nat, high: nat)
    requires
        low <= high,
        tick_price(low) == _PRICE_CAP,
    ensures
        tick_price(high) == _PRICE_CAP,
{
    lemma_price_monotone(low, high);
    lemma_price_bounds(high);
}

/// A conversion that fits on its way also fits in its result.
pub proof fn lemma_equivalent_in_range(amount: nat, tick: nat, buy: bool)
    requires
        equivalent_fits(amount, tick, buy),
    ensures
        equivalent(amount, tick, buy) <= u128::MAX,
{
    lemma_price_bounds(tick);
    let p = tick_price(tick);
    if buy {
        assert(amount * 1_000_000_000 / p <= amount * 1_000_000_000) by (nonlinear_arith)
            requires
                p >= 1,
        ;
    } else {
        assert(amount * p / 1_000_000_000 <= amount * p) by (nonlinear_arith);
    }
}

/// Nothing converts into nothing.
pub proof fn lemma_equivalent_zero(tick: nat, buy: bool)
    ensures
        equivalent(0, tick, buy) == 0,
{
    lemma_price_bounds(tick);
    let p = tick_price(tick);
    assert(0 * 1_000_000_000 / p == 0) by (nonlinear_arith)
        requires
            p > 0,
    ;
    assert(0 * p / 1_000_000_000 == 0) by (nonlinear_arith);
}

/// A larger amount never converts into less.
pub proof fn lemma_equivalent_monotone(small: nat, large: nat, tick: nat, buy: bool)
    requires
        small <= large,
    ensures
        equivalent(small, tick, buy) <= equivalent(large, tick, buy),
{
    lemma_price_bounds(tick);
    let p = tick_price(tick);
    assert(small * 1_000_000_000 / p <= large * 1_000_000_000 / p)
        by (nonlinear_arith)
        requires
            small <= large,
            p > 0,
    ;
    assert(small * p / 1_000_000_000 <= large * p / 1_000_000_000) by (nonlinear_arith)
        requires
            small <= large,
            p >= 0,
    ;
}

/// Buying base never yields more units than the quote paid; selling base
/// never yields fewer units of quote than the base sold, and at most
/// `_MAX_PRICE_RATIO` times as many.
pub proof fn lemma_equivalent_range(amount: nat, tick: nat)
    ensures
        equivalent(amount, tick, true) <= amount,
        amount <= equivalent(amount, tick, false) <= amount * _MAX_PRICE_RATIO,
{
    lemma_price_bounds(tick);
    let p = tick_price(tick);
    assert(amount * 1_000_000_000 / p <= amount) by (nonlinear_arith)
        requires
            p >= 1_000_000_000,
    {
        assert(amount * 1_000_000_000 <= amount * p);
        assert(amount * p / p == amount);
    }
    assert(amount <= amount * p / 1_000_000_000 <= amount * 1_000_000_000) by (nonlinear_arith)
        requires
            1_000_000_000 <= p <= 1_000_000_000_000_000_000,
    {
        assert(amount * 1_000_000_000 <= amount * p);
        assert(amount * p <= amount * 1_000_000_000_000_000_000);
        assert(amount * 1_000_000_000 / 1_000_000_000 == amount);
        assert(amount * 1_000_000_000_000_000_000 == (amount * 1_000_000_000) * 1_000_000_000);
        assert((amount * 1_000_000_000) * 1_000_000_000 / 1_000_000_000 == amount * 1_000_000_000);
    }
}

/// Converting there and back never gains: the two directions are inverse up
/// to rounding down.
pub proof fn lemma_equivalent_round_trip(amount: nat, tick: nat, buy: bool)
    ensures
        equivalent(equivalent(amount, tick, buy), tick, !buy) <= amount,
        equivalent(amount, tick, buy) * (if buy {
            tick_price(tick)
        } else {
            _PRICE_FACTOR as nat
        }) <= amount * (if buy {
            _PRICE_FACTOR as nat
        } else {
            tick_price(tick)
        }),
{
    lemma_price_bounds(tick);
    let p = tick_price(tick);
    lemma_div_round_trip(amount, 1_000_000_000, p);
    lemma_div_round_trip(amount, p, 1_000_000_000);
}

/// Converting there and back loses less than what one unit of the base
/// can cost: at most `_MAX_PRICE_RATIO`.
pub proof fn lemma_equivalent_round_trip_loss(amount: nat, tick: nat, buy: bool)
    ensures
        amount <= equivalent(equivalent(amount, tick, buy), tick, !buy) + _MAX_PRICE_RATIO,
{
    lemma_price_bounds(tick);
    let p = tick_price(tick);
    if buy {
        lemma_div_round_trip_loss(amount, 1_000_000_000, p, 1_000_000_000);
    } else {
        lemma_div_round_trip_loss(amount, p, 1_000_000_000, 1);
    }
}

/// `a <= floor(floor(a * n / d) * d / n) + k` where `d <= k * n`.
pub proof fn lemma_div_round_trip_loss(a: nat, n: nat, d: nat, k: nat)
    by (nonlinear_arith)
    requires
        n > 0,
        d > 0,
        k >= 1,
        d <= k * n,
    ensures
        a <= (a * n / d) * d / n + k,
{
    let q = a * n / d;
    let back = q * d / n;
    assert(a * n < (q + 1) * d);
    assert(q * d < (back + 1) * n);
    assert((q + 1) * d == q * d + d);
    assert(a * n < (back + 1) * n + k * n);
    assert((back + 1) * n + k * n == (back + 1 + k) * n);
    assert(a < back + 1 + k);
}

/// `floor(floor(a * n / d) * d / n) <= a`.
pub proof fn lemma_div_round_trip(a: nat, n: nat, d: nat)
    by (nonlinear_arith)
    requires
        n > 0,
        d > 0,
    ensures
        (a * n / d) * d <= a * n,
        (a * n / d) * d / n <= a,
{
    let q = a * n / d;
    assert(q * d <= a * n);
    assert(a * n / n == a);
    assert(q * d / n <= a * n / n);
}

/// Whatever converts from a part of an amount that was itself converted can
/// be converted back without overflow.
pub proof fn lemma_equivalent_back_fits(amount: nat, part: nat, tick: nat, buy: bool)
    requires
        equivalent_fits(amount, tick, buy),
        part <= equivalent(amount, tick, buy),
    ensures
        equivalent_fits(part, tick, !buy),
        equivalent(part, tick, !buy) <= amount,
{
    lemma_price_bounds(tick);
    lemma_equivalent_round_trip(amount, tick, buy);
    lemma_equivalent_monotone(part, equivalent(amount, tick, buy), tick, !buy);
    let p = tick_price(tick);
    let whole = equivalent(amount, tick, buy);
    if buy {
        assert(part * p <= whole * p) by (nonlinear_arith)
            requires
                part <= whole,
        ;
    } else {
        assert(part * 1_000_000_000 <= whole * 1_000_000_000) by (nonlinear_arith)
            requires
                part <= whole,
        ;
    }
}

/// Converting two amounts apart loses at most one unit against converting
/// their sum.
pub proof fn lemma_equivalent_split(first: nat, second: nat, tick: nat, buy: bool)
    ensures
        equivalent(first, tick, buy) + equivalent(second, tick, buy) <= equivalent(
            first + second,
            tick,
            buy,
        ) <= equivalent(first, tick, buy) + equivalent(second, tick, buy) + 1,
{
    lemma_price_bounds(tick);
    let p = tick_price(tick);
    if buy {
        lemma_div_split(first * 1_000_000_000, second * 1_000_000_000, p);
        assert((first + second) * 1_000_000_000 == first * 1_000_000_000 + second * 1_000_000_000)
            by (nonlinear_arith);
    } else {
        lemma_div_split(first * p, second * p, 1_000_000_000);
        assert((first + second) * p == first * p + second * p) by (nonlinear_arith);
    }
}

/// `floor(x / d) + floor(y / d) <= floor((x + y) / d) <= floor(x / d) + floor(y / d) + 1`.
pub proof fn lemma_div_split(x: nat, y: nat, d: nat)
    by (nonlinear_arith)
    requires
        d > 0,
    ensures
        x / d + y / d <= (x + y) / d <= x / d + y / d + 1,
{
    let qx = x / d;
    let qy = y / d;
    assert(x == qx * d + x % d);
    assert(y == qy * d + y % d);
    assert(x + y == (qx + qy) * d + (x % d + y % d));
    if x % d + y % d < d {
        assert((x + y) / d == qx + qy);
    } else {
        assert(x + y == (qx + qy + 1) * d + (x % d + y % d - d));
        assert((x + y) / d == qx + qy + 1);
    }
}

/// At a higher tick a buy gets no more base for its quote, and a sell gets
/// no less quote for its base.
pub proof fn lemma_equivalent_monotone_in_tick(amount: nat, low: nat, high: nat)
    requires
        low <= high,
    ensures
        equivalent(amount, high, true) <= equivalent(amount, low, true),
        equivalent(amount, low, false) <= equivalent(amount, high, false),
{
    lemma_price_monotone(low, high);
    lemma_price_bounds(low);
    let pl = tick_price(low);
    let ph = tick_price(high);
    assert(amount * 1_000_000_000 / ph <= amount * 1_000_000_000 / pl)
        by (nonlinear_arith)
        requires
            0 < pl <= ph,
    {
        let x = amount * 1_000_000_000;
        let q = x / ph;
        assert(q * ph <= x);
        assert(q * pl <= q * ph);
        assert(q * pl / pl == q);
        assert(q * pl / pl <= x / pl);
    }
    assert(amount * pl / 1_000_000_000 <= amount * ph / 1_000_000_000) by (nonlinear_arith)
        requires
            pl <= ph,
    {
        assert(amount * pl <= amount * ph);
    }
}

/// The price of `tick`.
pub fn _tick_to_price(tick: Tick) -> (price: u128)
    ensures
        price == tick_price(tick as nat),
        _PRICE_FACTOR <= price <= _PRICE_CAP,
{
    let mut price: u128 = _PRICE_FACTOR;
    let mut at: u64 = 0;
    while at < tick && price < _PRICE_CAP
        invariant
            at <= tick,
            price == tick_price(at as nat),
            _PRICE_FACTOR <= price <= _PRICE_CAP,
        decreases tick - at,
    {
        let raised: u128 = price + price / _TICK_BASE;
        price = if raised > _PRICE_CAP {
            _PRICE_CAP
        } else {
            raised
        };
        at = at + 1;
    }
    proof {
        if at < tick {
            lemma_price_saturates(at as nat, tick as nat);
        }
    }
    price
}

/// Converts `amount` at the price of `tick`: quote into base for a buy, base
/// into quote for a sell, rounding down.
pub fn _equivalent(amount: Amount, tick: Tick, buy: bool) -> (converted: Amount)
    requires
        equivalent_fits(amount as nat, tick as nat, buy),
    ensures
        converted == equivalent(amount as nat, tick as nat, buy),
{
    let price = _tick_to_price(tick);
    if buy {
        proof {
            lemma_equivalent_range(amount as nat, tick as nat);
        }
        amount * _PRICE_FACTOR / price
    } else {
        proof {
            let p = price as nat;
            assert(amount as nat * p / 1_000_000_000 <= amount as nat * p) by (nonlinear_arith);
        }
        amount * price / _PRICE_FACTOR
    }
}

/// Whether `_equivalent` accepts `amount` at `tick`.
pub fn _equivalent_fits(amount: Amount, tick: Tick, buy: bool) -> (fits: bool)
    ensures
        fits == equivalent_fits(amount as nat, tick as nat, buy),
{
    if buy {
        amount <= u128::MAX / _PRICE_FACTOR
    } else {
        let price = _tick_to_price(tick);
        assert(amount * price <= u128::MAX <==> amount <= u128::MAX / price) by (nonlinear_arith)
            requires
                price > 0,
        ;
        amount <= u128::MAX / price
    }
}

} // verus!
