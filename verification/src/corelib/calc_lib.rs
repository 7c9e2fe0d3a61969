use vstd::prelude::*;
use crate::corelib::constants::{_HUNDRED_PERCENT, ONE_YEAR};
use crate::types::{Amount, Time};

verus! {

/// Shares minted for `delta` of volume joining a side that holds `net_volume`
/// against `total_shares`: one share per unit while the side is empty, else
/// pro rata, rounded down.
pub open spec fn shares_for(delta: nat, total_shares: nat, net_volume: nat) -> nat {
    if net_volume == 0 || total_shares == 0 {
        delta
    } else {
        delta * total_shares / net_volume
    }
}

/// Value that `shares` claim of `net_volume`, rounded down; nothing where no
/// share exists.
pub open spec fn shares_value(shares: nat, total_shares: nat, net_volume: nat) -> nat {
    if total_shares == 0 {
        0
    } else {
        shares * net_volume / total_shares
    }
}

/// `rate` basis points of `value`, rounded down.
pub open spec fn percentage(rate: nat, value: nat) -> nat {
    value * rate / (_HUNDRED_PERCENT as nat)
}

/// Interest on `debt` at `rate` basis points a year over `elapsed` nanoseconds,
/// rounded down.
pub open spec fn interest(debt: nat, rate: nat, elapsed: nat) -> nat {
    debt * rate * elapsed / ((ONE_YEAR as nat) * (_HUNDRED_PERCENT as nat))
}

/// Ten to the power of `exponent`.
pub open spec fn power_of_ten(exponent: nat) -> nat
    decreases exponent,
{
    if exponent == 0 {
        1
    } else {
        10 * power_of_ten((exponent - 1) as nat)
    }
}

/// Ten to the power of `exponent`.
pub fn _power_of_ten(exponent: u32) -> (power: u128)
    requires
        power_of_ten(exponent as nat) <= u128::MAX,
    ensures
        power == power_of_ten(exponent as nat),
{
    let mut power: u128 = 1;
    let mut done: u32 = 0;
    while done < exponent
        invariant
            done <= exponent,
            power == power_of_ten(done as nat),
            power_of_ten(exponent as nat) <= u128::MAX,
        decreases exponent - done,
    {
        proof {
            lemma_power_of_ten_grows((done + 1) as nat, exponent as nat);
        }
        power = power * 10;
        done = done + 1;
    }
    power
}

/// A higher power of ten is no smaller.
pub proof fn lemma_power_of_ten_grows(low: nat, high: nat)
    requires
        low <= high,
    ensures
        1 <= power_of_ten(low) <= power_of_ten(high),
    decreases high,
{
    if low < high {
        lemma_power_of_ten_grows(low, (high - 1) as nat);
    } else if low > 0 {
        lemma_power_of_ten_grows((low - 1) as nat, (low - 1) as nat);
    }
}

pub fn _calc_shares(delta: Amount, total_shares: Amount, net_volume: Amount) -> (shares: Amount)
    requires
        net_volume != 0 && total_shares != 0 ==> delta * total_shares <= u128::MAX,
    ensures
        shares == shares_for(delta as nat, total_shares as nat, net_volume as nat),
{
    if net_volume == 0 || total_shares == 0 {
        delta
    } else {
        delta * total_shares / net_volume
    }
}

pub fn _calc_shares_value(shares: Amount, total_shares: Amount, net_volume: Amount) -> (value: Amount)
    requires
        shares * net_volume <= u128::MAX,
    ensures
        value == shares_value(shares as nat, total_shares as nat, net_volume as nat),
{
    if total_shares == 0 {
        0
    } else {
        shares * net_volume / total_shares
    }
}

pub fn _percentage(rate: u64, value: Amount) -> (part: Amount)
    requires
        value * rate <= u128::MAX,
    ensures
        part == percentage(rate as nat, value as nat),
{
    value * (rate as u128) / _HUNDRED_PERCENT
}

pub fn _calc_interest(debt: Amount, interest_rate: u32, opened_at: Time, now: Time) -> (due: Amount)
    requires
        opened_at <= now,
        debt * interest_rate * (now - opened_at) <= u128::MAX,
    ensures
        due == interest(debt as nat, interest_rate as nat, (now - opened_at) as nat),
{
    let elapsed: u128 = (now - opened_at) as u128;
    let rate: u128 = interest_rate as u128;
    if elapsed == 0 {
        assert(debt * rate * 0 == 0) by (nonlinear_arith);
        return 0;
    }
    assert(debt * rate <= debt * rate * elapsed) by (nonlinear_arith)
        requires
            elapsed >= 1,
    ;
    let year: u128 = (ONE_YEAR as u128) * _HUNDRED_PERCENT;
    debt * rate * elapsed / year
}

/// A share of volume is worth no more than the whole side.
pub proof fn lemma_shares_value_bounded(shares: nat, total_shares: nat, net_volume: nat)
    requires
        shares <= total_shares,
    ensures
        shares_value(shares, total_shares, net_volume) <= net_volume,
{
    if total_shares != 0 {
        assert(shares * net_volume / total_shares <= net_volume) by (nonlinear_arith)
            requires
                shares <= total_shares,
                total_shares > 0,
        {
            assert(shares * net_volume <= total_shares * net_volume);
            assert(total_shares * net_volume / total_shares == net_volume);
        }
    }
}

} // verus!
