//! Positions: what an account holds, and how its value moves.

use vstd::prelude::*;
use candid::Principal;
use crate::corelib::calc_lib::{_calc_interest, _percentage, interest, percentage};
use crate::corelib::constants::{_HUNDRED_PERCENT, ONE_HOUR};
use crate::corelib::order_lib::LimitOrder;
use crate::types::{Amount, FundingRateTracker, Tick, Time};

verus! {

/// How a position came to the market.
#[derive(Clone, Copy, Debug)]
pub enum PositionOrderType {
    /// Executed at once against resting liquidity.
    Market,
    /// Resting as a limit order until it is crossed.
    Limit(LimitOrder),
}

/// How much of a position's limit order has been filled.
#[derive(Clone, Copy, Debug, PartialEq, Eq, Structural)]
pub enum PositionStatus {
    FILLED,
    UNFILLED,
    PARTIAL,
}

/// What the vault is told of a position's debt: what it was, what it has
/// grown to, and what is repaid.
#[derive(Clone, Copy, Debug, PartialEq, Eq, Structural)]
pub struct ManageDebtParams {
    pub initial_debt: Amount,
    pub net_debt: Amount,
    pub amount_repaid: Amount,
}

impl Default for ManageDebtParams {
    fn default() -> (params: Self)
        ensures
            params == (ManageDebtParams { initial_debt: 0, net_debt: 0, amount_repaid: 0 }),
    {
        ManageDebtParams { initial_debt: 0, net_debt: 0, amount_repaid: 0 }
    }
}

impl ManageDebtParams {
    pub fn init(initial_debt: Amount, net_debt: Amount, amount_repaid: Amount) -> (params: Self)
        ensures
            params == (ManageDebtParams { initial_debt, net_debt, amount_repaid }),
    {
        ManageDebtParams { initial_debt, net_debt, amount_repaid }
    }
}

/// A notification to the vault that did not go out and waits to be sent
/// again.
#[derive(Clone, Copy, Debug)]
pub struct PositionUpdateErrorLog {
    pub user: Principal,
    pub profit: Amount,
    pub debt_params: ManageDebtParams,
}

/// The position of an account.
#[derive(Clone, Copy, Debug)]
pub struct PositionParameters {
    pub owner: Principal,
    /// The tick at which the position was opened.
    pub entry_tick: Tick,
    /// Whether the position is long.
    pub long: bool,
    /// The collateral in the position.
    pub collateral_value: Amount,
    /// What was borrowed for the position.
    pub debt_value: Amount,
    /// The position's share of the volume of its side.
    pub volume_share: Amount,
    /// The rate of interest on the debt, in basis points a year.
    pub interest_rate: u32,
    pub order_type: PositionOrderType,
    /// When the position was executed: from then on the debt bears interest.
    pub timestamp: Time,
}

impl PositionParameters {
    /// Whether the position is a market position.
    pub open spec fn is_market(self) -> bool {
        self.order_type is Market
    }

    /// Whether a limit position can become a market position with
    /// `amount_remaining_value` of its order unfilled, without overflow.
    pub open spec fn convert_fits(
        self,
        amount_remaining_value: Amount,
        tracker: FundingRateTracker,
    ) -> bool {
        &&& self.collateral_value + self.debt_value <= u128::MAX
        &&& amount_remaining_value <= self.collateral_value + self.debt_value
        &&& tracker.add_fits(
            (self.collateral_value + self.debt_value - amount_remaining_value) as Amount,
            self.long,
        )
    }

    /// The collateral that leaves a limit position when it becomes a market
    /// position with `amount_remaining_value` unfilled: what is unfilled
    /// beyond the debt.
    pub open spec fn removed_collateral(self, amount_remaining_value: Amount) -> Amount {
        if amount_remaining_value > self.debt_value {
            (amount_remaining_value - self.debt_value) as Amount
        } else {
            0
        }
    }

    /// The debt that is repaid when a limit position becomes a market
    /// position with `amount_remaining_value` unfilled: what is unfilled, up
    /// to the whole debt.
    pub open spec fn repaid_debt(self, amount_remaining_value: Amount) -> Amount {
        if amount_remaining_value > self.debt_value {
            self.debt_value
        } else {
            amount_remaining_value
        }
    }

    /// The limit position as a market position, with `amount_remaining_value`
    /// of its order unfilled: the unfilled value first repays debt, then
    /// leaves as collateral; the filled value becomes the position's volume.
    pub open spec fn converted(
        self,
        amount_remaining_value: Amount,
        tracker: FundingRateTracker,
        now: Time,
    ) -> PositionParameters {
        let value = (self.collateral_value + self.debt_value - amount_remaining_value) as Amount;
        PositionParameters {
            debt_value: (self.debt_value - self.repaid_debt(amount_remaining_value)) as Amount,
            collateral_value: (self.collateral_value - self.removed_collateral(
                amount_remaining_value,
            )) as Amount,
            volume_share: tracker.minted(value, self.long) as Amount,
            order_type: PositionOrderType::Market,
            timestamp: now,
            ..self
        }
    }

    /// Whether a market position can be updated after a swap that closed a
    /// part of it, without overflow.
    pub open spec fn update_fits(
        self,
        amount_remaining_value: Amount,
        interest_value: Amount,
        tracker: FundingRateTracker,
    ) -> bool {
        &&& self.debt_value + interest_value <= u128::MAX
        &&& tracker.add_fits(amount_remaining_value, self.long)
    }

    /// The profit of a swap that gave `amount_out_value` against a debt of
    /// `net_debt`: what is left after the debt, if anything.
    pub open spec fn profit_after(amount_out_value: Amount, net_debt: Amount) -> Amount {
        if amount_out_value < net_debt {
            0
        } else {
            (amount_out_value - net_debt) as Amount
        }
    }

    /// The market position after a swap that closed a part of it. What the
    /// swap gave pays the debt with its interest as far as it goes; where
    /// it pays all, the value that remains becomes the collateral. The
    /// remaining value is the position's new volume. A position executed
    /// less than an hour before `now` counts as executed at `now`.
    pub open spec fn updated(
        self,
        amount_out_value: Amount,
        amount_remaining_value: Amount,
        interest_value: Amount,
        tracker: FundingRateTracker,
        now: Time,
    ) -> PositionParameters {
        let net_debt = (self.debt_value + interest_value) as Amount;
        PositionParameters {
            debt_value: if amount_out_value < net_debt {
                (net_debt - amount_out_value) as Amount
            } else {
                0
            },
            collateral_value: if amount_out_value < net_debt {
                self.collateral_value
            } else {
                amount_remaining_value
            },
            volume_share: tracker.minted(amount_remaining_value, self.long) as Amount,
            timestamp: if self.timestamp + ONE_HOUR > now {
                now
            } else {
                self.timestamp
            },
            ..self
        }
    }

    /// What the vault is told after a swap that gave `amount_out_value`
    /// against the position's debt with `interest_value` of interest.
    pub open spec fn debt_update(self, amount_out_value: Amount, interest_value: Amount)
        -> ManageDebtParams {
        let net_debt = (self.debt_value + interest_value) as Amount;
        ManageDebtParams {
            initial_debt: self.debt_value,
            net_debt,
            amount_repaid: if amount_out_value < net_debt {
                amount_out_value
            } else {
                net_debt
            },
        }
    }

    /// The interest due on the position's debt at `now`.
    pub open spec fn interest_due(self, now: Time) -> nat {
        interest(self.debt_value as nat, self.interest_rate as nat, (now - self.timestamp) as nat)
    }

    /// Whether the interest due at `now` can be computed without overflow.
    pub open spec fn interest_fits(self, now: Time) -> bool {
        &&& self.timestamp <= now
        &&& self.debt_value * self.interest_rate * (now - self.timestamp) <= u128::MAX
    }

    /// How far the price has moved for the position, in basis points of the
    /// entry tick and rounded towards zero: the distance of `current_tick`
    /// from the entry tick.
    pub open spec fn pnl_magnitude(self, current_tick: Tick) -> nat {
        let distance = if current_tick >= self.entry_tick {
            current_tick - self.entry_tick
        } else {
            self.entry_tick - current_tick
        };
        (distance * (_HUNDRED_PERCENT as nat) / (self.entry_tick as int)) as nat
    }

    /// Whether the price has not moved against the position: up for a long,
    /// down for a short, or not at all.
    pub open spec fn pnl_is_gain(self, current_tick: Tick) -> bool {
        if self.long {
            current_tick >= self.entry_tick
        } else {
            current_tick <= self.entry_tick
        }
    }

    /// The unrealised profit or loss of the position, in basis points: the
    /// movement of the price, negative where it went against the position.
    pub open spec fn pnl(self, current_tick: Tick) -> int {
        if self.pnl_is_gain(current_tick) {
            self.pnl_magnitude(current_tick) as int
        } else {
            -(self.pnl_magnitude(current_tick) as int)
        }
    }

    /// Whether the profit or loss and the net debt can be computed without
    /// overflow or division by zero.
    pub open spec fn pnl_fits(self, current_tick: Tick, now: Time) -> bool {
        &&& self.interest_fits(now)
        &&& self.debt_value + self.interest_due(now) <= u128::MAX
        &&& self.entry_tick > 0
        &&& self.pnl_magnitude(current_tick) <= i64::MAX
    }

    /// The collateral that the position is worth at `current_tick`: its
    /// initial value, moved by the profit or loss, less the debt with its
    /// interest. Negative where the debt is no longer covered.
    pub open spec fn current_collateral(self, current_tick: Tick, now: Time) -> int {
        let initial = self.collateral_value + self.debt_value;
        let moved = percentage(self.pnl_magnitude(current_tick), initial as nat);
        let net_debt = self.debt_value + self.interest_due(now);
        if self.pnl_is_gain(current_tick) {
            initial + moved - net_debt
        } else {
            initial - (moved + net_debt)
        }
    }

    /// Ten times the leverage of the position at `current_tick`: debt and
    /// collateral over collateral.
    pub open spec fn current_leverage_x10(self, current_tick: Tick, now: Time) -> int {
        let collateral = self.current_collateral(current_tick, now);
        (self.debt_value + self.interest_due(now) + collateral) * 10 / collateral
    }

    /// Whether the liquidation status can be computed without overflow or
    /// division by zero.
    pub open spec fn liquidation_fits(self, current_tick: Tick, now: Time) -> bool {
        &&& !self.is_market() ==> self.collateral_value <= i128::MAX
        &&& self.is_market() ==> {
            &&& self.pnl_fits(current_tick, now)
            &&& self.collateral_value + self.debt_value <= u128::MAX
            &&& (self.collateral_value + self.debt_value) * self.pnl_magnitude(current_tick)
                <= u128::MAX
            &&& self.collateral_value + self.debt_value + percentage(
                self.pnl_magnitude(current_tick),
                (self.collateral_value + self.debt_value) as nat,
            ) + self.debt_value + self.interest_due(now) <= i128::MAX / 10
            &&& self.current_collateral(current_tick, now) != 0
        }
    }

    /// Whether the position is to be liquidated at `current_tick`: it is a
    /// market position, and its collateral is gone or its leverage has
    /// reached `max_leveragex10`.
    pub open spec fn to_liquidate(self, max_leveragex10: u8, current_tick: Tick, now: Time) -> bool {
        self.is_market() && (self.current_collateral(current_tick, now) < 0
            || self.current_leverage_x10(current_tick, now) >= max_leveragex10)
    }
}

/// Whether the interest due on the debt of `position` at `now` can be
/// computed without overflow.
pub fn _can_position_interest(position: &PositionParameters, now: Time) -> (fits: bool)
    ensures
        fits == position.interest_fits(now),
{
    if position.timestamp > now {
        return false;
    }
    let elapsed = (now - position.timestamp) as u128;
    let rate = position.interest_rate as u128;
    let debt = position.debt_value;
    if elapsed == 0 {
        assert(debt * rate * 0 == 0) by (nonlinear_arith);
        return true;
    }
    match debt.checked_mul(rate) {
        None => {
            assert(debt * rate * elapsed > u128::MAX) by (nonlinear_arith)
                requires
                    debt * rate > u128::MAX,
                    elapsed >= 1,
            ;
            false
        },
        Some(owed) => owed.checked_mul(elapsed).is_some(),
    }
}

/// Whether the liquidation status of `position` can be computed without
/// overflow or division by zero.
pub fn _can_liquidation_status(position: &PositionParameters, current_tick: Tick, now: Time) -> (fits:
    bool)
    ensures
        fits == position.liquidation_fits(current_tick, now),
{
    match position.order_type {
        PositionOrderType::Limit(_) => position.collateral_value <= i128::MAX as u128,
        PositionOrderType::Market => {
            if !_can_position_interest(position, now) {
                return false;
            }
            let interest_value = _position_interest(position, now);
            if position.debt_value > u128::MAX - interest_value {
                return false;
            }
            let net_debt_value = position.debt_value + interest_value;
            let entry_tick = position.entry_tick;
            if entry_tick == 0 {
                return false;
            }
            let distance: u64 = if current_tick >= entry_tick {
                current_tick - entry_tick
            } else {
                entry_tick - current_tick
            };
            let magnitude: u128 = (distance as u128) * _HUNDRED_PERCENT / (entry_tick as u128);
            if magnitude > i64::MAX as u128 {
                return false;
            }
            if position.collateral_value > u128::MAX - position.debt_value {
                return false;
            }
            let initial = position.collateral_value + position.debt_value;
            if magnitude != 0 && initial > u128::MAX / magnitude {
                assert(initial * magnitude > u128::MAX) by (nonlinear_arith)
                    requires
                        magnitude > 0,
                        initial > u128::MAX / magnitude,
                ;
                return false;
            }
            assert(initial * magnitude <= u128::MAX) by (nonlinear_arith)
                requires
                    magnitude == 0 || initial <= u128::MAX / magnitude,
            ;
            let moved = _percentage(magnitude as u64, initial);
            let limit: u128 = (i128::MAX / 10) as u128;
            if initial > limit || moved > limit - initial || net_debt_value > limit - initial
                - moved {
                return false;
            }
            let gain = if position.long {
                current_tick >= entry_tick
            } else {
                current_tick <= entry_tick
            };
            if gain {
                initial + moved != net_debt_value
            } else {
                initial != moved + net_debt_value
            }
        },
    }
}

/// The interest due on the debt of `position` at `now`.
pub fn _position_interest(position: &PositionParameters, now: Time) -> (due: Amount)
    requires
        position.interest_fits(now),
    ensures
        due == position.interest_due(now),
{
    _calc_interest(position.debt_value, position.interest_rate, position.timestamp, now)
}

/// The unrealised profit or loss of `position` at `current_tick`, in basis
/// points, and its debt with the interest due at `now`.
pub fn _calculate_position_unrealised_pnl_and_net_debt_value(
    position: PositionParameters,
    current_tick: Tick,
    now: Time,
) -> (result: (i64, Amount))
    requires
        position.pnl_fits(current_tick, now),
    ensures
        result.0 == position.pnl(current_tick),
        result.1 == position.debt_value + position.interest_due(now),
{
    let interest_on_debt_value = _position_interest(&position, now);
    let net_debt_value = position.debt_value + interest_on_debt_value;
    let (gain, magnitude) = price_movement(&position, current_tick);
    let pnl: i64 = if gain {
        magnitude as i64
    } else {
        -(magnitude as i64)
    };
    (pnl, net_debt_value)
}

/// Whether the price has not moved against `position`, and how far it has
/// moved, in basis points of the entry tick.
fn price_movement(position: &PositionParameters, current_tick: Tick) -> (result: (bool, u64))
    requires
        position.entry_tick > 0,
        position.pnl_magnitude(current_tick) <= i64::MAX,
    ensures
        result.0 == position.pnl_is_gain(current_tick),
        result.1 == position.pnl_magnitude(current_tick),
{
    let entry_tick = position.entry_tick;
    let distance: u64 = if current_tick >= entry_tick {
        current_tick - entry_tick
    } else {
        entry_tick - current_tick
    };
    let magnitude: u128 = (distance as u128) * _HUNDRED_PERCENT / (entry_tick as u128);
    let gain = if position.long {
        current_tick >= entry_tick
    } else {
        current_tick <= entry_tick
    };
    (gain, magnitude as u64)
}

/// Whether `position` is to be liquidated at `current_tick`, the collateral
/// that it is worth there, and its debt with the interest due at `now`. A
/// limit position is never liquidated.
pub fn _liquidation_status(
    position: PositionParameters,
    max_leveragex10: u8,
    current_tick: Tick,
    now: Time,
) -> (result: (bool, i128, Amount))
    requires
        position.liquidation_fits(current_tick, now),
    ensures
        result.0 == position.to_liquidate(max_leveragex10, current_tick, now),
        position.is_market() ==> result.1 == position.current_collateral(current_tick, now)
            && result.2 == position.debt_value + position.interest_due(now),
        !position.is_market() ==> result.1 == position.collateral_value && result.2 == 0,
{
    match position.order_type {
        PositionOrderType::Market => {
            let initial_position_value = position.collateral_value + position.debt_value;
            let net_debt_value = position.debt_value + _position_interest(&position, now);
            let (gain, magnitude) = price_movement(&position, current_tick);
            let position_profit_or_loss = _percentage(magnitude, initial_position_value);
            let current_collateral_value: i128 = if gain {
                (initial_position_value + position_profit_or_loss) as i128 - (
                net_debt_value as i128)
            } else {
                (initial_position_value as i128) - ((position_profit_or_loss
                    + net_debt_value) as i128)
            };
            let to_liquidate = if current_collateral_value < 0 {
                true
            } else {
                let current_leverage_x10 = ((net_debt_value as i128 + current_collateral_value)
                    * 10) / current_collateral_value;
                current_leverage_x10 >= max_leveragex10 as i128
            };
            (to_liquidate, current_collateral_value, net_debt_value)
        },
        PositionOrderType::Limit(_) => (false, position.collateral_value as i128, 0),
    }
}

/// Ten thousand basis points of funding for each part in a hundred percent
/// by which the perpetual's price stands above the spot price; negative
/// where it stands below. Rounded towards zero.
pub open spec fn funding_rate_premium(perp_price: u128, spot_price: u128) -> int {
    if perp_price >= spot_price {
        (perp_price - spot_price) * (_HUNDRED_PERCENT as int) / (spot_price as int)
    } else {
        -((spot_price - perp_price) * (_HUNDRED_PERCENT as int) / (spot_price as int))
    }
}

/// Whether the premium can be computed without overflow or division by
/// zero.
pub open spec fn funding_rate_premium_fits(perp_price: u128, spot_price: u128) -> bool {
    &&& spot_price > 0
    &&& (if perp_price >= spot_price {
        perp_price - spot_price
    } else {
        spot_price - perp_price
    }) * _HUNDRED_PERCENT <= i64::MAX
}

pub fn _calculate_funding_rate_premium(perp_price: u128, spot_price: u128) -> (premium: i64)
    requires
        funding_rate_premium_fits(perp_price, spot_price),
    ensures
        premium == funding_rate_premium(perp_price, spot_price),
{
    if perp_price >= spot_price {
        let distance = perp_price - spot_price;
        assert(distance * 10_000 / (spot_price as int) <= distance * 10_000) by (nonlinear_arith)
            requires
                spot_price >= 1,
                distance >= 0,
        ;
        (distance * _HUNDRED_PERCENT / spot_price) as i64
    } else {
        let distance = spot_price - perp_price;
        assert(distance * 10_000 / (spot_price as int) <= distance * 10_000) by (nonlinear_arith)
            requires
                spot_price >= 1,
                distance >= 0,
        ;
        -((distance * _HUNDRED_PERCENT / spot_price) as i64)
    }
}

} // verus!
