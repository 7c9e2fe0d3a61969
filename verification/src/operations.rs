//! The operations of the market as its callers see them. Each takes what
//! the outside gave as arguments: the caller, the time, the vault's
//! answer; and gives back what the outside has to do next.

use vstd::prelude::*;
use candid::Principal;
use crate::account::{subaccount_key, Subaccount, UniqueSubAccount};
use crate::corelib::calc_lib::{_power_of_ten, power_of_ten};
use crate::corelib::constants::{_HUNDRED_PERCENT, _PRICE_FACTOR};
use crate::corelib::price_lib::{_tick_to_price, tick_price};
use crate::corelib::tick_lib::_compressed_tick;
use crate::market::{
    has_tick_order, remove_tick_order, store_tick_order, with_tick_order, without_tick_order,
    Market, MarketView,
};
use crate::position::{
    _can_liquidation_status, _liquidation_status, ManageDebtParams, PositionOrderType, PositionParameters, PositionStatus,
    PositionUpdateErrorLog,
};
use crate::types::{
    Amount, GetExchangeRateRequest, GetExchangeRateResult, MarketDetails, Tick, Time,
};

verus! {

/// Why a position was not opened.
#[derive(Clone, Copy, Debug, PartialEq, Eq, Structural)]
pub enum OpenPositionError {
    /// The account holds a position or waits on an error log.
    PendingErrorOrPosition,
    /// The market is paused.
    MarketPaused,
    /// The leverage reaches the maximum, or the collateral is below the
    /// minimum.
    LeverageOrCollateral,
    /// The vault cannot lend the debt.
    NotEnoughLiquidity,
    /// The order could not be placed or swapped.
    FailedToOpen,
}

impl OpenPositionError {
    /// The words that the caller is given.
    pub fn message(&self) -> (words: &'static str)
        ensures
            *self == OpenPositionError::PendingErrorOrPosition ==> words@
                == "Account has pending error or unclosed position"@,
            *self == OpenPositionError::MarketPaused ==> words@ == "Market is paused"@,
            *self == OpenPositionError::LeverageOrCollateral ==> words@
                == "Max leverage exceeded or collateral is too small"@,
            *self == OpenPositionError::NotEnoughLiquidity ==> words@
                == "Not enough liquidity for debt"@,
            *self == OpenPositionError::FailedToOpen ==> words@ == "Failed to open position"@,
    {
        match self {
            OpenPositionError::PendingErrorOrPosition => {
                "Account has pending error or unclosed position"
            },
            OpenPositionError::MarketPaused => "Market is paused",
            OpenPositionError::LeverageOrCollateral => {
                "Max leverage exceeded or collateral is too small"
            },
            OpenPositionError::NotEnoughLiquidity => "Not enough liquidity for debt",
            OpenPositionError::FailedToOpen => "Failed to open position",
        }
    }
}

/// A notification that is to be sent to the vault.
#[derive(Clone, Copy, Debug, PartialEq)]
pub struct VaultUpdate {
    pub user: Principal,
    pub account_index: u8,
    /// What the vault is to credit to the user.
    pub profit: Amount,
    pub manage_debt_params: ManageDebtParams,
}

/// The vault that keeps the collateral and lends the debt.
#[derive(Clone, Copy, Debug)]
pub struct Vault {
    pub canister_id: Principal,
}

/// The debt of a position of `collateral_value` at ten times the leverage
/// `leveragex10`.
pub open spec fn debt_for(collateral_value: Amount, leveragex10: u8) -> nat {
    ((leveragex10 - 10) * collateral_value / 10) as nat
}

/// Whether the debt can be computed without overflow.
pub open spec fn debt_fits(collateral_value: Amount, leveragex10: u8) -> bool {
    leveragex10 >= 10 && (leveragex10 - 10) * collateral_value <= u128::MAX
}

/// The debt of a position of `collateral_value` at ten times the leverage
/// `leveragex10`.
pub fn _debt_value(collateral_value: Amount, leveragex10: u8) -> (debt_value: Amount)
    requires
        debt_fits(collateral_value, leveragex10),
    ensures
        debt_value == debt_for(collateral_value, leveragex10),
{
    ((leveragex10 - 10) as u128) * collateral_value / 10
}

/// Whether `_debt_value` accepts the collateral and the leverage.
pub fn _can_debt_value(collateral_value: Amount, leveragex10: u8) -> (fits: bool)
    ensures
        fits == debt_fits(collateral_value, leveragex10),
{
    if leveragex10 < 10 {
        return false;
    }
    let times = (leveragex10 - 10) as u128;
    if times != 0 && collateral_value > u128::MAX / times {
        assert(times * collateral_value > u128::MAX) by (nonlinear_arith)
            requires
                times > 0,
                collateral_value > u128::MAX / times,
        ;
        return false;
    }
    assert(times * collateral_value <= u128::MAX) by (nonlinear_arith)
        requires
            times == 0 || collateral_value <= u128::MAX / times,
    ;
    true
}

impl Vault {
    pub fn init(canister_id: Principal) -> (vault: Self)
        ensures
            vault.canister_id == canister_id,
    {
        Vault { canister_id }
    }

    /// The notification of an update of a user's position.
    pub fn position_update(
        &self,
        user: Principal,
        account_index: u8,
        profit: Amount,
        manage_debt_params: ManageDebtParams,
    ) -> (update: VaultUpdate)
        ensures
            update == (VaultUpdate { user, account_index, profit, manage_debt_params }),
    {
        VaultUpdate { user, account_index, profit, manage_debt_params }
    }

    /// Records how a notification to the vault went: one that was not
    /// delivered is kept as the error log of the user's account, to be sent
    /// again.
    pub fn manage_position_update(
        &self,
        market: &mut Market,
        update: VaultUpdate,
        delivered: bool,
    )
        ensures
            final(market)@ == old(market)@.recorded_update(update, delivered),
    {
        if !delivered {
            let error_log = PositionUpdateErrorLog {
                user: update.user,
                profit: update.profit,
                debt_params: update.manage_debt_params,
            };
            let account = update.user._to_subaccount(update.account_index);
            market._insert_account_error_log(account, error_log);
        }
    }

    /// What a failed check of the vault stands for: the vault refuses, at
    /// no interest.
    pub fn create_position_validity_check(&self, reply: Option<(bool, u32)>) -> (answer: (
        bool,
        u32,
    ))
        ensures
            answer == (match reply {
                Some(answer) => answer,
                None => (false, 0u32),
            }),
    {
        match reply {
            Some(answer) => answer,
            None => (false, 0),
        }
    }
}

/// The canister that gives the exchange rate of the market's pair.
#[derive(Clone, Copy, Debug)]
pub struct XRC {
    pub canister_id: Principal,
}

impl XRC {
    pub fn init(canister_id: Principal) -> (xrc: Self)
        ensures
            xrc.canister_id == canister_id,
    {
        XRC { canister_id }
    }

    /// The request for the present rate of the market's pair.
    pub fn exchange_rate_request(&self, market_details: MarketDetails) -> (request:
        GetExchangeRateRequest)
        ensures
            request.base_asset == market_details.base_asset,
            request.quote_asset == market_details.quote_asset,
            request.timestamp is None,
    {
        GetExchangeRateRequest {
            base_asset: market_details.base_asset,
            quote_asset: market_details.quote_asset,
            timestamp: None,
        }
    }
}

/// What opening a position gives.
pub struct Opening {
    pub market: MarketView,
    pub result: Result<PositionParameters, OpenPositionError>,
    /// What the vault is to be told.
    pub vault_update: Option<VaultUpdate>,
    /// Whether the task that converts crossed limit positions is to be
    /// started.
    pub start_timer: bool,
}

/// What closing a position gives.
pub struct Closing {
    pub market: MarketView,
    /// The collateral that leaves the position.
    pub collateral: Amount,
    /// What the vault is to be told.
    pub vault_update: Option<VaultUpdate>,
    /// Whether the task that converts crossed limit positions is to be
    /// started.
    pub start_timer: bool,
}

impl MarketView {
    /// The market after a notification to the vault went out or failed.
    pub open spec fn recorded_update(self, update: VaultUpdate, delivered: bool) -> MarketView {
        if delivered {
            self
        } else {
            MarketView {
                error_logs: self.error_logs.insert(
                    subaccount_key(update.user, update.account_index),
                    PositionUpdateErrorLog {
                        user: update.user,
                        profit: update.profit,
                        debt_params: update.manage_debt_params,
                    },
                ),
                ..self
            }
        }
    }

    /// Why the market itself refuses a new position of the account, if it
    /// does: the account is not free, the market is paused, or the leverage
    /// or the collateral is out of bounds; in that order.
    pub open spec fn refusal(self, account: Subaccount, collateral_value: Amount, leveragex10: u8)
        -> Option<OpenPositionError> {
        if self.has_position_or_pending_error_log(account) {
            Some(OpenPositionError::PendingErrorOrPosition)
        } else if !self.state.not_paused {
            Some(OpenPositionError::MarketPaused)
        } else if leveragex10 >= self.state.max_leveragex10 || collateral_value
            < self.state.min_collateral {
            Some(OpenPositionError::LeverageOrCollateral)
        } else {
            None
        }
    }

    /// Whether a new position is accepted: the interest rate where the
    /// market does not refuse it and the vault can lend the debt.
    pub open spec fn position_checks(
        self,
        account: Subaccount,
        collateral_value: Amount,
        leveragex10: u8,
        vault_answer: (bool, u32),
    ) -> Result<u32, OpenPositionError> {
        match self.refusal(account, collateral_value, leveragex10) {
            Some(error) => Err(error),
            None => if !vault_answer.0 {
                Err(OpenPositionError::NotEnoughLiquidity)
            } else {
                Ok(vault_answer.1)
            },
        }
    }

    /// The notification that gives a position's whole debt back to the
    /// vault and its collateral to the user.
    pub open spec fn refund(
        user: Principal,
        account_index: u8,
        collateral_value: Amount,
        debt_value: Amount,
    ) -> VaultUpdate {
        VaultUpdate {
            user,
            account_index,
            profit: collateral_value,
            manage_debt_params: ManageDebtParams {
                initial_debt: debt_value,
                net_debt: debt_value,
                amount_repaid: debt_value,
            },
        }
    }

    /// Whether a limit position can be opened at `now`.
    pub open spec fn open_limit_position_fits(
        self,
        long: bool,
        collateral_value: Amount,
        leveragex10: u8,
        max_tick: Tick,
        now: Time,
    ) -> bool {
        &&& debt_fits(collateral_value, leveragex10)
        &&& self.details.tick_spacing > 0
        &&& self.open_limit_fits(
            long,
            collateral_value,
            debt_for(collateral_value, leveragex10) as Amount,
            max_tick / self.details.tick_spacing,
            now,
        )
    }

    /// What opening a limit position gives. A position that is refused
    /// changes nothing. One whose order would trade at once fails, and the
    /// vault is told to give back what it reserved. Otherwise the order is
    /// placed and the account is registered at the entry tick.
    pub open spec fn open_limit_position(
        self,
        user: Principal,
        account_index: u8,
        long: bool,
        collateral_value: Amount,
        leveragex10: u8,
        max_tick: Tick,
        vault_answer: (bool, u32),
        now: Time,
    ) -> Opening {
        let account = subaccount_key(user, account_index);
        let debt_value = debt_for(collateral_value, leveragex10) as Amount;
        let entry_tick = max_tick / self.details.tick_spacing;
        match self.position_checks(account, collateral_value, leveragex10, vault_answer) {
            Err(error) => Opening {
                market: self,
                result: Err(error),
                vault_update: None,
                start_timer: false,
            },
            Ok(interest_rate) => {
                let (market, opened) = self.opened_limit(
                    account,
                    user,
                    long,
                    collateral_value,
                    debt_value,
                    interest_rate,
                    entry_tick,
                    now,
                );
                match opened {
                    None => Opening {
                        market,
                        result: Err(OpenPositionError::FailedToOpen),
                        vault_update: Some(
                            Self::refund(user, account_index, collateral_value, debt_value),
                        ),
                        start_timer: false,
                    },
                    Some(position) => Opening {
                        market: MarketView {
                            limit_orders: with_tick_order(market.limit_orders, entry_tick, account),
                            ..market
                        },
                        result: Ok(position),
                        vault_update: None,
                        start_timer: false,
                    },
                }
            },
        }
    }

    /// Whether a market position can be opened without overflow.
    pub open spec fn open_market_position_fits(
        self,
        long: bool,
        collateral_value: Amount,
        leveragex10: u8,
        max_tick: Option<Tick>,
    ) -> bool {
        &&& debt_fits(collateral_value, leveragex10)
        &&& self.open_market_fits(
            long,
            collateral_value,
            debt_for(collateral_value, leveragex10) as Amount,
            max_tick,
        )
    }

    /// What opening a market position gives. A position that is refused
    /// changes nothing. A short that finds no buy fails, and the vault is
    /// told to give back what it reserved. Otherwise the order is swapped,
    /// the limit positions at the ticks it emptied are scheduled for
    /// conversion, and the vault is told of the debt and collateral that
    /// were not used, if any debt was not.
    pub open spec fn open_market_position(
        self,
        user: Principal,
        account_index: u8,
        long: bool,
        collateral_value: Amount,
        leveragex10: u8,
        max_tick: Option<Tick>,
        vault_answer: (bool, u32),
        now: Time,
    ) -> Opening {
        let account = subaccount_key(user, account_index);
        let debt_value = debt_for(collateral_value, leveragex10) as Amount;
        match self.position_checks(account, collateral_value, leveragex10, vault_answer) {
            Err(error) => Opening {
                market: self,
                result: Err(error),
                vault_update: None,
                start_timer: false,
            },
            Ok(interest_rate) => {
                let (market, opened) = self.opened_market(
                    account,
                    user,
                    long,
                    collateral_value,
                    debt_value,
                    interest_rate,
                    max_tick,
                    now,
                );
                match opened {
                    None => Opening {
                        market,
                        result: Err(OpenPositionError::FailedToOpen),
                        vault_update: Some(
                            Self::refund(user, account_index, collateral_value, debt_value),
                        ),
                        start_timer: false,
                    },
                    Some((position, crossed_ticks)) => Opening {
                        market: market.scheduled(crossed_ticks),
                        result: Ok(position),
                        vault_update: if position.debt_value != debt_value {
                            Some(
                                VaultUpdate {
                                    user,
                                    account_index,
                                    profit: (collateral_value - position.collateral_value)
                                        as Amount,
                                    manage_debt_params: ManageDebtParams {
                                        initial_debt: debt_value,
                                        net_debt: debt_value,
                                        amount_repaid: (debt_value - position.debt_value)
                                            as Amount,
                                    },
                                },
                            )
                        } else {
                            None
                        },
                        start_timer: crossed_ticks.len() > 0 && !market.pending_timer,
                    },
                }
            },
        }
    }

    /// The notification of a close, which goes out where debt is repaid.
    pub open spec fn close_update(
        user: Principal,
        account_index: u8,
        collateral: Amount,
        manage_debt_params: ManageDebtParams,
    ) -> Option<VaultUpdate> {
        if manage_debt_params.amount_repaid != 0 {
            Some(VaultUpdate { user, account_index, profit: collateral, manage_debt_params })
        } else {
            None
        }
    }

    /// Whether the limit position of the account can be closed: it has a
    /// position, and where that is a limit position it can be closed
    /// without overflow and is registered at its entry tick.
    pub open spec fn close_limit_position_fits(self, user: Principal, account_index: u8) -> bool {
        let account = subaccount_key(user, account_index);
        &&& self.positions.contains_key(account)
        &&& !self.positions[account].is_market() ==> {
            &&& self.close_limit_fits(self.positions[account])
            &&& has_tick_order(self.limit_orders, self.positions[account].entry_tick, account)
        }
    }

    /// What closing the limit position of the account gives: nothing for a
    /// market position; otherwise the order is closed, the account is
    /// taken off the register of the entry tick, and the vault is told
    /// where debt is repaid.
    pub open spec fn close_limit_position(self, user: Principal, account_index: u8, now: Time)
        -> Closing {
        let account = subaccount_key(user, account_index);
        let position = self.positions[account];
        if position.is_market() {
            Closing { market: self, collateral: 0, vault_update: None, start_timer: false }
        } else {
            let closed = self.closed_limit(account, position, now);
            Closing {
                market: MarketView {
                    limit_orders: without_tick_order(
                        closed.market.limit_orders,
                        position.entry_tick,
                        account,
                    ),
                    ..closed.market
                },
                collateral: closed.removed_collateral,
                vault_update: Self::close_update(
                    user,
                    account_index,
                    closed.removed_collateral,
                    closed.debt_params,
                ),
                start_timer: false,
            }
        }
    }

    /// Whether the market position of the account can be closed: it has a
    /// position, and where that is a market position it can be closed
    /// without overflow.
    pub open spec fn close_market_position_fits(
        self,
        user: Principal,
        account_index: u8,
        max_tick: Option<Tick>,
        now: Time,
    ) -> bool {
        let account = subaccount_key(user, account_index);
        &&& self.positions.contains_key(account)
        &&& self.positions[account].is_market() ==> self.close_market_fits(
            self.positions[account],
            max_tick,
            now,
        )
    }

    /// What closing the market position of the account gives: nothing for
    /// a limit position; otherwise the position is closed, the limit
    /// positions at the ticks that the swap emptied are scheduled for
    /// conversion, and the vault is told where debt is repaid.
    pub open spec fn close_market_position(
        self,
        user: Principal,
        account_index: u8,
        max_tick: Option<Tick>,
        now: Time,
    ) -> Closing {
        let account = subaccount_key(user, account_index);
        let position = self.positions[account];
        if !position.is_market() {
            Closing { market: self, collateral: 0, vault_update: None, start_timer: false }
        } else {
            let closed = self.closed_market(account, position, max_tick, now);
            Closing {
                market: closed.market.scheduled(closed.crossed_ticks),
                collateral: closed.profit,
                vault_update: Self::close_update(
                    user,
                    account_index,
                    closed.profit,
                    closed.debt_params,
                ),
                start_timer: closed.crossed_ticks.len() > 0 && !closed.market.pending_timer,
            }
        }
    }

    /// Whether the account can be checked for liquidation: it has a
    /// position whose status can be computed, and where the position is to
    /// be liquidated its volume can leave its side and its collateral does
    /// not fall short by more than the whole debt.
    pub open spec fn liquidate_position_fits(self, user: Principal, account_index: u8, now: Time)
        -> bool {
        let account = subaccount_key(user, account_index);
        let position = self.positions[account];
        let tick = self.lowest_sell_offer;
        &&& self.positions.contains_key(account)
        &&& position.liquidation_fits(tick, now)
        &&& position.to_liquidate(self.state.max_leveragex10, tick, now) ==> {
            &&& self.funding.remove_fits(position.volume_share, position.long)
            &&& position.current_collateral(tick, now) <= 0 ==> -position.current_collateral(
                tick,
                now,
            ) <= position.debt_value + position.interest_due(now)
        }
    }

    /// What the vault is told when the position is liquidated: the
    /// collateral that is left goes to the user, and the debt is repaid but
    /// for what the collateral falls short of it.
    pub open spec fn liquidation_update(
        self,
        user: Principal,
        account_index: u8,
        position: PositionParameters,
        now: Time,
    ) -> VaultUpdate {
        let collateral = position.current_collateral(self.lowest_sell_offer, now);
        let net_debt = (position.debt_value + position.interest_due(now)) as Amount;
        VaultUpdate {
            user,
            account_index,
            profit: if collateral > 0 {
                collateral as Amount
            } else {
                0
            },
            manage_debt_params: ManageDebtParams {
                initial_debt: position.debt_value,
                net_debt,
                amount_repaid: if collateral > 0 {
                    net_debt
                } else {
                    (net_debt + collateral) as Amount
                },
            },
        }
    }

    /// The market after the position of the account was liquidated, if it
    /// was to be: its volume leaves its side, and the position is removed.
    pub open spec fn liquidated(self, user: Principal, account_index: u8, now: Time) -> MarketView {
        let account = subaccount_key(user, account_index);
        let position = self.positions[account];
        if position.to_liquidate(self.state.max_leveragex10, self.lowest_sell_offer, now) {
            MarketView {
                funding: self.funding.removed(position.volume_share, position.long),
                positions: self.positions.remove(account),
                ..self
            }
        } else {
            self
        }
    }

    /// The perpetual's price that the cached lowest sell implies, scaled by
    /// ten to the power of `decimals` as the oracle scales its rate.
    pub open spec fn perp_price(self, decimals: u32) -> nat {
        tick_price(self.lowest_sell_offer as nat) * power_of_ten(decimals as nat) / (
        _PRICE_FACTOR as nat)
    }

    /// Whether funding can be settled against the oracle's answer without
    /// overflow.
    pub open spec fn settle_against_fits(self, rate_result: GetExchangeRateResult) -> bool {
        rate_result is Ok ==> {
            let decimals = rate_result->Ok_0.metadata.decimals;
            &&& tick_price(self.lowest_sell_offer as nat) * power_of_ten(decimals as nat)
                <= u128::MAX
            &&& self.settle_funding_fits(
                self.perp_price(decimals) as u128,
                rate_result->Ok_0.rate as u128,
            )
        }
    }

    /// The market after funding was settled against the oracle's answer:
    /// the perpetual's price against the oracle's rate; nothing where the
    /// oracle gave no rate.
    pub open spec fn settled_against(self, rate_result: GetExchangeRateResult) -> MarketView {
        match rate_result {
            Ok(rate) => self.settled_funding(
                self.perp_price(rate.metadata.decimals) as u128,
                rate.rate as u128,
            ),
            Err(_) => self,
        }
    }

    /// Whether the details of the account's position can be computed
    /// without overflow.
    pub open spec fn details_fits(self, account: Subaccount, now: Time) -> bool {
        self.positions.contains_key(account) ==> {
            let position = self.positions[account];
            let tick = self.lowest_sell_offer;
            &&& self.convert_account_fits(account, true)
            &&& position.liquidation_fits(tick, now)
            &&& !position.to_liquidate(self.state.max_leveragex10, tick, now) ==> {
                &&& 0 < position.collateral_value <= i128::MAX / 10
                &&& vstd::math::abs(self.current_value(position, now) - position.collateral_value)
                    * _HUNDRED_PERCENT <= i128::MAX
                &&& Self::collateral_change(position, self.current_value(position, now))
                    <= i64::MAX
            }
        }
    }

    /// What the position is worth now: the collateral of a market position
    /// at the cached lowest sell, the collateral as it stands of a limit
    /// position.
    pub open spec fn current_value(self, position: PositionParameters, now: Time) -> int {
        if position.is_market() {
            position.current_collateral(self.lowest_sell_offer, now)
        } else {
            position.collateral_value as int
        }
    }

    /// How far `current` is from the position's collateral, in basis points
    /// of the collateral and rounded towards zero.
    pub open spec fn collateral_change(position: PositionParameters, current: int) -> nat {
        (vstd::math::abs(current - position.collateral_value) * (_HUNDRED_PERCENT as int) / (
        position.collateral_value as int)) as nat
    }

    /// The profit or loss of the account's position, in basis points of its
    /// collateral: all of it lost where the position is to be liquidated.
    pub open spec fn position_pnl(self, position: PositionParameters, now: Time) -> int {
        let current = self.current_value(position, now);
        if position.to_liquidate(self.state.max_leveragex10, self.lowest_sell_offer, now) {
            -(_HUNDRED_PERCENT as int)
        } else if current >= position.collateral_value {
            Self::collateral_change(position, current) as int
        } else {
            -(Self::collateral_change(position, current) as int)
        }
    }

    /// Whether the next conversion can be executed without overflow.
    pub open spec fn execute_fits(self) -> bool {
        self.executable.len() > 0 ==> self.convert_account_fits(self.executable[0], false)
    }

    /// The market after the next conversion was executed: the account that
    /// has waited longest leaves the queue and its limit position is
    /// converted. With nothing to convert, the task stops.
    pub open spec fn executed(self, now: Time) -> MarketView {
        if self.executable.len() > 0 {
            (MarketView { executable: self.executable.remove(0), ..self }).converted_account(
                self.executable[0],
                false,
                now,
            )
        } else {
            MarketView { pending_timer: false, ..self }
        }
    }
}

impl Market {
    /// Why the market itself refuses a new position of the account, if it
    /// does.
    pub fn _open_position_precheck(
        &self,
        account: &Subaccount,
        collateral_value: Amount,
        leveragex10: u8,
    ) -> (refusal: Option<OpenPositionError>)
        ensures
            refusal == self@.refusal(*account, collateral_value, leveragex10),
    {
        if self._has_position_or_pending_error_log(account) {
            return Some(OpenPositionError::PendingErrorOrPosition);
        }
        let state = self._get_state_details();
        if !state.not_paused {
            return Some(OpenPositionError::MarketPaused);
        }
        if leveragex10 >= state.max_leveragex10 || collateral_value < state.min_collateral {
            return Some(OpenPositionError::LeverageOrCollateral);
        }
        None
    }

    /// Whether a new position is accepted, given the vault's answer to the
    /// check of the user's balance and of the liquidity for the debt. Gives
    /// the interest rate, or why the position is refused.
    pub fn _open_position_checks(
        &self,
        account: &Subaccount,
        collateral_value: Amount,
        leveragex10: u8,
        vault_answer: (bool, u32),
    ) -> (checked: Result<u32, OpenPositionError>)
        ensures
            checked == self@.position_checks(*account, collateral_value, leveragex10, vault_answer),
    {
        match self._open_position_precheck(account, collateral_value, leveragex10) {
            Some(error) => Err(error),
            None => {
                let (valid, interest_rate) = vault_answer;
                if !valid {
                    Err(OpenPositionError::NotEnoughLiquidity)
                } else {
                    Ok(interest_rate)
                }
            },
        }
    }

    /// Whether `open_market_position` accepts the position on the market as
    /// it stands, its book in order.
    pub fn can_open_market_position(
        &self,
        long: bool,
        collateral_value: Amount,
        leveragex10: u8,
        max_tick: Option<Tick>,
    ) -> (fits: bool)
        requires
            self@.book.wf(),
        ensures
            fits == self@.open_market_position_fits(long, collateral_value, leveragex10, max_tick),
    {
        if !_can_debt_value(collateral_value, leveragex10) {
            return false;
        }
        let debt_value = _debt_value(collateral_value, leveragex10);
        self._can_open_market(long, collateral_value, debt_value, max_tick)
    }

    /// Whether `close_market_position` accepts the account on the market as
    /// it stands at `now`, its book in order.
    pub fn can_close_market_position(
        &self,
        user: Principal,
        account_index: u8,
        max_tick: Option<Tick>,
        now: Time,
    ) -> (fits: bool)
        requires
            self@.book.wf(),
        ensures
            fits == self@.close_market_position_fits(user, account_index, max_tick, now),
    {
        let account = user._to_subaccount(account_index);
        match self._get_account_position(&account) {
            None => false,
            Some(position) => match position.order_type {
                PositionOrderType::Limit(_) => true,
                PositionOrderType::Market => self._can_close_market(&position, max_tick, now),
            },
        }
    }

    /// Whether `_execute_each_limit_order` accepts the market as it stands.
    pub fn can_execute_each_limit_order(&self) -> (fits: bool)
        ensures
            fits == self@.execute_fits(),
    {
        if self.executable_limit_orders_accounts.len() > 0 {
            self._can_convert_account(&self.executable_limit_orders_accounts[0], false)
        } else {
            true
        }
    }

    /// Whether `open_limit_position` accepts the position on the market as
    /// it stands at `now`.
    pub fn can_open_limit_position(
        &self,
        long: bool,
        collateral_value: Amount,
        leveragex10: u8,
        max_tick: Tick,
        now: Time,
    ) -> (fits: bool)
        ensures
            fits == self@.open_limit_position_fits(
                long,
                collateral_value,
                leveragex10,
                max_tick,
                now,
            ),
    {
        if !_can_debt_value(collateral_value, leveragex10) {
            return false;
        }
        if self.market_details.tick_spacing == 0 {
            return false;
        }
        let debt_value = _debt_value(collateral_value, leveragex10);
        let entry_tick = _compressed_tick(max_tick, self.market_details.tick_spacing);
        self._can_open_limit(long, collateral_value, debt_value, entry_tick, now)
    }

    /// Whether `close_limit_position` accepts the account on the market as
    /// it stands.
    pub fn can_close_limit_position(&self, user: Principal, account_index: u8) -> (fits: bool)
        ensures
            fits == self@.close_limit_position_fits(user, account_index),
    {
        let account = user._to_subaccount(account_index);
        match self._get_account_position(&account) {
            None => false,
            Some(position) => match position.order_type {
                PositionOrderType::Market => true,
                PositionOrderType::Limit(_) => self._can_close_limit(&position)
                    && crate::market::is_tick_order_stored(
                    &self.limit_orders_record,
                    position.entry_tick,
                    &account,
                ),
            },
        }
    }

    /// Whether `_settle_funding_rate` accepts the two prices on the market
    /// as it stands.
    pub fn can_settle_funding_rate(&self, perp_price: u128, spot_price: u128) -> (fits: bool)
        ensures
            fits == self@.settle_funding_fits(perp_price, spot_price),
    {
        if spot_price == 0 {
            return false;
        }
        let distance = if perp_price >= spot_price {
            perp_price - spot_price
        } else {
            spot_price - perp_price
        };
        if distance > (i64::MAX as u128) / _HUNDRED_PERCENT {
            return false;
        }
        let funding_rate = crate::position::_calculate_funding_rate_premium(perp_price, spot_price);
        let magnitude: u64 = if funding_rate >= 0 {
            funding_rate as u64
        } else {
            (-funding_rate) as u64
        };
        self.funding_rate_tracker.can_settle(magnitude, funding_rate > 0)
    }

    /// Opens a limit position for the account `account_index` of `user`,
    /// with the vault's answer to the validity check. Gives the position or
    /// why there is none, and what the vault is to be told.
    pub fn open_limit_position(
        &mut self,
        user: Principal,
        account_index: u8,
        long: bool,
        collateral_value: Amount,
        leveragex10: u8,
        max_tick: Tick,
        vault_answer: (bool, u32),
        now: Time,
    ) -> (outcome: (Result<PositionParameters, OpenPositionError>, Option<VaultUpdate>))
        requires
            old(self)@.open_limit_position_fits(
                long,
                collateral_value,
                leveragex10,
                max_tick,
                now,
            ),
        ensures
            ({
                let opening = old(self)@.open_limit_position(
                    user,
                    account_index,
                    long,
                    collateral_value,
                    leveragex10,
                    max_tick,
                    vault_answer,
                    now,
                );
                &&& final(self)@ == opening.market
                &&& outcome.0 == opening.result
                &&& outcome.1 == opening.vault_update
            }),
    {
        let account = user._to_subaccount(account_index);
        let debt_value = _debt_value(collateral_value, leveragex10);
        let vault = Vault::init(self.market_details.vault_id);
        let entry_tick = _compressed_tick(max_tick, self.market_details.tick_spacing);
        let interest_rate = match self._open_position_checks(
            &account,
            collateral_value,
            leveragex10,
            vault_answer,
        ) {
            Err(error) => {
                return (Err(error), None);
            },
            Ok(rate) => rate,
        };
        let opened = if long {
            self._open_limit_long_position(
                account,
                user,
                collateral_value,
                debt_value,
                interest_rate,
                entry_tick,
                now,
            )
        } else {
            self._open_limit_short_position(
                account,
                user,
                collateral_value,
                debt_value,
                interest_rate,
                entry_tick,
                now,
            )
        };
        match opened {
            None => (
                Err(OpenPositionError::FailedToOpen),
                Some(
                    vault.position_update(
                        user,
                        account_index,
                        collateral_value,
                        ManageDebtParams::init(debt_value, debt_value, debt_value),
                    ),
                ),
            ),
            Some((position, _)) => {
                store_tick_order(&mut self.limit_orders_record, entry_tick, account);
                (Ok(position), None)
            },
        }
    }

    /// Opens a market position for the account `account_index` of `user`,
    /// with the vault's answer to the validity check. Gives the position or
    /// why there is none, what the vault is to be told, and whether the
    /// task that converts crossed limit positions is to be started.
    pub fn open_market_position(
        &mut self,
        user: Principal,
        account_index: u8,
        long: bool,
        collateral_value: Amount,
        leveragex10: u8,
        max_tick: Option<Tick>,
        vault_answer: (bool, u32),
        now: Time,
    ) -> (outcome: (Result<PositionParameters, OpenPositionError>, Option<VaultUpdate>, bool))
        requires
            old(self)@.open_market_position_fits(long, collateral_value, leveragex10, max_tick),
        ensures
            ({
                let opening = old(self)@.open_market_position(
                    user,
                    account_index,
                    long,
                    collateral_value,
                    leveragex10,
                    max_tick,
                    vault_answer,
                    now,
                );
                &&& final(self)@ == opening.market
                &&& outcome.0 == opening.result
                &&& outcome.1 == opening.vault_update
                &&& outcome.2 == opening.start_timer
            }),
    {
        let account = user._to_subaccount(account_index);
        let debt_value = _debt_value(collateral_value, leveragex10);
        let vault = Vault::init(self.market_details.vault_id);
        let interest_rate = match self._open_position_checks(
            &account,
            collateral_value,
            leveragex10,
            vault_answer,
        ) {
            Err(error) => {
                return (Err(error), None, false);
            },
            Ok(rate) => rate,
        };
        let opened = if long {
            self._open_market_long_position(
                account,
                user,
                collateral_value,
                debt_value,
                interest_rate,
                max_tick,
                now,
            )
        } else {
            self._open_market_short_position(
                account,
                user,
                collateral_value,
                debt_value,
                interest_rate,
                max_tick,
                now,
            )
        };
        match opened {
            None => (
                Err(OpenPositionError::FailedToOpen),
                Some(
                    vault.position_update(
                        user,
                        account_index,
                        collateral_value,
                        ManageDebtParams::init(debt_value, debt_value, debt_value),
                    ),
                ),
                false,
            ),
            Some((position, crossed_ticks)) => {
                let start_timer = self._schedule_execution_for_ticks_orders(crossed_ticks);
                let vault_update = if position.debt_value != debt_value {
                    let un_used_collateral = collateral_value - position.collateral_value;
                    Some(
                        vault.position_update(
                            user,
                            account_index,
                            un_used_collateral,
                            ManageDebtParams::init(
                                debt_value,
                                debt_value,
                                debt_value - position.debt_value,
                            ),
                        ),
                    )
                } else {
                    None
                };
                (Ok(position), vault_update, start_timer)
            },
        }
    }

    /// Closes the limit position of the account `account_index` of `user`.
    /// Gives the collateral that leaves the position and what the vault is
    /// to be told.
    pub fn close_limit_position(&mut self, user: Principal, account_index: u8, now: Time) -> (outcome:
        (Amount, Option<VaultUpdate>))
        requires
            old(self)@.close_limit_position_fits(user, account_index),
        ensures
            ({
                let closing = old(self)@.close_limit_position(user, account_index, now);
                &&& final(self)@ == closing.market
                &&& outcome.0 == closing.collateral
                &&& outcome.1 == closing.vault_update
            }),
    {
        let account = user._to_subaccount(account_index);
        let mut position = match self._get_account_position(&account) {
            Some(position) => position,
            None => {
                return (0, None);
            },
        };
        let vault = Vault::init(self.market_details.vault_id);
        match position.order_type {
            PositionOrderType::Market => {
                return (0, None);
            },
            PositionOrderType::Limit(_) => {},
        }
        let (removed_collateral, manage_debt_params) = if position.long {
            self._close_limit_long_position(account, &mut position, now)
        } else {
            self._close_limit_short_position(account, &mut position, now)
        };
        remove_tick_order(&mut self.limit_orders_record, position.entry_tick, account);
        let vault_update = if manage_debt_params.amount_repaid != 0 {
            Some(vault.position_update(user, account_index, removed_collateral, manage_debt_params))
        } else {
            None
        };
        (removed_collateral, vault_update)
    }

    /// Closes the market position of the account `account_index` of
    /// `user`. Gives the collateral that leaves the position, what the
    /// vault is to be told, and whether the task that converts crossed
    /// limit positions is to be started.
    pub fn close_market_position(
        &mut self,
        user: Principal,
        account_index: u8,
        max_tick: Option<Tick>,
        now: Time,
    ) -> (outcome: (Amount, Option<VaultUpdate>, bool))
        requires
            old(self)@.close_market_position_fits(user, account_index, max_tick, now),
        ensures
            ({
                let closing = old(self)@.close_market_position(user, account_index, max_tick, now);
                &&& final(self)@ == closing.market
                &&& outcome.0 == closing.collateral
                &&& outcome.1 == closing.vault_update
                &&& outcome.2 == closing.start_timer
            }),
    {
        let account = user._to_subaccount(account_index);
        let mut position = match self._get_account_position(&account) {
            Some(position) => position,
            None => {
                return (0, None, false);
            },
        };
        let vault = Vault::init(self.market_details.vault_id);
        match position.order_type {
            PositionOrderType::Limit(_) => {
                return (0, None, false);
            },
            PositionOrderType::Market => {},
        }
        let (collateral_value, crossed_ticks, manage_debt_params) = if position.long {
            self._close_market_long_position(account, &mut position, max_tick, now)
        } else {
            self._close_market_short_position(account, &mut position, max_tick, now)
        };
        let start_timer = self._schedule_execution_for_ticks_orders(crossed_ticks);
        let vault_update = if manage_debt_params.amount_repaid != 0 {
            Some(vault.position_update(user, account_index, collateral_value, manage_debt_params))
        } else {
            None
        };
        (collateral_value, vault_update, start_timer)
    }

    /// Whether `liquidate_position` accepts the account on the market as it
    /// stands at `now`.
    pub fn can_liquidate_position(&self, user: Principal, account_index: u8, now: Time) -> (fits:
        bool)
        ensures
            fits == self@.liquidate_position_fits(user, account_index, now),
    {
        let account = user._to_subaccount(account_index);
        let position = match self._get_account_position(&account) {
            Some(position) => position,
            None => {
                return false;
            },
        };
        let tick = self._get_lowest_sell_offer_tick();
        if !_can_liquidation_status(&position, tick, now) {
            return false;
        }
        let (to_liquidate, collateral_remaining, net_debt_value) = _liquidation_status(
            position,
            self._get_state_details().max_leveragex10,
            tick,
            now,
        );
        if !to_liquidate {
            return true;
        }
        if !self.funding_rate_tracker.can_remove_volume(position.volume_share, position.long) {
            return false;
        }
        collateral_remaining > 0 || (-collateral_remaining) as u128 <= net_debt_value
    }

    /// Liquidates the position of the account `account_index` of `user`
    /// where its collateral is gone or its leverage has reached the
    /// maximum. Gives whether it did, and what the vault is to be told.
    pub fn liquidate_position(&mut self, user: Principal, account_index: u8, now: Time) -> (outcome:
        (bool, Option<VaultUpdate>))
        requires
            old(self)@.liquidate_position_fits(user, account_index, now),
        ensures
            final(self)@ == old(self)@.liquidated(user, account_index, now),
            outcome.0 == old(self)@.positions[subaccount_key(user, account_index)].to_liquidate(
                old(self)@.state.max_leveragex10,
                old(self)@.lowest_sell_offer,
                now,
            ),
            outcome.1 == (if outcome.0 {
                Some(
                    old(self)@.liquidation_update(
                        user,
                        account_index,
                        old(self)@.positions[subaccount_key(user, account_index)],
                        now,
                    ),
                )
            } else {
                None
            }),
    {
        let account = user._to_subaccount(account_index);
        let state_details = self._get_state_details();
        let position = match self._get_account_position(&account) {
            Some(position) => position,
            None => {
                return (false, None);
            },
        };
        let (to_liquidate, collateral_remaining, net_debt_value) = _liquidation_status(
            position,
            state_details.max_leveragex10,
            self._get_lowest_sell_offer_tick(),
            now,
        );
        if to_liquidate {
            let vault = Vault::init(self.market_details.vault_id);
            let (collateral, amount_repaid) = if collateral_remaining > 0 {
                (collateral_remaining as u128, net_debt_value)
            } else {
                (0, net_debt_value - ((-collateral_remaining) as u128))
            };
            let manage_debt_params = ManageDebtParams::init(
                position.debt_value,
                net_debt_value,
                amount_repaid,
            );
            self._calc_position_realised_value(position.volume_share, position.long);
            let vault_update = vault.position_update(
                user,
                account_index,
                collateral,
                manage_debt_params,
            );
            self._remove_account_position(&account);
            return (true, Some(vault_update));
        }
        (false, None)
    }

    /// Whether `get_account_position_details` accepts the account on the
    /// market as it stands at `now`.
    pub fn can_get_account_position_details(&self, user: Principal, account_index: u8, now: Time) -> (fits:
        bool)
        ensures
            fits == self@.details_fits(subaccount_key(user, account_index), now),
    {
        let account = user._to_subaccount(account_index);
        let position = match self._get_account_position(&account) {
            Some(position) => position,
            None => {
                return true;
            },
        };
        match position.order_type {
            PositionOrderType::Market => {},
            PositionOrderType::Limit(order) => {
                if !crate::corelib::price_lib::_equivalent_fits(
                    order.order_size,
                    order.ref_tick,
                    order.buy,
                ) {
                    return false;
                }
                match self.ticks_details.get(order.ref_tick) {
                    None => {},
                    Some(details) => {
                        if !crate::corelib::order_lib::order_closes_on(&order, &details) {
                            return false;
                        }
                    },
                }
            },
        }
        let tick = self._get_lowest_sell_offer_tick();
        if !_can_liquidation_status(&position, tick, now) {
            return false;
        }
        let (to_liquidate, current, _) = _liquidation_status(
            position,
            self._get_state_details().max_leveragex10,
            tick,
            now,
        );
        if to_liquidate {
            return true;
        }
        let limit: u128 = (i128::MAX / 10) as u128;
        if position.collateral_value == 0 || position.collateral_value > limit {
            return false;
        }
        let initial = position.collateral_value as i128;
        let distance: i128 = if current >= initial {
            current - initial
        } else {
            initial - current
        };
        if distance > i128::MAX / 10_000 {
            return false;
        }
        distance * 10_000 / initial <= i64::MAX as i128
    }

    /// The position of the account `account_index` of `user`, how much of
    /// its limit order has been filled, and its profit or loss in basis
    /// points of its collateral; nothing where the account has no position.
    pub fn get_account_position_details(&self, user: Principal, account_index: u8, now: Time) -> (details:
        Option<(PositionParameters, PositionStatus, i64)>)
        requires
            self@.details_fits(subaccount_key(user, account_index), now),
        ensures
            ({
                let account = subaccount_key(user, account_index);
                details == (if self@.positions.contains_key(account) {
                    Some(
                        (
                            self@.positions[account],
                            self@.position_status(account),
                            self@.position_pnl(self@.positions[account], now) as i64,
                        ),
                    )
                } else {
                    None
                })
            }),
    {
        let account = user._to_subaccount(account_index);
        let position_params = match self._get_account_position(&account) {
            Some(position) => position,
            None => {
                return None;
            },
        };
        let position_status = self._position_status(&account);
        let max_leveragex10 = self._get_state_details().max_leveragex10;
        let (to_liquidate, current_collateral_int, _) = _liquidation_status(
            position_params,
            max_leveragex10,
            self._get_lowest_sell_offer_tick(),
            now,
        );
        let pnl: i64 = if to_liquidate {
            -10_000
        } else {
            let initial_collateral = position_params.collateral_value as i128;
            let gain = current_collateral_int >= initial_collateral;
            let distance: i128 = if gain {
                current_collateral_int - initial_collateral
            } else {
                initial_collateral - current_collateral_int
            };
            let magnitude = distance * 10_000 / initial_collateral;
            if gain {
                magnitude as i64
            } else {
                -(magnitude as i64)
            }
        };
        Some((position_params, position_status, pnl))
    }

    /// Settles funding against the oracle's answer to the request for the
    /// rate of the market's pair. Without a rate nothing is settled.
    pub fn settle_funding_rate(&mut self, rate_result: GetExchangeRateResult)
        requires
            old(self)@.settle_against_fits(rate_result),
        ensures
            final(self)@ == old(self)@.settled_against(rate_result),
    {
        match rate_result {
            Ok(rate) => {
                let current_price = _tick_to_price(self._get_lowest_sell_offer_tick());
                proof {
                    crate::corelib::calc_lib::lemma_power_of_ten_grows(
                        0,
                        rate.metadata.decimals as nat,
                    );
                    let power = power_of_ten(rate.metadata.decimals as nat);
                    assert(power <= current_price * power) by (nonlinear_arith)
                        requires
                            current_price >= 1,
                            power >= 0,
                    ;
                }
                let perp_price = current_price * _power_of_ten(rate.metadata.decimals)
                    / _PRICE_FACTOR;
                let spot_price = rate.rate as u128;
                self._settle_funding_rate(perp_price, spot_price);
            },
            Err(_) => {},
        }
    }

    /// Executes the next conversion: the account that has waited longest
    /// leaves the queue and its limit position is converted. Gives whether
    /// the task is to be stopped, which is where nothing waits.
    pub fn _execute_each_limit_order(&mut self, now: Time) -> (clear_timer: bool)
        requires
            old(self)@.execute_fits(),
        ensures
            final(self)@ == old(self)@.executed(now),
            clear_timer == (old(self)@.executable.len() == 0),
    {
        if self.executable_limit_orders_accounts.len() > 0 {
            let account = self.executable_limit_orders_accounts.remove(0);
            self._convert_account_limit_position_to_market(account, false, now);
            false
        } else {
            self._set_pending_timer(false);
            true
        }
    }

    /// Clears the error log of `account`, once the vault has confirmed the
    /// notification.
    pub fn success_notif(&mut self, account: Subaccount)
        ensures
            final(self)@ == (MarketView {
                error_logs: old(self)@.error_logs.remove(account),
                ..old(self)@
            }),
    {
        self._remove_account_error_log(&account);
    }

    /// The notification that waits to be sent again for `account`, if one
    /// does.
    pub fn retry_account_error(&self, account: &Subaccount) -> (log: Option<PositionUpdateErrorLog>)
        ensures
            log == (if self@.error_logs.contains_key(*account) {
                Some(self@.error_logs[*account])
            } else {
                None
            }),
    {
        self._get_account_error_log(account)
    }
}

} // verus!
