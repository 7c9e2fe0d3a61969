use vstd::prelude::*;
use candid::Principal;
use crate::corelib::calc_lib::{
    _calc_shares, _calc_shares_value, _percentage, percentage, shares_for, shares_value,
};

verus! {

pub type Tick = u64;

pub type Time = u64;

pub type Amount = u128;

/// The classes of assets that an exchange rate can be asked for.
#[derive(Clone, Debug, PartialEq)]
pub enum AssetClass {
    /// The cryptocurrency asset class.
    Cryptocurrency,
    /// The fiat currency asset class.
    FiatCurrency,
}

impl Default for AssetClass {
    fn default() -> (class: Self)
        ensures
            class == AssetClass::Cryptocurrency,
    {
        AssetClass::Cryptocurrency
    }
}

/// An asset of a pair that an exchange rate is derived for.
#[derive(Clone, Debug, PartialEq)]
pub struct Asset {
    /// The symbol or code of the asset.
    pub symbol: String,
    /// The asset class.
    pub class: AssetClass,
}

impl Default for Asset {
    fn default() -> (asset: Self)
        ensures
            asset.symbol@ == Seq::<char>::empty(),
            asset.class == AssetClass::Cryptocurrency,
    {
        Asset { symbol: String::new(), class: AssetClass::Cryptocurrency }
    }
}

/// A request for the rate of a pair of assets.
#[derive(Clone, Debug)]
pub struct GetExchangeRateRequest {
    /// The base asset, the first of the pair.
    pub base_asset: Asset,
    /// The quote asset, the second of the pair.
    pub quote_asset: Asset,
    /// The time to find a rate for; the present where none is given.
    pub timestamp: Option<u64>,
}

/// How a rate was determined.
#[derive(Clone, Debug, PartialEq)]
pub struct ExchangeRateMetadata {
    /// The scaling factor of the rate and of the standard deviation.
    pub decimals: u32,
    /// The number of exchanges queried for the base asset.
    pub base_asset_num_queried_sources: usize,
    /// The number of rates received for the base asset.
    pub base_asset_num_received_rates: usize,
    /// The number of exchanges queried for the quote asset.
    pub quote_asset_num_queried_sources: usize,
    /// The number of rates received for the quote asset.
    pub quote_asset_num_received_rates: usize,
    /// The standard deviation of the received rates, scaled by `10^decimals`.
    pub standard_deviation: u64,
    /// The start of the day for which forex rates were retrieved, if any.
    pub forex_timestamp: Option<u64>,
}

/// The rate of a pair of assets.
#[derive(Clone, Debug, PartialEq)]
pub struct ExchangeRate {
    /// The base asset.
    pub base_asset: Asset,
    /// The quote asset.
    pub quote_asset: Asset,
    /// The time that the rate belongs to.
    pub timestamp: u64,
    /// The median of the received rates, scaled by `10^decimals`.
    pub rate: u64,
    /// How the rate was determined.
    pub metadata: ExchangeRateMetadata,
}

/// Why no rate could be given.
#[derive(Clone, Debug)]
pub enum ExchangeRateError {
    /// The request came from the anonymous principal.
    AnonymousPrincipalNotAllowed,
    /// A rate is being retrieved from an exchange.
    Pending,
    /// No rate was found for the base asset.
    CryptoBaseAssetNotFound,
    /// No rate was found for the quote asset.
    CryptoQuoteAssetNotFound,
    /// No stablecoin rate was found for a pair of crypto and fiat.
    StablecoinRateNotFound,
    /// Too few stablecoin rates to determine the rate against the forex.
    StablecoinRateTooFewRates,
    /// The stablecoin rate is zero.
    StablecoinRateZeroRate,
    /// No rate of the forex asset at the given time.
    ForexInvalidTimestamp,
    /// The forex base asset was not found.
    ForexBaseAssetNotFound,
    /// The forex quote asset was not found.
    ForexQuoteAssetNotFound,
    /// Neither forex asset was found.
    ForexAssetsNotFound,
    /// Too many requests are active.
    RateLimited,
    /// The request came with too few cycles.
    NotEnoughCycles,
    /// Too many of the collected rates deviate.
    InconsistentRatesReceived,
    /// Any other error.
    Other(OtherError),
}

/// The details of an `ExchangeRateError::Other`.
#[derive(Clone, Debug)]
pub struct OtherError {
    /// The identifier of the error.
    pub code: u32,
    /// A description of the error.
    pub description: String,
}

/// What a request for a rate gives.
pub type GetExchangeRateResult = Result<ExchangeRate, ExchangeRateError>;

/// What is fixed when the market is set up.
#[derive(Clone, Debug)]
pub struct MarketDetails {
    /// The perpetual asset, the base of the pair.
    pub base_asset: Asset,
    /// The collateral asset, the quote of the pair, in which margin is paid.
    pub quote_asset: Asset,
    /// The canister that keeps the collateral.
    pub vault_id: Principal,
    /// The canister that gives exchange rates.
    pub xrc_id: Principal,
    /// How many of a caller's ticks make one stored tick.
    pub tick_spacing: u64,
}

impl Default for MarketDetails {
    fn default() -> (details: Self)
        ensures
            details.base_asset.symbol@ == Seq::<char>::empty(),
            details.base_asset.class == AssetClass::Cryptocurrency,
            details.quote_asset.symbol@ == Seq::<char>::empty(),
            details.quote_asset.class == AssetClass::Cryptocurrency,
            crate::account::principal_bytes(details.vault_id) == seq![4u8],
            crate::account::principal_bytes(details.xrc_id) == seq![4u8],
            details.tick_spacing == 0,
    {
        MarketDetails {
            base_asset: Asset { symbol: String::new(), class: AssetClass::Cryptocurrency },
            quote_asset: Asset { symbol: String::new(), class: AssetClass::Cryptocurrency },
            vault_id: crate::account::anonymous_principal(),
            xrc_id: crate::account::anonymous_principal(),
            tick_spacing: 0,
        }
    }
}

/// What an administrator may change while the market runs.
#[derive(Clone, Copy, Debug, PartialEq, Eq, Structural)]
pub struct StateDetails {
    /// Whether the market accepts new positions.
    pub not_paused: bool,
    /// Ten times the highest leverage of a position.
    pub max_leveragex10: u8,
    /// The least collateral of a position.
    pub min_collateral: Amount,
}

impl Default for StateDetails {
    fn default() -> (state: Self)
        ensures
            state == (StateDetails { not_paused: false, max_leveragex10: 0, min_collateral: 0 }),
    {
        StateDetails { not_paused: false, max_leveragex10: 0, min_collateral: 0 }
    }
}

/// The side of the book a tick rests on.
#[derive(Clone, Copy, Debug, PartialEq, Eq, Structural)]
pub enum TickState {
    BUY,
    SELL,
}

impl Default for TickState {
    fn default() -> (state: Self)
        ensures
            state == TickState::SELL,
    {
        TickState::SELL
    }
}

/// Cumulative liquidity marks of a tick. What rests unfilled at the tick is
/// the distance between the two bounds.
#[derive(Clone, Copy, Debug, PartialEq, Eq, Structural)]
pub struct LiquidityBoundary {
    /// All liquidity ever placed at the tick since it was created.
    pub upper_bound: Amount,
    /// All liquidity that left the tick since then, filled or withdrawn.
    pub lower_bound: Amount,
    /// The part of `lower_bound` that was withdrawn by closing orders.
    pub lifetime_removed_liquidity: Amount,
}

impl Default for LiquidityBoundary {
    fn default() -> (bounds: Self)
        ensures
            bounds == (LiquidityBoundary {
                upper_bound: 0,
                lower_bound: 0,
                lifetime_removed_liquidity: 0,
            }),
    {
        LiquidityBoundary { upper_bound: 0, lower_bound: 0, lifetime_removed_liquidity: 0 }
    }
}

impl LiquidityBoundary {
    /// `upper_bound >= lower_bound >= lifetime_removed_liquidity`.
    pub open spec fn wf(self) -> bool {
        self.upper_bound >= self.lower_bound >= self.lifetime_removed_liquidity
    }

    /// The unfilled liquidity between the bounds.
    pub open spec fn liquidity_within(self) -> nat {
        (self.upper_bound - self.lower_bound) as nat
    }

    /// Advances the lower bound past `amount` of filled liquidity.
    pub fn _reduce_boundary(&mut self, amount: Amount)
        requires
            old(self).lower_bound + amount <= u128::MAX,
        ensures
            *final(self) == (LiquidityBoundary {
                lower_bound: (old(self).lower_bound + amount) as u128,
                ..*old(self)
            }),
    {
        self.lower_bound = self.lower_bound + amount;
    }

    pub fn _liquidity_within(&self) -> (within: Amount)
        requires
            self.upper_bound >= self.lower_bound,
        ensures
            within == self.liquidity_within(),
    {
        self.upper_bound - self.lower_bound
    }

    /// Places `delta` more liquidity at the tick.
    pub fn _add_liquidity(&mut self, delta: Amount)
        requires
            old(self).upper_bound + delta <= u128::MAX,
        ensures
            *final(self) == (LiquidityBoundary {
                upper_bound: (old(self).upper_bound + delta) as u128,
                ..*old(self)
            }),
    {
        self.upper_bound = self.upper_bound + delta;
    }

    /// Withdraws `delta` of unfilled liquidity: it leaves the tick and counts
    /// as removed.
    pub fn _remove_liquidity(&mut self, delta: Amount)
        requires
            old(self).lower_bound + delta <= u128::MAX,
            old(self).lifetime_removed_liquidity + delta <= u128::MAX,
        ensures
            *final(self) == (LiquidityBoundary {
                lower_bound: (old(self).lower_bound + delta) as u128,
                lifetime_removed_liquidity: (old(self).lifetime_removed_liquidity + delta) as u128,
                ..*old(self)
            }),
    {
        self.lower_bound = self.lower_bound + delta;
        self.lifetime_removed_liquidity = self.lifetime_removed_liquidity + delta;
    }
}

/// The record of a populated tick.
#[derive(Clone, Copy, Debug)]
pub struct TickDetails {
    pub tick_state: TickState,
    pub liq_bounds: LiquidityBoundary,
    /// When this record was created; a later record at the same tick has a
    /// later value.
    pub created_timestamp: Time,
}

impl Default for TickDetails {
    fn default() -> (details: Self)
        ensures
            details == (TickDetails {
                tick_state: TickState::SELL,
                liq_bounds: LiquidityBoundary {
                    upper_bound: 0,
                    lower_bound: 0,
                    lifetime_removed_liquidity: 0,
                },
                created_timestamp: 0,
            }),
    {
        TickDetails {
            tick_state: TickState::SELL,
            liq_bounds: LiquidityBoundary {
                upper_bound: 0,
                lower_bound: 0,
                lifetime_removed_liquidity: 0,
            },
            created_timestamp: 0,
        }
    }
}

impl TickDetails {
    /// A fresh record on the buy side with nothing placed, created at `now`.
    pub fn new(now: Time) -> (details: Self)
        ensures
            details == (TickDetails {
                tick_state: TickState::BUY,
                liq_bounds: LiquidityBoundary {
                    upper_bound: 0,
                    lower_bound: 0,
                    lifetime_removed_liquidity: 0,
                },
                created_timestamp: now,
            }),
    {
        TickDetails {
            tick_state: TickState::BUY,
            liq_bounds: LiquidityBoundary {
                upper_bound: 0,
                lower_bound: 0,
                lifetime_removed_liquidity: 0,
            },
            created_timestamp: now,
        }
    }

    pub fn _add_liquidity(&mut self, amount_in: Amount)
        requires
            old(self).liq_bounds.upper_bound + amount_in <= u128::MAX,
        ensures
            *final(self) == (TickDetails {
                liq_bounds: LiquidityBoundary {
                    upper_bound: (old(self).liq_bounds.upper_bound + amount_in) as u128,
                    ..old(self).liq_bounds
                },
                ..*old(self)
            }),
    {
        self.liq_bounds._add_liquidity(amount_in);
    }

    pub fn _remove_liquidity(&mut self, amount_out: Amount)
        requires
            old(self).liq_bounds.lower_bound + amount_out <= u128::MAX,
            old(self).liq_bounds.lifetime_removed_liquidity + amount_out <= u128::MAX,
        ensures
            *final(self) == (TickDetails {
                liq_bounds: LiquidityBoundary {
                    lower_bound: (old(self).liq_bounds.lower_bound + amount_out) as u128,
                    lifetime_removed_liquidity: (old(self).liq_bounds.lifetime_removed_liquidity
                        + amount_out) as u128,
                    ..old(self).liq_bounds
                },
                ..*old(self)
            }),
    {
        self.liq_bounds._remove_liquidity(amount_out);
    }
}

/// Aggregate open volume of the longs and of the shorts, each held as a
/// net volume that a number of shares lay claim to.
#[derive(Clone, Copy, Debug)]
pub struct FundingRateTracker {
    pub net_volume_long: Amount,
    pub total_long_shares: Amount,
    pub net_volume_short: Amount,
    pub total_short_shares: Amount,
}

impl Default for FundingRateTracker {
    fn default() -> (tracker: Self)
        ensures
            tracker == (FundingRateTracker {
                net_volume_long: 0,
                total_long_shares: 0,
                net_volume_short: 0,
                total_short_shares: 0,
            }),
    {
        FundingRateTracker {
            net_volume_long: 0,
            total_long_shares: 0,
            net_volume_short: 0,
            total_short_shares: 0,
        }
    }
}

impl FundingRateTracker {
    /// The net volume of a side.
    pub open spec fn net_volume(self, long: bool) -> Amount {
        if long {
            self.net_volume_long
        } else {
            self.net_volume_short
        }
    }

    /// The shares of a side.
    pub open spec fn total_shares(self, long: bool) -> Amount {
        if long {
            self.total_long_shares
        } else {
            self.total_short_shares
        }
    }

    /// The tracker with one side replaced.
    pub open spec fn with_side(self, long: bool, net_volume: Amount, total_shares: Amount) -> Self {
        if long {
            FundingRateTracker { net_volume_long: net_volume, total_long_shares: total_shares, ..self }
        } else {
            FundingRateTracker {
                net_volume_short: net_volume,
                total_short_shares: total_shares,
                ..self
            }
        }
    }

    /// The shares that `delta` of volume mints on a side.
    pub open spec fn minted(self, delta: Amount, long: bool) -> nat {
        shares_for(delta as nat, self.total_shares(long) as nat, self.net_volume(long) as nat)
    }

    /// The value that `shares` of a side claim.
    pub open spec fn claim(self, shares: Amount, long: bool) -> nat {
        shares_value(shares as nat, self.total_shares(long) as nat, self.net_volume(long) as nat)
    }

    /// Whether `delta` can join a side without overflow.
    pub open spec fn add_fits(self, delta: Amount, long: bool) -> bool {
        &&& (self.net_volume(long) != 0 && self.total_shares(long) != 0 ==> delta
            * self.total_shares(long) <= u128::MAX)
        &&& self.total_shares(long) + self.minted(delta, long) <= u128::MAX
        &&& self.net_volume(long) + delta <= u128::MAX
    }

    /// The tracker after `delta` joined a side.
    pub open spec fn added(self, delta: Amount, long: bool) -> Self {
        self.with_side(
            long,
            (self.net_volume(long) + delta) as Amount,
            (self.total_shares(long) + self.minted(delta, long)) as Amount,
        )
    }

    /// Whether `shares` can leave a side without overflow: the side has
    /// them, and their value can be computed.
    pub open spec fn remove_fits(self, shares: Amount, long: bool) -> bool {
        &&& shares <= self.total_shares(long)
        &&& shares * self.net_volume(long) <= u128::MAX
    }

    /// The tracker after `shares` left a side with their value.
    pub open spec fn removed(self, shares: Amount, long: bool) -> Self {
        self.with_side(
            long,
            (self.net_volume(long) - self.claim(shares, long)) as Amount,
            (self.total_shares(long) - shares) as Amount,
        )
    }

    /// What the paying side owes at `funding_rate` basis points: the longs
    /// pay when the rate is positive, the shorts otherwise.
    pub open spec fn funding_due(self, funding_rate: u64, positive: bool) -> nat {
        percentage(funding_rate as nat, self.net_volume(positive) as nat)
    }

    /// Whether funding can be settled without overflow: the paying side
    /// holds what it owes, and the receiving side has room for it.
    pub open spec fn settle_fits(self, funding_rate: u64, positive: bool) -> bool {
        &&& self.net_volume(positive) * funding_rate <= u128::MAX
        &&& self.funding_due(funding_rate, positive) <= self.net_volume(positive)
        &&& self.net_volume(!positive) + self.funding_due(funding_rate, positive) <= u128::MAX
    }

    /// The tracker after funding was settled: what is due moves from the
    /// paying side's net volume to the receiving side's; no share changes.
    pub open spec fn settled(self, funding_rate: u64, positive: bool) -> Self {
        let due = self.funding_due(funding_rate, positive);
        if positive {
            FundingRateTracker {
                net_volume_long: (self.net_volume_long - due) as Amount,
                net_volume_short: (self.net_volume_short + due) as Amount,
                ..self
            }
        } else {
            FundingRateTracker {
                net_volume_long: (self.net_volume_long + due) as Amount,
                net_volume_short: (self.net_volume_short - due) as Amount,
                ..self
            }
        }
    }

    /// Adds `delta` of volume to a side and gives the shares minted for it.
    pub fn add_volume(&mut self, delta: Amount, long: bool) -> (volume_share: Amount)
        requires
            old(self).add_fits(delta, long),
        ensures
            volume_share == old(self).minted(delta, long),
            *final(self) == old(self).added(delta, long),
    {
        if long {
            let volume_share = _calc_shares(delta, self.total_long_shares, self.net_volume_long);
            self.total_long_shares = self.total_long_shares + volume_share;
            self.net_volume_long = self.net_volume_long + delta;
            volume_share
        } else {
            let volume_share = _calc_shares(delta, self.total_short_shares, self.net_volume_short);
            self.total_short_shares = self.total_short_shares + volume_share;
            self.net_volume_short = self.net_volume_short + delta;
            volume_share
        }
    }

    /// Takes `delta` shares off a side and gives the value they claimed.
    pub fn remove_volume(&mut self, delta: Amount, long: bool) -> (value: Amount)
        requires
            old(self).remove_fits(delta, long),
        ensures
            value == old(self).claim(delta, long),
            *final(self) == old(self).removed(delta, long),
    {
        proof {
            crate::corelib::calc_lib::lemma_shares_value_bounded(
                delta as nat,
                self.total_shares(long) as nat,
                self.net_volume(long) as nat,
            );
        }
        if long {
            let value = _calc_shares_value(delta, self.total_long_shares, self.net_volume_long);
            self.net_volume_long = self.net_volume_long - value;
            self.total_long_shares = self.total_long_shares - delta;
            value
        } else {
            let value = _calc_shares_value(delta, self.total_short_shares, self.net_volume_short);
            self.net_volume_short = self.net_volume_short - value;
            self.total_short_shares = self.total_short_shares - delta;
            value
        }
    }

    /// Settles funding at `funding_rate` basis points: the longs pay the
    /// shorts when `positive`, the shorts pay the longs otherwise.
    pub fn settle_funding_rate(&mut self, funding_rate: u64, positive: bool)
        requires
            old(self).settle_fits(funding_rate, positive),
        ensures
            *final(self) == old(self).settled(funding_rate, positive),
    {
        if positive {
            let amount_to_settle = _percentage(funding_rate, self.net_volume_long);
            self.net_volume_short = self.net_volume_short + amount_to_settle;
            self.net_volume_long = self.net_volume_long - amount_to_settle;
        } else {
            let amount_to_settle = _percentage(funding_rate, self.net_volume_short);
            self.net_volume_long = self.net_volume_long + amount_to_settle;
            self.net_volume_short = self.net_volume_short - amount_to_settle;
        }
    }

    /// Whether `add_volume` accepts the volume on the tracker as it stands.
    pub fn can_add_volume(&self, delta: Amount, long: bool) -> (fits: bool)
        ensures
            fits == self.add_fits(delta, long),
    {
        let (net_volume, total_shares) = if long {
            (self.net_volume_long, self.total_long_shares)
        } else {
            (self.net_volume_short, self.total_short_shares)
        };
        if net_volume != 0 && total_shares != 0 {
            if delta > u128::MAX / total_shares {
                assert(delta * total_shares > u128::MAX) by (nonlinear_arith)
                    requires
                        total_shares > 0,
                        delta > u128::MAX / total_shares,
                ;
                return false;
            }
            assert(delta * total_shares <= u128::MAX) by (nonlinear_arith)
                requires
                    total_shares > 0,
                    delta <= u128::MAX / total_shares,
            ;
        }
        let minted = _calc_shares(delta, total_shares, net_volume);
        minted <= u128::MAX - total_shares && delta <= u128::MAX - net_volume
    }

    /// Whether `remove_volume` accepts the shares on the tracker as it
    /// stands.
    pub fn can_remove_volume(&self, delta: Amount, long: bool) -> (fits: bool)
        ensures
            fits == self.remove_fits(delta, long),
    {
        let (net_volume, total_shares) = if long {
            (self.net_volume_long, self.total_long_shares)
        } else {
            (self.net_volume_short, self.total_short_shares)
        };
        if delta > total_shares {
            return false;
        }
        if net_volume != 0 && delta > u128::MAX / net_volume {
            assert(delta * net_volume > u128::MAX) by (nonlinear_arith)
                requires
                    net_volume > 0,
                    delta > u128::MAX / net_volume,
            ;
            return false;
        }
        assert(delta * net_volume <= u128::MAX) by (nonlinear_arith)
            requires
                net_volume == 0 || delta <= u128::MAX / net_volume,
        ;
        true
    }

    /// Whether `settle_funding_rate` accepts the rate on the tracker as it
    /// stands.
    pub fn can_settle(&self, funding_rate: u64, positive: bool) -> (fits: bool)
        ensures
            fits == self.settle_fits(funding_rate, positive),
    {
        let (paying, receiving) = if positive {
            (self.net_volume_long, self.net_volume_short)
        } else {
            (self.net_volume_short, self.net_volume_long)
        };
        let rate = funding_rate as u128;
        if rate != 0 && paying > u128::MAX / rate {
            assert(paying * rate > u128::MAX) by (nonlinear_arith)
                requires
                    rate > 0,
                    paying > u128::MAX / rate,
            ;
            return false;
        }
        assert(paying * rate <= u128::MAX) by (nonlinear_arith)
            requires
                rate == 0 || paying <= u128::MAX / rate,
        ;
        let due = _percentage(funding_rate, paying);
        due <= paying && receiving <= u128::MAX - due
    }

    /// Volume that joins a side and leaves it again with the shares it was
    /// given takes out exactly what it brought in, and leaves the tracker as
    /// it was, where the shares were minted without rounding: on an empty
    /// side, or where the side's net volume divides the product of the
    /// volume and the side's shares.
    pub proof fn lemma_add_then_remove(self, delta: Amount, long: bool)
        requires
            self.add_fits(delta, long),
            (self.net_volume(long) == 0 && self.total_shares(long) == 0) || (self.net_volume(long)
                > 0 && self.total_shares(long) > 0 && (delta * self.total_shares(long))
                % (self.net_volume(long) as int) == 0),
        ensures
            self.added(delta, long).claim(self.minted(delta, long) as Amount, long) == delta,
            self.added(delta, long).removed(self.minted(delta, long) as Amount, long) == self,
    {
        let n = self.net_volume(long) as nat;
        let t = self.total_shares(long) as nat;
        let v = delta as nat;
        let s = self.minted(delta, long);
        if n == 0 {
            if v > 0 {
                assert(v * v / v == v) by (nonlinear_arith)
                    requires
                        v > 0,
                ;
            } else {
            }
        } else {
            assert(s * (n + v) / (t + s) == v) by (nonlinear_arith)
                requires
                    s == v * t / n,
                    (v * t) % n == 0,
                    n > 0,
                    t > 0,
            {
                assert(s * n == v * t);
                assert(s * (n + v) == s * n + s * v);
                assert(v * (t + s) == v * t + v * s);
                assert(s * (n + v) == v * (t + s));
                assert(v * (t + s) / (t + s) == v);
            }
        }
    }

    /// Shares never claim more than the volume that minted them.
    pub proof fn lemma_remove_at_most_added(self, delta: Amount, long: bool)
        requires
            self.add_fits(delta, long),
        ensures
            self.added(delta, long).claim(self.minted(delta, long) as Amount, long) <= delta
                || (self.total_shares(long) == 0 && self.net_volume(long) > 0),
    {
        let n = self.net_volume(long) as nat;
        let t = self.total_shares(long) as nat;
        let v = delta as nat;
        let s = self.minted(delta, long);
        if t == 0 {
            if n == 0 && v > 0 {
                assert(v * v / v == v) by (nonlinear_arith)
                    requires
                        v > 0,
                ;
            }
        } else if n == 0 {
            assert(v * v / (t + v) <= v) by (nonlinear_arith)
                requires
                    t > 0,
            {
                assert(v * v <= v * (t + v));
                assert(v * (t + v) / (t + v) == v);
            }
        } else {
            assert(s * (n + v) / (t + s) <= v) by (nonlinear_arith)
                requires
                    s == v * t / n,
                    n > 0,
                    t > 0,
            {
                assert(s * n <= v * t);
                assert(s * (n + v) == s * n + s * v);
                assert(v * (t + s) == v * t + v * s);
                assert(s * (n + v) <= v * (t + s));
                assert(v * (t + s) / (t + s) == v);
            }
        }
    }

    /// Settling funding changes no share, and moves volume from one side to
    /// the other without making or losing any.
    pub proof fn lemma_settle_conserves(self, funding_rate: u64, positive: bool)
        requires
            self.settle_fits(funding_rate, positive),
        ensures
            self.settled(funding_rate, positive).total_long_shares == self.total_long_shares,
            self.settled(funding_rate, positive).total_short_shares == self.total_short_shares,
            self.settled(funding_rate, positive).net_volume_long + self.settled(
                funding_rate,
                positive,
            ).net_volume_short == self.net_volume_long + self.net_volume_short,
    {
    }
}

} // verus!
