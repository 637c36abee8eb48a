//! Fractional-risk position sizing with a fixed stop distance.

use vstd::prelude::*;
use crate::fixed::{bounded, lemma_fmul_nonneg, fmul, fx_mul, MAX_FX, SCALE};
use crate::types::{
    confidence_of, opposite, opposite_side, signal_confidence, Kline, OrderRequest, Position,
    Side, Signal,
};

verus! {

/// The risk rules, as fixed-point fractions.
#[derive(Clone, Copy, Debug)]
pub struct SimpleRiskSettings {
    pub risk_per_trade_percent: i128,
    pub stop_loss_percent: i128,
    pub minimum_confidence_threshold: i128,
    pub leverage: u8,
}

impl SimpleRiskSettings {
    /// The stop distance lies in (0, 1), the risk fraction in [0, 1], and
    /// leverage is at least one.
    pub open spec fn wf(&self) -> bool {
        &&& 0 < self.stop_loss_percent < SCALE
        &&& 0 <= self.risk_per_trade_percent <= SCALE
        &&& 0 <= self.minimum_confidence_threshold <= SCALE
        &&& self.leverage >= 1
    }

    /// Whether the settings are well formed.
    pub fn is_valid(&self) -> (r: bool)
        ensures
            r == self.wf(),
    {
        0 < self.stop_loss_percent && self.stop_loss_percent < SCALE && 0 <= self.risk_per_trade_percent
            && self.risk_per_trade_percent <= SCALE && 0 <= self.minimum_confidence_threshold
            && self.minimum_confidence_threshold <= SCALE && self.leverage >= 1
    }
}

/// Why a signal was not turned into an order.
#[derive(Clone, Copy, Debug, PartialEq, Eq, Structural)]
pub enum RiskError {
    /// A position is already open on the symbol: no pyramiding.
    PositionAlreadyOpen,
    /// The signal's confidence is below the configured threshold.
    ConfidenceTooLow,
    /// The computed size is not positive.
    SizeNotPositive,
    /// A value of the sizing left the stored range.
    Arithmetic,
}

/// The size of an entry, in units of 10^-8: the exact quotient
/// `value · risk · confidence / (stop distance · price)` of the fixed-point
/// inputs, computed from their exact product in one division; a positive
/// size below one unit is one unit. Zero when the exact size is not positive
/// (a portfolio value, risk fraction or confidence of zero or less), which
/// no order can carry.
pub open spec fn entry_size(s: SimpleRiskSettings, portfolio_value: int, price: int, confidence: int) -> int {
    let num = portfolio_value * s.risk_per_trade_percent * confidence;
    let den = s.stop_loss_percent * price;
    if num <= 0 {
        0
    } else if num / den == 0 {
        1
    } else {
        num / den
    }
}

/// Stop price and quantity of an entry on `side` at `price`, when both lie
/// within the stored range.
pub open spec fn entry_sizing(
    s: SimpleRiskSettings,
    side: Side,
    portfolio_value: int,
    price: int,
    confidence: int,
) -> Option<(int, int)> {
    let slp = s.stop_loss_percent as int;
    let sl = match side {
        Side::Long => fmul(price, SCALE - slp),
        Side::Short => fmul(price, SCALE + slp),
    };
    let qty = entry_size(s, portfolio_value, price, confidence);
    if bounded(sl) && bounded(qty) {
        Some((sl, qty))
    } else {
        None
    }
}

/// The order that closes `pos`, tagged with `signal`.
pub open spec fn close_order_for(pos: Position, signal: Signal) -> OrderRequest {
    OrderRequest {
        symbol: pos.symbol,
        side: opposite(pos.side),
        quantity: pos.quantity,
        leverage: pos.leverage,
        sl_price: 0,
        originating_signal: signal,
    }
}

/// The risk rules' answer to `signal` for `symbol`: `Hold` asks nothing;
/// `Close` closes the open position, if any; an entry is vetoed when a
/// position is open or its confidence is below the threshold, and is
/// otherwise sized so that a stop-out loses `portfolio_value · risk ·
/// confidence`, at the bar's close.
pub open spec fn evaluate_outcome(
    s: SimpleRiskSettings,
    signal: Signal,
    symbol: String,
    portfolio_value: int,
    k: Kline,
    open_position: Option<Position>,
) -> Result<Option<OrderRequest>, RiskError> {
    match signal {
        Signal::Hold => Ok(None),
        Signal::Close => match open_position {
            Some(p) => Ok(Some(close_order_for(p, signal))),
            None => Ok(None),
        },
        _ => {
            let side = if signal is GoLong { Side::Long } else { Side::Short };
            let c = signal_confidence(signal) as int;
            if open_position is Some {
                Err(RiskError::PositionAlreadyOpen)
            } else if c < s.minimum_confidence_threshold {
                Err(RiskError::ConfidenceTooLow)
            } else {
                match entry_sizing(s, side, portfolio_value, k.close as int, c) {
                    None => Err(RiskError::Arithmetic),
                    Some((sl, qty)) => if qty <= 0 {
                        Err(RiskError::SizeNotPositive)
                    } else {
                        Ok(
                            Some(
                                OrderRequest {
                                    symbol,
                                    side,
                                    quantity: qty as i128,
                                    leverage: s.leverage,
                                    sl_price: sl as i128,
                                    originating_signal: signal,
                                },
                            ),
                        )
                    },
                }
            }
        },
    }
}

/// Turns signals into sized orders, or vetoes them.
#[derive(Debug)]
pub struct SimpleRiskManager {
    pub settings: SimpleRiskSettings,
}

impl SimpleRiskManager {
    pub fn new(settings: SimpleRiskSettings) -> (r: SimpleRiskManager)
        ensures
            r.settings == settings,
    {
        SimpleRiskManager { settings }
    }

    /// Evaluates `signal` for `symbol`: `Hold` asks nothing; `Close` closes the
    /// open position, if any; an entry is vetoed when a position is open or its
    /// confidence is below the threshold, and is otherwise sized so that a
    /// stop-out loses `portfolio_value · risk · confidence`, at the bar's close
    /// (see `entry_size`). An entry whose exact size is not positive (a zero
    /// confidence or a portfolio value of zero or less) gets `SizeNotPositive`,
    /// since an order's quantity is positive; one whose size or stop leaves the
    /// stored range gets `Arithmetic`.
    pub fn evaluate(
        &self,
        signal: &Signal,
        symbol: &String,
        portfolio_value: i128,
        current_kline: &Kline,
        open_position: Option<&Position>,
    ) -> (r: Result<Option<OrderRequest>, RiskError>)
        requires
            self.settings.wf(),
            bounded(portfolio_value as int),
            current_kline.wf(),
            open_position matches Some(p) ==> p.wf(),
            signal_confidence(*signal) <= SCALE,
        ensures
            r matches Ok(Some(o)) ==> o.wf() && (o.symbol == *symbol || (open_position matches Some(
                p,
            ) && o.symbol == p.symbol)),
            (*signal is GoLong || *signal is GoShort) && open_position is None && signal_confidence(*signal)
                >= self.settings.minimum_confidence_threshold && portfolio_value
                * self.settings.risk_per_trade_percent * signal_confidence(*signal) > 0 ==> (r matches Ok(
                Some(_),
            ) || r == Err::<Option<OrderRequest>, RiskError>(RiskError::Arithmetic)),
            r == evaluate_outcome(
                self.settings,
                *signal,
                *symbol,
                portfolio_value as int,
                *current_kline,
                match open_position {
                    Some(p) => Some(*p),
                    None => None,
                },
            ),
    {
        let side = match signal {
            Signal::Hold => {
                return Ok(None);
            },
            Signal::Close => {
                return match open_position {
                    Some(pos) => Ok(
                        Some(
                            OrderRequest {
                                symbol: pos.symbol.clone(),
                                side: opposite_side(pos.side),
                                quantity: pos.quantity,
                                leverage: pos.leverage,
                                sl_price: 0,
                                originating_signal: *signal,
                            },
                        ),
                    ),
                    None => Ok(None),
                };
            },
            Signal::GoLong { .. } => Side::Long,
            Signal::GoShort { .. } => Side::Short,
        };
        let confidence = confidence_of(signal);
        if open_position.is_some() {
            return Err(RiskError::PositionAlreadyOpen);
        }
        if confidence < self.settings.minimum_confidence_threshold {
            return Err(RiskError::ConfidenceTooLow);
        }
        let entry_price = current_kline.close;
        let slp = self.settings.stop_loss_percent;
        let factor: i128 = match side {
            Side::Long => SCALE - slp,
            Side::Short => SCALE + slp,
        };
        let sl_price = match fx_mul(entry_price, factor) {
            Some(v) => v,
            None => return Err(RiskError::Arithmetic),
        };
        let risk = self.settings.risk_per_trade_percent;
        assert(-MAX_FX * SCALE <= portfolio_value * risk <= MAX_FX * SCALE) by (nonlinear_arith)
            requires
                -MAX_FX <= portfolio_value <= MAX_FX,
                0 <= risk <= SCALE,
        ;
        assert(-100_000_000_000_000_000_000_000_000_000_000_000 <= portfolio_value * risk * confidence
            <= 100_000_000_000_000_000_000_000_000_000_000_000) by (nonlinear_arith)
            requires
                -MAX_FX <= portfolio_value <= MAX_FX,
                0 <= risk <= SCALE,
                0 <= confidence <= SCALE,
        ;
        assert(0 < slp * entry_price <= SCALE * MAX_FX) by (nonlinear_arith)
            requires
                0 < slp < SCALE,
                0 < entry_price <= MAX_FX,
        ;
        let num: i128 = portfolio_value * risk * confidence;
        let den: i128 = slp * entry_price;
        let quantity: i128 = if num <= 0 {
            0
        } else if num / den == 0 {
            1
        } else {
            num / den
        };
        if -MAX_FX > quantity || quantity > MAX_FX {
            return Err(RiskError::Arithmetic);
        }
        if quantity <= 0 {
            return Err(RiskError::SizeNotPositive);
        }
        proof {
            lemma_fmul_nonneg(entry_price as int, factor as int);
        }
        Ok(
            Some(
                OrderRequest {
                    symbol: symbol.clone(),
                    side,
                    quantity,
                    leverage: self.settings.leverage,
                    sl_price,
                    originating_signal: *signal,
                },
            ),
        )
    }
}

} // verus!
