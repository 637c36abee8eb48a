//! The domain model: bars, sides, signals, orders, positions, fills, trades
//! and the equity curve. Prices, quantities and money are fixed-point values
//! (see `fixed`); times are epoch milliseconds.

use vstd::prelude::*;
use crate::fixed::{bounded, fmul, MAX_FX, SCALE};

verus! {

/// A closed price bar.
#[derive(Clone, Copy, Debug, PartialEq, Eq, Structural)]
pub struct Kline {
    pub open_time: i64,
    pub close_time: i64,
    pub open: i128,
    pub high: i128,
    pub low: i128,
    pub close: i128,
    pub volume: i128,
}

impl Kline {
    /// Prices are positive, the volume is not negative, and all lie within
    /// the stored range.
    pub open spec fn wf(&self) -> bool {
        &&& 0 < self.open && 0 < self.high && 0 < self.low && 0 < self.close
        &&& self.low <= self.high
        &&& 0 <= self.volume
        &&& bounded(self.open as int)
        &&& bounded(self.high as int)
        &&& bounded(self.low as int)
        &&& bounded(self.close as int)
        &&& bounded(self.volume as int)
    }
}

/// The direction of a position or an order.
#[derive(Clone, Copy, Debug, PartialEq, Eq, Structural)]
pub enum Side {
    Long,
    Short,
}

/// The side opposite to `s`.
pub open spec fn opposite(s: Side) -> Side {
    match s {
        Side::Long => Side::Short,
        Side::Short => Side::Long,
    }
}

/// The side opposite to `s`.
pub fn opposite_side(s: Side) -> (r: Side)
    ensures
        r == opposite(s),
{
    match s {
        Side::Long => Side::Short,
        Side::Short => Side::Long,
    }
}

/// A strategy's directive; a confidence is a fixed-point value in [0, 1].
#[derive(Clone, Copy, Debug, PartialEq, Eq, Structural)]
pub enum Signal {
    Hold,
    Close,
    GoLong { confidence: i128 },
    GoShort { confidence: i128 },
}

/// The confidence that a signal carries: zero for `Hold` and `Close`.
pub open spec fn signal_confidence(s: Signal) -> i128 {
    match s {
        Signal::GoLong { confidence } => confidence,
        Signal::GoShort { confidence } => confidence,
        _ => 0,
    }
}

/// A confidence lies in [0, 1].
pub open spec fn valid_confidence(c: int) -> bool {
    0 <= c <= SCALE
}

/// The confidence that a signal carries: zero for `Hold` and `Close`.
pub fn confidence_of(s: &Signal) -> (r: i128)
    ensures
        r == signal_confidence(*s),
{
    match s {
        Signal::GoLong { confidence } => *confidence,
        Signal::GoShort { confidence } => *confidence,
        _ => 0,
    }
}

/// A sized order, ready for execution.
#[derive(Debug)]
pub struct OrderRequest {
    pub symbol: String,
    pub side: Side,
    pub quantity: i128,
    pub leverage: u8,
    pub sl_price: i128,
    pub originating_signal: Signal,
}

impl OrderRequest {
    pub open spec fn wf(&self) -> bool {
        &&& 0 < self.quantity
        &&& bounded(self.quantity as int)
        &&& 0 <= self.sl_price
        &&& bounded(self.sl_price as int)
        &&& self.leverage >= 1
    }
}

/// A copy of an order.
pub fn copy_order(o: &OrderRequest) -> (r: OrderRequest)
    ensures
        r == *o,
{
    OrderRequest {
        symbol: o.symbol.clone(),
        side: o.side,
        quantity: o.quantity,
        leverage: o.leverage,
        sl_price: o.sl_price,
        originating_signal: o.originating_signal,
    }
}

/// An open position.
#[derive(Debug)]
pub struct Position {
    pub symbol: String,
    pub side: Side,
    pub quantity: i128,
    pub entry_price: i128,
    pub leverage: u8,
    pub sl_price: i128,
    pub entry_time: i64,
}

impl Position {
    pub open spec fn wf(&self) -> bool {
        &&& 0 < self.quantity
        &&& bounded(self.quantity as int)
        &&& 0 < self.entry_price
        &&& bounded(self.entry_price as int)
        &&& bounded(fmul(self.quantity as int, self.entry_price as int))
        &&& 0 <= self.sl_price
        &&& bounded(self.sl_price as int)
        &&& self.leverage >= 1
    }
}

/// A copy of a position.
pub fn copy_position(p: &Position) -> (r: Position)
    ensures
        r == *p,
{
    Position {
        symbol: p.symbol.clone(),
        side: p.side,
        quantity: p.quantity,
        entry_price: p.entry_price,
        leverage: p.leverage,
        sl_price: p.sl_price,
        entry_time: p.entry_time,
    }
}

/// The record of a fill.
#[derive(Debug)]
pub struct Execution {
    pub symbol: String,
    pub side: Side,
    pub price: i128,
    pub quantity: i128,
    pub fee: i128,
    pub source_request: OrderRequest,
}

/// A closed trade, from entry to exit.
#[derive(Debug)]
pub struct Trade {
    pub symbol: String,
    pub side: Side,
    pub entry_time: i64,
    pub exit_time: i64,
    pub entry_price: i128,
    pub exit_price: i128,
    pub quantity: i128,
    pub pnl: i128,
    pub fees: i128,
    pub signal_confidence: i128,
    pub leverage: u8,
}

impl Trade {
    /// What every recorded trade satisfies.
    pub open spec fn wf(&self) -> bool {
        &&& self.exit_time >= self.entry_time
        &&& 0 < self.quantity
        &&& bounded(self.quantity as int)
        &&& 0 < self.entry_price
        &&& bounded(self.entry_price as int)
        &&& 0 < self.exit_price
        &&& bounded(self.exit_price as int)
        &&& bounded(self.pnl as int)
        &&& 0 <= self.fees <= 2 * MAX_FX
        &&& self.leverage >= 1
    }
}

/// One point of the equity curve.
#[derive(Clone, Copy, Debug, PartialEq, Eq, Structural)]
pub struct EquityPoint {
    pub timestamp: i64,
    pub value: i128,
}

} // verus!
