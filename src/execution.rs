//! The portfolio and the simulated executor: fills against a reference
//! price with slippage and a taker fee.

use vstd::prelude::*;
use crate::fixed::{bounded, checked, fmul, fx_add, fx_mul, fx_sub, SCALE};
use crate::types::{copy_order, Execution, OrderRequest, Position, Side};

verus! {

/// Cash, open positions, and the capital the run started with.
#[derive(Debug)]
pub struct Portfolio {
    pub initial_capital: i128,
    pub cash: i128,
    pub open_positions: Vec<Position>,
}

/// The symbols that hold an open position.
pub open spec fn keys(ps: Seq<Position>) -> Set<Seq<char>> {
    Set::new(|s: Seq<char>| exists|i: int| 0 <= i < ps.len() && ps[i].symbol@ == s)
}

/// At most one position per symbol, each well formed.
pub open spec fn positions_wf(ps: Seq<Position>) -> bool {
    &&& forall|i: int| 0 <= i < ps.len() ==> (#[trigger] ps[i]).wf()
    &&& forall|i: int, j: int|
        0 <= i < ps.len() && 0 <= j < ps.len() && i != j ==> ps[i].symbol@ != ps[j].symbol@
}

impl Portfolio {
    pub open spec fn wf(&self) -> bool {
        &&& bounded(self.initial_capital as int)
        &&& bounded(self.cash as int)
        &&& positions_wf(self.open_positions@)
    }

    /// A portfolio holding `initial_capital` in cash and no position.
    pub fn new(initial_capital: i128) -> (r: Portfolio)
        requires
            bounded(initial_capital as int),
        ensures
            r.wf(),
            r.initial_capital == initial_capital,
            r.cash == initial_capital,
            r.open_positions@.len() == 0,
    {
        Portfolio { initial_capital, cash: initial_capital, open_positions: Vec::new() }
    }

    /// The index of the open position on `symbol`, if there is one.
    pub fn position_index(&self, symbol: &String) -> (r: Option<usize>)
        ensures
            match r {
                Some(i) => i < self.open_positions@.len() && self.open_positions@[i as int].symbol@
                    == symbol@,
                None => !keys(self.open_positions@).contains(symbol@),
            },
    {
        let mut i: usize = 0;
        while i < self.open_positions.len()
            invariant
                i <= self.open_positions@.len(),
                forall|k: int| 0 <= k < i ==> self.open_positions@[k].symbol@ != symbol@,
            decreases self.open_positions@.len() - i,
        {
            if self.open_positions[i].symbol == *symbol {
                return Some(i);
            }
            i = i + 1;
        }
        None
    }
}

/// The index of the position on `s` in a well-formed list.
pub open spec fn index_of(ps: Seq<Position>, s: Seq<char>) -> int {
    choose|i: int| 0 <= i < ps.len() && ps[i].symbol@ == s
}

/// Removing the position at `i` removes its symbol, and only it, from the keys.
pub proof fn lemma_keys_remove(ps: Seq<Position>, i: int)
    requires
        positions_wf(ps),
        0 <= i < ps.len(),
    ensures
        keys(ps.remove(i)) == keys(ps).remove(ps[i].symbol@),
        positions_wf(ps.remove(i)),
{
    let r = ps.remove(i);
    assert forall|s: Seq<char>| keys(r).contains(s) <==> keys(ps).remove(ps[i].symbol@).contains(s) by {
        if keys(r).contains(s) {
            let k = choose|k: int| 0 <= k < r.len() && r[k].symbol@ == s;
            if k < i {
                assert(ps[k] == r[k]);
                assert(ps[k].symbol@ != ps[i].symbol@);
            } else {
                assert(ps[k + 1] == r[k]);
                assert(ps[k + 1].symbol@ != ps[i].symbol@);
            }
        }
        if keys(ps).remove(ps[i].symbol@).contains(s) {
            let k = choose|k: int| 0 <= k < ps.len() && ps[k].symbol@ == s;
            assert(k != i);
            if k < i {
                assert(r[k] == ps[k]);
            } else {
                assert(r[k - 1] == ps[k]);
            }
        }
    }
    assert(keys(r) =~= keys(ps).remove(ps[i].symbol@));
    assert forall|a: int, b: int| 0 <= a < r.len() && 0 <= b < r.len() && a != b implies r[a].symbol@
        != r[b].symbol@ by {
        let a2 = if a < i { a } else { a + 1 };
        let b2 = if b < i { b } else { b + 1 };
        assert(r[a] == ps[a2]);
        assert(r[b] == ps[b2]);
    }
    assert forall|k: int| 0 <= k < r.len() implies (#[trigger] r[k]).wf() by {
        if k < i {
            assert(r[k] == ps[k]);
        } else {
            assert(r[k] == ps[k + 1]);
        }
    }
}

/// Appending a position on a new symbol adds exactly that symbol to the keys.
pub proof fn lemma_keys_push(ps: Seq<Position>, p: Position)
    requires
        positions_wf(ps),
        p.wf(),
        !keys(ps).contains(p.symbol@),
    ensures
        keys(ps.push(p)) == keys(ps).insert(p.symbol@),
        positions_wf(ps.push(p)),
{
    let r = ps.push(p);
    assert forall|s: Seq<char>| keys(r).contains(s) <==> keys(ps).insert(p.symbol@).contains(s) by {
        if keys(r).contains(s) {
            let k = choose|k: int| 0 <= k < r.len() && r[k].symbol@ == s;
            if k < ps.len() {
                assert(ps[k] == r[k]);
            }
        }
        if keys(ps).contains(s) {
            let k = choose|k: int| 0 <= k < ps.len() && ps[k].symbol@ == s;
            assert(r[k] == ps[k]);
        }
        if s == p.symbol@ {
            assert(r[ps.len() as int] == p);
        }
    }
    assert(keys(r) =~= keys(ps).insert(p.symbol@));
    assert forall|a: int, b: int| 0 <= a < r.len() && 0 <= b < r.len() && a != b implies r[a].symbol@
        != r[b].symbol@ by {
        if a < ps.len() && b < ps.len() {
            assert(r[a] == ps[a] && r[b] == ps[b]);
        } else if a < ps.len() {
            assert(r[a] == ps[a]);
            assert(keys(ps).contains(ps[a].symbol@));
        } else if b < ps.len() {
            assert(r[b] == ps[b]);
            assert(keys(ps).contains(ps[b].symbol@));
        }
    }
    assert forall|k: int| 0 <= k < r.len() implies (#[trigger] r[k]).wf() by {
        if k < ps.len() {
            assert(r[k] == ps[k]);
        }
    }
}

/// The simulated fill model: fee rates and slippage as fixed-point fractions.
#[derive(Clone, Copy, Debug)]
pub struct SimulationSettings {
    pub maker_fee: i128,
    pub taker_fee: i128,
    pub slippage_percent: i128,
}

impl SimulationSettings {
    /// Fees lie in [0, 1], slippage in [0, 1).
    pub open spec fn wf(&self) -> bool {
        &&& 0 <= self.maker_fee <= SCALE
        &&& 0 <= self.taker_fee <= SCALE
        &&& 0 <= self.slippage_percent < SCALE
    }
}

/// Why a fill did not happen.
#[derive(Clone, Copy, Debug, PartialEq, Eq, Structural)]
pub enum ExecError {
    /// The portfolio's cash does not cover the entry fee.
    InsufficientCash,
    /// A value of the fill left the stored range.
    Arithmetic,
}

/// The fill price of an entry on `side`: slippage moves it against the trader.
pub open spec fn entry_price(side: Side, price: int, slip: int) -> int {
    match side {
        Side::Long => fmul(price, SCALE + slip),
        Side::Short => fmul(price, SCALE - slip),
    }
}

/// The fill price of the close of a position on `side`.
pub open spec fn exit_price(side: Side, price: int, slip: int) -> int {
    match side {
        Side::Long => fmul(price, SCALE - slip),
        Side::Short => fmul(price, SCALE + slip),
    }
}

/// The fee on a fill of `qty` at `price` with fee rate `rate`.
pub open spec fn fee_of(qty: int, price: int, rate: int) -> int {
    fmul(fmul(qty, price), rate)
}

/// Profit of a position on `side` of `qty` entered at `entry` and left at `exit`.
pub open spec fn pnl_of(side: Side, entry: int, exit: int, qty: int) -> int {
    match side {
        Side::Long => fmul(exit - entry, qty),
        Side::Short => -fmul(exit - entry, qty),
    }
}

/// All values of an entry fill, when each lies within the stored range and the
/// price stays positive: the fill price and the fee.
pub open spec fn entry_fill(s: SimulationSettings, side: Side, qty: int, price: int) -> Option<(int, int)> {
    let p = entry_price(side, price, s.slippage_percent as int);
    let notional = fmul(qty, p);
    let fee = fmul(notional, s.taker_fee as int);
    if bounded(p) && p > 0 && bounded(notional) && bounded(fee) {
        Some((p, fee))
    } else {
        None
    }
}

/// All values of a close fill, when each lies within the stored range and the
/// price stays positive: the fill price, the fee, the profit and the new cash.
pub open spec fn close_fill(s: SimulationSettings, pos: Position, price: int, cash: int) -> Option<(int, int, int, int)> {
    let p = exit_price(pos.side, price, s.slippage_percent as int);
    let notional = fmul(pos.quantity as int, p);
    let fee = fmul(notional, s.taker_fee as int);
    let diff = p - pos.entry_price;
    let pnl = pnl_of(pos.side, pos.entry_price as int, p, pos.quantity as int);
    let net = pnl - fee;
    let new_cash = cash + net;
    if bounded(p) && p > 0 && bounded(notional) && bounded(fee) && bounded(diff) && bounded(pnl)
        && bounded(net) && bounded(new_cash) {
        Some((p, fee, pnl, new_cash))
    } else {
        None
    }
}

/// What filling `order` at `price` and time `time` does to a portfolio with
/// cash `cash` and open positions `ps`: the result, the new cash and the new
/// positions. An order on a symbol without a position is an entry; otherwise
/// it closes that position.
pub open spec fn execute_outcome(
    s: SimulationSettings,
    order: OrderRequest,
    price: int,
    time: i64,
    cash: int,
    ps: Seq<Position>,
) -> (Result<(Execution, Option<Position>), ExecError>, int, Seq<Position>) {
    if !keys(ps).contains(order.symbol@) {
        match entry_fill(s, order.side, order.quantity as int, price) {
            None => (Err(ExecError::Arithmetic), cash, ps),
            Some((p, fee)) => if cash < fee {
                (Err(ExecError::InsufficientCash), cash, ps)
            } else {
                (
                    Ok((
                        Execution {
                            symbol: order.symbol,
                            side: order.side,
                            price: p as i128,
                            quantity: order.quantity,
                            fee: fee as i128,
                            source_request: order,
                        },
                        None,
                    )),
                    cash - fee,
                    ps.push(
                        Position {
                            symbol: order.symbol,
                            side: order.side,
                            quantity: order.quantity,
                            entry_price: p as i128,
                            leverage: order.leverage,
                            sl_price: order.sl_price,
                            entry_time: time,
                        },
                    ),
                )
            },
        }
    } else {
        let i = index_of(ps, order.symbol@);
        let pos = ps[i];
        match close_fill(s, pos, price, cash) {
            None => (Err(ExecError::Arithmetic), cash, ps),
            Some((p, fee, pnl, new_cash)) => (
                Ok((
                    Execution {
                        symbol: order.symbol,
                        side: order.side,
                        price: p as i128,
                        quantity: pos.quantity,
                        fee: fee as i128,
                        source_request: order,
                    },
                    Some(pos),
                )),
                new_cash,
                ps.remove(i),
            ),
        }
    }
}

/// Multiplies by a price factor `SCALE ± slip`.
fn adjust(price: i128, up: bool, slip: i128) -> (r: Option<i128>)
    requires
        bounded(price as int),
        0 <= slip < SCALE,
    ensures
        r == checked(fmul(price as int, if up { SCALE + slip } else { SCALE - slip })),
{
    let f: i128 = if up { SCALE + slip } else { SCALE - slip };
    fx_mul(price, f)
}

/// Fills orders against a reference price, with slippage and a taker fee.
#[derive(Debug)]
pub struct SimulatedExecutor {
    pub settings: SimulationSettings,
}

impl SimulatedExecutor {
    pub fn new(settings: SimulationSettings) -> (r: SimulatedExecutor)
        ensures
            r.settings == settings,
    {
        SimulatedExecutor { settings }
    }

    /// Opens a position for `order`, filled at `current_price` adjusted by slippage
    /// and stamped with `current_time`; the fee leaves the cash.
    pub fn process_entry(
        &self,
        order: &OrderRequest,
        current_price: i128,
        current_time: i64,
        portfolio: &mut Portfolio,
    ) -> (r: Result<(Execution, Option<Position>), ExecError>)
        requires
            self.settings.wf(),
            old(portfolio).wf(),
            order.wf(),
            bounded(current_price as int),
            !keys(old(portfolio).open_positions@).contains(order.symbol@),
        ensures
            final(portfolio).wf(),
            final(portfolio).initial_capital == old(portfolio).initial_capital,
            match entry_fill(self.settings, order.side, order.quantity as int, current_price as int) {
                None => r == Err::<(Execution, Option<Position>), ExecError>(ExecError::Arithmetic)
                    && *final(portfolio) == *old(portfolio),
                Some((p, fee)) => if old(portfolio).cash < fee {
                    r == Err::<(Execution, Option<Position>), ExecError>(ExecError::InsufficientCash)
                        && *final(portfolio) == *old(portfolio)
                } else {
                    &&& r == Ok::<(Execution, Option<Position>), ExecError>((
                        Execution {
                            symbol: order.symbol,
                            side: order.side,
                            price: p as i128,
                            quantity: order.quantity,
                            fee: fee as i128,
                            source_request: *order,
                        },
                        None,
                    ))
                    &&& final(portfolio).cash == old(portfolio).cash - fee
                    &&& final(portfolio).open_positions@ == old(portfolio).open_positions@.push(
                        Position {
                            symbol: order.symbol,
                            side: order.side,
                            quantity: order.quantity,
                            entry_price: p as i128,
                            leverage: order.leverage,
                            sl_price: order.sl_price,
                            entry_time: current_time,
                        },
                    )
                },
            },
    {
        let up = match order.side {
            Side::Long => true,
            Side::Short => false,
        };
        let price = match adjust(current_price, up, self.settings.slippage_percent) {
            Some(p) => p,
            None => return Err(ExecError::Arithmetic),
        };
        if price <= 0 {
            return Err(ExecError::Arithmetic);
        }
        let notional = match fx_mul(order.quantity, price) {
            Some(v) => v,
            None => return Err(ExecError::Arithmetic),
        };
        let fee = match fx_mul(notional, self.settings.taker_fee) {
            Some(v) => v,
            None => return Err(ExecError::Arithmetic),
        };
        if portfolio.cash < fee {
            return Err(ExecError::InsufficientCash);
        }
        assert(fee >= 0) by (nonlinear_arith)
            requires
                notional as int == fmul(order.quantity as int, price as int),
                fee as int == fmul(notional as int, self.settings.taker_fee as int),
                order.quantity > 0,
                price > 0,
                self.settings.taker_fee >= 0,
        ;
        portfolio.cash = portfolio.cash - fee;
        let position = Position {
            symbol: order.symbol.clone(),
            side: order.side,
            quantity: order.quantity,
            entry_price: price,
            leverage: order.leverage,
            sl_price: order.sl_price,
            entry_time: current_time,
        };
        proof {
            lemma_keys_push(old(portfolio).open_positions@, position);
        }
        portfolio.open_positions.push(position);
        let execution = Execution {
            symbol: order.symbol.clone(),
            side: order.side,
            price,
            quantity: order.quantity,
            fee,
            source_request: copy_order(order),
        };
        Ok((execution, None))
    }

    /// Closes the open position at index `idx`, filled at `current_price`
    /// adjusted by slippage; profit less the fee goes to the cash. Returns the
    /// closing fill and the removed position.
    pub fn process_close(
        &self,
        order: &OrderRequest,
        current_price: i128,
        idx: usize,
        portfolio: &mut Portfolio,
    ) -> (r: Result<(Execution, Option<Position>), ExecError>)
        requires
            self.settings.wf(),
            old(portfolio).wf(),
            order.wf(),
            bounded(current_price as int),
            idx < old(portfolio).open_positions@.len(),
        ensures
            final(portfolio).wf(),
            final(portfolio).initial_capital == old(portfolio).initial_capital,
            ({
                let pos = old(portfolio).open_positions@[idx as int];
                match close_fill(self.settings, pos, current_price as int, old(portfolio).cash as int) {
                    None => r == Err::<(Execution, Option<Position>), ExecError>(ExecError::Arithmetic)
                        && *final(portfolio) == *old(portfolio),
                    Some((p, fee, pnl, new_cash)) => {
                        &&& r == Ok::<(Execution, Option<Position>), ExecError>((
                            Execution {
                                symbol: order.symbol,
                                side: order.side,
                                price: p as i128,
                                quantity: pos.quantity,
                                fee: fee as i128,
                                source_request: *order,
                            },
                            Some(pos),
                        ))
                        &&& final(portfolio).cash == new_cash
                        &&& final(portfolio).open_positions@ == old(portfolio).open_positions@.remove(idx as int)
                    },
                }
            }),
    {
        let ghost pos = portfolio.open_positions@[idx as int];
        let side = portfolio.open_positions[idx].side;
        let qty = portfolio.open_positions[idx].quantity;
        let entry = portfolio.open_positions[idx].entry_price;
        let up = match side {
            Side::Long => false,
            Side::Short => true,
        };
        let price = match adjust(current_price, up, self.settings.slippage_percent) {
            Some(p) => p,
            None => return Err(ExecError::Arithmetic),
        };
        if price <= 0 {
            return Err(ExecError::Arithmetic);
        }
        let notional = match fx_mul(qty, price) {
            Some(v) => v,
            None => return Err(ExecError::Arithmetic),
        };
        let fee = match fx_mul(notional, self.settings.taker_fee) {
            Some(v) => v,
            None => return Err(ExecError::Arithmetic),
        };
        let diff = match fx_sub(price, entry) {
            Some(v) => v,
            None => return Err(ExecError::Arithmetic),
        };
        let gross = match fx_mul(diff, qty) {
            Some(v) => v,
            None => return Err(ExecError::Arithmetic),
        };
        let pnl: i128 = match side {
            Side::Long => gross,
            Side::Short => -gross,
        };
        let net = match fx_sub(pnl, fee) {
            Some(v) => v,
            None => return Err(ExecError::Arithmetic),
        };
        let new_cash = match fx_add(portfolio.cash, net) {
            Some(v) => v,
            None => return Err(ExecError::Arithmetic),
        };
        proof {
            lemma_keys_remove(portfolio.open_positions@, idx as int);
        }
        let position = portfolio.open_positions.remove(idx);
        portfolio.cash = new_cash;
        let execution = Execution {
            symbol: order.symbol.clone(),
            side: order.side,
            price,
            quantity: position.quantity,
            fee,
            source_request: copy_order(order),
        };
        Ok((execution, Some(position)))
    }

    /// Fills `order`: an entry when no position is open on its symbol, else
    /// the close of that position. Entries add exactly one symbol to the open
    /// positions, closes remove exactly one.
    pub fn execute(
        &self,
        order: &OrderRequest,
        current_price: i128,
        current_time: i64,
        portfolio: &mut Portfolio,
    ) -> (r: Result<(Execution, Option<Position>), ExecError>)
        requires
            self.settings.wf(),
            old(portfolio).wf(),
            order.wf(),
            bounded(current_price as int),
        ensures
            final(portfolio).wf(),
            final(portfolio).initial_capital == old(portfolio).initial_capital,
            r is Err ==> *final(portfolio) == *old(portfolio),
            (r, final(portfolio).cash as int, final(portfolio).open_positions@) == execute_outcome(
                self.settings,
                *order,
                current_price as int,
                current_time,
                old(portfolio).cash as int,
                old(portfolio).open_positions@,
            ),
            !keys(old(portfolio).open_positions@).contains(order.symbol@) ==> ({
                match entry_fill(self.settings, order.side, order.quantity as int, current_price as int) {
                    None => r == Err::<(Execution, Option<Position>), ExecError>(ExecError::Arithmetic),
                    Some((p, fee)) => if old(portfolio).cash < fee {
                        r == Err::<(Execution, Option<Position>), ExecError>(ExecError::InsufficientCash)
                    } else {
                        &&& r == Ok::<(Execution, Option<Position>), ExecError>((
                            Execution {
                                symbol: order.symbol,
                                side: order.side,
                                price: p as i128,
                                quantity: order.quantity,
                                fee: fee as i128,
                                source_request: *order,
                            },
                            None,
                        ))
                        &&& final(portfolio).cash == old(portfolio).cash - fee
                        &&& final(portfolio).open_positions@ == old(portfolio).open_positions@.push(
                            Position {
                                symbol: order.symbol,
                                side: order.side,
                                quantity: order.quantity,
                                entry_price: p as i128,
                                leverage: order.leverage,
                                sl_price: order.sl_price,
                                entry_time: current_time,
                            },
                        )
                        &&& keys(final(portfolio).open_positions@) == keys(
                            old(portfolio).open_positions@,
                        ).insert(order.symbol@)
                    },
                }
            }),
            keys(old(portfolio).open_positions@).contains(order.symbol@) ==> ({
                let i = index_of(old(portfolio).open_positions@, order.symbol@);
                let pos = old(portfolio).open_positions@[i];
                match close_fill(self.settings, pos, current_price as int, old(portfolio).cash as int) {
                    None => r == Err::<(Execution, Option<Position>), ExecError>(ExecError::Arithmetic),
                    Some((p, fee, pnl, new_cash)) => {
                        &&& r == Ok::<(Execution, Option<Position>), ExecError>((
                            Execution {
                                symbol: order.symbol,
                                side: order.side,
                                price: p as i128,
                                quantity: pos.quantity,
                                fee: fee as i128,
                                source_request: *order,
                            },
                            Some(pos),
                        ))
                        &&& final(portfolio).cash == new_cash
                        &&& final(portfolio).open_positions@ == old(portfolio).open_positions@.remove(i)
                        &&& keys(final(portfolio).open_positions@) == keys(
                            old(portfolio).open_positions@,
                        ).remove(order.symbol@)
                    },
                }
            }),
    {
        match portfolio.position_index(&order.symbol) {
            None => {
                let r = self.process_entry(order, current_price, current_time, portfolio);
                proof {
                    if r is Ok {
                        let p = final(portfolio).open_positions@.last();
                        lemma_keys_push(old(portfolio).open_positions@, p);
                    }
                }
                r
            },
            Some(i) => {
                proof {
                    let ps = portfolio.open_positions@;
                    let j = index_of(ps, order.symbol@);
                    assert(ps[i as int].symbol@ == order.symbol@);
                    assert(0 <= j < ps.len() && ps[j].symbol@ == order.symbol@);
                    assert(i as int == j);
                    lemma_keys_remove(ps, i as int);
                }
                self.process_close(order, current_price, i, portfolio)
            },
        }
    }
}

} // verus!
