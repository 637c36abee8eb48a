//! A live trading bot: for each closed bar of its symbol it decides, from its
//! recent bars, its strategy, the risk rules and the portfolio, which order
//! (if any) to execute. The caller performs the execution.

use vstd::prelude::*;
use vstd::string::StringExecFns;
use crate::execution::{keys, index_of, Portfolio};
use crate::fixed::bounded;
use crate::risk::{close_order_for, evaluate_outcome, SimpleRiskManager, SimpleRiskSettings};
use crate::backtester::position_on;
use crate::strategy::{history_wf, Strategy};
use crate::types::{opposite_side, Kline, OrderRequest, Position, Side, Signal};

verus! {

/// Number of recent bars a bot keeps for its strategy.
pub const BOT_HISTORY_SIZE: usize = 2;

/// The bot's identifier: symbol, interval and strategy name joined by `_`.
pub open spec fn bot_id(symbol: Seq<char>, interval: Seq<char>, name: Seq<char>) -> Seq<char> {
    symbol + seq!['_'] + interval + seq!['_'] + name
}

/// What a bot asks its caller to do after a bar.
#[derive(Debug)]
pub enum BotAction {
    Nothing,
    Execute { order: OrderRequest, price: i128, time: i64 },
}

/// The last `BOT_HISTORY_SIZE` bars of `ks`.
pub open spec fn recent(ks: Seq<Kline>) -> Seq<Kline> {
    if ks.len() > BOT_HISTORY_SIZE {
        ks.subrange(ks.len() - BOT_HISTORY_SIZE, ks.len() as int)
    } else {
        ks
    }
}

/// A stop at `p.sl_price` is reached by a close at `price`.
pub open spec fn stop_reached(p: Position, price: int) -> bool {
    match p.side {
        Side::Long => price <= p.sl_price,
        Side::Short => price >= p.sl_price,
    }
}

/// What a bot in state `strategy`, holding `ks` after the new bar `k`, asks
/// for: nothing (strategy untouched) until `BOT_HISTORY_SIZE` bars are held;
/// the close of an open position on `symbol` whose stop the close of `k`
/// reaches, at that close (strategy untouched); otherwise the strategy's
/// signal, sized by the risk rules against the previous bar with the
/// portfolio's cash and filled at `k`'s open.
pub open spec fn bot_step<S: Strategy>(
    strategy: S,
    ks: Seq<Kline>,
    k: Kline,
    symbol: String,
    risk: SimpleRiskSettings,
    cash: int,
    ps: Seq<Position>,
) -> (S, BotAction) {
    let pos = position_on(ps, symbol@);
    if ks.len() < BOT_HISTORY_SIZE {
        (strategy, BotAction::Nothing)
    } else if pos is Some && stop_reached(pos->Some_0, k.close as int) {
        (strategy, BotAction::Execute { order: close_order_for(pos->Some_0, Signal::Close), price: k.close, time: k.open_time })
    } else {
        let (s2, sig) = strategy.step(ks);
        if sig is Hold {
            (s2, BotAction::Nothing)
        } else {
            match evaluate_outcome(risk, sig, symbol, cash, ks[ks.len() - 2], pos) {
                Ok(Some(o)) => (s2, BotAction::Execute { order: o, price: k.open, time: k.open_time }),
                _ => (s2, BotAction::Nothing),
            }
        }
    }
}

/// One trading instance for a symbol and a strategy.
pub struct Bot<S: Strategy> {
    pub id: String,
    pub symbol: String,
    pub interval: String,
    pub strategy: S,
    pub klines: Vec<Kline>,
}

impl<S: Strategy> Bot<S> {
    pub open spec fn wf(&self) -> bool {
        &&& self.strategy.inv()
        &&& self.klines@.len() <= BOT_HISTORY_SIZE
        &&& history_wf(self.klines@)
    }

    /// A bot with no bars yet.
    pub fn new(symbol: String, interval: String, strategy: S) -> (r: Bot<S>)
        requires
            strategy.inv(),
        ensures
            r.wf(),
            r.id@ == bot_id(symbol@, interval@, strategy.label()),
            r.symbol == symbol,
            r.interval == interval,
            r.strategy == strategy,
            r.klines@.len() == 0,
    {
        let mut id = String::from_str(symbol.as_str());
        id.append("_");
        id.append(interval.as_str());
        id.append("_");
        id.append(strategy.name());
        proof {
            reveal_strlit("_");
        }
        Bot { id, symbol, interval, strategy, klines: Vec::new() }
    }

    /// Takes a closed bar. Until `BOT_HISTORY_SIZE` bars are held nothing is
    /// done. An open position on the symbol whose stop the bar's close reaches
    /// is closed at that close. Otherwise the strategy's signal is sized
    /// against the previous bar and filled at this bar's open.
    pub fn on_kline(&mut self, kline: Kline, risk_manager: &SimpleRiskManager, portfolio: &Portfolio) -> (r: BotAction)
        requires
            old(self).wf(),
            kline.wf(),
            portfolio.wf(),
            risk_manager.settings.wf(),
        ensures
            final(self).wf(),
            final(self).symbol == old(self).symbol,
            final(self).klines@ == recent(old(self).klines@.push(kline)),
            final(self).klines@.len() < BOT_HISTORY_SIZE ==> r is Nothing,
            r matches BotAction::Execute { order, price, time } ==> order.wf() && bounded(price as int)
                && time == kline.open_time,
            (final(self).strategy, r) == bot_step(
                old(self).strategy,
                final(self).klines@,
                kline,
                old(self).symbol,
                risk_manager.settings,
                portfolio.cash as int,
                portfolio.open_positions@,
            ),
            ({
                let ps = portfolio.open_positions@;
                let p = ps[index_of(ps, old(self).symbol@)];
                final(self).klines@.len() == BOT_HISTORY_SIZE && keys(ps).contains(old(self).symbol@)
                    && stop_reached(p, kline.close as int) ==> r == (BotAction::Execute {
                    order: close_order_for(p, Signal::Close),
                    price: kline.close,
                    time: kline.open_time,
                })
            }),
    {
        let ghost pushed = self.klines@.push(kline);
        self.klines.push(kline);
        if self.klines.len() > BOT_HISTORY_SIZE {
            self.klines.remove(0);
            assert(self.klines@ =~= recent(pushed));
        }
        if self.klines.len() < BOT_HISTORY_SIZE {
            return BotAction::Nothing;
        }
        assert(history_wf(self.klines@)) by {
            assert forall|i: int| 0 <= i < self.klines@.len() implies (#[trigger] self.klines@[i]).wf() by {
                if pushed.len() > BOT_HISTORY_SIZE {
                    assert(self.klines@[i] == pushed[i + 1]);
                } else {
                    assert(self.klines@[i] == pushed[i]);
                }
            }
        }
        let found = portfolio.position_index(&self.symbol);
        if let Some(j) = found {
            proof {
                let ps = portfolio.open_positions@;
                let k = index_of(ps, self.symbol@);
                assert(ps[j as int].symbol@ == self.symbol@);
                assert(keys(ps).contains(self.symbol@));
                assert(0 <= k < ps.len() && ps[k].symbol@ == self.symbol@);
                assert(k == j);
            }
            let p = &portfolio.open_positions[j];
            let price = kline.close;
            let reached = match p.side {
                Side::Long => price <= p.sl_price,
                Side::Short => price >= p.sl_price,
            };
            if reached {
                let order = OrderRequest {
                    symbol: p.symbol.clone(),
                    side: opposite_side(p.side),
                    quantity: p.quantity,
                    leverage: p.leverage,
                    sl_price: 0,
                    originating_signal: Signal::Close,
                };
                return BotAction::Execute { order, price, time: kline.open_time };
            }
        }
        let signal = self.strategy.assess(self.klines.as_slice());
        if let Signal::Hold = signal {
            return BotAction::Nothing;
        }
        let calc = &self.klines[self.klines.len() - 2];
        let open_position = match found {
            Some(j) => Some(&portfolio.open_positions[j]),
            None => None,
        };
        match risk_manager.evaluate(&signal, &self.symbol, portfolio.cash, calc, open_position) {
            Ok(Some(order)) => BotAction::Execute { order, price: kline.open, time: kline.open_time },
            _ => BotAction::Nothing,
        }
    }
}

} // verus!
