//! The strategy interface: a stateful consumer of bar history that emits a
//! signal for the most recent bar.

use vstd::prelude::*;
use crate::fixed::SCALE;
use crate::types::{signal_confidence, Kline, Signal};

verus! {

/// A bar history in which every bar is well formed.
pub open spec fn history_wf(ks: Seq<Kline>) -> bool {
    forall|i: int| 0 <= i < ks.len() ==> (#[trigger] ks[i]).wf()
}

/// A signal whose confidence, if it carries one, lies in [0, 1].
pub open spec fn signal_wf(s: Signal) -> bool {
    0 <= signal_confidence(s) <= SCALE
}

/// A trading strategy. `assess` reads a history that ends with the most
/// recently closed bar and may update the strategy's own state; what it
/// does is `step`, a function of the state and the history alone.
pub trait Strategy: Sized {
    /// What the strategy's state keeps between calls.
    spec fn inv(&self) -> bool;

    /// The state after assessing `ks`, and the signal.
    spec fn step(&self, ks: Seq<Kline>) -> (Self, Signal);

    /// The strategy's name.
    spec fn label(&self) -> Seq<char>;

    fn name(&self) -> (r: &'static str)
        ensures
            r@ == self.label(),
    ;

    fn assess(&mut self, klines: &[Kline]) -> (r: Signal)
        requires
            old(self).inv(),
            history_wf(klines@),
        ensures
            final(self).inv(),
            signal_wf(r),
            (*final(self), r) == old(self).step(klines@),
    ;
}

} // verus!
