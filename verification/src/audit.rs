use crate::common::Trade;
use crate::errors::AuditError;
use crate::messages::AuditMsg;
use vstd::prelude::*;

verus! {

/// Sum of the quantities of `trades`: the running volume.
pub open spec fn trades_volume(trades: Seq<Trade>) -> int
    decreases trades.len(),
{
    if trades.len() == 0 {
        0
    } else {
        trades_volume(trades.drop_last()) + trades.last().qty
    }
}

/// The prices of `trades`, in emission order.
pub open spec fn trade_prices(trades: Seq<Trade>) -> Seq<i32> {
    trades.map_values(|t: Trade| t.price)
}

/// The terminal record the audit stage emits at shutdown.
#[derive(Clone, Copy, Debug, PartialEq, Eq, Structural)]
pub struct AuditSummary {
    pub total_volume: i32,
    pub trade_count: usize,
    pub rejected_count: i32,
}

/// Audit state: recorded trades, running counters, and the prices seen, in
/// emission order. The inbox it drains lives with the caller that runs the loop.
pub struct AuditActor {
    pub trades: Vec<Trade>,
    pub volume_total: i32,
    pub rejected_orders: i32,
    pub last_prices: Vec<i32>,
}

/// What the audit stage reports after consuming one inbox message.
#[derive(Clone, Copy, Debug, PartialEq, Eq, Structural)]
pub enum AuditStep {
    /// The trade or rejection was recorded; keep running.
    Recorded,
    /// The terminal summary; stop the audit loop.
    Finished(AuditSummary),
}

impl AuditActor {
    /// The counters agree with the recorded trades.
    pub open spec fn wf(self) -> bool {
        &&& self.volume_total == trades_volume(self.trades@)
        &&& self.last_prices@ == trade_prices(self.trades@)
    }

    pub fn new() -> (r: Self)
        ensures
            r.trades@ == Seq::<Trade>::empty(),
            r.volume_total == 0,
            r.rejected_orders == 0,
            r.last_prices@ == Seq::<i32>::empty(),
            r.wf(),
    {
        let r = Self { trades: Vec::new(), volume_total: 0, rejected_orders: 0, last_prices: Vec::new() };
        proof {
            assert(trade_prices(r.trades@) =~= Seq::<i32>::empty());
        }
        r
    }

    /// Record one trade: a non-positive quantity or price is an upstream bug
    /// and fatal; otherwise the trade, its price and its quantity are appended
    /// to the running statistics.
    pub fn stats(&mut self, trade: Trade) -> (r: Result<(), AuditError>)
        requires
            trade.spec_is_valid() ==> old(self).volume_total + trade.qty <= i32::MAX,
        ensures
            trade.spec_is_valid() ==> (r == Ok::<(), AuditError>(())
                && final(self).trades@ == old(self).trades@.push(trade)
                && final(self).last_prices@ == old(self).last_prices@.push(trade.price)
                && final(self).volume_total == old(self).volume_total + trade.qty
                && final(self).rejected_orders == old(self).rejected_orders),
            !trade.spec_is_valid() ==> (r == Err::<(), AuditError>(AuditError::InvalidTrade)
                && *final(self) == *old(self)),
            old(self).wf() ==> final(self).wf(),
    {
        if trade.is_valid() {
            self.last_prices.push(trade.price);
            self.volume_total = self.volume_total + trade.qty;
            self.trades.push(trade);
            proof {
                assert(self.trades@.drop_last() =~= old(self).trades@);
                if old(self).wf() {
                    assert(trade_prices(self.trades@) =~= trade_prices(old(self).trades@).push(
                        trade.price,
                    ));
                }
            }
            Ok(())
        } else {
            Err(AuditError::InvalidTrade)
        }
    }

    /// Count one rejection notice.
    pub fn rejected_order(&mut self)
        requires
            old(self).rejected_orders < i32::MAX,
        ensures
            final(self).rejected_orders == old(self).rejected_orders + 1,
            final(self).trades@ == old(self).trades@,
            final(self).volume_total == old(self).volume_total,
            final(self).last_prices@ == old(self).last_prices@,
    {
        self.rejected_orders = self.rejected_orders + 1;
    }

    /// The terminal summary: total volume, number of trades, number of rejections.
    pub fn summary(&self) -> (r: AuditSummary)
        ensures
            r.total_volume == self.volume_total,
            r.trade_count == self.trades@.len(),
            r.rejected_count == self.rejected_orders,
    {
        AuditSummary {
            total_volume: self.volume_total,
            trade_count: self.trades.len(),
            rejected_count: self.rejected_orders,
        }
    }

    /// Consume one inbox message: record a trade, count a rejection, or emit
    /// the terminal summary and halt. A malformed trade is fatal.
    pub fn handle(&mut self, msg: AuditMsg) -> (r: Result<AuditStep, AuditError>)
        requires
            (match msg {
                AuditMsg::Trade(t) => t.spec_is_valid() ==> old(self).volume_total + t.qty
                    <= i32::MAX,
                _ => true,
            }),
            (msg is RejectedOrder ==> old(self).rejected_orders < i32::MAX),
        ensures
            (match msg {
                AuditMsg::Trade(t) => {
                    &&& t.spec_is_valid() ==> (r == Ok::<AuditStep, AuditError>(AuditStep::Recorded)
                        && final(self).trades@ == old(self).trades@.push(t)
                        && final(self).last_prices@ == old(self).last_prices@.push(t.price)
                        && final(self).volume_total == old(self).volume_total + t.qty
                        && final(self).rejected_orders == old(self).rejected_orders)
                    &&& !t.spec_is_valid() ==> (r == Err::<AuditStep, AuditError>(
                        AuditError::InvalidTrade,
                    ) && *final(self) == *old(self))
                },
                AuditMsg::RejectedOrder => r == Ok::<AuditStep, AuditError>(AuditStep::Recorded)
                    && final(self).rejected_orders == old(self).rejected_orders + 1
                    && final(self).trades@ == old(self).trades@
                    && final(self).volume_total == old(self).volume_total
                    && final(self).last_prices@ == old(self).last_prices@,
                AuditMsg::Shutdown => r == Ok::<AuditStep, AuditError>(
                    AuditStep::Finished(
                        AuditSummary {
                            total_volume: old(self).volume_total,
                            trade_count: old(self).trades@.len() as usize,
                            rejected_count: old(self).rejected_orders,
                        },
                    ),
                ) && *final(self) == *old(self),
            }),
            old(self).wf() ==> final(self).wf(),
    {
        match msg {
            AuditMsg::Trade(t) => match self.stats(t) {
                Ok(_) => Ok(AuditStep::Recorded),
                Err(e) => Err(e),
            },
            AuditMsg::RejectedOrder => {
                self.rejected_order();
                Ok(AuditStep::Recorded)
            },
            AuditMsg::Shutdown => Ok(AuditStep::Finished(self.summary())),
        }
    }
}

} // verus!
