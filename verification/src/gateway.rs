use crate::common::{order_wf, NewOrder, ValidatedOrder};
use crate::errors::GatewayError;
use crate::messages::GatewayMsg;
use vstd::prelude::*;

verus! {

/// The gateway accepts a submission exactly when its quantity and price are positive.
pub open spec fn accepts(n: NewOrder) -> bool {
    n.qty > 0 && n.price > 0
}

/// The validated order minted for submission `n` under identifier `id`.
pub open spec fn validated_of(n: NewOrder, id: i32) -> ValidatedOrder {
    ValidatedOrder {
        order_id: id,
        user_id: n.user_id,
        side: n.side,
        qty: n.qty,
        price: n.price,
    }
}

/// Gateway state: the identifier counter. The channel ends that carry its
/// messages live with the caller that runs the loop.
pub struct GatewayActor {
    pub next_id: i32,
}

/// What the gateway asks its surroundings to do after consuming one inbox message.
#[derive(Clone, Copy, Debug, PartialEq, Eq, Structural)]
pub enum GatewayStep {
    /// Deliver the validated order to the engine inbox and keep running.
    ForwardOrder(ValidatedOrder),
    /// Deliver a rejection notice to the audit inbox and keep running.
    Reject(GatewayError),
    /// Deliver a shutdown to the engine inbox and stop the gateway loop.
    PassShutdown,
}

impl GatewayActor {
    pub fn new() -> (r: Self)
        ensures
            r.next_id == 0,
    {
        Self { next_id: 0 }
    }

    /// Validate one submission: reject a non-positive quantity, then a
    /// non-positive price; otherwise mint the next identifier and emit the
    /// validated order. A rejection consumes no identifier.
    pub fn validate_new_order(&mut self, new_order: NewOrder) -> (r: Result<
        ValidatedOrder,
        GatewayError,
    >)
        requires
            0 <= old(self).next_id < i32::MAX,
        ensures
            new_order.qty <= 0 ==> (r == Err::<ValidatedOrder, GatewayError>(
                GatewayError::InvalidQty { qty: new_order.qty },
            ) && *final(self) == *old(self)),
            new_order.qty > 0 && new_order.price <= 0 ==> (r == Err::<ValidatedOrder, GatewayError>(
                GatewayError::InvalidPrice { price: new_order.price },
            ) && *final(self) == *old(self)),
            accepts(new_order) ==> (final(self).next_id == old(self).next_id + 1 && r == Ok::<
                ValidatedOrder,
                GatewayError,
            >(validated_of(new_order, (old(self).next_id + 1) as i32))),
            accepts(new_order) ==> (r matches Ok(v) && order_wf(v)),
    {
        if new_order.qty <= 0 {
            Err(GatewayError::InvalidQty { qty: new_order.qty })
        } else if new_order.price <= 0 {
            Err(GatewayError::InvalidPrice { price: new_order.price })
        } else {
            self.next_id = self.next_id + 1;
            Ok(
                ValidatedOrder {
                    order_id: self.next_id,
                    user_id: new_order.user_id,
                    side: new_order.side,
                    qty: new_order.qty,
                    price: new_order.price,
                },
            )
        }
    }

    /// Consume one inbox message and say what to do next: forward an accepted
    /// order, report a rejection, or pass the shutdown on and halt.
    pub fn handle(&mut self, msg: GatewayMsg) -> (r: GatewayStep)
        requires
            0 <= old(self).next_id < i32::MAX,
        ensures
            (match msg {
                GatewayMsg::NewOrder(n) => {
                    &&& accepts(n) ==> (r == GatewayStep::ForwardOrder(
                        validated_of(n, (old(self).next_id + 1) as i32),
                    ) && final(self).next_id == old(self).next_id + 1)
                    &&& n.qty <= 0 ==> (r == GatewayStep::Reject(
                        GatewayError::InvalidQty { qty: n.qty },
                    ) && *final(self) == *old(self))
                    &&& n.qty > 0 && n.price <= 0 ==> (r == GatewayStep::Reject(
                        GatewayError::InvalidPrice { price: n.price },
                    ) && *final(self) == *old(self))
                },
                GatewayMsg::Shutdown => r == GatewayStep::PassShutdown
                    && *final(self) == *old(self),
            }),
    {
        match msg {
            GatewayMsg::NewOrder(n) => match self.validate_new_order(n) {
                Ok(v) => GatewayStep::ForwardOrder(v),
                Err(e) => GatewayStep::Reject(e),
            },
            GatewayMsg::Shutdown => GatewayStep::PassShutdown,
        }
    }
}

} // verus!
