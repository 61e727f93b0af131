use vstd::prelude::*;

verus! {

/// Which side of the market an order stands on.
#[derive(Clone, Copy, Debug, PartialEq, Eq, Structural)]
pub enum Side {
    Buy,
    Sell,
}

/// An unvalidated submission; it carries no identifier yet.
#[derive(Clone, Copy, Debug, PartialEq, Eq, Structural)]
pub struct NewOrder {
    pub user_id: i32,
    pub side: Side,
    pub qty: i32,
    pub price: i32,
}

/// An order the gateway accepted and stamped with a fresh identifier.
#[derive(Clone, Copy, Debug, PartialEq, Eq, Structural)]
pub struct ValidatedOrder {
    pub order_id: i32,
    pub user_id: i32,
    pub side: Side,
    pub qty: i32,
    pub price: i32,
}

/// A cross between a buy order and a sell order.
#[derive(Clone, Copy, Debug, PartialEq, Eq, Structural)]
pub struct Trade {
    pub buy_order_id: i32,
    pub sell_order_id: i32,
    pub qty: i32,
    pub price: i32,
}

impl Trade {
    /// A trade is well formed when both its price and its quantity are positive.
    pub open spec fn spec_is_valid(&self) -> bool {
        self.price > 0 && self.qty > 0
    }

    #[verifier::when_used_as_spec(spec_is_valid)]
    pub fn is_valid(&self) -> (r: bool)
        ensures
            r == self.spec_is_valid(),
    {
        self.price > 0 && self.qty > 0
    }
}

/// A validated order as the engine may hold it: positive identifier,
/// quantity and price.
pub open spec fn order_wf(v: ValidatedOrder) -> bool {
    v.order_id > 0 && v.qty > 0 && v.price > 0
}

} // verus!
