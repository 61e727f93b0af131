use crate::common::{NewOrder, Trade, ValidatedOrder};
use vstd::prelude::*;

verus! {

/// What the gateway inbox accepts.
#[derive(Clone, Copy, Debug, PartialEq, Eq, Structural)]
pub enum GatewayMsg {
    NewOrder(NewOrder),
    Shutdown,
}

/// What the engine inbox accepts; it is fed by the gateway only.
#[derive(Clone, Copy, Debug, PartialEq, Eq, Structural)]
pub enum EngineMsg {
    Order(ValidatedOrder),
    Shutdown,
}

/// What the audit inbox accepts; it is fed by the gateway and the engine.
#[derive(Clone, Copy, Debug, PartialEq, Eq, Structural)]
pub enum AuditMsg {
    Trade(Trade),
    RejectedOrder,
    Shutdown,
}

} // verus!
