use vstd::prelude::*;

verus! {

/// Why the gateway rejected a submission or stopped.
#[derive(Clone, Copy, Debug, PartialEq, Eq, Structural)]
pub enum GatewayError {
    InvalidQty { qty: i32 },
    InvalidPrice { price: i32 },
    GatewayChannelClosed,
    EngineChannelClosed,
}

/// Why the engine stopped.
#[derive(Clone, Copy, Debug, PartialEq, Eq, Structural)]
pub enum EngineError {
    AuditChannelClosed,
}

/// Why the audit stage stopped: a malformed trade is an upstream bug.
#[derive(Clone, Copy, Debug, PartialEq, Eq, Structural)]
pub enum AuditError {
    InvalidTrade,
}

} // verus!
