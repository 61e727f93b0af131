pub mod audit;
pub mod common;
pub mod engine;
pub mod errors;
pub mod gateway;
pub mod messages;
pub mod pipeline;

pub use audit::{AuditActor, AuditStep, AuditSummary};
pub use common::{NewOrder, Side, Trade, ValidatedOrder};
pub use engine::{EngineStep, MatchingEngineActor};
pub use errors::{AuditError, EngineError, GatewayError};
pub use gateway::{GatewayActor, GatewayStep};
pub use messages::{AuditMsg, EngineMsg, GatewayMsg};
