//! Core of an order-intake service: runtime configuration, request
//! validation, an `(endpoint, Idempotency-Key)` claim/complete protocol with
//! response replay, and a transactional-outbox state machine with claim,
//! retry and backoff.
//!
//! Persisted state lives in a store modelled here as plain data
//! ([`store::Store`]); every operation on it is specified and verified.
//! Hashing and id generation call outside crates through trusted wrappers.

pub mod config;
pub mod digest;
pub mod error;
pub mod health;
pub mod idempotency;
pub mod jsonenc;
pub mod metrics;
pub mod observability;
pub mod orders;
pub mod outbox;
pub mod repo;
pub mod request;
pub mod store;
pub mod text;

pub use config::AppConfig;
pub use config::ConfigError;
pub use config::Environment;
pub use error::ApiError;
pub use error::ErrorBody;
pub use error::ErrorEnvelope;
pub use observability::ObservabilityConfig;
pub use orders::CreateOrderRequest;
pub use orders::CreateOrderResponse;
pub use orders::GetOrderResponse;
pub use orders::NormalizedOrder;
pub use orders::OrderItem;
pub use orders::ValidateOrderRequest;
pub use orders::ValidateOrderResponse;
pub use outbox::DeliveryError;
pub use outbox::DeliveryResult;
pub use outbox::DeliverySink;
pub use outbox::LogSink;
pub use outbox::OutboxEvent;
pub use outbox::OutboxRow;
pub use outbox::OutboxStatus;
pub use outbox::WorkerConfig;
pub use request::RequestId;
pub use store::Store;
