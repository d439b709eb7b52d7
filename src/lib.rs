//! Embedded telemetry pipeline: an event store, a batch outbox with its send
//! lifecycle, and a retention sweep, together with the small content and
//! subscription models that surround them.

mod ambient;
pub mod args;
pub mod encoding;
pub mod lifecycle;
pub mod monetization;
pub mod resonance;
pub mod roles;
pub mod runner;
pub mod scripts;
pub mod store;
pub mod telemetry;
pub mod validator;

pub use args::get_arg_value;
pub use monetization::{
    ContentAccess, ContentType, ContentUnlock, Entitlement, EntitlementReason, MonetizationConfig,
    Platform, Purchase, Subscription, SubscriptionStatus, SubscriptionTier,
};
pub use resonance::{Reflection, ResonanceTrace};
pub use roles::{Difficulty, Role, RolePath};
pub use runner::RunnerState;
pub use scripts::{default_ping_max, default_ping_min, Answer, Step, StepType};
pub use store::{BatchRecord, BatchStatus, Store, StoredEvent, TelemetryError, TelemetryStats};
pub use telemetry::{DeviceContext, EventBatch, EventType, TelemetryConfig, TelemetryEvent};
pub use validator::ValidationReport;
