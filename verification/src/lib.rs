//! Declarative service health checks: each check reports a [`Status`], and
//! the per-check outcomes are aggregated into one report for the service.

pub mod check;
pub mod debug_text;
pub mod json;
pub mod registry;
pub mod report;
pub mod result;
pub mod status;
pub mod string_map;
pub mod text;

pub use crate::check::{BodyEvent, Check, CheckOutcome, Critical, Timeout};
pub use crate::registry::{
    default_timeout, BuildError, HealthRegistry, HealthRegistryBuilder, DEFAULT_TIMEOUT_SECS,
};
pub use crate::report::{aggregate, HealthReport};
pub use crate::result::CheckResult;
pub use crate::status::Status;
pub use crate::string_map::StringMap;
