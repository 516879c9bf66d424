//! A host-metrics agent core: a registry of linked subscribers, the
//! per-tick decisions of the sampler, and the fan-out of one metric event to
//! every subscriber of a snapshot.
pub mod link;
pub mod metrics;
pub mod provider;
pub mod registry;
pub mod sampler;

pub use link::LinkDefinition;
pub use metrics::{AgentIdentity, MetricEvent, SystemMetrics};
pub use provider::SysmonitorBasicProvider;
pub use registry::{Snapshot, SubscriberRegistry};
pub use sampler::{fan_out, plan_tick, settle, Delivery, PublishFailure, TickAction, TICK_INTERVAL_SECS};
