//! Aircraft state tracking for a 1090 MHz ADS-B receiver: per-aircraft
//! update-rate limiting, the aircraft register with CPR pairing, output
//! fan-out to raw and state sinks, wire encodings and decoder metrics.
pub mod time;
pub mod rate_limiter;
pub mod rate_limited_manager;
pub mod adsb;
pub mod packet;
pub mod output_module;
pub mod tracker;
pub mod metrics;
pub mod wire;
pub mod resample;
pub mod sbs1;

pub use time::Duration;
pub use adsb::AdsbIcao;
pub use metrics::{GlobalMetrics, MetricsSnapshot};
pub use output_module::{
    DynOutputModule, OutputError, OutputModule, OutputModuleBase, OutputModuleBuilder,
    OutputModuleConfig, OutputModuleManager, OutputModuleRegistry, RawOutputModule,
    StateOutputModule,
};
pub use packet::{
    AdsbIdentification, AdsbMessage, AdsbPosition, AdsbVelocity, AircraftVelocity, GroundSpeedFields,
    AircraftVerticalRateSource, CprFormat, DecoderMetaData,
};
pub use sbs1::{Sbs1Message, WebSocketMessage};
pub use resample::{check_sample_rate, resampling_plan, ResamplingPlan, SampleRateError};
pub use rate_limited_manager::{ItemKey, RateLimitedStateManager, RateLimitedStateManagerBuilder};
pub use tracker::{
    AircraftPosition, AircraftPositionRecord, AircraftRecord, AircraftRegister,
    AircraftVelocityRecord, ControlQuery, CprFrameRecord, Tracker, TrackerUpdateData,
};
pub use rate_limiter::{
    ItemRateLimiter, PendingUpdate, RateLimitConfig, RateLimitResult, RateLimitStats,
    UpdateTracker, UpdateType,
};
