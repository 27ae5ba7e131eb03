//! Core aggregation engine for a service status page.
//!
//! The library turns a per-service sequence of periodic response-time
//! samples (milliseconds; zero encodes "down") into rolling uptime
//! percentages, a fixed-length daily status timeline, and a downsampled
//! response-time trend graph, and combines them into render-ready
//! contexts. A short-lived key-addressed response cache with per-entry
//! time-to-live memoizes the rendered pages.
//!
//! All percentages are held in fixed point: hundredths of a percent for
//! uptime values (`7500` is `75.00%`), tenths of a percent for day
//! descriptions and plot coordinates.

use vstd::prelude::*;

pub mod aggregate;
pub mod cache;
pub mod graph;
pub mod rounding;
pub mod samples;
pub mod segments;
pub mod text;
pub mod timefmt;

verus! {

pub use aggregate::{
    build_detail_context, build_index_context, Config, DetailContext, Incident, IndexContext,
    MonitoringError, Service, ServiceEntry, StatusKind,
};
pub use cache::ResponseCache;
pub use graph::{GraphPoint, TrendGraph};
pub use samples::{calculate_uptime, clamp_samples};
pub use segments::{segment_days, DaySegment, SegmentKind};
pub use timefmt::Timestamp;

} // verus!
