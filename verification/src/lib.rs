//! Track geometry and timing engine for GPS-recorded activities.
//!
//! The library works entirely in fixed-point integer units so that every
//! computation can be verified:
//!
//! * coordinates: microdegrees (`1e-6` degree), latitude in `-90_000_000 ..= 90_000_000`,
//!   longitude in `-180_000_000 ..= 180_000_000`;
//! * distances: whole meters;
//! * times: milliseconds;
//! * pace: whole seconds per kilometer;
//! * speed: millimeters per second, or thousandths of a kilometer per hour.
//!
//! The core offers great-circle distances, time/distance interpolation along a
//! track, split and pace derivation, ghost-pacing comparison against a
//! reference run, and a sliding-window search for the fastest sub-segment
//! covering each standard distance.

#![verifier::loop_isolation(false)]

pub mod activity;
pub mod banshee;
pub mod fmt;
pub mod geo;
pub mod interp;
pub mod pace;
pub mod pb_calculator;
pub mod personal_best;
pub mod point;
pub mod run_record;
pub mod session;
pub mod stats;
pub mod store;
mod trig;

pub use activity::{Activity, ActivityIndex, ActivitySummary, ActivityType};
pub use banshee::{Banshee, BansheeState, BansheeType};
pub use geo::GpsPoint;
pub use pace::Split;
pub use pb_calculator::{PBCalculator, SegmentTime};
pub use personal_best::{PersonalBest, PersonalBests};
pub use point::Point;
pub use run_record::RunRecord;
pub use session::{BansheeSession, PacingStatus};
pub use store::RunStore;
