//! Goal detection for a table-football field watched by light gates.
//!
//! The library holds the decisions of the device: the per-side sensor check,
//! the debounced goal detector, the threshold store with its text protocol,
//! and the sequence numbering of outgoing notifications. Reading the sensors,
//! the clock, threads and the wireless stack are left to the caller.
use vstd::prelude::*;

pub mod goal_detector;
pub mod notifier;
pub mod sensor;
pub mod text;
pub mod threshold;

pub use goal_detector::{DetectedGoal, GoalDetector, ScanInput, WAIT_AFTER_DETECTION_MS};
pub use notifier::Notifier;
pub use sensor::{SensorFault, SideReadings, ThreshValue};
pub use threshold::{
    ParseThreshChangeError, ThreshChange, ThreshSide, ThresholdStore, DEFAULT_THRESHOLD,
};

verus! {

} // verus!
