//! Sensor samples and the per-side trigger check.
use vstd::prelude::*;

verus! {

/// An intensity sample, and the sensitivity cutoff it is compared with.
pub type ThreshValue = u16;

/// A failed read of one sensor channel.
#[derive(Clone, Copy, Debug, PartialEq, Eq, Structural)]
pub struct SensorFault;

/// The two samples of one side of the field, taken in one scan.
#[derive(Clone, Copy, Debug)]
pub struct SideReadings {
    pub first: Result<ThreshValue, SensorFault>,
    pub second: Result<ThreshValue, SensorFault>,
}

impl SideReadings {
    /// Whether either read of this side failed.
    pub open spec fn has_fault(self) -> bool {
        self.first is Err || self.second is Err
    }

    /// Whether either sample lies strictly below `threshold`
    /// (meaningful only when no read failed).
    pub open spec fn below(self, threshold: ThreshValue) -> bool {
        ||| self.first matches Ok(v) && v < threshold
        ||| self.second matches Ok(v) && v < threshold
    }

    /// The outcome of the per-side check: a failed read, or whether the
    /// side is triggered.
    pub open spec fn outcome(self, threshold: ThreshValue) -> Result<bool, SensorFault> {
        if self.has_fault() {
            Err(SensorFault)
        } else {
            Ok(self.below(threshold))
        }
    }

    /// The per-side check: fails if a read failed, and otherwise tells
    /// whether an object interrupts either beam.
    pub fn triggered(&self, threshold: ThreshValue) -> (r: Result<bool, SensorFault>)
        ensures
            r == self.outcome(threshold),
            r is Err <==> self.has_fault(),
    {
        match (self.first, self.second) {
            (Ok(a), Ok(b)) => Ok(a < threshold || b < threshold),
            _ => Err(SensorFault),
        }
    }
}

} // verus!
