use crate::timeseries::{ModelTimes, ValidTime};
use crate::types::{Profile, SECONDS_PER_HOUR};
use vstd::prelude::*;

verus! {

/// A measured or computed quantity, kept as the 64 bits of its double. The
/// library stores and hands on such a value and never computes with it.
#[derive(Clone, Copy, Debug, PartialEq, Eq, Structural)]
pub struct Reading {
    pub bits: u64,
}

/// The fire weather quantities of one sounding.
#[derive(Clone, Copy, Debug, PartialEq, Eq, Structural)]
pub struct FireMetrics {
    /// The hot-dry-windy index.
    pub hdw: Reading,
    /// The warming of a parcel that makes the plume blow up.
    pub blow_up_dt: Reading,
    /// The height that the plume gains when it blows up.
    pub blow_up_height: Reading,
}

/// The values of one sounding that the plots show.
#[derive(Debug)]
pub struct AnalyzedData {
    /// Seconds since the Unix epoch.
    pub valid_time: i64,
    /// Hours since the start of the model run.
    pub lead_time: i32,
    pub hdw: Reading,
    pub blow_up_dt: Reading,
    pub blow_up_height: Reading,
}

impl ValidTime for AnalyzedData {
    open spec fn valid_at(&self) -> Option<i64> {
        Some(self.valid_time)
    }

    fn valid_time(&self) -> (time: Option<i64>) {
        Some(self.valid_time)
    }
}

impl ModelTimes for AnalyzedData {
    open spec fn lead(&self) -> Option<i64> {
        Some((self.lead_time * SECONDS_PER_HOUR) as i64)
    }

    fn lead_time(&self) -> (time: Option<i64>) {
        Some((self.lead_time as i64) * SECONDS_PER_HOUR)
    }
}

impl AnalyzedData {
    /// Put the times of a profile and its fire weather quantities together.
    /// A profile that lacks its valid time or its lead time gives `None`.
    pub fn analyze(profile: &Profile, metrics: FireMetrics) -> (analyzed: Option<Self>)
        ensures
            analyzed == match (profile.valid_time, profile.lead_time) {
                (Some(valid_time), Some(lead_time)) => Some(
                    (AnalyzedData {
                        valid_time,
                        lead_time,
                        hdw: metrics.hdw,
                        blow_up_dt: metrics.blow_up_dt,
                        blow_up_height: metrics.blow_up_height,
                    }),
                ),
                _ => None,
            },
    {
        match (profile.valid_time, profile.lead_time) {
            (Some(valid_time), Some(lead_time)) => Some(
                AnalyzedData {
                    valid_time,
                    lead_time,
                    hdw: metrics.hdw,
                    blow_up_dt: metrics.blow_up_dt,
                    blow_up_height: metrics.blow_up_height,
                },
            ),
            _ => None,
        }
    }
}

} // verus!
