use crate::timeseries::ValidTime;
use crate::types::analyzed_data::Reading;
use vstd::prelude::*;

verus! {

/// The warming of a parcel with the dry and the wet part of the energy that
/// it then has, as the plots show them.
#[derive(Debug)]
pub struct CapePartition {
    /// Seconds since the Unix epoch.
    pub valid_time: i64,
    pub dt: Reading,
    pub dry: Reading,
    pub wet: Reading,
}

impl ValidTime for CapePartition {
    open spec fn valid_at(&self) -> Option<i64> {
        Some(self.valid_time)
    }

    fn valid_time(&self) -> (time: Option<i64>) {
        Some(self.valid_time)
    }
}

} // verus!
