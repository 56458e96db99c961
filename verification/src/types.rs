use crate::timeseries::{ModelTimes, TimeSeries, ValidTime};
use sounding_analysis::Sounding;
use vstd::prelude::*;

/// What is computed from a profile for the plots.
pub mod analyzed_data;
/// The split of a parcel's energy into a dry and a wet part.
pub mod cape_partition;

verus! {

/// A sounding as the analysis crate holds it. The library carries it along
/// and never looks inside.
#[verifier::external_type_specification]
#[verifier::external_body]
pub struct ExSounding(Sounding);

/// A sounding together with its two times, as whoever parsed it read them
/// from it: the valid time in seconds since the Unix epoch and the lead time
/// in hours. The library goes by the two times and never looks inside the
/// sounding.
pub struct Profile {
    pub valid_time: Option<i64>,
    pub lead_time: Option<i32>,
    pub sounding: Sounding,
}

/// The number of seconds in an hour.
pub const SECONDS_PER_HOUR: i64 = 3600;

impl ValidTime for Profile {
    open spec fn valid_at(&self) -> Option<i64> {
        self.valid_time
    }

    fn valid_time(&self) -> (time: Option<i64>) {
        self.valid_time
    }
}

impl ModelTimes for Profile {
    open spec fn lead(&self) -> Option<i64> {
        match self.lead_time {
            Some(hours) => Some((hours * SECONDS_PER_HOUR) as i64),
            None => None,
        }
    }

    fn lead_time(&self) -> (time: Option<i64>) {
        match self.lead_time {
            Some(hours) => Some((hours as i64) * SECONDS_PER_HOUR),
            None => None,
        }
    }
}

impl<T: ValidTime> ValidTime for Vec<T> {
    /// The valid time of the first element: all the elements are taken to
    /// have the same one.
    open spec fn valid_at(&self) -> Option<i64> {
        if self@.len() > 0 {
            self@[0].valid_at()
        } else {
            None
        }
    }

    fn valid_time(&self) -> (time: Option<i64>) {
        if self.len() > 0 {
            self[0].valid_time()
        } else {
            None
        }
    }
}

/// A valid time is known and lies between `start` and `end`, both included.
pub open spec fn in_window(time: Option<i64>, start: i64, end: i64) -> bool {
    time is Some && start <= time.unwrap() <= end
}

/// The profiles whose valid time lies in the window, in their order.
pub open spec fn within(profiles: Seq<Profile>, start: i64, end: i64) -> Seq<Profile>
    decreases profiles.len(),
{
    if profiles.len() == 0 {
        Seq::empty()
    } else if in_window(profiles.last().valid_time, start, end) {
        within(profiles.drop_last(), start, end).push(profiles.last())
    } else {
        within(profiles.drop_last(), start, end)
    }
}

/// Every profile that `within` keeps has its valid time in the window.
pub proof fn lemma_within_in_window(profiles: Seq<Profile>, start: i64, end: i64, k: int)
    requires
        0 <= k < within(profiles, start, end).len(),
    ensures
        in_window(within(profiles, start, end)[k].valid_time, start, end),
        profiles.contains(within(profiles, start, end)[k]),
    decreases profiles.len(),
{
    let rest = profiles.drop_last();
    let kept = within(rest, start, end);
    if in_window(profiles.last().valid_time, start, end) && k == kept.len() {
        assert(profiles[profiles.len() - 1] == profiles.last());
    } else {
        lemma_within_in_window(rest, start, end, k);
        let j = choose|j: int| 0 <= j < rest.len() && rest[j] == kept[k];
        assert(profiles[j] == kept[k]);
    }
}

/// Keep the profiles whose valid time lies between `start` and `end`, both
/// included, in their order; `None` if there is none.
pub fn select_window(profiles: Vec<Profile>, start: i64, end: i64) -> (series: Option<
    TimeSeries<Profile>,
>)
    ensures
        match series {
            Some(kept) => kept.data@ == within(profiles@, start, end) && kept.data.len() > 0,
            None => within(profiles@, start, end).len() == 0,
        },
{
    let mut data: Vec<Profile> = Vec::new();
    for profile in it: profiles.into_iter()
        invariant
            it.seq() == profiles@,
            data@ == within(profiles@.take(it.index() as int), start, end),
    {
        let ghost upto = profiles@.take(it.index() + 1);
        proof {
            assert(upto.drop_last() =~= profiles@.take(it.index() as int));
            assert(upto.last() == profile);
        }
        let inside = match profile.valid_time {
            Some(time) => start <= time && time <= end,
            None => false,
        };
        if inside {
            data.push(profile);
        }
    }
    proof {
        assert(profiles@.take(profiles@.len() as int) =~= profiles@);
    }
    if data.is_empty() {
        None
    } else {
        Some(TimeSeries { data })
    }
}

/// The soundings of a parsed text that lie in the window, in the order of the
/// text; none where the text was not in the Bufkit format.
pub open spec fn windowed(parsed: Option<Vec<Profile>>, start: i64, end: i64) -> Seq<Profile> {
    match parsed {
        Some(profiles) => within(profiles@, start, end),
        None => Seq::empty(),
    }
}

/// Make of the parse of a text the series of its soundings whose valid time
/// lies between `start` and `end`, both included. `None` where the text was
/// not in the Bufkit format, and where it has no sounding in the window.
pub fn parse_sounding(parsed: Option<Vec<Profile>>, start: i64, end: i64) -> (series: Option<
    TimeSeries<Profile>,
>)
    ensures
        match series {
            Some(kept) => kept.data@ == windowed(parsed, start, end) && kept.data.len() > 0,
            None => windowed(parsed, start, end).len() == 0,
        },
{
    match parsed {
        Some(profiles) => select_window(profiles, start, end),
        None => None,
    }
}

} // verus!
