use bufkit_data::SiteInfo;
use vstd::prelude::*;
use vstd::std_specs::cmp::PartialEqSpecImpl;

verus! {

/// The description of a site as the archive keeps it. The library carries it
/// along and never looks inside.
#[verifier::external_type_specification]
#[verifier::external_body]
pub struct ExSiteInfo(SiteInfo);

/// Calls `SiteInfo::clone`, the derived copy of a record of plain fields: the
/// result is the same record.
#[verifier::external_body]
pub(crate) fn clone_site(site: &SiteInfo) -> (copy: SiteInfo)
    ensures
        copy == *site,
{
    site.clone()
}

/// Calls `SiteInfo::eq`, the derived comparison of a record of plain fields:
/// two records are equal where they are the same record.
#[verifier::external_body]
pub(crate) fn same_site(site: &SiteInfo, other: &SiteInfo) -> (same: bool)
    ensures
        same == (*site == *other),
{
    site == other
}

/// `MetaData` says when the associated data starts and stops, what time is
/// considered now, and the site and model the data is valid for.
///
/// `start <= now <= end` is expected of it and not enforced.
#[derive(Debug)]
pub struct MetaData {
    pub site: SiteInfo,
    pub model: String,
    pub start: i64,
    pub now: i64,
    pub end: i64,
}

/// A `MetaData` with the model's name as a sequence of characters.
pub struct MetaView {
    pub site: SiteInfo,
    pub model: Seq<char>,
    pub start: i64,
    pub now: i64,
    pub end: i64,
}

impl View for MetaData {
    type V = MetaView;

    open spec fn view(&self) -> MetaView {
        MetaView {
            site: self.site,
            model: self.model@,
            start: self.start,
            now: self.now,
            end: self.end,
        }
    }
}

impl Clone for MetaData {
    fn clone(&self) -> (copy: Self)
        ensures
            copy == *self,
    {
        MetaData {
            site: clone_site(&self.site),
            model: self.model.clone(),
            start: self.start,
            now: self.now,
            end: self.end,
        }
    }
}

impl PartialEq for MetaData {
    fn eq(&self, other: &Self) -> (same: bool) {
        same_site(&self.site, &other.site) && self.model == other.model && self.start
            == other.start && self.now == other.now && self.end == other.end
    }
}

impl PartialEqSpecImpl for MetaData {
    open spec fn obeys_eq_spec() -> bool {
        true
    }

    open spec fn eq_spec(&self, other: &Self) -> bool {
        self@ == other@
    }
}

/// An object with a valid time: the instant that it applies to.
pub trait ValidTime {
    /// The valid time, in contracts.
    spec fn valid_at(&self) -> Option<i64>;

    /// Get the valid time.
    fn valid_time(&self) -> (time: Option<i64>)
        ensures
            time == self.valid_at(),
    ;
}

/// An object with a valid time and a lead time: how far ahead of its run's
/// start the forecast looks.
pub trait ModelTimes: ValidTime {
    /// The lead time, in contracts.
    spec fn lead(&self) -> Option<i64>;

    /// Get the lead time.
    fn lead_time(&self) -> (time: Option<i64>)
        ensures
            time == self.lead(),
    ;
}

/// A `Vec` of elements with valid times, in the order of the source.
pub struct TimeSeries<T: ValidTime> {
    pub data: Vec<T>,
}

impl<T: ValidTime> TimeSeries<T> {
    /// The elements as a slice.
    pub fn as_ref(&self) -> (items: &[T])
        ensures
            items@ == self.data@,
    {
        self.data.as_slice()
    }
}

/// A `MetaData` and a list of items, each with the time at which its model run
/// started.
pub struct EnsembleList<T> {
    pub meta: MetaData,
    pub data: Vec<(i64, T)>,
}

/// An `EnsembleList` of `TimeSeries`: one series for each model run.
pub type EnsembleSeries<T> = EnsembleList<TimeSeries<T>>;

/// A `MetaData` and one `TimeSeries`: a single model run, or several runs
/// merged so that each valid time has the member with the shortest lead time.
pub struct MergedSeries<T: ValidTime> {
    pub meta: MetaData,
    pub data: TimeSeries<T>,
}

/// The values of the entries that hold one, in their order.
pub open spec fn somes<V>(picks: Seq<Option<V>>) -> Seq<V>
    decreases picks.len(),
{
    if picks.len() == 0 {
        Seq::empty()
    } else {
        match picks.last() {
            Some(v) => somes(picks.drop_last()).push(v),
            None => somes(picks.drop_last()),
        }
    }
}

/// What `somes` makes of a sequence with one more entry.
pub proof fn lemma_somes_push<V>(picks: Seq<Option<V>>, pick: Option<V>)
    ensures
        somes(picks.push(pick)) == match pick {
            Some(v) => somes(picks).push(v),
            None => somes(picks),
        },
{
    assert(picks.push(pick).drop_last() =~= picks);
}

/// `somes` keeps no more values than there are entries.
pub proof fn lemma_somes_len<V>(picks: Seq<Option<V>>)
    ensures
        somes(picks).len() <= picks.len(),
    decreases picks.len(),
{
    if picks.len() > 0 {
        lemma_somes_len(picks.drop_last());
    }
}

/// Every value that `somes` keeps is the value of an entry, and it stands
/// behind the values of the entries before that one and no others.
pub proof fn lemma_somes_member<V>(picks: Seq<Option<V>>, k: int) -> (i: int)
    requires
        0 <= k < somes(picks).len(),
    ensures
        0 <= i < picks.len(),
        picks[i] == Some(somes(picks)[k]),
        somes(picks.take(i)).len() == k,
    decreases picks.len(),
{
    let rest = picks.drop_last();
    if picks.last() is Some && k == somes(rest).len() {
        assert(picks.take(picks.len() - 1) =~= rest);
        picks.len() - 1
    } else {
        let i = lemma_somes_member(rest, k);
        assert(rest.take(i) =~= picks.take(i));
        i
    }
}

/// A run's start time paired with what was made of its item, if anything was.
pub open spec fn tag<U>(init_time: i64, pick: Option<U>) -> Option<(i64, U)> {
    match pick {
        Some(u) => Some((init_time, u)),
        None => None,
    }
}

/// Each run's start time paired with what was made of its item, where
/// something was made of it.
pub open spec fn tagged<T, U>(data: Seq<(i64, T)>, picks: Seq<Option<U>>) -> Seq<Option<(i64, U)>> {
    Seq::new(data.len(), |i: int| tag(data[i].0, picks[i]))
}

/// `picks` holds, for each item, something that `func` may return for it.
pub open spec fn answers<T, U, F: Fn(&T) -> Option<U>>(
    func: F,
    items: Seq<T>,
    picks: Seq<Option<U>>,
) -> bool {
    &&& picks.len() == items.len()
    &&& forall|i: int|
        0 <= i < items.len() ==> call_ensures(func, (&items[i],), #[trigger] picks[i])
}

/// A run under its start time, unless nothing is left of it.
pub open spec fn nonempty_run<U>(init_time: i64, items: Seq<U>) -> Option<(i64, Seq<U>)> {
    if items.len() == 0 {
        None
    } else {
        Some((init_time, items))
    }
}

/// Each run with the elements of which something was made, where any is left.
pub open spec fn thinned<T: ValidTime, U>(
    data: Seq<(i64, TimeSeries<T>)>,
    picks: Seq<Seq<Option<U>>>,
) -> Seq<Option<(i64, Seq<U>)>> {
    Seq::new(data.len(), |r: int| nonempty_run(data[r].0, somes(picks[r])))
}

/// The runs of an ensemble as start times and sequences of elements.
pub open spec fn runs_of<T: ValidTime>(data: Seq<(i64, TimeSeries<T>)>) -> Seq<(i64, Seq<T>)> {
    Seq::new(data.len(), |r: int| (data[r].0, data[r].1.data@))
}

/// Apply `func` to every item and keep, in their order, what it made.
fn filter_map_items<T, U, F>(items: &Vec<T>, func: &F) -> (out: Vec<U>) where
    F: Fn(&T) -> Option<U>,

    requires
        forall|i: int| 0 <= i < items.len() ==> call_requires(*func, (&#[trigger] items[i],)),
    ensures
        exists|picks: Seq<Option<U>>| answers(*func, items@, picks) && out@ == somes(picks),
{
    let mut out: Vec<U> = Vec::new();
    let ghost mut picks: Seq<Option<U>> = Seq::empty();
    let mut i: usize = 0;
    while i < items.len()
        invariant
            i <= items.len(),
            picks.len() == i,
            forall|j: int| 0 <= j < items.len() ==> call_requires(*func, (&#[trigger] items[j],)),
            forall|j: int| 0 <= j < i ==> call_ensures(*func, (&items[j],), #[trigger] picks[j]),
            out@ == somes(picks),
        decreases items.len() - i,
    {
        let pick = func(&items[i]);
        proof {
            lemma_somes_push(picks, pick);
            picks = picks.push(pick);
        }
        match pick {
            Some(u) => {
                out.push(u);
            },
            None => {},
        }
        i += 1;
    }
    proof {
        assert(answers(*func, items@, picks));
    }
    out
}

impl<T> EnsembleList<T> {
    /// Apply `func` to the item of every run and keep, in their order, the runs
    /// of which it made something, each under its start time.
    pub fn filter_map<U, F>(&self, func: F) -> (out: EnsembleList<U>) where F: Fn(&T) -> Option<U>
        requires
            forall|i: int| 0 <= i < self.data.len() ==> call_requires(func, (&#[trigger] self.data[i].1,)),
        ensures
            out.meta == self.meta,
            exists|picks: Seq<Option<U>>|
                {
                    &&& picks.len() == self.data.len()
                    &&& forall|i: int|
                        0 <= i < picks.len() ==> call_ensures(
                            func,
                            (&self.data[i].1,),
                            #[trigger] picks[i],
                        )
                    &&& out.data@ == somes(tagged(self.data@, picks))
                },
    {
        let mut data: Vec<(i64, U)> = Vec::new();
        let ghost mut picks: Seq<Option<U>> = Seq::empty();
        let mut i: usize = 0;
        while i < self.data.len()
            invariant
                i <= self.data.len(),
                picks.len() == i,
                forall|j: int| 0 <= j < self.data.len() ==> call_requires(func, (&#[trigger] self.data[j].1,)),
                forall|j: int| 0 <= j < i ==> call_ensures(func, (&self.data[j].1,), #[trigger] picks[j]),
                data@ == somes(tagged(self.data@.take(i as int), picks)),
            decreases self.data.len() - i,
        {
            let pick = func(&self.data[i].1);
            proof {
                let before = tagged(self.data@.take(i as int), picks);
                let after = tagged(self.data@.take(i + 1), picks.push(pick));
                let entry = tag(self.data[i as int].0, pick);
                assert(after =~= before.push(entry));
                lemma_somes_push(before, entry);
                picks = picks.push(pick);
            }
            match pick {
                Some(u) => {
                    data.push((self.data[i].0, u));
                },
                None => {},
            }
            i += 1;
        }
        proof {
            assert(self.data@.take(i as int) =~= self.data@);
        }
        EnsembleList { meta: self.meta.clone(), data }
    }

    /// Check if there are no runs.
    pub fn is_empty(&self) -> (empty: bool)
        ensures
            empty == (self.data.len() == 0),
    {
        self.data.is_empty()
    }
}

impl<T: ValidTime> EnsembleList<TimeSeries<T>> {
    /// Apply `func` to every element of every run, keep what it made, and drop
    /// each run of which nothing is left. No run of the result is empty.
    pub fn filter_map_inner<U, F>(&self, func: F) -> (out: EnsembleList<TimeSeries<U>>) where
        F: Fn(&T) -> Option<U>,
        U: ValidTime,

        requires
            forall|r: int, e: int|
                0 <= r < self.data.len() && 0 <= e < self.data[r].1.data.len() ==> call_requires(
                    func,
                    (&#[trigger] self.data[r].1.data[e],),
                ),
        ensures
            out.meta == self.meta,
            forall|k: int| 0 <= k < out.data.len() ==> (#[trigger] out.data[k]).1.data.len() >= 1,
            exists|picks: Seq<Seq<Option<U>>>|
                {
                    &&& picks.len() == self.data.len()
                    &&& forall|r: int|
                        0 <= r < picks.len() ==> answers(
                            func,
                            self.data[r].1.data@,
                            #[trigger] picks[r],
                        )
                    &&& runs_of(out.data@) == somes(thinned(self.data@, picks))
                },
    {
        let mut data: Vec<(i64, TimeSeries<U>)> = Vec::new();
        let ghost mut picks: Seq<Seq<Option<U>>> = Seq::empty();
        let mut r: usize = 0;
        while r < self.data.len()
            invariant
                r <= self.data.len(),
                picks.len() == r,
                forall|i: int, e: int|
                    0 <= i < self.data.len() && 0 <= e < self.data[i].1.data.len()
                        ==> call_requires(func, (&#[trigger] self.data[i].1.data[e],)),
                forall|i: int|
                    0 <= i < r ==> answers(func, self.data[i].1.data@, #[trigger] picks[i]),
                forall|k: int| 0 <= k < data.len() ==> (#[trigger] data[k]).1.data.len() >= 1,
                runs_of(data@) == somes(thinned(self.data@.take(r as int), picks)),
            decreases self.data.len() - r,
        {
            let inner = filter_map_items(&self.data[r].1.data, &func);
            let ghost run_picks = choose|p: Seq<Option<U>>|
                answers(func, self.data[r as int].1.data@, p) && inner@ == somes(p);
            let ghost before = thinned(self.data@.take(r as int), picks);
            let ghost entry = nonempty_run(self.data[r as int].0, inner@);
            let ghost kept = runs_of(data@);
            proof {
                let after = thinned(self.data@.take(r + 1), picks.push(run_picks));
                assert(after =~= before.push(entry));
                lemma_somes_push(before, entry);
                picks = picks.push(run_picks);
            }
            if !inner.is_empty() {
                data.push((self.data[r].0, TimeSeries { data: inner }));
                proof {
                    assert(runs_of(data@) =~= kept.push((self.data[r as int].0, inner@)));
                }
            }
            r += 1;
        }
        proof {
            assert(self.data@.take(r as int) =~= self.data@);
        }
        EnsembleList { meta: self.meta.clone(), data }
    }
}

impl<T: ValidTime> MergedSeries<T> {
    /// Apply `func` to every element and keep, in their order, what it made.
    pub fn filter_map<U, F>(&self, func: F) -> (out: MergedSeries<U>) where
        F: Fn(&T) -> Option<U>,
        U: ValidTime,

        requires
            forall|i: int|
                0 <= i < self.data.data.len() ==> call_requires(
                    func,
                    (&#[trigger] self.data.data[i],),
                ),
        ensures
            out.meta == self.meta,
            exists|picks: Seq<Option<U>>|
                answers(func, self.data.data@, picks) && out.data.data@ == somes(picks),
    {
        let data = filter_map_items(&self.data.data, &func);
        MergedSeries { meta: self.meta.clone(), data: TimeSeries { data } }
    }

    /// Check if the series has no elements.
    pub fn is_empty(&self) -> (empty: bool)
        ensures
            empty == (self.data.data.len() == 0),
    {
        self.data.as_ref().is_empty()
    }
}

} // verus!
