use crate::messages::{InnerMessage, Message, Payload};
use crate::sources::SourceError;
use crate::timeseries::{
    nonempty_run, runs_of, somes, tag, tagged, thinned, EnsembleSeries, MetaView, TimeSeries,
};
use crate::types::analyzed_data::{AnalyzedData, FireMetrics};
use crate::types::{parse_sounding, windowed, Profile};
use vstd::prelude::*;

verus! {

/// What the first stage makes of a message.
pub enum Parsed {
    /// The runs that have soundings in the window of the message.
    Series(EnsembleSeries<Profile>),
    /// No run has a sounding in the window: the message is dropped.
    Empty,
    /// The message carried a failure: it is to be reported and dropped.
    Failed(SourceError),
}

/// `parses` holds, for the text of each run, something that `decode` may
/// return for it.
pub open spec fn decodes<D: Fn(&String) -> Option<Vec<Profile>>>(
    decode: D,
    runs: Seq<(i64, String)>,
    parses: Seq<Option<Vec<Profile>>>,
) -> bool {
    &&& parses.len() == runs.len()
    &&& forall|i: int|
        0 <= i < runs.len() ==> call_ensures(decode, (&runs[i].1,), #[trigger] parses[i])
}

/// Each run of a message with the soundings of its parse that lie in the
/// window, where it has any.
pub open spec fn parsed_runs(
    runs: Seq<(i64, String)>,
    parses: Seq<Option<Vec<Profile>>>,
    start: i64,
    end: i64,
) -> Seq<(i64, Seq<Profile>)> {
    somes(
        Seq::new(runs.len(), |i: int| nonempty_run(runs[i].0, windowed(parses[i], start, end))),
    )
}

/// `parsed` is what the first stage makes of a message with data: there are
/// parses of its texts by `decode` whose soundings in the window of the
/// message are the runs of `parsed`, and where there are none, nothing is
/// left of the message.
pub open spec fn parse_of<D: Fn(&String) -> Option<Vec<Profile>>>(
    decode: D,
    meta: MetaView,
    runs: Seq<(i64, String)>,
    parsed: Parsed,
) -> bool {
    exists|parses: Seq<Option<Vec<Profile>>>| #[trigger]
        decodes(decode, runs, parses) && match parsed {
            Parsed::Series(series) => series.meta@ == meta && series.data.len() > 0 && runs_of(
                series.data@,
            ) == parsed_runs(runs, parses, meta.start, meta.end),
            Parsed::Empty => parsed_runs(runs, parses, meta.start, meta.end).len() == 0,
            Parsed::Failed(_) => false,
        }
}

/// The runs that are kept, as sequences, are the kept ones of the runs as
/// sequences.
proof fn lemma_runs_of_kept(
    kept: Seq<Option<(i64, TimeSeries<Profile>)>>,
    wanted: Seq<Option<(i64, Seq<Profile>)>>,
)
    requires
        kept.len() == wanted.len(),
        forall|i: int|
            0 <= i < kept.len() ==> (#[trigger] wanted[i]) == match kept[i] {
                Some(run) => Some((run.0, run.1.data@)),
                None => None,
            },
    ensures
        runs_of(somes(kept)) == somes(wanted),
    decreases kept.len(),
{
    if kept.len() == 0 {
        assert(runs_of(somes(kept)) =~= somes(wanted));
    } else {
        lemma_runs_of_kept(kept.drop_last(), wanted.drop_last());
        assert(wanted.last() == wanted[wanted.len() - 1]);
        match kept.last() {
            Some(run) => {
                assert(runs_of(somes(kept.drop_last()).push(run)) =~= runs_of(
                    somes(kept.drop_last()),
                ).push((run.0, run.1.data@)));
            },
            None => {},
        }
    }
}

/// `decode` may be called on `text`.
spec fn can_decode<D: Fn(&String) -> Option<Vec<Profile>>>(decode: &D, text: &String) -> bool {
    call_requires(*decode, (text,))
}

/// `decode` may return `parse` for `text`.
spec fn decoded<D: Fn(&String) -> Option<Vec<Profile>>>(
    decode: &D,
    text: &String,
    parse: Option<Vec<Profile>>,
) -> bool {
    call_ensures(*decode, (text,), parse)
}

/// What one text gave, seen from the series that was made of it.
spec fn series_of_parse(
    parse: Option<Vec<Profile>>,
    start: i64,
    end: i64,
    series: Option<TimeSeries<Profile>>,
) -> bool {
    match series {
        Some(kept) => kept.data@ == windowed(parse, start, end) && kept.data.len() > 0,
        None => windowed(parse, start, end).len() == 0,
    }
}

/// The parse behind the series that was made of one text.
spec fn parse_behind<D: Fn(&String) -> Option<Vec<Profile>>>(
    decode: D,
    text: String,
    start: i64,
    end: i64,
    series: Option<TimeSeries<Profile>>,
) -> Option<Vec<Profile>> {
    choose|parse: Option<Vec<Profile>>|
        call_ensures(decode, (&text,), parse) && series_of_parse(parse, start, end, series)
}

/// The first stage on one message. A failure is handed on to be reported. Of
/// a message with data, each text is parsed with `decode` and the soundings in
/// the window from `start` to `end` of the message are kept; a text that
/// cannot be parsed, or has no sounding there, loses its run, and a message
/// that loses every run is dropped.
pub fn parse_message<D>(message: Message, decode: D) -> (parsed: Parsed) where
    D: Fn(&String) -> Option<Vec<Profile>>,

    requires
        forall|text: String| call_requires(decode, (&text,)),
    ensures
        match message@ {
            Payload::Failure(err) => parsed == Parsed::Failed(err),
            Payload::Data { meta, runs } => parse_of(decode, meta, runs, parsed),
        },
        parsed matches Parsed::Series(series) ==> forall|k: int|
            0 <= k < series.data.len() ==> (#[trigger] series.data[k]).1.data.len() >= 1,
{
    match message.payload() {
        InnerMessage::StringData(list) => {
            let start = list.meta.start;
            let end = list.meta.end;
            let reader = &decode;
            let parse = |text: &String| -> (series: Option<TimeSeries<Profile>>)
                requires
                    can_decode(reader, text),
                ensures
                    exists|parse: Option<Vec<Profile>>|
                        decoded(reader, text, parse) && series_of_parse(parse, start, end, series),
                {
                    let found = reader(text);
                    let ghost seen = found;
                    let series = parse_sounding(found, start, end);
                    assert(decoded(reader, text, seen) && series_of_parse(seen, start, end, series));
                    series
                };
            let series = list.filter_map(parse);
            proof {
                let picks = choose|picks: Seq<Option<TimeSeries<Profile>>>|
                    {
                        &&& picks.len() == list.data.len()
                        &&& forall|i: int|
                            0 <= i < picks.len() ==> call_ensures(
                                parse,
                                (&list.data[i].1,),
                                #[trigger] picks[i],
                            )
                        &&& series.data@ == somes(tagged(list.data@, picks))
                    };
                let runs = list.data@;
                let parses = Seq::new(
                    runs.len(),
                    |i: int| parse_behind(decode, runs[i].1, start, end, picks[i]),
                );
                assert forall|i: int| 0 <= i < runs.len() implies call_ensures(
                    decode,
                    (&runs[i].1,),
                    #[trigger] parses[i],
                ) && series_of_parse(parses[i], start, end, picks[i]) by {
                    assert(call_ensures(parse, (&list.data[i].1,), picks[i]));
                }
                assert(decodes(decode, runs, parses));
                let kept = tagged(runs, picks);
                let wanted = Seq::new(
                    runs.len(),
                    |i: int| nonempty_run(runs[i].0, windowed(parses[i], start, end)),
                );
                assert forall|i: int| 0 <= i < kept.len() implies (#[trigger] wanted[i])
                    == match kept[i] {
                    Some(run) => Some((run.0, run.1.data@)),
                    None => None,
                } by {
                    assert(series_of_parse(parses[i], start, end, picks[i]));
                    assert(kept[i] == tag(runs[i].0, picks[i]));
                }
                lemma_runs_of_kept(kept, wanted);
                assert(runs_of(series.data@) == parsed_runs(runs, parses, start, end));
                assert forall|k: int| 0 <= k < series.data.len() implies (
                #[trigger] series.data[k]).1.data.len() >= 1 by {
                    let i = crate::timeseries::lemma_somes_member(kept, k);
                    assert(series_of_parse(parses[i], start, end, picks[i]));
                    assert(kept[i] == tag(runs[i].0, picks[i]));
                }
            }
            if series.is_empty() {
                Parsed::Empty
            } else {
                Parsed::Series(series)
            }
        },
        InnerMessage::BufkitDataError(err) => Parsed::Failed(err),
    }
}

/// What is made of a profile with the given fire weather quantities: the
/// profile's times with them, if it has both times.
pub open spec fn analyzed(profile: Profile, metrics: FireMetrics) -> Option<AnalyzedData> {
    match (profile.valid_time, profile.lead_time) {
        (Some(valid_time), Some(lead_time)) => Some(
            AnalyzedData {
                valid_time,
                lead_time,
                hdw: metrics.hdw,
                blow_up_dt: metrics.blow_up_dt,
                blow_up_height: metrics.blow_up_height,
            },
        ),
        _ => None,
    }
}

/// `readings` holds, for each profile of each run, quantities that `metrics`
/// may compute for it.
pub open spec fn measures<F: Fn(&Profile) -> FireMetrics>(
    metrics: F,
    data: Seq<(i64, TimeSeries<Profile>)>,
    readings: Seq<Seq<FireMetrics>>,
) -> bool {
    &&& readings.len() == data.len()
    &&& forall|r: int|
        0 <= r < data.len() ==> (#[trigger] readings[r]).len() == data[r].1.data.len()
    &&& forall|r: int, e: int|
        0 <= r < data.len() && 0 <= e < data[r].1.data.len() ==> call_ensures(
            metrics,
            (&data[r].1.data[e],),
            #[trigger] readings[r][e],
        )
}

/// What is made of each profile of each run with its quantities.
pub open spec fn analyses(
    data: Seq<(i64, TimeSeries<Profile>)>,
    readings: Seq<Seq<FireMetrics>>,
) -> Seq<Seq<Option<AnalyzedData>>> {
    Seq::new(
        data.len(),
        |r: int|
            Seq::new(data[r].1.data@.len(), |e: int| analyzed(data[r].1.data[e], readings[r][e])),
    )
}

/// `metrics` may be called on `profile`.
spec fn can_measure<F: Fn(&Profile) -> FireMetrics>(metrics: &F, profile: &Profile) -> bool {
    call_requires(*metrics, (profile,))
}

/// `metrics` may return `m` for `profile`.
spec fn measured<F: Fn(&Profile) -> FireMetrics>(
    metrics: &F,
    profile: &Profile,
    m: FireMetrics,
) -> bool {
    call_ensures(*metrics, (profile,), m)
}

/// The quantities behind what was made of one profile.
spec fn reading_behind<F: Fn(&Profile) -> FireMetrics>(
    metrics: F,
    profile: Profile,
    made: Option<AnalyzedData>,
) -> FireMetrics {
    choose|m: FireMetrics| call_ensures(metrics, (&profile,), m) && made == analyzed(profile, m)
}

/// The second half of the first stage: compute the fire weather quantities of
/// every profile with `metrics`, keep the profiles that have both times, each
/// with its quantities, and drop the runs of which nothing is left.
pub fn analyze_runs<F>(series: &EnsembleSeries<Profile>, metrics: F) -> (out: EnsembleSeries<
    AnalyzedData,
>) where F: Fn(&Profile) -> FireMetrics
    requires
        forall|r: int, e: int|
            0 <= r < series.data.len() && 0 <= e < series.data[r].1.data.len() ==> call_requires(
                metrics,
                (&#[trigger] series.data[r].1.data[e],),
            ),
    ensures
        out.meta == series.meta,
        forall|k: int| 0 <= k < out.data.len() ==> (#[trigger] out.data[k]).1.data.len() >= 1,
        exists|readings: Seq<Seq<FireMetrics>>|
            measures(metrics, series.data@, readings) && runs_of(out.data@) == somes(
                thinned(series.data@, analyses(series.data@, readings)),
            ),
{
    let measure = &metrics;
    let analyze = |profile: &Profile| -> (made: Option<AnalyzedData>)
        requires
            can_measure(measure, profile),
        ensures
            exists|m: FireMetrics| measured(measure, profile, m) && made == analyzed(*profile, m),
        {
            let m = measure(profile);
            let made = AnalyzedData::analyze(profile, m);
            assert(measured(measure, profile, m) && made == analyzed(*profile, m));
            made
        };
    let out = series.filter_map_inner(analyze);
    proof {
        let data = series.data@;
        let picks = choose|picks: Seq<Seq<Option<AnalyzedData>>>|
            {
                &&& picks.len() == series.data.len()
                &&& forall|r: int|
                    0 <= r < picks.len() ==> crate::timeseries::answers(
                        analyze,
                        series.data[r].1.data@,
                        #[trigger] picks[r],
                    )
                &&& runs_of(out.data@) == somes(thinned(series.data@, picks))
            };
        let readings = Seq::new(
            data.len(),
            |r: int|
                Seq::new(
                    data[r].1.data@.len(),
                    |e: int| reading_behind(metrics, data[r].1.data[e], picks[r][e]),
                ),
        );
        assert forall|r: int, e: int|
            0 <= r < data.len() && 0 <= e < data[r].1.data.len() implies call_ensures(
            metrics,
            (&data[r].1.data[e],),
            #[trigger] readings[r][e],
        ) && picks[r][e] == analyzed(data[r].1.data[e], readings[r][e]) by {
            assert(crate::timeseries::answers(analyze, series.data[r].1.data@, picks[r]));
            assert(call_ensures(analyze, (&data[r].1.data[e],), picks[r][e]));
        }
        assert forall|r: int| 0 <= r < data.len() implies (#[trigger] picks[r]) == analyses(
            data,
            readings,
        )[r] by {
            assert(crate::timeseries::answers(analyze, series.data[r].1.data@, picks[r]));
            assert forall|e: int| 0 <= e < picks[r].len() implies picks[r][e] == analyses(
                data,
                readings,
            )[r][e] by {
                assert(picks[r][e] == analyzed(data[r].1.data[e], readings[r][e]));
            }
            assert(picks[r] =~= analyses(data, readings)[r]);
        }
        assert(picks =~= analyses(data, readings));
        assert(measures(metrics, data, readings));
    }
    out
}

/// Where the first stage leaves a message.
pub enum Outcome {
    /// The message had soundings in its window: this is what was made of
    /// them, to be merged and plotted.
    Analyzed(EnsembleSeries<AnalyzedData>),
    /// The message had no sounding in its window and is gone.
    Dropped,
    /// The message carried a failure, which is to be reported; the message
    /// is gone.
    Reported(SourceError),
}

/// `out` is what the first stage makes of a message with data: there is a
/// parse of its runs in its window of which `out` is the analysis.
pub open spec fn analysis_of<D: Fn(&String) -> Option<Vec<Profile>>, F: Fn(&Profile) -> FireMetrics>(
    meta: MetaView,
    runs: Seq<(i64, String)>,
    decode: D,
    metrics: F,
    out: EnsembleSeries<AnalyzedData>,
) -> bool {
    exists|series: EnsembleSeries<Profile>, readings: Seq<Seq<FireMetrics>>|
        {
            &&& parse_of(decode, meta, runs, Parsed::Series(series))
            &&& #[trigger] measures(metrics, series.data@, readings)
            &&& out.meta == series.meta
            &&& runs_of(out.data@) == somes(
                thinned(series.data@, analyses(series.data@, readings)),
            )
        }
}

/// The first stage on one message: parse it with `decode` and analyze what
/// was parsed with `metrics`. A failure comes back to be reported, a message
/// without soundings in its window is dropped, and nothing else ends a
/// message here.
pub fn first_stage<D, F>(message: Message, decode: D, metrics: F) -> (outcome: Outcome) where
    D: Fn(&String) -> Option<Vec<Profile>>,
    F: Fn(&Profile) -> FireMetrics,

    requires
        forall|text: String| call_requires(decode, (&text,)),
        forall|profile: Profile| call_requires(metrics, (&profile,)),
    ensures
        match message@ {
            Payload::Failure(err) => outcome == Outcome::Reported(err),
            Payload::Data { meta, runs } => match outcome {
                Outcome::Analyzed(out) => analysis_of(meta, runs, decode, metrics, out) && (forall|
                    k: int,
                |
                    0 <= k < out.data.len() ==> (#[trigger] out.data[k]).1.data.len() >= 1),
                Outcome::Dropped => parse_of(decode, meta, runs, Parsed::Empty),
                Outcome::Reported(_) => false,
            },
        },
{
    let parsed = parse_message(message, decode);
    match parsed {
        Parsed::Series(series) => {
            let out = analyze_runs(&series, metrics);
            proof {
                let readings = choose|readings: Seq<Seq<FireMetrics>>|
                    measures(metrics, series.data@, readings) && runs_of(out.data@) == somes(
                        thinned(series.data@, analyses(series.data@, readings)),
                    );
                assert(measures(metrics, series.data@, readings));
            }
            Outcome::Analyzed(out)
        },
        Parsed::Empty => Outcome::Dropped,
        Parsed::Failed(err) => Outcome::Reported(err),
    }
}

} // verus!
