use bufkit_data::{SiteInfo, StationNumber};
use graphs::timeseries::{EnsembleList, EnsembleSeries, MergedSeries, MetaData, TimeSeries};
use graphs::types::analyzed_data::{AnalyzedData, Reading};

fn some_meta() -> MetaData {
    MetaData {
        site: SiteInfo {
            station_num: StationNumber::from(3),
            name: None,
            notes: Some("a note".to_owned()),
            state: None,
            time_zone: None,
        },
        model: "nam".to_owned(),
        start: 100,
        now: 200,
        end: 300,
    }
}

fn same_meta(a: &MetaData, b: &MetaData) -> bool {
    a.site == b.site && a.model == b.model && a.start == b.start && a.now == b.now && a.end == b.end
}

fn datum(valid_time: i64, lead_time: i32) -> AnalyzedData {
    AnalyzedData {
        valid_time,
        lead_time,
        hdw: Reading { bits: 1 },
        blow_up_dt: Reading { bits: 2 },
        blow_up_height: Reading { bits: 3 },
    }
}

#[test]
fn meta_data_clone_is_equal() {
    let meta = some_meta();
    let copy = meta.clone();
    assert!(same_meta(&meta, &copy));
    assert!(meta == copy);
    assert_eq!(copy.site.notes, Some("a note".to_owned()));
}

#[test]
fn meta_data_differs_where_a_field_differs() {
    let meta = some_meta();
    let mut other = some_meta();
    assert!(meta == other);
    other.now = 201;
    assert!(meta != other);
    let mut other = some_meta();
    other.start = 99;
    assert!(meta != other);
    let mut other = some_meta();
    other.end = 301;
    assert!(meta != other);
    let mut other = some_meta();
    other.model = "gfs".to_owned();
    assert!(meta != other);
    let mut other = some_meta();
    other.site.notes = None;
    assert!(meta != other);
}

#[test]
fn filter_map_keeps_order_and_init_times() {
    let list = EnsembleList { meta: some_meta(), data: vec![(10, 1u32), (20, 2), (30, 3), (40, 4), (50, 5)] };
    let out = list.filter_map(|n| if n % 2 == 1 { Some(format!("#{}", n)) } else { None });
    assert_eq!(out.data, vec![(10, "#1".to_owned()), (30, "#3".to_owned()), (50, "#5".to_owned())]);
    assert!(same_meta(&out.meta, &list.meta));
    assert_eq!(list.data.len(), 5);
}

#[test]
fn filter_map_may_drop_every_run() {
    let list = EnsembleList { meta: some_meta(), data: vec![(10, 1u32), (20, 2)] };
    let out: EnsembleList<u32> = list.filter_map(|_| None);
    assert!(out.is_empty());
    assert!(!list.is_empty());
    let empty: EnsembleList<u32> = EnsembleList { meta: some_meta(), data: vec![] };
    assert!(empty.is_empty());
    let out = empty.filter_map(|n| Some(*n));
    assert!(out.is_empty());
}

#[test]
fn filter_map_inner_never_yields_an_empty_run() {
    let ens: EnsembleSeries<AnalyzedData> = EnsembleList {
        meta: some_meta(),
        data: vec![
            (1, TimeSeries { data: vec![datum(10, 0), datum(11, 1), datum(12, 2)] }),
            (2, TimeSeries { data: vec![datum(11, 1), datum(13, 3)] }),
            (3, TimeSeries { data: vec![] }),
            (4, TimeSeries { data: vec![datum(14, 0)] }),
        ],
    };
    // Keep the elements with an even valid time, with the lead time doubled.
    let out = ens.filter_map_inner(|a| {
        if a.valid_time % 2 == 0 {
            Some(datum(a.valid_time, a.lead_time * 2))
        } else {
            None
        }
    });
    let rows: Vec<(i64, Vec<(i64, i32)>)> = out
        .data
        .iter()
        .map(|(init, series)| (*init, series.as_ref().iter().map(|a| (a.valid_time, a.lead_time)).collect()))
        .collect();
    assert_eq!(rows, vec![(1, vec![(10, 0), (12, 4)]), (4, vec![(14, 0)])]);
    for (_, series) in out.data.iter() {
        assert!(series.data.len() >= 1);
    }
    assert!(same_meta(&out.meta, &ens.meta));

    let none = ens.filter_map_inner(|_| None::<AnalyzedData>);
    assert!(none.is_empty());
}

#[test]
fn merged_series_filter_map_and_is_empty() {
    let merged = MergedSeries {
        meta: some_meta(),
        data: TimeSeries { data: vec![datum(1, 0), datum(2, 0), datum(3, 0), datum(4, 0)] },
    };
    assert!(!merged.is_empty());
    let out = merged.filter_map(|a| if a.valid_time > 2 { Some(datum(a.valid_time * 10, 7)) } else { None });
    let rows: Vec<(i64, i32)> = out.data.data.iter().map(|a| (a.valid_time, a.lead_time)).collect();
    assert_eq!(rows, vec![(30, 7), (40, 7)]);
    assert!(same_meta(&out.meta, &merged.meta));
    let out = merged.filter_map(|_| None::<AnalyzedData>);
    assert!(out.is_empty());
}

#[test]
fn time_series_as_ref_is_its_data() {
    let series = TimeSeries { data: vec![datum(1, 0), datum(2, 5)] };
    let items = series.as_ref();
    assert_eq!(items.len(), 2);
    assert_eq!(items[1].valid_time, 2);
    assert_eq!(items[1].lead_time, 5);
}
