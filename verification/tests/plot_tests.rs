use bufkit_data::{SiteInfo, StationNumber};
use graphs::plot::{
    data_file_name, data_row, data_rows, ensemble_plot_commands, merged_plot_commands, meta_data_header,
    num_hours, plot_settings, time_stamp, write_climo, write_ensemble_data, write_merged_data, DataFile,
    DataRow, Plot, GP_DATE_FORMAT,
};
use graphs::timeseries::MetaData;

const NOON_15TH: i64 = 1_592_222_400; // 2020-06-15 12:00

fn plot_meta() -> MetaData {
    MetaData {
        site: SiteInfo {
            station_num: StationNumber::from(727730),
            name: Some("Missoula".to_owned()),
            notes: None,
            state: None,
            time_zone: None,
        },
        model: "nam4km".to_owned(),
        start: NOON_15TH - 2 * 86_400,
        now: NOON_15TH,
        end: NOON_15TH + 3 * 86_400 + 1800,
    }
}

fn row(valid_time: i64, lead_time: i32, hdw: &str) -> DataRow {
    DataRow {
        valid_time,
        lead_time,
        blow_up_dt: "1.5".to_owned(),
        blow_up_height: "NaN".to_owned(),
        hdw: hdw.to_owned(),
    }
}

const HEADER: &str =
    "# Site: Missoula (727730)\n# Model: nam4km\n# Start: 2020-06-13-12\n# Now: 2020-06-15-12\n# End: 2020-06-18-12\n\n";

#[test]
fn time_stamp_shows_year_month_day_and_hour() {
    assert_eq!(GP_DATE_FORMAT, "%Y-%m-%d-%H");
    assert_eq!(time_stamp(NOON_15TH), Some("2020-06-15-12".to_owned()));
    assert_eq!(time_stamp(NOON_15TH + 3599), Some("2020-06-15-12".to_owned()));
    assert_eq!(time_stamp(0), Some("1970-01-01-00".to_owned()));
    assert_eq!(time_stamp(-1), Some("1969-12-31-23".to_owned()));
    assert_eq!(time_stamp(i64::MAX), None);
    assert_eq!(time_stamp(i64::MIN), None);
}

#[test]
fn meta_data_header_has_site_model_and_times() {
    assert_eq!(meta_data_header("Missoula (727730)", &plot_meta()), Some(HEADER.to_owned()));
    let mut meta = plot_meta();
    meta.end = i64::MAX;
    assert_eq!(meta_data_header("Missoula (727730)", &meta), None);
}

#[test]
fn data_row_has_five_columns() {
    assert_eq!(data_row(&row(NOON_15TH, 6, "42.25")), Some("2020-06-15-12 6 1.5 NaN 42.25\n".to_owned()));
    assert_eq!(data_row(&row(NOON_15TH, -3, "0")), Some("2020-06-15-12 -3 1.5 NaN 0\n".to_owned()));
    assert_eq!(data_row(&row(NOON_15TH, 0, "0")), Some("2020-06-15-12 0 1.5 NaN 0\n".to_owned()));
    assert_eq!(
        data_row(&row(NOON_15TH, i32::MIN, "0")),
        Some("2020-06-15-12 -2147483648 1.5 NaN 0\n".to_owned())
    );
    assert_eq!(data_row(&row(NOON_15TH, 120, "0")), Some("2020-06-15-12 120 1.5 NaN 0\n".to_owned()));
    assert_eq!(data_row(&row(i64::MAX, 6, "42.25")), None);
}

#[test]
fn data_rows_come_in_order() {
    let rows = vec![row(NOON_15TH, 0, "1"), row(NOON_15TH + 10_800, 3, "2")];
    assert_eq!(data_rows(&rows), Some("2020-06-15-12 0 1.5 NaN 1\n2020-06-15-15 3 1.5 NaN 2\n".to_owned()));
    assert_eq!(data_rows(&vec![]), Some(String::new()));
    let rows = vec![row(NOON_15TH, 0, "1"), row(i64::MIN, 3, "2"), row(NOON_15TH, 0, "3")];
    assert_eq!(data_rows(&rows), None);
}

#[test]
fn merged_data_is_header_columns_and_rows() {
    let rows = vec![row(NOON_15TH, 0, "1"), row(NOON_15TH + 10_800, 3, "2")];
    let expected = format!(
        "{}valid_time lead_time blow_up_dt blow_up_height hdw\n2020-06-15-12 0 1.5 NaN 1\n2020-06-15-15 3 1.5 NaN 2\n",
        HEADER
    );
    assert_eq!(write_merged_data("Missoula (727730)", &plot_meta(), &rows), Some(expected));
    let rows = vec![row(i64::MAX, 0, "1")];
    assert_eq!(write_merged_data("Missoula (727730)", &plot_meta(), &rows), None);
}

#[test]
fn ensemble_data_has_a_block_for_each_run() {
    let runs = vec![
        (NOON_15TH, vec![row(NOON_15TH, 0, "1"), row(NOON_15TH + 10_800, 3, "2")]),
        (NOON_15TH + 21_600, vec![row(NOON_15TH + 21_600, 0, "3")]),
    ];
    let expected = format!(
        "{}valid_time lead_time blow_up_dt blow_up_height hdw\n\
         # init_time: 2020-06-15-12\n2020-06-15-12 0 1.5 NaN 1\n2020-06-15-15 3 1.5 NaN 2\n\n\
         # init_time: 2020-06-15-18\n2020-06-15-18 0 1.5 NaN 3\n\n",
        HEADER
    );
    assert_eq!(write_ensemble_data("Missoula (727730)", &plot_meta(), &runs), Some(expected));
    let none: Vec<(i64, Vec<DataRow>)> = Vec::new();
    assert_eq!(
        write_ensemble_data("Missoula (727730)", &plot_meta(), &none),
        Some(format!("{}valid_time lead_time blow_up_dt blow_up_height hdw\n", HEADER))
    );
    let runs = vec![(i64::MAX, vec![row(NOON_15TH, 0, "1")])];
    assert_eq!(write_ensemble_data("Missoula (727730)", &plot_meta(), &runs), None);
}

#[test]
fn climo_without_data_is_one_line_of_nan() {
    let expected = format!(
        "{}valid_time min 10th 20th 30th 40th median 60th 70th 80th 90th max\n\
         2020-06-13-12 NaN NaN NaN NaN NaN NaN NaN NaN NaN NaN NaN\n",
        HEADER
    );
    assert_eq!(write_climo("Missoula (727730)", &plot_meta(), &None), Some(expected));
}

#[test]
fn climo_with_data_has_a_line_for_each_hour() {
    let values: Vec<String> = (0..11).map(|n| format!("{}.5", n)).collect();
    let deciles = Some(vec![(NOON_15TH, values.clone()), (NOON_15TH + 3600, values)]);
    let expected = format!(
        "{}valid_time min 10th 20th 30th 40th median 60th 70th 80th 90th max\n\
         2020-06-15-12 0.5 1.5 2.5 3.5 4.5 5.5 6.5 7.5 8.5 9.5 10.5\n\
         2020-06-15-13 0.5 1.5 2.5 3.5 4.5 5.5 6.5 7.5 8.5 9.5 10.5\n",
        HEADER
    );
    assert_eq!(write_climo("Missoula (727730)", &plot_meta(), &deciles), Some(expected));
    assert_eq!(
        write_climo("Missoula (727730)", &plot_meta(), &Some(vec![])),
        Some(format!("{}valid_time min 10th 20th 30th 40th median 60th 70th 80th 90th max\n", HEADER))
    );
    assert_eq!(write_climo("Missoula (727730)", &plot_meta(), &Some(vec![(i64::MAX, vec![])])), None);
}

#[test]
fn num_hours_rounds_towards_zero() {
    let mut meta = plot_meta();
    assert_eq!(num_hours(&meta), 72);
    meta.now = 0;
    meta.end = 7199;
    assert_eq!(num_hours(&meta), 1);
    meta.now = 7199;
    meta.end = 0;
    assert_eq!(num_hours(&meta), -1);
    meta.now = i64::MAX;
    meta.end = i64::MIN;
    assert_eq!(num_hours(&meta), -5_124_095_576_030_431);
    meta.now = i64::MIN;
    meta.end = i64::MAX;
    assert_eq!(num_hours(&meta), 5_124_095_576_030_431);
}

#[test]
fn plot_settings_set_the_variables_of_the_script() {
    let expected = "num_hours=72\nnow_time=\"2020-06-15-12\"\nstart_time=\"2020-06-13-12\"\n\
                    end_time=\"2020-06-18-12\"\nmain_title=\"Fire Weather Parameters - Missoula - NAM4KM\"\n\
                    output_name=\"727730_NAM4KM_ens.png\"\n";
    assert_eq!(plot_settings("Missoula", 727730, &plot_meta(), Plot::Ensemble), Some(expected.to_owned()));
    let expected = "num_hours=72\nnow_time=\"2020-06-15-12\"\nstart_time=\"2020-06-13-12\"\n\
                    end_time=\"2020-06-18-12\"\nmain_title=\"Fire Weather Parameters - Missoula (727730) - NAM4KM\"\n\
                    output_name=\"727730_NAM4KM\"\n";
    assert_eq!(plot_settings("Missoula (727730)", 727730, &plot_meta(), Plot::Merged), Some(expected.to_owned()));
    let mut meta = plot_meta();
    meta.start = i64::MIN;
    assert_eq!(plot_settings("Missoula", 727730, &meta, Plot::Merged), None);
}

#[test]
fn data_file_name_has_station_model_and_kind() {
    assert_eq!(data_file_name("text", 727730, "gfs", DataFile::Ensemble), "text/727730_GFS_ens.dat");
    assert_eq!(data_file_name("out/dir", 0, "LocalWrf", DataFile::Merged), "out/dir/0_LOCALWRF_mrg.dat");
    assert_eq!(data_file_name("", u32::MAX, "nam", DataFile::Climo), "/4294967295_NAM_cli.dat");
}

// The seconds since the Unix epoch of a time as the output shows it.
fn seconds_of_stamp(stamp: &str) -> i64 {
    let parts: Vec<i64> = stamp.split('-').map(|part| part.parse().unwrap()).collect();
    let day = chrono::NaiveDate::from_ymd_opt(parts[0] as i32, parts[1] as u32, parts[2] as u32).unwrap();
    day.and_hms_opt(parts[3] as u32, 0, 0).unwrap().and_utc().timestamp()
}

#[test]
fn merged_data_can_be_read_back() {
    let values: Vec<(i64, i32, f64, f64, f64)> = vec![
        (NOON_15TH, 0, 1.25, 2345.5, 17.0),
        (NOON_15TH + 3 * 3600, 3, -0.1, 2000.000001, 0.30000000000000004),
        (NOON_15TH + 6 * 3600, 6, 1e-9, 99999.75, 123456.789),
        (NOON_15TH + 9 * 3600, -1, 0.0, 1.0e21, 4.9e-324),
    ];
    let rows: Vec<DataRow> = values
        .iter()
        .map(|(valid_time, lead_time, dt, height, hdw)| DataRow {
            valid_time: *valid_time,
            lead_time: *lead_time,
            blow_up_dt: format!("{}", dt),
            blow_up_height: format!("{}", height),
            hdw: format!("{}", hdw),
        })
        .collect();
    let text = write_merged_data("Missoula (727730)", &plot_meta(), &rows).unwrap();
    let lines: Vec<&str> = text.lines().collect();
    assert_eq!(lines[6], "valid_time lead_time blow_up_dt blow_up_height hdw");
    let read: Vec<(i64, i32, f64, f64, f64)> = lines[7..]
        .iter()
        .map(|line| {
            let cols: Vec<&str> = line.split(' ').collect();
            assert_eq!(cols.len(), 5);
            (
                seconds_of_stamp(cols[0]),
                cols[1].parse().unwrap(),
                cols[2].parse().unwrap(),
                cols[3].parse().unwrap(),
                cols[4].parse().unwrap(),
            )
        })
        .collect();
    assert_eq!(read.len(), values.len());
    for (got, want) in read.iter().zip(values.iter()) {
        assert_eq!((got.0, got.1), (want.0, want.1));
        assert!((got.2 - want.2).abs() <= 1e-12 * want.2.abs());
        assert!((got.3 - want.3).abs() <= 1e-12 * want.3.abs());
        assert!((got.4 - want.4).abs() <= 1e-12 * want.4.abs());
    }
}

#[test]
fn ensemble_plot_commands_are_variables_data_and_script() {
    let runs = vec![(NOON_15TH, vec![row(NOON_15TH, 0, "1")])];
    let expected = format!(
        "num_hours=72\nnow_time=\"2020-06-15-12\"\nstart_time=\"2020-06-13-12\"\n\
         end_time=\"2020-06-18-12\"\nmain_title=\"Fire Weather Parameters - Missoula - NAM4KM\"\n\
         output_name=\"727730_NAM4KM_ens.png\"\n\
         $data << EOD\n{}valid_time lead_time blow_up_dt blow_up_height hdw\n\
         # init_time: 2020-06-15-12\n2020-06-15-12 0 1.5 NaN 1\n\nEOD\nplot $data\n",
        HEADER
    );
    assert_eq!(
        ensemble_plot_commands("Missoula", "Missoula (727730)", 727730, &plot_meta(), &runs, "plot $data\n"),
        Some(expected)
    );
    let runs = vec![(i64::MAX, vec![])];
    assert_eq!(
        ensemble_plot_commands("Missoula", "Missoula (727730)", 727730, &plot_meta(), &runs, "plot $data\n"),
        None
    );
}

#[test]
fn merged_plot_commands_have_the_climate_data_too() {
    let rows = vec![row(NOON_15TH, 0, "1")];
    let expected = format!(
        "num_hours=72\nnow_time=\"2020-06-15-12\"\nstart_time=\"2020-06-13-12\"\n\
         end_time=\"2020-06-18-12\"\n\
         main_title=\"Fire Weather Parameters - Missoula (727730) - NAM4KM\"\n\
         output_name=\"727730_NAM4KM\"\n\
         $data << EOD\n{}valid_time lead_time blow_up_dt blow_up_height hdw\n\
         2020-06-15-12 0 1.5 NaN 1\nEOD\n\
         $hdw_climo << EOD\n{}valid_time min 10th 20th 30th 40th median 60th 70th 80th 90th max\n\
         2020-06-13-12 NaN NaN NaN NaN NaN NaN NaN NaN NaN NaN NaN\nEOD\nplot $data\n",
        HEADER, HEADER
    );
    assert_eq!(
        merged_plot_commands("Missoula (727730)", 727730, &plot_meta(), &rows, &None, "plot $data\n"),
        Some(expected)
    );
    let rows = vec![row(i64::MIN, 0, "1")];
    assert_eq!(
        merged_plot_commands("Missoula (727730)", 727730, &plot_meta(), &rows, &None, "plot $data\n"),
        None
    );
}
