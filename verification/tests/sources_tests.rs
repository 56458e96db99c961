use bufkit_data::{BufkitDataErr, SiteInfo, StationNumber};
use graphs::messages::{InnerMessage, Message};
use graphs::sources::{
    archive_window, data_message, failure_message, init_time, label_runs, num_days, ArchiveReply, FanOut,
    FileBatch, FileData, FileStep, Head, Model, RangeLoader, RawRun, SourceError,
};
use graphs::timeseries::MetaData;
use std::path::PathBuf;

const NOON: i64 = 1_592_222_400; // 2020-06-15 12:00
const DAY: i64 = 86_400;

// A text in the Bufkit format with one sounding for each stamp, each with two levels.
fn bufkit_text(stamps: &[(&str, i32)]) -> String {
    let mut text = String::new();
    text.push_str("SNPARM = PRES;TMPC;TMWC;DWPC;THTE;DRCT;SKNT;OMEG;HGHT\n");
    text.push_str("STNPRM = SHOW;LIFT;SWET;KINX;LCLP;PWAT;TOTL;CAPE;LCLT;CINS;EQLV;LFCT;BRCH\n\n");
    for (stamp, lead) in stamps {
        text.push_str(&format!("STID = KTST STNM = 123456 TIME = {}\n", stamp));
        text.push_str("SLAT = 40.25 SLON = -100.50 SELV = 512.0\n");
        text.push_str(&format!("STIM = {}\n\n", lead));
        text.push_str("SHOW = 4.10 LIFT = 3.20 SWET = 31.00 KINX = 12.00\n");
        text.push_str("LCLP = 801.00 PWAT = 11.00 TOTL = 41.00 CAPE = 7.00\n");
        text.push_str("LCLT = 271.00 CINS = 0.00 EQLV = 702.00 LFCT = 783.00\n");
        text.push_str("BRCH = 0.40\n\n");
        text.push_str("PRES TMPC TMWC DWPC THTE DRCT SKNT OMEG\n");
        text.push_str("HGHT\n");
        text.push_str("951.00 21.00 15.50 11.00 321.00 181.00 5.50 -1.10\n");
        text.push_str("512.00\n");
        text.push_str("902.00 17.00 12.50 8.50 319.50 192.00 8.50 -1.20\n");
        text.push_str("968.00\n\n");
    }
    text.push_str("STN YYMMDD/HHMM PMSL PRES T2MS TD2M\n");
    for (stamp, _) in stamps {
        text.push_str(&format!("123456 {} 1015.50 951.00 21.50 11.50\n", stamp));
    }
    text
}

// A text in the Bufkit format that holds surface data and no sounding.
fn text_without_soundings() -> String {
    let mut text = String::new();
    text.push_str("SNPARM = PRES;TMPC;TMWC;DWPC;THTE;DRCT;SKNT;OMEG;HGHT\n");
    text.push_str("STNPRM = SHOW;LIFT;SWET;KINX;LCLP;PWAT;TOTL;CAPE;LCLT;CINS;EQLV;LFCT;BRCH\n\n");
    text.push_str("STN YYMMDD/HHMM PMSL PRES T2MS TD2M\n");
    text.push_str("123456 200615/1200 1015.50 951.00 21.50 11.50\n");
    text
}

// What the parser of the Bufkit format finds at the head of a text.
fn head_of(text: &str) -> Head {
    match sounding_bufkit::BufkitData::init(text, "") {
        Ok(data) => match data.into_iter().nth(0) {
            Some((sounding, _)) => Head::Sounding(sounding.valid_time().map(|time| time.and_utc().timestamp())),
            None => Head::Empty,
        },
        Err(err) => Head::Refused(err.to_string()),
    }
}

fn raw(text: String) -> RawRun {
    RawRun { head: head_of(&text), text }
}

fn a_site(number: u32, name: &str) -> SiteInfo {
    SiteInfo {
        station_num: StationNumber::from(number),
        name: Some(name.to_owned()),
        notes: None,
        state: None,
        time_zone: None,
    }
}

fn data_of(message: Message) -> (MetaData, Vec<(i64, String)>) {
    match message.payload() {
        InnerMessage::StringData(list) => (list.meta, list.data),
        InnerMessage::BufkitDataError(err) => panic!("a failure: {:?}", err),
    }
}

fn failure_of(message: Message) -> SourceError {
    match message.payload() {
        InnerMessage::StringData(_) => panic!("data where a failure was expected"),
        InnerMessage::BufkitDataError(err) => err,
    }
}

#[test]
fn num_days_of_each_model() {
    assert_eq!(num_days(Model::GFS), 7);
    assert_eq!(num_days(Model::NAM), 4);
    assert_eq!(num_days(Model::NAM4KM), 3);
}

#[test]
fn archive_window_reaches_back_and_ahead() {
    assert_eq!(archive_window(NOON, 2, Model::GFS), Some((NOON - 2 * DAY, NOON + 7 * DAY)));
    assert_eq!(archive_window(NOON, 0, Model::NAM), Some((NOON, NOON + 4 * DAY)));
    assert_eq!(archive_window(0, -1, Model::NAM4KM), Some((DAY, 3 * DAY)));
    assert_eq!(archive_window(-5, 1, Model::NAM4KM), Some((-5 - DAY, -5 + 3 * DAY)));
}

#[test]
fn archive_window_that_cannot_be_held_is_none() {
    assert_eq!(archive_window(i64::MAX, 0, Model::GFS), None);
    assert_eq!(archive_window(i64::MAX - 3 * DAY, 0, Model::NAM4KM), Some((i64::MAX - 3 * DAY, i64::MAX)));
    assert_eq!(archive_window(i64::MAX - 3 * DAY, 0, Model::NAM), None);
    assert_eq!(archive_window(i64::MIN, 1, Model::GFS), None);
    assert_eq!(archive_window(0, i64::MAX, Model::GFS), None);
    assert_eq!(archive_window(0, i64::MAX / DAY + 1, Model::GFS), None);
    assert_eq!(archive_window(i64::MIN + DAY, 1, Model::GFS), Some((i64::MIN, i64::MIN + 8 * DAY)));
}

#[test]
fn message_hands_its_payload_back() {
    let meta = MetaData { site: a_site(1, "One"), model: "gfs".to_owned(), start: 1, now: 2, end: 3 };
    let (meta, runs) = data_of(data_message(meta, vec![(5, "five".to_owned())]));
    assert_eq!(meta.site, a_site(1, "One"));
    assert_eq!((meta.start, meta.now, meta.end), (1, 2, 3));
    assert_eq!(runs, vec![(5, "five".to_owned())]);
    assert!(matches!(failure_of(failure_message(SourceError::NotInIndex)), SourceError::NotInIndex));
    let message = Message::from(InnerMessage::BufkitDataError(SourceError::Malformed("bad".to_owned())));
    match failure_of(message) {
        SourceError::Malformed(text) => assert_eq!(text, "bad"),
        other => panic!("unexpected: {:?}", other),
    }
}

#[test]
fn init_time_is_the_valid_time_of_the_first_sounding() {
    let text = bufkit_text(&[("200615/1200", 0), ("200615/1500", 3)]);
    assert!(matches!(init_time(head_of(&text)), Ok(NOON)));
    let text = bufkit_text(&[("200615/1800", 6)]);
    assert!(matches!(init_time(head_of(&text)), Ok(t) if t == NOON + 6 * 3600));
}

#[test]
fn init_time_of_what_is_no_bufkit_text_is_malformed() {
    assert!(matches!(init_time(head_of("not a sounding")), Err(SourceError::Malformed(_))));
    assert!(matches!(init_time(head_of("")), Err(SourceError::Malformed(_))));
}

#[test]
fn init_time_of_a_text_without_soundings_is_not_enough_data() {
    assert!(matches!(init_time(head_of(&text_without_soundings())), Err(SourceError::NotEnoughData)));
    // Without a row of surface data the text is not in the format at all.
    assert!(matches!(init_time(head_of(&bufkit_text(&[]))), Err(SourceError::Malformed(_))));
}

#[test]
fn init_time_goes_by_the_head_of_the_text() {
    assert!(matches!(init_time(Head::Sounding(Some(9))), Ok(9)));
    assert!(matches!(init_time(Head::Sounding(Some(i64::MIN))), Ok(i64::MIN)));
    assert!(matches!(init_time(Head::Sounding(None)), Err(SourceError::NotEnoughData)));
    assert!(matches!(init_time(Head::Empty), Err(SourceError::NotEnoughData)));
    match init_time(Head::Refused("no break point".to_owned())) {
        Err(SourceError::Malformed(message)) => assert_eq!(message, "no break point"),
        _ => panic!("a text that the parser refuses is malformed"),
    }
}

#[test]
fn label_runs_drops_texts_without_start_time() {
    let first = bufkit_text(&[("200615/1200", 0)]);
    let second = bufkit_text(&[("200615/1800", 0), ("200615/2100", 3)]);
    let runs = label_runs(vec![
        raw(first.clone()),
        raw("garbage".to_owned()),
        raw(text_without_soundings()),
        RawRun { head: Head::Sounding(None), text: "no valid time".to_owned() },
        raw(second.clone()),
    ]);
    assert_eq!(runs, vec![(NOON, first), (NOON + 6 * 3600, second)]);
    assert!(label_runs(vec![]).is_empty());
}

fn two_files() -> FileData {
    FileData {
        site: a_site(7, "Seven"),
        model: "LocalWrf".to_owned(),
        start: NOON,
        end: NOON + 3 * DAY,
        files: vec![PathBuf::from("a.buf"), PathBuf::from("b.buf")],
    }
}

#[test]
fn file_loader_with_an_unreadable_file_emits_one_failure() {
    let batch = match FileBatch::start(two_files()) {
        FileStep::Read(batch) => batch,
        FileStep::Done(_) => panic!("nothing was read yet"),
    };
    assert_eq!(batch.next_path(), &PathBuf::from("a.buf"));
    let batch = match batch.accept(Ok(raw(bufkit_text(&[("200615/1200", 0)])))) {
        FileStep::Read(batch) => batch,
        FileStep::Done(_) => panic!("a file is left"),
    };
    assert_eq!(batch.next_path(), &PathBuf::from("b.buf"));
    let message = match batch.accept(Err(BufkitDataErr::GeneralError("cannot open b.buf".to_owned()))) {
        FileStep::Read(_) => panic!("the loader went on after a failure"),
        FileStep::Done(message) => message,
    };
    match failure_of(message) {
        SourceError::Archive(BufkitDataErr::GeneralError(text)) => assert_eq!(text, "cannot open b.buf"),
        other => panic!("unexpected: {:?}", other),
    }
}

#[test]
fn file_loader_stops_at_the_first_failure() {
    let batch = match FileBatch::start(two_files()) {
        FileStep::Read(batch) => batch,
        FileStep::Done(_) => panic!("nothing was read yet"),
    };
    match batch.accept(Err(BufkitDataErr::NotInIndex)) {
        FileStep::Done(message) => {
            assert!(matches!(failure_of(message), SourceError::Archive(BufkitDataErr::NotInIndex)))
        }
        FileStep::Read(_) => panic!("the loader went on after a failure"),
    }
    let batch = match FileBatch::start(two_files()) {
        FileStep::Read(batch) => batch,
        FileStep::Done(_) => panic!("nothing was read yet"),
    };
    match batch.accept(Ok(raw("no sounding here".to_owned()))) {
        FileStep::Done(message) => assert!(matches!(failure_of(message), SourceError::Malformed(_))),
        FileStep::Read(_) => panic!("the loader went on after a failure"),
    }
    let batch = match FileBatch::start(two_files()) {
        FileStep::Read(batch) => batch,
        FileStep::Done(_) => panic!("nothing was read yet"),
    };
    match batch.accept(Ok(raw(text_without_soundings()))) {
        FileStep::Done(message) => assert!(matches!(failure_of(message), SourceError::NotEnoughData)),
        FileStep::Read(_) => panic!("the loader went on after a failure"),
    }
}

#[test]
fn file_loader_packs_all_runs_into_one_message() {
    let first = bufkit_text(&[("200615/1200", 0), ("200615/1500", 3)]);
    let second = bufkit_text(&[("200616/1200", 0)]);
    let batch = match FileBatch::start(two_files()) {
        FileStep::Read(batch) => batch,
        FileStep::Done(_) => panic!("nothing was read yet"),
    };
    let batch = match batch.accept(Ok(raw(first.clone()))) {
        FileStep::Read(batch) => batch,
        FileStep::Done(_) => panic!("a file is left"),
    };
    let message = match batch.accept(Ok(raw(second.clone()))) {
        FileStep::Done(message) => message,
        FileStep::Read(_) => panic!("no file is left"),
    };
    let (meta, runs) = data_of(message);
    assert_eq!(runs, vec![(NOON, first), (NOON + DAY, second)]);
    assert_eq!(meta.site, a_site(7, "Seven"));
    assert_eq!(meta.model, "LocalWrf");
    assert_eq!(meta.start, NOON);
    assert_eq!(meta.now, NOON);
    assert_eq!(meta.end, NOON + 3 * DAY);
}

#[test]
fn file_loader_without_files_emits_an_empty_message() {
    let mut file_data = two_files();
    file_data.files.clear();
    match FileBatch::start(file_data) {
        FileStep::Done(message) => {
            let (meta, runs) = data_of(message);
            assert!(runs.is_empty());
            assert_eq!(meta.now, NOON);
        }
        FileStep::Read(_) => panic!("there is no file to read"),
    }
}

#[test]
fn range_loader_without_matching_runs_emits_an_empty_message() {
    let loader = RangeLoader::start("kmso", Model::GFS, NOON, 2).unwrap();
    let loader = loader.step(ArchiveReply::Connected);
    assert!(matches!(&loader, RangeLoader::FindingSite(query) if query.site == "kmso"));
    let loader = loader.step(ArchiveReply::Site(Some(a_site(727730, "Missoula"))));
    match &loader {
        RangeLoader::Retrieving(query, site) => {
            assert_eq!(site.station_num, StationNumber::from(727730));
            assert_eq!((query.start, query.time, query.end), (NOON - 2 * DAY, NOON, NOON + 7 * DAY));
            assert_eq!(query.model, Model::GFS);
        }
        _ => panic!("the loader should retrieve now"),
    }
    let message = match loader.step(ArchiveReply::Texts(vec![])) {
        RangeLoader::Done(message) => message,
        _ => panic!("the loader should be done"),
    };
    let (meta, runs) = data_of(message);
    assert!(runs.is_empty());
    assert_eq!(meta.model, "gfs");
    assert_eq!(meta.site, a_site(727730, "Missoula"));
    assert_eq!((meta.start, meta.now, meta.end), (NOON - 2 * DAY, NOON, NOON + 7 * DAY));
}

#[test]
fn range_loader_emits_the_runs_with_a_start_time() {
    let text = bufkit_text(&[("200615/1200", 0)]);
    let loader = RangeLoader::start("c18", Model::NAM4KM, NOON, 1).unwrap();
    let loader = loader.step(ArchiveReply::Connected);
    let loader = loader.step(ArchiveReply::Site(Some(a_site(18, "C18"))));
    let message = match loader.step(ArchiveReply::Texts(vec![raw("junk".to_owned()), raw(text.clone())])) {
        RangeLoader::Done(message) => message,
        _ => panic!("the loader should be done"),
    };
    let (meta, runs) = data_of(message);
    assert_eq!(runs, vec![(NOON, text)]);
    assert_eq!(meta.model, "nam4km");
    assert_eq!(meta.end, NOON + 3 * DAY);
}

#[test]
fn range_loader_ends_with_the_first_failure() {
    let loader = RangeLoader::start("kmso", Model::NAM, NOON, 2).unwrap();
    match loader.step(ArchiveReply::Failed(BufkitDataErr::GeneralError("no archive".to_owned()))) {
        RangeLoader::Done(message) => {
            assert!(matches!(failure_of(message), SourceError::Archive(BufkitDataErr::GeneralError(_))))
        }
        _ => panic!("the loader should be done"),
    }
    let loader = RangeLoader::start("kmso", Model::NAM, NOON, 2).unwrap().step(ArchiveReply::Connected);
    match loader.step(ArchiveReply::Site(None)) {
        RangeLoader::Done(message) => assert!(matches!(failure_of(message), SourceError::NotInIndex)),
        _ => panic!("the loader should be done"),
    }
    let loader = RangeLoader::start("kmso", Model::NAM, NOON, 2).unwrap().step(ArchiveReply::Connected);
    match loader.step(ArchiveReply::Failed(BufkitDataErr::NotEnoughData)) {
        RangeLoader::Done(message) => {
            assert!(matches!(failure_of(message), SourceError::Archive(BufkitDataErr::NotEnoughData)))
        }
        _ => panic!("the loader should be done"),
    }
    let loader = RangeLoader::start("kmso", Model::NAM, NOON, 2)
        .unwrap()
        .step(ArchiveReply::Connected)
        .step(ArchiveReply::Site(Some(a_site(1, "One"))));
    let done = loader.step(ArchiveReply::Failed(BufkitDataErr::NotInIndex));
    // Once done, the loader stays done with its one message.
    let done = done.step(ArchiveReply::Connected).step(ArchiveReply::Texts(vec![]));
    match done {
        RangeLoader::Done(message) => {
            assert!(matches!(failure_of(message), SourceError::Archive(BufkitDataErr::NotInIndex)))
        }
        _ => panic!("the loader should be done"),
    }
}

#[test]
fn range_loader_ignores_what_it_did_not_ask_for() {
    let loader = RangeLoader::start("kmso", Model::GFS, NOON, 2).unwrap();
    let loader = loader.step(ArchiveReply::Texts(vec![]));
    assert!(matches!(loader, RangeLoader::Connecting(_)));
    let loader = loader.step(ArchiveReply::Connected).step(ArchiveReply::Connected);
    assert!(matches!(loader, RangeLoader::FindingSite(_)));
    let loader = loader.step(ArchiveReply::Sites(vec![]));
    assert!(matches!(loader, RangeLoader::FindingSite(_)));
}

#[test]
fn range_loader_needs_a_window_that_can_be_held() {
    assert!(RangeLoader::start("kmso", Model::GFS, i64::MAX, 2).is_none());
    assert!(RangeLoader::start("kmso", Model::GFS, 0, i64::MAX).is_none());
    assert!(FanOut::start(i64::MAX - 4 * DAY, 2).is_none());
    assert!(FanOut::start(i64::MAX - 7 * DAY, 2).is_some());
}

// Run a sweep over an archive with the given sites, where retrieving fails for `failing`.
fn sweep(sites: &[SiteInfo], failing: Option<(u32, &str)>) -> Vec<Message> {
    let mut emitted = Vec::new();
    let mut state = FanOut::start(NOON, 2).unwrap();
    loop {
        let reply = match &state {
            FanOut::Connecting { .. } => ArchiveReply::Connected,
            FanOut::Listing { .. } => ArchiveReply::Sites(sites.to_vec()),
            FanOut::Retrieving { target, site, sweep, .. } => {
                assert_eq!(sweep.start, NOON - 2 * DAY);
                assert_eq!(sweep.now, NOON);
                let name = match target.model {
                    Model::GFS => "gfs",
                    Model::NAM => "nam",
                    Model::NAM4KM => "nam4km",
                };
                if failing == Some((site.station_num.into(), name)) {
                    ArchiveReply::Failed(BufkitDataErr::NotInIndex)
                } else {
                    ArchiveReply::Texts(vec![raw(bufkit_text(&[("200615/1200", 0)]))])
                }
            }
            FanOut::Finished => break,
        };
        let (next, message) = state.step(reply);
        state = next;
        emitted.extend(message);
    }
    emitted
}

#[test]
fn fan_out_emits_one_message_for_each_site_and_model() {
    let sites = vec![a_site(1, "One"), a_site(2, "Two")];
    let emitted = sweep(&sites, None);
    assert_eq!(emitted.len(), 6);
    let seen: Vec<(u32, String, i64)> = emitted
        .into_iter()
        .map(|message| {
            let (meta, runs) = data_of(message);
            assert_eq!(runs.len(), 1);
            assert_eq!(runs[0].0, NOON);
            assert_eq!((meta.start, meta.now), (NOON - 2 * DAY, NOON));
            (meta.site.station_num.into(), meta.model, meta.end)
        })
        .collect();
    assert_eq!(
        seen,
        vec![
            (1, "gfs".to_owned(), NOON + 7 * DAY),
            (2, "gfs".to_owned(), NOON + 7 * DAY),
            (1, "nam".to_owned(), NOON + 4 * DAY),
            (2, "nam".to_owned(), NOON + 4 * DAY),
            (1, "nam4km".to_owned(), NOON + 3 * DAY),
            (2, "nam4km".to_owned(), NOON + 3 * DAY),
        ]
    );
}

#[test]
fn fan_out_goes_on_after_a_failed_retrieval() {
    let sites = vec![a_site(1, "One"), a_site(2, "Two")];
    let emitted = sweep(&sites, Some((1, "nam")));
    assert_eq!(emitted.len(), 6);
    let mut data = 0;
    let mut failures = 0;
    for (place, message) in emitted.into_iter().enumerate() {
        match message.payload() {
            InnerMessage::StringData(_) => data += 1,
            InnerMessage::BufkitDataError(err) => {
                assert_eq!(place, 2);
                assert!(matches!(err, SourceError::Archive(BufkitDataErr::NotInIndex)));
                failures += 1;
            }
        }
    }
    assert_eq!((data, failures), (5, 1));
}

#[test]
fn fan_out_without_sites_emits_nothing() {
    assert!(sweep(&[], None).is_empty());
}

#[test]
fn fan_out_ends_when_the_sites_cannot_be_listed() {
    let state = FanOut::start(NOON, 2).unwrap();
    let (state, message) = state.step(ArchiveReply::Connected);
    assert!(message.is_none());
    assert!(matches!(&state, FanOut::Listing { target, later, .. } if target.model == Model::GFS && later.len() == 2));
    let (state, message) = state.step(ArchiveReply::Sites(vec![a_site(1, "One")]));
    assert!(message.is_none());
    let (state, message) = state.step(ArchiveReply::Texts(vec![]));
    assert!(data_of(message.unwrap()).1.is_empty());
    assert!(matches!(&state, FanOut::Listing { target, later, .. } if target.model == Model::NAM && later.len() == 1));
    let (state, message) = state.step(ArchiveReply::Failed(BufkitDataErr::GeneralError("locked".to_owned())));
    assert!(matches!(failure_of(message.unwrap()), SourceError::Archive(BufkitDataErr::GeneralError(_))));
    assert!(matches!(state, FanOut::Finished));
    let (state, message) = state.step(ArchiveReply::Connected);
    assert!(message.is_none());
    assert!(matches!(state, FanOut::Finished));
}

#[test]
fn fan_out_ends_when_the_archive_cannot_be_opened() {
    let state = FanOut::start(NOON, 2).unwrap();
    let (state, message) = state.step(ArchiveReply::Sites(vec![]));
    assert!(message.is_none());
    assert!(matches!(&state, FanOut::Connecting { targets, .. } if targets.len() == 3));
    let (state, message) = state.step(ArchiveReply::Failed(BufkitDataErr::NotEnoughData));
    assert!(matches!(failure_of(message.unwrap()), SourceError::Archive(BufkitDataErr::NotEnoughData)));
    assert!(matches!(state, FanOut::Finished));
}
